//! A declarative command-line option and process-configuration engine.
//!
//! A caller registers named options (numbers, strings, booleans, and their
//! list-valued variants), each with an optional short alias, default,
//! description, and validation rule.  The engine parses an argument vector
//! into a structured result, validates values against the declared rules,
//! and computes the environment-variable bindings that synchronize values
//! with a process environment under a configurable naming prefix.

pub mod assoc;
pub mod env_bridge;
pub mod laws;
pub mod num_text;
pub mod parse;
pub mod registry;
pub mod text;
pub mod values;

pub use env_bridge::to_env_key;
pub use parse::OptionsResult;
pub use registry::ConfigOptionBase;
pub use registry::RegisterError;
pub use registry::ValidateError;
pub use registry::Validator;
pub use registry::Whsp;
pub use registry::WhspOptions;
pub use registry::validate_options;
pub use values::ConfigKind;
pub use values::ParseError;
pub use values::ValidValue;
pub use values::from_env_val;
pub use values::to_env_val;
