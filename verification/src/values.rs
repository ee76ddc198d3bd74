//! The value model: the tagged union of accepted value kinds, its spec-level
//! view, and its textual serialization for environment storage and display.

use vstd::prelude::*;
use crate::num_text::dec_str_of;
use crate::num_text::in_i64;
use crate::num_text::parse_i64_spec;
use crate::num_text::parse_i64;
use crate::num_text::i64_to_string;

verus! {

/// The kind of value an option accepts: a signed integer, a text string,
/// or a boolean flag.
#[derive(Clone, Copy, PartialEq, Eq, Structural, Debug)]
pub enum ConfigKind {
    Number,
    String,
    Boolean,
}

/// A configuration value: immutable once constructed, compared only by
/// kind and payload.
#[derive(Debug)]
pub enum ValidValue {
    Number(i64),
    String(String),
    Boolean(bool),
}

/// Spec-level model of a `ValidValue`: the same tagged union over
/// mathematical payloads.
pub enum ValueModel {
    Number(int),
    String(Seq<char>),
    Boolean(bool),
}

impl View for ValidValue {
    type V = ValueModel;

    open spec fn view(&self) -> ValueModel {
        match self {
            ValidValue::Number(n) => ValueModel::Number(*n as int),
            ValidValue::String(s) => ValueModel::String(s@),
            ValidValue::Boolean(b) => ValueModel::Boolean(*b),
        }
    }
}

/// The kind a value model belongs to.
pub open spec fn kind_of(v: ValueModel) -> ConfigKind {
    match v {
        ValueModel::Number(_) => ConfigKind::Number,
        ValueModel::String(_) => ConfigKind::String,
        ValueModel::Boolean(_) => ConfigKind::Boolean,
    }
}

/// Whether a value model fits the machine representation: numbers within
/// the signed 64-bit range.
pub open spec fn wf_value(v: ValueModel) -> bool {
    match v {
        ValueModel::Number(n) => in_i64(n),
        ValueModel::String(_) => true,
        ValueModel::Boolean(_) => true,
    }
}

/// A value-decoding failure: text that cannot be read as the target kind.
#[derive(Clone, Copy, PartialEq, Eq, Structural, Debug)]
pub enum ParseError {
    MalformedNumber,
}

/// The environment encoding of a value: numbers as decimal text, strings
/// verbatim, booleans as `"1"` or `"0"`.
pub open spec fn env_text_of(v: ValueModel) -> Seq<char> {
    match v {
        ValueModel::Number(n) => dec_str_of(n),
        ValueModel::String(s) => s,
        ValueModel::Boolean(b) => if b {
            "1"@
        } else {
            "0"@
        },
    }
}

/// What decoding environment text as a value of kind `k` yields: strings
/// verbatim, numbers by decimal parsing, and booleans true exactly for
/// `"1"`.
pub open spec fn from_env_text_spec(t: Seq<char>, k: ConfigKind) -> Option<ValueModel> {
    match k {
        ConfigKind::Number => match parse_i64_spec(t) {
            Some(n) => Some(ValueModel::Number(n)),
            None => None,
        },
        ConfigKind::String => Some(ValueModel::String(t)),
        ConfigKind::Boolean => Some(ValueModel::Boolean(t == "1"@)),
    }
}

/// The display form of a value: numbers as decimal text, strings verbatim,
/// booleans as `"true"` or `"false"`.
pub open spec fn display_text_of(v: ValueModel) -> Seq<char> {
    match v {
        ValueModel::Number(n) => dec_str_of(n),
        ValueModel::String(s) => s,
        ValueModel::Boolean(b) => if b {
            "true"@
        } else {
            "false"@
        },
    }
}

impl ValidValue {
    /// The kind this value belongs to.
    pub fn kind(&self) -> (k: ConfigKind)
        ensures
            k == kind_of(self@),
    {
        match self {
            ValidValue::Number(_) => ConfigKind::Number,
            ValidValue::String(_) => ConfigKind::String,
            ValidValue::Boolean(_) => ConfigKind::Boolean,
        }
    }

    /// A copy of this value.
    pub fn duplicate(&self) -> (r: ValidValue)
        ensures
            r@ == self@,
    {
        match self {
            ValidValue::Number(n) => ValidValue::Number(*n),
            ValidValue::String(s) => ValidValue::String(s.clone()),
            ValidValue::Boolean(b) => ValidValue::Boolean(*b),
        }
    }

    /// The display form of this value.
    pub fn format(&self) -> (r: String)
        ensures
            r@ == display_text_of(self@),
    {
        match self {
            ValidValue::Number(n) => i64_to_string(*n),
            ValidValue::String(s) => s.clone(),
            ValidValue::Boolean(b) => if *b {
                "true".to_owned()
            } else {
                "false".to_owned()
            },
        }
    }
}

/// Encodes a value into its environment text form.
pub fn to_env_val(value: &ValidValue) -> (r: String)
    ensures
        r@ == env_text_of(value@),
{
    match value {
        ValidValue::Number(n) => i64_to_string(*n),
        ValidValue::String(s) => s.clone(),
        ValidValue::Boolean(b) => if *b {
            "1".to_owned()
        } else {
            "0".to_owned()
        },
    }
}

/// Decodes environment text into a value of the given kind: fails exactly
/// when a number kind meets text that is not valid decimal.
pub fn from_env_val(env: String, config_type: ConfigKind) -> (r: Result<ValidValue, ParseError>)
    ensures
        match r {
            Ok(v) => from_env_text_spec(env@, config_type) == Some(v@),
            Err(e) => from_env_text_spec(env@, config_type) is None && e
                == ParseError::MalformedNumber,
        },
{
    match config_type {
        ConfigKind::String => Ok(ValidValue::String(env)),
        ConfigKind::Number => match parse_i64(env.as_str()) {
            Some(n) => Ok(ValidValue::Number(n)),
            None => Err(ParseError::MalformedNumber),
        },
        ConfigKind::Boolean => {
            let one = "1".to_owned();
            Ok(ValidValue::Boolean(env == one))
        },
    }
}

} // verus!
