//! The option schema registry: declared options, alias bookkeeping, and
//! value validation against declared rules.

use vstd::prelude::*;
use crate::assoc::assoc_find;
use crate::assoc::assoc_insert;
use crate::assoc::distinct_keys;
use crate::assoc::lemma_assoc_insert_distinct;
use crate::assoc::assoc_idx;
use crate::assoc::assoc_set;
use crate::assoc::entries_view;
use crate::assoc::lemma_assoc_find_at;
use crate::assoc::lemma_assoc_find_absent;
use crate::text::char_is_alphanumeric;
use crate::text::is_alphanum;
use crate::values::ConfigKind;
use crate::values::ValidValue;
use crate::values::ValueModel;
use crate::values::kind_of;

verus! {

/// A validation rule for one option.  `Any` places no constraint; the
/// `Regex` rule compares the string payload for exact equality with the
/// stored pattern (deliberately so: no pattern matching is performed).
#[derive(Debug)]
pub enum Validator {
    NumberRange(i64, i64),
    Regex(String),
    Any,
}

/// Spec-level model of a `Validator`.
pub enum ValidatorModel {
    NumberRange(int, int),
    Regex(Seq<char>),
    Any,
}

impl View for Validator {
    type V = ValidatorModel;

    open spec fn view(&self) -> ValidatorModel {
        match self {
            Validator::NumberRange(lo, hi) => ValidatorModel::NumberRange(*lo as int, *hi as int),
            Validator::Regex(p) => ValidatorModel::Regex(p@),
            Validator::Any => ValidatorModel::Any,
        }
    }
}

/// The view of an optional string.
pub open spec fn str_opt_view(o: Option<String>) -> Option<Seq<char>> {
    match o {
        Some(s) => Some(s@),
        None => None,
    }
}

/// One declared option: its kind, optional short alias, optional default,
/// optional description, optional validation rule, and multiplicity flag.
#[derive(Debug)]
pub struct ConfigOptionBase {
    pub config_type: ConfigKind,
    pub short: Option<String>,
    pub default: Option<ValidValue>,
    pub description: Option<String>,
    pub validate: Option<Validator>,
    pub multiple: bool,
}

/// Spec-level model of a declared option.
pub struct OptionModel {
    pub config_type: ConfigKind,
    pub short: Option<Seq<char>>,
    pub default: Option<ValueModel>,
    pub description: Option<Seq<char>>,
    pub validate: Option<ValidatorModel>,
    pub multiple: bool,
}

impl View for ConfigOptionBase {
    type V = OptionModel;

    open spec fn view(&self) -> OptionModel {
        OptionModel {
            config_type: self.config_type,
            short: str_opt_view(self.short),
            default: match self.default {
                Some(v) => Some(v@),
                None => None,
            },
            description: str_opt_view(self.description),
            validate: match self.validate {
                Some(v) => Some(v@),
                None => None,
            },
            multiple: self.multiple,
        }
    }
}

impl ConfigOptionBase {
    /// A fresh option descriptor with no default and no validation rule.
    pub fn new(
        config_type: ConfigKind,
        multiple: bool,
        short: Option<String>,
        description: Option<String>,
    ) -> (r: ConfigOptionBase)
        ensures
            r.config_type == config_type,
            r.short == short,
            r.default is None,
            r.description == description,
            r.validate is None,
            r.multiple == multiple,
    {
        ConfigOptionBase {
            config_type,
            short,
            default: None,
            description,
            validate: None,
            multiple,
        }
    }

    /// A copy of this descriptor.
    pub fn duplicate(&self) -> (r: ConfigOptionBase)
        ensures
            r@ == self@,
    {
        ConfigOptionBase {
            config_type: self.config_type,
            short: match &self.short {
                Some(s) => Some(s.clone()),
                None => None,
            },
            default: match &self.default {
                Some(v) => Some(v.duplicate()),
                None => None,
            },
            description: match &self.description {
                Some(s) => Some(s.clone()),
                None => None,
            },
            validate: match &self.validate {
                Some(Validator::NumberRange(lo, hi)) => Some(Validator::NumberRange(*lo, *hi)),
                Some(Validator::Regex(p)) => Some(Validator::Regex(p.clone())),
                Some(Validator::Any) => Some(Validator::Any),
                None => None,
            },
            multiple: self.multiple,
        }
    }

    /// Whether `value` satisfies this option's rule: with no rule, the
    /// value's kind must match the declared kind; a number range admits
    /// numbers within it; the pattern rule admits exactly the stored text.
    pub fn validate_value(&self, value: &ValidValue) -> (r: bool)
        ensures
            r == valid_for(self@, value@),
    {
        match &self.validate {
            Some(Validator::Regex(p)) => match value {
                ValidValue::String(s) => *p == *s,
                _ => false,
            },
            Some(Validator::NumberRange(lo, hi)) => match value {
                ValidValue::Number(n) => *lo <= *n && *n <= *hi,
                _ => false,
            },
            Some(Validator::Any) => true,
            None => {
                let k = value.kind();
                k == self.config_type
            },
        }
    }
}

/// Whether `v` satisfies the rule of option model `o`.
pub open spec fn valid_for(o: OptionModel, v: ValueModel) -> bool {
    match o.validate {
        Some(ValidatorModel::Regex(p)) => v matches ValueModel::String(s) && s == p,
        Some(ValidatorModel::NumberRange(lo, hi)) => v matches ValueModel::Number(n) && lo <= n
            <= hi,
        Some(ValidatorModel::Any) => true,
        None => kind_of(v) == o.config_type,
    }
}

/// A registration failure.
#[derive(Clone, Copy, PartialEq, Eq, Structural, Debug)]
pub enum RegisterError {
    InvalidName,
    DuplicateShortAlias,
}

/// A validation failure.
#[derive(Clone, Copy, PartialEq, Eq, Structural, Debug)]
pub enum ValidateError {
    UnknownOption,
    TypeMismatch,
    OutOfRange,
    PatternMismatch,
}

/// The error a failed rule reports: pattern rules report `PatternMismatch`,
/// number ranges `OutOfRange`, and the bare kind check `TypeMismatch`.
pub open spec fn rule_error(o: OptionModel) -> ValidateError {
    match o.validate {
        Some(ValidatorModel::Regex(_)) => ValidateError::PatternMismatch,
        Some(ValidatorModel::NumberRange(_, _)) => ValidateError::OutOfRange,
        _ => ValidateError::TypeMismatch,
    }
}

/// Checks one value against one option, reporting the rule's error.
pub fn validate_options(config: &ConfigOptionBase, value: &ValidValue) -> (r: Result<
    (),
    ValidateError,
>)
    ensures
        r is Ok <==> valid_for(config@, value@),
        r is Err ==> r == Err::<(), ValidateError>(rule_error(config@)),
{
    if config.validate_value(value) {
        Ok(())
    } else {
        match &config.validate {
            Some(Validator::Regex(_)) => Err(ValidateError::PatternMismatch),
            Some(Validator::NumberRange(_, _)) => Err(ValidateError::OutOfRange),
            _ => Err(ValidateError::TypeMismatch),
        }
    }
}

/// Whether every character of a name is alphanumeric.
pub open spec fn name_ok(n: Seq<char>) -> bool {
    forall|i: int| 0 <= i < n.len() ==> is_alphanum(n[i])
}

/// Process-wide parsing policy: whether positionals are allowed (advisory
/// metadata only), the environment prefix, and usage text.
#[derive(Debug)]
pub struct WhspOptions {
    pub allow_positionals: bool,
    pub env_prefix: Option<String>,
    pub usage: Option<String>,
}

/// The option schema registry: declared options by name, short aliases by
/// alias text, and the parsing policy.
pub struct Whsp {
    pub config_set: Vec<(String, ConfigOptionBase)>,
    pub short_options: Vec<(String, String)>,
    pub options: WhspOptions,
}

/// One registration batch folded into a configuration, entry by entry in
/// order, each entry's kind forced to `kind` (and its multiplicity to true
/// when `list` is set) before an insert-or-overwrite.
pub open spec fn register_batch(
    cfg: Seq<(Seq<char>, OptionModel)>,
    batch: Seq<(Seq<char>, OptionModel)>,
    kind: ConfigKind,
    list: bool,
) -> Seq<(Seq<char>, OptionModel)>
    decreases batch.len(),
{
    if batch.len() == 0 {
        cfg
    } else {
        let o = OptionModel {
            config_type: kind,
            multiple: if list {
                true
            } else {
                batch[0].1.multiple
            },
            ..batch[0].1
        };
        register_batch(assoc_insert(cfg, batch[0].0, o), batch.drop_first(), kind, list)
    }
}

impl Whsp {
    /// The declared options, keyed by name.
    pub open spec fn spec_config(self) -> Seq<(Seq<char>, OptionModel)> {
        entries_view(self.config_set@)
    }

    /// The alias table, keyed by alias text.
    pub open spec fn spec_shorts(self) -> Seq<(Seq<char>, Seq<char>)> {
        entries_view(self.short_options@)
    }

    /// The declared option under `name`, if any.
    pub open spec fn spec_option(self, name: Seq<char>) -> Option<OptionModel> {
        assoc_find(self.spec_config(), name)
    }

    /// The name a short alias resolves to, if any.
    pub open spec fn spec_short(self, alias: Seq<char>) -> Option<Seq<char>> {
        assoc_find(self.spec_shorts(), alias)
    }

    /// The configured environment prefix, if any.
    pub open spec fn spec_prefix(self) -> Option<Seq<char>> {
        str_opt_view(self.options.env_prefix)
    }

    /// Well-formed: option names and alias texts are pairwise distinct, so
    /// each names one entry.  A registry built empty stays well-formed
    /// through every operation of this library.
    pub open spec fn wf(self) -> bool {
        distinct_keys(self.spec_config()) && distinct_keys(self.spec_shorts())
    }

    /// Folds one batch into the configuration, forcing each entry's kind
    /// (and, for list registrations, its multiplicity).
    #[verifier::loop_isolation(false)]
    fn register_with(&mut self, fields: Vec<(String, ConfigOptionBase)>, kind: ConfigKind, list: bool)
        ensures
            final(self).spec_config() == register_batch(
                old(self).spec_config(),
                entries_view(fields@),
                kind,
                list,
            ),
            final(self).short_options == old(self).short_options,
            final(self).options == old(self).options,
            old(self).wf() ==> final(self).wf(),
    {
        let ghost all = entries_view(fields@);
        let mut fields = fields;
        while fields.len() > 0
            invariant
                register_batch(old(self).spec_config(), all, kind, list) == register_batch(
                    self.spec_config(),
                    entries_view(fields@),
                    kind,
                    list,
                ),
                self.short_options == old(self).short_options,
                self.options == old(self).options,
                distinct_keys(old(self).spec_config()) ==> distinct_keys(self.spec_config()),
            decreases fields@.len(),
        {
            let ghost before = entries_view(fields@);
            let ghost cfg_before = self.spec_config();
            let (name, mut option) = fields.remove(0);
            proof {
                assert(entries_view(fields@) =~= before.drop_first());
            }
            option.config_type = kind;
            if list {
                option.multiple = true;
            }
            proof {
                assert(option@ == (OptionModel {
                    config_type: kind,
                    multiple: if list {
                        true
                    } else {
                        before[0].1.multiple
                    },
                    ..before[0].1
                }));
                if distinct_keys(cfg_before) {
                    lemma_assoc_insert_distinct(cfg_before, name@, option@);
                }
            }
            assoc_set(&mut self.config_set, name, option);
        }
        proof {
            assert(entries_view(fields@) =~= Seq::<(Seq<char>, OptionModel)>::empty());
        }
    }

    /// Registers a batch of number-kind options.
    pub fn num(&mut self, fields: Vec<(String, ConfigOptionBase)>)
        ensures
            final(self).spec_config() == register_batch(
                old(self).spec_config(),
                entries_view(fields@),
                ConfigKind::Number,
                false,
            ),
            final(self).short_options == old(self).short_options,
            final(self).options == old(self).options,
            old(self).wf() ==> final(self).wf(),
    {
        self.register_with(fields, ConfigKind::Number, false)
    }

    /// Registers a batch of list-valued number-kind options.
    pub fn num_list(&mut self, fields: Vec<(String, ConfigOptionBase)>)
        ensures
            final(self).spec_config() == register_batch(
                old(self).spec_config(),
                entries_view(fields@),
                ConfigKind::Number,
                true,
            ),
            final(self).short_options == old(self).short_options,
            final(self).options == old(self).options,
            old(self).wf() ==> final(self).wf(),
    {
        self.register_with(fields, ConfigKind::Number, true)
    }

    /// Registers a batch of string-kind options.
    pub fn opt(&mut self, fields: Vec<(String, ConfigOptionBase)>)
        ensures
            final(self).spec_config() == register_batch(
                old(self).spec_config(),
                entries_view(fields@),
                ConfigKind::String,
                false,
            ),
            final(self).short_options == old(self).short_options,
            final(self).options == old(self).options,
            old(self).wf() ==> final(self).wf(),
    {
        self.register_with(fields, ConfigKind::String, false)
    }

    /// Registers a batch of list-valued string-kind options.
    pub fn opt_list(&mut self, fields: Vec<(String, ConfigOptionBase)>)
        ensures
            final(self).spec_config() == register_batch(
                old(self).spec_config(),
                entries_view(fields@),
                ConfigKind::String,
                true,
            ),
            final(self).short_options == old(self).short_options,
            final(self).options == old(self).options,
            old(self).wf() ==> final(self).wf(),
    {
        self.register_with(fields, ConfigKind::String, true)
    }

    /// Registers a batch of boolean-kind options.
    pub fn flag(&mut self, fields: Vec<(String, ConfigOptionBase)>)
        ensures
            final(self).spec_config() == register_batch(
                old(self).spec_config(),
                entries_view(fields@),
                ConfigKind::Boolean,
                false,
            ),
            final(self).short_options == old(self).short_options,
            final(self).options == old(self).options,
            old(self).wf() ==> final(self).wf(),
    {
        self.register_with(fields, ConfigKind::Boolean, false)
    }

    /// Registers a batch of list-valued boolean-kind options.
    pub fn flag_list(&mut self, fields: Vec<(String, ConfigOptionBase)>)
        ensures
            final(self).spec_config() == register_batch(
                old(self).spec_config(),
                entries_view(fields@),
                ConfigKind::Boolean,
                true,
            ),
            final(self).short_options == old(self).short_options,
            final(self).options == old(self).options,
            old(self).wf() ==> final(self).wf(),
    {
        self.register_with(fields, ConfigKind::Boolean, true)
    }

    /// Whether `option`'s short alias (if any) is available to `name`:
    /// unclaimed, or already claimed by this very name.
    pub open spec fn short_ok(self, name: Seq<char>, option: ConfigOptionBase) -> bool {
        match str_opt_view(option.short) {
            Some(s) => match assoc_find(self.spec_shorts(), s) {
                None => true,
                Some(n) => n == name,
            },
            None => true,
        }
    }

    /// Checks a name and records its alias: fails with `InvalidName` on a
    /// non-alphanumeric name and with `DuplicateShortAlias` on an alias
    /// claimed by a different name, leaving the registry unchanged; on
    /// success records the alias mapping as a side effect (a name
    /// re-claiming its own alias is no duplicate).
    #[verifier::loop_isolation(false)]
    pub fn validate_name(&mut self, name: &String, option: &ConfigOptionBase) -> (r: Result<
        (),
        RegisterError,
    >)
        ensures
            r is Ok <==> (name_ok(name@) && old(self).short_ok(name@, *option)),
            r == Err::<(), RegisterError>(RegisterError::InvalidName) <==> !name_ok(name@),
            r is Err ==> *final(self) == *old(self),
            r is Ok ==> final(self).config_set == old(self).config_set && final(self).options
                == old(self).options && final(self).spec_shorts() == match str_opt_view(
                option.short,
            ) {
                Some(s) => assoc_insert(old(self).spec_shorts(), s, name@),
                None => old(self).spec_shorts(),
            },
            old(self).wf() ==> final(self).wf(),
    {
        let n = name.as_str();
        let len = n.unicode_len();
        let mut i: usize = 0;
        while i < len
            invariant
                i <= len,
                forall|j: int| 0 <= j < i ==> is_alphanum(name@[j]),
            decreases len - i,
        {
            if !char_is_alphanumeric(n.get_char(i)) {
                return Err(RegisterError::InvalidName);
            }
            i = i + 1;
        }
        match &option.short {
            None => Ok(()),
            Some(short) => {
                match assoc_idx(&self.short_options, short) {
                    Some(j) => {
                        proof {
                            lemma_assoc_find_at(self.spec_shorts(), short@, j as int);
                            assert(self.spec_shorts()[j as int] == (
                                self.short_options@[j as int].0@,
                                self.short_options@[j as int].1@,
                            ));
                        }
                        if self.short_options[j].1 == *name {
                            proof {
                                if distinct_keys(old(self).spec_shorts()) {
                                    lemma_assoc_insert_distinct(
                                        old(self).spec_shorts(),
                                        short@,
                                        name@,
                                    );
                                }
                            }
                            assoc_set(&mut self.short_options, short.clone(), name.clone());
                            Ok(())
                        } else {
                            Err(RegisterError::DuplicateShortAlias)
                        }
                    },
                    None => {
                        proof {
                            lemma_assoc_find_absent(self.spec_shorts(), short@);
                            if distinct_keys(old(self).spec_shorts()) {
                                lemma_assoc_insert_distinct(old(self).spec_shorts(), short@, name@);
                            }
                        }
                        assoc_set(&mut self.short_options, short.clone(), name.clone());
                        Ok(())
                    },
                }
            },
        }
    }

    /// Validates a set of supplied values: fails with `UnknownOption` for a
    /// name outside the registry, and with the rule's error for a value the
    /// rule rejects; the first offending pair, in order, decides.
    #[verifier::loop_isolation(false)]
    pub fn validate(&self, o: &Vec<(String, ValidValue)>) -> (r: Result<(), ValidateError>)
        ensures
            r == validate_spec(self.spec_config(), entries_view(o@)),
    {
        let ghost vals = entries_view(o@);
        proof {
            assert(vals.skip(0) =~= vals);
        }
        let mut i: usize = 0;
        while i < o.len()
            invariant
                i <= o@.len(),
                validate_spec(self.spec_config(), vals) == validate_spec(
                    self.spec_config(),
                    vals.skip(i as int),
                ),
            decreases o@.len() - i,
        {
            proof {
                assert(vals.skip(i as int)[0] == vals[i as int]);
                assert(vals.skip(i as int).drop_first() =~= vals.skip(i as int + 1));
            }
            match assoc_idx(&self.config_set, &o[i].0) {
                None => {
                    proof {
                        lemma_assoc_find_absent(self.spec_config(), vals[i as int].0);
                    }
                    return Err(ValidateError::UnknownOption);
                },
                Some(ci) => {
                    proof {
                        lemma_assoc_find_at(self.spec_config(), vals[i as int].0, ci as int);
                    }
                    match validate_options(&self.config_set[ci].1, &o[i].1) {
                        Ok(_) => {},
                        Err(e) => {
                            return Err(e);
                        },
                    }
                },
            }
            i = i + 1;
        }
        proof {
            assert(vals.skip(i as int) =~= Seq::<(Seq<char>, ValueModel)>::empty());
        }
        Ok(())
    }
}

/// What validating a value list yields: the first pair whose name is
/// unregistered or whose value its rule rejects decides the error.
pub open spec fn validate_spec(
    cfg: Seq<(Seq<char>, OptionModel)>,
    vals: Seq<(Seq<char>, ValueModel)>,
) -> Result<(), ValidateError>
    decreases vals.len(),
{
    if vals.len() == 0 {
        Ok(())
    } else {
        match assoc_find(cfg, vals[0].0) {
            None => Err(ValidateError::UnknownOption),
            Some(o) => if !valid_for(o, vals[0].1) {
                Err(rule_error(o))
            } else {
                validate_spec(cfg, vals.drop_first())
            },
        }
    }
}

} // verus!
