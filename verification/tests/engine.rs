use whsp::ConfigKind;
use whsp::ConfigOptionBase;
use whsp::OptionsResult;
use whsp::ParseError;
use whsp::RegisterError;
use whsp::ValidValue;
use whsp::ValidateError;
use whsp::Validator;
use whsp::Whsp;
use whsp::WhspOptions;
use whsp::from_env_val;
use whsp::to_env_key;
use whsp::to_env_val;
use whsp::validate_options;

fn empty_registry() -> Whsp {
    Whsp {
        config_set: vec![],
        short_options: vec![],
        options: WhspOptions { allow_positionals: true, env_prefix: None, usage: None },
    }
}

fn registry_with_prefix(prefix: &str) -> Whsp {
    Whsp {
        config_set: vec![],
        short_options: vec![],
        options: WhspOptions {
            allow_positionals: true,
            env_prefix: Some(prefix.to_string()),
            usage: None,
        },
    }
}

fn lookup<'a>(res: &'a OptionsResult, name: &str) -> Option<&'a ValidValue> {
    for (k, v) in res.values.iter() {
        if k == name {
            return Some(v);
        }
    }
    None
}

fn option_of(w: &Whsp, name: &str) -> Option<ConfigOptionBase> {
    for (k, v) in w.config_set.iter() {
        if k == name {
            return Some(v.duplicate());
        }
    }
    None
}

#[test]
fn registration_resolves_name_and_alias() {
    let mut w = empty_registry();
    let opt = ConfigOptionBase::new(ConfigKind::Number, false, Some("c".to_string()), None);
    w.num(vec![("count".to_string(), opt)]);
    let registered = option_of(&w, "count").expect("name must resolve");
    assert!(matches!(registered.config_type, ConfigKind::Number));
    let name = "count".to_string();
    let opt2 = option_of(&w, "count").unwrap();
    assert!(w.validate_name(&name, &opt2).is_ok());
    assert_eq!(w.short_options.len(), 1);
    assert_eq!(w.short_options[0].0, "c");
    assert_eq!(w.short_options[0].1, "count");
}

#[test]
fn invalid_name_rejected_and_registry_unchanged() {
    let mut w = empty_registry();
    let opt = ConfigOptionBase::new(ConfigKind::String, false, Some("b".to_string()), None);
    let name = "bad-name".to_string();
    let r = w.validate_name(&name, &opt);
    assert_eq!(r, Err(RegisterError::InvalidName));
    assert!(w.short_options.is_empty());
    assert!(w.config_set.is_empty());
}

#[test]
fn duplicate_short_alias_rejected() {
    let mut w = empty_registry();
    let first = ConfigOptionBase::new(ConfigKind::Boolean, false, Some("v".to_string()), None);
    let second = ConfigOptionBase::new(ConfigKind::Number, false, Some("v".to_string()), None);
    let n1 = "verbose".to_string();
    let n2 = "version".to_string();
    assert_eq!(w.validate_name(&n1, &first), Ok(()));
    assert_eq!(w.validate_name(&n2, &second), Err(RegisterError::DuplicateShortAlias));
    assert_eq!(w.short_options.len(), 1);
    assert_eq!(w.short_options[0].1, "verbose");
}

#[test]
fn same_name_may_reclaim_its_own_alias() {
    let mut w = empty_registry();
    let opt = ConfigOptionBase::new(ConfigKind::Boolean, false, Some("v".to_string()), None);
    let n = "verbose".to_string();
    assert_eq!(w.validate_name(&n, &opt), Ok(()));
    assert_eq!(w.validate_name(&n, &opt), Ok(()));
    assert_eq!(w.short_options.len(), 1);
    assert_eq!(w.short_options[0].0, "v");
    assert_eq!(w.short_options[0].1, "verbose");
    let other = ConfigOptionBase::new(ConfigKind::Boolean, false, Some("v".to_string()), None);
    let n2 = "version".to_string();
    assert_eq!(w.validate_name(&n2, &other), Err(RegisterError::DuplicateShortAlias));
}

#[test]
fn parse_long_number_short_boolean_and_positional() {
    let mut w = empty_registry();
    let count = ConfigOptionBase::new(ConfigKind::Number, false, None, None);
    w.num(vec![("count".to_string(), count)]);
    let verbose = ConfigOptionBase::new(ConfigKind::Boolean, false, Some("v".to_string()), None);
    let vname = "verbose".to_string();
    let vopt = verbose.duplicate();
    w.flag(vec![("verbose".to_string(), verbose)]);
    w.validate_name(&vname, &vopt).unwrap();
    let args = vec![
        "--count".to_string(),
        "5".to_string(),
        "-v".to_string(),
        "file.txt".to_string(),
    ];
    let res = w.parse_raw(&args).expect("parse succeeds");
    assert_eq!(res.values.len(), 2);
    assert!(matches!(lookup(&res, "count"), Some(ValidValue::Number(5))));
    assert!(matches!(lookup(&res, "verbose"), Some(ValidValue::Boolean(true))));
    assert_eq!(res.positionals, vec!["file.txt".to_string()]);
}

#[test]
fn unknown_long_option_dropped_value_becomes_positional() {
    let w = empty_registry();
    let args = vec!["--unknown".to_string(), "x".to_string()];
    let res = w.parse_raw(&args).expect("parse succeeds");
    assert!(res.values.is_empty());
    assert_eq!(res.positionals, vec!["x".to_string()]);
}

#[test]
fn unknown_short_alias_dropped() {
    let w = empty_registry();
    let args = vec!["-z".to_string(), "y".to_string()];
    let res = w.parse_raw(&args).expect("parse succeeds");
    assert!(res.values.is_empty());
    assert_eq!(res.positionals, vec!["y".to_string()]);
}

#[test]
fn long_option_without_following_value_skipped() {
    let mut w = empty_registry();
    let count = ConfigOptionBase::new(ConfigKind::Number, false, None, None);
    w.num(vec![("count".to_string(), count)]);
    let args = vec!["--count".to_string()];
    let res = w.parse_raw(&args).expect("parse succeeds");
    assert!(res.values.is_empty());
    assert!(res.positionals.is_empty());
}

#[test]
fn malformed_number_is_recoverable_parse_error() {
    let mut w = empty_registry();
    let count = ConfigOptionBase::new(ConfigKind::Number, false, None, None);
    w.num(vec![("count".to_string(), count)]);
    let args = vec!["--count".to_string(), "five".to_string()];
    assert!(matches!(w.parse_raw(&args), Err(ParseError::MalformedNumber)));
}

#[test]
fn repeated_option_last_occurrence_wins() {
    let mut w = empty_registry();
    let count = ConfigOptionBase::new(ConfigKind::Number, false, None, None);
    w.num(vec![("count".to_string(), count)]);
    let args = vec![
        "--count".to_string(),
        "1".to_string(),
        "--count".to_string(),
        "2".to_string(),
    ];
    let res = w.parse_raw(&args).expect("parse succeeds");
    assert_eq!(res.values.len(), 1);
    assert!(matches!(lookup(&res, "count"), Some(ValidValue::Number(2))));
}

#[test]
fn env_round_trip_all_kinds() {
    let cases = vec![
        ValidValue::Number(42),
        ValidValue::Number(-7),
        ValidValue::Number(0),
        ValidValue::Number(i64::MAX),
        ValidValue::Number(i64::MIN),
        ValidValue::String("hello world".to_string()),
        ValidValue::String(String::new()),
        ValidValue::Boolean(true),
        ValidValue::Boolean(false),
    ];
    for v in cases {
        let text = to_env_val(&v);
        let back = from_env_val(text, v.kind()).expect("round trip decodes");
        match (&v, &back) {
            (ValidValue::Number(a), ValidValue::Number(b)) => assert_eq!(a, b),
            (ValidValue::String(a), ValidValue::String(b)) => assert_eq!(a, b),
            (ValidValue::Boolean(a), ValidValue::Boolean(b)) => assert_eq!(a, b),
            _ => panic!("kind changed in round trip"),
        }
    }
}

#[test]
fn boolean_encoding_and_asymmetric_decode() {
    assert_eq!(to_env_val(&ValidValue::Boolean(true)), "1");
    assert_eq!(to_env_val(&ValidValue::Boolean(false)), "0");
    assert!(matches!(
        from_env_val("1".to_string(), ConfigKind::Boolean),
        Ok(ValidValue::Boolean(true))
    ));
    assert!(matches!(
        from_env_val("0".to_string(), ConfigKind::Boolean),
        Ok(ValidValue::Boolean(false))
    ));
    assert!(matches!(
        from_env_val("true".to_string(), ConfigKind::Boolean),
        Ok(ValidValue::Boolean(false))
    ));
}

#[test]
fn number_decode_failures() {
    assert!(from_env_val("".to_string(), ConfigKind::Number).is_err());
    assert!(from_env_val("-".to_string(), ConfigKind::Number).is_err());
    assert!(from_env_val("12a".to_string(), ConfigKind::Number).is_err());
    assert!(from_env_val("9223372036854775808".to_string(), ConfigKind::Number).is_err());
    assert!(matches!(
        from_env_val("-9223372036854775808".to_string(), ConfigKind::Number),
        Ok(ValidValue::Number(i64::MIN))
    ));
    assert!(matches!(
        from_env_val("+5".to_string(), ConfigKind::Number),
        Ok(ValidValue::Number(5))
    ));
    assert!(matches!(
        from_env_val("007".to_string(), ConfigKind::Number),
        Ok(ValidValue::Number(7))
    ));
}

#[test]
fn validate_number_range() {
    let mut w = empty_registry();
    let mut age = ConfigOptionBase::new(ConfigKind::Number, false, None, None);
    age.validate = Some(Validator::NumberRange(0, 120));
    w.num(vec![("age".to_string(), age)]);
    let ok = vec![("age".to_string(), ValidValue::Number(30))];
    assert_eq!(w.validate(&ok), Ok(()));
    let bad = vec![("age".to_string(), ValidValue::Number(200))];
    assert_eq!(w.validate(&bad), Err(ValidateError::OutOfRange));
}

#[test]
fn validate_unknown_option() {
    let w = empty_registry();
    let vals = vec![("mystery".to_string(), ValidValue::Boolean(true))];
    assert_eq!(w.validate(&vals), Err(ValidateError::UnknownOption));
}

#[test]
fn validate_type_mismatch_without_rule() {
    let mut w = empty_registry();
    let count = ConfigOptionBase::new(ConfigKind::Number, false, None, None);
    w.num(vec![("count".to_string(), count)]);
    let vals = vec![("count".to_string(), ValidValue::String("5".to_string()))];
    assert_eq!(w.validate(&vals), Err(ValidateError::TypeMismatch));
}

#[test]
fn pattern_rule_is_exact_equality_not_matching() {
    let mut opt = ConfigOptionBase::new(ConfigKind::String, false, None, None);
    opt.validate = Some(Validator::Regex("a.c".to_string()));
    assert_eq!(validate_options(&opt, &ValidValue::String("a.c".to_string())), Ok(()));
    assert_eq!(
        validate_options(&opt, &ValidValue::String("abc".to_string())),
        Err(ValidateError::PatternMismatch)
    );
}

#[test]
fn unconstrained_rule_always_passes() {
    let mut opt = ConfigOptionBase::new(ConfigKind::Number, false, None, None);
    opt.validate = Some(Validator::Any);
    assert!(opt.validate_value(&ValidValue::String("anything".to_string())));
}

#[test]
fn env_key_derivation() {
    assert_eq!(to_env_key("app", "age"), "APP_AGE");
    assert_eq!(to_env_key("APP", "Age"), "APP_AGE");
}

#[test]
fn set_defaults_from_env_overwrites_default() {
    let mut w = registry_with_prefix("APP");
    let age = ConfigOptionBase::new(ConfigKind::Number, false, None, None);
    w.num(vec![("age".to_string(), age)]);
    let env = vec![("APP_AGE".to_string(), "42".to_string())];
    assert_eq!(w.set_defaults_from_env(&env), Ok(()));
    let got = option_of(&w, "age").unwrap();
    assert!(matches!(got.default, Some(ValidValue::Number(42))));
}

#[test]
fn set_defaults_from_env_skips_absent_variable() {
    let mut w = registry_with_prefix("APP");
    let age = ConfigOptionBase::new(ConfigKind::Number, false, None, None);
    w.num(vec![("age".to_string(), age)]);
    let env = vec![("APP_WIDTH".to_string(), "42".to_string())];
    assert_eq!(w.set_defaults_from_env(&env), Ok(()));
    let got = option_of(&w, "age").unwrap();
    assert!(got.default.is_none());
}

#[test]
fn set_defaults_from_env_without_prefix_is_noop() {
    let mut w = empty_registry();
    let age = ConfigOptionBase::new(ConfigKind::Number, false, None, None);
    w.num(vec![("age".to_string(), age)]);
    let env = vec![("AGE".to_string(), "42".to_string())];
    assert_eq!(w.set_defaults_from_env(&env), Ok(()));
    let got = option_of(&w, "age").unwrap();
    assert!(got.default.is_none());
}

#[test]
fn set_defaults_from_env_malformed_number_fails_whole_call() {
    let mut w = registry_with_prefix("APP");
    let age = ConfigOptionBase::new(ConfigKind::Number, false, None, None);
    w.num(vec![("age".to_string(), age)]);
    let env = vec![("APP_AGE".to_string(), "forty".to_string())];
    assert_eq!(w.set_defaults_from_env(&env), Err(ParseError::MalformedNumber));
    let got = option_of(&w, "age").unwrap();
    assert!(got.default.is_none());
}

#[test]
fn write_env_produces_prefixed_bindings() {
    let mut w = registry_with_prefix("app");
    let count = ConfigOptionBase::new(ConfigKind::Number, false, None, None);
    w.num(vec![("count".to_string(), count)]);
    let args = vec!["--count".to_string(), "5".to_string()];
    let res = w.parse_raw(&args).unwrap();
    let pairs = w.write_env(&res);
    assert_eq!(pairs, vec![("APP_COUNT".to_string(), "5".to_string())]);
}

#[test]
fn write_env_without_prefix_is_empty() {
    let w = empty_registry();
    let res = OptionsResult {
        values: vec![("x".to_string(), ValidValue::Boolean(true))],
        positionals: vec![],
    };
    assert!(w.write_env(&res).is_empty());
}

#[test]
fn list_registration_forces_kind_and_multiplicity() {
    let mut w = empty_registry();
    let tags = ConfigOptionBase::new(ConfigKind::Number, false, None, None);
    w.opt_list(vec![("tags".to_string(), tags)]);
    let got = option_of(&w, "tags").unwrap();
    assert!(matches!(got.config_type, ConfigKind::String));
    assert!(got.multiple);
}

#[test]
fn last_registration_wins() {
    let mut w = empty_registry();
    let first = ConfigOptionBase::new(ConfigKind::Number, false, None, Some("old".to_string()));
    w.num(vec![("mode".to_string(), first)]);
    let second = ConfigOptionBase::new(ConfigKind::Number, false, None, Some("new".to_string()));
    w.opt(vec![("mode".to_string(), second)]);
    assert_eq!(w.config_set.len(), 1);
    let got = option_of(&w, "mode").unwrap();
    assert!(matches!(got.config_type, ConfigKind::String));
    assert_eq!(got.description, Some("new".to_string()));
}

#[test]
fn format_display_forms() {
    assert_eq!(ValidValue::Number(-12).format(), "-12");
    assert_eq!(ValidValue::String("abc".to_string()).format(), "abc");
    assert_eq!(ValidValue::Boolean(true).format(), "true");
    assert_eq!(ValidValue::Boolean(false).format(), "false");
}
