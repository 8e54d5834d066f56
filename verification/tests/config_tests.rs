//! `key=value` override parsing: integer first, then float, then boolean,
//! with typed errors for everything else.

use llama_wrap::config::parse_key_val;
use llama_wrap::errors::ConfigError;
use llama_wrap::params::ParamOverrideValue;

#[test]
fn integer_values_parse_as_int() {
    assert_eq!(
        parse_key_val("n_gpu_layers=5").unwrap(),
        (String::from("n_gpu_layers"), ParamOverrideValue::Int(5))
    );
    assert_eq!(
        parse_key_val("x=-3").unwrap(),
        (String::from("x"), ParamOverrideValue::Int(-3))
    );
    assert_eq!(
        parse_key_val("x=+42").unwrap(),
        (String::from("x"), ParamOverrideValue::Int(42))
    );
}

#[test]
fn integer_bounds_are_exact() {
    assert_eq!(
        parse_key_val("k=9223372036854775807").unwrap().1,
        ParamOverrideValue::Int(i64::MAX)
    );
    assert_eq!(
        parse_key_val("k=-9223372036854775808").unwrap().1,
        ParamOverrideValue::Int(i64::MIN)
    );
    // One past the bound no longer parses as an integer, but its digits
    // are still a valid float literal.
    assert_eq!(
        parse_key_val("k=9223372036854775808").unwrap().1,
        ParamOverrideValue::Float(String::from("9223372036854775808"))
    );
}

#[test]
fn float_values_keep_their_literal_text() {
    assert_eq!(
        parse_key_val("temperature=0.1").unwrap(),
        (
            String::from("temperature"),
            ParamOverrideValue::Float(String::from("0.1"))
        )
    );
    assert_eq!(
        parse_key_val("v=1e5").unwrap().1,
        ParamOverrideValue::Float(String::from("1e5"))
    );
    assert_eq!(
        parse_key_val("v=-2.5E-3").unwrap().1,
        ParamOverrideValue::Float(String::from("-2.5E-3"))
    );
    assert_eq!(
        parse_key_val("v=.5").unwrap().1,
        ParamOverrideValue::Float(String::from(".5"))
    );
    assert_eq!(
        parse_key_val("v=nan").unwrap().1,
        ParamOverrideValue::Float(String::from("nan"))
    );
    assert_eq!(
        parse_key_val("v=-Infinity").unwrap().1,
        ParamOverrideValue::Float(String::from("-Infinity"))
    );
}

#[test]
fn boolean_values_parse_as_bool() {
    assert_eq!(
        parse_key_val("use_mmap=true").unwrap(),
        (String::from("use_mmap"), ParamOverrideValue::Bool(true))
    );
    assert_eq!(
        parse_key_val("use_mmap=false").unwrap().1,
        ParamOverrideValue::Bool(false)
    );
}

#[test]
fn missing_equals_is_reported() {
    match parse_key_val("no-separator") {
        Err(ConfigError::NoEquals { input }) => assert_eq!(input, "no-separator"),
        other => panic!("expected NoEquals, got {:?}", other),
    }
}

#[test]
fn unclassifiable_values_are_reported() {
    match parse_key_val("k=abc") {
        Err(ConfigError::BadValue { input }) => assert_eq!(input, "k=abc"),
        other => panic!("expected BadValue, got {:?}", other),
    }
    assert!(parse_key_val("k=").is_err());
    assert!(parse_key_val("k=1.2.3").is_err());
    assert!(parse_key_val("k=True").is_err());
    assert!(parse_key_val("k=-").is_err());
    assert!(parse_key_val("k=e5").is_err());
    assert!(parse_key_val("k=1e").is_err());
}

#[test]
fn split_happens_at_the_first_equals() {
    // The value "2=1" is not an integer, float, or boolean.
    assert!(matches!(
        parse_key_val("a=2=1"),
        Err(ConfigError::BadValue { .. })
    ));
    // An empty key is allowed; the value still classifies.
    assert_eq!(
        parse_key_val("=7").unwrap(),
        (String::new(), ParamOverrideValue::Int(7))
    );
}
