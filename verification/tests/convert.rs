//! The value mapper on concrete trees.

use cargo_yaml::convert::yaml_to_toml;
use cargo_yaml::value::{ConvertError, Toml, Yaml};

fn s(text: &str) -> String {
    text.to_string()
}

#[test]
fn integer_round_trip() {
    assert_eq!(yaml_to_toml(&Yaml::Integer(42)), Ok(Toml::Integer(42)));
    assert_eq!(yaml_to_toml(&Yaml::Integer(0)), Ok(Toml::Integer(0)));
    assert_eq!(yaml_to_toml(&Yaml::Integer(-7)), Ok(Toml::Integer(-7)));
    assert_eq!(yaml_to_toml(&Yaml::Integer(i64::MAX)), Ok(Toml::Integer(i64::MAX)));
    assert_eq!(yaml_to_toml(&Yaml::Integer(i64::MIN)), Ok(Toml::Integer(i64::MIN)));
}

#[test]
fn string_copied() {
    assert_eq!(yaml_to_toml(&Yaml::Str(s("hello"))), Ok(Toml::Str(s("hello"))));
    assert_eq!(yaml_to_toml(&Yaml::Str(s(""))), Ok(Toml::Str(s(""))));
}

#[test]
fn boolean_copied() {
    assert_eq!(yaml_to_toml(&Yaml::Boolean(true)), Ok(Toml::Boolean(true)));
    assert_eq!(yaml_to_toml(&Yaml::Boolean(false)), Ok(Toml::Boolean(false)));
}

#[test]
fn float_fidelity() {
    match yaml_to_toml(&Yaml::Real(s("3.14"))) {
        Ok(Toml::Float(text)) => {
            assert_eq!(text.parse::<f64>().unwrap(), 3.14);
        }
        other => panic!("expected a float, got {:?}", other),
    }
}

#[test]
fn float_forms_accepted() {
    for text in ["1e5", ".5", "3.", "+1.5e-3", "-0.0", "inf", "-Inf", "NaN", "INFINITY", "7E+2"] {
        let r = yaml_to_toml(&Yaml::Real(s(text)));
        assert_eq!(r, Ok(Toml::Float(s(text))), "{} should convert", text);
        // the kept text is something the target side's float parser takes
        text.parse::<f64>().unwrap();
    }
}

#[test]
fn float_malformed_rejected() {
    for text in ["abc", "", ".", "1e", "e5", "1.2.3", "--1", "0x10", "1_000.0", " 1.0", "nan7"] {
        assert_eq!(
            yaml_to_toml(&Yaml::Real(s(text))),
            Err(ConvertError::MalformedInput),
            "{} should be refused",
            text
        );
    }
}

#[test]
fn null_top_level_empty_table() {
    assert_eq!(yaml_to_toml(&Yaml::Null), Ok(Toml::Table(vec![])));
}

#[test]
fn null_nested_empty_table() {
    let tree = Yaml::Hash(vec![(Yaml::Str(s("package")), Yaml::Null)]);
    assert_eq!(
        yaml_to_toml(&tree),
        Ok(Toml::Table(vec![(s("package"), Toml::Table(vec![]))]))
    );
    let seq = Yaml::Array(vec![Yaml::Null]);
    assert_eq!(yaml_to_toml(&seq), Ok(Toml::Array(vec![Toml::Table(vec![])])));
}

#[test]
fn alias_rejected_top_level() {
    assert_eq!(yaml_to_toml(&Yaml::Alias(0)), Err(ConvertError::UnsupportedConstruct));
}

#[test]
fn alias_rejected_nested() {
    let deep = Yaml::Array(vec![Yaml::Hash(vec![(
        Yaml::Str(s("inner")),
        Yaml::Array(vec![Yaml::Integer(1), Yaml::Alias(3)]),
    )])]);
    assert_eq!(yaml_to_toml(&deep), Err(ConvertError::UnsupportedConstruct));
}

#[test]
fn alias_rejected_as_key() {
    let tree = Yaml::Hash(vec![(Yaml::Alias(1), Yaml::Null)]);
    assert_eq!(yaml_to_toml(&tree), Err(ConvertError::UnsupportedConstruct));
}

#[test]
fn bad_value_rejected() {
    assert_eq!(yaml_to_toml(&Yaml::BadValue), Err(ConvertError::MalformedInput));
    let nested = Yaml::Array(vec![Yaml::Str(s("fine")), Yaml::BadValue]);
    assert_eq!(yaml_to_toml(&nested), Err(ConvertError::MalformedInput));
}

#[test]
fn sequence_order_preserved() {
    let tree = Yaml::Array(vec![
        Yaml::Integer(1),
        Yaml::Str(s("two")),
        Yaml::Boolean(true),
    ]);
    assert_eq!(
        yaml_to_toml(&tree),
        Ok(Toml::Array(vec![
            Toml::Integer(1),
            Toml::Str(s("two")),
            Toml::Boolean(true),
        ]))
    );
}

#[test]
fn mapping_converted_pairwise() {
    let tree = Yaml::Hash(vec![
        (Yaml::Str(s("name")), Yaml::Str(s("demo"))),
        (Yaml::Str(s("workers")), Yaml::Integer(4)),
        (
            Yaml::Str(s("limits")),
            Yaml::Hash(vec![(Yaml::Str(s("depth")), Yaml::Integer(9))]),
        ),
    ]);
    assert_eq!(
        yaml_to_toml(&tree),
        Ok(Toml::Table(vec![
            (s("name"), Toml::Str(s("demo"))),
            (s("workers"), Toml::Integer(4)),
            (s("limits"), Toml::Table(vec![(s("depth"), Toml::Integer(9))])),
        ]))
    );
}

#[test]
fn composite_key_rejected() {
    let tree = Yaml::Hash(vec![(Yaml::Integer(1), Yaml::Null)]);
    assert_eq!(yaml_to_toml(&tree), Err(ConvertError::UnsupportedConstruct));
    let tree = Yaml::Hash(vec![(Yaml::Array(vec![]), Yaml::Null)]);
    assert_eq!(yaml_to_toml(&tree), Err(ConvertError::UnsupportedConstruct));
}

#[test]
fn duplicate_key_rejected() {
    let tree = Yaml::Hash(vec![
        (Yaml::Str(s("a")), Yaml::Integer(1)),
        (Yaml::Str(s("b")), Yaml::Integer(2)),
        (Yaml::Str(s("a")), Yaml::Integer(3)),
    ]);
    assert_eq!(yaml_to_toml(&tree), Err(ConvertError::MalformedInput));
}

#[test]
fn first_error_wins() {
    // the walk is depth first and pair by pair, so the malformed value at
    // the first pair is reported, not the alias behind it
    let tree = Yaml::Hash(vec![
        (Yaml::Str(s("a")), Yaml::BadValue),
        (Yaml::Str(s("b")), Yaml::Alias(1)),
    ]);
    assert_eq!(yaml_to_toml(&tree), Err(ConvertError::MalformedInput));
}
