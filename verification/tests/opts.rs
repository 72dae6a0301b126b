//! The argument interpreter on concrete token sequences.

use cargo_yaml::opts::{Color, Options, OptionsBuilder, Verbosity};

fn interpret(tokens: &[&str]) -> Option<Options> {
    Options::from_args(tokens.iter().map(|t| t.to_string()).collect())
}

#[test]
fn defaults_on_empty() {
    let opts = interpret(&[]).unwrap();
    assert!(opts.color == Color::Auto);
    assert!(opts.verbosity == Verbosity::Normal);
    assert_eq!(opts.manifest_path, "Cargo.toml");
    assert_eq!(opts.template_path, "Cargo.yaml");
}

#[test]
fn happy_path() {
    let opts = interpret(&["foo.yaml"]).unwrap();
    assert_eq!(opts.template_path, "foo.yaml");
    assert_eq!(opts.manifest_path, "Cargo.toml");
    assert!(opts.verbosity == Verbosity::Normal);
}

#[test]
fn conflicting_verbosity_first_order() {
    assert!(interpret(&["-v", "-q"]).is_none());
}

#[test]
fn conflicting_verbosity_second_order() {
    assert!(interpret(&["-q", "-v"]).is_none());
}

#[test]
fn duplicate_verbosity() {
    assert!(interpret(&["-v", "--verbose"]).is_none());
    assert!(interpret(&["-q", "--quiet"]).is_none());
}

#[test]
fn verbosity_set() {
    assert!(interpret(&["-v"]).unwrap().verbosity == Verbosity::Verbose);
    assert!(interpret(&["--verbose"]).unwrap().verbosity == Verbosity::Verbose);
    assert!(interpret(&["-q"]).unwrap().verbosity == Verbosity::Quiet);
    assert!(interpret(&["--quiet"]).unwrap().verbosity == Verbosity::Quiet);
}

#[test]
fn dangling_color() {
    assert!(interpret(&["--color"]).is_none());
}

#[test]
fn dangling_manifest_path() {
    assert!(interpret(&["--manifest-path"]).is_none());
}

#[test]
fn two_positionals() {
    assert!(interpret(&["a.yaml", "b.yaml"]).is_none());
}

#[test]
fn help_signals_usage() {
    assert!(interpret(&["-h"]).is_none());
    assert!(interpret(&["--help"]).is_none());
    assert!(interpret(&["--help", "foo.yaml"]).is_none());
}

#[test]
fn color_values() {
    assert!(interpret(&["--color", "always"]).unwrap().color == Color::Always);
    assert!(interpret(&["--color", "auto"]).unwrap().color == Color::Auto);
    assert!(interpret(&["--color", "never"]).unwrap().color == Color::Never);
}

#[test]
fn color_value_must_match_exactly() {
    assert!(interpret(&["--color", "sometimes"]).is_none());
    assert!(interpret(&["--color", "Always"]).is_none());
    assert!(interpret(&["--color", "ALWAYS"]).is_none());
}

#[test]
fn duplicate_color() {
    assert!(interpret(&["--color", "always", "--color", "never"]).is_none());
    assert!(interpret(&["--color", "auto", "--color", "auto"]).is_none());
}

#[test]
fn manifest_path_value() {
    let opts = interpret(&["--manifest-path", "out/Cargo.toml"]).unwrap();
    assert_eq!(opts.manifest_path, "out/Cargo.toml");
}

#[test]
fn duplicate_manifest_path() {
    assert!(interpret(&["--manifest-path", "a", "--manifest-path", "b"]).is_none());
}

#[test]
fn nothing_accepted_after_positional() {
    assert!(interpret(&["foo.yaml", "-v"]).is_none());
    assert!(interpret(&["foo.yaml", "--color", "auto"]).is_none());
}

#[test]
fn awaited_value_is_taken_verbatim() {
    // the token after --manifest-path is its value, even when it looks like
    // a flag
    let opts = interpret(&["--manifest-path", "-v"]).unwrap();
    assert_eq!(opts.manifest_path, "-v");
    assert!(opts.verbosity == Verbosity::Normal);
}

#[test]
fn flags_combine_with_positional() {
    let opts = interpret(&["-v", "--color", "never", "tmpl.yml"]).unwrap();
    assert!(opts.verbosity == Verbosity::Verbose);
    assert!(opts.color == Color::Never);
    assert_eq!(opts.template_path, "tmpl.yml");
    assert_eq!(opts.manifest_path, "Cargo.toml");
}

#[test]
fn builder_steps_match_from_args() {
    let mut builder = OptionsBuilder::new();
    builder.push_arg("-q".to_string());
    builder.push_arg("in.yaml".to_string());
    let opts = builder.build().unwrap();
    assert!(opts.verbosity == Verbosity::Quiet);
    assert_eq!(opts.template_path, "in.yaml");
}

#[test]
fn builder_empty_defaults() {
    let opts = OptionsBuilder::new().build().unwrap();
    assert!(opts.color == Color::Auto);
    assert!(opts.verbosity == Verbosity::Normal);
    assert_eq!(opts.manifest_path, "Cargo.toml");
    assert_eq!(opts.template_path, "Cargo.yaml");
}

#[test]
fn options_new_defaults() {
    let opts = Options::new();
    assert!(opts.color == Color::Auto);
    assert!(opts.verbosity == Verbosity::Normal);
    assert_eq!(opts.manifest_path, "Cargo.toml");
    assert_eq!(opts.template_path, "Cargo.yaml");
}
