//! The decoded-argument accessors.

use cargo_yaml::args::{Args, Color, Verbosity};

fn base() -> Args {
    Args {
        arg_command: None,
        arg_args: vec![],
        flag_manifest_path: None,
        flag_template_path: None,
        flag_color: None,
        flag_quiet: false,
        flag_verbose: false,
        flag_version: false,
    }
}

#[test]
fn sub_argv_without_command() {
    assert!(base().sub_argv().is_empty());
}

#[test]
fn sub_argv_with_command() {
    let args = Args {
        arg_command: Some("build".to_string()),
        arg_args: vec!["--release".to_string(), "-j4".to_string()],
        ..base()
    };
    assert_eq!(args.sub_argv(), vec!["cargo", "build", "--release", "-j4"]);
}

#[test]
fn manifest_path_defaulted() {
    assert_eq!(base().manifest_path(), "Cargo.toml");
}

#[test]
fn manifest_path_given() {
    let args = Args { flag_manifest_path: Some("custom.toml".to_string()), ..base() };
    assert_eq!(args.manifest_path(), "custom.toml");
}

#[test]
fn template_path_given() {
    let args = Args { flag_template_path: Some("tmpl.yaml".to_string()), ..base() };
    assert_eq!(args.template_path(false, false), Some("tmpl.yaml".to_string()));
}

#[test]
fn template_path_conventional_names() {
    assert_eq!(base().template_path(true, true), Some("Cargo.yaml".to_string()));
    assert_eq!(base().template_path(true, false), Some("Cargo.yaml".to_string()));
    assert_eq!(base().template_path(false, true), Some("Cargo.yml".to_string()));
    assert_eq!(base().template_path(false, false), None);
}

#[test]
fn color_defaulted() {
    assert!(base().color() == Color::Auto);
}

#[test]
fn color_given() {
    let args = Args { flag_color: Some(Color::Never), ..base() };
    assert!(args.color() == Color::Never);
}

#[test]
fn color_enabled() {
    assert!(Color::Auto.is_enabled());
    assert!(Color::Always.is_enabled());
    assert!(!Color::Never.is_enabled());
}

#[test]
fn verbosity_resolution() {
    assert!(base().verbosity() == Verbosity::Normal);
    let verbose = Args { flag_verbose: true, ..base() };
    assert!(verbose.verbosity() == Verbosity::Verbose);
    let quiet = Args { flag_quiet: true, ..base() };
    assert!(quiet.verbosity() == Verbosity::Quiet);
    let both = Args { flag_quiet: true, flag_verbose: true, ..base() };
    assert!(both.verbosity() == Verbosity::Quiet);
}
