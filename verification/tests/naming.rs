use fonda::error::{label, ErrorKind, FondaError};
use fonda::naming::{is_valid_env_name, sanitize_path, validate_env_name};
use std::path::Path;

#[test]
fn accepts_letters_digits_underscore_hyphen() {
    assert_eq!(validate_env_name("my_env-1"), Ok(()));
    assert_eq!(validate_env_name("A"), Ok(()));
    assert_eq!(validate_env_name("-"), Ok(()));
    assert_eq!(validate_env_name("0_9-zZ"), Ok(()));
    assert!(is_valid_env_name("my_env-1"));
}

#[test]
fn rejects_empty_name() {
    let err = validate_env_name("").unwrap_err();
    assert_eq!(err.kind, ErrorKind::InvalidEnvironmentName);
    assert_eq!(err.subject, "");
    assert_eq!(
        err.detail,
        "Environment name must only contain alphanumeric characters, underscores, or hyphens"
    );
    assert!(!is_valid_env_name(""));
}

#[test]
fn rejects_any_other_character() {
    for name in ["a b", "env!", "../up", "a/b", "caf\u{e9}", "a.b", "x\n", "\u{ff11}", "a:b", "a@b"] {
        let err = validate_env_name(name).unwrap_err();
        assert_eq!(err.kind, ErrorKind::InvalidEnvironmentName);
        assert_eq!(err.subject, name);
        assert!(!is_valid_env_name(name));
    }
}

#[test]
fn rejects_neighbours_of_the_accepted_ranges() {
    for c in ['/', ':', '@', '[', '`', '{', ',', '.'] {
        assert!(!is_valid_env_name(&c.to_string()));
    }
    for c in ['0', '9', 'A', 'Z', 'a', 'z', '_', '-'] {
        assert!(is_valid_env_name(&c.to_string()));
    }
}

#[test]
fn path_text_is_handed_through() {
    assert_eq!(sanitize_path(Path::new("envs/demo")), Ok("envs/demo"));
    assert_eq!(sanitize_path(Path::new("")), Ok(""));
    assert_eq!(sanitize_path(Path::new("d\u{e9}mo/requirements.txt")), Ok("d\u{e9}mo/requirements.txt"));
}

#[test]
fn message_joins_label_subject_and_detail() {
    let err = FondaError::new(ErrorKind::EnvironmentExists, "demo", "");
    assert_eq!(err.message(), "Environment already exists: demo");
    let err = FondaError::new(ErrorKind::InstallationFailed, "python -m pip install -r r.txt", "boom");
    assert_eq!(
        err.message(),
        "Failed to install requirements: python -m pip install -r r.txt: boom"
    );
}

#[test]
fn every_kind_has_its_label() {
    assert_eq!(label(ErrorKind::ConfigNotFound), "Configuration file not found");
    assert_eq!(label(ErrorKind::ManifestSyntax), "YAML parsing error");
    assert_eq!(label(ErrorKind::RequirementsNotFound), "Requirements file not found");
    assert_eq!(label(ErrorKind::RequirementsWrite), "Failed to write requirements");
    assert_eq!(label(ErrorKind::EnvironmentExists), "Environment already exists");
    assert_eq!(label(ErrorKind::InterpreterNotFound), "Python not found");
    assert_eq!(label(ErrorKind::EnvironmentCreationFailed), "Failed to create virtual environment");
    assert_eq!(label(ErrorKind::InstallationFailed), "Failed to install requirements");
    assert_eq!(label(ErrorKind::InvalidEnvironmentName), "Invalid environment name");
    assert_eq!(label(ErrorKind::InvalidPathEncoding), "Invalid path encoding");
}
