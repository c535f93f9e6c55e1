use hybrid_version::error::EnvVarError;
use hybrid_version::error::VersionError;

#[test]
fn test_from_string() {
    let err = VersionError::from("test error".to_string());
    assert!(matches!(err, VersionError::Message(ref s) if s == "test error"));
    assert!(err.to_string().contains("test error"));
}

#[test]
fn test_from_str() {
    let err: VersionError = "test error".into();
    assert!(matches!(err, VersionError::Message(ref s) if s == "test error"));
}

#[test]
fn test_from_io_error() {
    let io_err = std::io::Error::new(std::io::ErrorKind::NotFound, "file not found");
    let err = VersionError::from(io_err);
    assert!(matches!(err, VersionError::Io(_)));
    assert!(!err.to_string().is_empty());
}

#[test]
fn test_git_command_error() {
    let err = VersionError::GitCommand("something failed".to_string());
    assert!(err.to_string().contains("git command failed"));
}

#[test]
fn test_error_chain() {
    let err = VersionError::Message("test".to_string());
    let _: &dyn std::fmt::Debug = &err;
    assert_eq!(err.to_string(), "test");
}

#[test]
fn git_command_error_message_is_prefixed() {
    let err = VersionError::GitCommand("boom".to_string());
    assert_eq!(err.to_string(), "git command failed: boom");
}

#[test]
fn parse_int_error_converts() {
    let parse_err = "x".parse::<u32>().unwrap_err();
    let err = VersionError::from(parse_err);
    assert!(matches!(err, VersionError::ParseInt(_)));
    assert_eq!(err.to_string(), "invalid digit found in string");
}

#[test]
fn utf8_error_converts() {
    let utf8_err = String::from_utf8(vec![0xff]).unwrap_err();
    let err = VersionError::from(utf8_err);
    assert!(matches!(err, VersionError::Utf8(_)));
    assert!(!err.to_string().is_empty());
}

#[test]
fn strip_prefix_error_converts() {
    let strip_err = std::path::Path::new("/a").strip_prefix("/b").unwrap_err();
    let err = VersionError::from(strip_err);
    assert!(matches!(err, VersionError::StripPrefix(_)));
    assert_eq!(err.to_string(), "prefix not found");
}

#[test]
fn env_errors_read_like_var_error() {
    let err = VersionError::from(EnvVarError::NotPresent);
    assert_eq!(err.to_string(), "environment variable not found");
    let err = VersionError::Env(EnvVarError::NotUnicode("\"a\\xFF\"".to_string()));
    assert_eq!(
        err.to_string(),
        "environment variable was not valid unicode: \"a\\xFF\""
    );
}

#[test]
fn new_wraps_display_text_as_message() {
    let io_err = std::io::Error::new(std::io::ErrorKind::Other, "disk on fire");
    let err = VersionError::new(io_err);
    assert!(matches!(err, VersionError::Message(ref s) if s == "disk on fire"));
}
