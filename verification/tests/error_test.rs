use port_explorer::error::{config_message, io_message, ScanError};
use std::io;

#[test]
fn test_scanerror_config_display() {
    let err = ScanError::Config("bad config".to_string());
    let s = err.to_string();
    assert!(s.contains("Config error: bad config"));
}

#[test]
fn test_scanerror_io_display() {
    let io_err = io::Error::new(io::ErrorKind::Other, "fail");
    let err = ScanError::Io(io_err);
    let s = err.to_string();
    assert!(s.contains("IO error: fail"));
}

#[test]
fn test_scanerror_from_io() {
    let io_err = io::Error::new(io::ErrorKind::Other, "fail-from");
    let err: ScanError = io_err.into();
    let s = err.to_string();
    assert!(matches!(err, ScanError::Io(_)));
    assert!(s.contains("IO error: fail-from"));
}

#[test]
fn config_error_message_is_exact() {
    assert_eq!(ScanError::Config("x".to_string()).to_string(), "Config error: x");
    assert_eq!(ScanError::Config(String::new()).to_string(), "Config error: ");
    assert_eq!(config_message("bad"), "Config error: bad");
}

#[test]
fn io_error_message_starts_with_its_kind() {
    let err = ScanError::Io(io::Error::new(io::ErrorKind::NotFound, "gone"));
    assert_eq!(err.to_string(), "IO error: gone");
    assert_eq!(io_message("gone"), "IO error: gone");
}
