use uxie_verified::error::{ErrorKind, UxieError};

#[test]
fn test_invalid_format() {
    let err = UxieError::invalid_format("Not a NARC file");
    assert!(matches!(err, UxieError::InvalidFormat { .. }));
    assert_eq!(err.message(), "Invalid format: Not a NARC file");
}

#[test]
fn test_not_found() {
    let err = UxieError::not_found("Map header", "42");
    assert!(matches!(err, UxieError::NotFound { .. }));
    assert_eq!(err.message(), "Map header not found: 42");
}

#[test]
fn test_out_of_bounds() {
    let err = UxieError::out_of_bounds("Map header", 600, 558);
    assert!(matches!(err, UxieError::OutOfBounds { .. }));
    assert_eq!(err.message(), "Map header ID 600 out of range (max: 558)");
}

#[test]
fn test_missing_file() {
    let err = UxieError::missing_file("/path/to/arm9.bin");
    assert!(matches!(err, UxieError::MissingRequired { .. }));
    assert!(err.message().contains("arm9.bin"));
    assert_eq!(err.kind(), ErrorKind::NotFound);
}

#[test]
fn error_kinds_of_variants() {
    assert_eq!(UxieError::invalid_format("x").kind(), ErrorKind::InvalidData);
    assert_eq!(UxieError::out_of_bounds("x", 1, 0).kind(), ErrorKind::InvalidInput);
    assert_eq!(UxieError::missing_directory("d").message(), "Missing required directory: d");
    assert_eq!(UxieError::unexpected_eof().kind(), ErrorKind::UnexpectedEof);
    assert_eq!(UxieError::invalid_data("bad".to_string()).message(), "I/O error: bad");
}
