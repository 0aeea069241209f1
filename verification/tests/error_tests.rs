use tracelens::error::AppError;
use tracelens::io::{ensure_min_file_size, validate_file_path};

#[test]
fn test_io_error_conversion() {
    let io_error = std::io::Error::new(std::io::ErrorKind::NotFound, "file not found");
    let app_error: AppError = io_error.into();

    match app_error {
        AppError::IoError { message } => {
            assert!(message.contains("file not found"));
        }
        _ => panic!("Wrong error variant"),
    }
}

#[test]
fn message_returns_the_text_of_each_variant() {
    let errors = vec![
        AppError::IoError { message: "a".to_string() },
        AppError::ParseError { message: "b".to_string() },
        AppError::ValidationError { message: "c".to_string() },
        AppError::SegyError { message: "d".to_string() },
    ];
    let texts: Vec<String> = errors.iter().map(|e| e.message().clone()).collect();
    assert_eq!(texts, vec!["a", "b", "c", "d"]);
}

#[test]
fn empty_path_is_a_validation_error() {
    match validate_file_path("") {
        Err(AppError::ValidationError { message }) => {
            assert_eq!(message, "File path cannot be empty");
        }
        other => panic!("unexpected: {:?}", other),
    }
    assert!(validate_file_path("survey.sgy").is_ok());
}

#[test]
fn short_file_is_a_segy_error() {
    match ensure_min_file_size(3599) {
        Err(AppError::SegyError { message }) => {
            assert_eq!(message, "File too small to be valid SEG-Y (3599 bytes, minimum 3600 bytes)");
        }
        other => panic!("unexpected: {:?}", other),
    }
    assert!(ensure_min_file_size(3600).is_ok());
}

#[test]
fn json_error_conversion() {
    let json_error = serde_json::from_str::<serde_json::Value>("{\"name\": ").unwrap_err();
    let text = json_error.to_string();
    match AppError::from(json_error) {
        AppError::ParseError { message } => {
            assert_eq!(message, text);
            assert!(message.contains("EOF"));
        }
        other => panic!("unexpected: {:?}", other),
    }
}
