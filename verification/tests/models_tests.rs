use vgrep::models::{context_window, fit_tokens, validate_model_file, ModelFileError};

#[test]
fn model_file_checks() {
    assert_eq!(validate_model_file(false, 0, 10, None), Err(ModelFileError::Missing));
    assert_eq!(validate_model_file(true, 5, 10, Some(b"GGUF")), Err(ModelFileError::TooSmall(5, 10)));
    assert_eq!(validate_model_file(true, 50, 10, None), Err(ModelFileError::UnreadableHeader));
    assert_eq!(validate_model_file(true, 50, 10, Some(b"GGML")), Err(ModelFileError::NotGguf));
    assert_eq!(validate_model_file(true, 50, 10, Some(b"GGUF")), Ok(()));
    assert_eq!(validate_model_file(true, 10, 10, Some(b"GGUF")), Ok(()));
}

#[test]
fn token_limits() {
    assert_eq!(context_window(2048, 512), 512);
    assert_eq!(context_window(256, 512), 256);
    assert_eq!(fit_tokens(vec![1, 2, 3, 4], 2), vec![1, 2]);
    assert_eq!(fit_tokens(vec![1, 2], 2), vec![1, 2]);
    assert_eq!(fit_tokens(vec![], 0), Vec::<i32>::new());
}

#[test]
fn model_file_error_messages() {
    assert_eq!(
        ModelFileError::Missing.message("/m/a.gguf"),
        "Model file does not exist at /m/a.gguf"
    );
    assert_eq!(
        ModelFileError::TooSmall(5, 1024).message("/m/a.gguf"),
        "Model file size too small: 5 bytes (expected at least 1024)"
    );
    assert_eq!(ModelFileError::UnreadableHeader.message("/m/a.gguf"), "Failed to read file header");
    assert_eq!(
        ModelFileError::NotGguf.message("/m/a.gguf"),
        "Invalid file format: Header is not 'GGUF'"
    );
    let e = validate_model_file(true, 0, 100, None).unwrap_err();
    assert_eq!(e.message("x"), "Model file size too small: 0 bytes (expected at least 100)");
}
