use vgrep::text::is_blank;

#[test]
fn test_search_query_validation_logic() {
    let empty_query = "";
    let whitespace_query = "   ";
    let valid_query = "something";

    assert!(is_blank(empty_query));
    assert!(is_blank(whitespace_query));
    assert!(!is_blank(valid_query));
}

#[test]
fn test_embed_text_validation_logic() {
    let empty_text = "";
    let whitespace_text = "   ";
    let valid_text = "valid text";

    assert!(is_blank(empty_text));
    assert!(is_blank(whitespace_text));
    assert!(!is_blank(valid_text));
}

#[test]
fn test_embed_batch_validation_logic() {
    let empty_vec: Vec<String> = vec![];
    let vec_with_empty_strings = vec!["".to_string(), "   ".to_string()];
    let valid_vec = vec!["valid".to_string()];

    assert!(empty_vec.is_empty());
    assert!(vec_with_empty_strings.iter().all(|s| is_blank(s)));
    assert!(!valid_vec.is_empty() && !valid_vec.iter().all(|s| is_blank(s)));
}

#[test]
fn unicode_white_space_is_blank() {
    assert!(is_blank("\u{3000}\u{a0}\n\t"));
    assert!(!is_blank("\u{200b}"));
}
