use backend::identifier::sanitize_identifier;

#[test]
fn sanitize_lowercases_and_keeps_alphanumerics() {
    assert_eq!(sanitize_identifier("MyVM01"), "myvm01");
}

#[test]
fn sanitize_replaces_other_characters_with_hyphens() {
    assert_eq!(sanitize_identifier("web server_1"), "web-server-1");
}

#[test]
fn sanitize_collapses_runs_of_hyphens() {
    assert_eq!(sanitize_identifier("a  --  b"), "a-b");
}

#[test]
fn sanitize_trims_hyphens_at_both_ends() {
    assert_eq!(sanitize_identifier("--Lab Node!--"), "lab-node");
}

#[test]
fn sanitize_maps_non_ascii_letters_to_hyphens() {
    assert_eq!(sanitize_identifier("café-Über"), "caf-ber");
}

#[test]
fn sanitize_of_text_without_letters_or_digits_is_empty() {
    assert_eq!(sanitize_identifier("!!! ---"), "");
    assert_eq!(sanitize_identifier(""), "");
}

#[test]
fn sanitize_is_idempotent_on_examples() {
    for input in ["Hello, World!", "--x--y--", "ÄÖÜ 42", "a_b.c", ""] {
        let once = sanitize_identifier(input);
        assert_eq!(sanitize_identifier(&once), once);
    }
}

#[test]
fn sanitized_identifiers_are_clean() {
    for input in ["  Mixed CASE -- name ", "x", "__", "9-lives"] {
        let s = sanitize_identifier(input);
        assert!(s.chars().all(|c| c.is_ascii_lowercase() || c.is_ascii_digit() || c == '-'));
        assert!(!s.contains("--"));
        assert!(!s.starts_with('-') && !s.ends_with('-'));
    }
}
