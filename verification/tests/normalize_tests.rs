use line_cleanser::normalize_line;

#[test]
fn strips_from_the_first_hash_character() {
    assert_eq!(normalize_line("content # comment"), "content");
    assert_eq!(normalize_line("a # b # c"), "a");
    assert_eq!(normalize_line("no comment at all"), "no comment at all");
}

#[test]
fn a_hash_has_no_escape() {
    // there is deliberately no way to keep a literal '#' in content
    assert_eq!(normalize_line("price \\# tag"), "price \\");
}

#[test]
fn trims_both_ends_after_stripping() {
    assert_eq!(normalize_line("  spaced out  # and a comment"), "spaced out");
    assert_eq!(normalize_line("\t mixed \u{00A0}"), "mixed");
    assert_eq!(normalize_line("   "), "");
    assert_eq!(normalize_line(""), "");
}

#[test]
fn keeps_internal_whitespace_exactly() {
    assert_eq!(normalize_line(" a  b\t\tc "), "a  b\t\tc");
}

#[test]
fn replaces_interior_non_breaking_spaces_with_plain_spaces() {
    assert_eq!(
        normalize_line("nbsp\u{00A0}separated\u{00A0}words"),
        "nbsp separated words"
    );
    // the substitution is per character: runs are not collapsed
    assert_eq!(normalize_line("a\u{00A0}\u{00A0}b"), "a  b");
    // other whitespace is untouched by the substitution
    assert_eq!(normalize_line("a\tb"), "a\tb");
}

#[test]
fn does_not_lowercase_the_candidate() {
    assert_eq!(normalize_line("Mixed CASE Content"), "Mixed CASE Content");
}
