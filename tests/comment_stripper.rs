use starlang::comment_stripper::strip_comments;

#[test]
fn passes_through_comment_less_code() {
    assert_eq!(
        strip_comments("function main(args) {\n    return 1;\n}\n"),
        "function main(args) {\n    return 1;\n}\n"
    )
}

#[test]
fn strips_line_comment() {
    assert_eq!(
        strip_comments("function a() {}\n# A comment\nfunction main(args) {\n    return 1;\n}\n"),
        "function a() {}\n\nfunction main(args) {\n    return 1;\n}\n"
    )
}

#[test]
fn strips_trailing_comment() {
    assert_eq!(
        strip_comments("function main(args) {\n    return 1;# A comment\n}\n"),
        "function main(args) {\n    return 1;\n}\n"
    )
}

#[test]
fn ignores_hash_character_in_string() {
    assert_eq!(
        strip_comments("\nfunction main(args) {\n    let a = \"a # char\";\n}\n"),
        "\nfunction main(args) {\n    let a = \"a # char\";\n}\n"
    )
}

#[test]
fn stips_comment_after_string() {
    assert_eq!(
        strip_comments("\nfunction main(args) {\n    let a = \"a # char\";# A comment\n}\n"),
        "\nfunction main(args) {\n    let a = \"a # char\";\n}\n"
    )
}

#[test]
fn skips_hash_in_char() {
    assert_eq!(
        strip_comments("\nfunction main(args) {\n    let a = '#';# A comment\n}\n"),
        "\nfunction main(args) {\n    let a = '#';\n}\n"
    )
}

#[test]
fn comment_on_last_line_without_newline() {
    assert_eq!(strip_comments("a # b"), "a ");
}

#[test]
fn empty_input() {
    assert_eq!(strip_comments(""), "");
}
