use signer::escape::escape;

#[test]
fn pdf_string_delimiters_are_escaped() {
    assert_eq!(escape(r"a(b)c\d"), r"a\(b\)c\\d");
}

#[test]
fn escaping_a_backslash_does_not_escape_what_follows() {
    // The backslash has to be doubled first, or `\(` would come out as `\\(`
    // and close the string early.
    assert_eq!(escape(r"\("), r"\\\(");
}

#[test]
fn text_without_delimiters_is_unchanged() {
    assert_eq!(escape("31.05.2026"), "31.05.2026");
    assert_eq!(escape(""), "");
    assert_eq!(escape("Bevollmächtigter"), "Bevollmächtigter");
}

/// Reading a literal string's body back, up to its closing parenthesis, the
/// way a PDF reader does for the escapes `escape` writes.
fn read_back(body: &str) -> String {
    let mut out = String::new();
    let mut chars = body.chars().peekable();
    while let Some(c) = chars.next() {
        match c {
            '\\' if matches!(chars.peek(), Some('\\' | '(' | ')')) => out.push(chars.next().unwrap()),
            ')' => break,
            _ => out.push(c),
        }
    }
    out
}

#[test]
fn an_escaped_text_reads_back_as_itself() {
    for text in [r"a(b)c\d", r"\(", r"((", r")\\)", "plain", r"\"] {
        let body = format!("{})trailing", escape(text));
        assert_eq!(read_back(&body), text);
    }
}
