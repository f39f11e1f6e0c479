use ctbox::envelope::unwrap;

#[test]
fn unwrap_returns_what_stands_between_the_parentheses() {
    assert_eq!(unwrap("id(\"x\":1)", "id"), "\"x\":1");
}

#[test]
fn unwrap_with_another_callback_returns_the_body() {
    assert_eq!(unwrap("id(\"x\":1)", "other"), "id(\"x\":1)");
    assert_eq!(unwrap("ctbox({})", "ctbo"), "ctbox({})");
}

#[test]
fn unwrap_keeps_inner_parentheses() {
    assert_eq!(unwrap("cb({\"a\":\"(b)\"})", "cb"), "{\"a\":\"(b)\"}");
    assert_eq!(unwrap("cb(()", "cb"), "(");
    assert_eq!(unwrap("cb())", "cb"), ")");
}

#[test]
fn unwrap_takes_the_first_opening_and_the_last_closing() {
    assert_eq!(unwrap("xx cb(1) cb(2) yy", "cb"), "1) cb(2");
    assert_eq!(unwrap("/**/cb([]);", "cb"), "[]");
}

#[test]
fn unwrap_without_a_closing_parenthesis_returns_the_body() {
    assert_eq!(unwrap("cb({\"a\":1}", "cb"), "cb({\"a\":1}");
    assert_eq!(unwrap(")cb(", "cb"), ")cb(");
    assert_eq!(unwrap("cb", "cb"), "cb");
    assert_eq!(unwrap("", "cb"), "");
}

#[test]
fn unwrap_of_an_empty_payload_is_empty() {
    assert_eq!(unwrap("cb()", "cb"), "");
}

#[test]
fn unwrap_with_an_empty_callback_takes_the_first_parenthesis() {
    assert_eq!(unwrap("ab(cd)e", ""), "cd");
}

#[test]
fn unwrap_counts_characters_not_bytes() {
    assert_eq!(unwrap("名(值)", "名"), "值");
    assert_eq!(unwrap("é(ü)ß", "é"), "ü");
}
