use editor::encoding::{encoded, utf8_width};

#[test]
fn utf8_width_of_each_length() {
    assert_eq!(utf8_width('\u{0}'), 1);
    assert_eq!(utf8_width('a'), 1);
    assert_eq!(utf8_width('\u{7f}'), 1);
    assert_eq!(utf8_width('\u{80}'), 2);
    assert_eq!(utf8_width('\u{e9}'), 2);
    assert_eq!(utf8_width('\u{7ff}'), 2);
    assert_eq!(utf8_width('\u{800}'), 3);
    assert_eq!(utf8_width('\u{4e16}'), 3);
    assert_eq!(utf8_width('\u{ffff}'), 3);
    assert_eq!(utf8_width('\u{10000}'), 4);
    assert_eq!(utf8_width('\u{1f600}'), 4);
    assert_eq!(utf8_width('\u{10ffff}'), 4);
}

#[test]
fn utf8_width_agrees_with_the_encoding() {
    for c in ['a', '\u{e9}', '\u{4e16}', '\u{1f600}', '\n', '\u{d7ff}', '\u{e000}'] {
        assert_eq!(utf8_width(c), c.len_utf8());
    }
}

#[test]
fn encoded_gives_the_bytes_of_the_text() {
    assert_eq!(encoded(""), b"");
    assert_eq!(encoded("a\n"), b"a\n");
    assert_eq!(encoded("h\u{e9}\u{4e16}\u{1f600}"), "h\u{e9}\u{4e16}\u{1f600}".as_bytes());
    assert_eq!(encoded("\u{e9}").len(), 2);
}
