use sshscan::json::{push_quoted, read_port, read_string, read_word};

fn chars(s: &str) -> Vec<char> {
    s.chars().collect()
}

fn quoted(s: &str) -> String {
    let mut out = String::new();
    push_quoted(&mut out, s);
    out
}

#[test]
fn strings_are_quoted_and_escaped() {
    assert_eq!(quoted(""), "\"\"");
    assert_eq!(quoted("root"), "\"root\"");
    assert_eq!(quoted("\""), "\"\\\"\"");
    assert_eq!(quoted("\\"), "\"\\\\\"");
    assert_eq!(quoted("\u{8}\u{c}\n\r\t"), "\"\\b\\f\\n\\r\\t\"");
    assert_eq!(quoted("\u{0}\u{1f}\u{1a}\u{b}"), "\"\\u0000\\u001f\\u001a\\u000b\"");
    assert_eq!(quoted(" ~\u{7f}\u{80}é/😀"), "\" ~\u{7f}\u{80}é/😀\"");
}

#[test]
fn every_control_character_is_escaped_with_lower_case_digits() {
    let letters = [(8u32, 'b'), (9, 't'), (10, 'n'), (12, 'f'), (13, 'r')];
    for code in 0u32..0x20 {
        let c = char::from_u32(code).unwrap();
        let expected = match letters.iter().find(|(k, _)| *k == code) {
            Some((_, letter)) => format!("\"\\{}\"", letter),
            None => format!("\"\\u00{:02x}\"", code),
        };
        assert_eq!(quoted(&c.to_string()), expected);
    }
    for code in 0x20u32..0x250 {
        let c = char::from_u32(code).unwrap();
        if c != '"' && c != '\\' {
            assert_eq!(quoted(&c.to_string()), format!("\"{}\"", c));
        }
    }
}

#[test]
fn quoting_appends() {
    let mut out = "x=".to_string();
    push_quoted(&mut out, "a");
    push_quoted(&mut out, "b");
    assert_eq!(out, "x=\"a\"\"b\"");
}

#[test]
fn words_are_skipped() {
    let text = chars("null,true");
    assert_eq!(read_word(&text, 0, "null"), Some(4));
    assert_eq!(read_word(&text, 0, ""), Some(0));
    assert_eq!(read_word(&text, 4, ","), Some(5));
    assert_eq!(read_word(&text, 5, "true"), Some(9));
    assert_eq!(read_word(&text, 9, ""), Some(9));
    assert_eq!(read_word(&text, 0, "nul"), Some(3));
    assert_eq!(read_word(&text, 0, "nulL"), None);
    assert_eq!(read_word(&text, 1, "null"), None);
    assert_eq!(read_word(&text, 5, "true!"), None);
    assert_eq!(read_word(&text, 9, "x"), None);
}

#[test]
fn strings_are_read() {
    let text = chars("\"ab\"rest");
    assert_eq!(read_string(&text, 0), Some(("ab".to_string(), 4)));
    assert_eq!(read_string(&text, 1), None);
    assert_eq!(read_string(&text, 3), None);
    assert_eq!(read_string(&text, 8), None);
    let text = chars("x\"\"");
    assert_eq!(read_string(&text, 1), Some((String::new(), 3)));
    let text = chars("\"\\\"\\\\\\b\\f\\n\\r\\t\\u0000\\u001f\\u00e9\\u00E9é\"");
    assert_eq!(
        read_string(&text, 0),
        Some(("\"\\\u{8}\u{c}\n\r\t\u{0}\u{1f}ééé".to_string(), text.len()))
    );
}

#[test]
fn broken_strings_are_not_read() {
    for s in [
        "", "a", "\"", "\"a", "\"\\\"", "\"\\", "\"\\a\"", "\"\\/\"", "\"\\u\"", "\"\\u00\"",
        "\"\\u0g00\"", "\"\\u0100\"", "\"\\u1000\"", "\"\\u000\"", "\"\\u00g0\"", "\"\\U0000\"",
    ] {
        assert_eq!(read_string(&chars(s), 0), None, "{}", s);
    }
}

#[test]
fn written_strings_are_read_back() {
    for s in ["", "root", "\"", "\\", "\\\"", "a\"b\\c\nd", "\u{0}\u{1}\u{1f}", "é😀\u{7f}", "\\u0041", "\"\"\"", "\\\\\\"] {
        let written = quoted(s) + "}";
        let text = chars(&written);
        assert_eq!(read_string(&text, 0), Some((s.to_string(), text.len() - 1)), "{}", written);
    }
}

#[test]
fn ports_are_read() {
    assert_eq!(read_port(&chars("22}"), 0), Some((22, 2)));
    assert_eq!(read_port(&chars("22"), 0), Some((22, 2)));
    assert_eq!(read_port(&chars("22"), 1), Some((2, 2)));
    assert_eq!(read_port(&chars("0"), 0), Some((0, 1)));
    assert_eq!(read_port(&chars("007,"), 0), Some((7, 3)));
    assert_eq!(read_port(&chars("65535x"), 0), Some((65535, 5)));
    assert_eq!(read_port(&chars("65536"), 0), None);
    assert_eq!(read_port(&chars("99999999999999999999999"), 0), None);
    assert_eq!(read_port(&chars(""), 0), None);
    assert_eq!(read_port(&chars("22"), 2), None);
    assert_eq!(read_port(&chars("x22"), 0), None);
    assert_eq!(read_port(&chars("+22"), 0), None);
    assert_eq!(read_port(&chars("-22"), 0), None);
    assert_eq!(read_port(&chars("a"), 0), None);
    assert_eq!(read_port(&chars("1a"), 0), Some((1, 1)));
}
