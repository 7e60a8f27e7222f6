use spa_device::text::{
    from_chars, get_value, is_white, parse_u16, push_decimal, read_kv, split_lines, to_chars,
    trimmed,
};

fn number(s: &str) -> Option<u16> {
    parse_u16(&to_chars(s))
}

#[test]
fn port_numbers_parse_as_std_parses_them() {
    for s in [
        "0", "22", "+22", "0022", "65535", "65536", "99999999999999999999", "", "+", "-1", "-0",
        "++1", " 1", "1 ", "0x1", "1_0", "١",
    ] {
        assert_eq!(number(s), s.parse::<u16>().ok(), "{s:?}");
    }
}

#[test]
fn decimals_read_back() {
    for n in [0u64, 7, 10, 99, 100, 65535, u64::MAX] {
        let mut out = String::from("n=");
        push_decimal(&mut out, n);
        assert_eq!(out, format!("n={n}"));
    }
    for n in [0u16, 9, 10, 62201, u16::MAX] {
        assert_eq!(number(&n.to_string()), Some(n));
    }
}

#[test]
fn lines_split_as_std_splits_them() {
    for s in ["", "a", "a\n", "a\nb", "a\r\nb\r", "\n\n", "\r\n", "a\r\r\nb", "é\n=\n"] {
        let got: Vec<String> = split_lines(&to_chars(s))
            .iter()
            .map(|l| from_chars(l))
            .collect();
        let want: Vec<&str> = s.lines().collect();
        assert_eq!(got, want, "{s:?}");
    }
}

#[test]
fn white_space_is_that_of_unicode() {
    for n in 0..=0x10ffffu32 {
        if let Some(c) = char::from_u32(n) {
            assert_eq!(is_white(c), c.is_whitespace(), "{n:#x}");
        }
    }
    for s in ["", " ", " a b\t", "\u{3000}x\u{85}", "x"] {
        assert_eq!(from_chars(trimmed(&to_chars(s))), s.trim());
    }
}

#[test]
fn later_entries_win() {
    let kv = read_kv("a=1\n no entry\n a = 2 \nb==x\n=y\n");
    let get = |k: &str| get_value(&kv, k).map(from_chars);
    assert_eq!(get("a").as_deref(), Some("2"));
    assert_eq!(get("b").as_deref(), Some("=x"));
    assert_eq!(get("").as_deref(), Some("y"));
    assert_eq!(get("c"), None);
}
