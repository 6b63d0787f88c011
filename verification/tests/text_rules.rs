use hengjing::selection::toggle_option;
use hengjing::text::{
    chars_of, clone_list, contains_text, decimal_text, is_blank, list_contains, parse_i64,
    parse_usize, same_text, signed_decimal_text, split_three, starts_with, strip_prefix,
    take_bytes,
};

const NUMBERS: [&str; 34] = [
    "", "0", "1", "7", "10", "007", "+7", "++7", "+", "-", "-0", "-1", "+-1", "-+1", "--1", " 1",
    "1 ", "1a", "a", "12.5", "1_000", "0x10", "１", "18446744073709551615",
    "18446744073709551616", "9223372036854775807", "9223372036854775808", "-9223372036854775808",
    "-9223372036854775809", "99999999999999999999999", "-1001234567890", "+18446744073709551615",
    "00000000000000000000000000000000000000001", "4294967296",
];

#[test]
fn numbers_read_like_std() {
    for text in NUMBERS {
        assert_eq!(parse_usize(text), text.parse::<usize>().ok(), "usize {text:?}");
        assert_eq!(parse_i64(text), text.parse::<i64>().ok(), "i64 {text:?}");
    }
}

#[test]
fn numbers_write_like_std() {
    for n in [0u64, 1, 9, 10, 11, 99, 100, 101, 4294967295, 18446744073709551615] {
        assert_eq!(decimal_text(n), n.to_string());
    }
    for n in [0i64, 5, -5, 10, -10, i64::MAX, i64::MIN, -1001234567890] {
        assert_eq!(signed_decimal_text(n), n.to_string());
    }
}

#[test]
fn written_numbers_read_back() {
    for n in 0..1200u64 {
        assert_eq!(parse_usize(&decimal_text(n)), Some(n as usize));
    }
    for n in [-1200i64, -1, 0, 1, i64::MIN, i64::MAX] {
        assert_eq!(parse_i64(&signed_decimal_text(n)), Some(n));
    }
}

#[test]
fn white_space_is_that_of_std() {
    for n in 0..=0x10ffffu32 {
        if let Some(c) = char::from_u32(n) {
            let text = c.to_string();
            assert_eq!(is_blank(&text), text.trim().is_empty(), "U+{n:04X}");
        }
    }
}

#[test]
fn blank_texts() {
    assert!(is_blank(""));
    assert!(is_blank(" \t\r\n\u{3000}"));
    assert!(!is_blank("  x "));
    assert!(!is_blank("\u{200b}"));
}

#[test]
fn prefixes_like_std() {
    for text in ["", "t", "t:", "t:1", "toggle:a", "ttoggle:", "✅ a", "✅"] {
        for prefix in ["", "t:", "toggle:", "✅", "✅ a b"] {
            assert_eq!(strip_prefix(text, prefix), text.strip_prefix(prefix));
            assert_eq!(starts_with(text, prefix), text.starts_with(prefix));
        }
    }
}

#[test]
fn occurrences_like_std() {
    for text in ["", "a", "abc", "aab", "aaab", "parsing JSON", "错误: ok", "ok"] {
        for part in ["", "a", "ab", "aab", "abcd", "JSON", "ok", "误"] {
            assert_eq!(contains_text(text, part), text.contains(part), "{part:?} in {text:?}");
        }
    }
}

#[test]
fn splits_like_std() {
    for text in ["", ":", "::", ":::", "a:b", "a:b:c", "a:b:c:d:", "a::", "::c", "继:续:发", "abc"] {
        let parts: Vec<&str> = text.splitn(3, ':').collect();
        let expected = if parts.len() < 3 { None } else { Some((parts[0], parts[1], parts[2])) };
        assert_eq!(split_three(text), expected, "{text:?}");
    }
}

#[test]
fn byte_cuts_like_std() {
    for text in ["", "abc", "请求-1", "aé✅🤖z"] {
        for n in 0..text.len() + 3 {
            assert_eq!(take_bytes(text, n), text.get(..n), "{text:?} at {n}");
        }
    }
}

#[test]
fn small_texts() {
    assert_eq!(chars_of("a✅b"), vec!['a', '✅', 'b']);
    assert!(same_text("发送", "发送"));
    assert!(!same_text("a", "A"));
    assert!(!same_text("a", "a "));
    let list = vec!["a".to_string(), "b".to_string()];
    assert!(list_contains(&list, "b"));
    assert!(!list_contains(&list, "c"));
    assert!(!list_contains(&[], ""));
    assert_eq!(clone_list(&list), list);
}

#[test]
fn toggling_keeps_the_order_of_selection() {
    let mut selected: Vec<String> = Vec::new();
    assert!(toggle_option(&mut selected, "b"));
    assert!(toggle_option(&mut selected, "a"));
    assert!(toggle_option(&mut selected, "c"));
    assert_eq!(selected, ["b", "a", "c"]);
    assert!(!toggle_option(&mut selected, "a"));
    assert_eq!(selected, ["b", "c"]);
    assert!(toggle_option(&mut selected, "a"));
    assert_eq!(selected, ["b", "c", "a"]);
}

#[test]
fn toggling_twice_selects_the_same() {
    let mut selected = vec!["x".to_string()];
    assert!(toggle_option(&mut selected, "y"));
    assert!(!toggle_option(&mut selected, "y"));
    assert_eq!(selected, ["x"]);
}

#[test]
fn toggling_drops_every_copy() {
    let mut selected = vec!["a".to_string(), "b".to_string(), "a".to_string()];
    assert!(!toggle_option(&mut selected, "a"));
    assert_eq!(selected, ["b"]);
}
