use d_buddy::text::{
    chars_of, compare_text, contains, join, push_decimal, push_hex_padded, push_repeated,
    push_signed, same_text,
};

#[test]
fn decimal_matches_standard_formatting() {
    for n in [0u64, 1, 9, 10, 19, 100, 65535, 4294967296, u64::MAX] {
        let mut out = String::from("n=");
        push_decimal(&mut out, n);
        assert_eq!(out, format!("n={}", n));
    }
}

#[test]
fn signed_decimal_matches_standard_formatting() {
    for n in [0i64, -1, 1, -9, -10, 1234, i64::MIN, i64::MAX] {
        let mut out = String::new();
        push_signed(&mut out, n);
        assert_eq!(out, format!("{}", n));
    }
}

#[test]
fn hexadecimal_is_padded_to_a_minimum_width() {
    let mut out = String::new();
    push_hex_padded(&mut out, 0x1f, 8);
    assert_eq!(out, "0000001f");
    let mut wide = String::new();
    push_hex_padded(&mut wide, 0x1_2345_6789, 8);
    assert_eq!(wide, "123456789");
    let mut byte = String::new();
    push_hex_padded(&mut byte, 0xa, 2);
    assert_eq!(byte, "0a");
    let mut zero = String::new();
    push_hex_padded(&mut zero, 0, 2);
    assert_eq!(zero, "00");
}

#[test]
fn repeated_characters() {
    let mut out = String::from("a");
    push_repeated(&mut out, ' ', 3);
    push_repeated(&mut out, 'x', 0);
    assert_eq!(out, "a   ");
}

#[test]
fn characters_are_read_in_order() {
    let chars = chars_of("héllo");
    assert_eq!(chars, vec!['h', 'é', 'l', 'l', 'o']);
    assert_eq!(chars_of(""), Vec::<char>::new());
}

#[test]
fn containment_is_literal_and_case_sensitive() {
    assert!(contains("org.freedesktop.DBus", "desktop"));
    assert!(contains("org.freedesktop.DBus", ""));
    assert!(contains("", ""));
    assert!(contains("abc", "abc"));
    assert!(contains("abc", "c"));
    assert!(contains("aab", "ab"));
    assert!(!contains("org.freedesktop.DBus", "Desktop"));
    assert!(!contains("abc", "abcd"));
    assert!(!contains("", "a"));
    assert!(!contains("a.c", "abc"));
}

#[test]
fn containment_agrees_with_the_standard_library() {
    let hays = ["", "a", "ab", "aba", "abab", "hello world", ":1.42"];
    let needles = ["", "a", "b", "ab", "ba", "aba", "o w", "1.4", "x"];
    for hay in hays {
        for needle in needles {
            assert_eq!(contains(hay, needle), hay.contains(needle), "{:?} in {:?}", needle, hay);
        }
    }
}

#[test]
fn text_order_agrees_with_the_standard_library() {
    let texts = ["", "a", "A", "ab", "b", "10", "9", "é", "z", "abc", "abd"];
    for a in texts {
        for b in texts {
            let expected = match a.cmp(b) {
                std::cmp::Ordering::Less => -1,
                std::cmp::Ordering::Equal => 0,
                std::cmp::Ordering::Greater => 1,
            };
            assert_eq!(compare_text(a, b), expected, "{:?} against {:?}", a, b);
            assert_eq!(same_text(a, b), a == b);
        }
    }
}

#[test]
fn join_puts_the_separator_between_parts() {
    let parts = vec!["a".to_string(), "b".to_string(), "c".to_string()];
    assert_eq!(join(&parts, "::"), "a::b::c");
    assert_eq!(join(&parts[..1].to_vec(), "::"), "a");
    assert_eq!(join(&Vec::new(), "::"), "");
    assert_eq!(join(&vec!["".to_string(), "".to_string()], ", "), ", ");
}
