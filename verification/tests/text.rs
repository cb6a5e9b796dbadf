use codex_mic::text::{
    chars_of, contains, copy, eq_ignore_ascii_case, find_from, is_blank, is_control,
    is_whitespace, join, read_u64, same, split_second, string_of, trim, write_i64, write_u64,
};

#[test]
fn characters_are_classed_as_std_classes_them() {
    for c in '\0'..=char::MAX {
        assert_eq!(is_whitespace(c), c.is_whitespace(), "{c:?}");
        assert_eq!(is_control(c), c.is_control(), "{c:?}");
    }
}

#[test]
fn trimming() {
    for s in ["", " ", "a", " a b ", "\u{3000}한\u{85}", "\n\t"] {
        assert_eq!(trim(s), s.trim());
        assert_eq!(is_blank(s), s.trim().is_empty());
    }
}

#[test]
fn searching() {
    for hay in ["", "a", "aab", "ababac", "가나다"] {
        for needle in ["", "a", "ab", "abac", "나다", "x"] {
            assert_eq!(contains(hay, needle), hay.contains(needle), "{hay} {needle}");
        }
    }
    assert_eq!(find_from(&['a', 'b', 'a'], 1, 'a'), 2);
    assert_eq!(find_from(&['a', 'b', 'a'], 0, 'x'), 3);
    for s in ["", "a", "a.b", "a.b.c", "..", ".", "가.나.다"] {
        assert_eq!(split_second(s, '.'), s.split('.').nth(1), "{s}");
    }
}

#[test]
fn comparing_and_joining() {
    assert!(same("a", "a"));
    assert!(!same("a", "A"));
    assert!(eq_ignore_ascii_case("CapsLock", "capslock"));
    assert!(!eq_ignore_ascii_case("É", "é"));
    assert!(!eq_ignore_ascii_case("a", "ab"));
    assert_eq!(join("한", "글"), "한글");
    assert_eq!(copy("x"), "x");
    assert_eq!(string_of(&chars_of("한g")), "한g");
}

#[test]
fn numbers() {
    for n in [0, 7, 10, 1_234_567_890, u64::MAX] {
        assert_eq!(write_u64(n), n.to_string());
        assert_eq!(read_u64(&n.to_string()), Some(n));
    }
    for n in [0, -1, 42, i64::MIN, i64::MAX] {
        assert_eq!(write_i64(n), n.to_string());
    }
    for s in ["", "+", "-1", "+5", "007", " 1", "1 ", "1x", "18446744073709551616", "٣"] {
        assert_eq!(read_u64(s), s.parse::<u64>().ok(), "{s}");
    }
}
