use omnikit::text::{
    chars_of, contains, find_from, push_decimal, replace_all, space, starts_with, strip_end_chars,
    text_of, trim_chars,
};

fn s(v: &Vec<char>) -> String {
    text_of(v)
}

#[test]
fn chars_and_text_are_inverse() {
    let v = chars_of("héllo 世界");
    assert_eq!(v.len(), 8);
    assert_eq!(v[1], 'é');
    assert_eq!(s(&v), "héllo 世界");
    assert_eq!(text_of(&Vec::new()), "");
}

#[test]
fn contains_finds_a_piece_anywhere() {
    assert!(contains("https://www.bilibili.com/video/BV1", "bilibili.com"));
    assert!(contains("abc", ""));
    assert!(contains("abc", "c"));
    assert!(!contains("abc", "abcd"));
    assert!(!contains("", "a"));
    assert!(!contains("ab-ab", "abab"));
}

#[test]
fn starts_with_looks_at_the_start_only() {
    assert!(starts_with("/api", "/"));
    assert!(!starts_with("api/", "/"));
    assert!(starts_with("abc", ""));
    assert!(!starts_with("", "/"));
}

#[test]
fn find_from_gives_the_first_place() {
    let hay = chars_of("abcabc");
    let needle = chars_of("bc");
    assert_eq!(find_from(&hay, &needle, 0), Some(1));
    assert_eq!(find_from(&hay, &needle, 2), Some(4));
    assert_eq!(find_from(&hay, &needle, 5), None);
    assert_eq!(find_from(&hay, &needle, 99), None);
    assert_eq!(find_from(&hay, &Vec::new(), 6), Some(6));
}

#[test]
fn trim_takes_unicode_white_space_from_both_ends() {
    assert_eq!(s(&trim_chars(&chars_of("  a b \t\n"))), "a b");
    assert_eq!(s(&trim_chars(&chars_of("\u{3000}名前\u{a0}"))), "名前");
    assert_eq!(s(&trim_chars(&chars_of(" \t "))), "");
    assert_eq!(s(&trim_chars(&chars_of(""))), "");
    assert_eq!("\u{3000}名前\u{a0}".trim(), "名前");
}

#[test]
fn space_agrees_with_the_standard_library() {
    let mut n: u32 = 0;
    while n <= 0x3100 {
        if let Some(c) = char::from_u32(n) {
            assert_eq!(space(c), c.is_whitespace(), "code point {}", n);
        }
        n += 1;
    }
}

#[test]
fn strip_end_takes_only_listed_characters() {
    let set = chars_of(",.;");
    assert_eq!(s(&strip_end_chars(&chars_of("a.b,.;"), &set)), "a.b");
    assert_eq!(s(&strip_end_chars(&chars_of(".,"), &set)), "");
    assert_eq!(s(&strip_end_chars(&chars_of("abc"), &set)), "abc");
}

#[test]
fn replace_all_goes_left_to_right_without_overlap() {
    let r = |a: &str, b: &str, c: &str| s(&replace_all(&chars_of(a), &chars_of(b), &chars_of(c)));
    assert_eq!(r("xplaywm/playwm", "playwm", "play"), "xplay/play");
    assert_eq!(r("aaa", "aa", "b"), "ba");
    assert_eq!(r("abc", "", "x"), "abc");
    assert_eq!(r("abc", "abcd", "x"), "abc");
    assert_eq!(r("", "a", "x"), "");
    assert_eq!(r("aaa", "aa", "b"), "aaa".replace("aa", "b"));
}

#[test]
fn decimal_is_written_without_leading_zeros() {
    let d = |n: u64| {
        let mut v = Vec::new();
        push_decimal(&mut v, n);
        s(&v)
    };
    assert_eq!(d(0), "0");
    assert_eq!(d(7), "7");
    assert_eq!(d(10), "10");
    assert_eq!(d(1080), "1080");
    assert_eq!(d(u64::MAX), "18446744073709551615");
}
