use cosmic_wmctl::decimal::{decimal_text, parse_u32};
use cosmic_wmctl::order::{comes_before, insert_sorted};
use cosmic_wmctl::text;

#[test]
fn white_space_is_that_of_unicode() {
    for n in 0..=0x10ffffu32 {
        if let Some(c) = char::from_u32(n) {
            assert_eq!(text::white_space(c), c.is_whitespace(), "{n:#x}");
        }
    }
}

#[test]
fn trimming_and_splitting_are_those_of_str() {
    for s in ["", " ", "a", " a ", "\ta b\n", "\u{a0}x\u{3000}", "a and b", " and ", "and and and", "é and ü"] {
        assert_eq!(text::trim(s), s.trim(), "{s:?}");
        assert_eq!(text::split(s, " and "), s.split(" and ").collect::<Vec<_>>(), "{s:?}");
        assert_eq!(text::split(s, ","), s.split(',').collect::<Vec<_>>(), "{s:?}");
    }
    for s in ["1,2", ",", ",,", "a,", ",a"] {
        assert_eq!(text::split(s, ","), s.split(',').collect::<Vec<_>>(), "{s:?}");
    }
    assert_eq!(text::split("aaa", "aa"), "aaa".split("aa").collect::<Vec<_>>());
}

#[test]
fn joining_is_that_of_slices() {
    let owned = |list: &[&str]| list.iter().map(|s| s.to_string()).collect::<Vec<_>>();
    for list in [&[][..], &["a"], &["a", "b"], &["", "", ""], &["é", "x", "y"]] {
        assert_eq!(text::join(&owned(list), ", "), list.join(", "));
    }
}

#[test]
fn case_is_ignored() {
    assert!(text::same_ignoring_case("HDMI-A-1", "hdmi-a-1"));
    assert!(!text::same_ignoring_case("É", "é"));
    assert!(text::contains_ignoring_case("org.Mozilla.FireFox", "FIRE"));
    assert!(text::contains_ignoring_case("abc", ""));
    assert!(text::contains_ignoring_case("É", "é"));
    assert!(text::contains_ignoring_case("İ", "i\u{307}"));
    assert!(!text::contains_ignoring_case("É", "e"));
    assert!(!text::contains_ignoring_case("ab", "abc"));
    for n in 0..128u8 {
        let c = n as char;
        let lower = c.to_ascii_lowercase();
        assert!(text::same_ignoring_case(&c.to_string(), &lower.to_string()));
        assert!(text::contains_ignoring_case(&c.to_string(), &lower.to_string()));
    }
    for n in 0..=0x10ffffu32 {
        if let Some(c) = char::from_u32(n) {
            let lower: String = c.to_lowercase().collect();
            let form: String = lower.chars().flat_map(char::to_lowercase).collect();
            assert_eq!(text::contains_ignoring_case(&c.to_string(), &lower), form == lower, "{n:#x}");
        }
    }
}

#[test]
fn white_space_is_found_anywhere() {
    for s in ["", "a", "a=b", "é"] {
        assert!(!text::holds_white_space(s), "{s:?}");
    }
    for s in [" ", "a b", "a\t", "\u{a0}a"] {
        assert!(text::holds_white_space(s), "{s:?}");
    }
}

#[test]
fn texts_are_ordered_like_strings() {
    let samples = ["", "a", "b", "ab", "aa", "A", "é", "z", "\u{ffff}", "\u{10000}", "1", "10", "2"];
    for a in samples {
        for b in samples {
            assert_eq!(comes_before(a, b), a < b, "{a:?} {b:?}");
        }
    }
    let mut list = Vec::new();
    for s in samples.iter().chain(samples.iter()) {
        insert_sorted(&mut list, s.to_string());
    }
    let mut want = samples.map(|s| s.to_string()).to_vec();
    want.sort();
    want.dedup();
    assert_eq!(list, want);
}

#[test]
fn decimals_are_those_of_std() {
    for n in [0u64, 1, 9, 10, 99, 100, 4294967295, 4294967296, u64::MAX] {
        assert_eq!(decimal_text(n), n.to_string());
    }
    for s in ["", "0", "+1", "-0", "-1", "007", "4294967295", "4294967296", "99999999999", "1a", "+", "++1", " 1", "١"] {
        assert_eq!(parse_u32(s), s.parse::<u32>().ok(), "{s:?}");
    }
}
