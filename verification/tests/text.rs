use metascoop::text::{
    char_is_ascii_alphanumeric, char_is_whitespace, chars_of, clone_strings, find_last, find_text,
    join, matches_at, same_strings, str_contains, str_ends_with, str_less, string_of, tail, trim,
};

fn chars(s: &str) -> Vec<char> {
    s.chars().collect()
}

fn strings(items: &[&str]) -> Vec<String> {
    items.iter().map(|s| s.to_string()).collect()
}

#[test]
fn whitespace_is_what_the_standard_library_calls_whitespace() {
    let mut n: u32 = 0;
    while n <= 0x10ffff {
        if let Some(c) = char::from_u32(n) {
            assert_eq!(char_is_whitespace(c), c.is_whitespace(), "code point {:x}", n);
        }
        n += 1;
    }
}

#[test]
fn alphanumeric_is_what_the_standard_library_calls_ascii_alphanumeric() {
    let mut n: u32 = 0;
    while n <= 0x10ffff {
        if let Some(c) = char::from_u32(n) {
            assert_eq!(char_is_ascii_alphanumeric(c), c.is_ascii_alphanumeric());
        }
        n += 1;
    }
}

#[test]
fn chars_and_strings_convert_both_ways() {
    assert_eq!(chars_of("héllo"), vec!['h', 'é', 'l', 'l', 'o']);
    assert_eq!(string_of(&vec!['h', 'é', 'l', 'l', 'o']), "héllo");
    assert_eq!(chars_of(""), Vec::<char>::new());
    assert_eq!(string_of(&Vec::new()), "");
}

#[test]
fn string_lists_are_copied_and_compared() {
    let a = strings(&["x", "", "yz"]);
    assert_eq!(clone_strings(&a), a);
    assert!(same_strings(&a, &strings(&["x", "", "yz"])));
    assert!(!same_strings(&a, &strings(&["x", "", "yy"])));
    assert!(!same_strings(&a, &strings(&["x", ""])));
    assert!(same_strings(&Vec::new(), &Vec::new()));
}

#[test]
fn lexicographic_order_agrees_with_the_standard_library() {
    let samples = ["", "a", "ab", "b", "1.0", "1.10", "1.9", "é", "z", "Z", "\u{10000}", "\u{ffff}"];
    for a in samples {
        for b in samples {
            assert_eq!(str_less(a, b), a < b, "{:?} < {:?}", a, b);
        }
    }
}

#[test]
fn a_prefix_comes_first() {
    assert!(str_less("1.0", "1.0.1"));
    assert!(!str_less("1.0.1", "1.0"));
    assert!(!str_less("1.0", "1.0"));
}

#[test]
fn matching_at_a_position() {
    let hay = chars("index-v1.json");
    assert!(matches_at(&hay, &chars("index"), 0));
    assert!(!matches_at(&hay, &chars("index"), 1));
    assert!(matches_at(&hay, &chars("json"), 9));
    assert!(!matches_at(&hay, &chars("json"), 10));
    assert!(matches_at(&hay, &chars(""), 13));
    assert!(!matches_at(&hay, &chars(""), 14));
}

#[test]
fn finding_the_first_occurrence() {
    assert_eq!(find_text(&chars("abcabc"), &chars("bc")), Some(1));
    assert_eq!(find_text(&chars("abcabc"), &chars("abc")), Some(0));
    assert_eq!(find_text(&chars("abcabc"), &chars("cab")), Some(2));
    assert_eq!(find_text(&chars("abcabc"), &chars("abcd")), None);
    assert_eq!(find_text(&chars("abc"), &chars("abcabc")), None);
    assert_eq!(find_text(&chars("abc"), &chars("")), Some(0));
    assert_eq!(find_text(&chars(""), &chars("")), Some(0));
    assert_eq!(find_text(&chars("aab"), &chars("ab")), Some(1));
}

#[test]
fn containment_and_suffix() {
    assert!(str_contains("repo/index-v1.json", "index"));
    assert!(!str_contains("icons/foo.png", "index"));
    assert!(str_contains("abc", ""));
    assert!(!str_contains("inde", "index"));
    assert!(str_ends_with("app.apk", ".apk"));
    assert!(!str_ends_with("app.apk.sig", ".apk"));
    assert!(!str_ends_with("apk", ".apk"));
    assert!(str_ends_with(".apk", ".apk"));
    assert!(str_ends_with("x", ""));
}

#[test]
fn trimming_removes_whitespace_at_both_ends_only() {
    assert_eq!(trim(&chars("  a b \t\r")), chars("a b"));
    assert_eq!(trim(&chars("a")), chars("a"));
    assert_eq!(trim(&chars(" \u{a0}\u{3000} ")), chars(""));
    assert_eq!(trim(&chars("")), chars(""));
}

#[test]
fn last_position_and_tail() {
    assert_eq!(find_last(&chars("a/b/c.png"), '/'), Some(3));
    assert_eq!(find_last(&chars("a/b/c.png"), '.'), Some(5));
    assert_eq!(find_last(&chars("abc"), '/'), None);
    assert_eq!(find_last(&chars(""), '/'), None);
    assert_eq!(tail(&chars("a/b/c.png"), 4), chars("c.png"));
    assert_eq!(tail(&chars("abc"), 3), chars(""));
    assert_eq!(tail(&chars("abc"), 0), chars("abc"));
    assert_eq!(tail(&chars("abc"), 4), chars(""));
}

#[test]
fn joining_with_a_separator() {
    assert_eq!(join(&strings(&["Ads", "Tracking", "NonFreeNet"]), ","), "Ads,Tracking,NonFreeNet");
    assert_eq!(join(&strings(&["Ads"]), ","), "Ads");
    assert_eq!(join(&strings(&[]), ","), "");
    assert_eq!(join(&strings(&["", ""]), ", "), ", ");
}
