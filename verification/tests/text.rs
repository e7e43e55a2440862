use stream_proxy::text::{
    char_is_whitespace, chars_of, find_in, occurs_at_index, string_of, trim_bounds,
};

fn chars(s: &str) -> Vec<char> {
    s.chars().collect()
}

#[test]
fn whitespace_is_what_the_standard_library_calls_whitespace() {
    for code in 0..=0x10FFFFu32 {
        if let Some(c) = char::from_u32(code) {
            assert_eq!(char_is_whitespace(c), c.is_whitespace(), "U+{:04X}", code);
        }
    }
}

#[test]
fn strings_and_characters_convert_both_ways() {
    for s in ["", "a", "h\u{00e9}llo \u{1f47e}\n"] {
        assert_eq!(chars_of(s), chars(s));
        assert_eq!(string_of(&chars(s)), s);
    }
}

#[test]
fn trimming_agrees_with_the_standard_library() {
    for s in ["", " ", "a", "  a b \t\r\n", "\u{3000}x\u{2009}", "\u{00a0}\u{0085}", "x  ", "  x"] {
        let cs = chars(s);
        let (from, to) = trim_bounds(&cs);
        assert_eq!(cs[from..to].iter().collect::<String>(), s.trim(), "{:?}", s);
    }
    assert_eq!(trim_bounds(&chars("  ab ")), (2, 4));
    assert_eq!(trim_bounds(&chars("   ")), (3, 3));
}

#[test]
fn search_finds_the_first_occurrence() {
    let hay = chars("abcabcab");
    assert_eq!(find_in(&hay, &chars("bc"), 0), Some(1));
    assert_eq!(find_in(&hay, &chars("bc"), 1), Some(1));
    assert_eq!(find_in(&hay, &chars("bc"), 2), Some(4));
    assert_eq!(find_in(&hay, &chars("bc"), 5), None);
    assert_eq!(find_in(&hay, &chars("x"), 0), None);
    assert_eq!(find_in(&hay, &chars(""), 3), Some(3));
    assert_eq!(find_in(&hay, &chars(""), 8), Some(8));
    assert_eq!(find_in(&hay, &chars(""), 9), None);
    assert_eq!(find_in(&hay, &chars("abcabcabc"), 0), None);
    assert_eq!(find_in(&chars(""), &chars("a"), 0), None);
    assert!(occurs_at_index(&hay, &chars("cab"), 2));
    assert!(!occurs_at_index(&hay, &chars("cab"), 3));
    assert!(!occurs_at_index(&hay, &chars("ab"), 7));
    assert!(occurs_at_index(&hay, &chars("ab"), 6));
}

#[test]
fn search_agrees_with_the_standard_library() {
    let hays = ["", "URI=\"", "xURI=\"a\"URI=\"b\"", "URURI=\"", "\u{00e9}\"\u{00e9}\""];
    let pats = ["URI=\"", "\"", "UR", "\u{00e9}\""];
    for hay in hays {
        for pat in pats {
            let byte_index = hay.find(pat);
            let char_index = byte_index.map(|b| hay[..b].chars().count());
            assert_eq!(find_in(&chars(hay), &chars(pat), 0), char_index);
        }
    }
}
