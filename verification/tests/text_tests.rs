use reather::text::{
    chars_of, contains, ends_with, matches_at, normalize_code, same_chars, starts_with, trim,
    trim_bounds, trim_within, upper_case, white_space,
};

fn chars(s: &str) -> Vec<char> {
    s.chars().collect()
}

#[test]
fn white_space_agrees_with_the_standard_library_on_every_character() {
    let mut code: u32 = 0;
    while code <= 0x10FFFF {
        if let Some(c) = char::from_u32(code) {
            assert_eq!(white_space(c), c.is_whitespace(), "U+{:04X}", code);
        }
        code += 1;
    }
}

#[test]
fn chars_of_lists_the_characters_in_order() {
    assert_eq!(chars_of(""), Vec::<char>::new());
    assert_eq!(chars_of("aé越"), vec!['a', 'é', '越']);
}

#[test]
fn trim_removes_white_space_at_both_ends_only() {
    assert_eq!(trim("  a b \t\n"), "a b");
    assert_eq!(trim("\u{3000}x\u{a0}"), "x");
    assert_eq!(trim("   "), "");
    assert_eq!(trim(""), "");
    assert_eq!(trim("abc"), "abc");
}

#[test]
fn trim_bounds_point_at_the_trimmed_text() {
    assert_eq!(trim_bounds(&chars("  ab ")), (2, 4));
    assert_eq!(trim_bounds(&chars("    ")), (4, 4));
    assert_eq!(trim_bounds(&chars("")), (0, 0));
    assert_eq!(trim_within(&chars("a, ME ,b"), 2, 6), (3, 5));
}

#[test]
fn upper_case_turns_ascii_letters_into_capitals() {
    assert_eq!(upper_case("bos"), "BOS");
    assert_eq!(upper_case("kJfK-12 z"), "KJFK-12 Z");
    assert_eq!(upper_case(""), "");
}

#[test]
fn upper_case_follows_unicode_beyond_ascii() {
    assert_eq!(upper_case("é"), "É");
    assert_eq!(upper_case("straße"), "STRASSE");
}

#[test]
fn normalize_code_trims_then_capitalises() {
    assert_eq!(normalize_code(" bos "), "BOS");
    assert_eq!(normalize_code("\tkjfk\n"), "KJFK");
    assert_eq!(normalize_code("  "), "");
    assert_eq!(normalize_code("B O"), "B O");
}

#[test]
fn matches_at_compares_in_place() {
    let hay = chars("abcabc");
    assert!(matches_at(&hay, &chars("bc"), 1));
    assert!(matches_at(&hay, &chars("bc"), 4));
    assert!(!matches_at(&hay, &chars("bc"), 0));
    assert!(matches_at(&hay, &chars(""), 6));
}

#[test]
fn prefix_suffix_and_substring_tests() {
    let hay = chars("LOGAN INTERNATIONAL");
    assert!(starts_with(&hay, &chars("LOGAN")));
    assert!(!starts_with(&hay, &chars("OGAN")));
    assert!(starts_with(&hay, &chars("")));
    assert!(!starts_with(&chars("LO"), &chars("LOGAN")));
    assert!(ends_with(&hay, &chars("NATIONAL")));
    assert!(!ends_with(&hay, &chars("LOGAN")));
    assert!(!ends_with(&chars("AL"), &chars("NATIONAL")));
    assert!(contains(&hay, &chars("N INT")));
    assert!(contains(&hay, &chars("LOGAN")));
    assert!(contains(&hay, &chars("NAL")));
    assert!(contains(&hay, &chars("")));
    assert!(!contains(&hay, &chars("LOGAN  ")));
    assert!(!contains(&chars("AB"), &chars("ABC")));
    assert!(same_chars(&chars("AB"), &chars("AB")));
    assert!(!same_chars(&chars("AB"), &chars("ABC")));
    assert!(!same_chars(&chars("AB"), &chars("AC")));
}
