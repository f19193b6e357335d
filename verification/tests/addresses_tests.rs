use reather::addresses::{read_address_line, AddressLine};
use reather::text::{alphanumeric_of_len, same_text, same_text_ignoring_case, split_on, to_lower_char};

fn entry(address: &str, latitude: &str, longitude: &str) -> AddressLine {
    AddressLine::Entry {
        address: address.to_string(),
        latitude: latitude.to_string(),
        longitude: longitude.to_string(),
    }
}

#[test]
fn a_line_of_three_parts_is_an_entry() {
    assert_eq!(
        read_address_line("233 E MAIN ST, BOZEMAN, MT, 59715;45.679;-111.034"),
        entry("233 E MAIN ST, BOZEMAN, MT, 59715", "45.679", "-111.034")
    );
    assert_eq!(read_address_line(";;"), entry("", "", ""));
    assert_eq!(read_address_line(" a ; b ;c"), entry(" a ", " b ", "c"));
    assert_eq!(read_address_line("a;not a number;c"), entry("a", "not a number", "c"));
}

#[test]
fn a_line_that_starts_with_a_hash_sign_is_a_comment() {
    assert_eq!(read_address_line("# User declined seed data"), AddressLine::Comment);
    assert_eq!(read_address_line("  \t# a;b;c"), AddressLine::Comment);
    assert_eq!(read_address_line("#"), AddressLine::Comment);
}

#[test]
fn a_line_of_white_space_is_blank() {
    assert_eq!(read_address_line(""), AddressLine::Blank);
    assert_eq!(read_address_line("   \t"), AddressLine::Blank);
}

#[test]
fn any_other_line_is_malformed() {
    assert_eq!(read_address_line("1 MAIN ST"), AddressLine::Malformed);
    assert_eq!(read_address_line("a;b"), AddressLine::Malformed);
    assert_eq!(read_address_line("a;b;c;d"), AddressLine::Malformed);
    assert_eq!(read_address_line("a # b"), AddressLine::Malformed);
    assert_eq!(read_address_line(";"), AddressLine::Malformed);
}

#[test]
fn splitting_gives_one_part_more_than_separators() {
    assert_eq!(split_on("a;b;c", ';'), vec!["a", "b", "c"]);
    assert_eq!(split_on("", ';'), vec![""]);
    assert_eq!(split_on(";", ';'), vec!["", ""]);
    assert_eq!(split_on("a;", ';'), vec!["a", ""]);
    assert_eq!(split_on(";a", ';'), vec!["", "a"]);
    assert_eq!(split_on("a;;b", ';'), vec!["a", "", "b"]);
    assert_eq!(split_on("no separator", ';'), vec!["no separator"]);
    assert_eq!(split_on("é-越-", '-'), vec!["é", "越", ""]);
}

#[test]
fn splitting_agrees_with_the_standard_library() {
    for s in ["", ",", "a,b", ",,a,,", "x", "a, b ,c,", "é,越"] {
        let expected: Vec<String> = s.split(',').map(|p| p.to_string()).collect();
        assert_eq!(split_on(s, ','), expected);
    }
}

#[test]
fn texts_compare_with_and_without_letter_case() {
    assert!(same_text("Maine", "Maine"));
    assert!(!same_text("Maine", "maine"));
    assert!(!same_text("Maine", "Main"));
    assert!(same_text("", ""));
    assert!(same_text_ignoring_case("Maine", "mAINE"));
    assert!(same_text_ignoring_case("", ""));
    assert!(!same_text_ignoring_case("Maine", "Main"));
    assert!(!same_text_ignoring_case("É", "é"));
    assert!(same_text_ignoring_case("a-1 é", "A-1 é"));
    for (a, b) in [("K", "k"), ("@", "`"), ("[", "{"), ("Z", "z"), ("A", "a")] {
        assert_eq!(same_text_ignoring_case(a, b), a.eq_ignore_ascii_case(b));
    }
}

#[test]
fn lower_case_of_a_character() {
    let mut code: u32 = 0;
    while code < 0x300 {
        if let Some(c) = char::from_u32(code) {
            assert_eq!(to_lower_char(c), c.to_ascii_lowercase());
        }
        code += 1;
    }
}

#[test]
fn letters_and_digits_of_a_given_length() {
    let chars = |s: &str| s.chars().collect::<Vec<char>>();
    assert!(alphanumeric_of_len(&chars("BOS"), 3));
    assert!(alphanumeric_of_len(&chars("K5b2"), 4));
    assert!(alphanumeric_of_len(&chars(""), 0));
    assert!(!alphanumeric_of_len(&chars("BOS"), 4));
    assert!(!alphanumeric_of_len(&chars("B-S"), 3));
    assert!(!alphanumeric_of_len(&chars("BÉS"), 3));
    assert!(!alphanumeric_of_len(&chars("B S"), 3));
}

#[test]
fn a_bare_address_is_to_be_located() {
    assert_eq!(
        reather::addresses::completion_of("  1 MAIN ST, TOWN  "),
        reather::addresses::Completion::Locate { address: "1 MAIN ST, TOWN".to_string() }
    );
    assert_eq!(
        reather::addresses::completion_of("# User declined seed data"),
        reather::addresses::Completion::Locate { address: "# User declined seed data".to_string() }
    );
}

#[test]
fn an_entry_is_to_be_confirmed() {
    assert_eq!(
        reather::addresses::completion_of(" 1 MAIN ST ; 45.5;-111.0 "),
        reather::addresses::Completion::Confirm {
            address: "1 MAIN ST".to_string(),
            latitude: " 45.5".to_string(),
            longitude: "-111.0 ".to_string(),
        }
    );
}

#[test]
fn any_other_line_is_kept() {
    assert_eq!(reather::addresses::completion_of(""), reather::addresses::Completion::Keep);
    assert_eq!(reather::addresses::completion_of("   "), reather::addresses::Completion::Keep);
    assert_eq!(reather::addresses::completion_of("a;b"), reather::addresses::Completion::Keep);
    assert_eq!(reather::addresses::completion_of("a;b;c;d"), reather::addresses::Completion::Keep);
}
