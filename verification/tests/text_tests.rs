use ebook_packager::text::{
    chars_of, contains_chars, contains_ignoring_case, decimal_string, join, trim_bounds,
};

fn chars(s: &str) -> Vec<char> {
    s.chars().collect()
}

#[test]
fn chars_of_keeps_every_character_in_order() {
    assert_eq!(chars_of("a\u{e9}\u{4e16}z"), vec!['a', '\u{e9}', '\u{4e16}', 'z']);
    assert_eq!(chars_of(""), Vec::<char>::new());
}

#[test]
fn join_concatenates() {
    assert_eq!(join("ab", "cd"), "abcd");
    assert_eq!(join("", "cd"), "cd");
    assert_eq!(join("ab", ""), "ab");
}

#[test]
fn contains_chars_finds_a_part_anywhere() {
    assert!(contains_chars(&chars("frank herbert"), &chars("frank")));
    assert!(contains_chars(&chars("frank herbert"), &chars("k h")));
    assert!(contains_chars(&chars("frank herbert"), &chars("herbert")));
    assert!(contains_chars(&chars("frank herbert"), &chars("frank herbert")));
}

#[test]
fn contains_chars_rejects_what_is_not_a_part() {
    assert!(!contains_chars(&chars("frank herbert"), &chars("herbert f")));
    assert!(!contains_chars(&chars("abc"), &chars("abcd")));
    assert!(!contains_chars(&chars("abab"), &chars("bb")));
    assert!(!contains_chars(&chars(""), &chars("a")));
}

#[test]
fn the_empty_text_is_part_of_every_text() {
    assert!(contains_chars(&chars("abc"), &chars("")));
    assert!(contains_chars(&chars(""), &chars("")));
    assert!(contains_ignoring_case("", ""));
    assert!(contains_ignoring_case("Dune", ""));
}

#[test]
fn containment_ignores_case() {
    assert!(contains_ignoring_case("Frank HERBERT", "frank herbert"));
    assert!(contains_ignoring_case("frank herbert", "HERBERT"));
    assert!(contains_ignoring_case("\u{c9}mile Zola", "\u{e9}mile"));
    assert!(!contains_ignoring_case("Frank Herbert", "Brian"));
}

#[test]
fn containment_is_not_symmetric() {
    assert!(contains_ignoring_case("Dune Messiah", "dune"));
    assert!(!contains_ignoring_case("dune", "Dune Messiah"));
}

#[test]
fn trim_bounds_skip_white_space_at_both_ends() {
    assert_eq!(trim_bounds(&chars("  ab c \u{a0}")), (2, 6));
    assert_eq!(trim_bounds(&chars("abc")), (0, 3));
    assert_eq!(trim_bounds(&chars("\u{3000}x")), (1, 2));
}

#[test]
fn trim_bounds_of_blank_text_are_empty() {
    let (start, end) = trim_bounds(&chars("   "));
    assert_eq!(start, end);
    let (start, end) = trim_bounds(&chars(""));
    assert_eq!((start, end), (0, 0));
}

#[test]
fn decimal_string_writes_the_numeral() {
    assert_eq!(decimal_string(0), "0");
    for (n, numeral) in ["0", "1", "2", "3", "4", "5", "6", "7", "8", "9"].iter().enumerate() {
        assert_eq!(decimal_string(n), *numeral);
    }
    assert_eq!(decimal_string(10), "10");
    assert_eq!(decimal_string(42), "42");
    assert_eq!(decimal_string(1005), "1005");
    assert_eq!(decimal_string(usize::MAX), format!("{}", usize::MAX));
}

#[test]
fn white_space_is_the_listed_code_points() {
    let mut code: u32 = 0;
    while code <= 0x10ffff {
        if let Some(c) = char::from_u32(code) {
            let listed = (0x09..=0x0d).contains(&code)
                || code == 0x20
                || code == 0x85
                || code == 0xa0
                || code == 0x1680
                || (0x2000..=0x200a).contains(&code)
                || code == 0x2028
                || code == 0x2029
                || code == 0x202f
                || code == 0x205f
                || code == 0x3000;
            let (start, end) = trim_bounds(&vec![c]);
            assert_eq!(start == end, listed);
        }
        code += 1;
    }
}
