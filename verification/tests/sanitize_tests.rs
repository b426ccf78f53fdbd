use ebook_packager::sanitize::{replace_unsafe, sanitize_filename};

#[test]
fn plain_name_is_kept() {
    assert_eq!(sanitize_filename("Frank Herbert"), "Frank Herbert");
    assert_eq!(sanitize_filename("1965"), "1965");
}

#[test]
fn slash_is_replaced_and_other_characters_are_kept() {
    assert_eq!(sanitize_filename("O'Brien/Author"), "O'Brien-Author");
}

#[test]
fn every_reserved_character_is_replaced() {
    assert_eq!(sanitize_filename("a/b\\c:d*e?f\"g<h>i|j"), "a-b-c-d-e-f-g-h-i-j");
}

#[test]
fn control_characters_are_replaced() {
    assert_eq!(sanitize_filename("a\u{0}b\u{1f}c\u{7f}d\u{80}e\u{9f}f"), "a-b-c-d-e-f");
    assert_eq!(sanitize_filename("a\tb\nc\rd"), "a-b-c-d");
}

#[test]
fn characters_next_to_the_control_ranges_are_kept() {
    assert_eq!(sanitize_filename("a\u{7e}b\u{a1}c"), "a\u{7e}b\u{a1}c");
    assert_eq!(replace_unsafe('\u{20}'), ' ');
    assert_eq!(replace_unsafe('\u{a0}'), '\u{a0}');
    assert_eq!(replace_unsafe('-'), '-');
}

#[test]
fn replace_unsafe_agrees_with_the_standard_control_test() {
    let mut code: u32 = 0;
    while code <= 0x10ffff {
        if let Some(c) = char::from_u32(code) {
            let reserved = "/\\:*?\"<>|".contains(c);
            let expected = if reserved || c.is_control() { '-' } else { c };
            assert_eq!(replace_unsafe(c), expected);
        }
        code += 1;
    }
}

#[test]
fn surrounding_white_space_is_trimmed() {
    assert_eq!(sanitize_filename("  Dune  "), "Dune");
    assert_eq!(sanitize_filename("\u{a0}Dune\u{3000}"), "Dune");
    assert_eq!(sanitize_filename("Dune Messiah"), "Dune Messiah");
}

#[test]
fn white_space_that_is_a_control_character_is_replaced_before_trimming() {
    assert_eq!(sanitize_filename("\tDune\n"), "-Dune-");
    assert_eq!(sanitize_filename(" \t Dune"), "- Dune");
}

#[test]
fn blank_and_empty_names_become_empty() {
    assert_eq!(sanitize_filename(""), "");
    assert_eq!(sanitize_filename("   "), "");
}

#[test]
fn sanitizing_agrees_with_map_and_trim() {
    for input in ["  a/b  ", "x", "\u{85} y", " :: ", "\u{2028}z\u{2029}", "q\u{9c}"] {
        let expected: String = input
            .chars()
            .map(|c| if "/\\:*?\"<>|".contains(c) || c.is_control() { '-' } else { c })
            .collect::<String>()
            .trim()
            .to_string();
        assert_eq!(sanitize_filename(input), expected);
    }
}

#[test]
fn sanitizing_twice_is_sanitizing_once() {
    for input in [
        "Frank Herbert",
        "  O'Brien/Author  ",
        "\t a:b \n",
        " - ",
        "",
        "\u{a0}\u{7f} x \u{9f}\u{3000}",
        "a  /  b",
    ] {
        let once = sanitize_filename(input);
        let twice = sanitize_filename(&once);
        assert_eq!(twice, once);
    }
}

#[test]
fn a_text_without_white_space_at_its_ends_is_sanitized_in_place() {
    for input in ["O'Brien/Author", "a b", "/x/", "\u{0}mid dle\u{7f}", "-", "a\tb"] {
        let expected: String = input.chars().map(replace_unsafe).collect();
        let result = sanitize_filename(input);
        assert_eq!(result, expected);
        assert_eq!(result.chars().count(), input.chars().count());
    }
}
