use stellar::lang::text::{chars_of, push_decimal, spells, text_of};

#[test]
fn characters_of_a_text() {
    assert_eq!(chars_of(""), Vec::<char>::new());
    assert_eq!(chars_of("abc"), vec!['a', 'b', 'c']);
    assert_eq!(chars_of("héé\u{1F600}"), vec!['h', 'é', 'é', '\u{1F600}']);
}

#[test]
fn text_of_a_range_of_characters() {
    let chars = chars_of("hello wörld");
    assert_eq!(text_of(&chars, 0, 5), "hello");
    assert_eq!(text_of(&chars, 6, 11), "wörld");
    assert_eq!(text_of(&chars, 3, 3), "");
    assert_eq!(text_of(&chars, 0, chars.len()), "hello wörld");
}

#[test]
fn a_range_spells_a_word() {
    let chars = chars_of("let letter");
    assert!(spells(&chars, 0, 3, "let"));
    assert!(spells(&chars, 4, 7, "let"));
    assert!(!spells(&chars, 4, 10, "let"));
    assert!(!spells(&chars, 0, 2, "let"));
    assert!(!spells(&chars, 1, 4, "let"));
    assert!(spells(&chars, 2, 2, ""));
    assert!(!spells(&chars, 0, 3, "lot"));
}

#[test]
fn decimal_numerals() {
    for (n, expected) in [
        (0u32, "0"),
        (7, "7"),
        (9, "9"),
        (10, "10"),
        (42, "42"),
        (100, "100"),
        (1234567890, "1234567890"),
        (u32::MAX, "4294967295"),
    ] {
        let mut s = String::from("n=");
        push_decimal(&mut s, n);
        assert_eq!(s, format!("n={expected}"));
    }
}
