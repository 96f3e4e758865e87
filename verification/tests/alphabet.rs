use enigma::alphabet::{is_letter_char, letter_symbol, str_eq, symbol_letter, upper_case};

#[test]
fn letters_have_symbols_whatever_their_case() {
    assert_eq!(letter_symbol('A'), Some(0));
    assert_eq!(letter_symbol('a'), Some(0));
    assert_eq!(letter_symbol('M'), Some(12));
    assert_eq!(letter_symbol('m'), Some(12));
    assert_eq!(letter_symbol('Z'), Some(25));
    assert_eq!(letter_symbol('z'), Some(25));
}

#[test]
fn other_characters_have_no_symbol() {
    for c in ['@', '[', '`', '{', ' ', '.', '0', '9', '\n', '\0', 'é', 'Ω', '✅'] {
        assert_eq!(letter_symbol(c), None);
    }
}

#[test]
fn symbols_have_upper_case_letters() {
    assert_eq!(symbol_letter(0), 'A');
    assert_eq!(symbol_letter(12), 'M');
    assert_eq!(symbol_letter(25), 'Z');
    for s in 0u8..26 {
        assert_eq!(letter_symbol(symbol_letter(s)), Some(s));
    }
}

#[test]
fn strings_are_compared_character_by_character() {
    assert!(str_eq("", ""));
    assert!(str_eq("VIII", "VIII"));
    assert!(!str_eq("VIII", "VII"));
    assert!(!str_eq("VII", "VIII"));
    assert!(!str_eq("IV", "VI"));
    assert!(str_eq("é✅", "é✅"));
    assert!(!str_eq("é", "e"));
}

#[test]
fn both_letter_tests_agree_on_every_character() {
    for code in 0u32..0x3000 {
        if let Some(c) = char::from_u32(code) {
            assert_eq!(is_letter_char(c), c.is_ascii_alphabetic());
            assert_eq!(letter_symbol(c).is_some(), is_letter_char(c));
        }
    }
}

#[test]
fn upper_case_changes_lower_case_letters_only() {
    assert_eq!(upper_case('a'), 'A');
    assert_eq!(upper_case('z'), 'Z');
    assert_eq!(upper_case('Q'), 'Q');
    for c in ['`', '{', '@', '[', '1', ' ', 'é', 'ß', '✅'] {
        assert_eq!(upper_case(c), c);
    }
    for code in 0u32..0x3000 {
        if let Some(c) = char::from_u32(code) {
            assert_eq!(upper_case(c), c.to_ascii_uppercase());
        }
    }
}
