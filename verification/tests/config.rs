use enigma::config::{
    chars_of, is_whitespace_char, spells, split_at, strip, Config, PlugBoardConfig,
    ReflectorConfig, RotorConfig,
};

fn chars(text: &str) -> Vec<char> {
    text.chars().collect()
}

fn texts(pieces: Vec<Vec<char>>) -> Vec<String> {
    pieces.into_iter().map(|p| p.into_iter().collect()).collect()
}

#[test]
fn white_space_is_what_std_calls_white_space() {
    for code in 0u32..=0x10FFFF {
        if let Some(c) = char::from_u32(code) {
            assert_eq!(is_whitespace_char(c), c.is_whitespace(), "U+{:04X}", code);
        }
    }
}

#[test]
fn chars_of_a_string() {
    assert_eq!(chars_of(""), Vec::<char>::new());
    assert_eq!(chars_of("A;é✅"), vec!['A', ';', 'é', '✅']);
}

#[test]
fn spells_compares_characters() {
    assert!(spells(&chars("VIII"), "VIII"));
    assert!(!spells(&chars("VIII"), "VII"));
    assert!(!spells(&chars("VI"), "IV"));
    assert!(spells(&[], ""));
    assert!(!spells(&[], "I"));
}

#[test]
fn strip_takes_out_white_space_and_brackets_on_request() {
    assert_eq!(strip(&chars(" (a - b)\t,\u{2003}(c-d)\n"), true), chars("a-b,c-d"));
    assert_eq!(strip(&chars(" (a - b)\t,\u{2003}(c-d)\n"), false), chars("(a-b),(c-d)"));
    assert_eq!(strip(&chars(""), true), chars(""));
    assert_eq!(strip(&chars(" ()( ) "), true), chars(""));
}

#[test]
fn split_at_gives_one_piece_more_than_separators() {
    assert_eq!(texts(split_at(&chars(""), ';')), vec![""]);
    assert_eq!(texts(split_at(&chars("abc"), ';')), vec!["abc"]);
    assert_eq!(texts(split_at(&chars("a;bc"), ';')), vec!["a", "bc"]);
    assert_eq!(texts(split_at(&chars(";a;;b;"), ';')), vec!["", "a", "", "b", ""]);
    assert_eq!(texts(split_at(&chars(";;"), ';')), vec!["", "", ""]);
}

#[test]
fn reflector_part() {
    for id in ["A", "B", "C"] {
        assert_eq!(ReflectorConfig::parse(&chars(id)).unwrap().reflector_id, id);
    }
    assert_eq!(ReflectorConfig::parse(&chars(" \tB\n")).unwrap().reflector_id, "B");
    for bad in ["", "a", "D", "AB", "(A)", "A;"] {
        assert!(ReflectorConfig::parse(&chars(bad)).is_none());
    }
}

#[test]
fn rotor_part_comes_out_in_reverse() {
    let cfg = RotorConfig::parse(&chars("III-A-A,II-A-A,I-A-A")).unwrap();
    assert_eq!(
        cfg.rotor_ids,
        vec![
            ("I".to_string(), 0, 0),
            ("II".to_string(), 0, 0),
            ("III".to_string(), 0, 0)
        ]
    );
}

#[test]
fn rotor_part_reads_position_and_ring() {
    let cfg = RotorConfig::parse(&chars("(VIII-z-b), (IV-Q-A), (V-c-Y), (I-a-m)")).unwrap();
    assert_eq!(
        cfg.rotor_ids,
        vec![
            ("I".to_string(), 0, 12),
            ("V".to_string(), 2, 24),
            ("IV".to_string(), 16, 0),
            ("VIII".to_string(), 25, 1)
        ]
    );
}

#[test]
fn rotor_part_reads_the_first_character_of_position_and_ring() {
    let cfg = RotorConfig::parse(&chars("I-BX-C9,II-D-E,III-F-G")).unwrap();
    assert_eq!(
        cfg.rotor_ids,
        vec![
            ("III".to_string(), 5, 6),
            ("II".to_string(), 3, 4),
            ("I".to_string(), 1, 2)
        ]
    );
}

#[test]
fn rotor_part_that_is_refused() {
    for bad in [
        "",
        "I-A-A",
        "I-A-A,II-A-A",
        "I-A-A,II-A-A,III-A-A,IV-A-A,V-A-A",
        "I-A-A,II-A-A,IX-A-A",
        "I-A-A,II-A-A,iii-A-A",
        "I-A-A,II-A-A,III-A",
        "I-A-A,II-A-A,III-A-A-A",
        "I-A-A,II-A-A,III-1-A",
        "I-A-A,II-A-A,III-A-1",
        "I-A-A,II-A-A,III--A",
        "I-A-A,II-A-A,III-A-",
        "I-A-A,II-A-A,",
        "I-A-A;II-A-A;III-A-A",
    ] {
        assert!(RotorConfig::parse(&chars(bad)).is_none(), "{:?}", bad);
    }
}

#[test]
fn plugboard_part() {
    let cfg = PlugBoardConfig::parse(&chars("a-b,d-c")).unwrap();
    assert_eq!(cfg.plugboard_maps, vec![('A', 'B'), ('D', 'C')]);
    let cfg = PlugBoardConfig::parse(&chars(" (x-Y) , (Q:r) ")).unwrap();
    assert_eq!(cfg.plugboard_maps, vec![('X', 'Y'), ('Q', 'R')]);
}

#[test]
fn plugboard_part_that_is_refused() {
    for bad in ["", "a-b,", "ab", "a-bc", "1-b", "a-2", "a-b;c-d", "é-a"] {
        assert!(PlugBoardConfig::parse(&chars(bad)).is_none(), "{:?}", bad);
    }
}

#[test]
fn whole_configuration() {
    let cfg = Config::parse("A;III-A-A,II-A-A,I-A-A;a-b").unwrap();
    assert_eq!(cfg.reflector_config.reflector_id, "A");
    assert_eq!(
        cfg.rotor_config.rotor_ids,
        vec![
            ("I".to_string(), 0, 0),
            ("II".to_string(), 0, 0),
            ("III".to_string(), 0, 0)
        ]
    );
    assert_eq!(
        cfg.plugboard_config.unwrap().plugboard_maps,
        vec![('A', 'B')]
    );
}

#[test]
fn configuration_without_cables() {
    let cfg = Config::parse(" B ; (IV-C-D), (V-E-F), (VI-G-H) ").unwrap();
    assert_eq!(cfg.reflector_config.reflector_id, "B");
    assert_eq!(cfg.rotor_config.rotor_ids.len(), 3);
    assert_eq!(cfg.rotor_config.rotor_ids[0], ("VI".to_string(), 6, 7));
    assert!(cfg.plugboard_config.is_none());
}

#[test]
fn configuration_whose_cables_cannot_be_read_has_none() {
    let cfg = Config::parse("C;I-A-A,II-A-A,III-A-A;").unwrap();
    assert!(cfg.plugboard_config.is_none());
    let cfg = Config::parse("C;I-A-A,II-A-A,III-A-A;a-b,c").unwrap();
    assert!(cfg.plugboard_config.is_none());
}

#[test]
fn configuration_that_is_refused() {
    for bad in [
        "",
        "A",
        "A;I-A-A,II-A-A,III-A-A;a-b;",
        "D;I-A-A,II-A-A,III-A-A;a-b",
        ";I-A-A,II-A-A,III-A-A;a-b",
        "A;I-A-A,II-A-A;a-b",
        "A;;a-b",
        "A,I-A-A,II-A-A,III-A-A",
    ] {
        assert!(Config::parse(bad).is_none(), "{:?}", bad);
    }
}
