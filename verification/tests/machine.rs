use enigma::machine::{EnigmaMachine, EnigmaMachineBuilder};

#[test]
fn test_basic_builder() {
    let builder = EnigmaMachine::builder();
    let _em = builder
        .reflector("A")
        .plugboard(vec![('A', 'B')])
        .rotors(vec![("I", 0, 0), ("III", 0, 0), ("II", 0, 0)])
        .build();
}

#[test]
fn test_builder_missing_item() {
    let builder = EnigmaMachine::builder();
    let em = builder
        .plugboard(vec![('A', 'B')])
        .rotors(vec![("I", 0, 0), ("III", 0, 0), ("II", 0, 0)])
        .build();
    assert!(em.is_none());

    let builder = EnigmaMachine::builder();
    let em = builder
        .reflector("A")
        .rotors(vec![("I", 0, 0), ("III", 0, 0), ("II", 0, 0)])
        .build();
    assert!(em.is_none());

    let builder = EnigmaMachine::builder();
    let em = builder.reflector("A").plugboard(vec![('A', 'B')]).build();
    assert!(em.is_none());
}

#[test]
fn test_builder_rotor_handling() {
    let builder = EnigmaMachine::builder();
    let em = builder
        .rotors(vec![("I", 0, 0), ("III", 0, 0), ("II", 0, 0)])
        .rotor("IV", 0, 0);
    assert_eq!(em.rotor_count().unwrap(), 4);

    let builder = EnigmaMachine::builder();
    let em = builder
        .rotor("IV", 0, 0)
        .rotors(vec![("I", 0, 0), ("III", 0, 0), ("II", 0, 0)]);
    assert_eq!(em.rotor_count().unwrap(), 4);
}

#[test]
fn simple_translation_test() {
    let builder = EnigmaMachine::builder();
    let mut em = builder
        .reflector("B")
        .plugboard(vec![('A', 'B')])
        .rotors(vec![("I", 0, 0), ("II", 0, 0), ("III", 0, 0)])
        .build()
        .unwrap();

    // WUPGNWOJUSQGTULMNUNYRHZSHP
    assert_eq!(em.translate('A'), 'W');
    assert_eq!(em.translate('A'), 'U');
    assert_eq!(em.translate('A'), 'P');
    assert_eq!(em.translate('A'), 'G');
    assert_eq!(em.translate('A'), 'N');
    assert_eq!(em.translate('A'), 'W');
    assert_eq!(em.translate('A'), 'O');
    assert_eq!(em.translate('A'), 'J');
    assert_eq!(em.translate('A'), 'U');
    assert_eq!(em.translate('A'), 'S');
    assert_eq!(em.translate('A'), 'Q');
    assert_eq!(em.translate('A'), 'G');
    assert_eq!(em.translate('A'), 'T');
    assert_eq!(em.translate('A'), 'U');
    assert_eq!(em.translate('A'), 'L');
    assert_eq!(em.translate('A'), 'M');
    assert_eq!(em.translate('A'), 'N');
    assert_eq!(em.translate('A'), 'U');
    assert_eq!(em.translate('A'), 'N');
    assert_eq!(em.translate('A'), 'Y');
    assert_eq!(em.translate('A'), 'R');
    assert_eq!(em.translate('A'), 'H');
    assert_eq!(em.translate('A'), 'Z');
    assert_eq!(em.translate('A'), 'S');
    assert_eq!(em.translate('A'), 'H');
    assert_eq!(em.translate('A'), 'P');
}

#[test]
fn test_that_invalid_chars_are_returned_unmodified() {
    let builder = EnigmaMachine::builder();
    let mut em = builder
        .reflector("B")
        .plugboard(vec![('A', 'B')])
        .rotors(vec![("I", 0, 0), ("II", 0, 0), ("III", 0, 0)])
        .build()
        .unwrap();

    assert_eq!(em.translate('A'), 'W');
    assert_eq!(em.translate('.'), '.');
    assert_eq!(em.translate('✅'), '✅');
}

#[test]
fn test_triggering_second_rotor_rotation() {
    let builder = EnigmaMachine::builder();
    let mut em = builder
        .reflector("B")
        .plugboard(vec![('A', 'B')])
        .rotors(vec![("I", 0, 0), ("II", 0, 0), ("III", 0, 0)])
        .build()
        .unwrap();

    let input = "Loremipsumdolorsi";
    let expected_output = "ilfdfbruadonvisru";

    for (in_val, out_val) in input.chars().zip(expected_output.chars()) {
        let trans = em.translate(in_val);
        let out_trans = out_val.to_ascii_uppercase();
        assert_eq!(trans, out_trans);
    }
}

#[test]
fn test_triggering_third_rotor_rotation() {
    let builder = EnigmaMachine::builder();
    let mut em = builder
        .reflector("B")
        .plugboard(vec![('A', 'B')])
        .rotors(vec![("I", 0, 0), ("II", 0, 0), ("III", 0, 0)])
        .build()
        .unwrap();

    let input =
        "Loremipsumdolorsitametconsecteturadipiscingelitseddoeiusmodtemporincididuntutl\
         aboreetdoloremagna";
    let expected_output =
        "ilfdfbruadonvisruknzqmndiycouhrlbiarmpylbznyngrmrmvbbjlnszfhsyaakfod\
         pchqphswoqrwjfkxnabzjnpzozau";

    for (in_val, out_val) in input.chars().zip(expected_output.chars()) {
        let trans = em.translate(in_val);
        let out_trans = out_val.to_ascii_uppercase();
        assert_eq!(trans, out_trans);
    }
}

#[test]
fn test_large_translation() {
    let builder = EnigmaMachine::builder();
    let mut em = builder
        .reflector("B")
        .plugboard(vec![('A', 'B')])
        .rotors(vec![("I", 0, 0), ("II", 0, 0), ("III", 0, 0)])
        .build()
        .unwrap();

    let input =
        "Loremipsumdolorsitametconsecteturadipiscingelitseddoeiusmodtemporincididuntutl\
         aboreetdoloremagnaaliquaUtenimadminimveniamquisnostrudexercitationullamcolabor\
         isnisiutaliquipexeacommodoconsequatDuisauteiruredolorinreprehenderitinvoluptat\
         evelitessecillumdoloreeufugiatnullapariaturExcepteursintoccaecatcupidatatnonpr\
         oidentsuntinculpaquiofficiadeseruntmollitanimidestlaborum";

    let expected_output =
        "ilfdfbruadonvisruknzqmndiycouhrlbiarmpylbznyngrmrmvbbjlnszfhsyaakfod\
         pchqphswoqrwjfkxnabzjnpzozauwmnxoupxxevjuisapsdpjqawzxcthivuojjcsova\
         swfclgslfdxgwzwsnsbyrjbszsgqmmqrlkbulwtznghsrkvxfqlevddwhbwgaxvfaisb\
         bqcnnfyjxabwiykwceuocskmkheqfbjdonnhvnjtbdkkyrycyittbgpduzjkesmivdph\
         ojqoejioxfmkslnakczgbummcrsfvsimqkjgmcnemlsouhzbjxdraoxvmlmnzuqbmqhn\
         cfcokgesbvpjzsshnzaleejkapxrv";

    for (in_val, out_val) in input.chars().zip(expected_output.chars()) {
        let trans = em.translate(in_val);
        let out_trans = out_val.to_ascii_uppercase();
        assert_eq!(trans, out_trans);
    }
}

fn positions(em: &EnigmaMachine) -> Vec<u8> {
    em.rotors().iter().map(|r| r.position()).collect()
}

fn key_in(em: &mut EnigmaMachine, text: &str) -> String {
    let chars: Vec<char> = text.chars().collect();
    em.translate_text(&chars).into_iter().collect()
}

fn machine(
    reflector: &str,
    rotors: Vec<(&str, u8, u8)>,
    cables: Vec<(char, char)>,
) -> EnigmaMachine {
    EnigmaMachine::builder()
        .reflector(reflector)
        .rotors(rotors)
        .plugboard(cables)
        .build()
        .unwrap()
}

#[test]
fn characters_that_are_no_letters_leave_the_rotors_alone() {
    let mut em = machine(
        "B",
        vec![("I", 16, 0), ("II", 4, 0), ("III", 0, 0)],
        vec![('A', 'B')],
    );
    for c in ['.', ' ', ',', '0', '9', '@', '[', '`', '{', '\n', 'é', 'ß', '✅'] {
        assert_eq!(em.translate(c), c);
        assert_eq!(positions(&em), vec![16, 4, 0]);
    }
    let text = "1234 ... ✅✅ (!?)";
    assert_eq!(key_in(&mut em, text), text);
    assert_eq!(positions(&em), vec![16, 4, 0]);
}

#[test]
fn lower_case_letters_are_enciphered_as_upper_case() {
    let mut lower = machine("B", vec![("I", 0, 0), ("II", 0, 0), ("III", 0, 0)], vec![('A', 'B')]);
    let mut upper = machine("B", vec![("I", 0, 0), ("II", 0, 0), ("III", 0, 0)], vec![('A', 'B')]);
    for (l, u) in "azbycx".chars().zip("AZBYCX".chars()) {
        assert_eq!(lower.translate(l), upper.translate(u));
    }
    assert_eq!(positions(&lower), vec![6, 0, 0]);
}

#[test]
fn deciphering_is_enciphering() {
    let rotors = vec![("IV", 3, 0), ("V", 25, 0), ("II", 7, 0)];
    let cables = vec![('A', 'Z'), ('M', 'N')];
    let mut first = machine("B", rotors.clone(), cables.clone());
    let cipher = key_in(&mut first, "The quick brown fox, 42!");
    assert_eq!(cipher, "JBD HFKEN MWKGI IWY, 42!");
    assert_eq!(positions(&first), vec![19, 1, 8]);

    let mut second = machine("B", rotors, cables);
    assert_eq!(key_in(&mut second, &cipher), "THE QUICK BROWN FOX, 42!");
    assert_eq!(positions(&second), vec![19, 1, 8]);
}

#[test]
fn deciphering_is_enciphering_for_every_start_of_one_rotor() {
    let plain = "ATTACKATDAWNATTACKATDAWNATTACKATDAWN";
    for id in ["I", "II", "III", "IV", "V", "VI", "VII", "VIII"] {
        for pos in 0u8..26 {
            let mut first = machine("C", vec![(id, pos, 0), ("I", 0, 0)], vec![('D', 'W')]);
            let cipher = key_in(&mut first, plain);
            let mut second = machine("C", vec![(id, pos, 0), ("I", 0, 0)], vec![('D', 'W')]);
            assert_eq!(key_in(&mut second, &cipher), plain);
            for (p, c) in plain.chars().zip(cipher.chars()) {
                assert_ne!(p, c);
            }
        }
    }
}

#[test]
fn with_a_ring_setting_deciphering_may_differ() {
    let mut first = machine("A", vec![("I", 0, 1)], vec![]);
    assert_eq!(first.translate('A'), 'O');
    let mut second = machine("A", vec![("I", 0, 1)], vec![]);
    assert_eq!(second.translate('O'), 'B');
}

#[test]
fn ring_settings_change_the_cipher() {
    let mut em = machine(
        "B",
        vec![("IV", 3, 5), ("V", 25, 1), ("II", 7, 9)],
        vec![('A', 'Z'), ('M', 'N')],
    );
    assert_eq!(key_in(&mut em, "The quick brown fox, 42!"), "BBM OYJAS DHEWW MTR, 42!");
    assert_eq!(positions(&em), vec![19, 1, 8]);
}

#[test]
fn middle_rotor_steps_twice_in_a_row() {
    let mut em = machine("B", vec![("I", 15, 0), ("II", 3, 0), ("III", 0, 0)], vec![]);
    assert_eq!(em.translate('A'), 'D');
    assert_eq!(positions(&em), vec![16, 3, 0]);
    assert_eq!(em.translate('A'), 'Z');
    assert_eq!(positions(&em), vec![17, 4, 0]);
    assert_eq!(em.translate('A'), 'G');
    assert_eq!(positions(&em), vec![18, 5, 1]);
    assert_eq!(em.translate('A'), 'O');
    assert_eq!(positions(&em), vec![19, 5, 1]);
    assert_eq!(em.translate('A'), 'V');
    assert_eq!(positions(&em), vec![20, 5, 1]);
}

#[test]
fn rotors_with_two_notches_step_their_neighbours() {
    let mut em = machine(
        "C",
        vec![("VI", 10, 0), ("VII", 24, 0), ("VIII", 0, 0)],
        vec![('C', 'X')],
    );
    assert_eq!(em.translate('x'), 'L');
    assert_eq!(positions(&em), vec![11, 24, 0]);
    assert_eq!(em.translate('x'), 'J');
    assert_eq!(positions(&em), vec![12, 25, 0]);
    assert_eq!(em.translate('x'), 'K');
    assert_eq!(positions(&em), vec![13, 0, 1]);
    assert_eq!(em.translate('x'), 'F');
    assert_eq!(positions(&em), vec![14, 0, 1]);
}

#[test]
fn a_rotor_at_its_own_notch_steps_whatever_the_one_before_does() {
    let mut em = machine("B", vec![("I", 0, 0), ("II", 0, 0), ("III", 20, 0)], vec![]);
    assert_eq!(em.translate('Q'), 'F');
    assert_eq!(positions(&em), vec![1, 0, 21]);
    assert_eq!(em.translate('Q'), 'S');
    assert_eq!(positions(&em), vec![2, 0, 21]);
    assert_eq!(em.translate('Q'), 'D');
    assert_eq!(positions(&em), vec![3, 0, 21]);
}

#[test]
fn new_machine_has_reflector_a_and_rotors_i_ii_iii() {
    let mut em = EnigmaMachine::new();
    assert_eq!(positions(&em), vec![0, 0, 0]);
    assert_eq!(key_in(&mut em, "HELLOWORLD"), "LZFBDEMZWY");
    assert_eq!(positions(&em), vec![10, 0, 0]);
}

#[test]
fn default_machine_has_no_rotors() {
    let mut em = EnigmaMachine::default();
    assert!(em.rotors().is_empty());
    assert_eq!(key_in(&mut em, "AE zb"), "EA DJ");
}

#[test]
fn machine_without_rotors_can_be_built() {
    let mut em = machine("A", vec![], vec![('A', 'E')]);
    assert!(em.rotors().is_empty());
    assert_eq!(em.translate('A'), 'E');
    assert_eq!(em.translate('B'), 'J');
}

#[test]
fn translate_text_keys_in_every_character() {
    let mut em = machine("A", vec![("I", 0, 0), ("II", 0, 0), ("III", 0, 0)], vec![('a', 'b')]);
    assert_eq!(
        key_in(&mut em, "hello, how are you doing"),
        "LZFAD, AMT GPJ FND IFMJY"
    );
    assert_eq!(positions(&em), vec![19, 1, 0]);
    assert_eq!(em.translate_text(&[]), Vec::<char>::new());
    assert_eq!(positions(&em), vec![19, 1, 0]);

    let mut em = machine("A", vec![("I", 0, 0), ("II", 0, 0), ("III", 0, 0)], vec![('a', 'b')]);
    assert_eq!(
        key_in(&mut em, "LZFAD, AMT GPJ FND IFMJY"),
        "HELLO, HOW ARE YOU DOING"
    );
}

#[test]
fn builder_keeps_positions_and_rings_modulo_26() {
    let em = EnigmaMachine::builder()
        .reflector("A")
        .plugboard(vec![])
        .rotor("I", 26, 27)
        .rotors(vec![("II", 30, 52), ("III", 255, 25)])
        .build()
        .unwrap();
    assert_eq!(positions(&em), vec![0, 4, 21]);
    let rings: Vec<u8> = em.rotors().iter().map(|r| r.ring_setting()).collect();
    assert_eq!(rings, vec![1, 0, 25]);
}

#[test]
fn builder_without_parts() {
    assert!(EnigmaMachineBuilder::new().build().is_none());
    assert!(EnigmaMachineBuilder::default().build().is_none());
    assert_eq!(EnigmaMachineBuilder::new().rotor_count(), None);
    assert_eq!(EnigmaMachineBuilder::new().rotors(vec![]).rotor_count(), Some(0));
}

#[test]
fn builder_takes_the_last_reflector() {
    let mut em = EnigmaMachine::builder()
        .reflector("A")
        .reflector("C")
        .rotors(vec![])
        .plugboard(vec![])
        .build()
        .unwrap();
    assert_eq!(em.translate('A'), 'F');
}

#[test]
fn refused_plugboard_leaves_the_builder_as_it_was() {
    let em = EnigmaMachine::builder()
        .reflector("A")
        .rotors(vec![("I", 0, 0)])
        .plugboard(vec![('A', 'B'), ('A', 'C')])
        .build();
    assert!(em.is_none());

    let mut em = EnigmaMachine::builder()
        .reflector("A")
        .rotors(vec![])
        .plugboard(vec![('A', 'B')])
        .plugboard(vec![('C', '3')])
        .build()
        .unwrap();
    // The first plugboard stays: A goes to B, the reflector sends B to J.
    assert_eq!(em.translate('A'), 'J');
}
