use enigma::reflector::Reflector;

#[test]
fn super_userful_reflector_test() {
    let reflector_a = Reflector::new("A");
    for (cnt, &item) in reflector_a.alphabet().iter().enumerate() {
        assert_eq!(reflector_a.map(cnt as u8), item);
    }
}

#[test]
fn reflectors_are_involutions_without_fixed_points() {
    for id in ["A", "B", "C"] {
        let reflector = Reflector::new(id);
        for s in 0u8..26 {
            let t = reflector.map(s);
            assert!(t < 26);
            assert_ne!(t, s);
            assert_eq!(reflector.map(t), s);
        }
    }
}

#[test]
fn reflector_known_entries() {
    assert_eq!(Reflector::new("A").map(0), 4);
    assert_eq!(Reflector::new("A").map(25), 3);
    assert_eq!(Reflector::new("B").map(0), 24);
    assert_eq!(Reflector::new("B").map(25), 19);
    assert_eq!(Reflector::new("C").map(0), 5);
    assert_eq!(Reflector::new("C").map(25), 11);
}

#[test]
fn default_reflector_is_a() {
    assert_eq!(Reflector::default().alphabet(), Reflector::new("A").alphabet());
}

#[test]
fn reflector_identifiers() {
    for id in ["A", "B", "C"] {
        assert!(Reflector::is_valid_id(id));
    }
    for id in ["", "a", "D", "AB", " A"] {
        assert!(!Reflector::is_valid_id(id));
    }
}

#[test]
fn a_clone_has_the_same_wiring() {
    for id in ["A", "B", "C"] {
        let reflector = Reflector::new(id);
        assert_eq!(reflector.clone().alphabet(), reflector.alphabet());
    }
}
