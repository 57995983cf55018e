use klatt_rs::phonemes::{lookup, lookup_exact, Phoneme};

const TABLE: &[(&str, Phoneme)] = &[
    ("i", Phoneme::Fleece), ("i:", Phoneme::Fleece),
    ("I", Phoneme::Kit), ("I2", Phoneme::Kit),
    ("E", Phoneme::Dress), ("e", Phoneme::Dress),
    ("{", Phoneme::Trap),
    ("A", Phoneme::Palm), ("A:", Phoneme::Palm), ("a", Phoneme::Palm), ("a:", Phoneme::Palm), ("A@", Phoneme::Palm),
    ("Q", Phoneme::Lot), ("O", Phoneme::Lot), ("O:", Phoneme::Lot), ("0", Phoneme::Lot),
    ("V", Phoneme::Strut),
    ("@", Phoneme::Comma), ("@2", Phoneme::Comma), ("@L", Phoneme::Comma),
    ("U", Phoneme::Foot), ("U2", Phoneme::Foot),
    ("u", Phoneme::Goose), ("u:", Phoneme::Goose),
    ("3", Phoneme::Nurse), ("3:", Phoneme::Nurse), ("@@", Phoneme::Nurse),
    ("aI", Phoneme::Price), ("aI;", Phoneme::Price), ("aI2", Phoneme::Price),
    ("eI", Phoneme::Face),
    ("OI", Phoneme::Choice), ("Oi", Phoneme::Choice),
    ("aU", Phoneme::Mouth), ("aU;", Phoneme::Mouth),
    ("oU", Phoneme::Goat), ("@U", Phoneme::Goat), ("oU;", Phoneme::Goat),
    ("I@", Phoneme::Near), ("i@", Phoneme::Near),
    ("e@", Phoneme::Square),
    ("U@", Phoneme::Cure),
    ("w", Phoneme::W), ("j", Phoneme::Y), ("r", Phoneme::R), ("r\\", Phoneme::R), ("l", Phoneme::L),
    ("m", Phoneme::M), ("n", Phoneme::N), ("N", Phoneme::Ng),
    ("f", Phoneme::F), ("T", Phoneme::Th), ("s", Phoneme::S), ("S", Phoneme::Sh), ("x", Phoneme::X),
    ("v", Phoneme::V), ("D", Phoneme::Dh), ("z", Phoneme::Z), ("Z", Phoneme::Zh),
    ("h", Phoneme::H),
    ("p", Phoneme::P), ("t", Phoneme::T), ("k", Phoneme::K),
    ("b", Phoneme::B), ("d", Phoneme::D), ("g", Phoneme::G),
    ("tS", Phoneme::Ch), ("dZ", Phoneme::Jh),
    ("?", Phoneme::Pause), ("_", Phoneme::Pause),
];

#[test]
fn every_table_mnemonic_is_found_exactly() {
    for &(m, p) in TABLE {
        assert_eq!(lookup_exact(m), Some(p), "mnemonic {m}");
        assert_eq!(lookup(m), Some(p), "mnemonic {m}");
    }
}

#[test]
fn unknown_mnemonics_are_not_found() {
    for m in ["", "5", "q", "ii", "tS2x", "@@@", "ı", "é"] {
        assert_eq!(lookup_exact(m), None, "mnemonic {m}");
        assert_eq!(lookup(m), None, "mnemonic {m}");
    }
}

#[test]
fn trailing_digit_or_hash_is_stripped() {
    assert_eq!(lookup("t#"), Some(Phoneme::T));
    assert_eq!(lookup("@5"), Some(Phoneme::Comma));
    assert_eq!(lookup("aI3"), Some(Phoneme::Price));
    assert_eq!(lookup("l9"), Some(Phoneme::L));
    assert_eq!(lookup_exact("t#"), None);
}

#[test]
fn exact_entry_wins_over_stripping() {
    // "I2" is itself an entry; "@2" too.
    assert_eq!(lookup("I2"), Some(Phoneme::Kit));
    assert_eq!(lookup("@2"), Some(Phoneme::Comma));
}

#[test]
fn single_character_is_never_stripped() {
    // "5" is not an entry and has no base to fall back to.
    assert_eq!(lookup("5"), None);
    assert_eq!(lookup("#"), None);
    // "0" and "3" are entries of their own.
    assert_eq!(lookup("0"), Some(Phoneme::Lot));
    assert_eq!(lookup("3"), Some(Phoneme::Nurse));
}

#[test]
fn only_digits_and_hash_are_stripped() {
    assert_eq!(lookup("t!"), None);
    assert_eq!(lookup("tx"), None);
    assert_eq!(lookup("t##"), None);
}

#[test]
fn variants_of_known_mnemonics_name_the_same_phoneme() {
    for &(m, p) in TABLE {
        for d in ['0', '1', '2', '5', '9', '#'] {
            let v = format!("{m}{d}");
            assert_eq!(lookup(&v), Some(p), "variant {v}");
        }
    }
}
