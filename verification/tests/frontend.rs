use klatt_rs::frontend::{
    pitch_accent, plan_events, rising_contour_targets, stress_length_ms, unpack_mnem,
    wants_question_intonation, white_space, EventPlan, PhonemeEntry, PitchAccent, SpeechCode,
    TtsOptions, PH_VOWEL, RISE_COUNT,
};
use klatt_rs::phonemes::Phoneme;

fn pack(s: &str) -> u32 {
    let mut v = 0u32;
    for (i, b) in s.bytes().enumerate() {
        v |= (b as u32) << (8 * i);
    }
    v
}

#[test]
fn unpack_mnem_reads_bytes_little_endian() {
    assert_eq!(unpack_mnem(pack("i:")), "i:");
    assert_eq!(unpack_mnem(pack("aI2")), "aI2");
    assert_eq!(unpack_mnem(pack("tS")), "tS");
    assert_eq!(unpack_mnem(0x6463_6261), "abcd");
    assert_eq!(unpack_mnem(0), "");
}

#[test]
fn unpack_mnem_skips_zero_bytes() {
    // 'a' in byte 0, 'b' in byte 2, zero bytes between and after.
    assert_eq!(unpack_mnem(0x0062_0061), "ab");
    assert_eq!(unpack_mnem(0x4100_0000), "A");
}

#[test]
fn unpack_mnem_reads_high_bytes_as_latin1() {
    assert_eq!(unpack_mnem(0xE9), "\u{e9}");
}

#[test]
fn default_options_are_english_with_question_intonation() {
    let o = TtsOptions::default();
    assert_eq!(o.lang, "en");
    assert!(o.question_intonation);
}

#[test]
fn white_space_agrees_with_std() {
    for u in 0u32..=0x10FFFF {
        if let Some(c) = char::from_u32(u) {
            assert_eq!(white_space(c), c.is_whitespace(), "U+{u:04X}");
        }
    }
}

#[test]
fn question_mark_at_end_requests_contour() {
    let on = TtsOptions { lang: "en", question_intonation: true };
    let off = TtsOptions { lang: "en", question_intonation: false };
    assert!(wants_question_intonation(&on, "Is it raining?"));
    assert!(wants_question_intonation(&on, "Is it raining?  \n\t"));
    assert!(wants_question_intonation(&on, "really?\u{3000}\u{a0}"));
    assert!(wants_question_intonation(&on, "?"));
    assert!(!wants_question_intonation(&on, "It is raining."));
    assert!(!wants_question_intonation(&on, "Why? Because."));
    assert!(!wants_question_intonation(&on, ""));
    assert!(!wants_question_intonation(&on, "   "));
    assert!(!wants_question_intonation(&on, "what?!"));
    assert!(!wants_question_intonation(&off, "Is it raining?"));
}

#[test]
fn stress_lengths_follow_table() {
    let expected = [170, 135, 205, 205, 180, 200, 245, 275];
    for (code, &ms) in expected.iter().enumerate() {
        assert_eq!(stress_length_ms(code as u8), ms);
    }
    assert_eq!(stress_length_ms(8), 135);
    assert_eq!(stress_length_ms(255), 135);
}

#[test]
fn pitch_accent_by_stress() {
    assert_eq!(pitch_accent(7), PitchAccent::High);
    assert_eq!(pitch_accent(6), PitchAccent::High);
    assert_eq!(pitch_accent(5), PitchAccent::Mid);
    assert_eq!(pitch_accent(4), PitchAccent::Mid);
    for s in [0u8, 1, 2, 3, 8, 200] {
        assert_eq!(pitch_accent(s), PitchAccent::Low);
    }
}

fn table() -> Vec<Option<PhonemeEntry>> {
    let mut t = vec![None; 256];
    t[40] = Some(PhonemeEntry { mnemonic: pack("@"), typ: PH_VOWEL, std_length: 100 });
    t[41] = Some(PhonemeEntry { mnemonic: pack("m"), typ: 1, std_length: 0 });
    t[42] = Some(PhonemeEntry { mnemonic: pack("5"), typ: PH_VOWEL, std_length: 90 });
    t[43] = Some(PhonemeEntry { mnemonic: pack("aI2"), typ: PH_VOWEL, std_length: 120 });
    t[44] = Some(PhonemeEntry { mnemonic: pack("t#"), typ: 4, std_length: 0 });
    t
}

fn code(c: u8) -> SpeechCode {
    SpeechCode { code: c, is_boundary: false }
}

fn phone(phoneme: Phoneme, stress: u8, is_vowel: bool, std_length: u8) -> EventPlan {
    EventPlan::Phone { phoneme, stress, is_vowel, std_length }
}

#[test]
fn empty_stream_plans_only_the_closing_pause() {
    assert_eq!(plan_events(&[], &table()), vec![EventPlan::ClosingPause]);
}

#[test]
fn stress_applies_to_next_vowel_only() {
    let codes = [code(4), code(40), code(41), code(6), code(42), code(40), code(43)];
    let plan = plan_events(&codes, &table());
    assert_eq!(
        plan,
        vec![
            phone(Phoneme::Comma, 4, true, 100),
            phone(Phoneme::M, 1, false, 0),
            // code 42 ("5") is not in the inventory, but as a vowel it still
            // takes the pending stress.
            phone(Phoneme::Comma, 1, true, 100),
            phone(Phoneme::Price, 1, true, 120),
            EventPlan::ClosingPause,
        ]
    );
}

#[test]
fn consonants_keep_the_pending_stress() {
    let codes = [code(7), code(44), code(41), code(43), code(41)];
    let plan = plan_events(&codes, &table());
    assert_eq!(
        plan,
        vec![
            phone(Phoneme::T, 7, false, 0),
            phone(Phoneme::M, 7, false, 0),
            phone(Phoneme::Price, 7, true, 120),
            phone(Phoneme::M, 1, false, 0),
            EventPlan::ClosingPause,
        ]
    );
}

#[test]
fn boundaries_pauses_and_unknown_codes_are_skipped() {
    let codes = [
        SpeechCode { code: 5, is_boundary: true },
        code(0),
        code(9),
        code(255),
        SpeechCode { code: 40, is_boundary: true },
        code(2),
        code(40),
    ];
    let plan = plan_events(&codes, &table());
    assert_eq!(plan, vec![phone(Phoneme::Comma, 2, true, 100), EventPlan::ClosingPause]);
}

#[test]
fn codes_past_a_short_table_have_no_entry() {
    let short = vec![None; 10];
    assert_eq!(plan_events(&[code(40), code(3)], &short), vec![EventPlan::ClosingPause]);
}

#[test]
fn contour_raises_last_five_voiced() {
    let voiced = [true, false, true, true, false, true, true, true, true, false];
    assert_eq!(RISE_COUNT, 5);
    assert_eq!(rising_contour_targets(&voiced), vec![3, 5, 6, 7, 8]);
}

#[test]
fn contour_raises_all_voiced_when_few() {
    assert_eq!(rising_contour_targets(&[false, true, false, true]), vec![1, 3]);
    assert_eq!(rising_contour_targets(&[false, false]), Vec::<usize>::new());
    assert_eq!(rising_contour_targets(&[]), Vec::<usize>::new());
}

#[test]
fn unpack_inverts_little_endian_packing() {
    for s in ["", "@", "i:", "aI2", "tS", "r\\", "aU;", "abcd", "?"] {
        assert_eq!(unpack_mnem(pack(s)), s, "mnemonic {s}");
    }
}

#[test]
fn plan_has_one_event_per_named_phoneme_plus_pause() {
    // Named: 40 ("@"), 41 ("m"), 43 ("aI2"), 44 ("t#"). Not named: boundary,
    // 0, stress codes, 42 ("5"), codes without an entry.
    let codes = [
        code(40), SpeechCode { code: 41, is_boundary: true }, code(0), code(3), code(41),
        code(42), code(100), code(43), code(7), code(44),
    ];
    let plan = plan_events(&codes, &table());
    assert_eq!(plan.len(), 5);
    let phonemes: Vec<Phoneme> = plan
        .iter()
        .filter_map(|e| match e {
            EventPlan::Phone { phoneme, .. } => Some(*phoneme),
            EventPlan::ClosingPause => None,
        })
        .collect();
    assert_eq!(phonemes, vec![Phoneme::Comma, Phoneme::M, Phoneme::Price, Phoneme::T]);
    assert_eq!(plan[4], EventPlan::ClosingPause);
}
