use espeak_ng::{PhonemeData, Translator};
use klatt_rs::espeak::{FrontendError, LanguagePhonemes};
use klatt_rs::frontend::{plan_events, unpack_mnem, EventPlan, SpeechCode};
use std::path::Path;

fn data_dir() -> &'static Path {
    let dir = Path::new("/tmp/klatt_rs_espeak_test_data");
    espeak_ng::install_bundled_language(dir, "en").expect("install bundled data");
    dir
}

fn load() -> PhonemeData {
    PhonemeData::load(data_dir()).expect("load")
}

#[test]
fn unknown_phoneme_table_is_refused() {
    let r = LanguagePhonemes::select(load(), "no-such-language");
    assert_eq!(r.err(), Some(FrontendError::UnknownPhonemeTable));
}

#[test]
fn english_table_is_selected() {
    assert!(LanguagePhonemes::select(load(), "en").is_ok());
}

#[test]
fn data_with_a_selected_table_is_refused() {
    let mut data = load();
    data.select_table_by_name("en").expect("select");
    let r = LanguagePhonemes::select(data, "en");
    assert_eq!(r.err(), Some(FrontendError::TableAlreadySelected));
}

#[test]
fn include_past_the_tables_is_refused() {
    let mut data = load();
    let en = data.find_table("en").expect("en");
    data.tables[en].includes = 255;
    let r = LanguagePhonemes::select(data, "en");
    assert_eq!(r.err(), Some(FrontendError::BrokenIncludes));
}

#[test]
fn circular_includes_are_refused() {
    let mut data = load();
    let en = data.find_table("en").expect("en");
    data.tables[en].includes = (en + 1) as u8;
    let r = LanguagePhonemes::select(data, "en");
    assert_eq!(r.err(), Some(FrontendError::BrokenIncludes));
}

#[test]
fn phoneme_table_holds_the_active_set() {
    let mut reference = load();
    reference.select_table_by_name("en").expect("select");
    let phonemes = LanguagePhonemes::select(load(), "en").expect("select");
    let table = phonemes.phoneme_table();
    assert_eq!(table.len(), 256);
    let schwa = reference.lookup_phoneme("@");
    assert_ne!(schwa, 0);
    let e = table[schwa as usize].expect("schwa is active");
    assert_eq!(unpack_mnem(e.mnemonic), "@");
    for code in 0..=255u8 {
        match (reference.get(code), table[code as usize]) {
            (Some(ph), Some(e)) => {
                assert_eq!(ph.mnemonic, e.mnemonic);
                assert_eq!(ph.typ, e.typ);
                assert_eq!(ph.std_length, e.std_length);
            }
            (None, None) => {}
            _ => panic!("table disagrees at code {code}"),
        }
    }
}

#[test]
fn english_text_plans_known_phonemes() {
    let dir = data_dir();
    let phonemes = LanguagePhonemes::select(load(), "en").expect("select");
    let translator = Translator::new("en", Some(dir)).expect("translator");
    let codes: Vec<SpeechCode> = translator
        .translate_to_codes("hello world")
        .expect("translate")
        .iter()
        .map(|c| SpeechCode { code: c.code, is_boundary: c.is_boundary })
        .collect();
    let plan = plan_events(&codes, &phonemes.phoneme_table());
    assert!(plan.len() >= 4, "plan too short: {plan:?}");
    assert_eq!(plan.last(), Some(&EventPlan::ClosingPause));
    assert!(plan.iter().any(|e| matches!(e, EventPlan::Phone { is_vowel: true, .. })));
}
