use clawcombat::ime::{HangulAutomata, Key};

fn type_keys(ime: &mut HangulAutomata, keys: &[(Key, bool)], buffer: &mut String) {
    for (key, shift) in keys {
        assert!(ime.process_key(*key, *shift, buffer));
    }
}

fn plain(keys: &[Key]) -> Vec<(Key, bool)> {
    keys.iter().map(|k| (*k, false)).collect()
}

#[test]
fn new_composer_is_latin_and_idle() {
    let ime = HangulAutomata::new();
    assert!(!ime.is_korean_mode);
    assert!(!ime.is_composing());
    assert_eq!(ime.get_composed_char(), ' ');
}

#[test]
fn toggle_mode_switches_and_drops_composition() {
    let mut ime = HangulAutomata::new();
    let mut buffer = String::new();
    ime.process_key(Key::G, false, &mut buffer);
    assert!(ime.is_composing());
    ime.toggle_mode();
    assert!(ime.is_korean_mode);
    assert!(!ime.is_composing());
    assert_eq!(buffer, "ㅎ");
    ime.toggle_mode();
    assert!(!ime.is_korean_mode);
}

#[test]
fn types_hanguk() {
    let mut ime = HangulAutomata::new();
    let mut buffer = String::new();
    type_keys(&mut ime, &plain(&[Key::G, Key::K, Key::S, Key::R, Key::N, Key::R]), &mut buffer);
    assert_eq!(buffer, "한국");
    assert_eq!(ime.get_composed_char(), '국');
}

#[test]
fn compound_final_then_new_syllable() {
    let mut ime = HangulAutomata::new();
    let mut buffer = String::new();
    type_keys(&mut ime, &plain(&[Key::E, Key::K, Key::F, Key::R, Key::D, Key::K, Key::F]), &mut buffer);
    assert_eq!(buffer, "닭알");
}

#[test]
fn vowel_splits_compound_final() {
    let mut ime = HangulAutomata::new();
    let mut buffer = String::new();
    type_keys(&mut ime, &plain(&[Key::E, Key::K, Key::F, Key::R, Key::K]), &mut buffer);
    assert_eq!(buffer, "달가");
}

#[test]
fn vowel_moves_simple_final() {
    let mut ime = HangulAutomata::new();
    let mut buffer = String::new();
    type_keys(&mut ime, &plain(&[Key::G, Key::K, Key::S, Key::K]), &mut buffer);
    assert_eq!(buffer, "하나");
}

#[test]
fn compound_vowel() {
    let mut ime = HangulAutomata::new();
    let mut buffer = String::new();
    type_keys(&mut ime, &plain(&[Key::D, Key::H, Key::K]), &mut buffer);
    assert_eq!(buffer, "와");
}

#[test]
fn shift_gives_tense_consonant() {
    let mut ime = HangulAutomata::new();
    let mut buffer = String::new();
    type_keys(&mut ime, &[(Key::R, true), (Key::K, false)], &mut buffer);
    assert_eq!(buffer, "까");
}

#[test]
fn tense_consonant_cannot_close_syllable() {
    let mut ime = HangulAutomata::new();
    let mut buffer = String::new();
    type_keys(&mut ime, &[(Key::E, false), (Key::K, false), (Key::E, true)], &mut buffer);
    assert_eq!(buffer, "다ㄸ");
}

#[test]
fn lone_vowels_that_do_not_combine() {
    let mut ime = HangulAutomata::new();
    let mut buffer = String::new();
    type_keys(&mut ime, &plain(&[Key::K, Key::K]), &mut buffer);
    assert_eq!(buffer, "ㅏㅏ");
}

#[test]
fn consonant_after_lone_vowel_starts_a_syllable() {
    let mut ime = HangulAutomata::new();
    let mut buffer = String::new();
    type_keys(&mut ime, &plain(&[Key::K]), &mut buffer);
    assert_eq!(buffer, "ㅏ");
    assert!(ime.process_key(Key::R, false, &mut buffer));
    assert_eq!(buffer, "ㅏㄱ");
    assert_eq!(ime.get_composed_char(), 'ㄱ');
    assert!(ime.process_key(Key::K, false, &mut buffer));
    assert_eq!(buffer, "ㅏ가");
}

#[test]
fn two_initials_commit_the_first() {
    let mut ime = HangulAutomata::new();
    let mut buffer = String::new();
    type_keys(&mut ime, &plain(&[Key::R, Key::S]), &mut buffer);
    assert_eq!(buffer, "ㄱㄴ");
}

#[test]
fn unmapped_key_commits_and_returns_false() {
    let mut ime = HangulAutomata::new();
    let mut buffer = String::from("x");
    type_keys(&mut ime, &plain(&[Key::G, Key::K]), &mut buffer);
    assert!(!ime.process_key(Key::Other, false, &mut buffer));
    assert_eq!(buffer, "x하");
    assert!(!ime.is_composing());
    assert!(ime.process_key(Key::K, false, &mut buffer));
    assert_eq!(buffer, "x하ㅏ");
}

#[test]
fn backspace_takes_jamo_off_one_by_one() {
    let mut ime = HangulAutomata::new();
    let mut buffer = String::from("a");
    type_keys(&mut ime, &plain(&[Key::G, Key::K, Key::S]), &mut buffer);
    assert_eq!(buffer, "a한");
    assert!(ime.handle_backspace(&mut buffer));
    assert_eq!(buffer, "a하");
    assert!(ime.handle_backspace(&mut buffer));
    assert_eq!(buffer, "aㅎ");
    assert!(ime.handle_backspace(&mut buffer));
    assert_eq!(buffer, "a");
    assert!(!ime.handle_backspace(&mut buffer));
    assert_eq!(buffer, "a");
}

#[test]
fn backspace_after_first_jamo_restores_buffer() {
    for key in [Key::R, Key::K, Key::G, Key::L] {
        let mut ime = HangulAutomata::new();
        let mut buffer = String::from("abc");
        assert!(ime.process_key(key, false, &mut buffer));
        assert!(ime.handle_backspace(&mut buffer));
        assert_eq!(buffer, "abc");
        assert!(!ime.is_composing());
    }
}

#[test]
fn backspace_on_compound_final_drops_whole_final() {
    let mut ime = HangulAutomata::new();
    let mut buffer = String::new();
    type_keys(&mut ime, &plain(&[Key::E, Key::K, Key::F, Key::R]), &mut buffer);
    assert_eq!(buffer, "닭");
    assert!(ime.handle_backspace(&mut buffer));
    assert_eq!(buffer, "다");
}

#[test]
fn composed_char_of_full_syllable_range() {
    let mut ime = HangulAutomata::new();
    let mut buffer = String::new();
    // ㅎ + ㅢ + ㅎ: initial, compound vowel and final near the end of the tables.
    type_keys(&mut ime, &plain(&[Key::G, Key::M, Key::L, Key::G]), &mut buffer);
    assert_eq!(buffer, "힇");
    let c = ime.get_composed_char() as u32;
    assert!((0xAC00..=0xD7A3).contains(&c));
}

#[test]
fn consonant_tables_are_inverse() {
    for c in 0..25u32 {
        match HangulAutomata::cho_to_jong(c) {
            Some(j) => {
                assert_eq!(HangulAutomata::jong_to_cho(j), Some(c));
                assert_eq!(HangulAutomata::split_complex_jong(j), (None, c));
            }
            None => assert!(c == 4 || c == 8 || c == 13 || c >= 19),
        }
    }
    assert_eq!(HangulAutomata::combine_consonants(8, 1), Some(9));
    assert_eq!(HangulAutomata::split_complex_jong(9), (Some(8), 0));
    assert_eq!(HangulAutomata::combine_vowels(8, 0), Some(9));
    assert_eq!(HangulAutomata::combine_vowels(0, 0), None);
}
