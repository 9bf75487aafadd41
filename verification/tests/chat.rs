use clawcombat::chat::{chat_key_down, chat_text_input, is_blank, ChatKeyOutcome};
use clawcombat::ime::{HangulAutomata, Key};

#[test]
fn toggle_keys_switch_mode() {
    let mut ime = HangulAutomata::new();
    let mut buffer = String::from("hi");
    assert_eq!(chat_key_down(&mut ime, Key::RAlt, false, &mut buffer), ChatKeyOutcome::ModeToggled);
    assert!(ime.is_korean_mode);
    assert_eq!(chat_key_down(&mut ime, Key::Kana, false, &mut buffer), ChatKeyOutcome::ModeToggled);
    assert!(!ime.is_korean_mode);
    assert_eq!(buffer, "hi");
}

#[test]
fn korean_typing_and_backspace() {
    let mut ime = HangulAutomata::new();
    let mut buffer = String::new();
    chat_key_down(&mut ime, Key::RAlt, false, &mut buffer);
    for key in [Key::G, Key::K, Key::S] {
        assert_eq!(chat_key_down(&mut ime, key, false, &mut buffer), ChatKeyOutcome::Suggest);
    }
    assert_eq!(buffer, "한");
    assert_eq!(chat_key_down(&mut ime, Key::Back, false, &mut buffer), ChatKeyOutcome::Suggest);
    assert_eq!(buffer, "하");
    assert_eq!(chat_key_down(&mut ime, Key::Space, false, &mut buffer), ChatKeyOutcome::Suggest);
    assert_eq!(buffer, "하 ");
    assert!(!ime.is_composing());
    // Nothing is composing: backspace removes a plain character.
    assert_eq!(chat_key_down(&mut ime, Key::Back, false, &mut buffer), ChatKeyOutcome::Suggest);
    assert_eq!(buffer, "하");
    assert_eq!(chat_key_down(&mut ime, Key::Back, false, &mut buffer), ChatKeyOutcome::Suggest);
    assert_eq!(buffer, "");
    assert_eq!(chat_key_down(&mut ime, Key::Back, false, &mut buffer), ChatKeyOutcome::Suggest);
    assert_eq!(buffer, "");
}

#[test]
fn enter_sends_only_non_blank_text() {
    let mut ime = HangulAutomata::new();
    let mut buffer = String::from("  \t ");
    assert_eq!(chat_key_down(&mut ime, Key::Return, false, &mut buffer), ChatKeyOutcome::Nothing);
    let mut buffer = String::from("attack");
    assert_eq!(chat_key_down(&mut ime, Key::NumpadEnter, false, &mut buffer), ChatKeyOutcome::Send);
    assert_eq!(buffer, "attack");
}

#[test]
fn other_keys_are_left_to_the_game() {
    let mut ime = HangulAutomata::new();
    let mut buffer = String::from("x");
    assert_eq!(chat_key_down(&mut ime, Key::G, false, &mut buffer), ChatKeyOutcome::Unhandled);
    assert_eq!(buffer, "x");
    chat_key_down(&mut ime, Key::RAlt, false, &mut buffer);
    chat_key_down(&mut ime, Key::G, false, &mut buffer);
    assert_eq!(chat_key_down(&mut ime, Key::Other, false, &mut buffer), ChatKeyOutcome::Unhandled);
    assert_eq!(buffer, "xㅎ");
    assert!(!ime.is_composing());
}

#[test]
fn text_input_rules() {
    let mut ime = HangulAutomata::new();
    let mut buffer = String::new();
    assert!(chat_text_input(&ime, 'a', &mut buffer));
    assert!(chat_text_input(&ime, '1', &mut buffer));
    assert!(!chat_text_input(&ime, '\u{8}', &mut buffer));
    assert!(!chat_text_input(&ime, '\r', &mut buffer));
    assert!(!chat_text_input(&ime, '\u{85}', &mut buffer));
    assert_eq!(buffer, "a1");
    let mut other = String::new();
    ime.toggle_mode();
    assert!(!chat_text_input(&ime, 'a', &mut other));
    assert!(!chat_text_input(&ime, 'Z', &mut other));
    assert!(chat_text_input(&ime, '?', &mut other));
    assert!(chat_text_input(&ime, 'é', &mut other));
    assert_eq!(other, "?é");
}

#[test]
fn blank_texts() {
    assert!(is_blank(&String::new()));
    assert!(is_blank(&String::from(" \n\t\u{3000}")));
    assert!(!is_blank(&String::from(" a ")));
}
