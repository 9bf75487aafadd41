//! What the chat input does with each key press and typed character while
//! the chat window is open.

use vstd::prelude::*;
use crate::ime::{
    backspace_step, empty_composition, key_step, preedit, spec_is_composing, spec_map_key,
    without_preedit, HangulAutomata, Key,
};
use crate::text::{chars_of, drop_last_or_empty, string_pop, string_push, strip_bounds, trim};

verus! {

/// What a key press asks of the game once the chat input handled it.
#[derive(Clone, Copy, Debug, PartialEq, Eq, Structural)]
pub enum ChatKeyOutcome {
    /// The input language was switched.
    ModeToggled,
    /// The text changed: suggestions for it are to be looked up.
    Suggest,
    /// The text is to be sent as a command.
    Send,
    /// The key was used and asks for nothing.
    Nothing,
    /// The key is not one the chat input uses.
    Unhandled,
}

/// Unicode control characters (general category Cc), which
/// `char::is_control` recognises.
pub open spec fn is_control_char(c: char) -> bool {
    let v = c as u32;
    v <= 0x1F || (0x7F <= v && v <= 0x9F)
}

/// ASCII letters.
pub open spec fn is_ascii_letter(c: char) -> bool {
    let v = c as u32;
    (0x61 <= v && v <= 0x7A) || (0x41 <= v && v <= 0x5A)
}

/// The keys that switch the input language.
pub open spec fn is_toggle_key(key: Key) -> bool {
    key == Key::RAlt || key == Key::Kana
}

/// The keys that send the text.
pub open spec fn is_enter_key(key: Key) -> bool {
    key == Key::Return || key == Key::NumpadEnter
}

/// The keys the chat input handles before any letter.
pub open spec fn is_chat_control_key(key: Key) -> bool {
    is_toggle_key(key) || is_enter_key(key) || key == Key::Back || key == Key::Space
}

/// Whether a text holds nothing but blanks.
pub fn is_blank(s: &String) -> (res: bool)
    ensures
        res == (trim(s@).len() == 0),
{
    let v = chars_of(s.as_str());
    let (a, b) = strip_bounds(&v, 0, v.len(), None);
    proof {
        assert(v@.subrange(0, v@.len() as int) =~= v@);
    }
    a == b
}

/// Handles a key pressed in the open chat window: the language switch,
/// backspace, space and enter keys first, then letters in Korean mode.
pub fn chat_key_down(ime: &mut HangulAutomata, key: Key, is_shift: bool, buffer: &mut String) -> (res:
    ChatKeyOutcome)
    requires
        old(ime).wf(),
    ensures
        final(ime).wf(),
        is_toggle_key(key) ==> ({
            &&& res == ChatKeyOutcome::ModeToggled
            &&& final(ime).korean_mode() == !old(ime).korean_mode()
            &&& final(ime).composition() == empty_composition()
            &&& final(buffer)@ == old(buffer)@
        }),
        key == Key::Back ==> ({
            &&& res == ChatKeyOutcome::Suggest
            &&& final(ime).korean_mode() == old(ime).korean_mode()
            &&& spec_is_composing(old(ime).composition()) ==> {
                &&& final(ime).composition() == backspace_step(old(ime).composition())
                &&& final(buffer)@ == drop_last_or_empty(old(buffer)@) + preedit(
                    final(ime).composition(),
                )
            }
            &&& !spec_is_composing(old(ime).composition()) ==> {
                &&& final(ime).composition() == old(ime).composition()
                &&& final(buffer)@ == drop_last_or_empty(old(buffer)@)
            }
        }),
        key == Key::Space ==> ({
            &&& res == ChatKeyOutcome::Suggest
            &&& final(ime).korean_mode() == old(ime).korean_mode()
            &&& final(ime).composition() == empty_composition()
            &&& final(buffer)@ == old(buffer)@.push(' ')
        }),
        is_enter_key(key) ==> ({
            &&& res == (if trim(old(buffer)@).len() == 0 {
                ChatKeyOutcome::Nothing
            } else {
                ChatKeyOutcome::Send
            })
            &&& final(ime).korean_mode() == old(ime).korean_mode()
            &&& final(ime).composition() == empty_composition()
            &&& final(buffer)@ == old(buffer)@
        }),
        !is_chat_control_key(key) && !old(ime).korean_mode() ==> ({
            &&& res == ChatKeyOutcome::Unhandled
            &&& final(ime).korean_mode() == old(ime).korean_mode()
            &&& final(ime).composition() == old(ime).composition()
            &&& final(buffer)@ == old(buffer)@
        }),
        !is_chat_control_key(key) && old(ime).korean_mode() ==> ({
            &&& final(ime).korean_mode()
            &&& res == (if spec_map_key(key, is_shift) is Some {
                ChatKeyOutcome::Suggest
            } else {
                ChatKeyOutcome::Unhandled
            })
            &&& spec_map_key(key, is_shift) matches Some((is_vowel, index)) ==> {
                let (next, committed) = key_step(old(ime).composition(), is_vowel, index);
                &&& final(ime).composition() == next
                &&& final(buffer)@ == without_preedit(old(buffer)@, old(ime).composition())
                    + committed + preedit(next)
            }
            &&& spec_map_key(key, is_shift) is None ==> {
                &&& final(ime).composition() == empty_composition()
                &&& final(buffer)@ == old(buffer)@
            }
        }),
{
    if key == Key::RAlt || key == Key::Kana {
        ime.toggle_mode();
        return ChatKeyOutcome::ModeToggled;
    }
    if key == Key::Back {
        if !ime.handle_backspace(buffer) {
            string_pop(buffer);
        }
        return ChatKeyOutcome::Suggest;
    }
    if key == Key::Space {
        ime.clear();
        string_push(buffer, ' ');
        return ChatKeyOutcome::Suggest;
    }
    if key == Key::Return || key == Key::NumpadEnter {
        ime.clear();
        if !is_blank(buffer) {
            return ChatKeyOutcome::Send;
        }
        return ChatKeyOutcome::Nothing;
    }
    if ime.in_korean_mode() {
        if ime.process_key(key, is_shift, buffer) {
            return ChatKeyOutcome::Suggest;
        }
    }
    ChatKeyOutcome::Unhandled
}

/// Handles a character typed in the open chat window: in Korean mode Latin
/// letters are left to the composer; other characters but control ones are
/// added to the text. Returns whether the text changed.
pub fn chat_text_input(ime: &HangulAutomata, character: char, buffer: &mut String) -> (res: bool)
    ensures
        res == (!(ime.korean_mode() && is_ascii_letter(character)) && !is_control_char(character)),
        res ==> final(buffer)@ == old(buffer)@.push(character),
        !res ==> final(buffer)@ == old(buffer)@,
{
    let v = character as u32;
    if ime.in_korean_mode() {
        if (0x61 <= v && v <= 0x7A) || (0x41 <= v && v <= 0x5A) {
            return false;
        }
    }
    if !(v <= 0x1F || (0x7F <= v && v <= 0x9F)) {
        string_push(buffer, character);
        return true;
    }
    false
}

} // verus!
