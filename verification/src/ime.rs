//! A two-set (dubeolsik) Hangul composer for the chat window: QWERTY keys
//! are turned into jamo, and jamo are combined into syllables while the
//! player types. The syllable being composed is shown at the end of the
//! text buffer and replaced as it grows.

use vstd::prelude::*;
use crate::text::{char_from_u32, drop_last_or_empty, string_pop, string_push};

verus! {

/// First code point of the Hangul syllables block.
pub const HANGUL_BASE: u32 = 0xAC00;

/// Number of vowels (medials).
pub const JUNG_COUNT: u32 = 21;

/// Number of final consonant slots, the empty one included.
pub const JONG_COUNT: u32 = 28;

/// A key of the keyboard, as far as the chat input tells keys apart: the
/// letter keys, the keys with a role of their own, and any other key.
#[derive(Clone, Copy, Debug, PartialEq, Eq, Structural)]
pub enum Key {
    A, B, C, D, E, F, G, H, I, J, K, L, M,
    N, O, P, Q, R, S, T, U, V, W, X, Y, Z,
    RAlt,
    Kana,
    Back,
    Space,
    Return,
    NumpadEnter,
    Other,
}

/// The jamo indices of the syllable being composed: initial consonant
/// (`cho`, 19 of them), vowel (`jung`, 21) and final consonant (`jong`,
/// 28 slots where 0 stands for none).
#[derive(Clone, Copy, Debug, PartialEq, Eq, Structural)]
pub struct Composition {
    pub cho: Option<u32>,
    pub jung: Option<u32>,
    pub jong: Option<u32>,
}

/// The composition in which nothing is pending.
pub open spec fn empty_composition() -> Composition {
    Composition { cho: None, jung: None, jong: None }
}

/// Every index of a composition is in the range of its table.
pub open spec fn composition_wf(c: Composition) -> bool {
    &&& (c.cho matches Some(x) ==> x < 19)
    &&& (c.jung matches Some(x) ==> x < 21)
    &&& (c.jong matches Some(x) ==> x < 28)
}

/// Whether some jamo is pending.
pub open spec fn spec_is_composing(c: Composition) -> bool {
    c.cho.is_some() || c.jung.is_some() || c.jong.is_some()
}

/// The compatibility jamo of each initial consonant.
pub open spec fn cho_jamo(i: u32) -> char {
    if i == 0 { 'ㄱ' }
    else if i == 1 { 'ㄲ' }
    else if i == 2 { 'ㄴ' }
    else if i == 3 { 'ㄷ' }
    else if i == 4 { 'ㄸ' }
    else if i == 5 { 'ㄹ' }
    else if i == 6 { 'ㅁ' }
    else if i == 7 { 'ㅂ' }
    else if i == 8 { 'ㅃ' }
    else if i == 9 { 'ㅅ' }
    else if i == 10 { 'ㅆ' }
    else if i == 11 { 'ㅇ' }
    else if i == 12 { 'ㅈ' }
    else if i == 13 { 'ㅉ' }
    else if i == 14 { 'ㅊ' }
    else if i == 15 { 'ㅋ' }
    else if i == 16 { 'ㅌ' }
    else if i == 17 { 'ㅍ' }
    else { 'ㅎ' }
}

/// The compatibility jamo of each vowel: the vowels follow one another in
/// Unicode, starting at `ㅏ` (U+314F).
pub open spec fn jung_jamo(i: u32) -> char {
    (0x314Fu32 + i) as char
}

/// The code point of the syllable made of the given jamo indices.
pub open spec fn syllable_code(cho: u32, jung: u32, jong: u32) -> int {
    HANGUL_BASE + cho * (JUNG_COUNT * JONG_COUNT) + jung * JONG_COUNT + jong
}

/// The character that shows a composition: the full syllable once an
/// initial and a vowel are there, else the lone jamo, else a space.
pub open spec fn composed_char(c: Composition) -> char {
    match (c.cho, c.jung) {
        (Some(cho), Some(jung)) => {
            let jong = match c.jong {
                Some(j) => j,
                None => 0u32,
            };
            syllable_code(cho, jung, jong) as char
        },
        (Some(cho), None) => cho_jamo(cho),
        (None, Some(jung)) => jung_jamo(jung),
        (None, None) => ' ',
    }
}

/// What the buffer shows of a composition at its end.
pub open spec fn preedit(c: Composition) -> Seq<char> {
    if spec_is_composing(c) { seq![composed_char(c)] } else { Seq::empty() }
}

/// The jamo a key gives in the two-set layout: `(is_vowel, index)`.
pub open spec fn spec_map_key(key: Key, is_shift: bool) -> Option<(bool, u32)> {
    match key {
        Key::R => Some((false, if is_shift { 1u32 } else { 0u32 })),
        Key::S => Some((false, 2u32)),
        Key::E => Some((false, if is_shift { 4u32 } else { 3u32 })),
        Key::F => Some((false, 5u32)),
        Key::A => Some((false, 6u32)),
        Key::Q => Some((false, if is_shift { 8u32 } else { 7u32 })),
        Key::T => Some((false, if is_shift { 10u32 } else { 9u32 })),
        Key::D => Some((false, 11u32)),
        Key::W => Some((false, if is_shift { 13u32 } else { 12u32 })),
        Key::C => Some((false, 14u32)),
        Key::Z => Some((false, 15u32)),
        Key::X => Some((false, 16u32)),
        Key::V => Some((false, 17u32)),
        Key::G => Some((false, 18u32)),
        Key::K => Some((true, 0u32)),
        Key::O => Some((true, if is_shift { 3u32 } else { 1u32 })),
        Key::I => Some((true, 2u32)),
        Key::J => Some((true, 4u32)),
        Key::P => Some((true, if is_shift { 7u32 } else { 5u32 })),
        Key::U => Some((true, 6u32)),
        Key::H => Some((true, 8u32)),
        Key::Y => Some((true, 12u32)),
        Key::N => Some((true, 13u32)),
        Key::B => Some((true, 17u32)),
        Key::M => Some((true, 18u32)),
        Key::L => Some((true, 20u32)),
        _ => None,
    }
}

/// The compound vowel two vowels make, if any.
pub open spec fn spec_combine_vowels(v1: u32, v2: u32) -> Option<u32> {
    if v1 == 8 && v2 == 0 { Some(9u32) }
    else if v1 == 8 && v2 == 1 { Some(10u32) }
    else if v1 == 8 && v2 == 20 { Some(11u32) }
    else if v1 == 13 && v2 == 4 { Some(14u32) }
    else if v1 == 13 && v2 == 5 { Some(15u32) }
    else if v1 == 13 && v2 == 20 { Some(16u32) }
    else if v1 == 18 && v2 == 20 { Some(19u32) }
    else { None }
}

/// The compound final two finals make, if any.
pub open spec fn spec_combine_consonants(c1: u32, c2: u32) -> Option<u32> {
    if c1 == 1 && c2 == 19 { Some(3u32) }
    else if c1 == 4 && c2 == 22 { Some(5u32) }
    else if c1 == 4 && c2 == 27 { Some(6u32) }
    else if c1 == 8 && c2 == 1 { Some(9u32) }
    else if c1 == 8 && c2 == 16 { Some(10u32) }
    else if c1 == 8 && c2 == 17 { Some(11u32) }
    else if c1 == 8 && c2 == 19 { Some(12u32) }
    else if c1 == 8 && c2 == 25 { Some(13u32) }
    else if c1 == 8 && c2 == 26 { Some(14u32) }
    else if c1 == 8 && c2 == 27 { Some(15u32) }
    else if c1 == 17 && c2 == 19 { Some(18u32) }
    else { None }
}

/// The final slot of an initial consonant; `ㄸ`, `ㅃ` and `ㅉ` have none.
pub open spec fn spec_cho_to_jong(cho: u32) -> Option<u32> {
    if cho == 0 { Some(1u32) }
    else if cho == 1 { Some(2u32) }
    else if cho == 2 { Some(4u32) }
    else if cho == 3 { Some(7u32) }
    else if cho == 5 { Some(8u32) }
    else if cho == 6 { Some(16u32) }
    else if cho == 7 { Some(17u32) }
    else if cho == 9 { Some(19u32) }
    else if cho == 10 { Some(20u32) }
    else if cho == 11 { Some(21u32) }
    else if cho == 12 { Some(22u32) }
    else if cho == 14 { Some(23u32) }
    else if cho == 15 { Some(24u32) }
    else if cho == 16 { Some(25u32) }
    else if cho == 17 { Some(26u32) }
    else if cho == 18 { Some(27u32) }
    else { None }
}

/// The initial consonant of a simple final.
pub open spec fn spec_jong_to_cho(jong: u32) -> Option<u32> {
    if jong == 1 { Some(0u32) }
    else if jong == 2 { Some(1u32) }
    else if jong == 4 { Some(2u32) }
    else if jong == 7 { Some(3u32) }
    else if jong == 8 { Some(5u32) }
    else if jong == 16 { Some(6u32) }
    else if jong == 17 { Some(7u32) }
    else if jong == 19 { Some(9u32) }
    else if jong == 20 { Some(10u32) }
    else if jong == 21 { Some(11u32) }
    else if jong == 22 { Some(12u32) }
    else if jong == 23 { Some(14u32) }
    else if jong == 24 { Some(15u32) }
    else if jong == 25 { Some(16u32) }
    else if jong == 26 { Some(17u32) }
    else if jong == 27 { Some(18u32) }
    else { None }
}

/// How a final splits when a vowel follows: a compound final keeps its
/// first part and gives its second to the next syllable as initial; a
/// simple final moves whole (its initial, or `ㄱ` when it has none).
pub open spec fn spec_split_complex_jong(jong: u32) -> (Option<u32>, u32) {
    if jong == 3 { (Some(1u32), 9u32) }
    else if jong == 5 { (Some(4u32), 12u32) }
    else if jong == 6 { (Some(4u32), 18u32) }
    else if jong == 9 { (Some(8u32), 0u32) }
    else if jong == 10 { (Some(8u32), 6u32) }
    else if jong == 11 { (Some(8u32), 7u32) }
    else if jong == 12 { (Some(8u32), 9u32) }
    else if jong == 13 { (Some(8u32), 16u32) }
    else if jong == 14 { (Some(8u32), 17u32) }
    else if jong == 15 { (Some(8u32), 18u32) }
    else if jong == 18 { (Some(17u32), 9u32) }
    else {
        (None, match spec_jong_to_cho(jong) {
            Some(c) => c,
            None => 0u32,
        })
    }
}

/// A vowel typed into composition `c`: the new composition and the
/// characters committed to the buffer on the way.
pub open spec fn vowel_step(c: Composition, index: u32) -> (Composition, Seq<char>) {
    if c.cho.is_some() && c.jung.is_none() {
        (Composition { jung: Some(index), ..c }, Seq::empty())
    } else if c.cho.is_some() && c.jung.is_some() && c.jong.is_none() {
        match spec_combine_vowels(c.jung.unwrap(), index) {
            Some(v) => (Composition { jung: Some(v), ..c }, Seq::empty()),
            None => (
                Composition { cho: None, jung: Some(index), jong: None },
                seq![composed_char(c)],
            ),
        }
    } else if c.cho.is_some() && c.jung.is_some() && c.jong.is_some() {
        let (remain, new_cho) = spec_split_complex_jong(c.jong.unwrap());
        (
            Composition { cho: Some(new_cho), jung: Some(index), jong: None },
            seq![composed_char(Composition { jong: remain, ..c })],
        )
    } else if c.cho.is_none() && c.jung.is_some() {
        match spec_combine_vowels(c.jung.unwrap(), index) {
            Some(v) => (Composition { jung: Some(v), ..c }, Seq::empty()),
            None => (
                Composition { cho: None, jung: Some(index), jong: None },
                seq![composed_char(c)],
            ),
        }
    } else {
        (Composition { cho: None, jung: Some(index), jong: None }, Seq::empty())
    }
}

/// A consonant typed into composition `c`: the new composition and the
/// characters committed to the buffer on the way.
pub open spec fn consonant_step(c: Composition, index: u32) -> (Composition, Seq<char>) {
    let restart = (
        Composition { cho: Some(index), jung: None, jong: None },
        seq![composed_char(c)],
    );
    if c.cho.is_none() && c.jung.is_none() {
        (Composition { cho: Some(index), ..c }, Seq::empty())
    } else if c.cho.is_some() && c.jung.is_none() {
        restart
    } else if c.cho.is_some() && c.jung.is_some() && c.jong.is_none() {
        match spec_cho_to_jong(index) {
            Some(j) => (Composition { jong: Some(j), ..c }, Seq::empty()),
            None => restart,
        }
    } else if c.cho.is_some() && c.jung.is_some() && c.jong.is_some() {
        match spec_cho_to_jong(index) {
            Some(j) => match spec_combine_consonants(c.jong.unwrap(), j) {
                Some(cb) => (Composition { jong: Some(cb), ..c }, Seq::empty()),
                None => restart,
            },
            None => restart,
        }
    } else {
        restart
    }
}

/// A jamo typed into composition `c`.
pub open spec fn key_step(c: Composition, is_vowel: bool, index: u32) -> (Composition, Seq<char>) {
    if is_vowel { vowel_step(c, index) } else { consonant_step(c, index) }
}

/// The buffer once the shown composition is taken off its end.
pub open spec fn without_preedit(buffer: Seq<char>, c: Composition) -> Seq<char> {
    if spec_is_composing(c) { drop_last_or_empty(buffer) } else { buffer }
}

/// The composition once backspace took its last jamo off: the final, else
/// the vowel, else the initial.
pub open spec fn backspace_step(c: Composition) -> Composition {
    if c.jong.is_some() && c.jong != Some(0u32) {
        Composition { jong: None, ..c }
    } else if c.jung.is_some() {
        Composition { jung: None, ..c }
    } else if c.cho.is_some() {
        Composition { cho: None, ..c }
    } else {
        c
    }
}

/// The in-game Hangul composition state machine (two-set layout).
pub struct HangulAutomata {
    pub is_korean_mode: bool,
    cho: Option<u32>,
    jung: Option<u32>,
    jong: Option<u32>,
}

impl HangulAutomata {
    /// The jamo pending in the composer.
    pub closed spec fn composition(&self) -> Composition {
        Composition { cho: self.cho, jung: self.jung, jong: self.jong }
    }

    /// Whether keys are read as Hangul.
    pub closed spec fn korean_mode(&self) -> bool {
        self.is_korean_mode
    }

    /// The composer's indices are in range.
    pub open spec fn wf(&self) -> bool {
        composition_wf(self.composition())
    }

    pub fn new() -> (res: Self)
        ensures
            res.wf(),
            !res.korean_mode(),
            res.composition() == empty_composition(),
    {
        HangulAutomata { is_korean_mode: false, cho: None, jung: None, jong: None }
    }

    /// Switches between Korean and Latin input; anything pending is dropped.
    pub fn toggle_mode(&mut self)
        ensures
            final(self).korean_mode() == !old(self).korean_mode(),
            final(self).composition() == empty_composition(),
            final(self).wf(),
    {
        self.is_korean_mode = !self.is_korean_mode;
        self.clear();
    }

    /// Whether keys are read as Hangul.
    pub fn in_korean_mode(&self) -> (res: bool)
        ensures
            res == self.korean_mode(),
    {
        self.is_korean_mode
    }

    pub fn is_composing(&self) -> (res: bool)
        ensures
            res == spec_is_composing(self.composition()),
    {
        self.cho.is_some() || self.jung.is_some() || self.jong.is_some()
    }

    /// Drops the pending jamo; what the buffer shows is kept as typed.
    pub fn clear(&mut self)
        ensures
            final(self).korean_mode() == old(self).korean_mode(),
            final(self).composition() == empty_composition(),
            final(self).wf(),
    {
        self.cho = None;
        self.jung = None;
        self.jong = None;
    }

    /// Takes the last jamo off the composition and shows what is left in
    /// place of the last character of `buffer`. Returns `false`, changing
    /// nothing, when nothing is pending.
    pub fn handle_backspace(&mut self, buffer: &mut String) -> (res: bool)
        requires
            old(self).wf(),
        ensures
            res == spec_is_composing(old(self).composition()),
            final(self).wf(),
            final(self).korean_mode() == old(self).korean_mode(),
            !res ==> final(self).composition() == old(self).composition() && final(buffer)@
                == old(buffer)@,
            res ==> final(self).composition() == backspace_step(old(self).composition())
                && final(buffer)@ == drop_last_or_empty(old(buffer)@) + preedit(
                final(self).composition(),
            ),
    {
        if !self.is_composing() {
            return false;
        }
        if self.jong.is_some() && self.jong != Some(0u32) {
            self.jong = None;
        } else if self.jung.is_some() {
            self.jung = None;
        } else if self.cho.is_some() {
            self.cho = None;
        }
        let ghost popped = drop_last_or_empty(buffer@);
        string_pop(buffer);
        if self.is_composing() {
            let c = self.get_composed_char();
            string_push(buffer, c);
        }
        assert(buffer@ =~= popped + preedit(self.composition()));
        true
    }

    /// The character that shows the pending jamo.
    pub fn get_composed_char(&self) -> (res: char)
        requires
            self.wf(),
        ensures
            res == composed_char(self.composition()),
    {
        if let Some(cho) = self.cho {
            if let Some(jung) = self.jung {
                let jong = self.jong.unwrap_or(0);
                assert(cho * 588 <= 18 * 588) by (nonlinear_arith)
                    requires
                        cho < 19,
                ;
                assert(jung * 28 <= 20 * 28) by (nonlinear_arith)
                    requires
                        jung < 21,
                ;
                let unicode_val = HANGUL_BASE + (cho * JUNG_COUNT * JONG_COUNT) + (jung
                    * JONG_COUNT) + jong;
                assert(unicode_val == syllable_code(cho, jung, jong));
                let r = char_from_u32(unicode_val).unwrap_or(' ');
                assert(r == syllable_code(cho, jung, jong) as char);
                r
            } else {
                cho_map(cho)
            }
        } else if let Some(jung) = self.jung {
            let r = jung_map(jung);
            assert(r == jung_jamo(jung));
            r
        } else {
            ' '
        }
    }

    /// Runs one key through the composer and updates `buffer`: the shown
    /// composition is taken off its end, completed syllables are committed,
    /// and the new composition is shown. A key that gives no jamo commits
    /// the composition as shown and returns `false`.
    pub fn process_key(&mut self, keycode: Key, is_shift: bool, buffer: &mut String) -> (res: bool)
        requires
            old(self).wf(),
        ensures
            final(self).wf(),
            final(self).korean_mode() == old(self).korean_mode(),
            res == spec_map_key(keycode, is_shift).is_some(),
            !res ==> final(self).composition() == empty_composition() && final(buffer)@ == old(
                buffer,
            )@,
            spec_map_key(keycode, is_shift) matches Some((is_vowel, index)) ==> ({
                let (next, committed) = key_step(old(self).composition(), is_vowel, index);
                &&& final(self).composition() == next
                &&& final(buffer)@ == without_preedit(old(buffer)@, old(self).composition())
                    + committed + preedit(next)
            }),
    {
        let mapped = match Self::map_qwerty_to_hangul(keycode, is_shift) {
            Some(v) => v,
            None => {
                self.clear();
                return false;
            },
        };
        let is_vowel = mapped.0;
        let index = mapped.1;
        let ghost start = self.composition();
        let ghost step = key_step(start, is_vowel, index);

        if self.is_composing() {
            string_pop(buffer);
        }
        let ghost base = buffer@;
        assert(base == without_preedit(old(buffer)@, start));

        if is_vowel {
            if self.cho.is_some() && self.jung.is_none() {
                self.jung = Some(index);
            } else if self.cho.is_some() && self.jung.is_some() && self.jong.is_none() {
                if let Some(combined) = Self::combine_vowels(self.jung.unwrap(), index) {
                    self.jung = Some(combined);
                } else {
                    let c = self.get_composed_char();
                    string_push(buffer, c);
                    self.clear();
                    self.jung = Some(index);
                }
            } else if self.cho.is_some() && self.jung.is_some() && self.jong.is_some() {
                let prev_jong = self.jong.unwrap();
                let (remain_jong, new_cho) = Self::split_complex_jong(prev_jong);
                self.jong = remain_jong;
                let c = self.get_composed_char();
                string_push(buffer, c);
                self.clear();
                self.cho = Some(new_cho);
                self.jung = Some(index);
            } else if self.cho.is_none() && self.jung.is_some() {
                if let Some(combined) = Self::combine_vowels(self.jung.unwrap(), index) {
                    self.jung = Some(combined);
                } else {
                    let c = self.get_composed_char();
                    string_push(buffer, c);
                    self.clear();
                    self.jung = Some(index);
                }
            } else {
                self.clear();
                self.jung = Some(index);
            }
        } else {
            if self.cho.is_none() && self.jung.is_none() {
                self.cho = Some(index);
            } else if self.cho.is_some() && self.jung.is_none() {
                let c = self.get_composed_char();
                string_push(buffer, c);
                self.clear();
                self.cho = Some(index);
            } else if self.cho.is_some() && self.jung.is_some() && self.jong.is_none() {
                if let Some(jong_idx) = Self::cho_to_jong(index) {
                    self.jong = Some(jong_idx);
                } else {
                    let c = self.get_composed_char();
                    string_push(buffer, c);
                    self.clear();
                    self.cho = Some(index);
                }
            } else if self.cho.is_some() && self.jung.is_some() && self.jong.is_some() {
                let current_jong = self.jong.unwrap();
                if let Some(jong_idx) = Self::cho_to_jong(index) {
                    if let Some(combined) = Self::combine_consonants(current_jong, jong_idx) {
                        self.jong = Some(combined);
                    } else {
                        let c = self.get_composed_char();
                        string_push(buffer, c);
                        self.clear();
                        self.cho = Some(index);
                    }
                } else {
                    let c = self.get_composed_char();
                    string_push(buffer, c);
                    self.clear();
                    self.cho = Some(index);
                }
            } else {
                let c = self.get_composed_char();
                string_push(buffer, c);
                self.clear();
                self.cho = Some(index);
            }
        }
        assert(self.composition() == step.0);
        assert(buffer@ =~= base + step.1);

        if self.is_composing() {
            let c = self.get_composed_char();
            string_push(buffer, c);
        }
        assert(buffer@ =~= base + step.1 + preedit(step.0));
        true
    }

    /// The jamo a QWERTY key gives in the two-set layout.
    fn map_qwerty_to_hangul(keycode: Key, is_shift: bool) -> (res: Option<(bool, u32)>)
        ensures
            res == spec_map_key(keycode, is_shift),
    {
        match keycode {
            Key::R => Some((false, if is_shift { 1 } else { 0 })),
            Key::S => Some((false, 2)),
            Key::E => Some((false, if is_shift { 4 } else { 3 })),
            Key::F => Some((false, 5)),
            Key::A => Some((false, 6)),
            Key::Q => Some((false, if is_shift { 8 } else { 7 })),
            Key::T => Some((false, if is_shift { 10 } else { 9 })),
            Key::D => Some((false, 11)),
            Key::W => Some((false, if is_shift { 13 } else { 12 })),
            Key::C => Some((false, 14)),
            Key::Z => Some((false, 15)),
            Key::X => Some((false, 16)),
            Key::V => Some((false, 17)),
            Key::G => Some((false, 18)),
            Key::K => Some((true, 0)),
            Key::O => Some((true, if is_shift { 3 } else { 1 })),
            Key::I => Some((true, 2)),
            Key::J => Some((true, 4)),
            Key::P => Some((true, if is_shift { 7 } else { 5 })),
            Key::U => Some((true, 6)),
            Key::H => Some((true, 8)),
            Key::Y => Some((true, 12)),
            Key::N => Some((true, 13)),
            Key::B => Some((true, 17)),
            Key::M => Some((true, 18)),
            Key::L => Some((true, 20)),
            _ => None,
        }
    }

    /// The compound vowel two vowels make, if any.
    pub fn combine_vowels(v1: u32, v2: u32) -> (res: Option<u32>)
        ensures
            res == spec_combine_vowels(v1, v2),
    {
        match (v1, v2) {
            (8, 0) => Some(9),
            (8, 1) => Some(10),
            (8, 20) => Some(11),
            (13, 4) => Some(14),
            (13, 5) => Some(15),
            (13, 20) => Some(16),
            (18, 20) => Some(19),
            _ => None,
        }
    }

    /// The compound final two finals make, if any; it splits back into
    /// them (`split_complex_jong`).
    pub fn combine_consonants(c1: u32, c2: u32) -> (res: Option<u32>)
        ensures
            res == spec_combine_consonants(c1, c2),
            res matches Some(j) ==> spec_jong_to_cho(c2) is Some && spec_split_complex_jong(j) == (
                Some(c1),
                spec_jong_to_cho(c2).unwrap(),
            ),
    {
        match (c1, c2) {
            (1, 19) => Some(3),
            (4, 22) => Some(5),
            (4, 27) => Some(6),
            (8, 1) => Some(9),
            (8, 16) => Some(10),
            (8, 17) => Some(11),
            (8, 19) => Some(12),
            (8, 25) => Some(13),
            (8, 26) => Some(14),
            (8, 27) => Some(15),
            (17, 19) => Some(18),
            _ => None,
        }
    }

    /// The final slot of an initial consonant; `ㄸ`, `ㅃ`, `ㅉ` and
    /// indices beyond the nineteen initials have none. It is undone by
    /// `jong_to_cho`, and a single final moves whole to the next syllable
    /// (`split_complex_jong`).
    pub fn cho_to_jong(cho: u32) -> (res: Option<u32>)
        ensures
            res == spec_cho_to_jong(cho),
            res is None <==> (cho == 4 || cho == 8 || cho == 13 || cho >= 19),
            res matches Some(j) ==> spec_jong_to_cho(j) == Some(cho) && spec_split_complex_jong(j)
                == (None::<u32>, cho),
    {
        match cho {
            0 => Some(1),
            1 => Some(2),
            2 => Some(4),
            3 => Some(7),
            5 => Some(8),
            6 => Some(16),
            7 => Some(17),
            9 => Some(19),
            10 => Some(20),
            11 => Some(21),
            12 => Some(22),
            14 => Some(23),
            15 => Some(24),
            16 => Some(25),
            17 => Some(26),
            18 => Some(27),
            _ => None,
        }
    }

    /// The initial consonant of a simple final; exactly the inverse of
    /// `cho_to_jong`.
    pub fn jong_to_cho(jong: u32) -> (res: Option<u32>)
        ensures
            res == spec_jong_to_cho(jong),
            forall|c: u32| res == Some(c) <==> spec_cho_to_jong(c) == Some(jong),
    {
        match jong {
            1 => Some(0),
            2 => Some(1),
            4 => Some(2),
            7 => Some(3),
            8 => Some(5),
            16 => Some(6),
            17 => Some(7),
            19 => Some(9),
            20 => Some(10),
            21 => Some(11),
            22 => Some(12),
            23 => Some(14),
            24 => Some(15),
            25 => Some(16),
            26 => Some(17),
            27 => Some(18),
            _ => None,
        }
    }

    /// How a final splits when a vowel follows; see
    /// `spec_split_complex_jong`.
    pub fn split_complex_jong(jong: u32) -> (res: (Option<u32>, u32))
        ensures
            res == spec_split_complex_jong(jong),
    {
        match jong {
            3 => (Some(1), 9),
            5 => (Some(4), 12),
            6 => (Some(4), 18),
            9 => (Some(8), 0),
            10 => (Some(8), 6),
            11 => (Some(8), 7),
            12 => (Some(8), 9),
            13 => (Some(8), 16),
            14 => (Some(8), 17),
            15 => (Some(8), 18),
            18 => (Some(17), 9),
            _ => (None, Self::jong_to_cho(jong).unwrap_or(0)),
        }
    }
}

/// The compatibility jamo of an initial consonant.
fn cho_map(i: u32) -> (res: char)
    requires
        i < 19,
    ensures
        res == cho_jamo(i),
{
    match i {
        0 => 'ㄱ',
        1 => 'ㄲ',
        2 => 'ㄴ',
        3 => 'ㄷ',
        4 => 'ㄸ',
        5 => 'ㄹ',
        6 => 'ㅁ',
        7 => 'ㅂ',
        8 => 'ㅃ',
        9 => 'ㅅ',
        10 => 'ㅆ',
        11 => 'ㅇ',
        12 => 'ㅈ',
        13 => 'ㅉ',
        14 => 'ㅊ',
        15 => 'ㅋ',
        16 => 'ㅌ',
        17 => 'ㅍ',
        _ => 'ㅎ',
    }
}

/// The compatibility jamo of a vowel.
fn jung_map(i: u32) -> (res: char)
    requires
        i < 21,
    ensures
        res == jung_jamo(i),
{
    match i {
        0 => 'ㅏ',
        1 => 'ㅐ',
        2 => 'ㅑ',
        3 => 'ㅒ',
        4 => 'ㅓ',
        5 => 'ㅔ',
        6 => 'ㅕ',
        7 => 'ㅖ',
        8 => 'ㅗ',
        9 => 'ㅘ',
        10 => 'ㅙ',
        11 => 'ㅚ',
        12 => 'ㅛ',
        13 => 'ㅜ',
        14 => 'ㅝ',
        15 => 'ㅞ',
        16 => 'ㅟ',
        17 => 'ㅠ',
        18 => 'ㅡ',
        19 => 'ㅢ',
        _ => 'ㅣ',
    }
}

/// An initial consonant that can close a syllable comes back unchanged when
/// its final is moved to the next syllable, and the other way round: the
/// two tables are inverse of each other. Only `ㄸ`, `ㅃ`, `ㅉ` and indices
/// beyond the nineteen initials have no final.
pub proof fn lemma_cho_jong_round_trip(cho: u32, jong: u32)
    ensures
        spec_cho_to_jong(cho) == Some(jong) <==> spec_jong_to_cho(jong) == Some(cho),
        spec_cho_to_jong(cho) is None <==> (cho == 4 || cho == 8 || cho == 13 || cho >= 19),
{
}

/// Splitting a compound final gives back the two consonants it was built
/// from: the first stays as final, the second becomes the next initial. A
/// simple final moves whole, as the initial it came from.
pub proof fn lemma_split_undoes_combine(first: u32, second: u32, cho: u32)
    ensures
        spec_combine_consonants(first, second) matches Some(compound) ==> ({
            &&& spec_jong_to_cho(second).is_some()
            &&& spec_split_complex_jong(compound) == (
                Some(first),
                spec_jong_to_cho(second).unwrap(),
            )
        }),
        spec_cho_to_jong(cho) matches Some(j) ==> spec_split_complex_jong(j) == (None::<u32>, cho),
{
}

/// Every syllable the composer builds lies in the Hangul syllables block
/// (U+AC00 to U+D7A3) and decomposes back into its three indices.
pub proof fn lemma_syllable_decomposes(cho: u32, jung: u32, jong: u32)
    requires
        cho < 19,
        jung < 21,
        jong < 28,
    ensures
        0xAC00 <= syllable_code(cho, jung, jong) <= 0xD7A3,
        (syllable_code(cho, jung, jong) - 0xAC00) / 588 == cho,
        (syllable_code(cho, jung, jong) - 0xAC00) % 588 / 28 == jung,
        (syllable_code(cho, jung, jong) - 0xAC00) % 28 == jong,
{
    let off = cho * 588 + jung * 28 + jong;
    assert(syllable_code(cho, jung, jong) - 0xAC00 == off);
    assert(0 <= off <= 18 * 588 + 20 * 28 + 27 && off / 588 == cho && off % 588 == jung * 28
        + jong && (jung * 28 + jong) / 28 == jung && off % 28 == jong) by (nonlinear_arith)
        requires
            off == cho * 588 + jung * 28 + jong,
            cho < 19,
            jung < 21,
            jong < 28,
    ;
}

/// Backspace right after the first jamo of a syllable undoes it: the
/// composition is empty again and the buffer is back to what it was.
pub proof fn lemma_first_jamo_then_backspace(buffer: Seq<char>, is_vowel: bool, index: u32)
    ensures
        ({
            let (next, committed) = key_step(empty_composition(), is_vowel, index);
            let typed = without_preedit(buffer, empty_composition()) + committed + preedit(next);
            &&& committed == Seq::<char>::empty()
            &&& backspace_step(next) == empty_composition()
            &&& drop_last_or_empty(typed) + preedit(backspace_step(next)) == buffer
        }),
{
    let (next, committed) = key_step(empty_composition(), is_vowel, index);
    let typed = without_preedit(buffer, empty_composition()) + committed + preedit(next);
    assert(drop_last_or_empty(typed) =~= buffer);
    assert(preedit(backspace_step(next)) =~= Seq::<char>::empty());
    assert(drop_last_or_empty(typed) + preedit(backspace_step(next)) =~= buffer);
}

/// Every key keeps the composer's indices in range.
pub proof fn lemma_key_step_keeps_wf(c: Composition, key: Key, is_shift: bool)
    requires
        composition_wf(c),
    ensures
        spec_map_key(key, is_shift) matches Some((is_vowel, index)) ==> composition_wf(
            key_step(c, is_vowel, index).0,
        ),
        composition_wf(backspace_step(c)),
{
}

/// The compound vowels of the two-set layout, by their jamo:
/// ㅗ+ㅏ=ㅘ, ㅗ+ㅐ=ㅙ, ㅗ+ㅣ=ㅚ, ㅜ+ㅓ=ㅝ, ㅜ+ㅔ=ㅞ, ㅜ+ㅣ=ㅟ, ㅡ+ㅣ=ㅢ.
pub open spec fn compound_vowel(x: char, y: char) -> Option<char> {
    if x == 'ㅗ' && y == 'ㅏ' { Some('ㅘ') }
    else if x == 'ㅗ' && y == 'ㅐ' { Some('ㅙ') }
    else if x == 'ㅗ' && y == 'ㅣ' { Some('ㅚ') }
    else if x == 'ㅜ' && y == 'ㅓ' { Some('ㅝ') }
    else if x == 'ㅜ' && y == 'ㅔ' { Some('ㅞ') }
    else if x == 'ㅜ' && y == 'ㅣ' { Some('ㅟ') }
    else if x == 'ㅡ' && y == 'ㅣ' { Some('ㅢ') }
    else { None }
}

/// Two vowels typed one after the other make exactly the compound vowels
/// of the two-set layout: the vowel the composer makes of the jamo of
/// `a` and `b` is their compound, and there is one exactly when the two
/// jamo have a compound.
pub proof fn lemma_compound_vowels(a: u32, b: u32)
    requires
        a < 21,
        b < 21,
    ensures
        match spec_combine_vowels(a, b) {
            Some(c) => c < 21 && compound_vowel(jung_jamo(a), jung_jamo(b)) == Some(jung_jamo(c)),
            None => compound_vowel(jung_jamo(a), jung_jamo(b)) is None,
        },
{
}

} // verus!
