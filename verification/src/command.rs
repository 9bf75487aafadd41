//! Chat commands made only of clicked tokens: `@<n>분대` picks a squad,
//! `&<sector>` a place to move to, `#<sector>` a place to attack. Such
//! commands are carried out at once, without language analysis.

use vstd::prelude::*;
use crate::doctrine::OrderKind;
use crate::text::{
    char_from_u32, decimal_digits, digits_string, lemma_decimal_round_trip, chars_of, next_word, parse_usize_range, spec_parse_usize, string_of_range, strip_start_bound,
    strip_start, strip_suffixes, strip_suffixes_bound, words_from,
};

verus! {

/// The first characters of the tokens of a direct command.
pub open spec fn is_command_tag(c: char) -> bool {
    c == '@' || c == '&' || c == '#'
}

/// The suffix that follows a squad number.
pub open spec fn squad_suffix() -> Seq<char> {
    seq!['분', '대']
}

/// The squad number text of a `@` token: the token without its leading
/// `@` and its trailing `분대` markers.
pub open spec fn squad_text(word: Seq<char>) -> Seq<char> {
    strip_suffixes(strip_start(word, Some('@')), squad_suffix())
}

/// Whether every word starts with a command tag.
pub open spec fn all_tagged(words: Seq<Seq<char>>) -> bool {
    forall|i: int| 0 <= i < words.len() ==> #[trigger] words[i].len() > 0 && is_command_tag(
        words[i][0],
    )
}

/// Whether a command is made only of clicked tokens (and of at least one).
pub open spec fn is_direct_command(command: Seq<char>) -> bool {
    words_from(command, 0).len() > 0 && all_tagged(words_from(command, 0))
}

/// The squads the `@` words pick, in order; words whose number does not
/// read are left out.
pub open spec fn squad_ids(words: Seq<Seq<char>>) -> Seq<usize>
    decreases words.len(),
{
    if words.len() == 0 {
        Seq::empty()
    } else {
        let w = words[0];
        let here = if w.len() > 0 && w[0] == '@' {
            match spec_parse_usize(squad_text(w)) {
                Some(n) => seq![n],
                None => Seq::empty(),
            }
        } else {
            Seq::empty()
        };
        here + squad_ids(words.drop_first())
    }
}

/// The sectors that the words tagged `tag` name, in order, each without
/// its leading tags.
pub open spec fn tagged_sectors(words: Seq<Seq<char>>, tag: char) -> Seq<Seq<char>>
    decreases words.len(),
{
    if words.len() == 0 {
        Seq::empty()
    } else {
        let w = words[0];
        let here = if w.len() > 0 && w[0] == tag {
            seq![strip_start(w, Some(tag))]
        } else {
            Seq::empty()
        };
        here + tagged_sectors(words.drop_first(), tag)
    }
}

/// The texts of a sequence of strings.
pub open spec fn string_views(v: Seq<String>) -> Seq<Seq<char>> {
    v.map_values(|s: String| s@)
}

/// The parts of a direct command.
pub struct DirectCommand {
    pub squads: Vec<usize>,
    pub move_sectors: Vec<String>,
    pub attack_sectors: Vec<String>,
}

proof fn lemma_words_step(s: Seq<char>, pos: int, a: int, b: int)
    requires
        0 <= pos <= s.len(),
        a == crate::text::skip_blanks(s, pos),
        a < s.len(),
        b == crate::text::word_end(s, a),
    ensures
        pos <= a < b <= s.len(),
        words_from(s, pos) == seq![s.subrange(a, b)] + words_from(s, b),
        words_from(s, pos).drop_first() == words_from(s, b),
        words_from(s, pos)[0] == s.subrange(a, b),
{
    crate::text::lemma_skip_blanks_bounds(s, pos);
    crate::text::lemma_word_end_bounds(s, a);
    assert((seq![s.subrange(a, b)] + words_from(s, b)).drop_first() =~= words_from(s, b));
}

/// Reads a command made only of clicked tokens; `None` when the command
/// is empty or holds a word that is no token.
pub fn parse_direct_command(command: &str) -> (res: Option<DirectCommand>)
    ensures
        res.is_some() == is_direct_command(command@),
        res matches Some(c) ==> ({
            &&& c.squads@ == squad_ids(words_from(command@, 0))
            &&& string_views(c.move_sectors@) == tagged_sectors(words_from(command@, 0), '&')
            &&& string_views(c.attack_sectors@) == tagged_sectors(words_from(command@, 0), '#')
        }),
{
    let v = chars_of(command);
    let n = v.len();
    let suffix: Vec<char> = vec!['분', '대'];
    assert(suffix@ =~= squad_suffix());
    let mut squads: Vec<usize> = Vec::new();
    let mut moves: Vec<String> = Vec::new();
    let mut attacks: Vec<String> = Vec::new();
    let ghost mut count: int = 0;
    let mut any = false;
    let mut pos: usize = 0;
    let ghost all = words_from(v@, 0);
    loop
        invariant
            pos <= n,
            n == v@.len(),
            v@ == command@,
            suffix@ == squad_suffix(),
            all == words_from(v@, 0),
            0 <= count <= all.len(),
            any == (count > 0),
            all.skip(count) == words_from(v@, pos as int),
            all_tagged(all.take(count)),
            squad_ids(all) == squads@ + squad_ids(words_from(v@, pos as int)),
            tagged_sectors(all, '&') == string_views(moves@) + tagged_sectors(
                words_from(v@, pos as int),
                '&',
            ),
            tagged_sectors(all, '#') == string_views(attacks@) + tagged_sectors(
                words_from(v@, pos as int),
                '#',
            ),
        decreases n - pos,
    {
        let (a, b) = next_word(&v, pos);
        if a >= n {
            assert(words_from(v@, pos as int) =~= Seq::<Seq<char>>::empty());
            assert(all.take(count) =~= all);
            if !any {
                return None;
            }
            return Some(DirectCommand { squads, move_sectors: moves, attack_sectors: attacks });
        }
        proof {
            lemma_words_step(v@, pos as int, a as int, b as int);
            assert(all.skip(count)[0] == all[count]);
            assert(all.skip(count).drop_first() =~= all.skip(count + 1));
        }
        let ghost w = v@.subrange(a as int, b as int);
        let ghost rest = words_from(v@, b as int);
        assert(w[0] == v@[a as int]);
        assert((seq![w] + rest)[0] == w);
        assert((seq![w] + rest).drop_first() =~= rest);
        let first = v[a];
        if first == '@' {
            let a2 = strip_start_bound(&v, a, b, Some('@'));
            let b2 = strip_suffixes_bound(&v, a2, b, &suffix);
            proof {
                assert(strip_start(w, Some('@')) == v@.subrange(a2 as int, b as int));
            }
            let parsed = parse_usize_range(&v, a2, b2);
            let ghost before = squads@;
            if let Some(id) = parsed {
                squads.push(id);
            }
            assert(squads@ + squad_ids(rest) =~= before + squad_ids(seq![w] + rest));
        } else if first == '&' {
            let a2 = strip_start_bound(&v, a, b, Some('&'));
            let ghost before = string_views(moves@);
            moves.push(string_of_range(&v, a2, b));
            assert(string_views(moves@) =~= before + seq![v@.subrange(a2 as int, b as int)]);
        } else if first == '#' {
            let a2 = strip_start_bound(&v, a, b, Some('#'));
            let ghost before = string_views(attacks@);
            attacks.push(string_of_range(&v, a2, b));
            assert(string_views(attacks@) =~= before + seq![v@.subrange(a2 as int, b as int)]);
        } else {
            assert(!all_tagged(all));
            return None;
        }
        assert(all.take(count + 1) =~= all.take(count).push(w));
        proof {
            count = count + 1;
        }
        any = true;
        pos = b;
    }
}

/// The row of a sector letter: `A` is the first row, `Z` the last.
pub open spec fn sector_row(c: char) -> Option<usize> {
    if 65 <= (c as u32) && (c as u32) <= 90 {
        Some(((c as u32) - 65) as usize)
    } else {
        None
    }
}

/// The `(row, column)` of a sector name such as `C12`: a row letter then a
/// column number. Names shorter than two characters name nothing.
pub open spec fn spec_parse_sector(sector: Seq<char>) -> Option<(usize, usize)> {
    if sector.len() < 2 {
        None
    } else {
        match (sector_row(sector[0]), spec_parse_usize(sector.drop_first())) {
            (Some(row), Some(col)) => Some((row, col)),
            _ => None,
        }
    }
}

/// Reads a sector name. Its first character must be ASCII: the name is cut
/// after its first byte.
pub fn parse_sector(sector: &str) -> (res: Option<(usize, usize)>)
    requires
        sector@.len() > 0 ==> (sector@[0] as u32) < 0x80,
    ensures
        res == spec_parse_sector(sector@),
{
    let v = chars_of(sector);
    if v.len() < 2 {
        return None;
    }
    let code = v[0] as u32;
    if code < 65 || code > 90 {
        return None;
    }
    let row = (code - 65) as usize;
    assert(v@.subrange(1, v@.len() as int) =~= v@.drop_first());
    match parse_usize_range(&v, 1, v.len()) {
        Some(col) => Some((row, col)),
        None => None,
    }
}


/// A grid index shifted into the sector table: negative values count as 0.
pub open spec fn clamp_index(v: int) -> nat {
    if v < 0 { 0 } else { v as nat }
}

/// The row letter of a row index; rows wrap around after `Z`.
pub open spec fn row_letter(row_idx: nat) -> char {
    (65 + row_idx % 26) as char
}

/// The name of the sector at grid row `row` and column `col` counted from
/// the map's reference cell: a letter for the row and a number for the
/// column, with the reference cell at `F6`.
pub open spec fn spec_sector_name(row: i32, col: i32) -> Seq<char> {
    seq![row_letter(clamp_index(row + 5))] + decimal_digits(clamp_index(col + 6))
}

/// Names the sector at grid row `row` and column `col`.
pub fn sector_name(row: i32, col: i32) -> (res: String)
    requires
        row + 5 <= i32::MAX,
        col + 6 <= i32::MAX,
    ensures
        res@ == spec_sector_name(row, col),
{
    let shifted_row = row + 5;
    let shifted_col = col + 6;
    let row_idx: u32 = if shifted_row < 0 { 0 } else { shifted_row as u32 };
    let col_idx: u64 = if shifted_col < 0 { 0 } else { shifted_col as u64 };
    let code = 65 + row_idx % 26;
    let letter = match char_from_u32(code) {
        Some(c) => c,
        None => '?',
    };
    let mut name = String::new();
    crate::text::string_push(&mut name, letter);
    name.append(digits_string(col_idx).as_str());
    name
}

/// A sector's name reads back as its place: the row wrapped into the
/// alphabet and the column, both counted from the reference cell and
/// never below zero.
pub proof fn lemma_sector_name_round_trip(row: i32, col: i32)
    ensures
        spec_parse_sector(spec_sector_name(row, col)) == Some(
            ((clamp_index(row + 5) % 26) as usize, clamp_index(col + 6) as usize),
        ),
        (spec_sector_name(row, col)[0] as u32) < 0x80,
{
    let name = spec_sector_name(row, col);
    let digits = decimal_digits(clamp_index(col + 6));
    lemma_decimal_round_trip(clamp_index(col + 6));
    assert(name.drop_first() =~= digits);
    assert(name[0] == row_letter(clamp_index(row + 5)));
    assert(((65 + clamp_index(row + 5) % 26) as char) as u32 == 65 + clamp_index(row + 5) % 26);
}

/// Whether squad `id` is one of `squads` on the player's side.
pub open spec fn on_player_side(squads: Seq<usize>, on_side: Seq<bool>, id: usize) -> bool {
    exists|i: int| 0 <= i < squads.len() && squads[i] == id && #[trigger] on_side[i]
}

/// The squads among the first `n` of `v` that are on the player's side.
pub open spec fn side_squads_upto(v: Seq<usize>, squads: Seq<usize>, on_side: Seq<bool>, n: int) -> Seq<
    usize,
>
    decreases n,
{
    if n <= 0 {
        Seq::empty()
    } else {
        side_squads_upto(v, squads, on_side, n - 1) + if on_player_side(squads, on_side, v[n - 1]) {
            seq![v[n - 1]]
        } else {
            Seq::empty()
        }
    }
}

/// The squads a direct command goes to: the squads it picks that are on
/// the player's side, in the order picked; when it picks none, every
/// squad of the player's side, in the order of `squads`.
pub open spec fn spec_direct_targets(picked: Seq<usize>, squads: Seq<usize>, on_side: Seq<bool>) -> Seq<
    usize,
> {
    if picked.len() == 0 {
        side_squads_upto(squads, squads, on_side, squads.len() as int)
    } else {
        side_squads_upto(picked, squads, on_side, picked.len() as int)
    }
}

/// Whether squad `id` is on the player's side, `squads` holding each
/// squad once.
fn squad_on_side(squads: &Vec<usize>, on_side: &Vec<bool>, id: usize) -> (res: bool)
    requires
        on_side@.len() == squads@.len(),
        squads@.no_duplicates(),
    ensures
        res == on_player_side(squads@, on_side@, id),
{
    let mut i: usize = 0;
    while i < squads.len()
        invariant
            i <= squads@.len(),
            on_side@.len() == squads@.len(),
            squads@.no_duplicates(),
            forall|k: int| 0 <= k < i ==> #[trigger] squads@[k] != id,
        decreases squads@.len() - i,
    {
        if squads[i] == id {
            proof {
                if on_player_side(squads@, on_side@, id) {
                    let k = choose|k: int|
                        0 <= k < squads@.len() && squads@[k] == id && #[trigger] on_side@[k];
                    assert(k == i);
                }
            }
            return on_side[i];
        }
        i = i + 1;
    }
    false
}

/// The squads a direct command that picked `picked` goes to, the squads
/// of the battle being `squads` (each once), of which `on_side` tells
/// those of the player's side. Every picked squad must be a squad of the
/// battle.
pub fn direct_targets(picked: &Vec<usize>, squads: &Vec<usize>, on_side: &Vec<bool>) -> (res:
    Vec<usize>)
    requires
        on_side@.len() == squads@.len(),
        squads@.no_duplicates(),
        forall|k: int| 0 <= k < picked@.len() ==> squads@.contains(#[trigger] picked@[k]),
    ensures
        res@ == spec_direct_targets(picked@, squads@, on_side@),
{
    let v: &Vec<usize> = if picked.len() == 0 {
        squads
    } else {
        picked
    };
    let mut res: Vec<usize> = Vec::new();
    let mut i: usize = 0;
    while i < v.len()
        invariant
            i <= v@.len(),
            on_side@.len() == squads@.len(),
            squads@.no_duplicates(),
            res@ == side_squads_upto(v@, squads@, on_side@, i as int),
        decreases v@.len() - i,
    {
        if squad_on_side(squads, on_side, v[i]) {
            res.push(v[i]);
        }
        i = i + 1;
    }
    res
}

/// The orders a direct command gives a squad leader, in the order they
/// are carried out: a run to the last move sector, if any; then, if an
/// attack sector is given, a crawl to the last one and a defence there.
pub open spec fn spec_direct_plan(has_move: bool, has_attack: bool) -> Seq<OrderKind> {
    (if has_move {
        seq![OrderKind::MoveFastTo]
    } else {
        Seq::empty()
    }) + (if has_attack {
        seq![OrderKind::SneakTo, OrderKind::Defend]
    } else {
        Seq::empty()
    })
}

/// The orders a direct command gives a squad leader.
pub fn direct_plan(has_move: bool, has_attack: bool) -> (res: Vec<OrderKind>)
    ensures
        res@ == spec_direct_plan(has_move, has_attack),
{
    let mut res: Vec<OrderKind> = Vec::new();
    if has_move {
        res.push(OrderKind::MoveFastTo);
    }
    if has_attack {
        res.push(OrderKind::SneakTo);
        res.push(OrderKind::Defend);
    }
    assert(res@ =~= spec_direct_plan(has_move, has_attack));
    res
}

} // verus!
