//! The language side of a spoken order: cutting it into sentences, the
//! rules by which the words of a sentence lose their endings and are
//! grouped into keywords once a morphological analyser has tagged them,
//! and which squads an order addresses.

use vstd::prelude::*;
use crate::text::{
    chars_of, decimal_digits, digits_string, prefix_at, str_eq, string_of_range, strip_bounds,
    trim, words_from,
};
use crate::llm::{find_first, occurs_at};
use vstd::string::StringExecFns;
use mecab_ko::Tokenizer;

verus! {

/// The characters that end a sentence.
pub open spec fn is_sentence_end(c: char) -> bool {
    c == '.' || c == '!' || c == '?'
}

/// Where the sentence that starts at `i` ends: the next sentence end, or
/// the end of the text.
pub open spec fn sentence_end(s: Seq<char>, i: int) -> int
    decreases s.len() - i,
{
    if i >= s.len() {
        s.len() as int
    } else if is_sentence_end(s[i]) {
        i
    } else {
        sentence_end(s, i + 1)
    }
}

/// The sentences of `s` from position `i`: the pieces between sentence
/// ends, without blanks at either end, empty pieces left out.
pub open spec fn sentences_from(s: Seq<char>, i: int) -> Seq<Seq<char>>
    decreases s.len() - i,
{
    if i < 0 || i > s.len() {
        Seq::empty()
    } else {
        let j = sentence_end(s, i);
        let t = trim(s.subrange(i, j));
        let here = if t.len() > 0 {
            seq![t]
        } else {
            Seq::empty()
        };
        if j < s.len() && j >= i {
            here + sentences_from(s, j + 1)
        } else {
            here
        }
    }
}

/// Where a sentence starting at `i` ends lies between `i` and the end of
/// the text, and nothing before it ends a sentence.
pub proof fn lemma_sentence_end_bounds(s: Seq<char>, i: int)
    requires
        0 <= i <= s.len(),
    ensures
        i <= sentence_end(s, i) <= s.len(),
        sentence_end(s, i) < s.len() ==> is_sentence_end(s[sentence_end(s, i)]),
        forall|k: int| i <= k < sentence_end(s, i) ==> !is_sentence_end(#[trigger] s[k]),
    decreases s.len() - i,
{
    if i < s.len() && !is_sentence_end(s[i]) {
        lemma_sentence_end_bounds(s, i + 1);
    }
}

/// The texts of a list of strings.
pub open spec fn texts(v: Seq<String>) -> Seq<Seq<char>> {
    v.map_values(|t: String| t@)
}

/// The sentences of `command`, in order: split at `.`, `!` and `?`,
/// trimmed, empty ones left out.
pub fn split_sentences(command: &str) -> (res: Vec<String>)
    ensures
        texts(res@) == sentences_from(command@, 0),
{
    let v = chars_of(command);
    let n = v.len();
    let mut res: Vec<String> = Vec::new();
    let mut i: usize = 0;
    assert(texts(res@) + sentences_from(v@, 0) =~= sentences_from(v@, 0));
    loop
        invariant
            i <= n,
            n == v@.len(),
            v@ == command@,
            texts(res@) + sentences_from(v@, i as int) == sentences_from(v@, 0),
        decreases n - i,
    {
        let mut j: usize = i;
        while j < n && !(v[j] == '.' || v[j] == '!' || v[j] == '?')
            invariant
                i <= j <= n,
                n == v@.len(),
                sentence_end(v@, i as int) == sentence_end(v@, j as int),
            decreases n - j,
        {
            j = j + 1;
        }
        let (a, b) = strip_bounds(&v, i, j, None);
        let ghost before = res@;
        if a < b {
            let t = string_of_range(&v, a, b);
            res.push(t);
            assert(texts(res@) =~= texts(before).push(t@));
        } else {
            assert(texts(res@) =~= texts(before));
        }
        if j >= n {
            assert(sentences_from(v@, i as int) == (if trim(v@.subrange(i as int, j as int)).len()
                > 0 {
                seq![trim(v@.subrange(i as int, j as int))]
            } else {
                Seq::<Seq<char>>::empty()
            }));
            if a < b {
                assert(texts(res@) =~= texts(before) + sentences_from(v@, i as int));
            } else {
                assert(texts(res@) =~= texts(before) + sentences_from(v@, i as int));
            }
            assert(texts(res@) == sentences_from(v@, 0));
            return res;
        }
        assert(texts(res@) + sentences_from(v@, j + 1) =~= texts(before) + sentences_from(
            v@,
            i as int,
        ));
        i = j + 1;
    }
}

/// Whether `prefix` begins `text`.
pub fn starts_with(text: &str, prefix: &str) -> (res: bool)
    ensures
        res == prefix@.is_prefix_of(text@),
{
    let t = chars_of(text);
    let p = chars_of(prefix);
    let r = prefix_at(&t, 0, t.len(), &p);
    assert(t@.subrange(0, t@.len() as int) =~= t@);
    r
}

/// Whether a part-of-speech tag marks an ending to take off a word: a
/// particle (`J`), an ending (`E`), an affix (`X`) or a symbol (`S`) other
/// than a number (`SN`).
pub open spec fn is_ending_tag(pos: Seq<char>) -> bool {
    pos.len() > 0 && (pos[0] == 'J' || pos[0] == 'E' || pos[0] == 'X' || (pos[0] == 'S' && pos
        != "SN"@))
}

/// Whether `pos` marks an ending.
pub fn ending_tag(pos: &str) -> (res: bool)
    ensures
        res == is_ending_tag(pos@),
{
    let v = chars_of(pos);
    if v.len() == 0 {
        return false;
    }
    let c = v[0];
    c == 'J' || c == 'E' || c == 'X' || (c == 'S' && !str_eq(pos, "SN"))
}

/// Whether a part-of-speech tag marks a verb, an adjective or an adverb,
/// whose last letter may be a stray ending.
pub open spec fn is_predicate_tag(pos: Seq<char>) -> bool {
    "VV"@.is_prefix_of(pos) || "VA"@.is_prefix_of(pos) || "MAG"@.is_prefix_of(pos)
}

/// Whether `pos` marks a verb, an adjective or an adverb.
pub fn predicate_tag(pos: &str) -> (res: bool)
    ensures
        res == is_predicate_tag(pos@),
{
    starts_with(pos, "VV") || starts_with(pos, "VA") || starts_with(pos, "MAG")
}

/// Whether a part-of-speech tag marks a noun or a root, which a word cut
/// short may turn out to be.
pub open spec fn is_stem_tag(pos: Seq<char>) -> bool {
    "NN"@.is_prefix_of(pos) || "XR"@.is_prefix_of(pos)
}

/// Whether `pos` marks a noun or a root.
pub fn stem_tag(pos: &str) -> (res: bool)
    ensures
        res == is_stem_tag(pos@),
{
    starts_with(pos, "NN") || starts_with(pos, "XR")
}

/// Whether a part-of-speech tag marks a word that carries meaning:
/// nouns, pronouns, numerals, determiners, verbs, adjectives, auxiliary
/// verbs, adverbs, roots, numbers and foreign words.
pub open spec fn is_meaning_tag(pos: Seq<char>) -> bool {
    "NN"@.is_prefix_of(pos) || "NP"@.is_prefix_of(pos) || "NR"@.is_prefix_of(pos)
        || "MM"@.is_prefix_of(pos) || "VV"@.is_prefix_of(pos) || "VA"@.is_prefix_of(pos)
        || "VX"@.is_prefix_of(pos) || "MAG"@.is_prefix_of(pos) || "XR"@.is_prefix_of(pos)
        || "SN"@.is_prefix_of(pos) || "SL"@.is_prefix_of(pos)
}

/// Whether `c` is alphabetic or numeric, as Unicode classifies it.
pub uninterp spec fn is_alphanumeric_char(c: char) -> bool;

/// `char::is_alphanumeric`: whether `c` is alphabetic or numeric by the
/// Unicode tables; the tables are not written out here, the result is
/// named.
#[verifier::external_body]
fn char_is_alphanumeric(c: char) -> (res: bool)
    ensures
        res == is_alphanumeric_char(c),
{
    c.is_alphanumeric()
}

/// Whether a token, of text `text` tagged `pos`, belongs to a keyword:
/// its tag carries meaning, or it holds a letter or a digit.
pub open spec fn is_keyword_token(text: Seq<char>, pos: Seq<char>) -> bool {
    is_meaning_tag(pos) || exists|i: int| 0 <= i < text.len() && is_alphanumeric_char(
        #[trigger] text[i],
    )
}

/// Whether a token belongs to a keyword.
pub fn keyword_token(text: &str, pos: &str) -> (res: bool)
    ensures
        res == is_keyword_token(text@, pos@),
{
    if starts_with(pos, "NN") || starts_with(pos, "NP") || starts_with(pos, "NR") || starts_with(
        pos,
        "MM",
    ) || starts_with(pos, "VV") || starts_with(pos, "VA") || starts_with(pos, "VX")
        || starts_with(pos, "MAG") || starts_with(pos, "XR") || starts_with(pos, "SN")
        || starts_with(pos, "SL") {
        return true;
    }
    let v = chars_of(text);
    let mut i: usize = 0;
    while i < v.len()
        invariant
            i <= v@.len(),
            v@ == text@,
            forall|k: int| 0 <= k < i ==> !is_alphanumeric_char(#[trigger] v@[k]),
        decreases v@.len() - i,
    {
        if char_is_alphanumeric(v[i]) {
            return true;
        }
        i = i + 1;
    }
    false
}

/// The keywords of a word whose tokens are `tokens` (text and tag), given
/// the keyword being built `cur`: the runs of keyword tokens, each run's
/// texts joined; empty runs give nothing.
pub open spec fn keyword_runs(tokens: Seq<(Seq<char>, Seq<char>)>, cur: Seq<char>) -> Seq<
    Seq<char>,
>
    decreases tokens.len(),
{
    if tokens.len() == 0 {
        if cur.len() > 0 {
            seq![cur]
        } else {
            Seq::empty()
        }
    } else if is_keyword_token(tokens[0].0, tokens[0].1) {
        keyword_runs(tokens.drop_first(), cur + tokens[0].0)
    } else {
        (if cur.len() > 0 {
            seq![cur]
        } else {
            Seq::empty()
        }) + keyword_runs(tokens.drop_first(), Seq::empty())
    }
}

/// The texts and tags of a list of tokens.
pub open spec fn token_texts(v: Seq<(String, String)>) -> Seq<(Seq<char>, Seq<char>)> {
    v.map_values(|t: (String, String)| (t.0@, t.1@))
}

/// The keywords of a word from its tokens (text and tag), in order.
pub fn keywords_of(tokens: &Vec<(String, String)>) -> (res: Vec<String>)
    ensures
        texts(res@) == keyword_runs(token_texts(tokens@), Seq::empty()),
{
    let ghost all = token_texts(tokens@);
    let mut res: Vec<String> = Vec::new();
    let mut cur = String::new();
    let mut i: usize = 0;
    assert(all.skip(0) =~= all);
    while i < tokens.len()
        invariant
            i <= tokens@.len(),
            all == token_texts(tokens@),
            texts(res@) + keyword_runs(all.skip(i as int), cur@) == keyword_runs(all, Seq::empty()),
        decreases tokens@.len() - i,
    {
        let text = tokens[i].0.as_str();
        let pos = tokens[i].1.as_str();
        assert(all.skip(i as int)[0] == (tokens@[i as int].0@, tokens@[i as int].1@));
        assert(all.skip(i as int).drop_first() =~= all.skip(i + 1));
        if keyword_token(text, pos) {
            cur = cur.concat(text);
        } else {
            let ghost before = res@;
            if !cur.as_str().is_empty() {
                res.push(cur);
                assert(texts(res@) =~= texts(before).push(cur@));
                cur = String::new();
                assert(texts(res@) + keyword_runs(all.skip(i + 1), cur@) =~= texts(before) + (
                seq![res@.last()@] + keyword_runs(all.skip(i + 1), Seq::empty())));
            } else {
                assert(cur@.len() == 0);
                cur = String::new();
                assert(texts(res@) + keyword_runs(all.skip(i + 1), cur@) =~= texts(before) + (
                Seq::<Seq<char>>::empty() + keyword_runs(all.skip(i + 1), Seq::empty())));
            }
        }
        i = i + 1;
    }
    assert(all.skip(i as int) =~= Seq::<(Seq<char>, Seq<char>)>::empty());
    let ghost before = res@;
    if !cur.as_str().is_empty() {
        res.push(cur);
        assert(texts(res@) =~= texts(before).push(res@.last()@));
    }
    res
}

/// `word` without the ending `text` that the analyser tagged `pos` at
/// its end, when `pos` marks an ending, the word ends with `text` and is
/// longer than it.
pub open spec fn spec_strip_ending(word: Seq<char>, text: Seq<char>, pos: Seq<char>) -> Option<
    Seq<char>,
> {
    if is_ending_tag(pos) && word.len() > text.len() && word.subrange(
        word.len() - text.len(),
        word.len() as int,
    ) == text {
        Some(word.subrange(0, word.len() - text.len()))
    } else {
        None
    }
}

/// Takes the ending off a word, if its last token is one.
pub fn strip_ending(word: &str, text: &str, pos: &str) -> (res: Option<String>)
    ensures
        match res {
            Some(r) => spec_strip_ending(word@, text@, pos@) == Some(r@),
            None => spec_strip_ending(word@, text@, pos@) is None,
        },
{
    if !ending_tag(pos) {
        return None;
    }
    let w = chars_of(word);
    let t = chars_of(text);
    if w.len() <= t.len() {
        return None;
    }
    let start = w.len() - t.len();
    assert(w@.len() == w.len());
    let mut k: usize = 0;
    while k < t.len()
        invariant
            k <= t@.len(),
            w@ == word@,
            t@ == text@,
            is_ending_tag(pos@),
            w@.len() > t@.len(),
            start + t@.len() == w@.len(),
            w@.len() <= usize::MAX,
            forall|j: int| 0 <= j < k ==> w@[start + j] == t@[j],
        decreases t@.len() - k,
    {
        if w[start + k] != t[k] {
            assert(w@.subrange(start as int, w@.len() as int)[k as int] != t@[k as int]);
            return None;
        }
        k = k + 1;
    }
    assert(w@.subrange(start as int, w@.len() as int) =~= t@);
    Some(string_of_range(&w, 0, start))
}

/// `word` without its last letter, when its last token is a verb, an
/// adjective or an adverb and it has more than one letter.
pub open spec fn spec_cut_last_letter(word: Seq<char>, pos: Seq<char>) -> Option<Seq<char>> {
    if is_predicate_tag(pos) && word.len() > 1 {
        Some(word.drop_last())
    } else {
        None
    }
}

/// Cuts the last letter off a word, to try it as a noun or a root.
pub fn cut_last_letter(word: &str, pos: &str) -> (res: Option<String>)
    ensures
        match res {
            Some(r) => spec_cut_last_letter(word@, pos@) == Some(r@),
            None => spec_cut_last_letter(word@, pos@) is None,
        },
{
    if !predicate_tag(pos) {
        return None;
    }
    let w = chars_of(word);
    if w.len() <= 1 {
        return None;
    }
    let r = string_of_range(&w, 0, w.len() - 1);
    assert(w@.subrange(0, w@.len() - 1) =~= w@.drop_last());
    Some(r)
}

/// The keyword that names squad `id`: its number then `분대`.
pub open spec fn squad_keyword_text(id: nat) -> Seq<char> {
    decimal_digits(id) + "분대"@
}

/// The tag that picks squad `id` in a typed order: `@`, its number, then
/// `분대`.
pub open spec fn squad_tag_text(id: nat) -> Seq<char> {
    "@"@ + squad_keyword_text(id)
}

/// Whether an order whose keywords are `keywords` and whose text is
/// `command` names squad `id`.
pub open spec fn is_mentioned(id: nat, keywords: Seq<Seq<char>>, command: Seq<char>) -> bool {
    keywords.contains(squad_keyword_text(id)) || exists|i: int|
        occurs_at(command, squad_tag_text(id), i)
}

/// The squads among the first `n` of `squads` that an order goes to:
/// those of the player's side (`on_side`) that it names, or all of them
/// when it names no squad at all (`named_any` false).
pub open spec fn addressed_upto(
    squads: Seq<usize>,
    on_side: Seq<bool>,
    keywords: Seq<Seq<char>>,
    command: Seq<char>,
    named_any: bool,
    n: int,
) -> Seq<usize>
    decreases n,
{
    if n <= 0 {
        Seq::empty()
    } else {
        addressed_upto(squads, on_side, keywords, command, named_any, n - 1) + if on_side[n - 1]
            && (!named_any || is_mentioned(squads[n - 1] as nat, keywords, command)) {
            seq![squads[n - 1]]
        } else {
            Seq::empty()
        }
    }
}

/// The squads an order goes to, in order: those of the player's side it
/// names, or, when it names none of the squads, every squad of the
/// player's side.
pub open spec fn spec_addressed(
    squads: Seq<usize>,
    on_side: Seq<bool>,
    keywords: Seq<Seq<char>>,
    command: Seq<char>,
) -> Seq<usize> {
    let named_any = exists|i: int|
        0 <= i < squads.len() && is_mentioned(#[trigger] squads[i] as nat, keywords, command);
    addressed_upto(squads, on_side, keywords, command, named_any, squads.len() as int)
}

/// Whether the order names squad `id`.
fn mentions(id: usize, keywords: &Vec<String>, command: &Vec<char>) -> (res: bool)
    ensures
        res == is_mentioned(id as nat, texts(keywords@), command@),
{
    let key = digits_string(id as u64).concat("분대");
    let mut i: usize = 0;
    while i < keywords.len()
        invariant
            i <= keywords@.len(),
            key@ == squad_keyword_text(id as nat),
            forall|k: int| 0 <= k < i ==> (#[trigger] keywords@[k])@ != key@,
        decreases keywords@.len() - i,
    {
        if str_eq(keywords[i].as_str(), key.as_str()) {
            assert(texts(keywords@)[i as int] == key@);
            return true;
        }
        i = i + 1;
    }
    assert(!texts(keywords@).contains(key@)) by {
        if texts(keywords@).contains(key@) {
            let k = choose|k: int| 0 <= k < texts(keywords@).len() && texts(keywords@)[k] == key@;
            assert(keywords@[k]@ == key@);
        }
    }
    let tag = "@".to_owned().concat(key.as_str());
    let tag_chars = chars_of(tag.as_str());
    assert(tag_chars@ == squad_tag_text(id as nat));
    match find_first(command, &tag_chars) {
        Some(i) => {
            assert(occurs_at(command@, squad_tag_text(id as nat), i as int));
            true
        },
        None => {
            assert(!exists|i: int| occurs_at(command@, squad_tag_text(id as nat), i));
            false
        },
    }
}

/// The squads an order goes to, among `squads`, of which `on_side` tells
/// those of the player's side, from the order's keywords and text.
pub fn addressed_squads(
    squads: &Vec<usize>,
    on_side: &Vec<bool>,
    keywords: &Vec<String>,
    command: &str,
) -> (res: Vec<usize>)
    requires
        on_side@.len() == squads@.len(),
    ensures
        res@ == spec_addressed(squads@, on_side@, texts(keywords@), command@),
{
    let cmd = chars_of(command);
    let n = squads.len();
    let mut named: Vec<bool> = Vec::new();
    let mut named_any = false;
    let mut i: usize = 0;
    while i < n
        invariant
            i <= n,
            n == squads@.len(),
            cmd@ == command@,
            named@.len() == i,
            forall|k: int|
                0 <= k < i ==> #[trigger] named@[k] == is_mentioned(
                    squads@[k] as nat,
                    texts(keywords@),
                    command@,
                ),
            named_any == exists|k: int|
                0 <= k < i && is_mentioned(#[trigger] squads@[k] as nat, texts(keywords@), command@),
        decreases n - i,
    {
        let m = mentions(squads[i], keywords, &cmd);
        named.push(m);
        if m {
            named_any = true;
        }
        i = i + 1;
    }
    let mut res: Vec<usize> = Vec::new();
    let mut j: usize = 0;
    while j < n
        invariant
            j <= n,
            n == squads@.len(),
            on_side@.len() == n,
            named@.len() == n,
            forall|k: int|
                0 <= k < n ==> #[trigger] named@[k] == is_mentioned(
                    squads@[k] as nat,
                    texts(keywords@),
                    command@,
                ),
            named_any == exists|k: int|
                0 <= k < n && is_mentioned(#[trigger] squads@[k] as nat, texts(keywords@), command@),
            res@ == addressed_upto(
                squads@,
                on_side@,
                texts(keywords@),
                command@,
                named_any,
                j as int,
            ),
        decreases n - j,
    {
        if on_side[j] && (!named_any || named[j]) {
            res.push(squads[j]);
        }
        j = j + 1;
    }
    res
}

/// Taking a non-empty ending or a last letter off a word leaves a
/// shorter word that the taken part completes, so that cutting a word
/// down always comes to an end.
pub proof fn lemma_cuts_shorten(word: Seq<char>, text: Seq<char>, pos: Seq<char>)
    ensures
        spec_strip_ending(word, text, pos) matches Some(r) ==> r + text == word && (text.len() > 0
            ==> r.len() < word.len()),
        spec_cut_last_letter(word, pos) matches Some(r) ==> r.len() + 1 == word.len()
            && r.is_prefix_of(word),
{
    if let Some(r) = spec_strip_ending(word, text, pos) {
        let m = word.len() - text.len();
        assert(word.subrange(0, m) + word.subrange(m, word.len() as int) =~= word);
    }
}

/// Whether `x` is one of the first `n` squads, on the player's side,
/// and named by the order when the order names any squad.
pub open spec fn is_recipient(
    squads: Seq<usize>,
    on_side: Seq<bool>,
    keywords: Seq<Seq<char>>,
    command: Seq<char>,
    named_any: bool,
    n: int,
    x: usize,
) -> bool {
    exists|i: int|
        0 <= i < n && on_side[i] && #[trigger] squads[i] == x && (named_any ==> is_mentioned(
            squads[i] as nat,
            keywords,
            command,
        ))
}

/// An order goes only to squads of the player's side, and, when it names
/// some squad, only to squads it names; when it names none, it goes to
/// every squad of the player's side.
pub proof fn lemma_addressing(
    squads: Seq<usize>,
    on_side: Seq<bool>,
    keywords: Seq<Seq<char>>,
    command: Seq<char>,
    named_any: bool,
    n: int,
)
    requires
        on_side.len() == squads.len(),
        0 <= n <= squads.len(),
    ensures
        forall|k: int|
            0 <= k < addressed_upto(squads, on_side, keywords, command, named_any, n).len()
                ==> is_recipient(
                squads,
                on_side,
                keywords,
                command,
                named_any,
                n,
                #[trigger] addressed_upto(squads, on_side, keywords, command, named_any, n)[k],
            ),
        !named_any ==> forall|i: int|
            0 <= i < n && on_side[i] ==> addressed_upto(
                squads,
                on_side,
                keywords,
                command,
                named_any,
                n,
            ).contains(#[trigger] squads[i]),
    decreases n,
{
    if n > 0 {
        lemma_addressing(squads, on_side, keywords, command, named_any, n - 1);
        let prev = addressed_upto(squads, on_side, keywords, command, named_any, n - 1);
        let cur = addressed_upto(squads, on_side, keywords, command, named_any, n);
        assert forall|k: int| 0 <= k < cur.len() implies is_recipient(
            squads,
            on_side,
            keywords,
            command,
            named_any,
            n,
            #[trigger] cur[k],
        ) by {
            if k < prev.len() {
                assert(cur[k] == prev[k]);
                assert(is_recipient(squads, on_side, keywords, command, named_any, n - 1, prev[k]));
                let i = choose|i: int|
                    0 <= i < n - 1 && on_side[i] && #[trigger] squads[i] == prev[k] && (named_any
                        ==> is_mentioned(squads[i] as nat, keywords, command));
                assert(squads[i] == cur[k]);
            } else {
                assert(cur[k] == squads[n - 1]);
                assert(squads[n - 1] == cur[k]);
            }
        }
        if !named_any {
            assert forall|i: int| 0 <= i < n && on_side[i] implies cur.contains(
                #[trigger] squads[i],
            ) by {
                if i < n - 1 {
                    assert(prev.contains(squads[i]));
                    let k = choose|k: int| 0 <= k < prev.len() && prev[k] == squads[i];
                    assert(cur[k] == prev[k]);
                } else {
                    assert(cur[cur.len() - 1] == squads[i]);
                }
            }
        }
    }
}

/// The morphological analyser of Korean text, loaded with its dictionary.
#[verifier::external_type_specification]
#[verifier::external_body]
pub struct ExTokenizer(mecab_ko::Tokenizer);

/// `Tokenizer::tokenize`: the tokens of `text` (each its surface text and
/// its part-of-speech tag), as the analyser's dictionary cuts it. Only
/// this is stated: an empty text gives no token; which tokens come
/// depends on the dictionary loaded.
#[verifier::external_body]
fn tokenize(tokenizer: &mut Tokenizer, text: &str) -> (res: Vec<(String, String)>)
    ensures
        text@.len() == 0 ==> res@.len() == 0,
{
    tokenizer.tokenize(text).into_iter().map(|t| (t.surface, t.pos)).collect()
}

/// One step of cutting `word` down to its stem, given the last token the
/// analyser found in it (`last`: text and tag) and, when the last letter
/// may go, the tag of the last token it finds in the word without that
/// letter (`cut_pos`): a non-empty ending tagged as such goes; else, for
/// a verb, adjective or adverb, the last letter goes when the rest reads
/// as a noun or a root; else the word is settled (`None`).
pub open spec fn spec_settle_step(
    word: Seq<char>,
    last: Option<(Seq<char>, Seq<char>)>,
    cut_pos: Option<Seq<char>>,
) -> Option<Seq<char>> {
    match last {
        None => None,
        Some((text, pos)) => if text.len() > 0 && spec_strip_ending(word, text, pos) is Some {
            spec_strip_ending(word, text, pos)
        } else if spec_cut_last_letter(word, pos) is Some && (cut_pos matches Some(cp)
            && is_stem_tag(cp)) {
            spec_cut_last_letter(word, pos)
        } else {
            None
        },
    }
}

/// The text and tag of a token, as values.
pub open spec fn token_view(t: Option<(String, String)>) -> Option<(Seq<char>, Seq<char>)> {
    match t {
        Some((a, b)) => Some((a@, b@)),
        None => None,
    }
}

/// One step of cutting a word down to its stem; see `spec_settle_step`.
/// What it gives is a shorter start of the word.
pub fn settle_step(word: &str, last: Option<(String, String)>, cut_last_pos: Option<String>) -> (res:
    Option<String>)
    ensures
        match res {
            Some(r) => spec_settle_step(word@, token_view(last), opt_view(cut_last_pos)) == Some(
                r@,
            ) && r@.is_prefix_of(word@) && r@.len() < word@.len() && r@.len() > 0,
            None => spec_settle_step(word@, token_view(last), opt_view(cut_last_pos)) is None,
        },
{
    match last {
        None => None,
        Some((text, pos)) => {
            if !text.as_str().is_empty() {
                if let Some(shorter) = strip_ending(word, text.as_str(), pos.as_str()) {
                    proof {
                        lemma_cuts_shorten(word@, text@, pos@);
                        assert(shorter@ =~= word@.subrange(0, shorter@.len() as int));
                    }
                    return Some(shorter);
                }
            }
            if let Some(cut) = cut_last_letter(word, pos.as_str()) {
                let fits = match &cut_last_pos {
                    Some(cp) => stem_tag(cp.as_str()),
                    None => false,
                };
                if fits {
                    proof {
                        lemma_cuts_shorten(word@, text@, pos@);
                    }
                    return Some(cut);
                }
            }
            None
        },
    }
}

/// The text of an optional string, as a value.
pub open spec fn opt_view(t: Option<String>) -> Option<Seq<char>> {
    match t {
        Some(a) => Some(a@),
        None => None,
    }
}

/// Whether `trace` records how `word` was cut down to `res`: it starts
/// from `word`, each step gives the next word (`spec_settle_step` with
/// what the analyser said of it), and the last step settles on `res`.
pub open spec fn is_settling(
    word: Seq<char>,
    trace: Seq<(Seq<char>, Option<(Seq<char>, Seq<char>)>, Option<Seq<char>>)>,
    res: Seq<char>,
) -> bool {
    &&& trace.len() > 0
    &&& trace[0].0 == word
    &&& forall|i: int|
        0 <= i < trace.len() - 1 ==> spec_settle_step(
            (#[trigger] trace[i]).0,
            trace[i].1,
            trace[i].2,
        ) == Some(trace[i + 1].0)
    &&& spec_settle_step(trace.last().0, trace.last().1, trace.last().2) is None
    &&& trace.last().0 == res
}

/// Cuts a word down to its stem, step after step (`settle_step`), asking
/// the analyser for the last token of the word each time, and for the
/// last token of the word without its last letter when that letter may
/// go. What is left is a non-empty start of the word (the word itself
/// when it is empty). What the analyser answers depends on its
/// dictionary, and is not stated.
pub fn settle_word(tokenizer: &mut Tokenizer, word: &str) -> (res: String)
    ensures
        res@.is_prefix_of(word@),
        word@.len() > 0 ==> res@.len() > 0,
        exists|trace: Seq<(Seq<char>, Option<(Seq<char>, Seq<char>)>, Option<Seq<char>>)>|
            is_settling(word@, trace, res@),
{
    let mut w = word.to_owned();
    let ghost mut trace: Seq<(Seq<char>, Option<(Seq<char>, Seq<char>)>, Option<Seq<char>>)> =
        Seq::empty();
    assert(w@.is_prefix_of(word@)) by {
        assert(word@.subrange(0, word@.len() as int) =~= word@);
    }
    loop
        invariant
            w@.is_prefix_of(word@),
            word@.len() > 0 ==> w@.len() > 0,
            trace.len() == 0 ==> w@ == word@,
            trace.len() > 0 ==> trace[0].0 == word@,
            forall|i: int|
                0 <= i < trace.len() ==> spec_settle_step(
                    (#[trigger] trace[i]).0,
                    trace[i].1,
                    trace[i].2,
                ) == Some(if i + 1 < trace.len() {
                    trace[i + 1].0
                } else {
                    w@
                }),
        decreases w@.len(),
    {
        let tokens = tokenize(tokenizer, w.as_str());
        let last: Option<(String, String)> = if tokens.len() == 0 {
            None
        } else {
            let l = tokens.len() - 1;
            Some((tokens[l].0.clone(), tokens[l].1.clone()))
        };
        let mut cut_pos: Option<String> = None;
        if let Some((text, pos)) = &last {
            let strips = !text.as_str().is_empty() && strip_ending(
                w.as_str(),
                text.as_str(),
                pos.as_str(),
            ).is_some();
            if !strips {
                if let Some(cut) = cut_last_letter(w.as_str(), pos.as_str()) {
                    let cut_tokens = tokenize(tokenizer, cut.as_str());
                    if cut_tokens.len() > 0 {
                        cut_pos = Some(cut_tokens[cut_tokens.len() - 1].1.clone());
                    }
                }
            }
        }
        let ghost step = (w@, token_view(last), opt_view(cut_pos));
        match settle_step(w.as_str(), last, cut_pos) {
            Some(next) => {
                proof {
                    assert(next@ =~= word@.subrange(0, next@.len() as int));
                    let old_trace = trace;
                    trace = trace.push(step);
                    assert forall|i: int| 0 <= i < trace.len() implies spec_settle_step(
                        (#[trigger] trace[i]).0,
                        trace[i].1,
                        trace[i].2,
                    ) == Some(if i + 1 < trace.len() {
                        trace[i + 1].0
                    } else {
                        next@
                    }) by {
                        if i + 1 < trace.len() {
                            assert(trace[i] == old_trace[i]);
                            if i + 1 < old_trace.len() {
                                assert(trace[i + 1] == old_trace[i + 1]);
                            }
                        }
                    }
                }
                w = next;
            },
            None => {
                proof {
                    let full = trace.push(step);
                    assert forall|i: int| 0 <= i < full.len() - 1 implies spec_settle_step(
                        (#[trigger] full[i]).0,
                        full[i].1,
                        full[i].2,
                    ) == Some(full[i + 1].0) by {
                        assert(full[i] == trace[i]);
                        if i + 1 < trace.len() {
                            assert(full[i + 1] == trace[i + 1]);
                        }
                    }
                    assert(is_settling(word@, full, w@));
                }
                return w;
            },
        }
    }
}

/// The keywords a run of keyword tokens gives are never empty.
pub proof fn lemma_keywords_not_empty(tokens: Seq<(Seq<char>, Seq<char>)>, cur: Seq<char>)
    ensures
        forall|k: int|
            0 <= k < keyword_runs(tokens, cur).len() ==> (#[trigger] keyword_runs(tokens, cur)[k]).len()
                > 0,
    decreases tokens.len(),
{
    if tokens.len() > 0 {
        if is_keyword_token(tokens[0].0, tokens[0].1) {
            lemma_keywords_not_empty(tokens.drop_first(), cur + tokens[0].0);
            assert(keyword_runs(tokens, cur) == keyword_runs(tokens.drop_first(), cur + tokens[0].0));
        } else {
            lemma_keywords_not_empty(tokens.drop_first(), Seq::empty());
            let head: Seq<Seq<char>> = if cur.len() > 0 {
                seq![cur]
            } else {
                Seq::empty()
            };
            let rest = keyword_runs(tokens.drop_first(), Seq::empty());
            assert(keyword_runs(tokens, cur) == head + rest);
            assert forall|k: int| 0 <= k < (head + rest).len() implies (#[trigger] (head
                + rest)[k]).len() > 0 by {
                if k >= head.len() {
                    assert((head + rest)[k] == rest[k - head.len()]);
                }
            }
        }
    } else {
        if cur.len() > 0 {
            assert(keyword_runs(tokens, cur) == seq![cur]);
        }
    }
}

/// The words of a list of sentences, in order.
pub open spec fn sentence_words(sentences: Seq<Seq<char>>) -> Seq<Seq<char>>
    decreases sentences.len(),
{
    if sentences.len() == 0 {
        Seq::empty()
    } else {
        sentence_words(sentences.drop_last()) + words_from(sentences.last(), 0)
    }
}

/// The words of an order: those of its sentences, in order.
pub open spec fn command_words(command: Seq<char>) -> Seq<Seq<char>> {
    sentence_words(sentences_from(command, 0))
}

/// The keywords given by words whose stems the analyser cut into
/// `tokens` (texts and tags, one list per word), in order.
pub open spec fn keywords_of_words(tokens: Seq<Seq<(Seq<char>, Seq<char>)>>) -> Seq<Seq<char>>
    decreases tokens.len(),
{
    if tokens.len() == 0 {
        Seq::empty()
    } else {
        keywords_of_words(tokens.drop_last()) + keyword_runs(tokens.last(), Seq::empty())
    }
}

/// Whether `stem` is what `settle_word` may cut `word` down to, for some
/// answers of the analyser.
pub open spec fn is_stem_of(word: Seq<char>, stem: Seq<char>) -> bool {
    exists|trace: Seq<(Seq<char>, Option<(Seq<char>, Seq<char>)>, Option<Seq<char>>)>|
        is_settling(word, trace, stem)
}

/// Whether `res` is what `order_keywords` gives for `command` when the
/// stems of its words are `stems` and the analyser cut them into
/// `tokens`: each stem is a non-empty start of its word to which
/// `settle_word` cut it down, and the keywords are the runs of keyword
/// tokens of each stem, word after word (`keywords_of` of what the
/// analyser gave for that stem).
pub open spec fn is_order_keywords(
    command: Seq<char>,
    stems: Seq<Seq<char>>,
    tokens: Seq<Seq<(Seq<char>, Seq<char>)>>,
    res: Seq<Seq<char>>,
) -> bool {
    &&& stems.len() == command_words(command).len()
    &&& tokens.len() == stems.len()
    &&& forall|i: int|
        0 <= i < stems.len() ==> (#[trigger] stems[i]).is_prefix_of(command_words(command)[i])
            && stems[i].len() > 0 && is_stem_of(command_words(command)[i], stems[i])
    &&& res == keywords_of_words(tokens)
}

/// The keywords of an order: for each sentence, for each word, the runs
/// of keyword tokens the analyser finds in the word cut down to its stem.
/// Every keyword is non-empty. Which tokens the analyser finds depends on
/// its dictionary, and is not stated.
pub fn order_keywords(tokenizer: &mut Tokenizer, command: &str) -> (res: Vec<String>)
    ensures
        forall|k: int| 0 <= k < res@.len() ==> (#[trigger] res@[k])@.len() > 0,
        exists|stems: Seq<Seq<char>>, tokens: Seq<Seq<(Seq<char>, Seq<char>)>>|
            is_order_keywords(command@, stems, tokens, texts(res@)),
{
    let sentences = split_sentences(command);
    let ghost sents = texts(sentences@);
    let ghost mut stems: Seq<Seq<char>> = Seq::empty();
    let ghost mut toks: Seq<Seq<(Seq<char>, Seq<char>)>> = Seq::empty();
    let ghost mut done: Seq<Seq<char>> = Seq::empty();
    let mut res: Vec<String> = Vec::new();
    let mut s: usize = 0;
    proof {
        assert(sents.take(0) =~= Seq::<Seq<char>>::empty());
        assert(texts(res@) =~= Seq::<Seq<char>>::empty());
    }
    while s < sentences.len()
        invariant
            s <= sentences@.len(),
            sents == texts(sentences@),
            sents == sentences_from(command@, 0),
            stems.len() == toks.len() == done.len(),
            done == sentence_words(sents.take(s as int)),
            forall|i: int|
                0 <= i < stems.len() ==> (#[trigger] stems[i]).is_prefix_of(done[i])
                    && stems[i].len() > 0 && is_stem_of(done[i], stems[i]),
            texts(res@) == keywords_of_words(toks),
            forall|k: int| 0 <= k < res@.len() ==> (#[trigger] res@[k])@.len() > 0,
        decreases sentences@.len() - s,
    {
        let v = chars_of(sentences[s].as_str());
        let ghost before = done;
        let ghost mut wd: Seq<Seq<char>> = Seq::empty();
        proof {
            assert(sents[s as int] == sentences@[s as int]@);
            assert(wd + words_from(v@, 0) =~= words_from(v@, 0));
            assert(done =~= before + wd);
        }
        let mut pos: usize = 0;
        while pos < v.len()
            invariant
                pos <= v@.len(),
                stems.len() == toks.len() == done.len(),
                done == before + wd,
                wd + words_from(v@, pos as int) == words_from(v@, 0),
                forall|i: int|
                    0 <= i < stems.len() ==> (#[trigger] stems[i]).is_prefix_of(done[i])
                        && stems[i].len() > 0 && is_stem_of(done[i], stems[i]),
                texts(res@) == keywords_of_words(toks),
                forall|k: int| 0 <= k < res@.len() ==> (#[trigger] res@[k])@.len() > 0,
            ensures
                wd == words_from(v@, 0),
                stems.len() == toks.len() == done.len(),
                done == before + wd,
                forall|i: int|
                    0 <= i < stems.len() ==> (#[trigger] stems[i]).is_prefix_of(done[i])
                        && stems[i].len() > 0 && is_stem_of(done[i], stems[i]),
                texts(res@) == keywords_of_words(toks),
                forall|k: int| 0 <= k < res@.len() ==> (#[trigger] res@[k])@.len() > 0,
            decreases v@.len() - pos,
        {
            let (a, b) = crate::text::next_word(&v, pos);
            if a >= v.len() {
                proof {
                    assert(words_from(v@, pos as int) =~= Seq::<Seq<char>>::empty());
                    assert(wd =~= wd + words_from(v@, pos as int));
                }
                break;
            }
            proof {
                crate::text::lemma_skip_blanks_bounds(v@, pos as int);
                crate::text::lemma_word_end_bounds(v@, a as int);
            }
            let word = string_of_range(&v, a, b);
            let stem = settle_word(tokenizer, word.as_str());
            let tokens = tokenize(tokenizer, stem.as_str());
            let found = keywords_of(&tokens);
            let ghost tt = token_texts(tokens@);
            proof {
                lemma_keywords_not_empty(token_texts(tokens@), Seq::empty());
                assert forall|j: int| 0 <= j < found@.len() implies (#[trigger] found@[j])@.len()
                    > 0 by {
                    assert(texts(found@)[j] == found@[j]@);
                }
                assert(texts(res@) + texts(found@).take(0) =~= texts(res@));
            }
            let ghost res_before = texts(res@);
            let mut k: usize = 0;
            while k < found.len()
                invariant
                    k <= found@.len(),
                    texts(found@) == keyword_runs(token_texts(tokens@), Seq::empty()),
                    texts(res@) == res_before + texts(found@).take(k as int),
                    forall|j: int| 0 <= j < found@.len() ==> (#[trigger] found@[j])@.len() > 0,
                    forall|j: int| 0 <= j < res@.len() ==> (#[trigger] res@[j])@.len() > 0,
                decreases found@.len() - k,
            {
                let c = found[k].clone();
                let ghost old_res = res@;
                res.push(c);
                proof {
                    assert(c@ == found@[k as int]@);
                    assert(texts(res@) =~= texts(old_res).push(c@));
                    assert(texts(found@).take(k + 1) =~= texts(found@).take(k as int).push(
                        found@[k as int]@,
                    ));
                    assert(texts(res@) =~= res_before + texts(found@).take(k + 1));
                }
                k = k + 1;
            }
            proof {
                assert(texts(found@).take(found@.len() as int) =~= texts(found@));
                let w = v@.subrange(a as int, b as int);
                assert(words_from(v@, pos as int) == seq![w] + words_from(v@, b as int));
                assert(toks.push(tt).drop_last() =~= toks);
                assert(keywords_of_words(toks.push(tt)) == keywords_of_words(toks) + keyword_runs(
                    tt,
                    Seq::empty(),
                ));
                assert(w.len() > 0);
                stems = stems.push(stem@);
                toks = toks.push(tt);
                done = done.push(w);
                wd = wd.push(w);
                assert(wd + words_from(v@, b as int) =~= wd.drop_last() + (seq![w] + words_from(
                    v@,
                    b as int,
                )));
                assert(done =~= before + wd);
            }
            pos = b;
        }
        proof {
            assert(sents.take(s + 1).drop_last() =~= sents.take(s as int));
            assert(sents.take(s + 1).last() == sents[s as int]);
            assert(v@ == sents[s as int]);
        }
        s = s + 1;
    }
    proof {
        assert(sents.take(sentences@.len() as int) =~= sents);
        assert(done == command_words(command@));
        assert(is_order_keywords(command@, stems, toks, texts(res@)));
    }
    res
}

} // verus!
