//! String helpers shared by the modules that read text: the std string and
//! char operations they rely on, trimming and stripping, splitting into
//! words, and reading and writing decimal numbers.

use vstd::prelude::*;

verus! {

/// Whether `v` is the code of a Unicode scalar value, that is a valid `char`.
pub open spec fn is_scalar_value(v: u32) -> bool {
    v <= 0x10FFFF && !(0xD800 <= v && v <= 0xDFFF)
}

/// The sequence `s` without its last element; unchanged when empty.
pub open spec fn drop_last_or_empty(s: Seq<char>) -> Seq<char> {
    if s.len() > 0 { s.drop_last() } else { s }
}

/// `char::from_u32`: std documents that it returns the `char` with code `v`
/// when `v` is a Unicode scalar value, and `None` otherwise.
#[verifier::external_body]
pub(crate) fn char_from_u32(v: u32) -> (res: Option<char>)
    ensures
        is_scalar_value(v) ==> res == Some(v as char),
        !is_scalar_value(v) ==> res.is_none(),
{
    char::from_u32(v)
}

/// `String::push`: std documents that it appends `c` at the end.
#[verifier::external_body]
pub(crate) fn string_push(s: &mut String, c: char)
    ensures
        final(s)@ == old(s)@.push(c),
{
    s.push(c)
}

/// `String::pop`: std documents that it removes the last character and
/// returns it, or returns `None` and leaves the string as it is when empty.
#[verifier::external_body]
pub(crate) fn string_pop(s: &mut String) -> (res: Option<char>)
    ensures
        final(s)@ == drop_last_or_empty(old(s)@),
        old(s)@.len() > 0 ==> res == Some(old(s)@.last()),
        old(s)@.len() == 0 ==> res.is_none(),
{
    s.pop()
}

/// `<str as PartialEq>::eq`: two string slices are equal exactly when they
/// hold the same characters.
#[verifier::external_body]
pub(crate) fn str_eq(a: &str, b: &str) -> (res: bool)
    ensures
        res == (a@ == b@),
{
    a == b
}


/// The characters of a string slice, in order.
pub fn chars_of(s: &str) -> (res: Vec<char>)
    ensures
        res@ == s@,
{
    broadcast use vstd::string::group_string_axioms;
    let mut out: Vec<char> = Vec::new();
    for c in it: s.chars()
        invariant
            out@ == it.seq().take(it.index() as int),
            it.seq() == s@,
    {
        out.push(c);
    }
    out
}


/// The Unicode `White_Space` characters, those that `char::is_whitespace`
/// and `str::trim` treat as blank.
pub open spec fn is_white_space(c: char) -> bool {
    let v = c as u32;
    (0x09 <= v && v <= 0x0D) || v == 0x20 || v == 0x85 || v == 0xA0 || v == 0x1680 || (0x2000
        <= v && v <= 0x200A) || v == 0x2028 || v == 0x2029 || v == 0x202F || v == 0x205F || v
        == 0x3000
}

/// The characters taken off the ends of a text: blanks when `pat` is
/// `None`, else the character `pat` holds.
pub open spec fn is_stripped(c: char, pat: Option<char>) -> bool {
    match pat {
        Some(p) => c == p,
        None => is_white_space(c),
    }
}

/// `s` without the stripped characters at its start.
pub open spec fn strip_start(s: Seq<char>, pat: Option<char>) -> Seq<char>
    decreases s.len(),
{
    if s.len() > 0 && is_stripped(s[0], pat) {
        strip_start(s.drop_first(), pat)
    } else {
        s
    }
}

/// `s` without the stripped characters at its end.
pub open spec fn strip_end(s: Seq<char>, pat: Option<char>) -> Seq<char>
    decreases s.len(),
{
    if s.len() > 0 && is_stripped(s.last(), pat) {
        strip_end(s.drop_last(), pat)
    } else {
        s
    }
}

/// `s` without blanks at either end, as `str::trim` gives it.
pub open spec fn trim(s: Seq<char>) -> Seq<char> {
    strip_end(strip_start(s, None), None)
}

/// `s` without double quotes at either end, as `str::trim_matches('"')`
/// gives it.
pub open spec fn trim_quotes(s: Seq<char>) -> Seq<char> {
    strip_end(strip_start(s, Some('"')), Some('"'))
}

/// `s` once every leading copy of `p` is taken off, as
/// `str::trim_start_matches(p)` gives it; an empty `p` takes nothing off.
pub open spec fn strip_prefixes(s: Seq<char>, p: Seq<char>) -> Seq<char>
    decreases s.len(),
{
    if p.len() > 0 && p.is_prefix_of(s) {
        strip_prefixes(s.skip(p.len() as int), p)
    } else {
        s
    }
}

/// Whether a character is blank (Unicode `White_Space`).
pub fn is_whitespace(c: char) -> (res: bool)
    ensures
        res == is_white_space(c),
{
    let v = c as u32;
    (0x09 <= v && v <= 0x0D) || v == 0x20 || v == 0x85 || v == 0xA0 || v == 0x1680 || (0x2000
        <= v && v <= 0x200A) || v == 0x2028 || v == 0x2029 || v == 0x202F || v == 0x205F || v
        == 0x3000
}

fn stripped(c: char, pat: Option<char>) -> (res: bool)
    ensures
        res == is_stripped(c, pat),
{
    match pat {
        Some(p) => c == p,
        None => is_whitespace(c),
    }
}

/// The bound `a` such that `v[a..hi]` is `v[lo..hi]` stripped at its start.
pub fn strip_start_bound(v: &Vec<char>, lo: usize, hi: usize, pat: Option<char>) -> (res: usize)
    requires
        lo <= hi <= v@.len(),
    ensures
        lo <= res <= hi,
        v@.subrange(res as int, hi as int) == strip_start(v@.subrange(lo as int, hi as int), pat),
{
    let mut a = lo;
    while a < hi && stripped(v[a], pat)
        invariant
            lo <= a <= hi <= v@.len(),
            strip_start(v@.subrange(lo as int, hi as int), pat) == strip_start(
                v@.subrange(a as int, hi as int),
                pat,
            ),
        decreases hi - a,
    {
        assert(v@.subrange(a as int, hi as int).drop_first() =~= v@.subrange(a + 1, hi as int));
        a = a + 1;
    }
    a
}

/// The bound `b` such that `v[lo..b]` is `v[lo..hi]` stripped at its end.
pub fn strip_end_bound(v: &Vec<char>, lo: usize, hi: usize, pat: Option<char>) -> (res: usize)
    requires
        lo <= hi <= v@.len(),
    ensures
        lo <= res <= hi,
        v@.subrange(lo as int, res as int) == strip_end(v@.subrange(lo as int, hi as int), pat),
{
    let mut b = hi;
    while b > lo && stripped(v[b - 1], pat)
        invariant
            lo <= b <= hi <= v@.len(),
            strip_end(v@.subrange(lo as int, hi as int), pat) == strip_end(
                v@.subrange(lo as int, b as int),
                pat,
            ),
        decreases b - lo,
    {
        assert(v@.subrange(lo as int, b as int).drop_last() =~= v@.subrange(lo as int, b - 1));
        b = b - 1;
    }
    b
}

/// The bounds `(a, b)` of `v[lo..hi]` once stripped at both ends.
pub fn strip_bounds(v: &Vec<char>, lo: usize, hi: usize, pat: Option<char>) -> (res: (usize, usize))
    requires
        lo <= hi <= v@.len(),
    ensures
        lo <= res.0 <= res.1 <= hi,
        v@.subrange(res.0 as int, res.1 as int) == strip_end(
            strip_start(v@.subrange(lo as int, hi as int), pat),
            pat,
        ),
{
    let a = strip_start_bound(v, lo, hi, pat);
    let b = strip_end_bound(v, a, hi, pat);
    (a, b)
}

/// Whether `p` is a prefix of `v[i..hi]`.
pub fn prefix_at(v: &Vec<char>, i: usize, hi: usize, p: &Vec<char>) -> (res: bool)
    requires
        i <= hi <= v@.len(),
    ensures
        res == p@.is_prefix_of(v@.subrange(i as int, hi as int)),
{
    if p.len() > hi - i {
        return false;
    }
    let mut k: usize = 0;
    while k < p.len()
        invariant
            k <= p@.len(),
            p@.len() <= hi - i,
            i <= hi <= v@.len(),
            forall|j: int| 0 <= j < k ==> p@[j] == v@[i + j],
        decreases p@.len() - k,
    {
        if p[k] != v[i + k] {
            return false;
        }
        k = k + 1;
    }
    assert(p@ =~= v@.subrange(i as int, hi as int).subrange(0, p@.len() as int));
    true
}

/// The bound `a'` such that `v[a'..hi]` is `v[a..hi]` with every leading
/// copy of `p` taken off.
pub fn strip_prefixes_bound(v: &Vec<char>, a: usize, hi: usize, p: &Vec<char>) -> (res: usize)
    requires
        a <= hi <= v@.len(),
    ensures
        a <= res <= hi,
        v@.subrange(res as int, hi as int) == strip_prefixes(v@.subrange(a as int, hi as int), p@),
{
    let mut i = a;
    if p.len() == 0 {
        return a;
    }
    while prefix_at(v, i, hi, p)
        invariant
            a <= i <= hi <= v@.len(),
            p@.len() > 0,
            strip_prefixes(v@.subrange(a as int, hi as int), p@) == strip_prefixes(
                v@.subrange(i as int, hi as int),
                p@,
            ),
        decreases hi - i,
    {
        assert(v@.subrange(i as int, hi as int).skip(p@.len() as int) =~= v@.subrange(
            i + p@.len(),
            hi as int,
        ));
        i = i + p.len();
    }
    i
}

/// A string holding `v[lo..hi]`.
pub fn string_of_range(v: &Vec<char>, lo: usize, hi: usize) -> (res: String)
    requires
        lo <= hi <= v@.len(),
    ensures
        res@ == v@.subrange(lo as int, hi as int),
{
    let mut out = String::new();
    let mut i = lo;
    while i < hi
        invariant
            lo <= i <= hi <= v@.len(),
            out@ == v@.subrange(lo as int, i as int),
        decreases hi - i,
    {
        string_push(&mut out, v[i]);
        assert(out@ =~= v@.subrange(lo as int, i + 1));
        i = i + 1;
    }
    out
}


/// `s` once every trailing copy of `p` is taken off, as
/// `str::trim_end_matches(p)` gives it; an empty `p` takes nothing off.
pub open spec fn strip_suffixes(s: Seq<char>, p: Seq<char>) -> Seq<char>
    decreases s.len(),
{
    if p.len() > 0 && p.len() <= s.len() && s.subrange(s.len() - p.len(), s.len() as int) == p {
        strip_suffixes(s.subrange(0, s.len() - p.len()), p)
    } else {
        s
    }
}

/// Whether `p` ends `v[lo..j]`.
pub fn suffix_at(v: &Vec<char>, lo: usize, j: usize, p: &Vec<char>) -> (res: bool)
    requires
        lo <= j <= v@.len(),
    ensures
        res == (p@.len() <= j - lo && v@.subrange(lo as int, j as int).subrange(
            j - lo - p@.len(),
            j - lo,
        ) == p@),
{
    if p.len() > j - lo {
        return false;
    }
    let start = j - p.len();
    let mut k: usize = 0;
    while k < p.len()
        invariant
            k <= p@.len(),
            start + p@.len() == j,
            lo <= start,
            j <= v@.len(),
            forall|m: int| 0 <= m < k ==> p@[m] == v@[start + m],
        decreases p@.len() - k,
    {
        if p[k] != v[start + k] {
            assert(v@.subrange(lo as int, j as int).subrange(j - lo - p@.len(), j - lo)[k as int]
                == v@[start + k]);
            return false;
        }
        k = k + 1;
    }
    assert(v@.subrange(lo as int, j as int).subrange(j - lo - p@.len(), j - lo) =~= p@);
    true
}

/// The bound `b'` such that `v[lo..b']` is `v[lo..b]` with every trailing
/// copy of `p` taken off.
pub fn strip_suffixes_bound(v: &Vec<char>, lo: usize, b: usize, p: &Vec<char>) -> (res: usize)
    requires
        lo <= b <= v@.len(),
    ensures
        lo <= res <= b,
        v@.subrange(lo as int, res as int) == strip_suffixes(v@.subrange(lo as int, b as int), p@),
{
    if p.len() == 0 {
        return b;
    }
    let mut j = b;
    while suffix_at(v, lo, j, p)
        invariant
            lo <= j <= b <= v@.len(),
            p@.len() > 0,
            strip_suffixes(v@.subrange(lo as int, b as int), p@) == strip_suffixes(
                v@.subrange(lo as int, j as int),
                p@,
            ),
        decreases j - lo,
    {
        assert(v@.subrange(lo as int, j as int).subrange(0, j - lo - p@.len()) =~= v@.subrange(
            lo as int,
            j - p@.len(),
        ));
        j = j - p.len();
    }
    j
}

/// The first position at or after `pos` that holds no blank, or the length.
pub open spec fn skip_blanks(s: Seq<char>, pos: int) -> int
    decreases s.len() - pos,
{
    if pos >= s.len() {
        s.len() as int
    } else if is_white_space(s[pos]) {
        skip_blanks(s, pos + 1)
    } else {
        pos
    }
}

/// The first position at or after `pos` that holds a blank, or the length.
pub open spec fn word_end(s: Seq<char>, pos: int) -> int
    decreases s.len() - pos,
{
    if pos >= s.len() {
        s.len() as int
    } else if is_white_space(s[pos]) {
        pos
    } else {
        word_end(s, pos + 1)
    }
}

/// Skipping blanks from `pos` stops within the text, on a character that
/// is not white space unless at the end.
pub proof fn lemma_skip_blanks_bounds(s: Seq<char>, pos: int)
    requires
        0 <= pos <= s.len(),
    ensures
        pos <= skip_blanks(s, pos) <= s.len(),
        skip_blanks(s, pos) < s.len() ==> !is_white_space(s[skip_blanks(s, pos)]),
    decreases s.len() - pos,
{
    if pos < s.len() && is_white_space(s[pos]) {
        lemma_skip_blanks_bounds(s, pos + 1);
    }
}

/// A word starting at `pos` ends within the text, after `pos` when a
/// non-blank character stands there.
pub proof fn lemma_word_end_bounds(s: Seq<char>, pos: int)
    requires
        0 <= pos <= s.len(),
    ensures
        pos <= word_end(s, pos) <= s.len(),
        pos < s.len() && !is_white_space(s[pos]) ==> pos < word_end(s, pos),
    decreases s.len() - pos,
{
    if pos < s.len() && !is_white_space(s[pos]) {
        lemma_word_end_bounds(s, pos + 1);
    }
}

/// The blank-separated words of `s` from position `pos` on, as
/// `str::split_whitespace` gives them.
pub open spec fn words_from(s: Seq<char>, pos: int) -> Seq<Seq<char>>
    decreases s.len() + 1 - pos,
{
    if pos < 0 || pos > s.len() {
        Seq::empty()
    } else {
        let a = skip_blanks(s, pos);
        if a >= s.len() {
            Seq::empty()
        } else {
            proof {
                lemma_skip_blanks_bounds(s, pos);
                lemma_word_end_bounds(s, a);
            }
            let b = word_end(s, a);
            seq![s.subrange(a, b)] + words_from(s, b)
        }
    }
}

/// The bounds `(a, b)` of the next word of `v` at or after `pos`; `a` is
/// the length of `v` when there is none.
pub fn next_word(v: &Vec<char>, pos: usize) -> (res: (usize, usize))
    requires
        pos <= v@.len(),
    ensures
        res.0 == skip_blanks(v@, pos as int),
        res.0 < v@.len() ==> res.1 == word_end(v@, res.0 as int),
        pos <= res.0 <= res.1 <= v@.len(),
{
    let n = v.len();
    let mut a = pos;
    while a < n && is_whitespace(v[a])
        invariant
            pos <= a <= n,
            n == v@.len(),
            skip_blanks(v@, pos as int) == skip_blanks(v@, a as int),
        decreases n - a,
    {
        a = a + 1;
    }
    let mut b = a;
    while b < n && !is_whitespace(v[b])
        invariant
            a <= b <= n,
            n == v@.len(),
            a < n ==> word_end(v@, a as int) == word_end(v@, b as int),
        decreases n - b,
    {
        b = b + 1;
    }
    (a, b)
}

/// ASCII decimal digits.
pub open spec fn is_digit(c: char) -> bool {
    48 <= (c as u32) && (c as u32) <= 57
}

/// Whether every character of `d` is a decimal digit.
pub open spec fn all_digits(d: Seq<char>) -> bool {
    forall|i: int| 0 <= i < d.len() ==> #[trigger] is_digit(d[i])
}

/// What follows an optional leading `+`.
pub open spec fn unsigned_digits(s: Seq<char>) -> Seq<char> {
    if s.len() > 0 && s[0] == '+' { s.drop_first() } else { s }
}

/// The number a sequence of decimal digits writes.
pub open spec fn digits_value(d: Seq<char>) -> nat
    decreases d.len(),
{
    if d.len() == 0 {
        0
    } else {
        digits_value(d.drop_last()) * 10 + ((d.last() as u32) - 48) as nat
    }
}

/// The `usize` that `s` writes, as `str::parse::<usize>` reads it: an
/// optional `+`, then one or more decimal digits, of value at most
/// `usize::MAX`.
pub open spec fn spec_parse_usize(s: Seq<char>) -> Option<usize> {
    let d = unsigned_digits(s);
    if d.len() == 0 || !all_digits(d) || digits_value(d) > usize::MAX {
        None
    } else {
        Some(digits_value(d) as usize)
    }
}

proof fn lemma_digits_value_grows(d: Seq<char>, i: int)
    requires
        0 <= i <= d.len(),
        forall|k: int| 0 <= k < d.len() ==> #[trigger] is_digit(d[k]),
    ensures
        digits_value(d.take(i)) <= digits_value(d),
    decreases d.len() - i,
{
    if i < d.len() {
        lemma_digits_value_grows(d, i + 1);
        assert(d.take(i + 1).drop_last() =~= d.take(i));
    } else {
        assert(d.take(i) =~= d);
    }
}

/// Reads `v[lo..hi]` as `str::parse::<usize>` does.
pub fn parse_usize_range(v: &Vec<char>, lo: usize, hi: usize) -> (res: Option<usize>)
    requires
        lo <= hi <= v@.len(),
    ensures
        res == spec_parse_usize(v@.subrange(lo as int, hi as int)),
{
    let ghost s = v@.subrange(lo as int, hi as int);
    let mut start = lo;
    if lo < hi && v[lo] == '+' {
        start = lo + 1;
    }
    let ghost d = v@.subrange(start as int, hi as int);
    assert(d == unsigned_digits(s));
    if start == hi {
        return None;
    }
    let mut acc: usize = 0;
    let mut i = start;
    while i < hi
        invariant
            lo <= start <= i <= hi <= v@.len(),
            d == v@.subrange(start as int, hi as int),
            s == v@.subrange(lo as int, hi as int),
            d == unsigned_digits(s),
            forall|k: int| start <= k < i ==> #[trigger] is_digit(v@[k]),
            acc as nat == digits_value(d.take(i - start)),
        decreases hi - i,
    {
        let c = v[i];
        let code = c as u32;
        assert(d[i - start] == v@[i as int]);
        if code < 48 || code > 57 {
            assert(!is_digit(d[i - start]));
            return None;
        }
        assert(d.take(i - start + 1).drop_last() =~= d.take(i - start));
        assert(d.take(i - start + 1).last() == c);
        assert(digits_value(d.take(i - start + 1)) == digits_value(d.take(i - start)) * 10 + (
        code - 48) as nat);
        let digit = (code - 48) as usize;
        match acc.checked_mul(10) {
            Some(m) => match m.checked_add(digit) {
                Some(x) => {
                    acc = x;
                },
                None => {
                    proof {
                        if all_digits(d) {
                            lemma_digits_value_grows(d, i - start + 1);
                        }
                    }
                    return None;
                },
            },
            None => {
                proof {
                    if forall|k: int| 0 <= k < d.len() ==> #[trigger] is_digit(d[k]) {
                        lemma_digits_value_grows(d, i - start + 1);
                    }
                }
                return None;
            },
        }
        i = i + 1;
    }
    assert(d.take(d.len() as int) =~= d);
    assert forall|k: int| 0 <= k < d.len() implies #[trigger] is_digit(d[k]) by {
        assert(d[k] == v@[start + k]);
    }
    assert(all_digits(d));
    Some(acc)
}

/// The decimal digits of a natural number.
pub open spec fn decimal_digits(n: nat) -> Seq<char>
    decreases n,
{
    if n < 10 {
        seq![(48 + n) as char]
    } else {
        decimal_digits(n / 10) + seq![(48 + n % 10) as char]
    }
}

/// An integer written in decimal, with a leading `-` when negative.
pub open spec fn decimal_text(n: int) -> Seq<char> {
    if n < 0 { seq!['-'] + decimal_digits((-n) as nat) } else { decimal_digits(n as nat) }
}

/// The decimal text of `m`.
pub fn digits_string(m: u64) -> (res: String)
    ensures
        res@ == decimal_digits(m as nat),
{
    let mut m = m;
    let ghost whole = m as nat;
    let mut digits: Vec<char> = Vec::new();
    while m >= 10
        invariant
            decimal_digits(whole) == decimal_digits(m as nat) + digits@,
        decreases m,
    {
        let c = char_of_digit((m % 10) as u32);
        let ghost before = digits@;
        digits.insert(0, c);
        assert(digits@ =~= seq![c] + before);
        assert(decimal_digits(m as nat) == decimal_digits((m / 10) as nat) + seq![c]);
        assert(decimal_digits(whole) =~= decimal_digits((m / 10) as nat) + digits@);
        m = m / 10;
    }
    let c = char_of_digit(m as u32);
    let ghost before = digits@;
    digits.insert(0, c);
    assert(digits@ =~= seq![c] + before);
    assert(decimal_digits(whole) =~= digits@);
    assert(digits@.subrange(0, digits@.len() as int) =~= digits@);
    string_of_range(&digits, 0, digits.len())
}

/// The character of a decimal digit.
fn char_of_digit(d: u32) -> (res: char)
    requires
        d < 10,
    ensures
        res == (48 + d) as char,
{
    match d {
        0 => '0',
        1 => '1',
        2 => '2',
        3 => '3',
        4 => '4',
        5 => '5',
        6 => '6',
        7 => '7',
        8 => '8',
        _ => '9',
    }
}

/// Writing a number in decimal and reading it back gives the number: the
/// text is one or more digits, without sign, of that value.
pub proof fn lemma_decimal_round_trip(n: nat)
    ensures
        decimal_digits(n).len() > 0,
        all_digits(decimal_digits(n)),
        digits_value(decimal_digits(n)) == n,
        unsigned_digits(decimal_digits(n)) == decimal_digits(n),
        n <= usize::MAX ==> spec_parse_usize(decimal_digits(n)) == Some(n as usize),
    decreases n,
{
    if n >= 10 {
        lemma_decimal_round_trip(n / 10);
        let d = decimal_digits(n);
        assert(d.drop_last() =~= decimal_digits(n / 10));
        assert(forall|i: int| 0 <= i < d.len() - 1 ==> d[i] == decimal_digits(n / 10)[i]);
        assert(decimal_digits(n / 10)[0] != '+');
        assert(d[0] == decimal_digits(n / 10)[0]);
        assert(d.last() == (48 + n % 10) as char);
        assert(((48 + n % 10) as char) as u32 == 48 + n % 10);
        assert((n / 10) * 10 + n % 10 == n) by (nonlinear_arith);
        assert(digits_value(d) == digits_value(d.drop_last()) * 10 + ((d.last() as u32) - 48) as nat);
        assert(digits_value(d.drop_last()) == n / 10);
        assert(((d.last() as u32) - 48) as nat == n % 10);
        assert(digits_value(d) == n);
    } else {
        let d = decimal_digits(n);
        assert(d.drop_last() =~= Seq::<char>::empty());
        assert(((48 + n) as char) as u32 == 48 + n);
        assert(d == seq![(48 + n) as char]);
        assert(d.last() == (48 + n) as char);
        assert(digits_value(d.drop_last()) == 0);
        assert(digits_value(d) == n);
    }
}

} // verus!
