//! Reading the header fields of tactic template documents.

use vstd::prelude::*;
use crate::text::{
    chars_of, prefix_at, string_of_range, strip_bounds, strip_prefixes, strip_prefixes_bound,
    trim, trim_quotes,
};

verus! {

/// Index of the first line feed at or after `pos`, or the length of `s`
/// when there is none.
pub open spec fn next_newline(s: Seq<char>, pos: int) -> int
    decreases s.len() - pos,
{
    if pos >= s.len() {
        s.len() as int
    } else if s[pos] == '\n' {
        pos
    } else {
        next_newline(s, pos + 1)
    }
}

/// Where the line starting at `pos` ends lies between `pos` and the end
/// of the text, is a newline unless it is the end, and no newline comes
/// before it.
pub proof fn lemma_next_newline_bounds(s: Seq<char>, pos: int)
    requires
        0 <= pos,
    ensures
        pos <= next_newline(s, pos) || pos > s.len(),
        next_newline(s, pos) <= s.len(),
        next_newline(s, pos) < s.len() ==> s[next_newline(s, pos)] == '\n',
        forall|k: int| pos <= k < next_newline(s, pos) ==> s[k] != '\n',
    decreases s.len() - pos,
{
    if pos < s.len() && s[pos] != '\n' {
        lemma_next_newline_bounds(s, pos + 1);
    }
}

/// The first line of `s` from position `pos` on whose trimmed text starts
/// with `field`. Lines end at line feeds; a line feed that ends the text
/// starts no further line.
pub open spec fn field_line_from(s: Seq<char>, pos: int, field: Seq<char>) -> Option<Seq<char>>
    decreases s.len() + 1 - pos,
{
    if pos < 0 || pos >= s.len() {
        None
    } else {
        let e = next_newline(s, pos);
        let line = s.subrange(pos, e);
        if field.is_prefix_of(trim(line)) {
            Some(line)
        } else {
            proof {
                lemma_next_newline_bounds(s, pos);
            }
            field_line_from(s, e + 1, field)
        }
    }
}

/// The value a header line gives a field: the trimmed line without the
/// leading field names, trimmed again and without surrounding quotes.
pub open spec fn field_value(line: Seq<char>, field: Seq<char>) -> Seq<char> {
    trim_quotes(trim(strip_prefixes(trim(line), field)))
}

/// The value of `field` in `content`: taken from its first line whose
/// trimmed text starts with `field`, if any.
pub open spec fn spec_extract_yaml_field(content: Seq<char>, field: Seq<char>) -> Option<Seq<char>> {
    match field_line_from(content, 0, field) {
        Some(line) => Some(field_value(line, field)),
        None => None,
    }
}

/// Reads `field` (such as `id:` or `name:`) from the header of a tactic
/// template document.
pub fn extract_yaml_field(content: &str, field: &str) -> (res: Option<String>)
    ensures
        res matches Some(v) ==> spec_extract_yaml_field(content@, field@) == Some(v@),
        res is None ==> spec_extract_yaml_field(content@, field@) is None,
{
    let v = chars_of(content);
    let f = chars_of(field);
    let n = v.len();
    let mut pos: usize = 0;
    while pos < n
        invariant
            n == v@.len(),
            pos <= n,
            v@ == content@,
            f@ == field@,
            field_line_from(v@, 0, f@) == field_line_from(v@, pos as int, f@),
        decreases n - pos,
    {
        let mut e = pos;
        while e < n && v[e] != '\n'
            invariant
                pos <= e <= n,
                n == v@.len(),
                next_newline(v@, pos as int) == next_newline(v@, e as int),
            decreases n - e,
        {
            e = e + 1;
        }
        let (a, b) = strip_bounds(&v, pos, e, None);
        if prefix_at(&v, a, b, &f) {
            let a2 = strip_prefixes_bound(&v, a, b, &f);
            let (a3, b3) = strip_bounds(&v, a2, b, None);
            let (a4, b4) = strip_bounds(&v, a3, b3, Some('"'));
            proof {
                assert(v@.subrange(a2 as int, b as int).subrange(0, (b3 - a2) as int) =~= v@.subrange(a2 as int, b3 as int));
            }
            return Some(string_of_range(&v, a4, b4));
        }
        if e == n {
            return None;
        }
        pos = e + 1;
    }
    None
}

} // verus!
