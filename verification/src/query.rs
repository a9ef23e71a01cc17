use crate::text::{chars_of, digits_within, parse_digits};
use vstd::prelude::*;

verus! {

/// The number that `s` writes: digits, with at most one `+` before them, that denote a
/// number a `u32` can hold.
pub open spec fn unsigned_of(s: Seq<char>) -> Option<u32> {
    let digits = if s.len() > 0 && s[0] == '+' {
        s.subrange(1, s.len() as int)
    } else {
        s
    };
    match digits_within(digits, u32::MAX as nat) {
        Some(v) => Some(v as u32),
        None => None,
    }
}

/// Whether `s` begins with `id:`, in either case of the letters.
pub open spec fn has_id_prefix(s: Seq<char>) -> bool {
    &&& s.len() >= 3
    &&& (s[0] == 'i' || s[0] == 'I')
    &&& (s[1] == 'd' || s[1] == 'D')
    &&& s[2] == ':'
}

/// The id that a query asks for: the number after an `id:` prefix, or the number that the
/// whole query writes. A query that is neither asks for a name.
pub open spec fn id_of_query(s: Seq<char>) -> Option<u32> {
    if s.len() > 3 && has_id_prefix(s) {
        unsigned_of(s.subrange(3, s.len() as int))
    } else {
        unsigned_of(s)
    }
}

fn parse_unsigned(v: &Vec<char>, from: usize) -> (r: Option<u32>)
    requires
        from <= v.len(),
    ensures
        r == unsigned_of(v@.subrange(from as int, v.len() as int)),
{
    let ghost s = v@.subrange(from as int, v.len() as int);
    let start: usize = if from < v.len() && v[from] == '+' {
        from + 1
    } else {
        from
    };
    assert(v@.subrange(start as int, v.len() as int) =~= if s.len() > 0 && s[0] == '+' {
        s.subrange(1, s.len() as int)
    } else {
        s
    });
    match parse_digits(v, start, v.len(), 0xffff_ffff) {
        Some(n) => Some(n as u32),
        None => None,
    }
}

/// Reads a query as a request for an id, where it is one.
pub fn extract_id(query: &str) -> (r: Option<u32>)
    ensures
        r == id_of_query(query@),
{
    let v = chars_of(query);
    if v.len() > 3 && (v[0] == 'i' || v[0] == 'I') && (v[1] == 'd' || v[1] == 'D') && v[2]
        == ':' {
        parse_unsigned(&v, 3)
    } else {
        assert(v@.subrange(0, v.len() as int) =~= v@);
        parse_unsigned(&v, 0)
    }
}

} // verus!
