use vstd::prelude::*;

verus! {

/// Whether `c` is one of the ten ASCII decimal digits.
pub open spec fn is_digit(c: char) -> bool {
    48 <= c as u32 <= 57
}

/// The number that the ASCII digit `c` stands for.
pub open spec fn digit_of(c: char) -> nat
    recommends
        is_digit(c),
{
    (c as u32 - 48) as nat
}

/// The ASCII digit that stands for `d`.
pub open spec fn digit_char(d: nat) -> char
    recommends
        d < 10,
{
    ((d + 48) as u8) as char
}

/// Whether every character of `s` is an ASCII decimal digit.
pub open spec fn all_digits(s: Seq<char>) -> bool {
    forall|i: int| 0 <= i < s.len() ==> is_digit(#[trigger] s[i])
}

/// The shortest decimal numeral of `n`: no sign, no leading zero.
pub open spec fn decimal(n: nat) -> Seq<char>
    decreases n,
{
    if n < 10 {
        seq![digit_char(n)]
    } else {
        decimal(n / 10).push(digit_char(n % 10))
    }
}

/// The number that a string of decimal digits denotes, most significant digit first.
pub open spec fn decimal_value(s: Seq<char>) -> nat
    decreases s.len(),
{
    if s.len() == 0 {
        0
    } else {
        decimal_value(s.drop_last()) * 10 + digit_of(s.last())
    }
}

/// Whether `s` is the shortest decimal numeral of some number.
pub open spec fn is_canonical_decimal(s: Seq<char>) -> bool {
    &&& s.len() > 0
    &&& all_digits(s)
    &&& (s[0] == '0' ==> s.len() == 1)
}

/// A digit character and its value determine each other.
pub proof fn lemma_digit_round_trip(d: nat)
    requires
        d < 10,
    ensures
        is_digit(digit_char(d)),
        digit_of(digit_char(d)) == d,
{
}

/// Every digit is the character of its own value.
pub proof fn lemma_digit_char_of(c: char)
    requires
        is_digit(c),
    ensures
        digit_of(c) < 10,
        digit_char(digit_of(c)) == c,
{
}

/// The numeral of `n` is canonical and denotes `n`.
pub proof fn lemma_decimal_value(n: nat)
    ensures
        is_canonical_decimal(decimal(n)),
        decimal_value(decimal(n)) == n,
        n > 0 ==> decimal(n)[0] != '0',
    decreases n,
{
    if n < 10 {
        lemma_digit_round_trip(n);
        let s = decimal(n);
        assert(s.drop_last() =~= Seq::<char>::empty());
        assert(decimal_value(s.drop_last()) == 0);
    } else {
        lemma_decimal_value(n / 10);
        lemma_digit_round_trip(n % 10);
        let p = decimal(n / 10);
        let s = decimal(n);
        assert(s.drop_last() =~= p);
        assert(s.last() == digit_char(n % 10));
        assert(s[0] == p[0]);
        assert forall|i: int| 0 <= i < s.len() implies is_digit(#[trigger] s[i]) by {
            if i < p.len() {
                assert(s[i] == p[i]);
            }
        }
    }
}

/// A canonical numeral is the numeral of the number it denotes.
pub proof fn lemma_canonical_is_decimal(s: Seq<char>)
    requires
        is_canonical_decimal(s),
    ensures
        decimal(decimal_value(s)) == s,
        s[0] != '0' ==> decimal_value(s) > 0,
    decreases s.len(),
{
    lemma_digit_char_of(s.last());
    if s.len() == 1 {
        assert(s.drop_last() =~= Seq::<char>::empty());
        assert(decimal_value(s.drop_last()) == 0);
        assert(decimal_value(s) == digit_of(s[0]));
        assert(decimal(decimal_value(s)) =~= s);
    } else {
        let p = s.drop_last();
        assert(p[0] == s[0]);
        assert(all_digits(p)) by {
            assert forall|i: int| 0 <= i < p.len() implies is_digit(#[trigger] p[i]) by {
                assert(p[i] == s[i]);
            }
        }
        lemma_canonical_is_decimal(p);
        let v = decimal_value(p);
        assert(v > 0);
        let n = decimal_value(s);
        assert(n == v * 10 + digit_of(s.last()));
        assert(n >= 10);
        assert(n / 10 == v);
        assert(n % 10 == digit_of(s.last()));
        assert(decimal(n) =~= s);
    }
}

/// The characters of a string slice, in order.
pub fn chars_of(s: &str) -> (v: Vec<char>)
    ensures
        v@ == s@,
{
    let mut v: Vec<char> = Vec::new();
    for c in it: s.chars()
        invariant
            v@ == it.seq().take(it.index() as int),
            it.seq() == s@,
    {
        v.push(c);
    }
    v
}

/// `String::push`: the string grows by the one character given.
#[verifier::external_body]
pub(crate) fn push_char(s: &mut String, c: char)
    ensures
        final(s)@ == old(s)@.push(c),
{
    s.push(c)
}

/// Appends the characters of `v` to `out`.
pub fn push_chars(out: &mut String, v: &Vec<char>)
    ensures
        final(out)@ == old(out)@ + v@,
{
    let mut i: usize = 0;
    while i < v.len()
        invariant
            i <= v.len(),
            out@ == old(out)@ + v@.take(i as int),
        decreases v.len() - i,
    {
        push_char(out, v[i]);
        i += 1;
        assert(v@.take(i as int) =~= v@.take(i - 1).push(v@[i - 1]));
    }
    assert(v@.take(v.len() as int) =~= v@);
}

/// The string that holds exactly the characters of `v`.
pub fn string_of(v: &Vec<char>) -> (s: String)
    ensures
        s@ == v@,
{
    let mut s = String::new();
    push_chars(&mut s, v);
    s
}

/// The shortest decimal numeral of `n`, as characters.
pub fn decimal_chars(n: u128) -> (v: Vec<char>)
    ensures
        v@ == decimal(n as nat),
    decreases n,
{
    if n < 10 {
        let mut v: Vec<char> = Vec::new();
        v.push((n as u8 + 48) as char);
        assert(v@ =~= decimal(n as nat));
        v
    } else {
        let mut v = decimal_chars(n / 10);
        v.push(((n % 10) as u8 + 48) as char);
        v
    }
}

/// Appends the shortest decimal numeral of `n` to `out`.
pub fn push_decimal(out: &mut String, n: u64)
    ensures
        final(out)@ == old(out)@ + decimal(n as nat),
{
    let v = decimal_chars(n as u128);
    push_chars(out, &v);
}

/// What a run of characters reads as: the number its digits denote, where there is at least
/// one character, all are digits, and the number is at most `max`.
pub open spec fn digits_within(s: Seq<char>, max: nat) -> Option<nat> {
    if s.len() > 0 && all_digits(s) && decimal_value(s) <= max {
        Some(decimal_value(s))
    } else {
        None
    }
}

/// A digit string denotes at least what any of its prefixes denotes.
pub proof fn lemma_prefix_value(s: Seq<char>, k: int)
    requires
        all_digits(s),
        0 <= k <= s.len(),
    ensures
        decimal_value(s.take(k)) <= decimal_value(s),
    decreases s.len() - k,
{
    if k == s.len() {
        assert(s.take(k) =~= s);
    } else {
        lemma_prefix_value(s, k + 1);
        let q = s.take(k + 1);
        assert(q.drop_last() =~= s.take(k));
        assert(is_digit(s[k]));
    }
}

/// Reads the characters of `s` from `from` up to `to` as a decimal number of at most `max`.
pub fn parse_digits(s: &Vec<char>, from: usize, to: usize, max: u64) -> (r: Option<u64>)
    requires
        from <= to <= s.len(),
    ensures
        r.is_some() == digits_within(s@.subrange(from as int, to as int), max as nat).is_some(),
        r matches Some(v) ==> digits_within(s@.subrange(from as int, to as int), max as nat)
            == Some(v as nat),
{
    let ghost run = s@.subrange(from as int, to as int);
    if from == to {
        return None;
    }
    let mut acc: u64 = 0;
    let mut i: usize = from;
    while i < to
        invariant
            from <= i <= to <= s.len(),
            run == s@.subrange(from as int, to as int),
            all_digits(run.take(i - from)),
            acc as nat == decimal_value(run.take(i - from)),
            acc <= max,
        decreases to - i,
    {
        let c = s[i];
        let ghost next = run.take(i - from + 1);
        assert(next.drop_last() =~= run.take(i - from));
        assert(next.last() == c);
        let code: u32 = c as u32;
        if code < 48 || code > 57 {
            assert(!is_digit(run[i - from]));
            return None;
        }
        let d: u64 = (code - 48) as u64;
        assert(all_digits(next)) by {
            assert forall|j: int| 0 <= j < next.len() implies is_digit(#[trigger] next[j]) by {
                if j < i - from {
                    assert(next[j] == run.take(i - from)[j]);
                }
            }
        }
        if d > max || acc > (max - d) / 10 {
            proof {
                assert(decimal_value(next) > max);
                if all_digits(run) {
                    lemma_prefix_value(run, i - from + 1);
                }
            }
            return None;
        }
        acc = acc * 10 + d;
        i += 1;
    }
    assert(run.take(to - from) =~= run);
    Some(acc)
}

/// Whether the characters of `lit` stand in `t` from position `i` on.
pub open spec fn has_at(t: Seq<char>, i: int, lit: Seq<char>) -> bool {
    &&& 0 <= i
    &&& i + lit.len() <= t.len()
    &&& t.subrange(i, i + lit.len()) == lit
}

/// Where the run of digits that starts at `i` ends: the first position from `i` on that
/// holds no digit, or the length of `t`.
pub open spec fn digit_run_end(t: Seq<char>, i: int) -> int
    decreases t.len() - i,
{
    if 0 <= i < t.len() && is_digit(t[i]) {
        digit_run_end(t, i + 1)
    } else {
        i
    }
}

/// A run of digits that something other than a digit follows ends right there.
pub proof fn lemma_digit_run_end(t: Seq<char>, i: int, j: int)
    requires
        0 <= i <= j <= t.len(),
        all_digits(t.subrange(i, j)),
        j < t.len() ==> !is_digit(t[j]),
    ensures
        digit_run_end(t, i) == j,
    decreases j - i,
{
    if i < j {
        assert(t.subrange(i, j)[0] == t[i]);
        assert(all_digits(t.subrange(i + 1, j))) by {
            assert forall|k: int| 0 <= k < j - i - 1 implies is_digit(
                #[trigger] t.subrange(i + 1, j)[k],
            ) by {
                assert(t.subrange(i + 1, j)[k] == t.subrange(i, j)[k + 1]);
            }
        }
        lemma_digit_run_end(t, i + 1, j);
    }
}

/// Whether `lit` stands in `v` from position `i` on.
pub fn starts_at(v: &Vec<char>, i: usize, lit: &Vec<char>) -> (r: bool)
    ensures
        r == has_at(v@, i as int, lit@),
{
    if i > v.len() || lit.len() > v.len() - i {
        return false;
    }
    let mut k: usize = 0;
    while k < lit.len()
        invariant
            k <= lit.len(),
            i + lit.len() <= v.len(),
            v@.subrange(i as int, i + k) == lit@.take(k as int),
        decreases lit.len() - k,
    {
        if v[i + k] != lit[k] {
            assert(v@.subrange(i as int, i + lit.len())[k as int] != lit@[k as int]);
            return false;
        }
        k += 1;
        assert(v@.subrange(i as int, i + k) =~= v@.subrange(i as int, i + k - 1).push(
            v@[i + k - 1],
        ));
        assert(lit@.take(k as int) =~= lit@.take(k - 1).push(lit@[k - 1]));
    }
    assert(lit@.take(lit.len() as int) =~= lit@);
    true
}

/// The end of the run of digits that starts at `i`.
pub fn scan_digits(v: &Vec<char>, i: usize) -> (j: usize)
    requires
        i <= v.len(),
    ensures
        i <= j <= v.len(),
        j == digit_run_end(v@, i as int),
        all_digits(v@.subrange(i as int, j as int)),
{
    let mut j: usize = i;
    while j < v.len() && 48 <= v[j] as u32 && v[j] as u32 <= 57
        invariant
            i <= j <= v.len(),
            digit_run_end(v@, i as int) == digit_run_end(v@, j as int),
            all_digits(v@.subrange(i as int, j as int)),
        decreases v.len() - j,
    {
        j += 1;
        assert forall|k: int| 0 <= k < j - i implies is_digit(
            #[trigger] v@.subrange(i as int, j as int)[k],
        ) by {
            if k < j - i - 1 {
                assert(v@.subrange(i as int, j as int)[k] == v@.subrange(i as int, j - 1)[k]);
            }
        }
    }
    j
}

/// Where `c` first stands in `s`, or the length of `s` where it stands nowhere.
pub open spec fn first_index_of(s: Seq<char>, c: char) -> int
    decreases s.len(),
{
    if s.len() == 0 {
        0
    } else if s[0] == c {
        0
    } else {
        1 + first_index_of(s.drop_first(), c)
    }
}

/// What stands in `s` before the first `c`: all of `s` where it holds no `c`.
pub open spec fn before_first(s: Seq<char>, c: char) -> Seq<char> {
    s.take(first_index_of(s, c))
}

/// What stands in `s` after the first `c`, where it holds one.
pub open spec fn after_first(s: Seq<char>, c: char) -> Option<Seq<char>> {
    if first_index_of(s, c) < s.len() {
        Some(s.skip(first_index_of(s, c) + 1))
    } else {
        None
    }
}

/// `first_index_of` is within the sequence, finds `c` where it stops short of the end,
/// and passes no `c` on its way.
pub proof fn lemma_first_index_of(s: Seq<char>, c: char)
    ensures
        0 <= first_index_of(s, c) <= s.len(),
        first_index_of(s, c) < s.len() ==> s[first_index_of(s, c)] == c,
        forall|k: int| 0 <= k < first_index_of(s, c) ==> s[k] != c,
    decreases s.len(),
{
    if s.len() > 0 && s[0] != c {
        let rest = s.drop_first();
        lemma_first_index_of(rest, c);
        assert forall|k: int| 0 <= k < first_index_of(s, c) implies s[k] != c by {
            if k > 0 {
                assert(s[k] == rest[k - 1]);
            }
        }
    }
}

/// The first position that holds `c` is the one that no `c` comes before.
pub proof fn lemma_first_index_unique(s: Seq<char>, c: char, i: int)
    requires
        0 <= i <= s.len(),
        i < s.len() ==> s[i] == c,
        forall|k: int| 0 <= k < i ==> s[k] != c,
    ensures
        first_index_of(s, c) == i,
{
    lemma_first_index_of(s, c);
}

/// Where `c` first stands in `v` from `from` on, or the length of `v`.
pub fn find_char(v: &Vec<char>, from: usize, c: char) -> (i: usize)
    requires
        from <= v.len(),
    ensures
        from <= i <= v.len(),
        i == from + first_index_of(v@.skip(from as int), c),
{
    let mut i: usize = from;
    while i < v.len() && v[i] != c
        invariant
            from <= i <= v.len(),
            forall|k: int| from <= k < i ==> v@[k] != c,
        decreases v.len() - i,
    {
        i += 1;
    }
    proof {
        let rest = v@.skip(from as int);
        assert forall|k: int| 0 <= k < i - from implies rest[k] != c by {
            assert(rest[k] == v@[k + from]);
        }
        lemma_first_index_unique(rest, c, i - from);
    }
    i
}

/// The characters of `v` from `from` up to `to`.
pub fn slice_chars(v: &Vec<char>, from: usize, to: usize) -> (out: Vec<char>)
    requires
        from <= to <= v.len(),
    ensures
        out@ == v@.subrange(from as int, to as int),
{
    let mut out: Vec<char> = Vec::new();
    let mut i: usize = from;
    while i < to
        invariant
            from <= i <= to <= v.len(),
            out@ == v@.subrange(from as int, i as int),
        decreases to - i,
    {
        out.push(v[i]);
        i += 1;
        assert(v@.subrange(from as int, i as int) =~= v@.subrange(from as int, i - 1).push(
            v@[i - 1],
        ));
    }
    out
}

/// Whether `a` and `b` hold the same characters.
pub fn same_chars(a: &Vec<char>, b: &Vec<char>) -> (r: bool)
    ensures
        r == (a@ == b@),
{
    let r = a.len() == b.len() && starts_at(a, 0, b);
    assert(r ==> a@ =~= a@.subrange(0, b@.len() as int));
    assert(a@ == b@ ==> a@.subrange(0, a@.len() as int) =~= b@);
    r
}

} // verus!
