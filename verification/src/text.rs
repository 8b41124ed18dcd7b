//! Character and text helpers shared by the directive grammar, the PAC
//! standard library and the script front end: ASCII case folding, decimal
//! numerals, and conversions between `&str`, `Vec<char>` and `String`.

use vstd::prelude::*;

verus! {

/// The whitespace characters the directive grammar trims around separators.
pub open spec fn is_pac_space(c: char) -> bool {
    c == ' ' || c == '\t' || c == '\r' || c == '\n'
}

pub open spec fn is_ascii_upper(c: char) -> bool {
    65 <= c as u32 && c as u32 <= 90
}

pub open spec fn is_ascii_digit(c: char) -> bool {
    48 <= c as u32 && c as u32 <= 57
}

pub open spec fn digit_val(c: char) -> int {
    c as u32 - 48
}

/// ASCII case folding of one character; other characters are untouched.
pub open spec fn lower_char(c: char) -> char {
    if is_ascii_upper(c) {
        (((c as u32) + 32) as u8) as char
    } else {
        c
    }
}

/// ASCII case folding of a whole string.
pub open spec fn lower_seq(s: Seq<char>) -> Seq<char> {
    s.map_values(|c: char| lower_char(c))
}

/// Case-insensitive equality, ASCII folding only.
pub open spec fn seq_eq_ci(a: Seq<char>, b: Seq<char>) -> bool {
    lower_seq(a) == lower_seq(b)
}

pub fn pac_space(c: char) -> (r: bool)
    ensures
        r == is_pac_space(c),
{
    c == ' ' || c == '\t' || c == '\r' || c == '\n'
}

pub fn ascii_digit(c: char) -> (r: bool)
    ensures
        r == is_ascii_digit(c),
{
    let u = c as u32;
    48 <= u && u <= 57
}

pub fn to_lower_char(c: char) -> (r: char)
    ensures
        r == lower_char(c),
{
    let u = c as u32;
    if 65 <= u && u <= 90 {
        ((u + 32) as u8) as char
    } else {
        c
    }
}

pub fn lower_vec(v: &Vec<char>) -> (r: Vec<char>)
    ensures
        r@ == lower_seq(v@),
{
    let mut out: Vec<char> = Vec::new();
    let mut i: usize = 0;
    while i < v.len()
        invariant
            i <= v.len(),
            out@ == lower_seq(v@.take(i as int)),
        decreases v.len() - i,
    {
        out.push(to_lower_char(v[i]));
        i = i + 1;
        proof {
            assert(lower_seq(v@.take(i as int)) =~= lower_seq(v@.take(i - 1)).push(
                lower_char(v@[i - 1]),
            ));
        }
    }
    proof {
        assert(v@.take(v@.len() as int) =~= v@);
    }
    out
}

pub fn eq_ignore_case(a: &Vec<char>, b: &Vec<char>) -> (r: bool)
    ensures
        r == seq_eq_ci(a@, b@),
{
    if a.len() != b.len() {
        proof {
            assert(lower_seq(a@).len() != lower_seq(b@).len());
        }
        return false;
    }
    let mut i: usize = 0;
    while i < a.len()
        invariant
            a@.len() == b@.len(),
            i <= a.len(),
            forall|j: int| 0 <= j < i ==> lower_char(a@[j]) == lower_char(b@[j]),
        decreases a.len() - i,
    {
        if to_lower_char(a[i]) != to_lower_char(b[i]) {
            proof {
                assert(lower_seq(a@)[i as int] != lower_seq(b@)[i as int]);
            }
            return false;
        }
        i = i + 1;
    }
    proof {
        assert(lower_seq(a@) =~= lower_seq(b@));
    }
    true
}

/// Exact character-for-character equality of two character vectors.
pub fn chars_eq(a: &Vec<char>, b: &Vec<char>) -> (r: bool)
    ensures
        r == (a@ == b@),
{
    if a.len() != b.len() {
        return false;
    }
    let mut i: usize = 0;
    while i < a.len()
        invariant
            a@.len() == b@.len(),
            i <= a.len(),
            forall|j: int| 0 <= j < i ==> a@[j] == b@[j],
        decreases a.len() - i,
    {
        if a[i] != b[i] {
            return false;
        }
        i = i + 1;
    }
    proof {
        assert(a@ =~= b@);
    }
    true
}

pub fn str_to_chars(s: &str) -> (r: Vec<char>)
    ensures
        r@ == s@,
{
    let n = s.unicode_len();
    let mut out: Vec<char> = Vec::new();
    let mut i: usize = 0;
    while i < n
        invariant
            n == s@.len(),
            i <= n,
            out@ == s@.take(i as int),
        decreases n - i,
    {
        out.push(s.get_char(i));
        i = i + 1;
        proof {
            assert(s@.take(i as int) =~= s@.take(i - 1).push(s@[i - 1]));
        }
    }
    proof {
        assert(s@.take(n as int) =~= s@);
    }
    out
}

/// Appends all characters of `add` to `out`.
pub fn append_chars(out: &mut Vec<char>, add: &Vec<char>)
    ensures
        final(out)@ == old(out)@ + add@,
{
    let ghost start = out@;
    let mut i: usize = 0;
    while i < add.len()
        invariant
            i <= add@.len(),
            out@ == start + add@.take(i as int),
        decreases add@.len() - i,
    {
        out.push(add[i]);
        i = i + 1;
        proof {
            assert(start + add@.take(i as int) =~= (start + add@.take(i - 1)).push(add@[i - 1]));
        }
    }
    proof {
        assert(start + add@.take(add@.len() as int) =~= start + add@);
    }
}

/// Appends all bytes of `add` to `out`.
pub fn append_bytes(out: &mut Vec<u8>, add: &Vec<u8>)
    ensures
        final(out)@ == old(out)@ + add@,
{
    let ghost start = out@;
    let mut i: usize = 0;
    while i < add.len()
        invariant
            i <= add@.len(),
            out@ == start + add@.take(i as int),
        decreases add@.len() - i,
    {
        out.push(add[i]);
        i = i + 1;
        proof {
            assert(start + add@.take(i as int) =~= (start + add@.take(i - 1)).push(add@[i - 1]));
        }
    }
    proof {
        assert(start + add@.take(add@.len() as int) =~= start + add@);
    }
}

/// Copies the characters of `v` between `from` and `to`.
pub fn copy_range(v: &Vec<char>, from: usize, to: usize) -> (r: Vec<char>)
    requires
        from <= to <= v@.len(),
    ensures
        r@ == v@.subrange(from as int, to as int),
{
    let mut out: Vec<char> = Vec::new();
    let mut i: usize = from;
    while i < to
        invariant
            from <= i <= to <= v@.len(),
            out@ == v@.subrange(from as int, i as int),
        decreases to - i,
    {
        out.push(v[i]);
        i = i + 1;
        proof {
            assert(v@.subrange(from as int, i as int) =~= v@.subrange(from as int, i - 1).push(
                v@[i - 1],
            ));
        }
    }
    out
}

/// Relies on `core::iter::Iterator::collect` building a `String` from a
/// character iterator: the result holds exactly the iterated characters in
/// order.
#[verifier::external_body]
pub fn chars_to_string(v: &Vec<char>) -> (r: String)
    ensures
        r@ == v@,
{
    v.iter().collect()
}

/// The integer a digit string denotes, most significant digit first.
pub open spec fn dec_val(s: Seq<char>) -> int
    decreases s.len(),
{
    if s.len() == 0 {
        0
    } else {
        dec_val(s.drop_last()) * 10 + digit_val(s.last())
    }
}

pub open spec fn all_digits(s: Seq<char>) -> bool {
    forall|i: int| 0 <= i < s.len() ==> is_ascii_digit(s[i])
}

pub open spec fn digit_char(d: int) -> char {
    ((48 + d) as u8) as char
}

/// The canonical decimal numeral of `n`: no leading zeros, at least one digit.
pub open spec fn dec_fmt(n: int) -> Seq<char>
    decreases n,
{
    if n < 10 {
        seq![digit_char(n)]
    } else {
        dec_fmt(n / 10).push(digit_char(n % 10))
    }
}

/// A single decimal digit character reads back as its digit value.
pub proof fn lemma_digit_char(d: int)
    requires
        0 <= d < 10,
    ensures
        is_ascii_digit(digit_char(d)),
        digit_val(digit_char(d)) == d,
{
    assert((48 + d) as u8 == 48 + d);
    assert(((48 + d) as u8) as char as u32 == 48 + d);
}

pub proof fn lemma_dec_fmt_digits(n: int)
    requires
        0 <= n,
    ensures
        dec_fmt(n).len() >= 1,
        all_digits(dec_fmt(n)),
    decreases n,
{
    if n < 10 {
        lemma_digit_char(n);
    } else {
        lemma_dec_fmt_digits(n / 10);
        lemma_digit_char(n % 10);
    }
}

/// Reading the canonical numeral of `n` back gives `n`.
pub proof fn lemma_dec_roundtrip(n: int)
    requires
        0 <= n,
    ensures
        dec_val(dec_fmt(n)) == n,
    decreases n,
{
    if n < 10 {
        lemma_digit_char(n);
        assert(dec_val(seq![digit_char(n)]) == dec_val(seq![digit_char(n)].drop_last()) * 10
            + digit_val(digit_char(n)));
        assert(seq![digit_char(n)].drop_last() =~= Seq::<char>::empty());
    } else {
        lemma_dec_roundtrip(n / 10);
        lemma_digit_char(n % 10);
        let s = dec_fmt(n / 10).push(digit_char(n % 10));
        assert(s.drop_last() =~= dec_fmt(n / 10));
    }
}

/// Each further digit can only grow the value of a digit string.
pub proof fn lemma_dec_val_prefix(s: Seq<char>, i: int)
    requires
        all_digits(s),
        0 <= i <= s.len(),
    ensures
        dec_val(s) >= dec_val(s.take(i)),
        dec_val(s.take(i)) >= 0,
    decreases s.len() - i,
{
    if i == s.len() {
        assert(s.take(i) =~= s);
        lemma_dec_val_nonneg(s);
    } else {
        lemma_dec_val_prefix(s, i + 1);
        assert(s.take(i + 1).drop_last() =~= s.take(i));
        assert(s.take(i + 1).last() == s[i]);
        assert(dec_val(s.take(i + 1)) == dec_val(s.take(i)) * 10 + digit_val(s[i]));
        lemma_dec_val_nonneg(s.take(i));
    }
}

pub proof fn lemma_dec_val_nonneg(s: Seq<char>)
    requires
        all_digits(s),
    ensures
        dec_val(s) >= 0,
    decreases s.len(),
{
    if s.len() > 0 {
        assert(all_digits(s.drop_last()));
        lemma_dec_val_nonneg(s.drop_last());
    }
}

/// Parses an unsigned decimal numeral bounded by `bound`; `None` exactly when
/// the string is empty, holds a non-digit, or denotes a value above `bound`.
pub fn parse_dec_bounded(v: &Vec<char>, from: usize, to: usize, bound: u32) -> (r: Option<u32>)
    requires
        from <= to <= v@.len(),
    ensures
        match r {
            Some(n) => {
                &&& all_digits(v@.subrange(from as int, to as int))
                &&& to > from
                &&& n as int == dec_val(v@.subrange(from as int, to as int))
                &&& n <= bound
            },
            None => {
                ||| to == from
                ||| !all_digits(v@.subrange(from as int, to as int))
                ||| dec_val(v@.subrange(from as int, to as int)) > bound
            },
        },
{
    let ghost s = v@.subrange(from as int, to as int);
    if from == to {
        return None;
    }
    let mut acc: u32 = 0;
    let mut i: usize = from;
    while i < to
        invariant
            from <= i <= to <= v@.len(),
            s == v@.subrange(from as int, to as int),
            all_digits(s.take(i - from)),
            acc as int == dec_val(s.take(i - from)),
            acc <= bound,
        decreases to - i,
    {
        let c = v[i];
        if !ascii_digit(c) {
            proof {
                assert(s[i - from] == c);
                assert(!all_digits(s));
            }
            return None;
        }
        let d = (c as u32) - 48;
        proof {
            assert(s.take(i + 1 - from).drop_last() =~= s.take(i - from));
            assert(s.take(i + 1 - from).last() == s[i - from]);
            assert(s[i - from] == c);
        }
        if acc > bound / 10 || (acc == bound / 10 && d > bound % 10) {
            proof {
                assert(acc as int * 10 + d > bound);
                assert(dec_val(s.take(i + 1 - from)) > bound);
                lemma_dec_val_prefix_over(s, i + 1 - from, bound as int);
            }
            return None;
        }
        acc = acc * 10 + d;
        i = i + 1;
    }
    proof {
        assert(s.take(to - from) =~= s);
    }
    Some(acc)
}

/// Once a prefix already exceeds `bound`, the whole digit string does.
proof fn lemma_dec_val_prefix_over(s: Seq<char>, i: int, bound: int)
    requires
        0 <= i <= s.len(),
        all_digits(s.take(i)),
        dec_val(s.take(i)) > bound,
        bound >= 0,
    ensures
        !all_digits(s) || dec_val(s) > bound,
{
    if all_digits(s) {
        lemma_dec_val_prefix(s, i);
    }
}

/// Writes `n` as its canonical decimal numeral.
pub fn fmt_u64(n: u64) -> (r: Vec<char>)
    ensures
        r@ == dec_fmt(n as int),
    decreases n,
{
    if n < 10 {
        let c = ((48 + n) as u8) as char;
        let mut v: Vec<char> = Vec::new();
        v.push(c);
        proof {
            assert(v@ =~= seq![digit_char(n as int)]);
        }
        v
    } else {
        let mut v = fmt_u64(n / 10);
        v.push(((48 + n % 10) as u8) as char);
        v
    }
}

/// Writes `n` as its canonical decimal numeral.
pub fn fmt_u32(n: u32) -> (r: Vec<char>)
    ensures
        r@ == dec_fmt(n as int),
    decreases n,
{
    if n < 10 {
        let c = ((48 + n) as u8) as char;
        let mut v: Vec<char> = Vec::new();
        v.push(c);
        proof {
            assert(v@ =~= seq![digit_char(n as int)]);
        }
        v
    } else {
        let mut v = fmt_u32(n / 10);
        v.push(((48 + n % 10) as u8) as char);
        v
    }
}

} // verus!
