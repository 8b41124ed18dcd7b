//! The pure core of the PAC standard library: hostname predicates, shell
//! glob matching, dotted-quad addresses and subnet arithmetic.  Resolution
//! and clock-backed functions take their inputs (addresses, the current
//! moment) as explicit values; nothing here performs I/O.

use vstd::prelude::*;

use crate::text::{
    all_digits, dec_fmt, dec_val, fmt_u32, lower_seq, parse_dec_bounded, to_lower_char,
};

verus! {

/// True iff the host holds no dot: `isPlainHostName`.
pub open spec fn s_plain_host(h: Seq<char>) -> bool {
    forall|i: int| 0 <= i < h.len() ==> h[i] != '.'
}

pub fn is_plain_host_name(h: &Vec<char>) -> (r: bool)
    ensures
        r == s_plain_host(h@),
{
    let mut i: usize = 0;
    while i < h.len()
        invariant
            i <= h@.len(),
            forall|m: int| 0 <= m < i ==> h@[m] != '.',
        decreases h@.len() - i,
    {
        if h[i] == '.' {
            return false;
        }
        i = i + 1;
    }
    true
}

/// The number of dots in the host: `dnsDomainLevels`.
pub open spec fn s_dot_count(h: Seq<char>) -> int
    decreases h.len(),
{
    if h.len() == 0 {
        0
    } else {
        s_dot_count(h.drop_last()) + if h.last() == '.' {
            1int
        } else {
            0int
        }
    }
}

pub fn dns_domain_levels(h: &Vec<char>) -> (r: usize)
    ensures
        r as int == s_dot_count(h@),
{
    let mut i: usize = 0;
    let mut n: usize = 0;
    while i < h.len()
        invariant
            i <= h@.len(),
            n <= i,
            n as int == s_dot_count(h@.take(i as int)),
        decreases h@.len() - i,
    {
        proof {
            assert(h@.take(i + 1).drop_last() =~= h@.take(i as int));
            assert(h@.take(i + 1).last() == h@[i as int]);
        }
        if h[i] == '.' {
            n = n + 1;
        }
        i = i + 1;
    }
    proof {
        assert(h@.take(h@.len() as int) =~= h@);
    }
    n
}

/// Case-insensitive suffix match of `domain` against `host`: `dnsDomainIs`.
pub open spec fn s_domain_suffix(h: Seq<char>, d: Seq<char>) -> bool {
    h.len() >= d.len() && lower_seq(h).skip(h.len() - d.len()) == lower_seq(d)
}

pub fn dns_domain_is(h: &Vec<char>, d: &Vec<char>) -> (r: bool)
    ensures
        r == s_domain_suffix(h@, d@),
{
    if h.len() < d.len() {
        return false;
    }
    let off = h.len() - d.len();
    let mut j: usize = off;
    while j < h.len()
        invariant
            h@.len() >= d@.len(),
            off == h@.len() - d@.len(),
            off <= j <= h@.len(),
            forall|m: int|
                off <= m < j ==> lower_seq(h@)[m] == lower_seq(d@)[m - off],
        decreases h@.len() - j,
    {
        if to_lower_char(h[j]) != to_lower_char(d[j - off]) {
            proof {
                assert(lower_seq(h@)[j as int] != lower_seq(d@)[j - off]);
                assert(lower_seq(h@).skip(off as int)[j - off] == lower_seq(h@)[j as int]);
            }
            return false;
        }
        j = j + 1;
    }
    proof {
        assert(lower_seq(h@).skip(off as int) =~= lower_seq(d@));
    }
    true
}

/// Index of the first dot, or the length when there is none.
pub open spec fn first_dot(h: Seq<char>, from: int) -> int
    decreases h.len() - from,
{
    if from < 0 || from >= h.len() {
        h.len() as int
    } else if h[from] == '.' {
        from
    } else {
        first_dot(h, from + 1)
    }
}

/// `localHostOrDomainIs`: the host equals the host-domain pattern, or equals
/// its bare hostname part, the piece before the first dot.
pub open spec fn s_local_host_or_domain(h: Seq<char>, hd: Seq<char>) -> bool {
    h == hd || h == hd.take(first_dot(hd, 0))
}

proof fn lemma_first_dot_at(s: Seq<char>, a: int, b: int)
    requires
        0 <= a <= b <= s.len(),
        forall|m: int| a <= m < b ==> s[m] != '.',
        b == s.len() || s[b] == '.',
    ensures
        first_dot(s, a) == if b == s.len() {
            s.len() as int
        } else {
            b
        },
    decreases b - a,
{
    if a < b {
        lemma_first_dot_at(s, a + 1, b);
    }
}

pub fn local_host_or_domain_is(h: &Vec<char>, hd: &Vec<char>) -> (r: bool)
    ensures
        r == s_local_host_or_domain(h@, hd@),
{
    if crate::text::chars_eq(h, hd) {
        return true;
    }
    let b = find_dot(hd, 0);
    proof {
        lemma_first_dot_at(hd@, 0, b as int);
    }
    if b == hd.len() {
        proof {
            assert(hd@.take(first_dot(hd@, 0)) =~= hd@);
        }
        return false;
    }
    let bare = crate::text::copy_range(hd, 0, b);
    proof {
        assert(bare@ =~= hd@.take(first_dot(hd@, 0)));
    }
    crate::text::chars_eq(h, &bare)
}

/// Anchored shell glob match: `*` matches any run, `?` any one character,
/// everything else itself, case-sensitively: `shExpMatch`.
pub open spec fn s_glob_match(p: Seq<char>, s: Seq<char>) -> bool
    decreases p.len(), s.len(),
{
    if p.len() == 0 {
        s.len() == 0
    } else if p[0] == '*' {
        s_glob_match(p.skip(1), s) || (s.len() > 0 && s_glob_match(p, s.skip(1)))
    } else {
        s.len() > 0 && (p[0] == '?' || p[0] == s[0]) && s_glob_match(p.skip(1), s.skip(1))
    }
}

fn glob_match_from(p: &Vec<char>, s: &Vec<char>, pi: usize, si: usize) -> (r: bool)
    requires
        pi <= p@.len(),
        si <= s@.len(),
    ensures
        r == s_glob_match(p@.skip(pi as int), s@.skip(si as int)),
    decreases p@.len() - pi, s@.len() - si,
{
    let ghost sp = p@.skip(pi as int);
    let ghost ss = s@.skip(si as int);
    if pi == p.len() {
        return si == s.len();
    }
    proof {
        assert(sp[0] == p@[pi as int]);
        assert(sp.skip(1) =~= p@.skip(pi + 1));
        if si < s@.len() {
            assert(ss[0] == s@[si as int]);
            assert(ss.skip(1) =~= s@.skip(si + 1));
        }
    }
    if p[pi] == '*' {
        if glob_match_from(p, s, pi + 1, si) {
            return true;
        }
        if si < s.len() {
            return glob_match_from(p, s, pi, si + 1);
        }
        return false;
    }
    if si == s.len() {
        return false;
    }
    if p[pi] == '?' || p[pi] == s[si] {
        return glob_match_from(p, s, pi + 1, si + 1);
    }
    false
}

/// `shExpMatch(s, p)`: the glob pattern `p` must cover all of `s`.
pub fn sh_exp_match(s: &Vec<char>, p: &Vec<char>) -> (r: bool)
    ensures
        r == s_glob_match(p@, s@),
{
    let r = glob_match_from(p, s, 0, 0);
    proof {
        assert(p@.skip(0) =~= p@);
        assert(s@.skip(0) =~= s@);
    }
    r
}

/// The dotted-quad value, most significant octet first.
pub open spec fn quad_val(a: int, b: int, c: int, d: int) -> int {
    a * 0x1000000 + b * 0x10000 + c * 0x100 + d
}

/// What a dotted-quad string denotes: four decimal octets joined by dots.
pub open spec fn s_ipv4_of(s: Seq<char>) -> Option<u32> {
    let d1 = first_dot(s, 0);
    let d2 = first_dot(s, d1 + 1);
    let d3 = first_dot(s, d2 + 1);
    if d3 >= s.len() {
        None
    } else {
        let p1 = s.take(d1);
        let p2 = s.subrange(d1 + 1, d2);
        let p3 = s.subrange(d2 + 1, d3);
        let p4 = s.skip(d3 + 1);
        if octet_ok(p1) && octet_ok(p2) && octet_ok(p3) && octet_ok(p4) && s_plain_host(p4) {
            Some(quad_val(dec_val(p1), dec_val(p2), dec_val(p3), dec_val(p4)) as u32)
        } else {
            None
        }
    }
}

pub open spec fn octet_ok(p: Seq<char>) -> bool {
    p.len() > 0 && all_digits(p) && dec_val(p) <= 255
}

/// Parses a dotted-quad IPv4 address.
pub fn parse_ipv4(s: &Vec<char>) -> (r: Option<u32>)
    ensures
        r == s_ipv4_of(s@),
{
    let d1 = find_dot(s, 0);
    proof {
        lemma_first_dot_at(s@, 0, d1 as int);
    }
    if d1 == s.len() {
        proof {
            assert(first_dot(s@, d1 + 1) == s@.len());
        }
        return None;
    }
    let d2 = find_dot(s, d1 + 1);
    proof {
        lemma_first_dot_at_from(s@, d1 + 1, d2 as int);
    }
    if d2 == s.len() {
        proof {
            assert(first_dot(s@, d2 + 1) == s@.len());
        }
        return None;
    }
    let d3 = find_dot(s, d2 + 1);
    proof {
        lemma_first_dot_at_from(s@, d2 + 1, d3 as int);
    }
    if d3 == s.len() {
        return None;
    }
    let p1 = parse_dec_bounded(s, 0, d1, 255);
    let p2 = parse_dec_bounded(s, d1 + 1, d2, 255);
    let p3 = parse_dec_bounded(s, d2 + 1, d3, 255);
    let p4 = parse_dec_bounded(s, d3 + 1, s.len(), 255);
    proof {
        assert(s@.subrange(0, d1 as int) =~= s@.take(d1 as int));
        assert(s@.subrange(d3 + 1, s@.len() as int) =~= s@.skip(d3 + 1));
    }
    match (p1, p2, p3, p4) {
        (Some(a), Some(b), Some(c), Some(d)) => {
            proof {
                assert(s_plain_host(s@.skip(d3 + 1)));
            }
            Some(((a * 0x1000000) + (b * 0x10000) + (c * 0x100) + d) as u32)
        },
        _ => {
            proof {
                if p1 is None {
                } else if p2 is None {
                } else if p3 is None {
                } else {
                }
            }
            None
        },
    }
}

/// First dot at or after `from`, or the length.
fn find_dot(s: &Vec<char>, from: usize) -> (j: usize)
    requires
        from <= s@.len(),
    ensures
        from <= j <= s@.len(),
        j < s@.len() ==> s@[j as int] == '.',
        forall|m: int| from <= m < j ==> s@[m] != '.',
{
    let mut i: usize = from;
    while i < s.len()
        invariant
            from <= i <= s@.len(),
            forall|m: int| from <= m < i ==> s@[m] != '.',
        decreases s@.len() - i,
    {
        if s[i] == '.' {
            return i;
        }
        i = i + 1;
    }
    i
}

proof fn lemma_first_dot_at_from(s: Seq<char>, a: int, b: int)
    requires
        0 <= a <= b <= s.len(),
        forall|m: int| a <= m < b ==> s[m] != '.',
        b == s.len() || s[b] == '.',
    ensures
        first_dot(s, a) == if b == s.len() {
            s.len() as int
        } else {
            b
        },
    decreases b - a,
{
    lemma_first_dot_at(s, a, b);
}

/// The canonical dotted-quad text of an address.
pub open spec fn s_ipv4_fmt(ip: u32) -> Seq<char> {
    dec_fmt((ip as int) / 0x1000000) + seq!['.'] + dec_fmt(((ip as int) / 0x10000) % 256) + seq![
        '.',
    ] + dec_fmt(((ip as int) / 0x100) % 256) + seq!['.'] + dec_fmt((ip as int) % 256)
}

/// Writes an address as a dotted quad.
pub fn ipv4_fmt(ip: u32) -> (r: Vec<char>)
    ensures
        r@ == s_ipv4_fmt(ip),
{
    let mut out = fmt_u32(ip / 0x1000000);
    out.push('.');
    let b = fmt_u32((ip / 0x10000) % 256);
    crate::text::append_chars(&mut out, &b);
    out.push('.');
    let c = fmt_u32((ip / 0x100) % 256);
    crate::text::append_chars(&mut out, &c);
    out.push('.');
    let d = fmt_u32(ip % 256);
    crate::text::append_chars(&mut out, &d);
    proof {
        assert(out@ =~= s_ipv4_fmt(ip));
    }
    out
}

/// The subnet test of `isInNet`: the resolved address and the pattern agree
/// under the mask.
pub open spec fn s_in_net(ip: u32, pattern: u32, mask: u32) -> bool {
    (ip & mask) == (pattern & mask)
}

pub fn in_net(ip: u32, pattern: u32, mask: u32) -> (r: bool)
    ensures
        r == s_in_net(ip, pattern, mask),
{
    (ip & mask) == (pattern & mask)
}

} // verus!
