//! The proxy directive grammar: the string a PAC script returns is a
//! semicolon-separated chain of `DIRECT`, `PROXY host:port` and
//! `SOCKS host:port` directives.  Keywords are case-insensitive, whitespace
//! around separators is trimmed, unrecognized or malformed directives are
//! skipped, and a chain with no valid directive degrades to a single
//! `DIRECT` (fail-open).

use vstd::prelude::*;

use crate::text::{
    all_digits, append_chars, copy_range, dec_fmt, dec_val, eq_ignore_case, fmt_u32,
    is_ascii_digit, is_pac_space, lemma_dec_fmt_digits, lemma_dec_roundtrip, lower_seq, pac_space,
    parse_dec_bounded, seq_eq_ci,
};

verus! {

#[derive(Clone, Copy, PartialEq, Eq, Structural, Debug)]
pub enum DirectiveKind {
    Direct,
    Proxy,
    Socks,
}

/// One routing instruction.  `Direct` carries no host or port; `Proxy` and
/// `Socks` carry both.
pub struct ProxyDirective {
    pub kind: DirectiveKind,
    pub host: Option<Vec<char>>,
    pub port: Option<u16>,
}

/// The mathematical value of a directive.
pub struct DirectiveV {
    pub kind: DirectiveKind,
    pub host: Option<Seq<char>>,
    pub port: Option<u16>,
}

impl View for ProxyDirective {
    type V = DirectiveV;

    open spec fn view(&self) -> DirectiveV {
        DirectiveV {
            kind: self.kind,
            host: match self.host {
                Some(h) => Some(h@),
                None => None,
            },
            port: self.port,
        }
    }
}

pub open spec fn chain_view(c: Seq<ProxyDirective>) -> Seq<DirectiveV> {
    c.map_values(|d: ProxyDirective| d@)
}

/// A host a directive may carry: nonempty, and free of the characters that
/// the grammar itself uses (separators, whitespace, the port colon).
pub open spec fn host_ok(h: Seq<char>) -> bool {
    &&& h.len() > 0
    &&& forall|i: int| 0 <= i < h.len() ==> !is_pac_space(h[i]) && h[i] != ';' && h[i] != ':'
}

pub open spec fn dir_wf(d: DirectiveV) -> bool {
    match d.kind {
        DirectiveKind::Direct => d.host is None && d.port is None,
        _ => d.host is Some && host_ok(d.host->0) && d.port is Some,
    }
}

/// A well-formed chain: nonempty, every directive well-formed.
pub open spec fn chain_wf(c: Seq<DirectiveV>) -> bool {
    &&& c.len() > 0
    &&& forall|i: int| 0 <= i < c.len() ==> dir_wf(c[i])
}

pub open spec fn direct_kw() -> Seq<char> {
    seq!['D', 'I', 'R', 'E', 'C', 'T']
}

pub open spec fn proxy_kw() -> Seq<char> {
    seq!['P', 'R', 'O', 'X', 'Y']
}

pub open spec fn socks_kw() -> Seq<char> {
    seq!['S', 'O', 'C', 'K', 'S']
}

/// The canonical text of one directive.
pub open spec fn s_fmt_dir(d: DirectiveV) -> Seq<char> {
    match d.kind {
        DirectiveKind::Direct => direct_kw(),
        DirectiveKind::Proxy => proxy_kw() + seq![' '] + d.host->0 + seq![':'] + dec_fmt(
            d.port->0 as int,
        ),
        DirectiveKind::Socks => socks_kw() + seq![' '] + d.host->0 + seq![':'] + dec_fmt(
            d.port->0 as int,
        ),
    }
}

/// The canonical text of a chain: directives joined by `"; "`.
pub open spec fn s_fmt_chain(c: Seq<DirectiveV>) -> Seq<char>
    decreases c.len(),
{
    if c.len() == 0 {
        seq![]
    } else if c.len() == 1 {
        s_fmt_dir(c[0])
    } else {
        s_fmt_dir(c[0]) + seq![';', ' '] + s_fmt_chain(c.skip(1))
    }
}

/// Index of the first `;` at or after `from`, or the length if there is none.
pub open spec fn next_semi(s: Seq<char>, from: int) -> int
    decreases s.len() - from,
{
    if from < 0 || from >= s.len() {
        s.len() as int
    } else if s[from] == ';' {
        from
    } else {
        next_semi(s, from + 1)
    }
}

/// The segments between semicolons, separators excluded.
pub open spec fn split_semi(s: Seq<char>) -> Seq<Seq<char>>
    decreases s.len(),
{
    let j = next_semi(s, 0);
    if j < 0 || j >= s.len() {
        seq![s]
    } else {
        seq![s.take(j)] + split_semi(s.skip(j + 1))
    }
}

/// Index of the first non-whitespace character at or after `from`.
pub open spec fn skip_spaces(s: Seq<char>, from: int) -> int
    decreases s.len() - from,
{
    if from < 0 || from >= s.len() {
        s.len() as int
    } else if is_pac_space(s[from]) {
        skip_spaces(s, from + 1)
    } else {
        from
    }
}

/// One past the last non-whitespace character before `to`.
pub open spec fn rskip_spaces(s: Seq<char>, to: int) -> int
    decreases to,
{
    if to <= 0 {
        0
    } else if is_pac_space(s[to - 1]) {
        rskip_spaces(s, to - 1)
    } else {
        to
    }
}

/// `s` with leading and trailing whitespace removed.
pub open spec fn s_trim(s: Seq<char>) -> Seq<char> {
    let a = skip_spaces(s, 0);
    let b = rskip_spaces(s, s.len() as int);
    if a < b {
        s.subrange(a, b)
    } else {
        seq![]
    }
}

/// Index of the last `:` strictly before `to`, or -1 if there is none.
pub open spec fn last_colon(s: Seq<char>, to: int) -> int
    decreases to,
{
    if to <= 0 {
        -1
    } else if s[to - 1] == ':' {
        to - 1
    } else {
        last_colon(s, to - 1)
    }
}

/// Parses `host:port` after a keyword: the split is at the last colon, the
/// host must be well-formed and the port a decimal 16-bit number.
pub open spec fn s_parse_hostport(kind: DirectiveKind, rest: Seq<char>) -> Option<DirectiveV> {
    let r = rest.skip(skip_spaces(rest, 0));
    let k = last_colon(r, r.len() as int);
    if k < 0 {
        None
    } else {
        let h = r.take(k);
        let p = r.skip(k + 1);
        if host_ok(h) && p.len() > 0 && all_digits(p) && dec_val(p) <= 65535 {
            Some(
                DirectiveV {
                    kind: kind,
                    host: Some(h),
                    port: Some(dec_val(p) as u16),
                },
            )
        } else {
            None
        }
    }
}

/// Parses one raw segment; `None` means the segment is skipped.
pub open spec fn s_parse_seg(raw: Seq<char>) -> Option<DirectiveV> {
    let t = s_trim(raw);
    if t.len() == 0 {
        None
    } else if seq_eq_ci(t, direct_kw()) {
        Some(DirectiveV { kind: DirectiveKind::Direct, host: None, port: None })
    } else if t.len() > 5 && seq_eq_ci(t.take(5), proxy_kw()) && is_pac_space(t[5]) {
        s_parse_hostport(DirectiveKind::Proxy, t.skip(5))
    } else if t.len() > 5 && seq_eq_ci(t.take(5), socks_kw()) && is_pac_space(t[5]) {
        s_parse_hostport(DirectiveKind::Socks, t.skip(5))
    } else {
        None
    }
}

/// The directives of the valid segments, in order.
pub open spec fn s_valid_dirs(segs: Seq<Seq<char>>, i: int) -> Seq<DirectiveV>
    decreases segs.len() - i,
{
    if i < 0 || i >= segs.len() {
        seq![]
    } else {
        match s_parse_seg(segs[i]) {
            Some(d) => seq![d] + s_valid_dirs(segs, i + 1),
            None => s_valid_dirs(segs, i + 1),
        }
    }
}

pub open spec fn direct_chain() -> Seq<DirectiveV> {
    seq![DirectiveV { kind: DirectiveKind::Direct, host: None, port: None }]
}

/// What parsing a raw return string yields: the valid directives, or the
/// single fail-open `DIRECT` when there are none.
pub open spec fn s_parse_chain(s: Seq<char>) -> Seq<DirectiveV> {
    let v = s_valid_dirs(split_semi(s), 0);
    if v.len() == 0 {
        direct_chain()
    } else {
        v
    }
}

fn direct_kw_x() -> (r: Vec<char>)
    ensures
        r@ == direct_kw(),
{
    let mut v: Vec<char> = Vec::new();
    v.push('D');
    v.push('I');
    v.push('R');
    v.push('E');
    v.push('C');
    v.push('T');
    proof {
        assert(v@ =~= direct_kw());
    }
    v
}

fn proxy_kw_x() -> (r: Vec<char>)
    ensures
        r@ == proxy_kw(),
{
    let mut v: Vec<char> = Vec::new();
    v.push('P');
    v.push('R');
    v.push('O');
    v.push('X');
    v.push('Y');
    proof {
        assert(v@ =~= proxy_kw());
    }
    v
}

fn socks_kw_x() -> (r: Vec<char>)
    ensures
        r@ == socks_kw(),
{
    let mut v: Vec<char> = Vec::new();
    v.push('S');
    v.push('O');
    v.push('C');
    v.push('K');
    v.push('S');
    proof {
        assert(v@ =~= socks_kw());
    }
    v
}

/// First `;` at or after `from`, or the length.
fn find_semi(v: &Vec<char>, from: usize) -> (j: usize)
    requires
        from <= v@.len(),
    ensures
        from <= j <= v@.len(),
        j < v@.len() ==> v@[j as int] == ';',
        forall|m: int| from <= m < j ==> v@[m] != ';',
{
    let mut i: usize = from;
    while i < v.len()
        invariant
            from <= i <= v@.len(),
            forall|m: int| from <= m < i ==> v@[m] != ';',
        decreases v@.len() - i,
    {
        if v[i] == ';' {
            return i;
        }
        i = i + 1;
    }
    i
}

/// The first-occurrence characterization of `next_semi`.
proof fn lemma_next_semi_at(s: Seq<char>, a: int, b: int)
    requires
        0 <= a <= b <= s.len(),
        forall|m: int| a <= m < b ==> s[m] != ';',
        b == s.len() || s[b] == ';',
    ensures
        next_semi(s, a) == if b == s.len() {
            s.len() as int
        } else {
            b
        },
    decreases b - a,
{
    if a < b {
        lemma_next_semi_at(s, a + 1, b);
    }
}

pub open spec fn segs_view(vv: Seq<Vec<char>>) -> Seq<Seq<char>> {
    vv.map_values(|x: Vec<char>| x@)
}

/// Splits the raw chain on semicolons.
pub fn split_semi_x(v: &Vec<char>) -> (r: Vec<Vec<char>>)
    ensures
        segs_view(r@) == split_semi(v@),
{
    let mut out: Vec<Vec<char>> = Vec::new();
    let mut i: usize = 0;
    proof {
        assert(v@.skip(0) =~= v@);
        assert(segs_view(out@) + split_semi(v@) =~= split_semi(v@));
    }
    loop
        invariant
            i <= v@.len(),
            split_semi(v@) == segs_view(out@) + split_semi(v@.skip(i as int)),
        decreases v@.len() - i + 1,
    {
        let j = find_semi(v, i);
        let seg = copy_range(v, i, j);
        let ghost rem = v@.skip(i as int);
        let ghost out0 = out@;
        proof {
            assert(forall|m: int| 0 <= m < j - i ==> rem[m] == v@[m + i] && rem[m] != ';');
            if j < v@.len() {
                assert(rem[j - i] == ';');
            }
            lemma_next_semi_at(rem, 0, j - i);
            assert(rem.take(j - i) =~= v@.subrange(i as int, j as int));
        }
        if j == v.len() {
            out.push(seg);
            proof {
                assert(split_semi(rem) == seq![rem]);
                assert(rem =~= v@.subrange(i as int, j as int));
                assert(segs_view(out@) =~= segs_view(out0) + seq![rem]);
                assert(segs_view(out@) =~= split_semi(v@));
            }
            return out;
        }
        out.push(seg);
        proof {
            assert(split_semi(rem) == seq![rem.take(j - i)] + split_semi(rem.skip(j - i + 1)));
            assert(rem.skip(j - i + 1) =~= v@.skip(j + 1));
            assert(segs_view(out@) =~= segs_view(out0) + seq![seg@]);
            assert(segs_view(out@) + split_semi(v@.skip(j + 1)) =~= split_semi(v@));
        }
        i = j + 1;
    }
}

/// First non-whitespace position at or after `from`.
fn find_nonspace(v: &Vec<char>, from: usize, to: usize) -> (a: usize)
    requires
        from <= to <= v@.len(),
    ensures
        from <= a <= to,
        a < to ==> !is_pac_space(v@[a as int]),
        forall|m: int| from <= m < a ==> is_pac_space(v@[m]),
    decreases to - from,
{
    let mut i: usize = from;
    while i < to
        invariant
            from <= i <= to <= v@.len(),
            forall|m: int| from <= m < i ==> is_pac_space(v@[m]),
        decreases to - i,
    {
        if !pac_space(v[i]) {
            return i;
        }
        i = i + 1;
    }
    i
}

proof fn lemma_skip_spaces_at(s: Seq<char>, from: int, a: int)
    requires
        0 <= from <= a <= s.len(),
        forall|m: int| from <= m < a ==> is_pac_space(s[m]),
        a == s.len() || !is_pac_space(s[a]),
    ensures
        skip_spaces(s, from) == if a == s.len() {
            s.len() as int
        } else {
            a
        },
    decreases a - from,
{
    if from < a {
        lemma_skip_spaces_at(s, from + 1, a);
    }
}

proof fn lemma_rskip_spaces_at(s: Seq<char>, to: int, b: int)
    requires
        0 <= b <= to <= s.len(),
        forall|m: int| b <= m < to ==> is_pac_space(s[m]),
        b == 0 || !is_pac_space(s[b - 1]),
    ensures
        rskip_spaces(s, to) == b,
    decreases to - b,
{
    if b < to {
        lemma_rskip_spaces_at(s, to - 1, b);
    }
}

/// Last non-whitespace position before `to`, exclusive; `a` when all of
/// `[a, to)` is whitespace.
fn find_nonspace_rev(v: &Vec<char>, a: usize, to: usize) -> (b: usize)
    requires
        a <= to <= v@.len(),
    ensures
        a <= b <= to,
        forall|m: int| b <= m < to ==> is_pac_space(v@[m]),
        b > a ==> !is_pac_space(v@[b - 1]),
{
    let mut i: usize = to;
    while i > a
        invariant
            a <= i <= to <= v@.len(),
            forall|m: int| i <= m < to ==> is_pac_space(v@[m]),
        decreases i,
    {
        if !pac_space(v[i - 1]) {
            return i;
        }
        i = i - 1;
    }
    i
}

/// Trims leading and trailing whitespace.
pub fn trim_x(v: &Vec<char>) -> (r: Vec<char>)
    ensures
        r@ == s_trim(v@),
{
    let a = find_nonspace(v, 0, v.len());
    proof {
        lemma_skip_spaces_at(v@, 0, a as int);
    }
    if a == v.len() {
        proof {
            lemma_rskip_spaces_at(v@, v@.len() as int, 0);
        }
        let r: Vec<char> = Vec::new();
        proof {
            assert(r@ =~= s_trim(v@));
        }
        return r;
    }
    let b = find_nonspace_rev(v, a, v.len());
    proof {
        if b <= a {
            assert(is_pac_space(v@[a as int]));
        }
        assert(b > a);
        lemma_rskip_spaces_at(v@, v@.len() as int, b as int);
    }
    copy_range(v, a, b)
}

fn host_ok_x(h: &Vec<char>) -> (r: bool)
    ensures
        r == host_ok(h@),
{
    if h.len() == 0 {
        return false;
    }
    let mut i: usize = 0;
    while i < h.len()
        invariant
            i <= h@.len(),
            forall|m: int| 0 <= m < i ==> !is_pac_space(h@[m]) && h@[m] != ';' && h@[m] != ':',
        decreases h@.len() - i,
    {
        let c = h[i];
        if pac_space(c) || c == ';' || c == ':' {
            return false;
        }
        i = i + 1;
    }
    true
}

/// Last `:` strictly before `to`, or `None`.
fn find_last_colon(v: &Vec<char>, to: usize) -> (r: Option<usize>)
    requires
        to <= v@.len(),
    ensures
        match r {
            Some(k) => k as int == last_colon(v@, to as int) && k < to && v@[k as int] == ':',
            None => last_colon(v@, to as int) == -1,
        },
{
    let mut i: usize = to;
    while i > 0
        invariant
            i <= to <= v@.len(),
            last_colon(v@, to as int) == last_colon(v@, i as int),
        decreases i,
    {
        if v[i - 1] == ':' {
            return Some(i - 1);
        }
        i = i - 1;
    }
    None
}

fn parse_hostport_x(kind: DirectiveKind, t: &Vec<char>, from: usize) -> (r: Option<ProxyDirective>)
    requires
        from <= t@.len(),
        !(kind is Direct),
    ensures
        match r {
            Some(d) => s_parse_hostport(kind, t@.skip(from as int)) == Some(d@) && dir_wf(d@),
            None => s_parse_hostport(kind, t@.skip(from as int)) is None,
        },
{
    let ghost rest = t@.skip(from as int);
    let a = find_nonspace(t, from, t.len());
    proof {
        assert(forall|m: int| 0 <= m < a - from ==> rest[m] == t@[m + from]);
        if a < t.len() {
            assert(rest[a - from] == t@[a as int]);
        }
        lemma_skip_spaces_at(rest, 0, a - from);
    }
    let rv = copy_range(t, a, t.len());
    proof {
        assert(rv@ =~= rest.skip(skip_spaces(rest, 0)));
    }
    let k = match find_last_colon(&rv, rv.len()) {
        None => {
            return None;
        },
        Some(k) => k,
    };
    let host = copy_range(&rv, 0, k);
    proof {
        assert(host@ =~= rv@.take(k as int));
    }
    if !host_ok_x(&host) {
        return None;
    }
    let port = match parse_dec_bounded(&rv, k + 1, rv.len(), 65535) {
        None => {
            proof {
                assert(rv@.subrange(k + 1, rv@.len() as int) =~= rv@.skip(k + 1));
            }
            return None;
        },
        Some(p) => p,
    };
    proof {
        assert(rv@.subrange(k + 1, rv@.len() as int) =~= rv@.skip(k + 1));
    }
    Some(ProxyDirective { kind: kind, host: Some(host), port: Some(port as u16) })
}

/// Parses one raw segment of the chain; `None` means it is skipped.
pub fn parse_seg_x(raw: &Vec<char>) -> (r: Option<ProxyDirective>)
    ensures
        match r {
            Some(d) => s_parse_seg(raw@) == Some(d@) && dir_wf(d@),
            None => s_parse_seg(raw@) is None,
        },
{
    let t = trim_x(raw);
    if t.len() == 0 {
        return None;
    }
    let dkw = direct_kw_x();
    if eq_ignore_case(&t, &dkw) {
        return Some(ProxyDirective { kind: DirectiveKind::Direct, host: None, port: None });
    }
    if t.len() > 5 {
        let head = copy_range(&t, 0, 5);
        proof {
            assert(head@ =~= t@.take(5));
        }
        let pkw = proxy_kw_x();
        if eq_ignore_case(&head, &pkw) && pac_space(t[5]) {
            return parse_hostport_x(DirectiveKind::Proxy, &t, 5);
        }
        let skw = socks_kw_x();
        if eq_ignore_case(&head, &skw) && pac_space(t[5]) {
            return parse_hostport_x(DirectiveKind::Socks, &t, 5);
        }
    }
    None
}

/// Parses the raw string a PAC script returned into a proxy chain.  The
/// result is exactly `s_parse_chain` of the input: the valid directives in
/// order, or the single fail-open `DIRECT` when there are none.
pub fn parse_chain(v: &Vec<char>) -> (r: Vec<ProxyDirective>)
    ensures
        chain_view(r@) == s_parse_chain(v@),
        chain_wf(chain_view(r@)),
{
    let segs = split_semi_x(v);
    let mut out: Vec<ProxyDirective> = Vec::new();
    let mut i: usize = 0;
    proof {
        assert(chain_view(out@) + s_valid_dirs(segs_view(segs@), 0) =~= s_valid_dirs(
            segs_view(segs@),
            0,
        ));
    }
    while i < segs.len()
        invariant
            i <= segs@.len(),
            s_valid_dirs(segs_view(segs@), 0) == chain_view(out@) + s_valid_dirs(
                segs_view(segs@),
                i as int,
            ),
            forall|m: int| 0 <= m < out@.len() ==> dir_wf(chain_view(out@)[m]),
        decreases segs@.len() - i,
    {
        let ghost out0 = out@;
        match parse_seg_x(&segs[i]) {
            Some(d) => {
                proof {
                    assert(segs_view(segs@)[i as int] == segs@[i as int]@);
                }
                out.push(d);
                proof {
                    assert(chain_view(out@) =~= chain_view(out0).push(out@.last()@));
                    assert(s_valid_dirs(segs_view(segs@), 0) =~= chain_view(out@) + s_valid_dirs(
                        segs_view(segs@),
                        i + 1,
                    ));
                }
            },
            None => {
                proof {
                    assert(segs_view(segs@)[i as int] == segs@[i as int]@);
                }
            },
        }
        i = i + 1;
    }
    proof {
        assert(s_valid_dirs(segs_view(segs@), segs@.len() as int) =~= Seq::<DirectiveV>::empty());
        assert(chain_view(out@) =~= s_valid_dirs(segs_view(segs@), 0));
    }
    if out.len() == 0 {
        let mut r: Vec<ProxyDirective> = Vec::new();
        r.push(ProxyDirective { kind: DirectiveKind::Direct, host: None, port: None });
        proof {
            assert(chain_view(r@) =~= direct_chain());
        }
        r
    } else {
        out
    }
}

/// Writes one well-formed directive in its canonical text form.
pub fn format_directive(d: &ProxyDirective) -> (r: Vec<char>)
    requires
        dir_wf(d@),
    ensures
        r@ == s_fmt_dir(d@),
{
    match d.kind {
        DirectiveKind::Direct => direct_kw_x(),
        DirectiveKind::Proxy => {
            let mut out = proxy_kw_x();
            out.push(' ');
            let host = match &d.host {
                Some(h) => h,
                None => {
                    proof {
                        assert(false);
                    }
                    unreached()
                },
            };
            append_chars(&mut out, host);
            out.push(':');
            let port = match d.port {
                Some(p) => p,
                None => {
                    proof {
                        assert(false);
                    }
                    unreached()
                },
            };
            let digits = fmt_u32(port as u32);
            append_chars(&mut out, &digits);
            proof {
                assert(out@ =~= s_fmt_dir(d@));
            }
            out
        },
        DirectiveKind::Socks => {
            let mut out = socks_kw_x();
            out.push(' ');
            let host = match &d.host {
                Some(h) => h,
                None => {
                    proof {
                        assert(false);
                    }
                    unreached()
                },
            };
            append_chars(&mut out, host);
            out.push(':');
            let port = match d.port {
                Some(p) => p,
                None => {
                    proof {
                        assert(false);
                    }
                    unreached()
                },
            };
            let digits = fmt_u32(port as u32);
            append_chars(&mut out, &digits);
            proof {
                assert(out@ =~= s_fmt_dir(d@));
            }
            out
        },
    }
}

fn format_chain_from(c: &Vec<ProxyDirective>, i: usize) -> (r: Vec<char>)
    requires
        i < c@.len(),
        chain_wf(chain_view(c@)),
    ensures
        r@ == s_fmt_chain(chain_view(c@).skip(i as int)),
    decreases c@.len() - i,
{
    proof {
        assert(chain_view(c@)[i as int] == c@[i as int]@);
    }
    let n = c.len();
    let mut out = format_directive(&c[i]);
    let ghost tail = chain_view(c@).skip(i as int);
    if i == n - 1 {
        proof {
            assert(tail.len() == 1);
            assert(tail[0] == c@[i as int]@);
            assert(out@ =~= s_fmt_chain(tail));
        }
        out
    } else {
        out.push(';');
        out.push(' ');
        let rest = format_chain_from(c, i + 1);
        append_chars(&mut out, &rest);
        proof {
            assert(tail.skip(1) =~= chain_view(c@).skip(i + 1));
            assert(tail[0] == c@[i as int]@);
            assert(out@ =~= s_fmt_chain(tail));
        }
        out
    }
}

/// A whitespace-only prefix, as the joined form puts one blank after each
/// separator.
spec fn all_spaces(ps: Seq<char>) -> bool {
    forall|i: int| 0 <= i < ps.len() ==> is_pac_space(ps[i])
}

/// The canonical text of a well-formed directive is nonempty, has no
/// semicolon, and neither starts nor ends with whitespace.
proof fn lemma_fmt_dir_facts(d: DirectiveV)
    requires
        dir_wf(d),
    ensures
        s_fmt_dir(d).len() >= 6,
        forall|i: int| 0 <= i < s_fmt_dir(d).len() ==> #[trigger] s_fmt_dir(d)[i] != ';',
        !is_pac_space(s_fmt_dir(d)[0]),
        !is_pac_space(s_fmt_dir(d).last()),
{
    let s = s_fmt_dir(d);
    match d.kind {
        DirectiveKind::Direct => {
            assert(forall|i: int| 0 <= i < s.len() ==> #[trigger] s[i] != ';') by {
                assert(s =~= direct_kw());
            }
        },
        _ => {
            let kw = if d.kind is Proxy {
                proxy_kw()
            } else {
                socks_kw()
            };
            let h = d.host->0;
            let p = dec_fmt(d.port->0 as int);
            lemma_dec_fmt_digits(d.port->0 as int);
            assert(s =~= kw + seq![' '] + h + seq![':'] + p);
            assert forall|i: int| 0 <= i < s.len() implies #[trigger] s[i] != ';' by {
                if i < 5 {
                } else if i == 5 {
                } else if i < 6 + h.len() {
                    assert(s[i] == h[i - 6]);
                } else if i == 6 + h.len() {
                } else {
                    assert(s[i] == p[i - 7 - h.len()]);
                    assert(is_ascii_digit(s[i]));
                }
            }
            assert(s.last() == p[p.len() - 1]);
            assert(is_ascii_digit(s.last()));
            assert(s[0] == kw[0]);
        },
    }
}

/// Trimming strips a whitespace prefix and nothing of a body that neither
/// starts nor ends with whitespace.
proof fn lemma_trim_pad(ps: Seq<char>, x: Seq<char>)
    requires
        all_spaces(ps),
        x.len() > 0,
        !is_pac_space(x[0]),
        !is_pac_space(x.last()),
    ensures
        s_trim(ps + x) == x,
{
    let s = ps + x;
    assert(s[ps.len() as int] == x[0]);
    lemma_skip_spaces_at(s, 0, ps.len() as int);
    assert(!is_pac_space(s[s.len() - 1]));
    lemma_rskip_spaces_at(s, s.len() as int, s.len() as int);
    assert(s.subrange(ps.len() as int, s.len() as int) =~= x);
}

/// The last-occurrence characterization of `last_colon`.
proof fn lemma_last_colon_at(s: Seq<char>, to: int, m: int)
    requires
        0 <= to <= s.len(),
        -1 <= m < to,
        m >= 0 ==> s[m] == ':',
        forall|j: int| m < j < to ==> s[j] != ':',
    ensures
        last_colon(s, to) == m,
    decreases to,
{
    if to > 0 && s[to - 1] != ':' {
        lemma_last_colon_at(s, to - 1, m);
    }
}

/// Lower-casing two different keywords gives different strings.
proof fn lemma_kw_distinct()
    ensures
        !seq_eq_ci(socks_kw(), proxy_kw()),
{
    assert(lower_seq(socks_kw())[0] as u32 == 115);
    assert(lower_seq(proxy_kw())[0] as u32 == 112);
}

/// Re-parsing one formatted directive, behind any whitespace padding, gives
/// the directive back.
proof fn lemma_parse_fmt_dir(ps: Seq<char>, d: DirectiveV)
    requires
        all_spaces(ps),
        dir_wf(d),
    ensures
        s_parse_seg(ps + s_fmt_dir(d)) == Some(d),
{
    let s = s_fmt_dir(d);
    lemma_fmt_dir_facts(d);
    lemma_trim_pad(ps, s);
    let t = s_trim(ps + s);
    assert(t == s);
    match d.kind {
        DirectiveKind::Direct => {
            assert(t =~= direct_kw());
        },
        _ => {
            let kw = if d.kind is Proxy {
                proxy_kw()
            } else {
                socks_kw()
            };
            let h = d.host->0;
            let p = dec_fmt(d.port->0 as int);
            lemma_dec_fmt_digits(d.port->0 as int);
            assert(s =~= kw + seq![' '] + h + seq![':'] + p);
            // not the DIRECT keyword: the lengths differ
            assert(lower_seq(t).len() == t.len());
            assert(lower_seq(direct_kw()).len() == 6);
            assert(t.len() >= 8);
            assert(!seq_eq_ci(t, direct_kw()));
            assert(t.take(5) =~= kw);
            if d.kind is Socks {
                lemma_kw_distinct();
                assert(t.take(5) == socks_kw());
                assert(!seq_eq_ci(t.take(5), proxy_kw()));
            }
            assert(t[5] == ' ');
            // the host:port tail
            let rest = t.skip(5);
            assert(rest =~= seq![' '] + h + seq![':'] + p);
            assert(rest[1] == h[0]);
            lemma_skip_spaces_at(rest, 0, 1);
            let r = rest.skip(1);
            assert(r =~= h + seq![':'] + p);
            assert(r[h.len() as int] == ':');
            assert forall|j: int| h.len() < j < r.len() implies r[j] != ':' by {
                assert(r[j] == p[j - h.len() - 1]);
                assert(is_ascii_digit(r[j]));
            }
            lemma_last_colon_at(r, r.len() as int, h.len() as int);
            assert(r.take(h.len() as int) =~= h);
            assert(r.skip(h.len() as int + 1) =~= p);
            lemma_dec_roundtrip(d.port->0 as int);
            assert(s_parse_hostport(d.kind, rest) == Some(d));
        },
    }
}

/// Dropping the first segment shifts the valid-directive fold by one.
proof fn lemma_valid_dirs_cons(segs: Seq<Seq<char>>, i: int)
    requires
        1 <= i <= segs.len(),
    ensures
        s_valid_dirs(segs, i) == s_valid_dirs(segs.skip(1), i - 1),
    decreases segs.len() - i,
{
    if i < segs.len() {
        lemma_valid_dirs_cons(segs, i + 1);
        assert(segs.skip(1)[i - 1] == segs[i]);
    }
}

/// Splitting and re-parsing a formatted chain, behind any whitespace
/// padding, gives the chain back.
proof fn lemma_parse_fmt_chain(ps: Seq<char>, c: Seq<DirectiveV>)
    requires
        all_spaces(ps),
        chain_wf(c),
    ensures
        s_valid_dirs(split_semi(ps + s_fmt_chain(c)), 0) == c,
    decreases c.len(),
{
    let s = ps + s_fmt_chain(c);
    lemma_fmt_dir_facts(c[0]);
    let f0 = s_fmt_dir(c[0]);
    if c.len() == 1 {
        assert(s =~= ps + f0);
        assert(forall|j: int| 0 <= j < s.len() ==> s[j] != ';');
        lemma_next_semi_at(s, 0, s.len() as int);
        assert(split_semi(s) == seq![s]);
        lemma_parse_fmt_dir(ps, c[0]);
        assert(s_valid_dirs(seq![s], 0) =~= seq![c[0]] + s_valid_dirs(seq![s], 1));
        assert(s_valid_dirs(seq![s], 0) =~= c);
    } else {
        let rest = c.skip(1);
        assert(chain_wf(rest)) by {
            assert(forall|i: int| 0 <= i < rest.len() ==> rest[i] == c[i + 1]);
        }
        let tail = s_fmt_chain(rest);
        assert(s =~= ps + f0 + seq![';', ' '] + tail);
        let m = ps.len() + f0.len();
        assert(s[m as int] == ';');
        assert(forall|j: int| 0 <= j < ps.len() ==> s[j] == ps[j] && s[j] != ';');
        assert(forall|j: int| ps.len() <= j < m ==> s[j] == f0[j - ps.len()] && s[j] != ';');
        lemma_next_semi_at(s, 0, m as int);
        let segs = split_semi(s);
        assert(segs == seq![s.take(m as int)] + split_semi(s.skip(m as int + 1)));
        assert(s.take(m as int) =~= ps + f0);
        assert(s.skip(m as int + 1) =~= seq![' '] + tail);
        lemma_parse_fmt_chain(seq![' '], rest);
        lemma_parse_fmt_dir(ps, c[0]);
        let bsegs = split_semi(seq![' '] + tail);
        assert(segs =~= seq![ps + f0] + bsegs);
        assert(segs[0] == ps + f0);
        lemma_valid_dirs_cons(segs, 1);
        assert(segs.skip(1) =~= bsegs);
        assert(s_valid_dirs(segs, 0) =~= seq![c[0]] + s_valid_dirs(bsegs, 0));
        assert(s_valid_dirs(segs, 0) =~= c);
    }
}

proof fn lemma_parse_seg_wf(raw: Seq<char>)
    ensures
        s_parse_seg(raw) is Some ==> dir_wf(s_parse_seg(raw)->0),
{
}

proof fn lemma_valid_dirs_wf(segs: Seq<Seq<char>>, i: int)
    ensures
        forall|k: int|
            0 <= k < s_valid_dirs(segs, i).len() ==> dir_wf(#[trigger] s_valid_dirs(segs, i)[k]),
    decreases segs.len() - i,
{
    if 0 <= i < segs.len() {
        lemma_valid_dirs_wf(segs, i + 1);
        lemma_parse_seg_wf(segs[i]);
        let cur = s_valid_dirs(segs, i);
        let rest = s_valid_dirs(segs, i + 1);
        match s_parse_seg(segs[i]) {
            Some(d) => {
                assert(cur == seq![d] + rest);
                assert forall|k: int| 0 <= k < cur.len() implies dir_wf(cur[k]) by {
                    if k > 0 {
                        assert(cur[k] == rest[k - 1]);
                    }
                }
            },
            None => {
                assert(cur == rest);
            },
        }
    }
}

/// Fail-open: whatever string a script returns, parsing it yields a chain
/// that is nonempty and holds only well-formed directives, so a caller is
/// never left without a decision.
pub proof fn lemma_parse_chain_wf(s: Seq<char>)
    ensures
        chain_wf(s_parse_chain(s)),
{
    lemma_valid_dirs_wf(split_semi(s), 0);
}

/// Round trip: writing a well-formed chain in its text form and parsing the
/// text back yields the same chain.
pub proof fn lemma_chain_roundtrip(c: Seq<DirectiveV>)
    requires
        chain_wf(c),
    ensures
        s_parse_chain(s_fmt_chain(c)) == c,
{
    let s = s_fmt_chain(c);
    assert(Seq::<char>::empty() + s =~= s);
    lemma_parse_fmt_chain(Seq::<char>::empty(), c);
}

/// Writes a well-formed chain in its canonical text form: directives joined
/// by `"; "`.
pub fn format_chain(c: &Vec<ProxyDirective>) -> (r: Vec<char>)
    requires
        chain_wf(chain_view(c@)),
    ensures
        r@ == s_fmt_chain(chain_view(c@)),
{
    proof {
        assert(chain_view(c@).len() == c@.len());
    }
    let r = format_chain_from(c, 0);
    proof {
        assert(chain_view(c@).skip(0) =~= chain_view(c@));
    }
    r
}

} // verus!
