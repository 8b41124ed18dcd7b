//! The tokenizer of the PAC scripting subset.  It accepts ASCII-oriented
//! source with `//` and `/* */` comments, single- or double-quoted strings
//! with backslash escapes, decimal integers, identifiers and the operator
//! set the parser understands.  `None` means the source falls outside the
//! subset (an unterminated string or comment, an oversized number, or a
//! stray character).

use vstd::prelude::*;

use crate::text::ascii_digit;

verus! {

pub enum Tok {
    Id(Vec<char>),
    StrTok(Vec<char>),
    NumTok(i64),
    KwFunction,
    KwIf,
    KwElse,
    KwReturn,
    KwVar,
    KwWhile,
    KwTrue,
    KwFalse,
    KwNull,
    LParen,
    RParen,
    LBrace,
    RBrace,
    Comma,
    Semi,
    Dot,
    Assign,
    EqEq,
    NotEq,
    Le,
    Ge,
    Lt,
    Gt,
    Not,
    AndAnd,
    OrOr,
    Plus,
    Minus,
    Star,
    Slash,
    Percent,
    Question,
    Colon,
}

/// The mathematical value of a token.
pub enum TokV {
    IdV(Seq<char>),
    StrV(Seq<char>),
    NumV(i64),
    KwFunctionV,
    KwIfV,
    KwElseV,
    KwReturnV,
    KwVarV,
    KwWhileV,
    KwTrueV,
    KwFalseV,
    KwNullV,
    LParenV,
    RParenV,
    LBraceV,
    RBraceV,
    CommaV,
    SemiV,
    DotV,
    AssignV,
    EqEqV,
    NotEqV,
    LeV,
    GeV,
    LtV,
    GtV,
    NotV,
    AndAndV,
    OrOrV,
    PlusV,
    MinusV,
    StarV,
    SlashV,
    PercentV,
    QuestionV,
    ColonV,
}

impl View for Tok {
    type V = TokV;

    open spec fn view(&self) -> TokV {
        match self {
            Tok::Id(v) => TokV::IdV(v@),
            Tok::StrTok(v) => TokV::StrV(v@),
            Tok::NumTok(n) => TokV::NumV(*n),
            Tok::KwFunction => TokV::KwFunctionV,
            Tok::KwIf => TokV::KwIfV,
            Tok::KwElse => TokV::KwElseV,
            Tok::KwReturn => TokV::KwReturnV,
            Tok::KwVar => TokV::KwVarV,
            Tok::KwWhile => TokV::KwWhileV,
            Tok::KwTrue => TokV::KwTrueV,
            Tok::KwFalse => TokV::KwFalseV,
            Tok::KwNull => TokV::KwNullV,
            Tok::LParen => TokV::LParenV,
            Tok::RParen => TokV::RParenV,
            Tok::LBrace => TokV::LBraceV,
            Tok::RBrace => TokV::RBraceV,
            Tok::Comma => TokV::CommaV,
            Tok::Semi => TokV::SemiV,
            Tok::Dot => TokV::DotV,
            Tok::Assign => TokV::AssignV,
            Tok::EqEq => TokV::EqEqV,
            Tok::NotEq => TokV::NotEqV,
            Tok::Le => TokV::LeV,
            Tok::Ge => TokV::GeV,
            Tok::Lt => TokV::LtV,
            Tok::Gt => TokV::GtV,
            Tok::Not => TokV::NotV,
            Tok::AndAnd => TokV::AndAndV,
            Tok::OrOr => TokV::OrOrV,
            Tok::Plus => TokV::PlusV,
            Tok::Minus => TokV::MinusV,
            Tok::Star => TokV::StarV,
            Tok::Slash => TokV::SlashV,
            Tok::Percent => TokV::PercentV,
            Tok::Question => TokV::QuestionV,
            Tok::Colon => TokV::ColonV,
        }
    }
}

pub open spec fn toks_view(ts: Seq<Tok>) -> Seq<TokV> {
    ts.map_values(|t: Tok| t@)
}

pub open spec fn spec_space(c: char) -> bool {
    c == ' ' || c == '\t' || c == '\r' || c == '\n'
}

pub open spec fn spec_ident_start(c: char) -> bool {
    (65 <= c as u32 && c as u32 <= 90) || (97 <= c as u32 && c as u32 <= 122) || c == '_' || c
        == '$'
}

pub open spec fn spec_ident_char(c: char) -> bool {
    spec_ident_start(c) || crate::text::is_ascii_digit(c)
}

fn is_space_char(c: char) -> (r: bool)
    ensures
        r == spec_space(c),
{
    c == ' ' || c == '\t' || c == '\r' || c == '\n'
}

fn is_ident_start(c: char) -> (r: bool)
    ensures
        r == spec_ident_start(c),
{
    let u = c as u32;
    (65 <= u && u <= 90) || (97 <= u && u <= 122) || c == '_' || c == '$'
}

fn is_ident_char(c: char) -> (r: bool)
    ensures
        r == spec_ident_char(c),
{
    is_ident_start(c) || ascii_digit(c)
}

/// The keyword a spelled-out identifier denotes, if any.
pub open spec fn s_keyword_of(id: Seq<char>) -> Option<TokV> {
    if id == "function"@ {
        Some(TokV::KwFunctionV)
    } else if id == "if"@ {
        Some(TokV::KwIfV)
    } else if id == "else"@ {
        Some(TokV::KwElseV)
    } else if id == "return"@ {
        Some(TokV::KwReturnV)
    } else if id == "var"@ {
        Some(TokV::KwVarV)
    } else if id == "while"@ {
        Some(TokV::KwWhileV)
    } else if id == "true"@ {
        Some(TokV::KwTrueV)
    } else if id == "false"@ {
        Some(TokV::KwFalseV)
    } else if id == "null"@ {
        Some(TokV::KwNullV)
    } else {
        None
    }
}

/// Maps an identifier to its keyword token, if it is one.
fn keyword_of(id: &Vec<char>) -> (r: Option<Tok>)
    ensures
        match r {
            Some(t) => s_keyword_of(id@) == Some(t@),
            None => s_keyword_of(id@) is None,
        },
{
    if crate::text::chars_eq(id, &crate::text::str_to_chars("function")) {
        Some(Tok::KwFunction)
    } else if crate::text::chars_eq(id, &crate::text::str_to_chars("if")) {
        Some(Tok::KwIf)
    } else if crate::text::chars_eq(id, &crate::text::str_to_chars("else")) {
        Some(Tok::KwElse)
    } else if crate::text::chars_eq(id, &crate::text::str_to_chars("return")) {
        Some(Tok::KwReturn)
    } else if crate::text::chars_eq(id, &crate::text::str_to_chars("var")) {
        Some(Tok::KwVar)
    } else if crate::text::chars_eq(id, &crate::text::str_to_chars("while")) {
        Some(Tok::KwWhile)
    } else if crate::text::chars_eq(id, &crate::text::str_to_chars("true")) {
        Some(Tok::KwTrue)
    } else if crate::text::chars_eq(id, &crate::text::str_to_chars("false")) {
        Some(Tok::KwFalse)
    } else if crate::text::chars_eq(id, &crate::text::str_to_chars("null")) {
        Some(Tok::KwNull)
    } else {
        None
    }
}

/// First newline at or after `j`, or the length.
pub open spec fn s_line_end(src: Seq<char>, j: int) -> int
    decreases src.len() - j,
{
    if j < 0 || j >= src.len() {
        src.len() as int
    } else if src[j] == '\n' {
        j
    } else {
        s_line_end(src, j + 1)
    }
}

/// First closing `*/` starting at or after `j`, or `None`.
pub open spec fn s_block_end(src: Seq<char>, j: int) -> Option<int>
    decreases src.len() - j,
{
    if j < 0 || j + 1 >= src.len() {
        None
    } else if src[j] == '*' && src[j + 1] == '/' {
        Some(j)
    } else {
        s_block_end(src, j + 1)
    }
}

/// First non-identifier character at or after `j`, or the length.
pub open spec fn s_ident_end(src: Seq<char>, j: int) -> int
    decreases src.len() - j,
{
    if j < 0 || j >= src.len() {
        src.len() as int
    } else if !spec_ident_char(src[j]) {
        j
    } else {
        s_ident_end(src, j + 1)
    }
}

/// The unescaped text of a quoted string body and the index just past the
/// closing quote; `None` when the string never closes.
pub open spec fn s_scan_string(src: Seq<char>, j: int, quote: char) -> Option<(Seq<char>, int)>
    decreases src.len() - j,
{
    if j < 0 || j >= src.len() {
        None
    } else if src[j] == quote {
        Some((seq![], j + 1))
    } else if src[j] == '\\' {
        if j + 1 >= src.len() {
            None
        } else {
            let e = src[j + 1];
            let ch = if e == 'n' {
                '\n'
            } else if e == 't' {
                '\t'
            } else {
                e
            };
            match s_scan_string(src, j + 2, quote) {
                None => None,
                Some(p) => Some((seq![ch] + p.0, p.1)),
            }
        }
    } else {
        match s_scan_string(src, j + 1, quote) {
            None => None,
            Some(p) => Some((seq![src[j]] + p.0, p.1)),
        }
    }
}

/// The value and end of a decimal number starting at `j`, folded onto
/// `acc`; `None` when the number does not fit a script number.
pub open spec fn s_scan_num(src: Seq<char>, j: int, acc: int) -> Option<(int, int)>
    decreases src.len() - j,
{
    if j < 0 || j > src.len() {
        None
    } else if j == src.len() || !crate::text::is_ascii_digit(src[j]) {
        Some((acc, j))
    } else {
        let d = crate::text::digit_val(src[j]);
        if acc > 0xccc_cccc_cccc_cccb {
            None
        } else if acc * 10 + d > 0x7fff_ffff_ffff_ffff {
            None
        } else {
            s_scan_num(src, j + 1, acc * 10 + d)
        }
    }
}

pub open spec fn s_cons_tok(t: TokV, rest: Option<Seq<TokV>>) -> Option<Seq<TokV>> {
    match rest {
        None => None,
        Some(ts) => Some(seq![t] + ts),
    }
}

/// The token stream from position `i` on, under a step bound; one lexeme or
/// skipped run is consumed per step, so `src.len() + 1` steps always
/// suffice.
pub open spec fn s_lex(src: Seq<char>, i: int, fuel: nat) -> Option<Seq<TokV>>
    decreases fuel,
{
    if fuel == 0 {
        None
    } else if i < 0 || i >= src.len() {
        Some(seq![])
    } else {
        let f = (fuel - 1) as nat;
        let c = src[i];
        if spec_space(c) {
            s_lex(src, i + 1, f)
        } else if c == '/' && i + 1 < src.len() && src[i + 1] == '/' {
            let j = s_line_end(src, i + 2);
            s_lex(
                src,
                if j < src.len() {
                    j + 1
                } else {
                    j
                },
                f,
            )
        } else if c == '/' && i + 1 < src.len() && src[i + 1] == '*' {
            match s_block_end(src, i + 2) {
                None => None,
                Some(j) => s_lex(src, j + 2, f),
            }
        } else if c == '\'' || c == '"' {
            match s_scan_string(src, i + 1, c) {
                None => None,
                Some(p) => s_cons_tok(TokV::StrV(p.0), s_lex(src, p.1, f)),
            }
        } else if crate::text::is_ascii_digit(c) {
            match s_scan_num(src, i, 0) {
                None => None,
                Some(p) => s_cons_tok(TokV::NumV(p.0 as i64), s_lex(src, p.1, f)),
            }
        } else if spec_ident_start(c) {
            let j = s_ident_end(src, i + 1);
            let id = src.subrange(i as int, j);
            match s_keyword_of(id) {
                Some(k) => s_cons_tok(k, s_lex(src, j, f)),
                None => s_cons_tok(TokV::IdV(id), s_lex(src, j, f)),
            }
        } else if c == '=' {
            if i + 1 < src.len() && src[i + 1] == '=' {
                s_cons_tok(
                    TokV::EqEqV,
                    s_lex(
                        src,
                        if i + 2 < src.len() && src[i + 2] == '=' {
                            i + 3
                        } else {
                            i + 2
                        },
                        f,
                    ),
                )
            } else {
                s_cons_tok(TokV::AssignV, s_lex(src, i + 1, f))
            }
        } else if c == '!' {
            if i + 1 < src.len() && src[i + 1] == '=' {
                s_cons_tok(
                    TokV::NotEqV,
                    s_lex(
                        src,
                        if i + 2 < src.len() && src[i + 2] == '=' {
                            i + 3
                        } else {
                            i + 2
                        },
                        f,
                    ),
                )
            } else {
                s_cons_tok(TokV::NotV, s_lex(src, i + 1, f))
            }
        } else if c == '<' {
            if i + 1 < src.len() && src[i + 1] == '=' {
                s_cons_tok(TokV::LeV, s_lex(src, i + 2, f))
            } else {
                s_cons_tok(TokV::LtV, s_lex(src, i + 1, f))
            }
        } else if c == '>' {
            if i + 1 < src.len() && src[i + 1] == '=' {
                s_cons_tok(TokV::GeV, s_lex(src, i + 2, f))
            } else {
                s_cons_tok(TokV::GtV, s_lex(src, i + 1, f))
            }
        } else if c == '&' {
            if i + 1 < src.len() && src[i + 1] == '&' {
                s_cons_tok(TokV::AndAndV, s_lex(src, i + 2, f))
            } else {
                None
            }
        } else if c == '|' {
            if i + 1 < src.len() && src[i + 1] == '|' {
                s_cons_tok(TokV::OrOrV, s_lex(src, i + 2, f))
            } else {
                None
            }
        } else {
            let t = if c == '(' {
                Some(TokV::LParenV)
            } else if c == ')' {
                Some(TokV::RParenV)
            } else if c == '{' {
                Some(TokV::LBraceV)
            } else if c == '}' {
                Some(TokV::RBraceV)
            } else if c == ',' {
                Some(TokV::CommaV)
            } else if c == ';' {
                Some(TokV::SemiV)
            } else if c == '.' {
                Some(TokV::DotV)
            } else if c == '+' {
                Some(TokV::PlusV)
            } else if c == '-' {
                Some(TokV::MinusV)
            } else if c == '*' {
                Some(TokV::StarV)
            } else if c == '/' {
                Some(TokV::SlashV)
            } else if c == '%' {
                Some(TokV::PercentV)
            } else if c == '?' {
                Some(TokV::QuestionV)
            } else if c == ':' {
                Some(TokV::ColonV)
            } else {
                None
            };
            match t {
                Some(t) => s_cons_tok(t, s_lex(src, i + 1, f)),
                None => None,
            }
        }
    }
}

/// What tokenizing a whole script yields: one step bound per character
/// suffices, as every lexeme or skipped run consumes at least one.
pub open spec fn s_tokenize(src: Seq<char>) -> Option<Seq<TokV>> {
    s_lex(
        src,
        0,
        if src.len() >= 0xffff_ffff_ffff_ffff {
            0xffff_ffff_ffff_ffff as nat
        } else {
            (src.len() + 1) as nat
        },
    )
}

proof fn lemma_line_end_at(s: Seq<char>, a: int, b: int)
    requires
        0 <= a <= b <= s.len(),
        forall|m: int| a <= m < b ==> s[m] != '\n',
        b == s.len() || s[b] == '\n',
    ensures
        s_line_end(s, a) == if b == s.len() {
            s.len() as int
        } else {
            b
        },
    decreases b - a,
{
    if a < b {
        lemma_line_end_at(s, a + 1, b);
    }
}

proof fn lemma_ident_end_at(s: Seq<char>, a: int, b: int)
    requires
        0 <= a <= b <= s.len(),
        forall|m: int| a <= m < b ==> spec_ident_char(s[m]),
        b == s.len() || !spec_ident_char(s[b]),
    ensures
        s_ident_end(s, a) == if b == s.len() {
            s.len() as int
        } else {
            b
        },
    decreases b - a,
{
    if a < b {
        lemma_ident_end_at(s, a + 1, b);
    }
}

proof fn lemma_block_end_found(s: Seq<char>, a: int, k: int)
    requires
        0 <= a <= k,
        k + 1 < s.len(),
        forall|m: int| a <= m < k ==> !(#[trigger] s[m] == '*' && s[m + 1] == '/'),
        s[k] == '*' && s[k + 1] == '/',
    ensures
        s_block_end(s, a) == Some(k),
    decreases k - a,
{
    if a < k {
        lemma_block_end_found(s, a + 1, k);
    }
}

proof fn lemma_block_end_none(s: Seq<char>, a: int)
    requires
        0 <= a,
        forall|m: int| a <= m && m + 1 < s.len() ==> !(#[trigger] s[m] == '*' && s[m + 1] == '/'),
    ensures
        s_block_end(s, a) is None,
    decreases s.len() - a,
{
    if a + 1 < s.len() {
        lemma_block_end_none(s, a + 1);
    }
}

/// Scans a quoted string body; exactly `s_scan_string`.
fn scan_string(src: &Vec<char>, j: usize, quote: char) -> (r: Option<(Vec<char>, usize)>)
    requires
        j <= src@.len(),
    ensures
        match r {
            Some(p) => s_scan_string(src@, j as int, quote) == Some((p.0@, p.1 as int)) && j
                < p.1 <= src@.len(),
            None => s_scan_string(src@, j as int, quote) is None,
        },
    decreases src@.len() - j,
{
    if j == src.len() {
        return None;
    }
    let d = src[j];
    if d == quote {
        let text: Vec<char> = Vec::new();
        proof {
            assert(text@ =~= Seq::<char>::empty());
        }
        return Some((text, j + 1));
    }
    if d == '\\' {
        if j + 1 == src.len() {
            return None;
        }
        let e = src[j + 1];
        let ch = if e == 'n' {
            '\n'
        } else if e == 't' {
            '\t'
        } else {
            e
        };
        match scan_string(src, j + 2, quote) {
            None => None,
            Some((mut text, end)) => {
                let ghost t0 = text@;
                text.insert(0, ch);
                proof {
                    assert(text@ =~= seq![ch] + t0);
                }
                Some((text, end))
            },
        }
    } else {
        match scan_string(src, j + 1, quote) {
            None => None,
            Some((mut text, end)) => {
                let ghost t0 = text@;
                text.insert(0, d);
                proof {
                    assert(text@ =~= seq![src@[j as int]] + t0);
                }
                Some((text, end))
            },
        }
    }
}

/// Scans a decimal number; exactly `s_scan_num`.
fn scan_num(src: &Vec<char>, j: usize, acc: u64) -> (r: Option<(u64, usize)>)
    requires
        j <= src@.len(),
        acc <= 0x7fff_ffff_ffff_ffff,
    ensures
        match r {
            Some(p) => s_scan_num(src@, j as int, acc as int) == Some((p.0 as int, p.1 as int))
                && j <= p.1 <= src@.len() && p.0 <= 0x7fff_ffff_ffff_ffff,
            None => s_scan_num(src@, j as int, acc as int) is None,
        },
    decreases src@.len() - j,
{
    if j == src.len() || !ascii_digit(src[j]) {
        return Some((acc, j));
    }
    let d = (src[j] as u32) - 48;
    if acc > 0xccc_cccc_cccc_cccb {
        return None;
    }
    let next = acc * 10 + (d as u64);
    if next > 0x7fff_ffff_ffff_ffff {
        return None;
    }
    scan_num(src, j + 1, next)
}

/// First non-identifier character at or after `j`.
fn find_ident_end(src: &Vec<char>, j: usize) -> (r: usize)
    requires
        j <= src@.len(),
    ensures
        r as int == s_ident_end(src@, j as int),
        j <= r <= src@.len(),
{
    let mut k: usize = j;
    while k < src.len()
        invariant
            j <= k <= src@.len(),
            forall|m: int| j <= m < k ==> spec_ident_char(src@[m]),
        decreases src@.len() - k,
    {
        if !is_ident_char(src[k]) {
            proof {
                lemma_ident_end_at(src@, j as int, k as int);
            }
            return k;
        }
        k = k + 1;
    }
    proof {
        lemma_ident_end_at(src@, j as int, src@.len() as int);
    }
    k
}

/// Lexes from position `i` on; exactly `s_lex`.
fn lex_from(src: &Vec<char>, i: usize, fuel: u64) -> (r: Option<Vec<Tok>>)
    requires
        i <= src@.len(),
    ensures
        match r {
            Some(ts) => s_lex(src@, i as int, fuel as nat) == Some(toks_view(ts@)),
            None => s_lex(src@, i as int, fuel as nat) is None,
        },
    decreases fuel,
{
    if fuel == 0 {
        return None;
    }
    if i == src.len() {
        let ts: Vec<Tok> = Vec::new();
        proof {
            assert(toks_view(ts@) =~= Seq::<TokV>::empty());
        }
        return Some(ts);
    }
    let f = fuel - 1;
    let n = src.len();
    let c = src[i];
    if is_space_char(c) {
        return lex_from(src, i + 1, f);
    }
    if c == '/' && i + 1 < n && src[i + 1] == '/' {
        let mut j: usize = i + 2;
        while j < n && src[j] != '\n'
            invariant
                i + 2 <= j <= n,
                n == src@.len(),
                forall|m: int| i + 2 <= m < j ==> src@[m] != '\n',
            decreases n - j,
        {
            j = j + 1;
        }
        proof {
            lemma_line_end_at(src@, i + 2, j as int);
        }
        let next = if j < n {
            j + 1
        } else {
            j
        };
        return lex_from(src, next, f);
    }
    if c == '/' && i + 1 < n && src[i + 1] == '*' {
        let mut j: usize = i + 2;
        let mut closed = false;
        while !closed && j < n - 1
            invariant
                i + 2 <= j <= n,
                n == src@.len(),
                n >= 2,
                closed ==> j + 2 <= n && src@[j as int] == '*' && src@[j + 1] == '/',
                forall|m: int| i + 2 <= m < j ==> !(#[trigger] src@[m] == '*' && src@[m + 1] == '/'),
            decreases n - j, (if closed {
                0int
            } else {
                1int
            }),
        {
            if src[j] == '*' && src[j + 1] == '/' {
                closed = true;
            } else {
                j = j + 1;
            }
        }
        if !closed {
            proof {
                lemma_block_end_none(src@, i + 2);
            }
            return None;
        }
        proof {
            lemma_block_end_found(src@, i + 2, j as int);
        }
        return lex_from(src, j + 2, f);
    }
    if c == '\'' || c == '"' {
        return match scan_string(src, i + 1, c) {
            None => None,
            Some((text, next)) => cons_tok(Tok::StrTok(text), lex_from(src, next, f)),
        };
    }
    if ascii_digit(c) {
        return match scan_num(src, i, 0) {
            None => None,
            Some((acc, next)) => cons_tok(Tok::NumTok(acc as i64), lex_from(src, next, f)),
        };
    }
    if is_ident_start(c) {
        let j = find_ident_end(src, i + 1);
        let id = crate::text::copy_range(src, i, j);
        proof {
            assert(id@ =~= src@.subrange(i as int, j as int));
        }
        let rest = lex_from(src, j, f);
        return match keyword_of(&id) {
            Some(k) => cons_tok(k, rest),
            None => cons_tok(Tok::Id(id), rest),
        };
    }
    if c == '=' {
        if i + 1 < n && src[i + 1] == '=' {
            let next = if i + 2 < n && src[i + 2] == '=' {
                i + 3
            } else {
                i + 2
            };
            return cons_tok(Tok::EqEq, lex_from(src, next, f));
        }
        return cons_tok(Tok::Assign, lex_from(src, i + 1, f));
    }
    if c == '!' {
        if i + 1 < n && src[i + 1] == '=' {
            let next = if i + 2 < n && src[i + 2] == '=' {
                i + 3
            } else {
                i + 2
            };
            return cons_tok(Tok::NotEq, lex_from(src, next, f));
        }
        return cons_tok(Tok::Not, lex_from(src, i + 1, f));
    }
    if c == '<' {
        if i + 1 < n && src[i + 1] == '=' {
            return cons_tok(Tok::Le, lex_from(src, i + 2, f));
        }
        return cons_tok(Tok::Lt, lex_from(src, i + 1, f));
    }
    if c == '>' {
        if i + 1 < n && src[i + 1] == '=' {
            return cons_tok(Tok::Ge, lex_from(src, i + 2, f));
        }
        return cons_tok(Tok::Gt, lex_from(src, i + 1, f));
    }
    if c == '&' {
        if i + 1 < n && src[i + 1] == '&' {
            return cons_tok(Tok::AndAnd, lex_from(src, i + 2, f));
        }
        return None;
    }
    if c == '|' {
        if i + 1 < n && src[i + 1] == '|' {
            return cons_tok(Tok::OrOr, lex_from(src, i + 2, f));
        }
        return None;
    }
    let t = if c == '(' {
        Some(Tok::LParen)
    } else if c == ')' {
        Some(Tok::RParen)
    } else if c == '{' {
        Some(Tok::LBrace)
    } else if c == '}' {
        Some(Tok::RBrace)
    } else if c == ',' {
        Some(Tok::Comma)
    } else if c == ';' {
        Some(Tok::Semi)
    } else if c == '.' {
        Some(Tok::Dot)
    } else if c == '+' {
        Some(Tok::Plus)
    } else if c == '-' {
        Some(Tok::Minus)
    } else if c == '*' {
        Some(Tok::Star)
    } else if c == '/' {
        Some(Tok::Slash)
    } else if c == '%' {
        Some(Tok::Percent)
    } else if c == '?' {
        Some(Tok::Question)
    } else if c == ':' {
        Some(Tok::Colon)
    } else {
        None
    };
    match t {
        Some(t) => cons_tok(t, lex_from(src, i + 1, f)),
        None => None,
    }
}

/// Prepends a token to a lexed tail; exactly `s_cons_tok` on the views.
fn cons_tok(t: Tok, rest: Option<Vec<Tok>>) -> (r: Option<Vec<Tok>>)
    ensures
        match r {
            Some(ts) => s_cons_tok(t@, match rest {
                Some(ts0) => Some(toks_view(ts0@)),
                None => None,
            }) == Some(toks_view(ts@)),
            None => rest is None,
        },
{
    match rest {
        None => None,
        Some(mut ts) => {
            let ghost ts0 = ts@;
            let ghost tv = t@;
            ts.insert(0, t);
            proof {
                assert(toks_view(ts@) =~= seq![tv] + toks_view(ts0));
            }
            Some(ts)
        },
    }
}

/// Tokenizes a script; the result is exactly `s_tokenize` of the source:
/// `None` on input outside the subset, the token stream otherwise.
pub fn tokenize(src: &Vec<char>) -> (r: Option<Vec<Tok>>)
    ensures
        match r {
            Some(ts) => s_tokenize(src@) == Some(toks_view(ts@)),
            None => s_tokenize(src@) is None,
        },
{
    let n = src.len();
    let fuel: u64 = if (n as u64) >= 0xffff_ffff_ffff_ffff {
        0xffff_ffff_ffff_ffff
    } else {
        (n as u64) + 1
    };
    lex_from(src, 0, fuel)
}

} // verus!
