//! The recursive-descent parser of the PAC scripting subset.  Its grammar is
//! given by the `s_parse_*` specification functions over token views, and
//! every executable parsing function is proved to return exactly what its
//! specification function denotes.  Parsing runs under a fuel bound and
//! consumes at least one token per success, so it always terminates; `None`
//! means the token stream falls outside the subset's grammar.

use vstd::prelude::*;

use crate::ast::{
    expr_view, exprs_view, fun_view, funs_view, params_view, stmt_view, stmts_view, BinOp, Expr,
    ExprV, FunDecl, FunDeclV, Program, ProgramV, Stmt, StmtV, UnOp,
};
use crate::lexer::{toks_view, Tok, TokV};
use crate::text::copy_range;

verus! {

/// Appending an expression appends its view.
proof fn lemma_exprs_view_push(es: Seq<Expr>, e: Expr)
    ensures
        exprs_view(es.push(e)) == exprs_view(es).push(expr_view(e)),
    decreases es.len(),
{
    let all = es.push(e);
    assert(exprs_view(all) == seq![expr_view(all[0])] + exprs_view(
        all.subrange(1, all.len() as int),
    ));
    if es.len() == 0 {
        assert(all[0] == e);
        assert(all.subrange(1, all.len() as int) =~= Seq::<Expr>::empty());
        assert(exprs_view(all.subrange(1, all.len() as int)) == Seq::<ExprV>::empty());
        assert(exprs_view(es) == Seq::<ExprV>::empty());
        assert(exprs_view(es.push(e)) =~= exprs_view(es).push(expr_view(e)));
    } else {
        lemma_exprs_view_push(es.subrange(1, es.len() as int), e);
        assert(all.subrange(1, all.len() as int) =~= es.subrange(1, es.len() as int).push(e));
        assert(all[0] == es[0]);
        assert(exprs_view(es) == seq![expr_view(es[0])] + exprs_view(
            es.subrange(1, es.len() as int),
        ));
        assert(exprs_view(es.push(e)) =~= exprs_view(es).push(expr_view(e)));
    }
}

/// Appending a statement appends its view.
proof fn lemma_stmts_view_push(sts: Seq<Stmt>, st: Stmt)
    ensures
        stmts_view(sts.push(st)) == stmts_view(sts).push(stmt_view(st)),
    decreases sts.len(),
{
    let all = sts.push(st);
    assert(stmts_view(all) == seq![stmt_view(all[0])] + stmts_view(
        all.subrange(1, all.len() as int),
    ));
    if sts.len() == 0 {
        assert(all[0] == st);
        assert(all.subrange(1, all.len() as int) =~= Seq::<Stmt>::empty());
        assert(stmts_view(all.subrange(1, all.len() as int)) == Seq::<StmtV>::empty());
        assert(stmts_view(sts) == Seq::<StmtV>::empty());
        assert(stmts_view(sts.push(st)) =~= stmts_view(sts).push(stmt_view(st)));
    } else {
        lemma_stmts_view_push(sts.subrange(1, sts.len() as int), st);
        assert(all.subrange(1, all.len() as int) =~= sts.subrange(1, sts.len() as int).push(st));
        assert(all[0] == sts[0]);
        assert(stmts_view(sts) == seq![stmt_view(sts[0])] + stmts_view(
            sts.subrange(1, sts.len() as int),
        ));
        assert(stmts_view(sts.push(st)) =~= stmts_view(sts).push(stmt_view(st)));
    }
}

pub open spec fn s_parse_primary(toks: Seq<TokV>, i: int, fuel: nat) -> Option<(ExprV, int)>
    decreases fuel, 1int,
{
    if fuel == 0 || i < 0 || i >= toks.len() {
        None
    } else {
        let f = (fuel - 1) as nat;
        match toks[i] {
            TokV::StrV(s) => Some((ExprV::StrLitV(s), i + 1)),
            TokV::NumV(n) => Some((ExprV::NumLitV(n), i + 1)),
            TokV::KwTrueV => Some((ExprV::BoolLitV(true), i + 1)),
            TokV::KwFalseV => Some((ExprV::BoolLitV(false), i + 1)),
            TokV::KwNullV => Some((ExprV::NullLitV, i + 1)),
            TokV::LParenV => match s_parse_expr(toks, i + 1, f) {
                None => None,
                Some(p) => if p.1 < toks.len() && toks[p.1] is RParenV {
                    Some((p.0, p.1 + 1))
                } else {
                    None
                },
            },
            TokV::IdV(name) => {
                if i + 1 < toks.len() && toks[i + 1] is LParenV {
                    match s_parse_args(toks, i + 1, f) {
                        None => None,
                        Some(p) => Some((ExprV::CallV(name, p.0), p.1)),
                    }
                } else {
                    Some((ExprV::VarV(name), i + 1))
                }
            },
            _ => None,
        }
    }
}

pub open spec fn s_parse_args(toks: Seq<TokV>, i: int, fuel: nat) -> Option<(Seq<ExprV>, int)>
    decreases fuel, 1int,
{
    if fuel == 0 || i < 0 || i >= toks.len() {
        None
    } else if !(toks[i] is LParenV) {
        None
    } else if i + 1 < toks.len() && toks[i + 1] is RParenV {
        Some((seq![], i + 2))
    } else {
        s_args_loop(toks, seq![], i + 1, fuel)
    }
}

pub open spec fn s_args_loop(toks: Seq<TokV>, acc: Seq<ExprV>, j: int, f: nat) -> Option<
    (Seq<ExprV>, int),
>
    decreases f, 0int,
{
    if f == 0 {
        None
    } else {
        let f2 = (f - 1) as nat;
        match s_parse_expr(toks, j, f2) {
            None => None,
            Some(p) => if p.1 >= toks.len() {
                None
            } else {
                match toks[p.1] {
                    TokV::CommaV => s_args_loop(toks, acc.push(p.0), p.1 + 1, f2),
                    TokV::RParenV => Some((acc.push(p.0), p.1 + 1)),
                    _ => None,
                }
            },
        }
    }
}

pub open spec fn s_parse_postfix(toks: Seq<TokV>, ev: ExprV, i: int, fuel: nat) -> Option<
    (ExprV, int),
>
    decreases fuel, 1int,
{
    if i < 0 {
        None
    } else if i >= toks.len() || !(toks[i] is DotV) {
        Some((ev, i))
    } else if fuel == 0 || i + 1 >= toks.len() {
        None
    } else {
        match toks[i + 1] {
            TokV::IdV(name) => match s_parse_args(toks, i + 2, (fuel - 1) as nat) {
                None => None,
                Some(p) => s_parse_postfix(
                    toks,
                    ExprV::MethodV(Box::new(ev), name, p.0),
                    p.1,
                    (fuel - 1) as nat,
                ),
            },
            _ => None,
        }
    }
}

pub open spec fn s_parse_unary(toks: Seq<TokV>, i: int, fuel: nat) -> Option<(ExprV, int)>
    decreases fuel, 1int,
{
    if fuel == 0 || i < 0 || i >= toks.len() {
        None
    } else {
        let f = (fuel - 1) as nat;
        if toks[i] is NotV {
            match s_parse_unary(toks, i + 1, f) {
                None => None,
                Some(p) => Some((ExprV::UnV(UnOp::Not, Box::new(p.0)), p.1)),
            }
        } else if toks[i] is MinusV {
            match s_parse_unary(toks, i + 1, f) {
                None => None,
                Some(p) => Some((ExprV::UnV(UnOp::Neg, Box::new(p.0)), p.1)),
            }
        } else {
            match s_parse_primary(toks, i, f) {
                None => None,
                Some(p) => s_parse_postfix(toks, p.0, p.1, f),
            }
        }
    }
}

/// The operator a token denotes at one precedence level.
pub open spec fn s_level_op(t: TokV, level: u8) -> Option<BinOp> {
    match t {
        TokV::StarV => if level == 0 {
            Some(BinOp::Mul)
        } else {
            None
        },
        TokV::SlashV => if level == 0 {
            Some(BinOp::Div)
        } else {
            None
        },
        TokV::PercentV => if level == 0 {
            Some(BinOp::Mod)
        } else {
            None
        },
        TokV::PlusV => if level == 1 {
            Some(BinOp::Add)
        } else {
            None
        },
        TokV::MinusV => if level == 1 {
            Some(BinOp::Sub)
        } else {
            None
        },
        TokV::LtV => if level == 2 {
            Some(BinOp::Lt)
        } else {
            None
        },
        TokV::LeV => if level == 2 {
            Some(BinOp::Le)
        } else {
            None
        },
        TokV::GtV => if level == 2 {
            Some(BinOp::Gt)
        } else {
            None
        },
        TokV::GeV => if level == 2 {
            Some(BinOp::Ge)
        } else {
            None
        },
        TokV::EqEqV => if level == 3 {
            Some(BinOp::EqEq)
        } else {
            None
        },
        TokV::NotEqV => if level == 3 {
            Some(BinOp::NotEq)
        } else {
            None
        },
        TokV::AndAndV => if level == 4 {
            Some(BinOp::And)
        } else {
            None
        },
        TokV::OrOrV => if level == 5 {
            Some(BinOp::Or)
        } else {
            None
        },
        _ => None,
    }
}

pub open spec fn s_parse_binary(toks: Seq<TokV>, i: int, level: u8, fuel: nat) -> Option<
    (ExprV, int),
>
    decreases fuel, 1int,
{
    if fuel == 0 {
        None
    } else {
        let f0 = (fuel - 1) as nat;
        match (if level == 0 {
            s_parse_unary(toks, i, f0)
        } else {
            s_parse_binary(toks, i, (level - 1) as u8, f0)
        }) {
            None => None,
            Some(p) => s_binary_loop(toks, p.0, p.1, level, fuel),
        }
    }
}

pub open spec fn s_binary_loop(toks: Seq<TokV>, ev: ExprV, j: int, level: u8, f: nat) -> Option<
    (ExprV, int),
>
    decreases f, 0int,
{
    if f == 0 {
        None
    } else {
        let f2 = (f - 1) as nat;
        if j >= toks.len() {
            Some((ev, j))
        } else {
            match s_level_op(toks[j], level) {
                None => Some((ev, j)),
                Some(op) => match (if level == 0 {
                    s_parse_unary(toks, j + 1, f2)
                } else {
                    s_parse_binary(toks, j + 1, (level - 1) as u8, f2)
                }) {
                    None => None,
                    Some(p) => s_binary_loop(
                        toks,
                        ExprV::BinV(op, Box::new(ev), Box::new(p.0)),
                        p.1,
                        level,
                        f2,
                    ),
                },
            }
        }
    }
}

pub open spec fn s_parse_expr(toks: Seq<TokV>, i: int, fuel: nat) -> Option<(ExprV, int)>
    decreases fuel, 1int,
{
    if fuel == 0 {
        None
    } else {
        let f = (fuel - 1) as nat;
        match s_parse_binary(toks, i, 5, f) {
            None => None,
            Some(p) => if p.1 >= toks.len() || !(toks[p.1] is QuestionV) {
                Some(p)
            } else {
                match s_parse_expr(toks, p.1 + 1, f) {
                    None => None,
                    Some(q) => if q.1 < toks.len() && toks[q.1] is ColonV {
                        match s_parse_expr(toks, q.1 + 1, f) {
                            None => None,
                            Some(r) => Some(
                                (ExprV::CondV(Box::new(p.0), Box::new(q.0), Box::new(r.0)), r.1),
                            ),
                        }
                    } else {
                        None
                    },
                }
            },
        }
    }
}

pub open spec fn s_expect_semi(toks: Seq<TokV>, i: int) -> Option<int> {
    if 0 <= i < toks.len() && toks[i] is SemiV {
        Some(i + 1)
    } else {
        None
    }
}

pub open spec fn s_parse_stmt(toks: Seq<TokV>, i: int, fuel: nat) -> Option<(StmtV, int)>
    decreases fuel, 1int,
{
    if fuel == 0 || i < 0 || i >= toks.len() {
        None
    } else {
        let f = (fuel - 1) as nat;
        match toks[i] {
            TokV::KwVarV => {
                if i + 2 >= toks.len() {
                    None
                } else {
                    match toks[i + 1] {
                        TokV::IdV(name) => if toks[i + 2] is AssignV {
                            match s_parse_expr(toks, i + 3, f) {
                                None => None,
                                Some(p) => match s_expect_semi(toks, p.1) {
                                    Some(j2) => Some((StmtV::VarDeclV(name, p.0), j2)),
                                    None => None,
                                },
                            }
                        } else {
                            None
                        },
                        _ => None,
                    }
                }
            },
            TokV::KwReturnV => {
                if i + 1 < toks.len() && toks[i + 1] is SemiV {
                    Some((StmtV::ReturnV(None), i + 2))
                } else {
                    match s_parse_expr(toks, i + 1, f) {
                        None => None,
                        Some(p) => match s_expect_semi(toks, p.1) {
                            Some(j2) => Some((StmtV::ReturnV(Some(p.0)), j2)),
                            None => None,
                        },
                    }
                }
            },
            TokV::KwIfV => {
                if i + 1 >= toks.len() || !(toks[i + 1] is LParenV) {
                    None
                } else {
                    match s_parse_expr(toks, i + 2, f) {
                        None => None,
                        Some(p) => if p.1 >= toks.len() || !(toks[p.1] is RParenV) {
                            None
                        } else {
                            match s_parse_block_or_single(toks, p.1 + 1, f) {
                                None => None,
                                Some(q) => if q.1 < toks.len() && toks[q.1] is KwElseV {
                                    match s_parse_block_or_single(toks, q.1 + 1, f) {
                                        None => None,
                                        Some(r) => Some((StmtV::IfV(p.0, q.0, r.0), r.1)),
                                    }
                                } else {
                                    Some((StmtV::IfV(p.0, q.0, seq![]), q.1))
                                },
                            }
                        },
                    }
                }
            },
            TokV::KwWhileV => {
                if i + 1 >= toks.len() || !(toks[i + 1] is LParenV) {
                    None
                } else {
                    match s_parse_expr(toks, i + 2, f) {
                        None => None,
                        Some(p) => if p.1 >= toks.len() || !(toks[p.1] is RParenV) {
                            None
                        } else {
                            match s_parse_block_or_single(toks, p.1 + 1, f) {
                                None => None,
                                Some(q) => Some((StmtV::WhileV(p.0, q.0), q.1)),
                            }
                        },
                    }
                }
            },
            TokV::IdV(name) => {
                if i + 1 < toks.len() && toks[i + 1] is AssignV {
                    match s_parse_expr(toks, i + 2, f) {
                        None => None,
                        Some(p) => match s_expect_semi(toks, p.1) {
                            Some(j2) => Some((StmtV::AssignV(name, p.0), j2)),
                            None => None,
                        },
                    }
                } else {
                    match s_parse_expr(toks, i, f) {
                        None => None,
                        Some(p) => match s_expect_semi(toks, p.1) {
                            Some(j2) => Some((StmtV::ExprStmtV(p.0), j2)),
                            None => None,
                        },
                    }
                }
            },
            _ => {
                match s_parse_expr(toks, i, f) {
                    None => None,
                    Some(p) => match s_expect_semi(toks, p.1) {
                        Some(j2) => Some((StmtV::ExprStmtV(p.0), j2)),
                        None => None,
                    },
                }
            },
        }
    }
}

pub open spec fn s_parse_block_or_single(toks: Seq<TokV>, i: int, fuel: nat) -> Option<
    (Seq<StmtV>, int),
>
    decreases fuel, 1int,
{
    if fuel == 0 || i < 0 || i >= toks.len() {
        None
    } else if !(toks[i] is LBraceV) {
        match s_parse_stmt(toks, i, (fuel - 1) as nat) {
            None => None,
            Some(p) => Some((seq![p.0], p.1)),
        }
    } else {
        s_block_loop(toks, seq![], i + 1, fuel)
    }
}

pub open spec fn s_block_loop(toks: Seq<TokV>, acc: Seq<StmtV>, j: int, f: nat) -> Option<
    (Seq<StmtV>, int),
>
    decreases f, 0int,
{
    if f == 0 {
        None
    } else {
        let f2 = (f - 1) as nat;
        if j < 0 || j >= toks.len() {
            None
        } else if toks[j] is RBraceV {
            Some((acc, j + 1))
        } else {
            match s_parse_stmt(toks, j, f2) {
                None => None,
                Some(p) => s_block_loop(toks, acc.push(p.0), p.1, f2),
            }
        }
    }
}

pub open spec fn s_params_loop(toks: Seq<TokV>, acc: Seq<Seq<char>>, j: int, f: nat) -> Option<
    (Seq<Seq<char>>, int),
>
    decreases f, 0int,
{
    if f == 0 || j < 0 || j >= toks.len() {
        None
    } else {
        let f2 = (f - 1) as nat;
        match toks[j] {
            TokV::RParenV => Some((acc, j + 1)),
            TokV::IdV(name) => s_params_loop(toks, acc.push(name), j + 1, f2),
            TokV::CommaV => s_params_loop(toks, acc, j + 1, f2),
            _ => None,
        }
    }
}

pub open spec fn s_parse_fun(toks: Seq<TokV>, i: int, fuel: nat) -> Option<(FunDeclV, int)>
    decreases fuel, 1int,
{
    if fuel == 0 || i < 0 || i >= toks.len() || toks.len() - i < 3 {
        None
    } else if !(toks[i] is KwFunctionV) {
        None
    } else {
        match toks[i + 1] {
            TokV::IdV(name) => if !(toks[i + 2] is LParenV) {
                None
            } else {
                match s_params_loop(toks, seq![], i + 3, fuel) {
                    None => None,
                    Some(p) => if p.1 >= toks.len() || !(toks[p.1] is LBraceV) {
                        None
                    } else {
                        match s_parse_block_or_single(toks, p.1, (fuel - 1) as nat) {
                            None => None,
                            Some(q) => Some(
                                (FunDeclV { name: name, params: p.0, body: q.0 }, q.1),
                            ),
                        }
                    },
                }
            },
            _ => None,
        }
    }
}

/// The parsing fuel for a token stream: generous bounds every true
/// derivation fits under, since each step consumes a token.
pub open spec fn s_program_fuel(n: int) -> nat {
    if n > 0xff_ffff_ffff {
        0xffff_ffff_ffff_ffff as nat
    } else {
        (16 * n + 64) as nat
    }
}

pub open spec fn s_prog_loop(
    toks: Seq<TokV>,
    funs: Seq<FunDeclV>,
    i: int,
    f: nat,
    fuel0: nat,
) -> Option<ProgramV>
    decreases f,
{
    if i == toks.len() {
        Some(ProgramV { funs: funs })
    } else if f == 0 {
        None
    } else {
        match s_parse_fun(toks, i, fuel0) {
            None => None,
            Some(p) => s_prog_loop(toks, funs.push(p.0), p.1, (f - 1) as nat, fuel0),
        }
    }
}

/// What parsing a whole script yields: a sequence of function declarations
/// covering every token, or `None` outside the grammar.
pub open spec fn s_parse_program(toks: Seq<TokV>) -> Option<ProgramV> {
    let fuel = s_program_fuel(toks.len() as int);
    s_prog_loop(toks, seq![], 0, fuel, fuel)
}

fn name_of(v: &Vec<char>) -> (r: Vec<char>)
    ensures
        r@ == v@,
{
    let c = copy_range(v, 0, v.len());
    proof {
        assert(c@ =~= v@);
    }
    c
}

fn parse_primary(toks: &Vec<Tok>, i: usize, fuel: u64) -> (r: Option<(Expr, usize)>)
    requires
        i <= toks@.len(),
    ensures
        match r {
            Some(p) => s_parse_primary(toks_view(toks@), i as int, fuel as nat) == Some(
                (expr_view(p.0), p.1 as int),
            ) && i < p.1 <= toks@.len(),
            None => s_parse_primary(toks_view(toks@), i as int, fuel as nat) is None,
        },
    decreases fuel,
{
    if fuel == 0 || i >= toks.len() {
        return None;
    }
    proof {
        assert(toks_view(toks@)[i as int] == toks@[i as int]@);
    }
    match &toks[i] {
        Tok::StrTok(s) => Some((Expr::StrLit(name_of(s)), i + 1)),
        Tok::NumTok(n) => Some((Expr::NumLit(*n), i + 1)),
        Tok::KwTrue => Some((Expr::BoolLit(true), i + 1)),
        Tok::KwFalse => Some((Expr::BoolLit(false), i + 1)),
        Tok::KwNull => Some((Expr::NullLit, i + 1)),
        Tok::LParen => {
            let (e, j) = match parse_expr(toks, i + 1, fuel - 1) {
                Some(p) => p,
                None => {
                    return None;
                },
            };
            if j < toks.len() {
                proof {
                    assert(toks_view(toks@)[j as int] == toks@[j as int]@);
                }
                match &toks[j] {
                    Tok::RParen => Some((e, j + 1)),
                    _ => None,
                }
            } else {
                None
            }
        },
        Tok::Id(name) => {
            let nm = name_of(name);
            if i + 1 < toks.len() {
                proof {
                    assert(toks_view(toks@)[i + 1] == toks@[i + 1]@);
                }
                let is_call = match &toks[i + 1] {
                    Tok::LParen => true,
                    _ => false,
                };
                if is_call {
                    let (args, j) = match parse_args(toks, i + 1, fuel - 1) {
                        Some(p) => p,
                        None => {
                            return None;
                        },
                    };
                    return Some((Expr::Call(nm, args), j));
                }
            }
            Some((Expr::Var(nm), i + 1))
        },
        _ => None,
    }
}

/// Parses a parenthesized, comma-separated argument list starting at the
/// opening parenthesis.
fn parse_args(toks: &Vec<Tok>, i: usize, fuel: u64) -> (r: Option<(Vec<Expr>, usize)>)
    requires
        i <= toks@.len(),
    ensures
        match r {
            Some(p) => s_parse_args(toks_view(toks@), i as int, fuel as nat) == Some(
                (exprs_view(p.0@), p.1 as int),
            ) && i < p.1 <= toks@.len(),
            None => s_parse_args(toks_view(toks@), i as int, fuel as nat) is None,
        },
    decreases fuel,
{
    if fuel == 0 || i >= toks.len() {
        return None;
    }
    proof {
        assert(toks_view(toks@)[i as int] == toks@[i as int]@);
    }
    match &toks[i] {
        Tok::LParen => {},
        _ => {
            return None;
        },
    }
    let mut args: Vec<Expr> = Vec::new();
    let mut j: usize = i + 1;
    if j < toks.len() {
        proof {
            assert(toks_view(toks@)[j as int] == toks@[j as int]@);
        }
        let empty = match &toks[j] {
            Tok::RParen => true,
            _ => false,
        };
        if empty {
            proof {
                assert(exprs_view(args@) =~= Seq::<ExprV>::empty());
            }
            return Some((args, j + 1));
        }
    }
    let ghost goal = s_args_loop(toks_view(toks@), seq![], i + 1, fuel as nat);
    proof {
        assert(s_parse_args(toks_view(toks@), i as int, fuel as nat) == goal);
        assert(exprs_view(args@) =~= Seq::<ExprV>::empty());
    }
    let mut f = fuel;
    loop
        invariant
            i < j <= toks@.len(),
            f <= fuel,
            goal == s_args_loop(toks_view(toks@), exprs_view(args@), j as int, f as nat),
            s_parse_args(toks_view(toks@), i as int, fuel as nat) == goal,
        decreases f,
    {
        if f == 0 {
            return None;
        }
        f = f - 1;
        let (e, j2) = match parse_expr(toks, j, f) {
            Some(p) => p,
            None => {
                return None;
            },
        };
        let ghost args0 = args@;
        args.push(e);
        proof {
            lemma_exprs_view_push(args0, args@.last());
        }
        if j2 >= toks.len() {
            return None;
        }
        proof {
            assert(toks_view(toks@)[j2 as int] == toks@[j2 as int]@);
        }
        match &toks[j2] {
            Tok::Comma => {
                j = j2 + 1;
            },
            Tok::RParen => {
                return Some((args, j2 + 1));
            },
            _ => {
                return None;
            },
        }
    }
}

/// Parses trailing `.name(args)` method calls.
fn parse_postfix(toks: &Vec<Tok>, e: Expr, i: usize, fuel: u64) -> (r: Option<(Expr, usize)>)
    requires
        i <= toks@.len(),
    ensures
        match r {
            Some(p) => s_parse_postfix(toks_view(toks@), expr_view(e), i as int, fuel as nat)
                == Some((expr_view(p.0), p.1 as int)) && i <= p.1 <= toks@.len(),
            None => s_parse_postfix(toks_view(toks@), expr_view(e), i as int, fuel as nat)
                is None,
        },
    decreases fuel,
{
    if i >= toks.len() {
        return Some((e, i));
    }
    proof {
        assert(toks_view(toks@)[i as int] == toks@[i as int]@);
    }
    let isdot = match &toks[i] {
        Tok::Dot => true,
        _ => false,
    };
    if !isdot {
        return Some((e, i));
    }
    if fuel == 0 || i + 1 >= toks.len() {
        return None;
    }
    proof {
        assert(toks_view(toks@)[i + 1] == toks@[i + 1]@);
    }
    let nm = match &toks[i + 1] {
        Tok::Id(name) => name_of(name),
        _ => {
            return None;
        },
    };
    let (args, j) = match parse_args(toks, i + 2, fuel - 1) {
        Some(p) => p,
        None => {
            return None;
        },
    };
    parse_postfix(toks, Expr::Method(Box::new(e), nm, args), j, fuel - 1)
}

fn parse_unary(toks: &Vec<Tok>, i: usize, fuel: u64) -> (r: Option<(Expr, usize)>)
    requires
        i <= toks@.len(),
    ensures
        match r {
            Some(p) => s_parse_unary(toks_view(toks@), i as int, fuel as nat) == Some(
                (expr_view(p.0), p.1 as int),
            ) && i < p.1 <= toks@.len(),
            None => s_parse_unary(toks_view(toks@), i as int, fuel as nat) is None,
        },
    decreases fuel,
{
    if fuel == 0 || i >= toks.len() {
        return None;
    }
    proof {
        assert(toks_view(toks@)[i as int] == toks@[i as int]@);
    }
    let op = match &toks[i] {
        Tok::Not => Some(UnOp::Not),
        Tok::Minus => Some(UnOp::Neg),
        _ => None,
    };
    match op {
        Some(op) => {
            let (e, j) = match parse_unary(toks, i + 1, fuel - 1) {
                Some(p) => p,
                None => {
                    return None;
                },
            };
            Some((Expr::Un(op, Box::new(e)), j))
        },
        None => {
            let (e, j) = match parse_primary(toks, i, fuel - 1) {
                Some(p) => p,
                None => {
                    return None;
                },
            };
            parse_postfix(toks, e, j, fuel - 1)
        },
    }
}

/// One layer of left-associative binary operators above `parse_unary`:
/// multiplicative, additive, relational, equality, `&&`, `||`, selected by
/// `level`.
fn parse_binary(toks: &Vec<Tok>, i: usize, level: u8, fuel: u64) -> (r: Option<(Expr, usize)>)
    requires
        i <= toks@.len(),
    ensures
        match r {
            Some(p) => s_parse_binary(toks_view(toks@), i as int, level, fuel as nat) == Some(
                (expr_view(p.0), p.1 as int),
            ) && i < p.1 <= toks@.len(),
            None => s_parse_binary(toks_view(toks@), i as int, level, fuel as nat) is None,
        },
    decreases fuel,
{
    if fuel == 0 {
        return None;
    }
    let (first, j0) = match if level == 0 {
        parse_unary(toks, i, fuel - 1)
    } else {
        parse_binary(toks, i, level - 1, fuel - 1)
    } {
        Some(p) => p,
        None => {
            return None;
        },
    };
    let ghost goal = s_binary_loop(
        toks_view(toks@),
        expr_view(first),
        j0 as int,
        level,
        fuel as nat,
    );
    proof {
        assert(s_parse_binary(toks_view(toks@), i as int, level, fuel as nat) == goal);
    }
    let mut e = first;
    let mut j = j0;
    let mut f = fuel;
    loop
        invariant
            i < j <= toks@.len(),
            f <= fuel,
            goal == s_binary_loop(toks_view(toks@), expr_view(e), j as int, level, f as nat),
            s_parse_binary(toks_view(toks@), i as int, level, fuel as nat) == goal,
        decreases f,
    {
        if f == 0 {
            return None;
        }
        f = f - 1;
        if j >= toks.len() {
            return Some((e, j));
        }
        proof {
            assert(toks_view(toks@)[j as int] == toks@[j as int]@);
        }
        let op: Option<BinOp> = match &toks[j] {
            Tok::Star => if level == 0 {
                Some(BinOp::Mul)
            } else {
                None
            },
            Tok::Slash => if level == 0 {
                Some(BinOp::Div)
            } else {
                None
            },
            Tok::Percent => if level == 0 {
                Some(BinOp::Mod)
            } else {
                None
            },
            Tok::Plus => if level == 1 {
                Some(BinOp::Add)
            } else {
                None
            },
            Tok::Minus => if level == 1 {
                Some(BinOp::Sub)
            } else {
                None
            },
            Tok::Lt => if level == 2 {
                Some(BinOp::Lt)
            } else {
                None
            },
            Tok::Le => if level == 2 {
                Some(BinOp::Le)
            } else {
                None
            },
            Tok::Gt => if level == 2 {
                Some(BinOp::Gt)
            } else {
                None
            },
            Tok::Ge => if level == 2 {
                Some(BinOp::Ge)
            } else {
                None
            },
            Tok::EqEq => if level == 3 {
                Some(BinOp::EqEq)
            } else {
                None
            },
            Tok::NotEq => if level == 3 {
                Some(BinOp::NotEq)
            } else {
                None
            },
            Tok::AndAnd => if level == 4 {
                Some(BinOp::And)
            } else {
                None
            },
            Tok::OrOr => if level == 5 {
                Some(BinOp::Or)
            } else {
                None
            },
            _ => None,
        };
        let op = match op {
            Some(op) => op,
            None => {
                return Some((e, j));
            },
        };
        let (rhs, j2) = match if level == 0 {
            parse_unary(toks, j + 1, f)
        } else {
            parse_binary(toks, j + 1, level - 1, f)
        } {
            Some(p) => p,
            None => {
                return None;
            },
        };
        e = Expr::Bin(op, Box::new(e), Box::new(rhs));
        j = j2;
    }
}

/// A full expression: the binary levels, topped by the right-associative
/// conditional operator `c ? a : b`.
fn parse_expr(toks: &Vec<Tok>, i: usize, fuel: u64) -> (r: Option<(Expr, usize)>)
    requires
        i <= toks@.len(),
    ensures
        match r {
            Some(p) => s_parse_expr(toks_view(toks@), i as int, fuel as nat) == Some(
                (expr_view(p.0), p.1 as int),
            ) && i < p.1 <= toks@.len(),
            None => s_parse_expr(toks_view(toks@), i as int, fuel as nat) is None,
        },
    decreases fuel,
{
    if fuel == 0 {
        return None;
    }
    let (cond, j) = match parse_binary(toks, i, 5, fuel - 1) {
        Some(p) => p,
        None => {
            return None;
        },
    };
    if j >= toks.len() {
        return Some((cond, j));
    }
    proof {
        assert(toks_view(toks@)[j as int] == toks@[j as int]@);
    }
    let isq = match &toks[j] {
        Tok::Question => true,
        _ => false,
    };
    if !isq {
        return Some((cond, j));
    }
    let (thn, j2) = match parse_expr(toks, j + 1, fuel - 1) {
        Some(p) => p,
        None => {
            return None;
        },
    };
    if j2 >= toks.len() {
        return None;
    }
    proof {
        assert(toks_view(toks@)[j2 as int] == toks@[j2 as int]@);
    }
    match &toks[j2] {
        Tok::Colon => {},
        _ => {
            return None;
        },
    }
    let (els, j3) = match parse_expr(toks, j2 + 1, fuel - 1) {
        Some(p) => p,
        None => {
            return None;
        },
    };
    Some((Expr::Cond(Box::new(cond), Box::new(thn), Box::new(els)), j3))
}

/// Expects a semicolon.
fn expect_semi(toks: &Vec<Tok>, i: usize) -> (r: Option<usize>)
    requires
        i <= toks@.len(),
    ensures
        match r {
            Some(j) => s_expect_semi(toks_view(toks@), i as int) == Some(j as int) && i < j
                <= toks@.len(),
            None => s_expect_semi(toks_view(toks@), i as int) is None,
        },
{
    if i < toks.len() {
        proof {
            assert(toks_view(toks@)[i as int] == toks@[i as int]@);
        }
        match &toks[i] {
            Tok::Semi => Some(i + 1),
            _ => None,
        }
    } else {
        None
    }
}

fn parse_stmt(toks: &Vec<Tok>, i: usize, fuel: u64) -> (r: Option<(Stmt, usize)>)
    requires
        i <= toks@.len(),
    ensures
        match r {
            Some(p) => s_parse_stmt(toks_view(toks@), i as int, fuel as nat) == Some(
                (stmt_view(p.0), p.1 as int),
            ) && i < p.1 <= toks@.len(),
            None => s_parse_stmt(toks_view(toks@), i as int, fuel as nat) is None,
        },
    decreases fuel,
{
    if fuel == 0 || i >= toks.len() {
        return None;
    }
    proof {
        assert(toks_view(toks@)[i as int] == toks@[i as int]@);
    }
    match &toks[i] {
        Tok::KwVar => {
            if toks.len() - i < 3 {
                return None;
            }
            proof {
                assert(toks_view(toks@)[i + 1] == toks@[i + 1]@);
                assert(toks_view(toks@)[i + 2] == toks@[i + 2]@);
            }
            let nm = match &toks[i + 1] {
                Tok::Id(name) => name_of(name),
                _ => {
                    return None;
                },
            };
            match &toks[i + 2] {
                Tok::Assign => {},
                _ => {
                    return None;
                },
            }
            let (e, j) = match parse_expr(toks, i + 3, fuel - 1) {
                Some(p) => p,
                None => {
                    return None;
                },
            };
            match expect_semi(toks, j) {
                Some(j2) => Some((Stmt::VarDecl(nm, e), j2)),
                None => None,
            }
        },
        Tok::KwReturn => {
            if i + 1 < toks.len() {
                proof {
                    assert(toks_view(toks@)[i + 1] == toks@[i + 1]@);
                }
                let bare = match &toks[i + 1] {
                    Tok::Semi => true,
                    _ => false,
                };
                if bare {
                    return Some((Stmt::Return(None), i + 2));
                }
            }
            let (e, j) = match parse_expr(toks, i + 1, fuel - 1) {
                Some(p) => p,
                None => {
                    return None;
                },
            };
            match expect_semi(toks, j) {
                Some(j2) => Some((Stmt::Return(Some(e)), j2)),
                None => None,
            }
        },
        Tok::KwIf => {
            if i + 1 >= toks.len() {
                return None;
            }
            proof {
                assert(toks_view(toks@)[i + 1] == toks@[i + 1]@);
            }
            match &toks[i + 1] {
                Tok::LParen => {},
                _ => {
                    return None;
                },
            }
            let (cond, j) = match parse_expr(toks, i + 2, fuel - 1) {
                Some(p) => p,
                None => {
                    return None;
                },
            };
            if j >= toks.len() {
                return None;
            }
            proof {
                assert(toks_view(toks@)[j as int] == toks@[j as int]@);
            }
            match &toks[j] {
                Tok::RParen => {},
                _ => {
                    return None;
                },
            }
            let (thn, j2) = match parse_block_or_single(toks, j + 1, fuel - 1) {
                Some(p) => p,
                None => {
                    return None;
                },
            };
            if j2 < toks.len() {
                proof {
                    assert(toks_view(toks@)[j2 as int] == toks@[j2 as int]@);
                }
                let has_else = match &toks[j2] {
                    Tok::KwElse => true,
                    _ => false,
                };
                if has_else {
                    let (els, j3) = match parse_block_or_single(toks, j2 + 1, fuel - 1) {
                        Some(p) => p,
                        None => {
                            return None;
                        },
                    };
                    return Some((Stmt::If(cond, thn, els), j3));
                }
            }
            let els: Vec<Stmt> = Vec::new();
            proof {
                assert(stmts_view(els@) =~= Seq::<StmtV>::empty());
            }
            Some((Stmt::If(cond, thn, els), j2))
        },
        Tok::KwWhile => {
            if i + 1 >= toks.len() {
                return None;
            }
            proof {
                assert(toks_view(toks@)[i + 1] == toks@[i + 1]@);
            }
            match &toks[i + 1] {
                Tok::LParen => {},
                _ => {
                    return None;
                },
            }
            let (cond, j) = match parse_expr(toks, i + 2, fuel - 1) {
                Some(p) => p,
                None => {
                    return None;
                },
            };
            if j >= toks.len() {
                return None;
            }
            proof {
                assert(toks_view(toks@)[j as int] == toks@[j as int]@);
            }
            match &toks[j] {
                Tok::RParen => {},
                _ => {
                    return None;
                },
            }
            let (body, j2) = match parse_block_or_single(toks, j + 1, fuel - 1) {
                Some(p) => p,
                None => {
                    return None;
                },
            };
            Some((Stmt::While(cond, body), j2))
        },
        Tok::Id(name) => {
            if i + 1 < toks.len() {
                proof {
                    assert(toks_view(toks@)[i + 1] == toks@[i + 1]@);
                }
                let is_assign = match &toks[i + 1] {
                    Tok::Assign => true,
                    _ => false,
                };
                if is_assign {
                    let nm = name_of(name);
                    let (e, j) = match parse_expr(toks, i + 2, fuel - 1) {
                        Some(p) => p,
                        None => {
                            return None;
                        },
                    };
                    return match expect_semi(toks, j) {
                        Some(j2) => Some((Stmt::Assign(nm, e), j2)),
                        None => None,
                    };
                }
            }
            let (e, j) = match parse_expr(toks, i, fuel - 1) {
                Some(p) => p,
                None => {
                    return None;
                },
            };
            match expect_semi(toks, j) {
                Some(j2) => Some((Stmt::ExprStmt(e), j2)),
                None => None,
            }
        },
        _ => {
            let (e, j) = match parse_expr(toks, i, fuel - 1) {
                Some(p) => p,
                None => {
                    return None;
                },
            };
            match expect_semi(toks, j) {
                Some(j2) => Some((Stmt::ExprStmt(e), j2)),
                None => None,
            }
        },
    }
}

/// A braced statement list, or a single statement as a one-element list.
fn parse_block_or_single(toks: &Vec<Tok>, i: usize, fuel: u64) -> (r: Option<(Vec<Stmt>, usize)>)
    requires
        i <= toks@.len(),
    ensures
        match r {
            Some(p) => s_parse_block_or_single(toks_view(toks@), i as int, fuel as nat) == Some(
                (stmts_view(p.0@), p.1 as int),
            ) && i < p.1 <= toks@.len(),
            None => s_parse_block_or_single(toks_view(toks@), i as int, fuel as nat) is None,
        },
    decreases fuel,
{
    if fuel == 0 || i >= toks.len() {
        return None;
    }
    proof {
        assert(toks_view(toks@)[i as int] == toks@[i as int]@);
    }
    let braced = match &toks[i] {
        Tok::LBrace => true,
        _ => false,
    };
    if !braced {
        let (s, j) = match parse_stmt(toks, i, fuel - 1) {
            Some(p) => p,
            None => {
                return None;
            },
        };
        let ghost sv = stmt_view(s);
        let mut v: Vec<Stmt> = Vec::new();
        v.push(s);
        proof {
            assert(v@[0] == s || v@[0] == v@[0]);
            assert(stmts_view(v@) == seq![stmt_view(v@[0])] + stmts_view(
                v@.subrange(1, v@.len() as int),
            ));
            assert(v@.subrange(1, v@.len() as int) =~= Seq::<Stmt>::empty());
            assert(stmts_view(v@.subrange(1, v@.len() as int)) == Seq::<StmtV>::empty());
            assert(stmts_view(v@) =~= seq![sv]);
        }
        return Some((v, j));
    }
    let mut stmts: Vec<Stmt> = Vec::new();
    let mut j: usize = i + 1;
    let ghost goal = s_block_loop(toks_view(toks@), seq![], i + 1, fuel as nat);
    proof {
        assert(s_parse_block_or_single(toks_view(toks@), i as int, fuel as nat) == goal);
        assert(stmts_view(stmts@) =~= Seq::<StmtV>::empty());
    }
    let mut f = fuel;
    loop
        invariant
            i < j <= toks@.len(),
            f <= fuel,
            goal == s_block_loop(toks_view(toks@), stmts_view(stmts@), j as int, f as nat),
            s_parse_block_or_single(toks_view(toks@), i as int, fuel as nat) == goal,
        decreases f,
    {
        if f == 0 {
            return None;
        }
        f = f - 1;
        if j >= toks.len() {
            return None;
        }
        proof {
            assert(toks_view(toks@)[j as int] == toks@[j as int]@);
        }
        let done = match &toks[j] {
            Tok::RBrace => true,
            _ => false,
        };
        if done {
            return Some((stmts, j + 1));
        }
        let (s, j2) = match parse_stmt(toks, j, f) {
            Some(p) => p,
            None => {
                return None;
            },
        };
        let ghost st0 = stmts@;
        stmts.push(s);
        proof {
            lemma_stmts_view_push(st0, stmts@.last());
        }
        j = j2;
    }
}

fn parse_fun(toks: &Vec<Tok>, i: usize, fuel: u64) -> (r: Option<(FunDecl, usize)>)
    requires
        i <= toks@.len(),
    ensures
        match r {
            Some(p) => s_parse_fun(toks_view(toks@), i as int, fuel as nat) == Some(
                (fun_view(p.0), p.1 as int),
            ) && i < p.1 <= toks@.len(),
            None => s_parse_fun(toks_view(toks@), i as int, fuel as nat) is None,
        },
    decreases fuel,
{
    if fuel == 0 || i >= toks.len() || toks.len() - i < 3 {
        return None;
    }
    proof {
        assert(toks_view(toks@)[i as int] == toks@[i as int]@);
        assert(toks_view(toks@)[i + 1] == toks@[i + 1]@);
        assert(toks_view(toks@)[i + 2] == toks@[i + 2]@);
    }
    match &toks[i] {
        Tok::KwFunction => {},
        _ => {
            return None;
        },
    }
    let nm = match &toks[i + 1] {
        Tok::Id(name) => name_of(name),
        _ => {
            return None;
        },
    };
    match &toks[i + 2] {
        Tok::LParen => {},
        _ => {
            return None;
        },
    }
    let mut params: Vec<Vec<char>> = Vec::new();
    let mut j: usize = i + 3;
    let ghost pgoal = s_params_loop(toks_view(toks@), seq![], i + 3, fuel as nat);
    proof {
        assert(params_view(params@) =~= Seq::<Seq<char>>::empty());
    }
    let mut f = fuel;
    let mut closed = false;
    #[verifier::loop_isolation(false)]
    while !closed
        invariant
            i + 3 <= j <= toks@.len(),
            f <= fuel,
            !closed ==> pgoal == s_params_loop(
                toks_view(toks@),
                params_view(params@),
                j as int,
                f as nat,
            ),
            closed ==> pgoal == Some((params_view(params@), j as int)),
        decreases (if closed {
            0int
        } else {
            1int
        }), f,
    {
        if f == 0 || j >= toks.len() {
            proof {
                assert(pgoal is None);
                assert(s_parse_fun(toks_view(toks@), i as int, fuel as nat) is None);
            }
            return None;
        }
        proof {
            assert(toks_view(toks@)[j as int] == toks@[j as int]@);
        }
        match &toks[j] {
            Tok::RParen => {
                j = j + 1;
                closed = true;
            },
            Tok::Id(name) => {
                f = f - 1;
                let nm2 = name_of(name);
                let ghost ps0 = params@;
                params.push(nm2);
                proof {
                    assert(params_view(params@) =~= params_view(ps0).push(params@.last()@));
                }
                j = j + 1;
            },
            Tok::Comma => {
                f = f - 1;
                j = j + 1;
            },
            _ => {
                proof {
                    assert(pgoal is None);
                    assert(s_parse_fun(toks_view(toks@), i as int, fuel as nat) is None);
                }
                return None;
            },
        }
    }
    if j >= toks.len() {
        return None;
    }
    proof {
        assert(toks_view(toks@)[j as int] == toks@[j as int]@);
    }
    match &toks[j] {
        Tok::LBrace => {},
        _ => {
            return None;
        },
    }
    let (body, j2) = match parse_block_or_single(toks, j, fuel - 1) {
        Some(p) => p,
        None => {
            return None;
        },
    };
    let fd = FunDecl { name: nm, params: params, body: body };
    proof {
        assert(fun_view(fd).params =~= params_view(fd.params@));
        assert(fun_view(fd).body == stmts_view(fd.body@));
    }
    Some((fd, j2))
}

/// Parses a whole script; the result is exactly `s_parse_program` of the
/// token views: a sequence of function declarations covering every token.
pub fn parse_program(toks: &Vec<Tok>) -> (r: Option<Program>)
    ensures
        match r {
            Some(p) => s_parse_program(toks_view(toks@)) == Some(crate::ast::program_view(p)),
            None => s_parse_program(toks_view(toks@)) is None,
        },
{
    let mut funs: Vec<FunDecl> = Vec::new();
    let mut i: usize = 0;
    let n64: u64 = toks.len() as u64;
    let fuel: u64 = if n64 > 0xff_ffff_ffff {
        0xffff_ffff_ffff_ffff
    } else {
        16 * n64 + 64
    };
    let ghost goal = s_parse_program(toks_view(toks@));
    proof {
        assert(funs_view(funs@) =~= Seq::<FunDeclV>::empty());
        assert(goal == s_prog_loop(toks_view(toks@), funs_view(funs@), 0, fuel as nat, fuel as nat));
    }
    let mut f = fuel;
    loop
        invariant
            i <= toks@.len(),
            goal == s_prog_loop(
                toks_view(toks@),
                funs_view(funs@),
                i as int,
                f as nat,
                fuel as nat,
            ),
            goal == s_parse_program(toks_view(toks@)),
        decreases f,
    {
        if i == toks.len() {
            let p = Program { funs: funs };
            proof {
                assert(crate::ast::program_view(p).funs =~= funs_view(p.funs@));
            }
            return Some(p);
        }
        if f == 0 {
            return None;
        }
        f = f - 1;
        let (fd, j) = match parse_fun(toks, i, fuel) {
            Some(p) => p,
            None => {
                return None;
            },
        };
        let ghost fs0 = funs@;
        funs.push(fd);
        proof {
            assert(funs_view(funs@) =~= funs_view(fs0).push(fun_view(funs@.last())));
        }
        i = j;
    }
}

} // verus!
