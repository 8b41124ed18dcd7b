//! The abstract syntax of the PAC scripting subset, the runtime values, and
//! their mathematical views.  The subset covers what PAC scripts use:
//! function declarations, `var`, assignment, `if`/`else`, `while`, `return`,
//! the comparison, boolean, additive and multiplicative operators, the
//! conditional operator, calls, and the string methods `toLowerCase` and
//! `substring`.

use vstd::prelude::*;

use crate::text::chars_eq;

verus! {

#[derive(Clone, Copy, PartialEq, Eq, Structural, Debug)]
pub enum UnOp {
    Not,
    Neg,
}

#[derive(Clone, Copy, PartialEq, Eq, Structural, Debug)]
pub enum BinOp {
    Or,
    And,
    EqEq,
    NotEq,
    Lt,
    Le,
    Gt,
    Ge,
    Add,
    Sub,
    Mul,
    Div,
    Mod,
}

pub enum Expr {
    StrLit(Vec<char>),
    NumLit(i64),
    BoolLit(bool),
    NullLit,
    Var(Vec<char>),
    Un(UnOp, Box<Expr>),
    Bin(BinOp, Box<Expr>, Box<Expr>),
    Call(Vec<char>, Vec<Expr>),
    Method(Box<Expr>, Vec<char>, Vec<Expr>),
    Cond(Box<Expr>, Box<Expr>, Box<Expr>),
}

pub enum Stmt {
    VarDecl(Vec<char>, Expr),
    Assign(Vec<char>, Expr),
    If(Expr, Vec<Stmt>, Vec<Stmt>),
    While(Expr, Vec<Stmt>),
    Return(Option<Expr>),
    ExprStmt(Expr),
}

pub struct FunDecl {
    pub name: Vec<char>,
    pub params: Vec<Vec<char>>,
    pub body: Vec<Stmt>,
}

pub struct Program {
    pub funs: Vec<FunDecl>,
}

/// The mathematical value of an expression.
pub enum ExprV {
    StrLitV(Seq<char>),
    NumLitV(i64),
    BoolLitV(bool),
    NullLitV,
    VarV(Seq<char>),
    UnV(UnOp, Box<ExprV>),
    BinV(BinOp, Box<ExprV>, Box<ExprV>),
    CallV(Seq<char>, Seq<ExprV>),
    MethodV(Box<ExprV>, Seq<char>, Seq<ExprV>),
    CondV(Box<ExprV>, Box<ExprV>, Box<ExprV>),
}

/// The mathematical value of a statement.
pub enum StmtV {
    VarDeclV(Seq<char>, ExprV),
    AssignV(Seq<char>, ExprV),
    IfV(ExprV, Seq<StmtV>, Seq<StmtV>),
    WhileV(ExprV, Seq<StmtV>),
    ReturnV(Option<ExprV>),
    ExprStmtV(ExprV),
}

pub struct FunDeclV {
    pub name: Seq<char>,
    pub params: Seq<Seq<char>>,
    pub body: Seq<StmtV>,
}

pub struct ProgramV {
    pub funs: Seq<FunDeclV>,
}

pub open spec fn expr_view(e: Expr) -> ExprV
    decreases e,
    via expr_view_dec
{
    match e {
        Expr::StrLit(s) => ExprV::StrLitV(s@),
        Expr::NumLit(n) => ExprV::NumLitV(n),
        Expr::BoolLit(b) => ExprV::BoolLitV(b),
        Expr::NullLit => ExprV::NullLitV,
        Expr::Var(n) => ExprV::VarV(n@),
        Expr::Un(op, a) => ExprV::UnV(op, Box::new(expr_view(*a))),
        Expr::Bin(op, a, b) => ExprV::BinV(op, Box::new(expr_view(*a)), Box::new(expr_view(*b))),
        Expr::Call(n, args) => ExprV::CallV(n@, exprs_view(args@)),
        Expr::Method(obj, n, args) => ExprV::MethodV(
            Box::new(expr_view(*obj)),
            n@,
            exprs_view(args@),
        ),
        Expr::Cond(c, a, b) => ExprV::CondV(
            Box::new(expr_view(*c)),
            Box::new(expr_view(*a)),
            Box::new(expr_view(*b)),
        ),
    }
}

pub open spec fn exprs_view(es: Seq<Expr>) -> Seq<ExprV>
    decreases es,
{
    if es.len() == 0 {
        seq![]
    } else {
        seq![expr_view(es[0])] + exprs_view(es.subrange(1, es.len() as int))
    }
}

#[via_fn]
proof fn expr_view_dec(e: Expr) {
    match e {
        Expr::Call(n, args) => {
            assert(decreases_to!(e => args));
            assert(decreases_to!(args => args@));
        },
        Expr::Method(obj, n, args) => {
            assert(decreases_to!(e => args));
            assert(decreases_to!(args => args@));
        },
        _ => {},
    }
}

pub open spec fn stmt_view(st: Stmt) -> StmtV
    decreases st,
    via stmt_view_dec
{
    match st {
        Stmt::VarDecl(n, e) => StmtV::VarDeclV(n@, expr_view(e)),
        Stmt::Assign(n, e) => StmtV::AssignV(n@, expr_view(e)),
        Stmt::If(c, thn, els) => StmtV::IfV(expr_view(c), stmts_view(thn@), stmts_view(els@)),
        Stmt::While(c, body) => StmtV::WhileV(expr_view(c), stmts_view(body@)),
        Stmt::Return(oe) => StmtV::ReturnV(
            match oe {
                Some(e) => Some(expr_view(e)),
                None => None,
            },
        ),
        Stmt::ExprStmt(e) => StmtV::ExprStmtV(expr_view(e)),
    }
}

pub open spec fn stmts_view(sts: Seq<Stmt>) -> Seq<StmtV>
    decreases sts,
{
    if sts.len() == 0 {
        seq![]
    } else {
        seq![stmt_view(sts[0])] + stmts_view(sts.subrange(1, sts.len() as int))
    }
}

#[via_fn]
proof fn stmt_view_dec(st: Stmt) {
    match st {
        Stmt::If(c, thn, els) => {
            assert(decreases_to!(st => thn));
            assert(decreases_to!(thn => thn@));
            assert(decreases_to!(st => els));
            assert(decreases_to!(els => els@));
        },
        Stmt::While(c, body) => {
            assert(decreases_to!(st => body));
            assert(decreases_to!(body => body@));
        },
        _ => {},
    }
}

pub open spec fn params_view(ps: Seq<Vec<char>>) -> Seq<Seq<char>> {
    Seq::new(ps.len(), |k: int| ps[k]@)
}

pub open spec fn fun_view(f: FunDecl) -> FunDeclV {
    FunDeclV { name: f.name@, params: params_view(f.params@), body: stmts_view(f.body@) }
}

pub open spec fn funs_view(fs: Seq<FunDecl>) -> Seq<FunDeclV> {
    Seq::new(fs.len(), |k: int| fun_view(fs[k]))
}

pub open spec fn program_view(p: Program) -> ProgramV {
    ProgramV { funs: funs_view(p.funs@) }
}

/// A runtime value of the script subset.
pub enum Value {
    Str(Vec<char>),
    Num(i64),
    Bool(bool),
    Null,
    Undef,
}

/// The mathematical value of a runtime value.
pub enum SpecVal {
    VStr(Seq<char>),
    VNum(i64),
    VBool(bool),
    VNull,
    VUndef,
}

impl View for Value {
    type V = SpecVal;

    open spec fn view(&self) -> SpecVal {
        match self {
            Value::Str(s) => SpecVal::VStr(s@),
            Value::Num(n) => SpecVal::VNum(*n),
            Value::Bool(b) => SpecVal::VBool(*b),
            Value::Null => SpecVal::VNull,
            Value::Undef => SpecVal::VUndef,
        }
    }
}

/// A deep copy of a value.
pub fn value_clone(v: &Value) -> (r: Value)
    ensures
        r@ == v@,
{
    match v {
        Value::Str(s) => {
            let c = crate::text::copy_range(s, 0, s.len());
            proof {
                assert(c@ =~= s@);
            }
            Value::Str(c)
        },
        Value::Num(n) => Value::Num(*n),
        Value::Bool(b) => Value::Bool(*b),
        Value::Null => Value::Null,
        Value::Undef => Value::Undef,
    }
}

/// JavaScript-style truthiness: a nonempty string, a nonzero number, `true`.
pub open spec fn s_truthy(v: SpecVal) -> bool {
    match v {
        SpecVal::VStr(s) => s.len() > 0,
        SpecVal::VNum(n) => n != 0,
        SpecVal::VBool(b) => b,
        SpecVal::VNull => false,
        SpecVal::VUndef => false,
    }
}

pub fn truthy(v: &Value) -> (r: bool)
    ensures
        r == s_truthy(v@),
{
    match v {
        Value::Str(s) => s.len() > 0,
        Value::Num(n) => *n != 0,
        Value::Bool(b) => *b,
        Value::Null => false,
        Value::Undef => false,
    }
}

/// Loose equality over the value kinds the subset holds: same-kind values
/// compare by content, `null` and `undefined` equal each other, and values
/// of different kinds are unequal.
pub open spec fn s_equals(a: SpecVal, b: SpecVal) -> bool {
    match (a, b) {
        (SpecVal::VStr(x), SpecVal::VStr(y)) => x == y,
        (SpecVal::VNum(x), SpecVal::VNum(y)) => x == y,
        (SpecVal::VBool(x), SpecVal::VBool(y)) => x == y,
        (SpecVal::VNull, SpecVal::VNull) => true,
        (SpecVal::VUndef, SpecVal::VUndef) => true,
        (SpecVal::VNull, SpecVal::VUndef) => true,
        (SpecVal::VUndef, SpecVal::VNull) => true,
        _ => false,
    }
}

pub fn value_equals(a: &Value, b: &Value) -> (r: bool)
    ensures
        r == s_equals(a@, b@),
{
    match (a, b) {
        (Value::Str(x), Value::Str(y)) => chars_eq(x, y),
        (Value::Num(x), Value::Num(y)) => *x == *y,
        (Value::Bool(x), Value::Bool(y)) => *x == *y,
        (Value::Null, Value::Null) => true,
        (Value::Undef, Value::Undef) => true,
        (Value::Null, Value::Undef) => true,
        (Value::Undef, Value::Null) => true,
        _ => false,
    }
}

/// Why an evaluation stopped without a value.
pub enum Abort {
    /// The step budget ran out: the script looped too long.
    OutOfFuel,
    /// The script stepped outside the supported subset or misused a value.
    TypeErr,
    /// A resolution-backed function hit a hostname the snapshot knows
    /// nothing about; the (lower-cased) hostname is carried along.
    NeedDns(Vec<char>),
}

pub enum SAbort {
    SOutOfFuel,
    STypeErr,
    SNeedDns(Seq<char>),
}

impl View for Abort {
    type V = SAbort;

    open spec fn view(&self) -> SAbort {
        match self {
            Abort::OutOfFuel => SAbort::SOutOfFuel,
            Abort::TypeErr => SAbort::STypeErr,
            Abort::NeedDns(h) => SAbort::SNeedDns(h@),
        }
    }
}

/// The mathematical value of an expression-evaluation outcome.
pub open spec fn out_view(r: Result<Value, Abort>) -> Result<SpecVal, SAbort> {
    match r {
        Ok(v) => Ok(v@),
        Err(a) => Err(a@),
    }
}

} // verus!
