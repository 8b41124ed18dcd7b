//! The evaluator of the PAC scripting subset.  Its semantics is given by the
//! `s_*` specification functions — mathematical functions of the program,
//! the evaluation context and a step budget — and each executable function
//! is proved to return exactly what its specification function denotes.
//! Everything the evaluation may observe (the resolution snapshot, the
//! clock, the local address, the budget) lives in the `EvalContext` value,
//! so an evaluation is a pure function of script, URL, host and context.

use vstd::prelude::*;

use crate::ast::{
    out_view, s_equals, s_truthy, truthy, value_clone, value_equals, Abort, BinOp, Expr, FunDecl,
    Program, SAbort, SpecVal, Stmt, UnOp, Value,
};
use crate::clock::{
    date_range, is_gmt_flag, month_num, s_date_range, s_is_gmt_flag, s_month_num, s_time_range,
    s_weekday_num, s_weekday_range, s_wrap_in, time_range, weekday_num, weekday_range, wrap_in,
    DateField, Moment,
};
use crate::dns::{s_dns_state, DnsCache, LookupOut, ResolveState};
use crate::pacfns::{
    dns_domain_is, dns_domain_levels, in_net, ipv4_fmt, is_plain_host_name,
    local_host_or_domain_is, parse_ipv4, s_dot_count, s_domain_suffix, s_glob_match, s_in_net,
    s_ipv4_fmt, s_ipv4_of, s_local_host_or_domain, s_plain_host, sh_exp_match,
};
use crate::text::{chars_eq, copy_range, dec_fmt, fmt_u64, lower_seq, lower_vec, str_to_chars};

verus! {

/// Everything an evaluation may read: the resolution snapshot, the clock
/// (one local and one GMT moment plus a cache timestamp), the local address,
/// the step budget, and how to treat hostnames the snapshot does not know.
pub struct EvalContext {
    pub dns: DnsCache,
    /// The cache timestamp for TTL checks, in the caller's clock units.
    pub now: u64,
    pub utc: Moment,
    pub local: Moment,
    /// What `myIpAddress` reports.
    pub my_ip: u32,
    /// The step budget of one evaluation.
    pub budget: u64,
    /// When set, a hostname the snapshot knows nothing about behaves as a
    /// resolution failure; when clear, evaluation suspends and reports the
    /// hostname so the caller can resolve it and retry.
    pub unknown_is_failure: bool,
}

/// A variable environment: name/value bindings, newest last.
pub type EnvV = Seq<(Seq<char>, SpecVal)>;

pub open spec fn env_view(env: Seq<(Vec<char>, Value)>) -> EnvV {
    env.map_values(|p: (Vec<char>, Value)| (p.0@, p.1@))
}

pub open spec fn vals_view(vs: Seq<Value>) -> Seq<SpecVal> {
    vs.map_values(|v: Value| v@)
}

/// The newest binding of a name wins.
pub open spec fn s_env_lookup(env: EnvV, n: Seq<char>) -> Option<SpecVal>
    decreases env.len(),
{
    if env.len() == 0 {
        None
    } else if env.last().0 == n {
        Some(env.last().1)
    } else {
        s_env_lookup(env.drop_last(), n)
    }
}

/// Parameters bound to arguments in order; missing arguments are undefined.
pub open spec fn s_bind(params: Seq<Vec<char>>, args: Seq<SpecVal>, i: int) -> EnvV
    decreases params.len() - i,
{
    if i < 0 || i >= params.len() {
        seq![]
    } else {
        seq![
            (
                params[i]@,
                if i < args.len() {
                    args[i]
                } else {
                    SpecVal::VUndef
                },
            ),
        ] + s_bind(params, args, i + 1)
    }
}

/// The first declaration of a name wins.
pub open spec fn s_find_fun(funs: Seq<FunDecl>, n: Seq<char>) -> Option<FunDecl>
    decreases funs.len(),
{
    if funs.len() == 0 {
        None
    } else if funs[0].name@ == n {
        Some(funs[0])
    } else {
        s_find_fun(funs.skip(1), n)
    }
}

/// What resolving a hostname yields under the snapshot: the preferred
/// address, a failure, or a suspension on an unknown host.
pub open spec fn s_resolve(ctx: EvalContext, h: Seq<char>) -> Result<Option<u32>, SAbort> {
    match s_dns_state(ctx.dns, lower_seq(h), ctx.now) {
        ResolveState::Known(addrs) => Ok(Some(addrs[0])),
        ResolveState::Failed => Ok(None),
        ResolveState::Unknown => if ctx.unknown_is_failure {
            Ok(None)
        } else {
            Err(SAbort::SNeedDns(lower_seq(h)))
        },
    }
}

pub open spec fn arg_str(args: Seq<SpecVal>, i: int) -> Option<Seq<char>> {
    if 0 <= i < args.len() {
        match args[i] {
            SpecVal::VStr(s) => Some(s),
            _ => None,
        }
    } else {
        None
    }
}

/// The decimal text of a signed number.
pub open spec fn s_num_str(n: i64) -> Seq<char> {
    if n >= 0 {
        dec_fmt(n as int)
    } else {
        seq!['-'] + dec_fmt(-(n as int))
    }
}

/// JavaScript `substring`: both ends clamped to the string, swapped if
/// reversed.
pub open spec fn s_clamp_idx(n: int, len: int) -> int {
    if n < 0 {
        0
    } else if n > len {
        len
    } else {
        n
    }
}

pub open spec fn s_substring(s: Seq<char>, a: i64, b: i64) -> Seq<char> {
    let x = s_clamp_idx(a as int, s.len() as int);
    let y = s_clamp_idx(b as int, s.len() as int);
    if x <= y {
        s.subrange(x, y)
    } else {
        s.subrange(y, x)
    }
}

/// Magnitude of a signed number.
pub open spec fn s_abs(x: int) -> int {
    if x >= 0 {
        x
    } else {
        -x
    }
}

/// Truncating division, the script meaning of `/` on whole numbers.
pub open spec fn s_trunc_div(x: int, y: int) -> int {
    if (x >= 0) == (y >= 0) {
        s_abs(x) / s_abs(y)
    } else {
        -(s_abs(x) / s_abs(y))
    }
}

/// The remainder matching `s_trunc_div`, with the sign of the dividend.
pub open spec fn s_trunc_rem(x: int, y: int) -> int {
    if x >= 0 {
        s_abs(x) % s_abs(y)
    } else {
        -(s_abs(x) % s_abs(y))
    }
}

pub open spec fn s_unop(op: UnOp, v: SpecVal) -> Result<SpecVal, SAbort> {
    match op {
        UnOp::Not => Ok(SpecVal::VBool(!s_truthy(v))),
        UnOp::Neg => match v {
            SpecVal::VNum(n) => if n == i64::MIN {
                Err(SAbort::STypeErr)
            } else {
                Ok(SpecVal::VNum((-n) as i64))
            },
            _ => Err(SAbort::STypeErr),
        },
    }
}

pub open spec fn s_binop(op: BinOp, a: SpecVal, b: SpecVal) -> Result<SpecVal, SAbort> {
    match op {
        BinOp::EqEq => Ok(SpecVal::VBool(s_equals(a, b))),
        BinOp::NotEq => Ok(SpecVal::VBool(!s_equals(a, b))),
        BinOp::Lt => match (a, b) {
            (SpecVal::VNum(x), SpecVal::VNum(y)) => Ok(SpecVal::VBool(x < y)),
            _ => Err(SAbort::STypeErr),
        },
        BinOp::Le => match (a, b) {
            (SpecVal::VNum(x), SpecVal::VNum(y)) => Ok(SpecVal::VBool(x <= y)),
            _ => Err(SAbort::STypeErr),
        },
        BinOp::Gt => match (a, b) {
            (SpecVal::VNum(x), SpecVal::VNum(y)) => Ok(SpecVal::VBool(x > y)),
            _ => Err(SAbort::STypeErr),
        },
        BinOp::Ge => match (a, b) {
            (SpecVal::VNum(x), SpecVal::VNum(y)) => Ok(SpecVal::VBool(x >= y)),
            _ => Err(SAbort::STypeErr),
        },
        BinOp::Add => match (a, b) {
            (SpecVal::VStr(x), SpecVal::VStr(y)) => Ok(SpecVal::VStr(x + y)),
            (SpecVal::VStr(x), SpecVal::VNum(y)) => Ok(SpecVal::VStr(x + s_num_str(y))),
            (SpecVal::VNum(x), SpecVal::VStr(y)) => Ok(SpecVal::VStr(s_num_str(x) + y)),
            (SpecVal::VNum(x), SpecVal::VNum(y)) => if i64::MIN <= x + y <= i64::MAX {
                Ok(SpecVal::VNum((x + y) as i64))
            } else {
                Err(SAbort::STypeErr)
            },
            _ => Err(SAbort::STypeErr),
        },
        BinOp::Sub => match (a, b) {
            (SpecVal::VNum(x), SpecVal::VNum(y)) => if i64::MIN <= x - y <= i64::MAX {
                Ok(SpecVal::VNum((x - y) as i64))
            } else {
                Err(SAbort::STypeErr)
            },
            _ => Err(SAbort::STypeErr),
        },
        BinOp::Mul => match (a, b) {
            (SpecVal::VNum(x), SpecVal::VNum(y)) => if i64::MIN <= x * y <= i64::MAX {
                Ok(SpecVal::VNum((x * y) as i64))
            } else {
                Err(SAbort::STypeErr)
            },
            _ => Err(SAbort::STypeErr),
        },
        BinOp::Div => match (a, b) {
            (SpecVal::VNum(x), SpecVal::VNum(y)) => if y == 0 || !(i64::MIN <= s_trunc_div(
                x as int,
                y as int,
            ) <= i64::MAX) {
                Err(SAbort::STypeErr)
            } else {
                Ok(SpecVal::VNum(s_trunc_div(x as int, y as int) as i64))
            },
            _ => Err(SAbort::STypeErr),
        },
        BinOp::Mod => match (a, b) {
            (SpecVal::VNum(x), SpecVal::VNum(y)) => if y == 0 {
                Err(SAbort::STypeErr)
            } else {
                Ok(SpecVal::VNum(s_trunc_rem(x as int, y as int) as i64))
            },
            _ => Err(SAbort::STypeErr),
        },
        _ => Err(SAbort::STypeErr),
    }
}

/// A string method: `toLowerCase()` or `substring(a, b)`.
pub open spec fn s_method(ov: SpecVal, name: Seq<char>, args: Seq<SpecVal>) -> Result<
    SpecVal,
    SAbort,
> {
    match ov {
        SpecVal::VStr(s) => if name == "toLowerCase"@ && args.len() == 0 {
            Ok(SpecVal::VStr(lower_seq(s)))
        } else if name == "substring"@ && args.len() == 2 {
            match (args[0], args[1]) {
                (SpecVal::VNum(a), SpecVal::VNum(b)) => Ok(SpecVal::VStr(s_substring(s, a, b))),
                _ => Err(SAbort::STypeErr),
            }
        } else {
            Err(SAbort::STypeErr)
        },
        _ => Err(SAbort::STypeErr),
    }
}

/// The clamp `dnsDomainLevels` applies so its count fits a script number.
pub open spec fn s_levels_num(c: int) -> i64 {
    if c > i64::MAX {
        i64::MAX
    } else {
        c as i64
    }
}

/// The GMT-flag convention of the clock functions: a final `"GMT"` string
/// argument selects the GMT moment.
pub open spec fn s_wants_gmt(args: Seq<SpecVal>) -> bool {
    args.len() > 0 && match args.last() {
        SpecVal::VStr(s) => s_is_gmt_flag(s),
        _ => false,
    }
}

pub open spec fn s_clock_args(args: Seq<SpecVal>) -> Seq<SpecVal> {
    if s_wants_gmt(args) {
        args.drop_last()
    } else {
        args
    }
}

/// `weekdayRange` over the chosen moment: one weekday name or two.
pub open spec fn s_weekday_call(m: Moment, args: Seq<SpecVal>) -> Result<SpecVal, SAbort> {
    if args.len() == 1 {
        match arg_str(args, 0) {
            Some(w) => match s_weekday_num(w) {
                Some(w1) => Ok(SpecVal::VBool(s_weekday_range(m, w1, None))),
                None => Err(SAbort::STypeErr),
            },
            None => Err(SAbort::STypeErr),
        }
    } else if args.len() == 2 {
        match (arg_str(args, 0), arg_str(args, 1)) {
            (Some(wa), Some(wb)) => match (s_weekday_num(wa), s_weekday_num(wb)) {
                (Some(w1), Some(w2)) => Ok(SpecVal::VBool(s_weekday_range(m, w1, Some(w2)))),
                _ => Err(SAbort::STypeErr),
            },
            _ => Err(SAbort::STypeErr),
        }
    } else {
        Err(SAbort::STypeErr)
    }
}

/// One `dateRange` bound: a day of the month, a month name, or a year.
pub open spec fn s_date_bound(v: SpecVal) -> Option<(DateField, u16)> {
    match v {
        SpecVal::VNum(n) => if 1 <= n <= 31 {
            Some((DateField::Day, n as u16))
        } else if 32 <= n <= 65535 {
            Some((DateField::Year, n as u16))
        } else {
            None
        },
        SpecVal::VStr(s) => match s_month_num(s) {
            Some(mo) => Some((DateField::Month, mo as u16)),
            None => None,
        },
        _ => None,
    }
}

/// A month/day pair on one axis, for wrap-around ranges within a year.
pub open spec fn s_md_key(mo: int, d: int) -> int {
    mo * 40 + d
}

/// A year/month pair on one axis, for absolute ranges across years.
pub open spec fn s_ym_key(y: int, mo: int) -> int {
    y * 16 + mo
}

/// A full date on one axis, for absolute ranges of exact dates.
pub open spec fn s_ymd_key(y: int, mo: int, d: int) -> int {
    s_ym_key(y, mo) * 40 + d
}

/// `dateRange` over the chosen moment, in the classic forms: one bound, a
/// day-and-month, a month-and-year, an exact date, a same-kind range, a
/// day/month range (wrapping the turn of the year), a month/year range, or
/// a full date range (both absolute).
pub open spec fn s_date_call(m: Moment, args: Seq<SpecVal>) -> Result<SpecVal, SAbort> {
    if args.len() == 1 {
        match s_date_bound(args[0]) {
            Some(b) => Ok(SpecVal::VBool(s_date_range(m, b.0, b.1, None))),
            None => Err(SAbort::STypeErr),
        }
    } else if args.len() == 2 {
        match (s_date_bound(args[0]), s_date_bound(args[1])) {
            (Some(lo), Some(hi)) => if lo.0 == hi.0 {
                Ok(SpecVal::VBool(s_date_range(m, lo.0, lo.1, Some(hi.1))))
            } else if lo.0 is Day && hi.0 is Month {
                Ok(SpecVal::VBool(m.day == lo.1 && m.month == hi.1))
            } else if lo.0 is Month && hi.0 is Year {
                Ok(SpecVal::VBool(m.month == lo.1 && m.year == hi.1))
            } else {
                Err(SAbort::STypeErr)
            },
            _ => Err(SAbort::STypeErr),
        }
    } else if args.len() == 3 {
        match (s_date_bound(args[0]), s_date_bound(args[1]), s_date_bound(args[2])) {
            (Some(d), Some(mo), Some(y)) => if d.0 is Day && mo.0 is Month && y.0 is Year {
                Ok(SpecVal::VBool(m.day == d.1 && m.month == mo.1 && m.year == y.1))
            } else {
                Err(SAbort::STypeErr)
            },
            _ => Err(SAbort::STypeErr),
        }
    } else if args.len() == 4 {
        match (
            s_date_bound(args[0]),
            s_date_bound(args[1]),
            s_date_bound(args[2]),
            s_date_bound(args[3]),
        ) {
            (Some(a), Some(b), Some(c), Some(d)) => if a.0 is Day && b.0 is Month && c.0 is Day
                && d.0 is Month {
                Ok(
                    SpecVal::VBool(
                        s_wrap_in(
                            s_md_key(m.month as int, m.day as int),
                            s_md_key(b.1 as int, a.1 as int),
                            s_md_key(d.1 as int, c.1 as int),
                        ),
                    ),
                )
            } else if a.0 is Month && b.0 is Year && c.0 is Month && d.0 is Year {
                Ok(
                    SpecVal::VBool(
                        s_ym_key(b.1 as int, a.1 as int) <= s_ym_key(m.year as int, m.month as int)
                            <= s_ym_key(d.1 as int, c.1 as int),
                    ),
                )
            } else {
                Err(SAbort::STypeErr)
            },
            _ => Err(SAbort::STypeErr),
        }
    } else if args.len() == 6 {
        match (
            s_date_bound(args[0]),
            s_date_bound(args[1]),
            s_date_bound(args[2]),
            s_date_bound(args[3]),
            s_date_bound(args[4]),
            s_date_bound(args[5]),
        ) {
            (Some(d1), Some(m1), Some(y1), Some(d2), Some(m2), Some(y2)) => if d1.0 is Day
                && m1.0 is Month && y1.0 is Year && d2.0 is Day && m2.0 is Month && y2.0 is Year {
                Ok(
                    SpecVal::VBool(
                        s_ymd_key(y1.1 as int, m1.1 as int, d1.1 as int) <= s_ymd_key(
                            m.year as int,
                            m.month as int,
                            m.day as int,
                        ) <= s_ymd_key(y2.1 as int, m2.1 as int, d2.1 as int),
                    ),
                )
            } else {
                Err(SAbort::STypeErr)
            },
            _ => Err(SAbort::STypeErr),
        }
    } else {
        Err(SAbort::STypeErr)
    }
}

/// The date keys, computed on machine integers: a month/day key is at most
/// 12 * 40 + 31, a year/month key at most 65535 * 16 + 12, a full date key
/// at most (65535 * 16 + 12) * 40 + 31.
fn md_key_x(mo: u16, d: u16) -> (r: u32)
    requires
        mo <= 0xffff,
        d <= 0xffff,
    ensures
        r as int == s_md_key(mo as int, d as int),
{
    (mo as u32) * 40 + (d as u32)
}

fn ym_key_x(y: u16, mo: u16) -> (r: u32)
    ensures
        r as int == s_ym_key(y as int, mo as int),
{
    (y as u32) * 16 + (mo as u32)
}

fn ymd_key_x(y: u16, mo: u16, d: u16) -> (r: u64)
    ensures
        r as int == s_ymd_key(y as int, mo as int, d as int),
{
    (ym_key_x(y, mo) as u64) * 40 + (d as u64)
}

/// The numeric arguments of `timeRange`, each a small count.
pub open spec fn s_time_args(args: Seq<SpecVal>, i: int) -> Option<Seq<u8>>
    decreases args.len() - i,
{
    if i < 0 || i >= args.len() {
        Some(seq![])
    } else {
        match args[i] {
            SpecVal::VNum(n) => if 0 <= n <= 255 {
                match s_time_args(args, i + 1) {
                    Some(rest) => Some(seq![n as u8] + rest),
                    None => None,
                }
            } else {
                None
            },
            _ => None,
        }
    }
}

pub open spec fn s_time_call(m: Moment, args: Seq<SpecVal>) -> Result<SpecVal, SAbort> {
    match s_time_args(args, 0) {
        Some(nums) => match s_time_range(m, nums) {
            Some(b) => Ok(SpecVal::VBool(b)),
            None => Err(SAbort::STypeErr),
        },
        None => Err(SAbort::STypeErr),
    }
}

/// One call of a PAC standard-library function.
pub open spec fn s_host_call(ctx: EvalContext, name: Seq<char>, args: Seq<SpecVal>) -> Result<
    SpecVal,
    SAbort,
> {
    if name == "isPlainHostName"@ {
        match arg_str(args, 0) {
            Some(h) => if args.len() == 1 {
                Ok(SpecVal::VBool(s_plain_host(h)))
            } else {
                Err(SAbort::STypeErr)
            },
            None => Err(SAbort::STypeErr),
        }
    } else if name == "dnsDomainIs"@ {
        match (arg_str(args, 0), arg_str(args, 1)) {
            (Some(h), Some(d)) => if args.len() == 2 {
                Ok(SpecVal::VBool(s_domain_suffix(h, d)))
            } else {
                Err(SAbort::STypeErr)
            },
            _ => Err(SAbort::STypeErr),
        }
    } else if name == "localHostOrDomainIs"@ {
        match (arg_str(args, 0), arg_str(args, 1)) {
            (Some(h), Some(d)) => if args.len() == 2 {
                Ok(SpecVal::VBool(s_local_host_or_domain(h, d)))
            } else {
                Err(SAbort::STypeErr)
            },
            _ => Err(SAbort::STypeErr),
        }
    } else if name == "dnsDomainLevels"@ {
        match arg_str(args, 0) {
            Some(h) => if args.len() == 1 {
                Ok(SpecVal::VNum(s_levels_num(s_dot_count(h))))
            } else {
                Err(SAbort::STypeErr)
            },
            None => Err(SAbort::STypeErr),
        }
    } else if name == "shExpMatch"@ {
        match (arg_str(args, 0), arg_str(args, 1)) {
            (Some(s), Some(p)) => if args.len() == 2 {
                Ok(SpecVal::VBool(s_glob_match(p, s)))
            } else {
                Err(SAbort::STypeErr)
            },
            _ => Err(SAbort::STypeErr),
        }
    } else if name == "isResolvable"@ {
        match arg_str(args, 0) {
            Some(h) => if args.len() == 1 {
                match s_resolve(ctx, h) {
                    Ok(o) => Ok(SpecVal::VBool(o is Some)),
                    Err(x) => Err(x),
                }
            } else {
                Err(SAbort::STypeErr)
            },
            None => Err(SAbort::STypeErr),
        }
    } else if name == "dnsResolve"@ {
        match arg_str(args, 0) {
            Some(h) => if args.len() == 1 {
                match s_resolve(ctx, h) {
                    Ok(Some(ip)) => Ok(SpecVal::VStr(s_ipv4_fmt(ip))),
                    Ok(None) => Ok(SpecVal::VNull),
                    Err(x) => Err(x),
                }
            } else {
                Err(SAbort::STypeErr)
            },
            None => Err(SAbort::STypeErr),
        }
    } else if name == "isInNet"@ {
        match (arg_str(args, 0), arg_str(args, 1), arg_str(args, 2)) {
            (Some(h), Some(pat), Some(mask)) => if args.len() == 3 {
                match s_resolve(ctx, h) {
                    Ok(Some(ip)) => match (s_ipv4_of(pat), s_ipv4_of(mask)) {
                        (Some(p), Some(m)) => Ok(SpecVal::VBool(s_in_net(ip, p, m))),
                        _ => Ok(SpecVal::VBool(false)),
                    },
                    Ok(None) => Ok(SpecVal::VBool(false)),
                    Err(x) => Err(x),
                }
            } else {
                Err(SAbort::STypeErr)
            },
            _ => Err(SAbort::STypeErr),
        }
    } else if name == "myIpAddress"@ {
        if args.len() == 0 {
            Ok(SpecVal::VStr(s_ipv4_fmt(ctx.my_ip)))
        } else {
            Err(SAbort::STypeErr)
        }
    } else if name == "weekdayRange"@ {
        s_weekday_call(
            if s_wants_gmt(args) {
                ctx.utc
            } else {
                ctx.local
            },
            s_clock_args(args),
        )
    } else if name == "dateRange"@ {
        s_date_call(
            if s_wants_gmt(args) {
                ctx.utc
            } else {
                ctx.local
            },
            s_clock_args(args),
        )
    } else if name == "timeRange"@ {
        s_time_call(
            if s_wants_gmt(args) {
                ctx.utc
            } else {
                ctx.local
            },
            s_clock_args(args),
        )
    } else {
        Err(SAbort::STypeErr)
    }
}

/// What running a statement list leaves behind: the environment to go on
/// with, a returned value, or an abort.
pub enum SFlow {
    SNext(EnvV),
    SRet(SpecVal),
    SStop(SAbort),
}

pub open spec fn s_eval_expr(
    prog: Program,
    ctx: EvalContext,
    env: EnvV,
    e: Expr,
    fuel: nat,
) -> Result<SpecVal, SAbort>
    decreases fuel,
{
    if fuel == 0 {
        Err(SAbort::SOutOfFuel)
    } else {
        let f = (fuel - 1) as nat;
        match e {
            Expr::StrLit(s) => Ok(SpecVal::VStr(s@)),
            Expr::NumLit(n) => Ok(SpecVal::VNum(n)),
            Expr::BoolLit(b) => Ok(SpecVal::VBool(b)),
            Expr::NullLit => Ok(SpecVal::VNull),
            Expr::Var(n) => match s_env_lookup(env, n@) {
                Some(v) => Ok(v),
                None => Err(SAbort::STypeErr),
            },
            Expr::Un(op, a) => match s_eval_expr(prog, ctx, env, *a, f) {
                Ok(v) => s_unop(op, v),
                Err(x) => Err(x),
            },
            Expr::Bin(op, a, b) => match s_eval_expr(prog, ctx, env, *a, f) {
                Err(x) => Err(x),
                Ok(va) => match op {
                    BinOp::Or => if s_truthy(va) {
                        Ok(va)
                    } else {
                        s_eval_expr(prog, ctx, env, *b, f)
                    },
                    BinOp::And => if !s_truthy(va) {
                        Ok(va)
                    } else {
                        s_eval_expr(prog, ctx, env, *b, f)
                    },
                    _ => match s_eval_expr(prog, ctx, env, *b, f) {
                        Err(x) => Err(x),
                        Ok(vb) => s_binop(op, va, vb),
                    },
                },
            },
            Expr::Call(name, argexprs) => match s_eval_args(prog, ctx, env, argexprs@, 0, f) {
                Err(x) => Err(x),
                Ok(vals) => match s_find_fun(prog.funs@, name@) {
                    Some(fd) => s_call_fun(prog, ctx, fd, vals, f),
                    None => s_host_call(ctx, name@, vals),
                },
            },
            Expr::Method(obj, mname, argexprs) => match s_eval_expr(prog, ctx, env, *obj, f) {
                Err(x) => Err(x),
                Ok(ov) => match s_eval_args(prog, ctx, env, argexprs@, 0, f) {
                    Err(x) => Err(x),
                    Ok(vals) => s_method(ov, mname@, vals),
                },
            },
            Expr::Cond(c, a, b) => match s_eval_expr(prog, ctx, env, *c, f) {
                Err(x) => Err(x),
                Ok(v) => if s_truthy(v) {
                    s_eval_expr(prog, ctx, env, *a, f)
                } else {
                    s_eval_expr(prog, ctx, env, *b, f)
                },
            },
        }
    }
}

pub open spec fn s_eval_args(
    prog: Program,
    ctx: EvalContext,
    env: EnvV,
    es: Seq<Expr>,
    i: int,
    fuel: nat,
) -> Result<Seq<SpecVal>, SAbort>
    decreases fuel,
{
    if fuel == 0 {
        Err(SAbort::SOutOfFuel)
    } else if i < 0 || i >= es.len() {
        Ok(seq![])
    } else {
        let f = (fuel - 1) as nat;
        match s_eval_expr(prog, ctx, env, es[i], f) {
            Err(x) => Err(x),
            Ok(v) => match s_eval_args(prog, ctx, env, es, i + 1, f) {
                Err(x) => Err(x),
                Ok(rest) => Ok(seq![v] + rest),
            },
        }
    }
}

pub open spec fn s_call_fun(
    prog: Program,
    ctx: EvalContext,
    fd: FunDecl,
    args: Seq<SpecVal>,
    fuel: nat,
) -> Result<SpecVal, SAbort>
    decreases fuel,
{
    if fuel == 0 {
        Err(SAbort::SOutOfFuel)
    } else {
        match s_exec_stmts(prog, ctx, fd.body@, 0, s_bind(fd.params@, args, 0), (fuel - 1) as nat) {
            SFlow::SNext(_) => Ok(SpecVal::VUndef),
            SFlow::SRet(v) => Ok(v),
            SFlow::SStop(x) => Err(x),
        }
    }
}

pub open spec fn s_exec_stmts(
    prog: Program,
    ctx: EvalContext,
    stmts: Seq<Stmt>,
    i: int,
    env: EnvV,
    fuel: nat,
) -> SFlow
    decreases fuel,
{
    if fuel == 0 {
        SFlow::SStop(SAbort::SOutOfFuel)
    } else if i < 0 || i >= stmts.len() {
        SFlow::SNext(env)
    } else {
        let f = (fuel - 1) as nat;
        match s_exec_stmt(prog, ctx, stmts[i], env, f) {
            SFlow::SNext(env2) => s_exec_stmts(prog, ctx, stmts, i + 1, env2, f),
            SFlow::SRet(v) => SFlow::SRet(v),
            SFlow::SStop(x) => SFlow::SStop(x),
        }
    }
}

pub open spec fn s_exec_stmt(
    prog: Program,
    ctx: EvalContext,
    st: Stmt,
    env: EnvV,
    fuel: nat,
) -> SFlow
    decreases fuel,
{
    if fuel == 0 {
        SFlow::SStop(SAbort::SOutOfFuel)
    } else {
        let f = (fuel - 1) as nat;
        match st {
            Stmt::VarDecl(n, e) => match s_eval_expr(prog, ctx, env, e, f) {
                Ok(v) => SFlow::SNext(env.push((n@, v))),
                Err(x) => SFlow::SStop(x),
            },
            Stmt::Assign(n, e) => match s_eval_expr(prog, ctx, env, e, f) {
                Ok(v) => SFlow::SNext(env.push((n@, v))),
                Err(x) => SFlow::SStop(x),
            },
            Stmt::If(c, thn, els) => match s_eval_expr(prog, ctx, env, c, f) {
                Err(x) => SFlow::SStop(x),
                Ok(v) => if s_truthy(v) {
                    s_exec_stmts(prog, ctx, thn@, 0, env, f)
                } else {
                    s_exec_stmts(prog, ctx, els@, 0, env, f)
                },
            },
            Stmt::While(c, body) => match s_eval_expr(prog, ctx, env, c, f) {
                Err(x) => SFlow::SStop(x),
                Ok(v) => if !s_truthy(v) {
                    SFlow::SNext(env)
                } else {
                    match s_exec_stmts(prog, ctx, body@, 0, env, f) {
                        SFlow::SNext(env2) => s_exec_stmt(prog, ctx, st, env2, f),
                        SFlow::SRet(rv) => SFlow::SRet(rv),
                        SFlow::SStop(x) => SFlow::SStop(x),
                    }
                },
            },
            Stmt::Return(oe) => match oe {
                Some(e) => match s_eval_expr(prog, ctx, env, e, f) {
                    Ok(v) => SFlow::SRet(v),
                    Err(x) => SFlow::SStop(x),
                },
                None => SFlow::SRet(SpecVal::VUndef),
            },
            Stmt::ExprStmt(e) => match s_eval_expr(prog, ctx, env, e, f) {
                Ok(_) => SFlow::SNext(env),
                Err(x) => SFlow::SStop(x),
            },
        }
    }
}

fn env_lookup(env: &Vec<(Vec<char>, Value)>, n: &Vec<char>) -> (r: Option<Value>)
    ensures
        match r {
            Some(v) => s_env_lookup(env_view(env@), n@) == Some(v@),
            None => s_env_lookup(env_view(env@), n@) is None,
        },
{
    let ghost ev = env_view(env@);
    let mut i: usize = env.len();
    proof {
        assert(ev.take(i as int) =~= ev);
    }
    while i > 0
        invariant
            i <= env@.len(),
            ev == env_view(env@),
            s_env_lookup(ev, n@) == s_env_lookup(ev.take(i as int), n@),
        decreases i,
    {
        proof {
            assert(ev.take(i as int).last() == ev[i - 1]);
            assert(ev[i - 1] == (env@[i - 1].0@, env@[i - 1].1@));
            assert(ev.take(i as int).drop_last() =~= ev.take(i - 1));
        }
        if chars_eq(&env[i - 1].0, n) {
            return Some(value_clone(&env[i - 1].1));
        }
        i = i - 1;
    }
    proof {
        assert(ev.take(0) =~= Seq::<(Seq<char>, SpecVal)>::empty());
    }
    None
}

fn bind(params: &Vec<Vec<char>>, args: &Vec<Value>) -> (r: Vec<(Vec<char>, Value)>)
    ensures
        env_view(r@) == s_bind(params@, vals_view(args@), 0),
{
    let ghost vs = vals_view(args@);
    let mut out: Vec<(Vec<char>, Value)> = Vec::new();
    let mut i: usize = 0;
    proof {
        assert(env_view(out@) + s_bind(params@, vs, 0) =~= s_bind(params@, vs, 0));
    }
    while i < params.len()
        invariant
            i <= params@.len(),
            vs == vals_view(args@),
            s_bind(params@, vs, 0) == env_view(out@) + s_bind(params@, vs, i as int),
        decreases params@.len() - i,
    {
        let ghost out0 = out@;
        let v = if i < args.len() {
            proof {
                assert(vs[i as int] == args@[i as int]@);
            }
            value_clone(&args[i])
        } else {
            Value::Undef
        };
        out.push((copy_range(&params[i], 0, params[i].len()), v));
        proof {
            assert(out@.last().0@ =~= params@[i as int]@);
            assert(env_view(out@) =~= env_view(out0).push((params@[i as int]@, v@)));
            assert(env_view(out@) + s_bind(params@, vs, i + 1) =~= s_bind(params@, vs, 0));
        }
        i = i + 1;
    }
    proof {
        assert(s_bind(params@, vs, params@.len() as int) =~= Seq::<(Seq<char>, SpecVal)>::empty());
        assert(env_view(out@) =~= s_bind(params@, vs, 0));
    }
    out
}

fn find_fun<'a>(prog: &'a Program, n: &Vec<char>) -> (r: Option<&'a FunDecl>)
    ensures
        match r {
            Some(f) => s_find_fun(prog.funs@, n@) == Some(*f),
            None => s_find_fun(prog.funs@, n@) is None,
        },
{
    let mut i: usize = 0;
    proof {
        assert(prog.funs@.skip(0) =~= prog.funs@);
    }
    while i < prog.funs.len()
        invariant
            i <= prog.funs@.len(),
            s_find_fun(prog.funs@, n@) == s_find_fun(prog.funs@.skip(i as int), n@),
        decreases prog.funs@.len() - i,
    {
        proof {
            assert(prog.funs@.skip(i as int)[0] == prog.funs@[i as int]);
            assert(prog.funs@.skip(i as int).skip(1) =~= prog.funs@.skip(i + 1));
        }
        if chars_eq(&prog.funs[i].name, n) {
            return Some(&prog.funs[i]);
        }
        i = i + 1;
    }
    None
}

fn resolve_x(ctx: &EvalContext, h: &Vec<char>) -> (r: Result<Option<u32>, Abort>)
    ensures
        match r {
            Ok(o) => s_resolve(*ctx, h@) == Ok::<Option<u32>, SAbort>(o),
            Err(x) => s_resolve(*ctx, h@) == Err::<Option<u32>, SAbort>(x@),
        },
{
    match ctx.dns.resolve_first(h, ctx.now) {
        LookupOut::Addr(a) => Ok(Some(a)),
        LookupOut::Failed => Ok(None),
        LookupOut::Unknown => if ctx.unknown_is_failure {
            Ok(None)
        } else {
            Err(Abort::NeedDns(lower_vec(h)))
        },
    }
}

fn get_str<'a>(args: &'a Vec<Value>, i: usize) -> (r: Option<&'a Vec<char>>)
    ensures
        match r {
            Some(s) => arg_str(vals_view(args@), i as int) == Some(s@),
            None => arg_str(vals_view(args@), i as int) is None,
        },
{
    if i < args.len() {
        proof {
            assert(vals_view(args@)[i as int] == args@[i as int]@);
        }
        match &args[i] {
            Value::Str(s) => Some(s),
            _ => None,
        }
    } else {
        None
    }
}

/// The decimal text of a signed number.
fn fmt_i64(n: i64) -> (r: Vec<char>)
    ensures
        r@ == s_num_str(n),
{
    if n >= 0 {
        fmt_u64(n as u64)
    } else {
        let m: u64 = ((-(n + 1)) as u64) + 1;
        let mut out: Vec<char> = Vec::new();
        out.push('-');
        let digits = fmt_u64(m);
        crate::text::append_chars(&mut out, &digits);
        proof {
            assert(m as int == -(n as int));
            assert(out@ =~= seq!['-'] + dec_fmt(-(n as int)));
        }
        out
    }
}

/// Magnitude of a signed number, without overflow on the smallest value.
fn abs_u64(x: i64) -> (r: u64)
    ensures
        r as int == s_abs(x as int),
{
    if x >= 0 {
        x as u64
    } else {
        ((-(x + 1)) as u64) + 1
    }
}

fn unop_x(op: UnOp, v: Value) -> (r: Result<Value, Abort>)
    ensures
        out_view(r) == s_unop(op, v@),
{
    match op {
        UnOp::Not => Ok(Value::Bool(!truthy(&v))),
        UnOp::Neg => match v {
            Value::Num(n) => if n == i64::MIN {
                Err(Abort::TypeErr)
            } else {
                Ok(Value::Num(-n))
            },
            _ => Err(Abort::TypeErr),
        },
    }
}

fn binop_x(op: BinOp, a: Value, b: Value) -> (r: Result<Value, Abort>)
    ensures
        out_view(r) == s_binop(op, a@, b@),
{
    match op {
        BinOp::EqEq => Ok(Value::Bool(value_equals(&a, &b))),
        BinOp::NotEq => Ok(Value::Bool(!value_equals(&a, &b))),
        BinOp::Lt => match (a, b) {
            (Value::Num(x), Value::Num(y)) => Ok(Value::Bool(x < y)),
            _ => Err(Abort::TypeErr),
        },
        BinOp::Le => match (a, b) {
            (Value::Num(x), Value::Num(y)) => Ok(Value::Bool(x <= y)),
            _ => Err(Abort::TypeErr),
        },
        BinOp::Gt => match (a, b) {
            (Value::Num(x), Value::Num(y)) => Ok(Value::Bool(x > y)),
            _ => Err(Abort::TypeErr),
        },
        BinOp::Ge => match (a, b) {
            (Value::Num(x), Value::Num(y)) => Ok(Value::Bool(x >= y)),
            _ => Err(Abort::TypeErr),
        },
        BinOp::Add => match (a, b) {
            (Value::Str(x), Value::Str(y)) => {
                let mut out = x;
                crate::text::append_chars(&mut out, &y);
                Ok(Value::Str(out))
            },
            (Value::Str(x), Value::Num(y)) => {
                let mut out = x;
                let t = fmt_i64(y);
                crate::text::append_chars(&mut out, &t);
                Ok(Value::Str(out))
            },
            (Value::Num(x), Value::Str(y)) => {
                let mut out = fmt_i64(x);
                crate::text::append_chars(&mut out, &y);
                Ok(Value::Str(out))
            },
            (Value::Num(x), Value::Num(y)) => {
                let s: i128 = (x as i128) + (y as i128);
                if s < (i64::MIN as i128) || s > (i64::MAX as i128) {
                    Err(Abort::TypeErr)
                } else {
                    Ok(Value::Num(s as i64))
                }
            },
            _ => Err(Abort::TypeErr),
        },
        BinOp::Sub => match (a, b) {
            (Value::Num(x), Value::Num(y)) => {
                let s: i128 = (x as i128) - (y as i128);
                if s < (i64::MIN as i128) || s > (i64::MAX as i128) {
                    Err(Abort::TypeErr)
                } else {
                    Ok(Value::Num(s as i64))
                }
            },
            _ => Err(Abort::TypeErr),
        },
        BinOp::Mul => match (a, b) {
            (Value::Num(x), Value::Num(y)) => {
                proof {
                    assert((x as int) * (y as int) <= 0x4000_0000_0000_0000_0000_0000_0000_0000
                        && (x as int) * (y as int) >= -0x4000_0000_0000_0000_0000_0000_0000_0000)
                        by (nonlinear_arith)
                        requires
                            -0x8000_0000_0000_0000 <= x as int <= 0x7fff_ffff_ffff_ffff,
                            -0x8000_0000_0000_0000 <= y as int <= 0x7fff_ffff_ffff_ffff,
                    ;
                }
                let s: i128 = (x as i128) * (y as i128);
                if s < (i64::MIN as i128) || s > (i64::MAX as i128) {
                    Err(Abort::TypeErr)
                } else {
                    Ok(Value::Num(s as i64))
                }
            },
            _ => Err(Abort::TypeErr),
        },
        BinOp::Div => match (a, b) {
            (Value::Num(x), Value::Num(y)) => {
                if y == 0 {
                    return Err(Abort::TypeErr);
                }
                let xm = abs_u64(x);
                let ym = abs_u64(y);
                let q = xm / ym;
                if (x >= 0) == (y >= 0) {
                    if q > 0x7fff_ffff_ffff_ffff {
                        Err(Abort::TypeErr)
                    } else {
                        Ok(Value::Num(q as i64))
                    }
                } else {
                    if q > 0x8000_0000_0000_0000 {
                        Err(Abort::TypeErr)
                    } else if q == 0 {
                        Ok(Value::Num(0))
                    } else {
                        Ok(Value::Num(-((q - 1) as i64) - 1))
                    }
                }
            },
            _ => Err(Abort::TypeErr),
        },
        BinOp::Mod => match (a, b) {
            (Value::Num(x), Value::Num(y)) => {
                if y == 0 {
                    return Err(Abort::TypeErr);
                }
                let xm = abs_u64(x);
                let ym = abs_u64(y);
                let rm = xm % ym;
                if x >= 0 {
                    Ok(Value::Num(rm as i64))
                } else if rm == 0 {
                    Ok(Value::Num(0))
                } else {
                    Ok(Value::Num(-((rm - 1) as i64) - 1))
                }
            },
            _ => Err(Abort::TypeErr),
        },
        _ => Err(Abort::TypeErr),
    }
}

fn substring_x(s: &Vec<char>, a: i64, b: i64) -> (r: Vec<char>)
    ensures
        r@ == s_substring(s@, a, b),
{
    let n = s.len();
    let x: usize = if a <= 0 {
        0
    } else if a as u64 >= n as u64 {
        n
    } else {
        a as usize
    };
    let y: usize = if b <= 0 {
        0
    } else if b as u64 >= n as u64 {
        n
    } else {
        b as usize
    };
    if x <= y {
        copy_range(s, x, y)
    } else {
        copy_range(s, y, x)
    }
}

fn method_x(ov: Value, name: &Vec<char>, args: &Vec<Value>) -> (r: Result<Value, Abort>)
    ensures
        out_view(r) == s_method(ov@, name@, vals_view(args@)),
{
    match ov {
        Value::Str(s) => {
            if chars_eq(name, &str_to_chars("toLowerCase")) && args.len() == 0 {
                return Ok(Value::Str(lower_vec(&s)));
            }
            if chars_eq(name, &str_to_chars("substring")) && args.len() == 2 {
                proof {
                    assert(vals_view(args@)[0] == args@[0]@);
                    assert(vals_view(args@)[1] == args@[1]@);
                }
                let a = match &args[0] {
                    Value::Num(a) => *a,
                    _ => {
                        return Err(Abort::TypeErr);
                    },
                };
                let b = match &args[1] {
                    Value::Num(b) => *b,
                    _ => {
                        return Err(Abort::TypeErr);
                    },
                };
                return Ok(Value::Str(substring_x(&s, a, b)));
            }
            Err(Abort::TypeErr)
        },
        _ => Err(Abort::TypeErr),
    }
}

fn wants_gmt(args: &Vec<Value>) -> (r: bool)
    ensures
        r == s_wants_gmt(vals_view(args@)),
{
    if args.len() == 0 {
        return false;
    }
    proof {
        assert(vals_view(args@).last() == args@[args@.len() - 1]@);
    }
    match &args[args.len() - 1] {
        Value::Str(s) => is_gmt_flag(s),
        _ => false,
    }
}

fn clock_args(args: &Vec<Value>) -> (r: Vec<Value>)
    ensures
        vals_view(r@) == s_clock_args(vals_view(args@)),
{
    let upto: usize = if wants_gmt(args) {
        args.len() - 1
    } else {
        args.len()
    };
    let mut out: Vec<Value> = Vec::new();
    let mut i: usize = 0;
    while i < upto
        invariant
            i <= upto <= args@.len(),
            vals_view(out@) == vals_view(args@).take(i as int),
        decreases upto - i,
    {
        let ghost out0 = out@;
        out.push(value_clone(&args[i]));
        i = i + 1;
        proof {
            assert(vals_view(out@) =~= vals_view(out0).push(args@[i - 1]@));
            assert(vals_view(args@).take(i as int) =~= vals_view(args@).take(i - 1).push(
                vals_view(args@)[i - 1],
            ));
            assert(vals_view(args@)[i - 1] == args@[i - 1]@);
        }
    }
    proof {
        if s_wants_gmt(vals_view(args@)) {
            assert(vals_view(args@).take(upto as int) =~= vals_view(args@).drop_last());
        } else {
            assert(vals_view(args@).take(upto as int) =~= vals_view(args@));
        }
    }
    out
}

fn weekday_call_x(m: &Moment, args: &Vec<Value>) -> (r: Result<Value, Abort>)
    ensures
        out_view(r) == s_weekday_call(*m, vals_view(args@)),
{
    if args.len() == 1 {
        match get_str(args, 0) {
            Some(w) => match weekday_num(w) {
                Some(w1) => Ok(Value::Bool(weekday_range(m, w1, None))),
                None => Err(Abort::TypeErr),
            },
            None => Err(Abort::TypeErr),
        }
    } else if args.len() == 2 {
        let wa = match get_str(args, 0) {
            Some(w) => w,
            None => {
                return Err(Abort::TypeErr);
            },
        };
        let wb = match get_str(args, 1) {
            Some(w) => w,
            None => {
                return Err(Abort::TypeErr);
            },
        };
        match (weekday_num(wa), weekday_num(wb)) {
            (Some(w1), Some(w2)) => Ok(Value::Bool(weekday_range(m, w1, Some(w2)))),
            _ => Err(Abort::TypeErr),
        }
    } else {
        Err(Abort::TypeErr)
    }
}

fn date_bound_x(v: &Value) -> (r: Option<(DateField, u16)>)
    ensures
        r == s_date_bound(v@),
{
    match v {
        Value::Num(n) => {
            let n = *n;
            if 1 <= n && n <= 31 {
                Some((DateField::Day, n as u16))
            } else if 32 <= n && n <= 65535 {
                Some((DateField::Year, n as u16))
            } else {
                None
            }
        },
        Value::Str(s) => match month_num(s) {
            Some(mo) => Some((DateField::Month, mo as u16)),
            None => None,
        },
        _ => None,
    }
}

fn date_call_x(m: &Moment, args: &Vec<Value>) -> (r: Result<Value, Abort>)
    ensures
        out_view(r) == s_date_call(*m, vals_view(args@)),
{
    proof {
        assert(forall|k: int|
            0 <= k < args@.len() ==> #[trigger] vals_view(args@)[k] == args@[k]@);
    }
    if args.len() == 1 {
        match date_bound_x(&args[0]) {
            Some(b) => Ok(Value::Bool(date_range(m, b.0, b.1, None))),
            None => Err(Abort::TypeErr),
        }
    } else if args.len() == 2 {
        match (date_bound_x(&args[0]), date_bound_x(&args[1])) {
            (Some(lo), Some(hi)) => if lo.0 == hi.0 {
                Ok(Value::Bool(date_range(m, lo.0, lo.1, Some(hi.1))))
            } else if matches!(lo.0, DateField::Day) && matches!(hi.0, DateField::Month) {
                Ok(Value::Bool(m.day as u16 == lo.1 && m.month as u16 == hi.1))
            } else if matches!(lo.0, DateField::Month) && matches!(hi.0, DateField::Year) {
                Ok(Value::Bool(m.month as u16 == lo.1 && m.year == hi.1))
            } else {
                Err(Abort::TypeErr)
            },
            _ => Err(Abort::TypeErr),
        }
    } else if args.len() == 3 {
        match (date_bound_x(&args[0]), date_bound_x(&args[1]), date_bound_x(&args[2])) {
            (Some(d), Some(mo), Some(y)) => if matches!(d.0, DateField::Day) && matches!(
                mo.0,
                DateField::Month,
            ) && matches!(y.0, DateField::Year) {
                Ok(
                    Value::Bool(
                        m.day as u16 == d.1 && m.month as u16 == mo.1 && m.year == y.1,
                    ),
                )
            } else {
                Err(Abort::TypeErr)
            },
            _ => Err(Abort::TypeErr),
        }
    } else if args.len() == 4 {
        match (
            date_bound_x(&args[0]),
            date_bound_x(&args[1]),
            date_bound_x(&args[2]),
            date_bound_x(&args[3]),
        ) {
            (Some(a), Some(b), Some(c), Some(d)) => if matches!(a.0, DateField::Day) && matches!(
                b.0,
                DateField::Month,
            ) && matches!(c.0, DateField::Day) && matches!(d.0, DateField::Month) {
                Ok(
                    Value::Bool(
                        wrap_in(
                            md_key_x(m.month as u16, m.day as u16),
                            md_key_x(b.1, a.1),
                            md_key_x(d.1, c.1),
                        ),
                    ),
                )
            } else if matches!(a.0, DateField::Month) && matches!(b.0, DateField::Year)
                && matches!(c.0, DateField::Month) && matches!(d.0, DateField::Year) {
                let k = ym_key_x(m.year, m.month as u16);
                Ok(Value::Bool(ym_key_x(b.1, a.1) <= k && k <= ym_key_x(d.1, c.1)))
            } else {
                Err(Abort::TypeErr)
            },
            _ => Err(Abort::TypeErr),
        }
    } else if args.len() == 6 {
        match (
            date_bound_x(&args[0]),
            date_bound_x(&args[1]),
            date_bound_x(&args[2]),
            date_bound_x(&args[3]),
            date_bound_x(&args[4]),
            date_bound_x(&args[5]),
        ) {
            (Some(d1), Some(m1), Some(y1), Some(d2), Some(m2), Some(y2)) => if matches!(
                d1.0,
                DateField::Day,
            ) && matches!(m1.0, DateField::Month) && matches!(y1.0, DateField::Year) && matches!(
                d2.0,
                DateField::Day,
            ) && matches!(m2.0, DateField::Month) && matches!(y2.0, DateField::Year) {
                let k = ymd_key_x(m.year, m.month as u16, m.day as u16);
                Ok(
                    Value::Bool(
                        ymd_key_x(y1.1, m1.1, d1.1) <= k && k <= ymd_key_x(y2.1, m2.1, d2.1),
                    ),
                )
            } else {
                Err(Abort::TypeErr)
            },
            _ => Err(Abort::TypeErr),
        }
    } else {
        Err(Abort::TypeErr)
    }
}

fn time_args_x(args: &Vec<Value>, i: usize) -> (r: Option<Vec<u8>>)
    requires
        i <= args@.len(),
    ensures
        match r {
            Some(v) => s_time_args(vals_view(args@), i as int) == Some(v@),
            None => s_time_args(vals_view(args@), i as int) is None,
        },
    decreases args@.len() - i,
{
    if i == args.len() {
        let v: Vec<u8> = Vec::new();
        proof {
            assert(v@ =~= Seq::<u8>::empty());
        }
        return Some(v);
    }
    proof {
        assert(vals_view(args@)[i as int] == args@[i as int]@);
    }
    let n = match &args[i] {
        Value::Num(n) => *n,
        _ => {
            return None;
        },
    };
    if !(0 <= n && n <= 255) {
        return None;
    }
    match time_args_x(args, i + 1) {
        Some(rest) => {
            let mut out: Vec<u8> = Vec::new();
            out.push(n as u8);
            crate::text::append_bytes(&mut out, &rest);
            proof {
                assert(out@ =~= seq![n as u8] + rest@);
            }
            Some(out)
        },
        None => None,
    }
}

fn time_call_x(m: &Moment, args: &Vec<Value>) -> (r: Result<Value, Abort>)
    ensures
        out_view(r) == s_time_call(*m, vals_view(args@)),
{
    match time_args_x(args, 0) {
        Some(nums) => match time_range(m, &nums) {
            Some(b) => Ok(Value::Bool(b)),
            None => Err(Abort::TypeErr),
        },
        None => Err(Abort::TypeErr),
    }
}

/// One call of a PAC standard-library function.
fn host_call(ctx: &EvalContext, name: &Vec<char>, args: &Vec<Value>) -> (r: Result<Value, Abort>)
    ensures
        out_view(r) == s_host_call(*ctx, name@, vals_view(args@)),
{
    if chars_eq(name, &str_to_chars("isPlainHostName")) {
        match get_str(args, 0) {
            Some(h) => if args.len() == 1 {
                Ok(Value::Bool(is_plain_host_name(h)))
            } else {
                Err(Abort::TypeErr)
            },
            None => Err(Abort::TypeErr),
        }
    } else if chars_eq(name, &str_to_chars("dnsDomainIs")) {
        match (get_str(args, 0), get_str(args, 1)) {
            (Some(h), Some(d)) => if args.len() == 2 {
                Ok(Value::Bool(dns_domain_is(h, d)))
            } else {
                Err(Abort::TypeErr)
            },
            _ => Err(Abort::TypeErr),
        }
    } else if chars_eq(name, &str_to_chars("localHostOrDomainIs")) {
        match (get_str(args, 0), get_str(args, 1)) {
            (Some(h), Some(d)) => if args.len() == 2 {
                Ok(Value::Bool(local_host_or_domain_is(h, d)))
            } else {
                Err(Abort::TypeErr)
            },
            _ => Err(Abort::TypeErr),
        }
    } else if chars_eq(name, &str_to_chars("dnsDomainLevels")) {
        match get_str(args, 0) {
            Some(h) => if args.len() == 1 {
                let c = dns_domain_levels(h);
                let v: i64 = if (c as u64) > (i64::MAX as u64) {
                    i64::MAX
                } else {
                    c as i64
                };
                Ok(Value::Num(v))
            } else {
                Err(Abort::TypeErr)
            },
            None => Err(Abort::TypeErr),
        }
    } else if chars_eq(name, &str_to_chars("shExpMatch")) {
        match (get_str(args, 0), get_str(args, 1)) {
            (Some(s), Some(p)) => if args.len() == 2 {
                Ok(Value::Bool(sh_exp_match(s, p)))
            } else {
                Err(Abort::TypeErr)
            },
            _ => Err(Abort::TypeErr),
        }
    } else if chars_eq(name, &str_to_chars("isResolvable")) {
        match get_str(args, 0) {
            Some(h) => if args.len() == 1 {
                match resolve_x(ctx, h) {
                    Ok(o) => Ok(Value::Bool(o.is_some())),
                    Err(x) => Err(x),
                }
            } else {
                Err(Abort::TypeErr)
            },
            None => Err(Abort::TypeErr),
        }
    } else if chars_eq(name, &str_to_chars("dnsResolve")) {
        match get_str(args, 0) {
            Some(h) => if args.len() == 1 {
                match resolve_x(ctx, h) {
                    Ok(Some(ip)) => Ok(Value::Str(ipv4_fmt(ip))),
                    Ok(None) => Ok(Value::Null),
                    Err(x) => Err(x),
                }
            } else {
                Err(Abort::TypeErr)
            },
            None => Err(Abort::TypeErr),
        }
    } else if chars_eq(name, &str_to_chars("isInNet")) {
        match (get_str(args, 0), get_str(args, 1), get_str(args, 2)) {
            (Some(h), Some(pat), Some(mask)) => if args.len() == 3 {
                match resolve_x(ctx, h) {
                    Ok(Some(ip)) => match (parse_ipv4(pat), parse_ipv4(mask)) {
                        (Some(p), Some(m)) => Ok(Value::Bool(in_net(ip, p, m))),
                        _ => Ok(Value::Bool(false)),
                    },
                    Ok(None) => Ok(Value::Bool(false)),
                    Err(x) => Err(x),
                }
            } else {
                Err(Abort::TypeErr)
            },
            _ => Err(Abort::TypeErr),
        }
    } else if chars_eq(name, &str_to_chars("myIpAddress")) {
        if args.len() == 0 {
            Ok(Value::Str(ipv4_fmt(ctx.my_ip)))
        } else {
            Err(Abort::TypeErr)
        }
    } else if chars_eq(name, &str_to_chars("weekdayRange")) {
        let m = if wants_gmt(args) {
            ctx.utc
        } else {
            ctx.local
        };
        let cargs = clock_args(args);
        weekday_call_x(&m, &cargs)
    } else if chars_eq(name, &str_to_chars("dateRange")) {
        let m = if wants_gmt(args) {
            ctx.utc
        } else {
            ctx.local
        };
        let cargs = clock_args(args);
        date_call_x(&m, &cargs)
    } else if chars_eq(name, &str_to_chars("timeRange")) {
        let m = if wants_gmt(args) {
            ctx.utc
        } else {
            ctx.local
        };
        let cargs = clock_args(args);
        time_call_x(&m, &cargs)
    } else {
        Err(Abort::TypeErr)
    }
}

/// The runtime counterpart of `SFlow`.
pub enum Flow {
    Next(Vec<(Vec<char>, Value)>),
    Ret(Value),
    Stop(Abort),
}

pub open spec fn flow_view(f: Flow) -> SFlow {
    match f {
        Flow::Next(env) => SFlow::SNext(env_view(env@)),
        Flow::Ret(v) => SFlow::SRet(v@),
        Flow::Stop(x) => SFlow::SStop(x@),
    }
}

fn eval_expr(
    prog: &Program,
    ctx: &EvalContext,
    env: &Vec<(Vec<char>, Value)>,
    e: &Expr,
    fuel: u64,
) -> (r: Result<Value, Abort>)
    ensures
        out_view(r) == s_eval_expr(*prog, *ctx, env_view(env@), *e, fuel as nat),
    decreases fuel,
{
    if fuel == 0 {
        return Err(Abort::OutOfFuel);
    }
    let f = fuel - 1;
    match e {
        Expr::StrLit(s) => {
            let c = copy_range(s, 0, s.len());
            proof {
                assert(c@ =~= s@);
            }
            Ok(Value::Str(c))
        },
        Expr::NumLit(n) => Ok(Value::Num(*n)),
        Expr::BoolLit(b) => Ok(Value::Bool(*b)),
        Expr::NullLit => Ok(Value::Null),
        Expr::Var(n) => match env_lookup(env, n) {
            Some(v) => Ok(v),
            None => Err(Abort::TypeErr),
        },
        Expr::Un(op, a) => match eval_expr(prog, ctx, env, a, f) {
            Ok(v) => unop_x(*op, v),
            Err(x) => Err(x),
        },
        Expr::Bin(op, a, b) => match eval_expr(prog, ctx, env, a, f) {
            Err(x) => Err(x),
            Ok(va) => match op {
                BinOp::Or => if truthy(&va) {
                    Ok(va)
                } else {
                    eval_expr(prog, ctx, env, b, f)
                },
                BinOp::And => if !truthy(&va) {
                    Ok(va)
                } else {
                    eval_expr(prog, ctx, env, b, f)
                },
                _ => match eval_expr(prog, ctx, env, b, f) {
                    Err(x) => Err(x),
                    Ok(vb) => binop_x(*op, va, vb),
                },
            },
        },
        Expr::Call(name, argexprs) => match eval_args(prog, ctx, env, argexprs, 0, f) {
            Err(x) => Err(x),
            Ok(vals) => match find_fun(prog, name) {
                Some(fd) => call_fun(prog, ctx, fd, &vals, f),
                None => host_call(ctx, name, &vals),
            },
        },
        Expr::Method(obj, mname, argexprs) => match eval_expr(prog, ctx, env, obj, f) {
            Err(x) => Err(x),
            Ok(ov) => match eval_args(prog, ctx, env, argexprs, 0, f) {
                Err(x) => Err(x),
                Ok(vals) => method_x(ov, mname, &vals),
            },
        },
        Expr::Cond(c, a, b) => match eval_expr(prog, ctx, env, c, f) {
            Err(x) => Err(x),
            Ok(v) => if truthy(&v) {
                eval_expr(prog, ctx, env, a, f)
            } else {
                eval_expr(prog, ctx, env, b, f)
            },
        },
    }
}

fn eval_args(
    prog: &Program,
    ctx: &EvalContext,
    env: &Vec<(Vec<char>, Value)>,
    es: &Vec<Expr>,
    i: usize,
    fuel: u64,
) -> (r: Result<Vec<Value>, Abort>)
    requires
        i <= es@.len(),
    ensures
        match r {
            Ok(vals) => s_eval_args(*prog, *ctx, env_view(env@), es@, i as int, fuel as nat)
                == Ok::<Seq<SpecVal>, SAbort>(vals_view(vals@)),
            Err(x) => s_eval_args(*prog, *ctx, env_view(env@), es@, i as int, fuel as nat)
                == Err::<Seq<SpecVal>, SAbort>(x@),
        },
    decreases fuel,
{
    if fuel == 0 {
        return Err(Abort::OutOfFuel);
    }
    if i == es.len() {
        let vals: Vec<Value> = Vec::new();
        proof {
            assert(vals_view(vals@) =~= Seq::<SpecVal>::empty());
        }
        return Ok(vals);
    }
    let f = fuel - 1;
    match eval_expr(prog, ctx, env, &es[i], f) {
        Err(x) => Err(x),
        Ok(v) => match eval_args(prog, ctx, env, es, i + 1, f) {
            Err(x) => Err(x),
            Ok(mut rest) => {
                let ghost rest0 = rest@;
                let ghost vv = v@;
                rest.insert(0, v);
                proof {
                    assert(vals_view(rest@) =~= seq![vv] + vals_view(rest0));
                }
                Ok(rest)
            },
        },
    }
}

fn call_fun(
    prog: &Program,
    ctx: &EvalContext,
    fd: &FunDecl,
    args: &Vec<Value>,
    fuel: u64,
) -> (r: Result<Value, Abort>)
    ensures
        out_view(r) == s_call_fun(*prog, *ctx, *fd, vals_view(args@), fuel as nat),
    decreases fuel,
{
    if fuel == 0 {
        return Err(Abort::OutOfFuel);
    }
    let env0 = bind(&fd.params, args);
    match exec_stmts(prog, ctx, &fd.body, 0, env0, fuel - 1) {
        Flow::Next(_) => Ok(Value::Undef),
        Flow::Ret(v) => Ok(v),
        Flow::Stop(x) => Err(x),
    }
}

fn exec_stmts(
    prog: &Program,
    ctx: &EvalContext,
    stmts: &Vec<Stmt>,
    i: usize,
    env: Vec<(Vec<char>, Value)>,
    fuel: u64,
) -> (r: Flow)
    requires
        i <= stmts@.len(),
    ensures
        flow_view(r) == s_exec_stmts(*prog, *ctx, stmts@, i as int, env_view(env@), fuel as nat),
    decreases fuel,
{
    if fuel == 0 {
        return Flow::Stop(Abort::OutOfFuel);
    }
    if i == stmts.len() {
        return Flow::Next(env);
    }
    let f = fuel - 1;
    match exec_stmt(prog, ctx, &stmts[i], env, f) {
        Flow::Next(env2) => exec_stmts(prog, ctx, stmts, i + 1, env2, f),
        Flow::Ret(v) => Flow::Ret(v),
        Flow::Stop(x) => Flow::Stop(x),
    }
}

fn exec_stmt(
    prog: &Program,
    ctx: &EvalContext,
    st: &Stmt,
    env: Vec<(Vec<char>, Value)>,
    fuel: u64,
) -> (r: Flow)
    ensures
        flow_view(r) == s_exec_stmt(*prog, *ctx, *st, env_view(env@), fuel as nat),
    decreases fuel,
{
    if fuel == 0 {
        return Flow::Stop(Abort::OutOfFuel);
    }
    let f = fuel - 1;
    match st {
        Stmt::VarDecl(n, e) => match eval_expr(prog, ctx, &env, e, f) {
            Ok(v) => {
                let ghost env0 = env@;
                let ghost vv = v@;
                let nm = copy_range(n, 0, n.len());
                proof {
                    assert(nm@ =~= n@);
                }
                let mut env = env;
                env.push((nm, v));
                proof {
                    assert(env_view(env@) =~= env_view(env0).push((n@, vv)));
                }
                Flow::Next(env)
            },
            Err(x) => Flow::Stop(x),
        },
        Stmt::Assign(n, e) => match eval_expr(prog, ctx, &env, e, f) {
            Ok(v) => {
                let ghost env0 = env@;
                let ghost vv = v@;
                let nm = copy_range(n, 0, n.len());
                proof {
                    assert(nm@ =~= n@);
                }
                let mut env = env;
                env.push((nm, v));
                proof {
                    assert(env_view(env@) =~= env_view(env0).push((n@, vv)));
                }
                Flow::Next(env)
            },
            Err(x) => Flow::Stop(x),
        },
        Stmt::If(c, thn, els) => match eval_expr(prog, ctx, &env, c, f) {
            Err(x) => Flow::Stop(x),
            Ok(v) => if truthy(&v) {
                exec_stmts(prog, ctx, thn, 0, env, f)
            } else {
                exec_stmts(prog, ctx, els, 0, env, f)
            },
        },
        Stmt::While(c, body) => {
            // iterative, so a long-running loop cannot deepen the stack; the
            // meaning is still the recursive `s_exec_stmt`
            let ghost goal = s_exec_stmt(*prog, *ctx, *st, env_view(env@), fuel as nat);
            let mut cur_env = env;
            let mut cur_fuel = fuel;
            #[verifier::loop_isolation(false)]
            loop
                invariant
                    cur_fuel <= fuel,
                    goal == s_exec_stmt(*prog, *ctx, *st, env_view(cur_env@), cur_fuel as nat),
                decreases cur_fuel,
            {
                if cur_fuel == 0 {
                    return Flow::Stop(Abort::OutOfFuel);
                }
                let f2 = cur_fuel - 1;
                match eval_expr(prog, ctx, &cur_env, c, f2) {
                    Err(x) => {
                        return Flow::Stop(x);
                    },
                    Ok(v) => {
                        if !truthy(&v) {
                            return Flow::Next(cur_env);
                        }
                        match exec_stmts(prog, ctx, body, 0, cur_env, f2) {
                            Flow::Next(env2) => {
                                cur_env = env2;
                                cur_fuel = f2;
                            },
                            Flow::Ret(rv) => {
                                return Flow::Ret(rv);
                            },
                            Flow::Stop(x) => {
                                return Flow::Stop(x);
                            },
                        }
                    },
                }
            }
        },
        Stmt::Return(oe) => match oe {
            Some(e) => match eval_expr(prog, ctx, &env, e, f) {
                Ok(v) => Flow::Ret(v),
                Err(x) => Flow::Stop(x),
            },
            None => Flow::Ret(Value::Undef),
        },
        Stmt::ExprStmt(e) => match eval_expr(prog, ctx, &env, e, f) {
            Ok(_) => Flow::Next(env),
            Err(x) => Flow::Stop(x),
        },
    }
}

/// A failed resolution is soft: `dnsResolve` on a hostname the snapshot
/// knows to have failed yields the falsy `null` — never an abort — so a
/// conditional around the call takes its false branch and evaluation goes
/// on normally.
pub proof fn lemma_dns_failure_is_soft(ctx: EvalContext, h: Seq<char>)
    requires
        s_dns_state(ctx.dns, lower_seq(h), ctx.now) is Failed,
    ensures
        s_host_call(ctx, "dnsResolve"@, seq![SpecVal::VStr(h)]) == Ok::<SpecVal, SAbort>(
            SpecVal::VNull,
        ),
        !s_truthy(SpecVal::VNull),
{
    reveal_strlit("dnsResolve");
    reveal_strlit("isPlainHostName");
    reveal_strlit("dnsDomainIs");
    reveal_strlit("localHostOrDomainIs");
    reveal_strlit("dnsDomainLevels");
    reveal_strlit("shExpMatch");
    reveal_strlit("isResolvable");
    assert(("dnsResolve"@).len() == 10);
    assert(("isPlainHostName"@).len() == 15);
    assert(("dnsDomainIs"@).len() == 11);
    assert(("localHostOrDomainIs"@).len() == 19);
    assert(("dnsDomainLevels"@).len() == 15);
    assert(("shExpMatch"@).len() == 10);
    assert(("isResolvable"@).len() == 12);
    assert(("dnsResolve"@)[0] != ("shExpMatch"@)[0]);
}

/// The subnet test of `isInNet` on a host the snapshot resolves: true
/// exactly when the preferred address agrees with the pattern under the
/// mask, both read as dotted quads.
pub proof fn lemma_is_in_net_boundary(
    ctx: EvalContext,
    h: Seq<char>,
    pat: Seq<char>,
    mask: Seq<char>,
)
    requires
        s_dns_state(ctx.dns, lower_seq(h), ctx.now) is Known,
        s_dns_state(ctx.dns, lower_seq(h), ctx.now)->Known_0.len() > 0,
        s_ipv4_of(pat) is Some,
        s_ipv4_of(mask) is Some,
    ensures
        s_host_call(ctx, "isInNet"@, seq![SpecVal::VStr(h), SpecVal::VStr(pat), SpecVal::VStr(mask)])
            == Ok::<SpecVal, SAbort>(
            SpecVal::VBool(
                s_in_net(
                    s_dns_state(ctx.dns, lower_seq(h), ctx.now)->Known_0[0],
                    s_ipv4_of(pat)->0,
                    s_ipv4_of(mask)->0,
                ),
            ),
        ),
{
    reveal_strlit("isInNet");
    reveal_strlit("isPlainHostName");
    reveal_strlit("dnsDomainIs");
    reveal_strlit("localHostOrDomainIs");
    reveal_strlit("dnsDomainLevels");
    reveal_strlit("shExpMatch");
    reveal_strlit("isResolvable");
    reveal_strlit("dnsResolve");
    assert(("isInNet"@).len() == 7);
    assert(("isPlainHostName"@).len() == 15);
    assert(("dnsDomainIs"@).len() == 11);
    assert(("localHostOrDomainIs"@).len() == 19);
    assert(("dnsDomainLevels"@).len() == 15);
    assert(("shExpMatch"@).len() == 10);
    assert(("isResolvable"@).len() == 12);
    assert(("dnsResolve"@).len() == 10);
}

/// Whether the program declares a function of this name.
pub fn has_fun(prog: &Program, n: &Vec<char>) -> (r: bool)
    ensures
        r == (s_find_fun(prog.funs@, n@) is Some),
{
    match find_fun(prog, n) {
        Some(_) => true,
        None => false,
    }
}

/// Runs the script's entry function on a URL/host pair under the context's
/// budget.
pub fn run_entry(prog: &Program, ctx: &EvalContext, url: &Vec<char>, host: &Vec<char>) -> (r:
    Result<Value, Abort>)
    ensures
        out_view(r) == s_run_entry(*prog, *ctx, url@, host@),
{
    let name = str_to_chars("FindProxyForURL");
    match find_fun(prog, &name) {
        None => Err(Abort::TypeErr),
        Some(fd) => {
            let mut args: Vec<Value> = Vec::new();
            let u2 = copy_range(url, 0, url.len());
            let h2 = copy_range(host, 0, host.len());
            proof {
                assert(u2@ =~= url@);
                assert(h2@ =~= host@);
            }
            args.push(Value::Str(u2));
            args.push(Value::Str(h2));
            proof {
                assert(vals_view(args@) =~= seq![SpecVal::VStr(url@), SpecVal::VStr(host@)]);
            }
            call_fun(prog, ctx, fd, &args, ctx.budget)
        },
    }
}

/// Running the script's entry function on a URL/host pair under the
/// context's budget.
pub open spec fn s_run_entry(
    prog: Program,
    ctx: EvalContext,
    url: Seq<char>,
    host: Seq<char>,
) -> Result<SpecVal, SAbort> {
    match s_find_fun(prog.funs@, "FindProxyForURL"@) {
        None => Err(SAbort::STypeErr),
        Some(fd) => s_call_fun(
            prog,
            ctx,
            fd,
            seq![SpecVal::VStr(url), SpecVal::VStr(host)],
            ctx.budget as nat,
        ),
    }
}

} // verus!
