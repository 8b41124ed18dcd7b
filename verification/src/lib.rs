//! A verified proxy auto-configuration (PAC) engine.  `PacParser` loads a
//! PAC script — a small JavaScript subset around the classic host functions
//! (`isInNet`, `dnsResolve`, `shExpMatch`, `weekdayRange`, …) — and
//! `find_proxy` evaluates `FindProxyForURL(url, host)` for a URL under a
//! bounded step budget, against an explicit resolution/clock snapshot.  The
//! outcome is pinned to the specification-level evaluator `s_find_proxy`,
//! so evaluation is a mathematical function of script, URL and snapshot.
//! The directive module turns the returned string into a typed proxy chain
//! and proves the chain/text round trip.

use vstd::prelude::*;

pub mod ast;
pub mod clock;
pub mod directive;
pub mod dns;
pub mod interp;
pub mod lexer;
pub mod pacfns;
pub mod parser;
pub mod text;

use crate::ast::{program_view, Abort, FunDecl, FunDeclV, ProgramV, SAbort, SpecVal, Value};
use crate::clock::{s_epoch_moment, Moment};
use crate::directive::{
    chain_view, chain_wf, format_chain, parse_chain, s_fmt_chain, s_parse_chain, ProxyDirective,
};
use crate::dns::DnsCache;
use crate::interp::{has_fun, run_entry, s_find_fun, s_run_entry, EvalContext};
use crate::lexer::{s_tokenize, tokenize};
use crate::parser::{s_parse_program, parse_program};
use crate::text::{chars_to_string, lower_seq, str_to_chars};

verus! {

/// The host component `url::Url::parse` derives from a string, or `None`
/// when the string is not an absolute URL with a host.
pub uninterp spec fn url_host_of(s: Seq<char>) -> Option<Seq<char>>;

/// The normalized text of a parsed URL, as `url::Url::as_str` returns it.
pub uninterp spec fn url_norm_of(s: Seq<char>) -> Seq<char>;

/// Relies on `url::Url::parse` to validate and normalize a URL, on
/// `url::Url::host_str` for its host component, and on `url::Url::as_str`
/// for its normalized text.  All three depend on the input string alone.
#[verifier::external_body]
fn parse_url_parts(url: &str) -> (r: Option<(String, String)>)
    ensures
        r is Some <==> url_host_of(url@) is Some,
        match r {
            Some(p) => p.0@ == url_norm_of(url@) && p.1@ == url_host_of(url@)->0,
            None => true,
        },
{
    match url::Url::parse(url) {
        Ok(u) => match u.host_str() {
            Some(h) => {
                let host = h.to_owned();
                Some((u.as_str().to_owned(), host))
            },
            None => None,
        },
        Err(_) => None,
    }
}

/// Whether a parsed program declares the entry function `FindProxyForURL`.
pub open spec fn s_has_entry(funs: Seq<FunDeclV>) -> bool {
    exists|k: int| 0 <= k < funs.len() && (#[trigger] funs[k]).name == "FindProxyForURL"@
}

/// What loading a source text yields: the parsed program of its token
/// stream, provided the text lexes, parses, and declares `FindProxyForURL`.
pub open spec fn s_load(src: Seq<char>) -> Option<ProgramV> {
    match s_tokenize(src) {
        None => None,
        Some(ts) => match s_parse_program(ts) {
            None => None,
            Some(pv) => if s_has_entry(pv.funs) {
                Some(pv)
            } else {
                None
            },
        },
    }
}

/// The executable entry search agrees with the entry-existence predicate.
proof fn lemma_entry_exists(funs: Seq<FunDecl>, n: Seq<char>)
    ensures
        (s_find_fun(funs, n) is Some) == (exists|k: int|
            0 <= k < crate::ast::funs_view(funs).len() && (#[trigger] crate::ast::funs_view(
                funs,
            )[k]).name == n),
    decreases funs.len(),
{
    let fv = crate::ast::funs_view(funs);
    if funs.len() == 0 {
        assert(!(exists|k: int| 0 <= k < fv.len() && (#[trigger] fv[k]).name == n));
    } else if funs[0].name@ == n {
        assert(fv[0].name == n);
    } else {
        lemma_entry_exists(funs.skip(1), n);
        let fvs = crate::ast::funs_view(funs.skip(1));
        assert(forall|k: int| 0 <= k < fvs.len() ==> #[trigger] fvs[k] == fv[k + 1]);
        if s_find_fun(funs, n) is Some {
            let k = choose|k: int| 0 <= k < fvs.len() && (#[trigger] fvs[k]).name == n;
            assert(fv[k + 1].name == n);
        }
        if exists|k: int| 0 <= k < fv.len() && (#[trigger] fv[k]).name == n {
            let k = choose|k: int| 0 <= k < fv.len() && (#[trigger] fv[k]).name == n;
            assert(k != 0);
            assert(fvs[k - 1].name == n);
        }
    }
}

/// Why a script could not be loaded.
#[derive(Clone, Copy, PartialEq, Eq, Structural, Debug)]
pub enum LoadError {
    /// The source falls outside the scripting subset.
    BadSyntax,
    /// The script declares no `FindProxyForURL` function.
    NoEntry,
}

/// Why one evaluation did not yield a proxy string.
#[derive(Debug)]
pub enum EvalError {
    /// The URL is malformed or carries no host.
    UrlParse,
    /// The step budget ran out.
    Timeout,
    /// The script misbehaved: an unsupported construct, a bad value, or a
    /// non-string return.
    ScriptError,
    /// Evaluation needs this (lower-cased) hostname resolved; feed the
    /// answer in with `dns_insert` or `dns_mark_failed` and retry.
    NeedsDns(String),
}

/// The specification-level outcome of `find_proxy`.
pub enum SFindOut {
    SUrlErr,
    SDone(Seq<char>),
    SScriptErr,
    STimedOut,
    SNeed(Seq<char>),
}

/// What `find_proxy` denotes: a mathematical function of the script, the
/// context snapshot, and the URL.
pub open spec fn s_find_proxy(prog: crate::ast::Program, ctx: EvalContext, url: Seq<char>) -> SFindOut {
    match url_host_of(url) {
        None => SFindOut::SUrlErr,
        Some(h) => match s_run_entry(prog, ctx, url_norm_of(url), h) {
            Ok(v) => match v {
                SpecVal::VStr(s) => SFindOut::SDone(s),
                _ => SFindOut::SScriptErr,
            },
            Err(a) => match a {
                SAbort::SOutOfFuel => SFindOut::STimedOut,
                SAbort::STypeErr => SFindOut::SScriptErr,
                SAbort::SNeedDns(h2) => SFindOut::SNeed(h2),
            },
        },
    }
}

/// The default step budget of one evaluation.
pub const DEFAULT_BUDGET: u64 = 100000;

/// The default lifetime of a cached resolution, in the caller's clock units.
pub const DEFAULT_TTL: u64 = 300;

/// A loaded PAC script with its evaluation context.  The context — the
/// resolution snapshot, the clock, the local address and the budget — is
/// plain data the caller installs; the engine itself performs no I/O, so a
/// timed-out or aborted call leaves the parser ready for the next one.
pub struct PacParser {
    pub prog: crate::ast::Program,
    pub ctx: EvalContext,
}

impl PacParser {
    /// Loads a PAC script: tokenizes and parses it, and checks that it
    /// declares `FindProxyForURL`.  The fresh context has an empty
    /// resolution snapshot, the epoch clock, the loopback address, the
    /// default budget, and treats unknown hostnames as resolution failures.
    pub fn new(pac_string: &str) -> (r: Result<PacParser, LoadError>)
        ensures
            match r {
                Ok(p) => {
                    &&& s_load(pac_string@) == Some(program_view(p.prog))
                    &&& s_find_fun(p.prog.funs@, "FindProxyForURL"@) is Some
                    &&& p.ctx.dns.entries@.len() == 0
                    &&& p.ctx.dns.failed@.len() == 0
                    &&& p.ctx.dns.ttl == DEFAULT_TTL
                    &&& p.ctx.now == 0
                    &&& p.ctx.utc == s_epoch_moment()
                    &&& p.ctx.local == s_epoch_moment()
                    &&& p.ctx.my_ip == 0x7f000001u32
                    &&& p.ctx.budget == DEFAULT_BUDGET
                    &&& p.ctx.unknown_is_failure
                },
                Err(e) => {
                    &&& s_load(pac_string@) is None
                    &&& match s_tokenize(pac_string@) {
                        None => e == LoadError::BadSyntax,
                        Some(ts) => match s_parse_program(ts) {
                            None => e == LoadError::BadSyntax,
                            Some(pv) => e == LoadError::NoEntry && !s_has_entry(pv.funs),
                        },
                    }
                },
            },
    {
        let src = str_to_chars(pac_string);
        let toks = match tokenize(&src) {
            Some(t) => t,
            None => {
                return Err(LoadError::BadSyntax);
            },
        };
        let prog = match parse_program(&toks) {
            Some(p) => p,
            None => {
                return Err(LoadError::BadSyntax);
            },
        };
        let entry = str_to_chars("FindProxyForURL");
        proof {
            lemma_entry_exists(prog.funs@, "FindProxyForURL"@);
            assert(program_view(prog).funs == crate::ast::funs_view(prog.funs@));
        }
        if !has_fun(&prog, &entry) {
            return Err(LoadError::NoEntry);
        }
        Ok(
            PacParser {
                prog: prog,
                ctx: EvalContext {
                    dns: DnsCache::new(DEFAULT_TTL),
                    now: 0,
                    utc: Moment::zero(),
                    local: Moment::zero(),
                    my_ip: 0x7f000001,
                    budget: DEFAULT_BUDGET,
                    unknown_is_failure: true,
                },
            },
        )
    }

    /// Evaluates `FindProxyForURL(url, host)` for the URL and returns the
    /// raw string the script produced, verbatim.  The outcome is exactly
    /// `s_find_proxy` of the engine state and the URL: a malformed URL
    /// yields `UrlParse` and no evaluation, an exhausted budget `Timeout`, a
    /// misbehaving script `ScriptError`, and — only when the context does
    /// not treat unknown hosts as failures — `NeedsDns` names the hostname
    /// to resolve.
    pub fn find_proxy(&self, url: &str) -> (r: Result<String, EvalError>)
        ensures
            match r {
                Ok(s) => s_find_proxy(self.prog, self.ctx, url@) == SFindOut::SDone(s@),
                Err(e) => match e {
                    EvalError::UrlParse => s_find_proxy(self.prog, self.ctx, url@) is SUrlErr,
                    EvalError::Timeout => s_find_proxy(self.prog, self.ctx, url@) is STimedOut,
                    EvalError::ScriptError => s_find_proxy(self.prog, self.ctx, url@)
                        is SScriptErr,
                    EvalError::NeedsDns(h) => s_find_proxy(self.prog, self.ctx, url@)
                        == SFindOut::SNeed(h@),
                },
            },
    {
        let parts = match parse_url_parts(url) {
            Some(p) => p,
            None => {
                return Err(EvalError::UrlParse);
            },
        };
        let u = str_to_chars(parts.0.as_str());
        let h = str_to_chars(parts.1.as_str());
        match run_entry(&self.prog, &self.ctx, &u, &h) {
            Ok(v) => match v {
                Value::Str(s) => Ok(chars_to_string(&s)),
                _ => Err(EvalError::ScriptError),
            },
            Err(a) => match a {
                Abort::OutOfFuel => Err(EvalError::Timeout),
                Abort::TypeErr => Err(EvalError::ScriptError),
                Abort::NeedDns(hh) => Err(EvalError::NeedsDns(chars_to_string(&hh))),
            },
        }
    }

    /// Installs the clock: the cache timestamp and the local and GMT
    /// moments the date/time functions read.
    pub fn set_clock(&mut self, now: u64, local: Moment, utc: Moment)
        ensures
            final(self).ctx.now == now,
            final(self).ctx.local == local,
            final(self).ctx.utc == utc,
            final(self).prog == old(self).prog,
            final(self).ctx.dns == old(self).ctx.dns,
            final(self).ctx.my_ip == old(self).ctx.my_ip,
            final(self).ctx.budget == old(self).ctx.budget,
            final(self).ctx.unknown_is_failure == old(self).ctx.unknown_is_failure,
    {
        self.ctx.now = now;
        self.ctx.local = local;
        self.ctx.utc = utc;
    }

    /// Sets the step budget of one evaluation.
    pub fn set_budget(&mut self, budget: u64)
        ensures
            final(self).ctx.budget == budget,
            final(self).prog == old(self).prog,
            final(self).ctx.dns == old(self).ctx.dns,
            final(self).ctx.now == old(self).ctx.now,
            final(self).ctx.local == old(self).ctx.local,
            final(self).ctx.utc == old(self).ctx.utc,
            final(self).ctx.my_ip == old(self).ctx.my_ip,
            final(self).ctx.unknown_is_failure == old(self).ctx.unknown_is_failure,
    {
        self.ctx.budget = budget;
    }

    /// Sets what `myIpAddress` reports.
    pub fn set_my_ip(&mut self, ip: u32)
        ensures
            final(self).ctx.my_ip == ip,
            final(self).prog == old(self).prog,
            final(self).ctx.dns == old(self).ctx.dns,
            final(self).ctx.budget == old(self).ctx.budget,
            final(self).ctx.unknown_is_failure == old(self).ctx.unknown_is_failure,
            final(self).ctx.now == old(self).ctx.now,
            final(self).ctx.local == old(self).ctx.local,
            final(self).ctx.utc == old(self).ctx.utc,
    {
        self.ctx.my_ip = ip;
    }

    /// Chooses how an unknown hostname behaves: as a resolution failure
    /// (the default), or as a `NeedsDns` suspension for a caller that
    /// resolves hostnames itself and retries.
    pub fn set_unknown_is_failure(&mut self, v: bool)
        ensures
            final(self).ctx.unknown_is_failure == v,
            final(self).prog == old(self).prog,
            final(self).ctx.dns == old(self).ctx.dns,
            final(self).ctx.budget == old(self).ctx.budget,
            final(self).ctx.my_ip == old(self).ctx.my_ip,
            final(self).ctx.now == old(self).ctx.now,
            final(self).ctx.local == old(self).ctx.local,
            final(self).ctx.utc == old(self).ctx.utc,
    {
        self.ctx.unknown_is_failure = v;
    }

    /// Feeds a successful resolution into the snapshot, stamped with the
    /// context's current time; the newest entry for a host wins.
    pub fn dns_insert(&mut self, host: &str, addrs: &Vec<u32>)
        ensures
            final(self).ctx.dns.entries@.len() == old(self).ctx.dns.entries@.len() + 1,
            final(self).ctx.dns.entries@.last().host@ == lower_seq(host@),
            final(self).ctx.dns.entries@.last().addrs@ == addrs@,
            final(self).ctx.dns.entries@.last().inserted_at == old(self).ctx.now,
            final(self).ctx.dns.entries@.drop_last() == old(self).ctx.dns.entries@,
            final(self).ctx.dns.failed@ == old(self).ctx.dns.failed@,
            final(self).ctx.dns.ttl == old(self).ctx.dns.ttl,
            final(self).prog == old(self).prog,
            final(self).ctx.now == old(self).ctx.now,
            final(self).ctx.budget == old(self).ctx.budget,
            final(self).ctx.my_ip == old(self).ctx.my_ip,
            final(self).ctx.local == old(self).ctx.local,
            final(self).ctx.utc == old(self).ctx.utc,
            final(self).ctx.unknown_is_failure == old(self).ctx.unknown_is_failure,
    {
        let h = str_to_chars(host);
        let now = self.ctx.now;
        self.ctx.dns.insert(&h, addrs, now);
    }

    /// Notes a failed resolution; failures carry no TTL and can be cleared.
    pub fn dns_mark_failed(&mut self, host: &str)
        ensures
            final(self).ctx.dns.failed@.len() == old(self).ctx.dns.failed@.len() + 1,
            final(self).ctx.dns.failed@.last()@ == lower_seq(host@),
            final(self).ctx.dns.failed@.drop_last() == old(self).ctx.dns.failed@,
            final(self).ctx.dns.entries@ == old(self).ctx.dns.entries@,
            final(self).ctx.dns.ttl == old(self).ctx.dns.ttl,
            final(self).prog == old(self).prog,
            final(self).ctx.now == old(self).ctx.now,
            final(self).ctx.budget == old(self).ctx.budget,
            final(self).ctx.my_ip == old(self).ctx.my_ip,
            final(self).ctx.local == old(self).ctx.local,
            final(self).ctx.utc == old(self).ctx.utc,
            final(self).ctx.unknown_is_failure == old(self).ctx.unknown_is_failure,
    {
        let h = str_to_chars(host);
        self.ctx.dns.mark_failed(&h);
    }

    /// Forgets the noted failures, so a later evaluation may retry them.
    pub fn dns_clear_failed(&mut self)
        ensures
            final(self).ctx.dns.failed@.len() == 0,
            final(self).ctx.dns.entries@ == old(self).ctx.dns.entries@,
            final(self).ctx.dns.ttl == old(self).ctx.dns.ttl,
            final(self).prog == old(self).prog,
            final(self).ctx.now == old(self).ctx.now,
            final(self).ctx.budget == old(self).ctx.budget,
            final(self).ctx.my_ip == old(self).ctx.my_ip,
            final(self).ctx.local == old(self).ctx.local,
            final(self).ctx.utc == old(self).ctx.utc,
            final(self).ctx.unknown_is_failure == old(self).ctx.unknown_is_failure,
    {
        self.ctx.dns.clear_failed();
    }
}

/// Evaluation is deterministic: the outcome of `find_proxy` is the
/// mathematical function `s_find_proxy` of the loaded script, the context
/// snapshot (resolution state, clock, address, budget) and the URL, so two
/// evaluations of equal engine states on equal URLs agree.  Wall-clock and
/// DNS dependence enters only through the snapshot, which is part of the
/// state compared here.
pub proof fn lemma_find_proxy_deterministic(
    p1: &PacParser,
    p2: &PacParser,
    url1: Seq<char>,
    url2: Seq<char>,
)
    requires
        p1.prog == p2.prog,
        p1.ctx == p2.ctx,
        url1 == url2,
    ensures
        s_find_proxy(p1.prog, p1.ctx, url1) == s_find_proxy(p2.prog, p2.ctx, url2),
{
}

/// Parses the raw string a script returned into the typed proxy chain:
/// exactly the valid directives in order, or the single fail-open `DIRECT`.
pub fn parse_proxy_string(s: &str) -> (r: Vec<ProxyDirective>)
    ensures
        chain_view(r@) == s_parse_chain(s@),
        chain_wf(chain_view(r@)),
{
    let v = str_to_chars(s);
    parse_chain(&v)
}

/// Writes a well-formed proxy chain in its canonical text form.
pub fn format_proxy_chain(c: &Vec<ProxyDirective>) -> (r: String)
    requires
        chain_wf(chain_view(c@)),
    ensures
        r@ == s_fmt_chain(chain_view(c@)),
{
    let v = format_chain(c);
    chars_to_string(&v)
}

} // verus!
