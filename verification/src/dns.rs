//! The DNS resolution snapshot the evaluator reads.  Hostnames are keyed
//! case-insensitively; an entry carries the resolved addresses and its
//! insertion time and expires once the fixed TTL has passed.  Failures are
//! noted separately and never given a TTL, so a later attempt may retry.
//! The engine itself never performs a lookup: the caller resolves and feeds
//! the results in.

use vstd::prelude::*;

use crate::text::{chars_eq, lower_seq, lower_vec};

verus! {

pub struct DnsEntry {
    /// The hostname, already lower-cased.
    pub host: Vec<char>,
    /// The resolved addresses, preferred first.
    pub addrs: Vec<u32>,
    /// When the entry was stored, in the caller's clock units.
    pub inserted_at: u64,
}

pub struct DnsCache {
    pub entries: Vec<DnsEntry>,
    /// Hostnames whose resolution failed during this evaluation round.
    pub failed: Vec<Vec<char>>,
    /// Entry lifetime, in the caller's clock units.
    pub ttl: u64,
}

/// What the snapshot knows of one (lower-cased) hostname.
pub enum ResolveState {
    Known(Seq<u32>),
    Failed,
    Unknown,
}

/// The newest entry for a host wins.
pub open spec fn s_cache_find(es: Seq<DnsEntry>, h: Seq<char>) -> Option<DnsEntry>
    decreases es.len(),
{
    if es.len() == 0 {
        None
    } else if es.last().host@ == h {
        Some(es.last())
    } else {
        s_cache_find(es.drop_last(), h)
    }
}

pub open spec fn s_fresh(e: DnsEntry, now: u64, ttl: u64) -> bool {
    now as int <= e.inserted_at + ttl
}

pub open spec fn s_in_failed(fs: Seq<Vec<char>>, h: Seq<char>) -> bool {
    exists|i: int| 0 <= i < fs.len() && fs[i]@ == h
}

/// The snapshot's verdict on a lower-cased hostname at time `now`.
pub open spec fn s_dns_state(c: DnsCache, h: Seq<char>, now: u64) -> ResolveState {
    match s_cache_find(c.entries@, h) {
        Some(e) => if s_fresh(e, now, c.ttl) && e.addrs@.len() > 0 {
            ResolveState::Known(e.addrs@)
        } else if s_in_failed(c.failed@, h) {
            ResolveState::Failed
        } else {
            ResolveState::Unknown
        },
        None => if s_in_failed(c.failed@, h) {
            ResolveState::Failed
        } else {
            ResolveState::Unknown
        },
    }
}

/// What the evaluator needs of a lookup: the preferred address, a known
/// failure, or no knowledge at all.
pub enum LookupOut {
    Addr(u32),
    Failed,
    Unknown,
}

impl DnsCache {
    /// An empty snapshot with the given entry lifetime.
    pub fn new(ttl: u64) -> (r: DnsCache)
        ensures
            r.entries@.len() == 0,
            r.failed@.len() == 0,
            r.ttl == ttl,
    {
        DnsCache { entries: Vec::new(), failed: Vec::new(), ttl: ttl }
    }

    fn find_idx(&self, h: &Vec<char>) -> (r: Option<usize>)
        ensures
            match r {
                Some(i) => i < self.entries@.len() && s_cache_find(self.entries@, h@) == Some(
                    self.entries@[i as int],
                ),
                None => s_cache_find(self.entries@, h@) is None,
            },
    {
        let mut i: usize = self.entries.len();
        proof {
            assert(self.entries@.take(i as int) =~= self.entries@);
        }
        while i > 0
            invariant
                i <= self.entries@.len(),
                s_cache_find(self.entries@, h@) == s_cache_find(
                    self.entries@.take(i as int),
                    h@,
                ),
            decreases i,
        {
            proof {
                assert(self.entries@.take(i as int).last() == self.entries@[i - 1]);
                assert(self.entries@.take(i as int).drop_last() =~= self.entries@.take(i - 1));
            }
            if chars_eq(&self.entries[i - 1].host, h) {
                return Some(i - 1);
            }
            i = i - 1;
        }
        proof {
            assert(self.entries@.take(0) =~= Seq::<DnsEntry>::empty());
        }
        None
    }

    fn in_failed(&self, h: &Vec<char>) -> (r: bool)
        ensures
            r == s_in_failed(self.failed@, h@),
    {
        let mut i: usize = 0;
        while i < self.failed.len()
            invariant
                i <= self.failed@.len(),
                forall|m: int| 0 <= m < i ==> self.failed@[m]@ != h@,
            decreases self.failed@.len() - i,
        {
            if chars_eq(&self.failed[i], h) {
                return true;
            }
            i = i + 1;
        }
        false
    }

    /// The preferred address for a hostname, or what the snapshot knows of
    /// its failure.  The host is lower-cased before the lookup.
    pub fn resolve_first(&self, host: &Vec<char>, now: u64) -> (r: LookupOut)
        ensures
            match r {
                LookupOut::Addr(a) => s_dns_state(*self, lower_seq(host@), now) is Known
                    && s_dns_state(*self, lower_seq(host@), now)->Known_0.len() > 0 && a
                    == s_dns_state(*self, lower_seq(host@), now)->Known_0[0],
                LookupOut::Failed => s_dns_state(*self, lower_seq(host@), now) is Failed,
                LookupOut::Unknown => s_dns_state(*self, lower_seq(host@), now) is Unknown,
            },
    {
        let hl = lower_vec(host);
        match self.find_idx(&hl) {
            Some(i) => {
                let e = &self.entries[i];
                let fresh = if now <= e.inserted_at {
                    true
                } else {
                    now - e.inserted_at <= self.ttl
                };
                if fresh && e.addrs.len() > 0 {
                    LookupOut::Addr(e.addrs[0])
                } else if self.in_failed(&hl) {
                    LookupOut::Failed
                } else {
                    LookupOut::Unknown
                }
            },
            None => {
                if self.in_failed(&hl) {
                    LookupOut::Failed
                } else {
                    LookupOut::Unknown
                }
            },
        }
    }

    /// Stores a fresh resolution, shadowing any older entry for the host.
    pub fn insert(&mut self, host: &Vec<char>, addrs: &Vec<u32>, now: u64)
        ensures
            final(self).entries@.len() == old(self).entries@.len() + 1,
            final(self).entries@.last().host@ == lower_seq(host@),
            final(self).entries@.last().addrs@ == addrs@,
            final(self).entries@.last().inserted_at == now,
            final(self).entries@.drop_last() == old(self).entries@,
            final(self).failed@ == old(self).failed@,
            final(self).ttl == old(self).ttl,
    {
        let hl = lower_vec(host);
        let mut a: Vec<u32> = Vec::new();
        let mut i: usize = 0;
        while i < addrs.len()
            invariant
                i <= addrs@.len(),
                a@ == addrs@.take(i as int),
            decreases addrs@.len() - i,
        {
            a.push(addrs[i]);
            i = i + 1;
            proof {
                assert(addrs@.take(i as int) =~= addrs@.take(i - 1).push(addrs@[i - 1]));
            }
        }
        proof {
            assert(addrs@.take(addrs@.len() as int) =~= addrs@);
        }
        self.entries.push(DnsEntry { host: hl, addrs: a, inserted_at: now });
        proof {
            assert(self.entries@.drop_last() =~= old(self).entries@);
        }
    }

    /// Notes a failed resolution for this evaluation round; failures are not
    /// given a TTL and can be cleared for a retry.
    pub fn mark_failed(&mut self, host: &Vec<char>)
        ensures
            final(self).failed@.len() == old(self).failed@.len() + 1,
            final(self).failed@.last()@ == lower_seq(host@),
            final(self).failed@.drop_last() == old(self).failed@,
            final(self).entries@ == old(self).entries@,
            final(self).ttl == old(self).ttl,
    {
        let hl = lower_vec(host);
        self.failed.push(hl);
        proof {
            assert(self.failed@.drop_last() =~= old(self).failed@);
        }
    }

    /// Forgets the noted failures, allowing retries.
    pub fn clear_failed(&mut self)
        ensures
            final(self).failed@.len() == 0,
            final(self).entries@ == old(self).entries@,
            final(self).ttl == old(self).ttl,
    {
        self.failed = Vec::new();
    }
}

} // verus!
