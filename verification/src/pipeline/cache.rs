//! The byte budget of the parse-tree cache shared between passes.
//!
//! A parse tree takes roughly three times its source size in memory. The
//! cache is capped at `GRAFY_PARSE_CACHE_MAX_MB` MiB (1024 by default);
//! once the budget is spent, pass 1 stops inserting, and later passes
//! re-read and re-parse the files that were not cached.

use vstd::prelude::*;
use crate::text::{parse_u64, parse_u64_str};

verus! {

/// The cache limit in bytes for a `GRAFY_PARSE_CACHE_MAX_MB` value: that
/// many MiB when it parses as a `u64`, else 1024 MiB.
pub open spec fn spec_budget_bytes(env_value: Option<Seq<char>>) -> int {
    let mb: int = match env_value {
        Some(v) => match parse_u64(v) {
            Some(n) => n as int,
            None => 1024,
        },
        None => 1024,
    };
    mb * 1048576
}

/// Byte budget of the parse cache. Reservations add up; one that takes
/// the total past the limit is refused (the total still counts it).
pub struct CacheBudget {
    used: u64,
    limit: u64,
}

impl CacheBudget {
    /// Bytes reserved so far.
    pub closed spec fn used(&self) -> u64 {
        self.used
    }

    /// The limit in bytes.
    pub closed spec fn limit(&self) -> u64 {
        self.limit
    }

    /// A fresh budget for the value of `GRAFY_PARSE_CACHE_MAX_MB`.
    pub fn new(env_value: Option<&str>) -> (b: CacheBudget)
        requires
            spec_budget_bytes(
                match env_value {
                    Some(v) => Some(v@),
                    None => None,
                },
            ) <= u64::MAX,
        ensures
            b.used() == 0,
            b.limit() == spec_budget_bytes(
                match env_value {
                    Some(v) => Some(v@),
                    None => None,
                },
            ),
    {
        let mb: u64 = match env_value {
            Some(v) => match parse_u64_str(v) {
                Some(n) => n,
                None => 1024,
            },
            None => 1024,
        };
        CacheBudget { used: 0, limit: mb * 1048576 }
    }

    /// Bytes reserved so far.
    pub fn reserved(&self) -> (u: u64)
        ensures
            u == self.used(),
    {
        self.used
    }

    /// Reserves `bytes` when they fit in what is left of the budget: `true`
    /// (the entry should be cached) and the bytes counted as used; `false`
    /// when the budget has no room for them, leaving it unchanged.
    pub fn try_reserve(&mut self, bytes: u64) -> (ok: bool)
        ensures
            ok == (old(self).used() + bytes <= old(self).limit()),
            final(self).used() == if ok { old(self).used() + bytes } else { old(self).used() as int },
            final(self).limit() == old(self).limit(),
    {
        if self.used <= self.limit && bytes <= self.limit - self.used {
            self.used = self.used + bytes;
            true
        } else {
            false
        }
    }
}

} // verus!
