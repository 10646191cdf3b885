//! The process-wide memo of the last full game scan.
//!
//! The scan is expensive, so its result is kept after the first run and
//! reused until it is explicitly cleared: the cache starts empty, is filled
//! once, and is never refreshed behind the caller's back. Anyone needing
//! fresh data clears it first. The caller supplies whatever locking the
//! surrounding process needs.

use vstd::prelude::*;

use crate::games::GameScanResult;

verus! {

/// The memo cell for one scan result.
pub struct ScanCache {
    pub cached: Option<GameScanResult>,
}

impl ScanCache {
    /// A cache with nothing in it.
    pub fn new() -> (r: ScanCache)
        ensures
            r.cached is None,
    {
        ScanCache { cached: Option::None }
    }

    /// Whether a scan result is held.
    pub fn is_populated(&self) -> (r: bool)
        ensures
            r == (self.cached is Some),
    {
        self.cached.is_some()
    }

    /// Keep one scan result; any earlier one is replaced.
    pub fn populate(&mut self, scan: GameScanResult)
        ensures
            final(self).cached == Option::Some(scan),
    {
        self.cached = Option::Some(scan);
    }

    /// The held scan result, if any.
    pub fn lookup(&self) -> (r: Option<&GameScanResult>)
        ensures
            match r {
                Option::Some(g) => self.cached == Option::Some(*g),
                Option::None => self.cached is None,
            },
    {
        match self.cached {
            Option::Some(ref g) => Option::Some(g),
            Option::None => Option::None,
        }
    }

    /// Forget the held result, so the next read scans afresh.
    pub fn invalidate(&mut self)
        ensures
            final(self).cached is None,
    {
        self.cached = Option::None;
    }
}

} // verus!
