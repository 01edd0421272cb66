//! Freshness of the runtime directory: it is stale when the launcher's own
//! file was modified after it. Nothing but the two times is compared.

use vstd::prelude::*;

verus! {

/// A modification time: seconds since the epoch, and nanoseconds on top.
#[derive(Debug, Clone, Copy, PartialEq, Eq, Structural)]
pub struct ModTime {
    pub secs: i64,
    pub nanos: u32,
}

impl ModTime {
    /// The time as one number of nanoseconds.
    pub open spec fn instant(self) -> int {
        self.secs * 1_000_000_000 + self.nanos
    }

    /// The time `secs` seconds and `nanos` nanoseconds after the epoch;
    /// `None` where the seconds are beyond what a time can hold.
    pub fn after_epoch(secs: u64, nanos: u32) -> (time: Option<ModTime>)
        ensures
            match time {
                Some(t) => t.instant() == secs * 1_000_000_000 + nanos,
                None => secs > i64::MAX,
            },
    {
        if secs > i64::MAX as u64 {
            None
        } else {
            Some(ModTime { secs: secs as i64, nanos })
        }
    }

    /// The time `secs` seconds and `nanos` nanoseconds before the epoch;
    /// `None` where the seconds are beyond what a time can hold, or the
    /// nanoseconds make a second or more.
    pub fn before_epoch(secs: u64, nanos: u32) -> (time: Option<ModTime>)
        ensures
            match time {
                Some(t) => t.instant() == -(secs * 1_000_000_000 + nanos),
                None => secs > i64::MAX || nanos >= 1_000_000_000,
            },
    {
        if secs > i64::MAX as u64 || nanos >= 1_000_000_000 {
            None
        } else if nanos == 0 {
            Some(ModTime { secs: -(secs as i64), nanos: 0 })
        } else {
            Some(ModTime { secs: -(secs as i64) - 1, nanos: 1_000_000_000 - nanos })
        }
    }

    /// Tells whether this time lies after `other`.
    pub fn is_after(&self, other: &ModTime) -> (after: bool)
        ensures
            after == (self.instant() > other.instant()),
    {
        let own: i128 = (self.secs as i128) * 1_000_000_000 + (self.nanos as i128);
        let theirs: i128 = (other.secs as i128) * 1_000_000_000 + (other.nanos as i128);
        own > theirs
    }
}

/// What the two modification times say of an existing runtime directory.
#[derive(Debug, Clone, Copy, PartialEq, Eq, Structural)]
pub enum Freshness {
    /// The directory is at least as recent as the executable: it is reused.
    Fresh,
    /// The executable is more recent: the directory is to be deleted.
    Stale,
}

/// The freshness of a runtime directory modified at `runtime`, for an
/// executable modified at `executable`.
pub open spec fn freshness(executable: ModTime, runtime: ModTime) -> Freshness {
    if executable.instant() > runtime.instant() {
        Freshness::Stale
    } else {
        Freshness::Fresh
    }
}

/// Judges an existing runtime directory by the two modification times.
pub fn assess(executable: ModTime, runtime: ModTime) -> (found: Freshness)
    ensures
        found == freshness(executable, runtime),
{
    if executable.is_after(&runtime) {
        Freshness::Stale
    } else {
        Freshness::Fresh
    }
}

} // verus!
