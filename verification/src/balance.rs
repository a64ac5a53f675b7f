//! Core record types of the ledger: a persisted balance row, the read-only
//! projection handed to callers, and a seconds-based duration.
use vstd::prelude::*;

verus! {

/// A span of time measured in whole seconds.
#[derive(Clone, Copy, PartialEq, Eq, Structural, Debug)]
pub struct Duration {
    pub secs: u64,
}

impl Duration {
    /// Build a duration from a number of seconds.
    pub fn seconds(secs: u64) -> (r: Duration)
        ensures
            r.secs == secs,
    {
        Duration { secs }
    }
}

impl Default for Duration {
    fn default() -> (r: Duration)
        ensures
            r.secs == 0,
    {
        Duration { secs: 0 }
    }
}

/// One persisted ledger row: the balance and accumulated watch time of a
/// single user on a single channel.  At most one row exists per
/// (channel, user) pair; a missing row reads as amount 0, watch time 0.
pub struct Balance {
    pub channel: String,
    pub user: String,
    pub amount: i64,
    pub watch_time: i64,
}

impl Balance {
    /// Copy of the record with its watch time clamped to be non-negative.
    /// Imported records pass through here so that a malformed negative
    /// watch time never reaches storage.
    pub fn checked(&self) -> (r: Balance)
        ensures
            r.channel@ == self.channel@,
            r.user@ == self.user@,
            r.amount == self.amount,
            r.watch_time == if self.watch_time < 0 { 0int } else { self.watch_time as int },
    {
        Balance {
            channel: self.channel.clone(),
            user: self.user.clone(),
            amount: self.amount,
            watch_time: if self.watch_time < 0 { 0 } else { self.watch_time },
        }
    }
}

/// Field-for-field copy of a record.
pub fn clone_record(b: &Balance) -> (r: Balance)
    ensures
        r == *b,
{
    let r = Balance {
        channel: b.channel.clone(),
        user: b.user.clone(),
        amount: b.amount,
        watch_time: b.watch_time,
    };
    r
}

/// Balance of a single user, as reported by a query.
#[derive(Default)]
pub struct BalanceOf {
    pub balance: i64,
    pub watch_time: i64,
}

impl BalanceOf {
    /// The recorded watch time as a duration.  A negative stored value is
    /// reported as zero; the stored value itself is left untouched.
    pub fn watch_time(&self) -> (r: Duration)
        ensures
            r.secs == if self.watch_time < 0 { 0int } else { self.watch_time as int },
    {
        if self.watch_time < 0 {
            return Duration::default();
        }

        Duration::seconds(self.watch_time as u64)
    }
}

} // verus!
