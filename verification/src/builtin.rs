//! The embedded backend: every operation is a read-modify-write against
//! the single in-memory balances table, run to completion before the next
//! one starts, which models one guarded connection with one local
//! transaction per operation.
use vstd::prelude::*;

use crate::balance::{Balance, BalanceOf};
use crate::errors::BalanceTransferError;
use crate::normalize::{canon_channel, channel_id, lower_of, user_id};
use crate::store::{Account, LedgerKey, MemoryStore, bump, map_of, overwrite, wf_records};

verus! {

/// Sequence of upsert-adds of the same deltas, one per listed user, all on
/// one channel, applied left to right with case-folded user names.
pub open spec fn bump_all(
    m: Map<LedgerKey, Account>,
    chan: Seq<char>,
    users: Seq<Seq<char>>,
    amount: int,
    watch_time: int,
) -> Map<LedgerKey, Account>
    decreases users.len(),
{
    if users.len() == 0 {
        m
    } else {
        bump(
            bump_all(m, chan, users.drop_last(), amount, watch_time),
            (chan, lower_of(users.last())),
            amount,
            watch_time,
        )
    }
}

/// Key under which an imported record is stored: the record's channel in
/// canonical form, its user name as recorded.
pub open spec fn import_key(b: Balance) -> LedgerKey {
    (canon_channel(b.channel@), b.user@)
}

/// Values an imported record overwrites a row with: its amount as
/// recorded, its watch time clamped to be non-negative.
pub open spec fn import_watch_time(b: Balance) -> int {
    if b.watch_time < 0 {
        0
    } else {
        b.watch_time as int
    }
}

/// The account an imported record leaves behind.
pub open spec fn import_account(b: Balance) -> Account {
    Account { amount: b.amount as int, watch_time: import_watch_time(b) }
}

/// One imported record: an upsert-overwrite of the addressed row.
pub open spec fn import_one(m: Map<LedgerKey, Account>, b: Balance) -> Map<LedgerKey, Account> {
    overwrite(m, import_key(b), b.amount as int, import_watch_time(b))
}

/// A whole import, record by record, left to right.
pub open spec fn import_all(m: Map<LedgerKey, Account>, s: Seq<Balance>) -> Map<LedgerKey, Account>
    decreases s.len(),
{
    if s.len() == 0 {
        m
    } else {
        import_one(import_all(m, s.drop_last()), s.last())
    }
}

/// The views of a list of user names.
pub open spec fn names_of(users: Seq<String>) -> Seq<Seq<char>> {
    users.map_values(|u: String| u@)
}

/// The embedded backend over the in-memory balances table.
pub struct Backend {
    db: MemoryStore,
}

impl View for Backend {
    type V = Map<LedgerKey, Account>;

    open spec fn view(&self) -> Map<LedgerKey, Account> {
        map_of(self.rows())
    }
}

impl Backend {
    /// The rows of the backing table, in storage order.
    pub closed spec fn rows(&self) -> Seq<Balance> {
        self.db.rows()
    }

    pub open spec fn wf(&self) -> bool {
        wf_records(self.rows())
    }

    /// Construct a new built-in backend over the given table.
    pub fn new(db: MemoryStore) -> (r: Backend)
        ensures
            r.rows() == db.rows(),
            r@ == db@,
            db.wf() ==> r.wf(),
    {
        Backend { db }
    }

    /// Find one user's balance.  `Some` exactly when a row exists for the
    /// normalized pair, carrying its amount and watch time.
    pub fn balance_of(&self, channel: &str, user: &str) -> (r: Option<BalanceOf>)
        requires
            self.wf(),
        ensures
            ({
                let k = (canon_channel(channel@), lower_of(user@));
                match r {
                    Some(b) => self@.contains_key(k) && b.balance as int == self@[k].amount
                        && b.watch_time as int == self@[k].watch_time,
                    None => !self@.contains_key(k),
                }
            }),
    {
        let ch = channel_id(channel);
        let us = user_id(user);
        match self.db.get(&ch, &us) {
            Some(v) => Some(BalanceOf { balance: v.0, watch_time: v.1 }),
            None => None,
        }
    }

    /// Add (or subtract) from the balance of a single user, creating the
    /// row with watch time zero if none exists.
    pub fn balance_add(&mut self, channel: &str, user: &str, amount: i64)
        requires
            old(self).wf(),
        ensures
            final(self).wf(),
            final(self)@ == bump(
                old(self)@,
                (canon_channel(channel@), lower_of(user@)),
                amount as int,
                0,
            ),
    {
        let ch = channel_id(channel);
        let us = user_id(user);
        self.db.upsert_add(ch, us, amount, 0);
    }

    /// Add the same balance and watch-time deltas to every listed user.
    pub fn balances_increment(
        &mut self,
        channel: &str,
        users: &Vec<String>,
        amount: i64,
        watch_time: i64,
    )
        requires
            old(self).wf(),
            watch_time >= 0,
        ensures
            final(self).wf(),
            final(self)@ == bump_all(
                old(self)@,
                canon_channel(channel@),
                names_of(users@),
                amount as int,
                watch_time as int,
            ),
    {
        let ch = channel_id(channel);
        let ghost chan = canon_channel(channel@);
        let ghost names = names_of(users@);
        let n = users.len();
        let mut i: usize = 0;
        while i < n
            invariant
                0 <= i <= n,
                n == users@.len(),
                names == names_of(users@),
                ch@ == chan,
                crate::normalize::is_canon_channel(ch@),
                self.wf(),
                self@ == bump_all(old(self)@, chan, names.take(i as int), amount as int,
                    watch_time as int,
                ),
                watch_time >= 0,
            decreases n - i,
        {
            let us = user_id(users[i].as_str());
            self.db.upsert_add(ch.clone(), us, amount, watch_time);
            proof {
                assert(names.take(i as int + 1).drop_last() =~= names.take(i as int));
                assert(names.take(i as int + 1).last() == users@[i as int]@);
            }
            i = i + 1;
        }
        proof {
            assert(names.take(n as int) =~= names);
        }
    }

    /// Transfer `amount` from the giver to the taker on one channel as one
    /// atomic unit: either both rows move or neither is touched.  Fails
    /// with `NoBalance` exactly when the giver's recorded balance is below
    /// the amount and no override was requested; an override may drive the
    /// giver negative.
    pub fn balance_transfer(
        &mut self,
        channel: &str,
        giver: &str,
        taker: &str,
        amount: i64,
        override_balance: bool,
    ) -> (r: Result<(), BalanceTransferError>)
        requires
            old(self).wf(),
            amount != i64::MIN,
        ensures
            final(self).wf(),
            ({
                let chan = canon_channel(channel@);
                let gk = (chan, lower_of(giver@));
                let tk = (chan, lower_of(taker@));
                let gb = crate::store::stored(old(self)@, gk).amount;
                &&& (r is Err <==> gb < amount && !override_balance)
                &&& (r is Err ==> r == Result::<(), BalanceTransferError>::Err(
                    BalanceTransferError::NoBalance,
                ) && final(self)@ == old(self)@)
                &&& (r is Ok ==> final(self)@ == bump(
                    bump(old(self)@, tk, amount as int, 0),
                    gk,
                    -(amount as int),
                    0,
                ))
            }),
    {
        let ch = channel_id(channel);
        let gv = user_id(giver);
        let tk = user_id(taker);

        let balance = match self.db.get(&ch, &gv) {
            Some(v) => v.0,
            None => 0,
        };

        if balance < amount && !override_balance {
            return Err(BalanceTransferError::NoBalance);
        }

        self.db.upsert_add(ch.clone(), tk, amount, 0);
        self.db.upsert_add(ch, gv, -amount, 0);
        Ok(())
    }

    /// A copy of every row, in storage order.
    pub fn export_balances(&self) -> (r: Vec<Balance>)
        ensures
            r@ == self.rows(),
    {
        self.db.export()
    }

    /// Import records: each one overwrites (or creates) the row it
    /// addresses; its channel is normalized and a negative watch time is
    /// clamped to zero on the way in.
    pub fn import_balances(&mut self, balances: &Vec<Balance>)
        requires
            old(self).wf(),
        ensures
            final(self).wf(),
            final(self)@ == import_all(old(self)@, balances@),
    {
        let n = balances.len();
        let mut i: usize = 0;
        while i < n
            invariant
                0 <= i <= n,
                n == balances@.len(),
                self.wf(),
                self@ == import_all(old(self)@, balances@.take(i as int)),
            decreases n - i,
        {
            let b = &balances[i];
            let ch = channel_id(b.channel.as_str());
            let wt = if b.watch_time < 0 {
                0
            } else {
                b.watch_time
            };
            self.db.upsert_set(ch, b.user.clone(), b.amount, wt);
            proof {
                assert(balances@.take(i as int + 1).drop_last() =~= balances@.take(i as int));
                assert(balances@.take(i as int + 1).last() == balances@[i as int]);
            }
            i = i + 1;
        }
        proof {
            assert(balances@.take(n as int) =~= balances@);
        }
    }
}

} // verus!
