//! The verified balances table: one row per (channel, user) pair, read and
//! written through read-modify-write operations that mirror what the
//! embedded backend runs inside a single local transaction.
use vstd::prelude::*;

use crate::balance::{Balance, clone_record};
use crate::normalize::is_canon_channel;

verus! {

/// Abstract content of one row: the stored amount and watch time.
pub ghost struct Account {
    pub amount: int,
    pub watch_time: int,
}

/// Abstract key of a row.
pub type LedgerKey = (Seq<char>, Seq<char>);

/// Clamp a mathematical integer into the signed 64-bit range, the way
/// saturating arithmetic does.
pub open spec fn sat64(v: int) -> int {
    if v > i64::MAX {
        i64::MAX as int
    } else if v < i64::MIN {
        i64::MIN as int
    } else {
        v
    }
}

pub open spec fn key_of(b: Balance) -> LedgerKey {
    (b.channel@, b.user@)
}

pub open spec fn account_of(b: Balance) -> Account {
    Account { amount: b.amount as int, watch_time: b.watch_time as int }
}

/// The map a sequence of rows denotes; later rows win on a repeated key.
pub open spec fn map_of(s: Seq<Balance>) -> Map<LedgerKey, Account>
    decreases s.len(),
{
    if s.len() == 0 {
        Map::empty()
    } else {
        map_of(s.drop_last()).insert(key_of(s.last()), account_of(s.last()))
    }
}

/// The account a map stores under a key; a missing row reads as zero.
pub open spec fn stored(m: Map<LedgerKey, Account>, k: LedgerKey) -> Account {
    if m.contains_key(k) {
        m[k]
    } else {
        Account { amount: 0, watch_time: 0 }
    }
}

/// One upsert-add: both fields of the addressed row move by the given
/// deltas, saturating at the representable bounds; a missing row starts
/// from zero.
pub open spec fn bump(m: Map<LedgerKey, Account>, k: LedgerKey, amount: int, watch_time: int)
    -> Map<LedgerKey, Account> {
    m.insert(
        k,
        Account {
            amount: sat64(stored(m, k).amount + amount),
            watch_time: sat64(stored(m, k).watch_time + watch_time),
        },
    )
}

/// One upsert-overwrite: the addressed row is set to exactly the given
/// values, whatever it held before.
pub open spec fn overwrite(m: Map<LedgerKey, Account>, k: LedgerKey, amount: int, watch_time: int)
    -> Map<LedgerKey, Account> {
    m.insert(k, Account { amount, watch_time })
}

pub open spec fn unique_keys(s: Seq<Balance>) -> bool {
    forall|i: int, j: int| 0 <= i < j < s.len() ==> key_of(s[i]) != key_of(s[j])
}

/// Row-set well-formedness: distinct keys, canonical channel names, and
/// non-negative watch times.
pub open spec fn wf_records(s: Seq<Balance>) -> bool {
    &&& unique_keys(s)
    &&& forall|i: int| 0 <= i < s.len() ==> is_canon_channel(#[trigger] s[i].channel@)
    &&& forall|i: int| 0 <= i < s.len() ==> #[trigger] s[i].watch_time >= 0
}

pub proof fn lemma_map_of_contains(s: Seq<Balance>, k: LedgerKey)
    ensures
        map_of(s).contains_key(k) <==> exists|i: int| 0 <= i < s.len() && key_of(s[i]) == k,
    decreases s.len(),
{
    if s.len() > 0 {
        lemma_map_of_contains(s.drop_last(), k);
        if map_of(s).contains_key(k) {
            if key_of(s.last()) == k {
                assert(key_of(s[s.len() - 1]) == k);
            } else {
                let i = choose|i: int| 0 <= i < s.drop_last().len() && key_of(s.drop_last()[i]) == k;
                assert(key_of(s[i]) == k);
            }
        }
        if exists|i: int| 0 <= i < s.len() && key_of(s[i]) == k {
            let i = choose|i: int| 0 <= i < s.len() && key_of(s[i]) == k;
            if i < s.len() - 1 {
                assert(key_of(s.drop_last()[i]) == k);
            }
        }
    }
}

pub proof fn lemma_map_of_index(s: Seq<Balance>, i: int)
    requires
        unique_keys(s),
        0 <= i < s.len(),
    ensures
        map_of(s).contains_key(key_of(s[i])),
        map_of(s)[key_of(s[i])] == account_of(s[i]),
    decreases s.len(),
{
    if i == s.len() - 1 {
    } else {
        lemma_map_of_index(s.drop_last(), i);
        assert(s.drop_last()[i] == s[i]);
        assert(key_of(s.last()) != key_of(s[i]));
    }
}

pub proof fn lemma_map_of_update(s: Seq<Balance>, i: int, b: Balance)
    requires
        unique_keys(s),
        0 <= i < s.len(),
        key_of(b) == key_of(s[i]),
    ensures
        map_of(s.update(i, b)) == map_of(s).insert(key_of(b), account_of(b)),
    decreases s.len(),
{
    let t = s.update(i, b);
    if i == s.len() - 1 {
        assert(t.drop_last() =~= s.drop_last());
        assert(t.last() == b);
        assert(map_of(t) == map_of(s.drop_last()).insert(key_of(b), account_of(b)));
        assert(map_of(s).insert(key_of(b), account_of(b)) =~= map_of(s.drop_last()).insert(
            key_of(b),
            account_of(b),
        ));
    } else {
        assert(t.drop_last() =~= s.drop_last().update(i, b));
        assert(t.last() == s.last());
        lemma_map_of_update(s.drop_last(), i, b);
        assert(s.drop_last()[i] == s[i]);
        assert(map_of(t) == map_of(s.drop_last()).insert(key_of(b), account_of(b)).insert(
            key_of(s.last()),
            account_of(s.last()),
        ));
        assert(key_of(s.last()) != key_of(b));
        assert(map_of(s.drop_last()).insert(key_of(b), account_of(b)).insert(
            key_of(s.last()),
            account_of(s.last()),
        ) =~= map_of(s).insert(key_of(b), account_of(b)));
    }
}

/// Every account a row set denotes keeps both of its fields inside the
/// signed 64-bit range, because the rows themselves do; this discharges
/// the range hypotheses of the laws for any table the library built.
pub proof fn lemma_map_of_in_range(s: Seq<Balance>, k: LedgerKey)
    ensures
        i64::MIN <= stored(map_of(s), k).amount <= i64::MAX,
        i64::MIN <= stored(map_of(s), k).watch_time <= i64::MAX,
    decreases s.len(),
{
    if s.len() > 0 {
        lemma_map_of_in_range(s.drop_last(), k);
    }
}

/// Saturating signed 64-bit addition.
pub fn saturating_add_i64(a: i64, b: i64) -> (r: i64)
    ensures
        r as int == sat64(a as int + b as int),
{
    match a.checked_add(b) {
        Some(v) => v,
        None => {
            if b > 0 {
                i64::MAX
            } else {
                i64::MIN
            }
        },
    }
}

/// The balances table of the embedded backend, held in memory.  All
/// operations run to completion one at a time, which models the single
/// guarded connection and its per-operation local transaction.
pub struct MemoryStore {
    records: Vec<Balance>,
}

impl View for MemoryStore {
    type V = Map<LedgerKey, Account>;

    open spec fn view(&self) -> Map<LedgerKey, Account> {
        map_of(self.rows())
    }
}

impl MemoryStore {
    /// The rows of the table, in storage order.
    pub closed spec fn rows(&self) -> Seq<Balance> {
        self.records@
    }

    /// Validity of the table: one row per key, canonical channels,
    /// non-negative watch times.
    pub open spec fn wf(&self) -> bool {
        wf_records(self.rows())
    }

    /// An empty table.
    pub fn new() -> (r: MemoryStore)
        ensures
            r.wf(),
            r@ == Map::<LedgerKey, Account>::empty(),
            r.rows() == Seq::<Balance>::empty(),
    {
        MemoryStore { records: Vec::new() }
    }

    /// Index of the row with the given key, if one exists.
    fn find(&self, channel: &String, user: &String) -> (r: Option<usize>)
        ensures
            match r {
                Some(i) => i < self.rows().len() && key_of(self.rows()[i as int]) == (
                    channel@,
                    user@,
                ),
                None => !self@.contains_key((channel@, user@)),
            },
    {
        let n = self.records.len();
        let mut i: usize = 0;
        while i < n
            invariant
                0 <= i <= n,
                n == self.records@.len(),
                forall|j: int| 0 <= j < i ==> key_of(self.records@[j]) != (channel@, user@),
            decreases n - i,
        {
            let rec = &self.records[i];
            if rec.channel == *channel && rec.user == *user {
                return Some(i);
            }
            i = i + 1;
        }
        proof {
            lemma_map_of_contains(self.records@, (channel@, user@));
        }
        None
    }

    /// Read one row.  `Some` exactly when a row exists, carrying its
    /// amount and watch time.
    pub fn get(&self, channel: &String, user: &String) -> (r: Option<(i64, i64)>)
        requires
            self.wf(),
        ensures
            match r {
                Some(v) => self@.contains_key((channel@, user@)) && v.0 as int == self@[(
                    channel@,
                    user@,
                )].amount && v.1 as int == self@[(channel@, user@)].watch_time,
                None => !self@.contains_key((channel@, user@)),
            },
    {
        match self.find(channel, user) {
            Some(i) => {
                proof {
                    lemma_map_of_index(self.records@, i as int);
                }
                let rec = &self.records[i];
                Some((rec.amount, rec.watch_time))
            },
            None => None,
        }
    }

    /// Upsert-add: move the row's amount and watch time by the given
    /// deltas with saturating arithmetic, materializing the row from zero
    /// if it does not exist yet.
    pub fn upsert_add(&mut self, channel: String, user: String, amount: i64, watch_time: i64)
        requires
            old(self).wf(),
            is_canon_channel(channel@),
            watch_time >= 0,
        ensures
            final(self).wf(),
            final(self)@ == bump(old(self)@, (channel@, user@), amount as int, watch_time as int),
    {
        let ghost k = (channel@, user@);
        match self.find(&channel, &user) {
            Some(i) => {
                proof {
                    lemma_map_of_index(self.records@, i as int);
                }
                let new_amount = saturating_add_i64(self.records[i].amount, amount);
                let new_watch_time = saturating_add_i64(self.records[i].watch_time, watch_time);
                let ghost s0 = self.records@;
                let rec = &mut self.records[i];
                rec.amount = new_amount;
                rec.watch_time = new_watch_time;
                proof {
                    lemma_map_of_update(s0, i as int, self.records@[i as int]);
                    assert(self.records@ =~= s0.update(i as int, self.records@[i as int]));
                    assert forall|p: int, q: int| 0 <= p < q < self.records@.len() implies key_of(
                        self.records@[p],
                    ) != key_of(self.records@[q]) by {
                        assert(key_of(self.records@[p]) == key_of(s0[p]));
                        assert(key_of(self.records@[q]) == key_of(s0[q]));
                    }
                    assert(final(self)@ =~= bump(old(self)@, k, amount as int, watch_time as int));
                }
            },
            None => {
                proof {
                    lemma_map_of_contains(self.records@, k);
                }
                let ghost s0 = self.records@;
                let rec = Balance { channel, user, amount, watch_time };
                self.records.push(rec);
                proof {
                    assert(self.records@.drop_last() =~= s0);
                    assert forall|p: int, q: int| 0 <= p < q < self.records@.len() implies key_of(
                        self.records@[p],
                    ) != key_of(self.records@[q]) by {
                        if q == self.records@.len() - 1 {
                            assert(key_of(s0[p]) != k);
                        }
                    }
                    assert(final(self)@ =~= bump(old(self)@, k, amount as int, watch_time as int));
                }
            },
        }
    }

    /// Upsert-overwrite: set the row to exactly the given values,
    /// materializing it if it does not exist yet.
    pub fn upsert_set(&mut self, channel: String, user: String, amount: i64, watch_time: i64)
        requires
            old(self).wf(),
            is_canon_channel(channel@),
            watch_time >= 0,
        ensures
            final(self).wf(),
            final(self)@ == overwrite(old(self)@, (channel@, user@), amount as int,
                watch_time as int,
            ),
    {
        let ghost k = (channel@, user@);
        match self.find(&channel, &user) {
            Some(i) => {
                let ghost s0 = self.records@;
                let rec = &mut self.records[i];
                rec.amount = amount;
                rec.watch_time = watch_time;
                proof {
                    lemma_map_of_update(s0, i as int, self.records@[i as int]);
                    assert(self.records@ =~= s0.update(i as int, self.records@[i as int]));
                    assert forall|p: int, q: int| 0 <= p < q < self.records@.len() implies key_of(
                        self.records@[p],
                    ) != key_of(self.records@[q]) by {
                        assert(key_of(self.records@[p]) == key_of(s0[p]));
                        assert(key_of(self.records@[q]) == key_of(s0[q]));
                    }
                    assert(final(self)@ =~= overwrite(old(self)@, k, amount as int,
                        watch_time as int,
                    ));
                }
            },
            None => {
                proof {
                    lemma_map_of_contains(self.records@, k);
                }
                let ghost s0 = self.records@;
                let rec = Balance { channel, user, amount, watch_time };
                self.records.push(rec);
                proof {
                    assert(self.records@.drop_last() =~= s0);
                    assert forall|p: int, q: int| 0 <= p < q < self.records@.len() implies key_of(
                        self.records@[p],
                    ) != key_of(self.records@[q]) by {
                        if q == self.records@.len() - 1 {
                            assert(key_of(s0[p]) != k);
                        }
                    }
                    assert(final(self)@ =~= overwrite(old(self)@, k, amount as int,
                        watch_time as int,
                    ));
                }
            },
        }
    }

    /// A copy of every row, in storage order.
    pub fn export(&self) -> (r: Vec<Balance>)
        ensures
            r@ == self.rows(),
    {
        let n = self.records.len();
        let mut r: Vec<Balance> = Vec::new();
        let mut i: usize = 0;
        while i < n
            invariant
                0 <= i <= n,
                n == self.records@.len(),
                r@ =~= self.records@.take(i as int),
            decreases n - i,
        {
            r.push(clone_record(&self.records[i]));
            proof {
                assert(r@ =~= self.records@.take(i as int + 1));
            }
            i = i + 1;
        }
        proof {
            assert(r@ =~= self.records@);
        }
        r
    }

    /// A fresh table holding a copy of every row of this one.
    pub fn snapshot(&self) -> (r: MemoryStore)
        ensures
            r.rows() == self.rows(),
            r@ == self@,
            self.wf() ==> r.wf(),
    {
        MemoryStore { records: self.export() }
    }
}

} // verus!
