//! Laws of the ledger that relate several operations: conservation of
//! value under transfers, order-independence of bulk rewards, and the
//! export/import round trip.
use vstd::map::*;
use vstd::prelude::*;

use crate::balance::Balance;
use crate::builtin::{bump_all, import_account, import_all, import_key};
use crate::normalize::{lemma_canon_idempotent, lower_of};
use crate::store::{
    Account, LedgerKey, account_of, bump, key_of, lemma_map_of_contains, lemma_map_of_index,
    map_of, sat64, stored, wf_records,
};

verus! {

/// The two rows a committed transfer writes: the taker's is bumped up by
/// the amount, then the giver's down by it.
pub open spec fn transfer_result(
    m: Map<LedgerKey, Account>,
    gk: LedgerKey,
    tk: LedgerKey,
    amount: int,
) -> Map<LedgerKey, Account> {
    bump(bump(m, tk, amount, 0), gk, -amount, 0)
}

/// One committed transfer between two distinct users conserves the sum of
/// their balances, leaves both watch times alone, and touches no other
/// row — provided neither updated balance hits the representable bounds,
/// where saturation would otherwise lose value.
pub proof fn lemma_transfer_conserves_sum(
    m: Map<LedgerKey, Account>,
    gk: LedgerKey,
    tk: LedgerKey,
    amount: int,
)
    requires
        gk != tk,
        i64::MIN <= stored(m, tk).amount + amount <= i64::MAX,
        i64::MIN <= stored(m, gk).amount - amount <= i64::MAX,
        i64::MIN <= stored(m, gk).watch_time <= i64::MAX,
        i64::MIN <= stored(m, tk).watch_time <= i64::MAX,
    ensures
        ({
            let m2 = transfer_result(m, gk, tk, amount);
            &&& stored(m2, gk).amount + stored(m2, tk).amount == stored(m, gk).amount + stored(
                m,
                tk,
            ).amount
            &&& stored(m2, gk).amount == stored(m, gk).amount - amount
            &&& stored(m2, tk).amount == stored(m, tk).amount + amount
            &&& stored(m2, gk).watch_time == stored(m, gk).watch_time
            &&& stored(m2, tk).watch_time == stored(m, tk).watch_time
            &&& forall|k: LedgerKey| k != gk && k != tk ==> stored(m2, k) == stored(m, k)
                && (m2.contains_key(k) <==> m.contains_key(k))
        }),
{
    let m2 = transfer_result(m, gk, tk, amount);
    let mid = bump(m, tk, amount, 0);
    assert(stored(mid, gk) == stored(m, gk));
    assert(stored(m2, tk) == stored(mid, tk));
    assert forall|k: LedgerKey| k != gk && k != tk implies stored(m2, k) == stored(m, k) && (
    m2.contains_key(k) <==> m.contains_key(k)) by {
        assert(stored(mid, k) == stored(m, k));
    }
}

/// One step of a two-party transfer history: who gives, and how much.
pub open spec fn transfer_step(
    m: Map<LedgerKey, Account>,
    ak: LedgerKey,
    bk: LedgerKey,
    from_a: bool,
    amount: int,
) -> Map<LedgerKey, Account> {
    if from_a {
        transfer_result(m, ak, bk, amount)
    } else {
        transfer_result(m, bk, ak, amount)
    }
}

/// A history of transfers between two users, applied left to right.
pub open spec fn run_transfers(
    m: Map<LedgerKey, Account>,
    ak: LedgerKey,
    bk: LedgerKey,
    ts: Seq<(bool, int)>,
) -> Map<LedgerKey, Account>
    decreases ts.len(),
{
    if ts.len() == 0 {
        m
    } else {
        transfer_step(run_transfers(m, ak, bk, ts.drop_last()), ak, bk, ts.last().0, ts.last().1)
    }
}

/// Every step of the history commits without an override — the giver of
/// the moment has the funds — and without saturating either balance.
pub open spec fn run_ok(
    m: Map<LedgerKey, Account>,
    ak: LedgerKey,
    bk: LedgerKey,
    ts: Seq<(bool, int)>,
) -> bool
    decreases ts.len(),
{
    if ts.len() == 0 {
        true
    } else {
        let p = run_transfers(m, ak, bk, ts.drop_last());
        let gk = if ts.last().0 {
            ak
        } else {
            bk
        };
        let tk = if ts.last().0 {
            bk
        } else {
            ak
        };
        &&& run_ok(m, ak, bk, ts.drop_last())
        &&& stored(p, gk).amount >= ts.last().1
        &&& i64::MIN <= stored(p, tk).amount + ts.last().1 <= i64::MAX
        &&& i64::MIN <= stored(p, gk).amount - ts.last().1 <= i64::MAX
    }
}

/// Conservation: over any history of committed transfers between two
/// distinct users, the sum of their two balances never changes, and no
/// other user's row is touched.
pub proof fn lemma_run_transfers_conservation(
    m: Map<LedgerKey, Account>,
    ak: LedgerKey,
    bk: LedgerKey,
    ts: Seq<(bool, int)>,
)
    requires
        ak != bk,
        run_ok(m, ak, bk, ts),
        i64::MIN <= stored(m, ak).watch_time <= i64::MAX,
        i64::MIN <= stored(m, bk).watch_time <= i64::MAX,
    ensures
        ({
            let m2 = run_transfers(m, ak, bk, ts);
            &&& stored(m2, ak).amount + stored(m2, bk).amount == stored(m, ak).amount + stored(
                m,
                bk,
            ).amount
            &&& stored(m2, ak).watch_time == stored(m, ak).watch_time
            &&& stored(m2, bk).watch_time == stored(m, bk).watch_time
            &&& forall|k: LedgerKey| k != ak && k != bk ==> stored(m2, k) == stored(m, k)
                && (m2.contains_key(k) <==> m.contains_key(k))
        }),
    decreases ts.len(),
{
    if ts.len() > 0 {
        lemma_run_transfers_conservation(m, ak, bk, ts.drop_last());
        let p = run_transfers(m, ak, bk, ts.drop_last());
        if ts.last().0 {
            lemma_transfer_conserves_sum(p, ak, bk, ts.last().1);
        } else {
            lemma_transfer_conserves_sum(p, bk, ak, ts.last().1);
        }
    }
}

/// A bulk reward leaves every row outside the rewarded keys untouched.
pub proof fn lemma_bump_all_untouched(
    m: Map<LedgerKey, Account>,
    chan: Seq<char>,
    users: Seq<Seq<char>>,
    amount: int,
    watch_time: int,
    k: LedgerKey,
)
    requires
        forall|i: int| 0 <= i < users.len() ==> (chan, lower_of(#[trigger] users[i])) != k,
    ensures
        bump_all(m, chan, users, amount, watch_time).contains_key(k) <==> m.contains_key(k),
        stored(bump_all(m, chan, users, amount, watch_time), k) == stored(m, k),
    decreases users.len(),
{
    if users.len() > 0 {
        assert(users[users.len() - 1] == users.last());
        lemma_bump_all_untouched(m, chan, users.drop_last(), amount, watch_time, k);
        assert forall|i: int| 0 <= i < users.drop_last().len() implies (
        chan,
        lower_of(#[trigger] users.drop_last()[i]),
        ) != k by {
            assert(users.drop_last()[i] == users[i]);
        }
    }
}

/// A bulk reward whose users fold to pairwise distinct names moves every
/// rewarded row by exactly the deltas, once.
pub proof fn lemma_bump_all_pointwise(
    m: Map<LedgerKey, Account>,
    chan: Seq<char>,
    users: Seq<Seq<char>>,
    amount: int,
    watch_time: int,
    i: int,
)
    requires
        0 <= i < users.len(),
        forall|p: int, q: int| 0 <= p < q < users.len() ==> lower_of(#[trigger] users[p])
            != lower_of(#[trigger] users[q]),
    ensures
        ({
            let k = (chan, lower_of(users[i]));
            let r = bump_all(m, chan, users, amount, watch_time);
            &&& r.contains_key(k)
            &&& r[k] == Account {
                amount: sat64(stored(m, k).amount + amount),
                watch_time: sat64(stored(m, k).watch_time + watch_time),
            }
        }),
    decreases users.len(),
{
    let k = (chan, lower_of(users[i]));
    let prev = bump_all(m, chan, users.drop_last(), amount, watch_time);
    if i == users.len() - 1 {
        assert(users.last() == users[i]);
        assert forall|p: int| 0 <= p < users.drop_last().len() implies (
        chan,
        lower_of(#[trigger] users.drop_last()[p]),
        ) != k by {
            assert(users.drop_last()[p] == users[p]);
            assert(lower_of(users[p]) != lower_of(users[i]));
        }
        lemma_bump_all_untouched(m, chan, users.drop_last(), amount, watch_time, k);
    } else {
        assert forall|p: int, q: int| 0 <= p < q < users.drop_last().len() implies lower_of(
            #[trigger] users.drop_last()[p],
        ) != lower_of(#[trigger] users.drop_last()[q]) by {
            assert(users.drop_last()[p] == users[p]);
            assert(users.drop_last()[q] == users[q]);
        }
        assert(users.drop_last()[i] == users[i]);
        lemma_bump_all_pointwise(m, chan, users.drop_last(), amount, watch_time, i);
        assert(users.last() == users[users.len() - 1]);
        assert(lower_of(users[i]) != lower_of(users[users.len() - 1]));
    }
}

/// Order-independence of a bulk reward: two user lists that fold to the
/// same set of distinct names produce the same table, whatever order each
/// lists them in.
pub proof fn lemma_bump_all_order_irrelevant(
    m: Map<LedgerKey, Account>,
    chan: Seq<char>,
    us1: Seq<Seq<char>>,
    us2: Seq<Seq<char>>,
    amount: int,
    watch_time: int,
)
    requires
        forall|p: int, q: int| 0 <= p < q < us1.len() ==> lower_of(#[trigger] us1[p]) != lower_of(
            #[trigger] us1[q],
        ),
        forall|p: int, q: int| 0 <= p < q < us2.len() ==> lower_of(#[trigger] us2[p]) != lower_of(
            #[trigger] us2[q],
        ),
        forall|i: int| 0 <= i < us1.len() ==> exists|j: int| 0 <= j < us2.len() && lower_of(
            #[trigger] us2[j],
        ) == lower_of(#[trigger] us1[i]),
        forall|j: int| 0 <= j < us2.len() ==> exists|i: int| 0 <= i < us1.len() && lower_of(
            #[trigger] us1[i],
        ) == lower_of(#[trigger] us2[j]),
    ensures
        bump_all(m, chan, us1, amount, watch_time) == bump_all(m, chan, us2, amount, watch_time),
{
    let r1 = bump_all(m, chan, us1, amount, watch_time);
    let r2 = bump_all(m, chan, us2, amount, watch_time);
    assert_maps_equal!(r1, r2, k => {
        if exists|i: int| 0 <= i < us1.len() && k == (chan, lower_of(#[trigger] us1[i])) {
            let i = choose|i: int| 0 <= i < us1.len() && k == (chan, lower_of(#[trigger] us1[i]));
            let j = choose|j: int| 0 <= j < us2.len() && lower_of(#[trigger] us2[j]) == lower_of(
                us1[i],
            );
            lemma_bump_all_pointwise(m, chan, us1, amount, watch_time, i);
            lemma_bump_all_pointwise(m, chan, us2, amount, watch_time, j);
        } else {
            assert forall|p: int| 0 <= p < us1.len() implies (chan, lower_of(#[trigger] us1[p]))
                != k by {}
            assert forall|p: int| 0 <= p < us2.len() implies (chan, lower_of(#[trigger] us2[p]))
                != k by {
                if (chan, lower_of(us2[p])) == k {
                    let i = choose|i: int| 0 <= i < us1.len() && lower_of(#[trigger] us1[i])
                        == lower_of(us2[p]);
                    assert((chan, lower_of(us1[i])) == k);
                }
            }
            lemma_bump_all_untouched(m, chan, us1, amount, watch_time, k);
            lemma_bump_all_untouched(m, chan, us2, amount, watch_time, k);
            assert(r1.contains_key(k) <==> m.contains_key(k));
            assert(r2.contains_key(k) <==> m.contains_key(k));
            if r1.contains_key(k) {
                assert(r1[k] == stored(m, k) && r2[k] == stored(m, k));
            }
        }
    });
}

/// What an import run leaves under one key: the account of the last
/// record addressing that key, or whatever was there if none does.
pub open spec fn import_lookup(s: Seq<Balance>, k: LedgerKey) -> Option<Account>
    decreases s.len(),
{
    if s.len() == 0 {
        None
    } else if import_key(s.last()) == k {
        Some(import_account(s.last()))
    } else {
        import_lookup(s.drop_last(), k)
    }
}

pub proof fn lemma_import_all_lookup(m: Map<LedgerKey, Account>, s: Seq<Balance>, k: LedgerKey)
    ensures
        match import_lookup(s, k) {
            Some(a) => import_all(m, s).contains_key(k) && import_all(m, s)[k] == a,
            None => (import_all(m, s).contains_key(k) <==> m.contains_key(k)) && (m.contains_key(k)
                ==> import_all(m, s)[k] == m[k]),
        },
    decreases s.len(),
{
    if s.len() > 0 {
        lemma_import_all_lookup(m, s.drop_last(), k);
    }
}

pub proof fn lemma_import_lookup_none(s: Seq<Balance>, k: LedgerKey)
    ensures
        import_lookup(s, k) is None <==> forall|i: int| 0 <= i < s.len() ==> import_key(
            #[trigger] s[i],
        ) != k,
    decreases s.len(),
{
    if s.len() > 0 {
        lemma_import_lookup_none(s.drop_last(), k);
        if import_lookup(s, k) is None {
            assert forall|i: int| 0 <= i < s.len() implies import_key(#[trigger] s[i]) != k by {
                if i < s.len() - 1 {
                    assert(s.drop_last()[i] == s[i]);
                }
            }
        } else {
            if import_key(s.last()) == k {
                assert(import_key(s[s.len() - 1]) == k);
            } else {
                let i = choose|i: int|
                    0 <= i < s.drop_last().len() && import_key(#[trigger] s.drop_last()[i]) == k;
                assert(import_key(s[i]) == k);
            }
        }
    }
}

/// With pairwise-distinct import keys, the lookup finds each record.
pub proof fn lemma_import_lookup_unique(s: Seq<Balance>, i: int)
    requires
        0 <= i < s.len(),
        forall|p: int, q: int| 0 <= p < q < s.len() ==> import_key(#[trigger] s[p]) != import_key(
            #[trigger] s[q],
        ),
    ensures
        import_lookup(s, import_key(s[i])) == Some(import_account(s[i])),
    decreases s.len(),
{
    if i == s.len() - 1 {
        assert(s.last() == s[i]);
    } else {
        assert(import_key(s.last()) == import_key(s[s.len() - 1]));
        assert(import_key(s[s.len() - 1]) != import_key(s[i]));
        assert forall|p: int, q: int| 0 <= p < q < s.drop_last().len() implies import_key(
            #[trigger] s.drop_last()[p],
        ) != import_key(#[trigger] s.drop_last()[q]) by {
            assert(s.drop_last()[p] == s[p]);
            assert(s.drop_last()[q] == s[q]);
        }
        assert(s.drop_last()[i] == s[i]);
        lemma_import_lookup_unique(s.drop_last(), i);
    }
}

/// Importing what an export returned is a no-op: every balance and watch
/// time is left exactly as it was.
pub proof fn lemma_export_import_identity(s: Seq<Balance>)
    requires
        wf_records(s),
    ensures
        import_all(map_of(s), s) == map_of(s),
{
    let m = map_of(s);
    let r = import_all(m, s);
    assert forall|i: int| 0 <= i < s.len() implies import_key(#[trigger] s[i]) == key_of(s[i])
        && import_account(s[i]) == account_of(s[i]) by {
        lemma_canon_idempotent(s[i].channel@);
    }
    assert_maps_equal!(r, m, k => {
        lemma_import_all_lookup(m, s, k);
        lemma_import_lookup_none(s, k);
        if import_lookup(s, k) is Some {
            lemma_map_of_contains(s, k);
            let i = choose|i: int| 0 <= i < s.len() && import_key(#[trigger] s[i]) == k;
            assert forall|p: int, q: int| 0 <= p < q < s.len() implies import_key(#[trigger] s[p])
                != import_key(#[trigger] s[q]) by {
                assert(key_of(s[p]) != key_of(s[q]));
            }
            lemma_import_lookup_unique(s, i);
            lemma_map_of_index(s, i);
        }
    });
}

/// Importing the same records a second time changes nothing beyond the
/// first import: an import overwrites, it does not accumulate.
pub proof fn lemma_import_idempotent(m: Map<LedgerKey, Account>, s: Seq<Balance>)
    ensures
        import_all(import_all(m, s), s) == import_all(m, s),
{
    let m1 = import_all(m, s);
    let m2 = import_all(m1, s);
    assert_maps_equal!(m2, m1, k => {
        lemma_import_all_lookup(m, s, k);
        lemma_import_all_lookup(m1, s, k);
    });
}

} // verus!
