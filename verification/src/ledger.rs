//! The ledger facade: one active backend, normalization of identifiers,
//! the transfer protocol, aggregate operations, and the builder that
//! assembles a currency from configuration.
use vstd::prelude::*;

use crate::balance::{Balance, BalanceOf};
use crate::builtin;
use crate::builtin::{bump_all, import_all, names_of};
use crate::errors::{BalanceTransferError, Error};
use crate::mysql;
use crate::mysql::Schema;
use crate::normalize::canon_channel;
use crate::normalize::lower_of;
use crate::roster::{Chatters, UserSet, lemma_set_of_names_take_step, set_of_names,
    user_set_contents};
use crate::store::{Account, LedgerKey, MemoryStore, bump, map_of, stored, wf_records};

verus! {

/// Which storage engine a currency runs on.
#[derive(Clone, Copy, PartialEq, Eq, Structural, Debug)]
pub enum BackendType {
    /// The embedded single-writer store.
    BuiltIn,
    /// A networked relational store, mapped by the configured schema.
    Mysql,
    /// A networked relational store with the fixed legacy mapping.
    Honkos,
}

impl Default for BackendType {
    fn default() -> (r: BackendType)
        ensures
            r == BackendType::BuiltIn,
    {
        BackendType::BuiltIn
    }
}

/// The currency being used: a name, a flag for its command surface, and
/// the active backend.
pub struct Currency {
    pub name: String,
    pub command_enabled: bool,
    pub backend: builtin::Backend,
}

impl View for Currency {
    type V = Map<LedgerKey, Account>;

    open spec fn view(&self) -> Map<LedgerKey, Account> {
        map_of(self.rows())
    }
}

impl Currency {
    /// The rows of the active backend's table, in storage order.
    pub closed spec fn rows(&self) -> Seq<Balance> {
        self.backend.rows()
    }

    pub open spec fn wf(&self) -> bool {
        wf_records(self.rows())
    }

    /// A currency over the embedded backend, on the given table.
    pub fn new(name: String, command_enabled: bool, db: MemoryStore) -> (r: Currency)
        ensures
            r.name == name,
            r.command_enabled == command_enabled,
            r.rows() == db.rows(),
            r@ == db@,
            db.wf() ==> r.wf(),
    {
        Currency { name, command_enabled, backend: builtin::Backend::new(db) }
    }

    /// Find one user's balance; `None` when no record exists.
    pub fn balance_of(&self, channel: &str, user: &str) -> (r: Result<Option<BalanceOf>, Error>)
        requires
            self.wf(),
        ensures
            r is Ok,
            ({
                let k = (canon_channel(channel@), lower_of(user@));
                match r->Ok_0 {
                    Some(b) => self@.contains_key(k) && b.balance as int == self@[k].amount
                        && b.watch_time as int == self@[k].watch_time,
                    None => !self@.contains_key(k),
                }
            }),
    {
        Ok(self.backend.balance_of(channel, user))
    }

    /// Add (or subtract) from the balance of a single user; the record is
    /// created with watch time zero if none existed, and the addition
    /// saturates at the representable bounds.
    pub fn balance_add(&mut self, channel: &str, user: &str, amount: i64) -> (r: Result<(), Error>)
        requires
            old(self).wf(),
        ensures
            final(self).wf(),
            final(self).name == old(self).name,
            final(self).command_enabled == old(self).command_enabled,
            r is Ok,
            final(self)@ == bump(
                old(self)@,
                (canon_channel(channel@), lower_of(user@)),
                amount as int,
                0,
            ),
    {
        self.backend.balance_add(channel, user, amount);
        Ok(())
    }

    /// Add the same balance and watch-time deltas to every listed user,
    /// one upsert-add per user, left to right.
    pub fn balances_increment(
        &mut self,
        channel: &str,
        users: &Vec<String>,
        amount: i64,
        watch_time: i64,
    ) -> (r: Result<(), Error>)
        requires
            old(self).wf(),
            watch_time >= 0,
        ensures
            final(self).wf(),
            final(self).name == old(self).name,
            final(self).command_enabled == old(self).command_enabled,
            r is Ok,
            final(self)@ == bump_all(
                old(self)@,
                canon_channel(channel@),
                names_of(users@),
                amount as int,
                watch_time as int,
            ),
    {
        self.backend.balances_increment(channel, users, amount, watch_time);
        Ok(())
    }

    /// Transfer `amount` from the giver to the taker on one channel.
    /// Fails with `NoBalance` exactly when the giver's recorded balance
    /// is below the amount and no override was requested, leaving every
    /// record unchanged; an override always succeeds and may drive the
    /// giver's balance negative.
    pub fn balance_transfer(
        &mut self,
        channel: &str,
        giver: &str,
        taker: &str,
        amount: i64,
        override_balance: bool,
    ) -> (r: Result<(), BalanceTransferError>)
        requires
            old(self).wf(),
            amount != i64::MIN,
        ensures
            final(self).wf(),
            final(self).name == old(self).name,
            final(self).command_enabled == old(self).command_enabled,
            ({
                let chan = canon_channel(channel@);
                let gk = (chan, lower_of(giver@));
                let tk = (chan, lower_of(taker@));
                let gb = stored(old(self)@, gk).amount;
                &&& (r is Err <==> gb < amount && !override_balance)
                &&& (r is Err ==> r == Result::<(), BalanceTransferError>::Err(
                    BalanceTransferError::NoBalance,
                ) && final(self)@ == old(self)@)
                &&& (r is Ok ==> final(self)@ == bump(
                    bump(old(self)@, tk, amount as int, 0),
                    gk,
                    -(amount as int),
                    0,
                ))
            }),
    {
        self.backend.balance_transfer(channel, giver, taker, amount, override_balance)
    }

    /// Reward every distinct user of the roster: the union of viewers,
    /// moderators and broadcaster is deduplicated and each member gets
    /// one upsert-add of the reward and watch time.  Returns how many
    /// distinct users were rewarded.
    pub fn add_channel_all(
        &mut self,
        channel: &str,
        chatters: Chatters,
        reward: i64,
        watch_time: i64,
    ) -> (r: Result<usize, Error>)
        requires
            old(self).wf(),
            watch_time >= 0,
        ensures
            final(self).wf(),
            final(self).name == old(self).name,
            final(self).command_enabled == old(self).command_enabled,
            r is Ok,
            ({
                let roster = set_of_names(chatters.viewers@) + set_of_names(chatters.moderators@)
                    + set_of_names(chatters.broadcaster@);
                &&& r->Ok_0 as nat == roster.len()
                &&& exists|us: Seq<Seq<char>>|
                    {
                        &&& us.no_duplicates()
                        &&& us.to_set() == roster
                        &&& final(self)@ == bump_all(
                            old(self)@,
                            canon_channel(channel@),
                            us,
                            reward as int,
                            watch_time as int,
                        )
                    }
            }),
    {
        let ghost roster = set_of_names(chatters.viewers@) + set_of_names(chatters.moderators@)
            + set_of_names(chatters.broadcaster@);
        let mut users = UserSet::new();

        let n1 = chatters.viewers.len();
        let mut i: usize = 0;
        while i < n1
            invariant
                0 <= i <= n1,
                n1 == chatters.viewers@.len(),
                user_set_contents(users) == set_of_names(chatters.viewers@.take(i as int)),
                user_set_contents(users).finite(),
            decreases n1 - i,
        {
            proof {
                lemma_set_of_names_take_step(chatters.viewers@, i as int);
            }
            users.insert(chatters.viewers[i].clone());
            i = i + 1;
        }
        proof {
            assert(chatters.viewers@.take(n1 as int) =~= chatters.viewers@);
        }

        let n2 = chatters.moderators.len();
        let mut i: usize = 0;
        while i < n2
            invariant
                0 <= i <= n2,
                n2 == chatters.moderators@.len(),
                user_set_contents(users) == set_of_names(chatters.viewers@) + set_of_names(
                    chatters.moderators@.take(i as int),
                ),
                user_set_contents(users).finite(),
            decreases n2 - i,
        {
            proof {
                lemma_set_of_names_take_step(chatters.moderators@, i as int);
                assert(set_of_names(chatters.viewers@) + set_of_names(
                    chatters.moderators@.take(i as int + 1),
                ) =~= (set_of_names(chatters.viewers@) + set_of_names(
                    chatters.moderators@.take(i as int),
                )).insert(chatters.moderators@[i as int]@));
            }
            users.insert(chatters.moderators[i].clone());
            i = i + 1;
        }
        proof {
            assert(chatters.moderators@.take(n2 as int) =~= chatters.moderators@);
        }

        let n3 = chatters.broadcaster.len();
        let mut i: usize = 0;
        while i < n3
            invariant
                0 <= i <= n3,
                n3 == chatters.broadcaster@.len(),
                user_set_contents(users) == set_of_names(chatters.viewers@) + set_of_names(
                    chatters.moderators@,
                ) + set_of_names(chatters.broadcaster@.take(i as int)),
                user_set_contents(users).finite(),
            decreases n3 - i,
        {
            proof {
                lemma_set_of_names_take_step(chatters.broadcaster@, i as int);
                assert(set_of_names(chatters.viewers@) + set_of_names(chatters.moderators@)
                    + set_of_names(chatters.broadcaster@.take(i as int + 1)) =~= (set_of_names(
                    chatters.viewers@,
                ) + set_of_names(chatters.moderators@) + set_of_names(
                    chatters.broadcaster@.take(i as int),
                )).insert(chatters.broadcaster@[i as int]@));
            }
            users.insert(chatters.broadcaster[i].clone());
            i = i + 1;
        }
        proof {
            assert(chatters.broadcaster@.take(n3 as int) =~= chatters.broadcaster@);
            assert(user_set_contents(users) == roster);
        }

        let len = users.len();
        let names = users.into_names();
        let ghost us = names_of(names@);

        self.backend.balances_increment(channel, &names, reward, watch_time);

        proof {
            assert(us.no_duplicates()) by {
                assert forall|p: int, q: int| 0 <= p < q < us.len() implies us[p] != us[q] by {
                    assert(names@[p]@ != names@[q]@);
                }
            }
            assert(us.to_set() =~= roster) by {
                assert forall|x: Seq<char>| us.to_set().contains(x) implies roster.contains(x) by {
                    let p = choose|p: int| 0 <= p < us.len() && us[p] == x;
                    assert(names@[p]@ == x);
                };
                assert forall|x: Seq<char>| roster.contains(x) implies us.to_set().contains(x) by {
                    let p = choose|p: int| 0 <= p < names@.len() && names@[p]@ == x;
                    assert(us[p] == x);
                    assert(us.contains(x));
                };
            }
        }
        Ok(len)
    }

    /// A copy of every record, in storage order.
    pub fn export_balances(&self) -> (r: Result<Vec<Balance>, Error>)
        ensures
            r is Ok,
            r->Ok_0@ == self.rows(),
    {
        Ok(self.backend.export_balances())
    }

    /// Import records: each overwrites (or creates) the record it
    /// addresses — amounts and watch times are set, not summed — so
    /// importing the same records twice is no different from once.
    pub fn import_balances(&mut self, balances: Vec<Balance>) -> (r: Result<(), Error>)
        requires
            old(self).wf(),
        ensures
            final(self).wf(),
            final(self).name == old(self).name,
            final(self).command_enabled == old(self).command_enabled,
            r is Ok,
            final(self)@ == import_all(old(self)@, balances@),
    {
        self.backend.import_balances(&balances);
        Ok(())
    }
}

/// What a builder produced from the current configuration.
pub enum Built {
    /// The currency is disabled, or the configuration is incomplete.
    Inactive,
    /// A currency over the embedded backend, ready to use.
    Active(Currency),
    /// A currency over a networked backend: the adapter to drive a remote
    /// connection with, and the facade settings to apply to it.
    Remote(RemoteCurrency),
}

/// The networked half of a built currency: everything but the connection,
/// which a driver establishes from `backend.url`.
pub struct RemoteCurrency {
    pub name: String,
    pub command_enabled: bool,
    pub backend: mysql::Backend,
}

/// Helper struct to construct a currency from dynamic settings.
pub struct CurrencyBuilder {
    pub ty: BackendType,
    pub enabled: bool,
    pub command_enabled: bool,
    pub name: Option<String>,
    pub db: Option<MemoryStore>,
    pub mysql_url: Option<String>,
    pub mysql_schema: Schema,
}

impl CurrencyBuilder {
    /// A disabled builder over the given schema mapping.
    pub fn new(mysql_schema: Schema) -> (r: CurrencyBuilder)
        ensures
            r.ty == BackendType::BuiltIn,
            !r.enabled,
            !r.command_enabled,
            r.name is None,
            r.db is None,
            r.mysql_url is None,
            r.mysql_schema == mysql_schema,
    {
        CurrencyBuilder {
            ty: BackendType::default(),
            enabled: false,
            command_enabled: false,
            name: None,
            db: None,
            mysql_url: None,
            mysql_schema,
        }
    }

    /// Whether the configuration is complete enough to build anything.
    pub open spec fn buildable(&self) -> bool {
        &&& self.enabled
        &&& self.name is Some
        &&& match self.ty {
            BackendType::BuiltIn => self.db is Some,
            BackendType::Mysql => self.mysql_url is Some,
            BackendType::Honkos => self.mysql_url is Some,
        }
    }

    /// Build a currency from the current settings.  A disabled or
    /// incomplete configuration yields nothing; the embedded kind yields
    /// a ready currency over a copy of the configured table; a networked
    /// kind yields the adapter a driver finishes, with the fixed legacy
    /// mapping substituted for the configured one where the kind asks
    /// for it.
    pub fn build(&self) -> (r: Built)
        ensures
            r is Inactive <==> !self.buildable(),
            r is Active ==> self.ty == BackendType::BuiltIn,
            r is Remote ==> self.ty == BackendType::Mysql || self.ty == BackendType::Honkos,
            (r matches Built::Active(c) ==> {
                &&& c.name == self.name->0
                &&& c.command_enabled == self.command_enabled
                &&& c.rows() == self.db->0.rows()
                &&& c@ == self.db->0@
                &&& (self.db->0.wf() ==> c.wf())
            }),
            (r matches Built::Remote(rc) ==> {
                &&& rc.name == self.name->0
                &&& rc.command_enabled == self.command_enabled
                &&& rc.backend.channel@ == Seq::<char>::empty()
                &&& rc.backend.url == self.mysql_url->0
                &&& (self.ty == BackendType::Mysql ==> rc.backend.schema == self.mysql_schema)
                &&& (self.ty == BackendType::Honkos ==> rc.backend.schema.table@ == "honkos"@
                    && rc.backend.schema.user_column@ == "username"@
                    && rc.backend.schema.balance_column@ == "honko_balance"@)
            }),
    {
        if !self.enabled {
            return Built::Inactive;
        }

        let name = match &self.name {
            Some(name) => name.clone(),
            None => {
                return Built::Inactive;
            },
        };

        match self.ty {
            BackendType::BuiltIn => {
                let db = match &self.db {
                    Some(db) => db.snapshot(),
                    None => {
                        return Built::Inactive;
                    },
                };
                Built::Active(Currency::new(name, self.command_enabled, db))
            },
            BackendType::Mysql => {
                let url = match &self.mysql_url {
                    Some(url) => url.clone(),
                    None => {
                        return Built::Inactive;
                    },
                };
                let backend = mysql::Backend::new(
                    String::new(),
                    url,
                    self.mysql_schema.clone_schema(),
                );
                Built::Remote(RemoteCurrency { name, command_enabled: self.command_enabled, backend })
            },
            BackendType::Honkos => {
                let url = match &self.mysql_url {
                    Some(url) => url.clone(),
                    None => {
                        return Built::Inactive;
                    },
                };
                let schema = Schema {
                    table: String::from_str("honkos"),
                    user_column: String::from_str("username"),
                    balance_column: String::from_str("honko_balance"),
                };
                let backend = mysql::Backend::new(String::new(), url, schema);
                Built::Remote(RemoteCurrency { name, command_enabled: self.command_enabled, backend })
            },
        }
    }
}

} // verus!
