//! The networked backend's schema adapter and decision logic.
//!
//! The remote relational engine itself is outside this library: a driver
//! owns the connection, sends the statements built here, and feeds each
//! row it reads back into the decision functions below.  Everything that
//! can be computed from plain values — the statement text generated from
//! the schema mapping, the funds check of a transfer, the saturating
//! arithmetic of an upsert-add — is verified here, and the engine's own
//! row-level locking supplies isolation between concurrent writers.
//!
//! The mapping carries no watch-time column, so this backend neither
//! persists nor reports watch time: reads report it as zero and generated
//! statements omit it.
use vstd::prelude::*;

use crate::balance::BalanceOf;
use crate::errors::BalanceTransferError;
use crate::store::{sat64, saturating_add_i64};

verus! {

/// Logical-to-physical mapping: which table and columns hold the rows of
/// this currency.
pub struct Schema {
    pub table: String,
    pub user_column: String,
    pub balance_column: String,
}

impl Schema {
    /// Field-for-field copy of the mapping.
    pub fn clone_schema(&self) -> (r: Schema)
        ensures
            r == *self,
    {
        let r = Schema {
            table: self.table.clone(),
            user_column: self.user_column.clone(),
            balance_column: self.balance_column.clone(),
        };
        r
    }
}

/// The networked backend: the schema mapping plus the connection target a
/// driver should dial.  Holds no connection itself.
pub struct Backend {
    pub channel: String,
    pub url: String,
    pub schema: Schema,
}

impl Backend {
    pub fn new(channel: String, url: String, schema: Schema) -> (r: Backend)
        ensures
            r.channel == channel,
            r.url == url,
            r.schema == schema,
    {
        Backend { channel, url, schema }
    }

    /// Statement reading one user's balance.
    pub fn select_balance_stmt(&self) -> (r: String)
        ensures
            r@ == "SELECT `"@ + self.schema.balance_column@ + "` FROM `"@ + self.schema.table@
                + "` WHERE `"@ + self.schema.user_column@ + "` = ?"@,
    {
        let mut r = String::from_str("SELECT `");
        r.append(self.schema.balance_column.as_str());
        r.append("` FROM `");
        r.append(self.schema.table.as_str());
        r.append("` WHERE `");
        r.append(self.schema.user_column.as_str());
        r.append("` = ?");
        proof {
            assert(r@ =~= "SELECT `"@ + self.schema.balance_column@ + "` FROM `"@
                + self.schema.table@ + "` WHERE `"@ + self.schema.user_column@ + "` = ?"@);
        }
        r
    }

    /// Statement reading one user's balance under the engine's row lock,
    /// for the read-modify-write inside a transfer.
    pub fn select_balance_for_update_stmt(&self) -> (r: String)
        ensures
            r@ == "SELECT `"@ + self.schema.balance_column@ + "` FROM `"@ + self.schema.table@
                + "` WHERE `"@ + self.schema.user_column@ + "` = ? FOR UPDATE"@,
    {
        let mut r = String::from_str("SELECT `");
        r.append(self.schema.balance_column.as_str());
        r.append("` FROM `");
        r.append(self.schema.table.as_str());
        r.append("` WHERE `");
        r.append(self.schema.user_column.as_str());
        r.append("` = ? FOR UPDATE");
        proof {
            assert(r@ =~= "SELECT `"@ + self.schema.balance_column@ + "` FROM `"@
                + self.schema.table@ + "` WHERE `"@ + self.schema.user_column@
                + "` = ? FOR UPDATE"@);
        }
        r
    }

    /// Statement writing one user's balance: insert the row or overwrite
    /// its balance column.  Binds (user, balance, balance).
    pub fn write_balance_stmt(&self) -> (r: String)
        ensures
            r@ == "INSERT INTO `"@ + self.schema.table@ + "` (`"@ + self.schema.user_column@
                + "`, `"@ + self.schema.balance_column@
                + "`) VALUES (?, ?) ON DUPLICATE KEY UPDATE `"@ + self.schema.balance_column@
                + "` = ?"@,
    {
        let mut r = String::from_str("INSERT INTO `");
        r.append(self.schema.table.as_str());
        r.append("` (`");
        r.append(self.schema.user_column.as_str());
        r.append("`, `");
        r.append(self.schema.balance_column.as_str());
        r.append("`) VALUES (?, ?) ON DUPLICATE KEY UPDATE `");
        r.append(self.schema.balance_column.as_str());
        r.append("` = ?");
        proof {
            assert(r@ =~= "INSERT INTO `"@ + self.schema.table@ + "` (`"@
                + self.schema.user_column@ + "`, `"@ + self.schema.balance_column@
                + "`) VALUES (?, ?) ON DUPLICATE KEY UPDATE `"@ + self.schema.balance_column@
                + "` = ?"@);
        }
        r
    }

    /// Statement reading every row of the mapped table.
    pub fn export_stmt(&self) -> (r: String)
        ensures
            r@ == "SELECT `"@ + self.schema.user_column@ + "`, `"@ + self.schema.balance_column@
                + "` FROM `"@ + self.schema.table@ + "`"@,
    {
        let mut r = String::from_str("SELECT `");
        r.append(self.schema.user_column.as_str());
        r.append("`, `");
        r.append(self.schema.balance_column.as_str());
        r.append("` FROM `");
        r.append(self.schema.table.as_str());
        r.append("`");
        proof {
            assert(r@ =~= "SELECT `"@ + self.schema.user_column@ + "`, `"@
                + self.schema.balance_column@ + "` FROM `"@ + self.schema.table@ + "`"@);
        }
        r
    }
}

/// What a balance read means: a missing row is a balance of zero.
pub fn balance_or_default(row: Option<i64>) -> (r: i64)
    ensures
        r == match row {
            Some(v) => v,
            None => 0,
        },
{
    match row {
        Some(v) => v,
        None => 0,
    }
}

/// What a balance read reports to a caller.  This mapping has no
/// watch-time column, so an existing row reports watch time zero.
pub fn balance_of_row(row: Option<i64>) -> (r: Option<BalanceOf>)
    ensures
        match row {
            Some(v) => r matches Some(b) && b.balance == v && b.watch_time == 0,
            None => r is None,
        },
{
    match row {
        Some(v) => Some(BalanceOf { balance: v, watch_time: 0 }),
        None => None,
    }
}

/// The new value of a row after one upsert-add, from the value a read
/// returned: a missing row starts from zero, and the addition saturates.
pub fn apply_add(row: Option<i64>, delta: i64) -> (r: i64)
    ensures
        r as int == sat64(
            (match row {
                Some(v) => v as int,
                None => 0,
            }) + delta,
        ),
{
    let current = balance_or_default(row);
    saturating_add_i64(current, delta)
}

/// The funds check of a transfer, from the giver's balance as read under
/// the row lock.
pub fn transfer_allowed(giver_balance: i64, amount: i64, override_balance: bool) -> (r: bool)
    ensures
        r == !(giver_balance < amount && !override_balance),
{
    !(giver_balance < amount && !override_balance)
}

/// Decide a transfer from the two balances read under the engine's row
/// locks: either the pair of new values to write inside the same
/// transaction (taker's first, giver's second), or the `NoBalance`
/// failure, in which case nothing may be written.
pub fn transfer_writes(
    giver_balance: Option<i64>,
    taker_balance: Option<i64>,
    amount: i64,
    override_balance: bool,
) -> (r: Result<(i64, i64), BalanceTransferError>)
    requires
        amount != i64::MIN,
    ensures
        ({
            let gb = match giver_balance {
                Some(v) => v as int,
                None => 0,
            };
            let tb = match taker_balance {
                Some(v) => v as int,
                None => 0,
            };
            &&& (r is Err <==> gb < amount && !override_balance)
            &&& (r is Err ==> r == Result::<(i64, i64), BalanceTransferError>::Err(
                BalanceTransferError::NoBalance,
            ))
            &&& (r matches Ok(w) ==> w.0 as int == sat64(tb + amount) && w.1 as int == sat64(
                gb - amount,
            ))
        }),
{
    let gb = balance_or_default(giver_balance);
    if !transfer_allowed(gb, amount, override_balance) {
        return Err(BalanceTransferError::NoBalance);
    }
    let taker_new = apply_add(taker_balance, amount);
    let giver_new = apply_add(giver_balance, -amount);
    Ok((taker_new, giver_new))
}

} // verus!
