//! A per-channel virtual-currency ledger: balances and accumulated watch
//! time per (channel, user) pair, peer-to-peer transfers, bulk rewards to a
//! roster of viewers, and export/import of every record, over
//! interchangeable storage backends.
mod balance;
pub mod builtin;
mod command;
mod errors;
mod laws;
mod ledger;
pub mod mysql;
mod normalize;
mod roster;
mod store;
mod sys;

pub use balance::{Balance, BalanceOf, Duration, clone_record};
pub use builtin::{bump_all, import_account, import_all, import_key, import_one, names_of};
pub use command::{Alias, join_spaced, join_words, unexpanded, word_end, words, words_of};
pub use errors::{BalanceTransferError, Error};
pub use laws::{
    import_lookup, lemma_bump_all_order_irrelevant, lemma_bump_all_pointwise,
    lemma_bump_all_untouched, lemma_export_import_identity, lemma_import_idempotent,
    lemma_run_transfers_conservation, lemma_transfer_conserves_sum, run_ok, run_transfers,
    transfer_result, transfer_step,
};
pub use ledger::{BackendType, Built, Currency, CurrencyBuilder, RemoteCurrency};
pub use mysql::{
    Schema, apply_add, balance_of_row, balance_or_default, transfer_allowed, transfer_writes,
};
pub use normalize::{canon_channel, channel_id, is_canon_channel, lower_of, user_id};
pub use roster::{Chatters, UserSet, set_of_names, user_set_contents};
pub use store::{
    Account, MemoryStore, bump, lemma_map_of_in_range, map_of, overwrite, sat64, stored,
};
pub use sys::{Notification, System, setup};
