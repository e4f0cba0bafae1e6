//! A ledger that replays deposits, withdrawals and the dispute life cycle of each transaction
//! against per-client accounts, with exact fixed-point amounts whose arithmetic is checked.

pub mod text;
pub mod amount;
pub mod account;
pub mod event;
pub mod transaction;
pub mod output;
pub mod summary;
pub mod shard;
pub mod laws;

pub use account::Account;
pub use amount::{Amount, AmountOpError};
pub use event::{ClientId, Event, EventError, TransactionId};
pub use output::Output;
pub use shard::{Shard, ShardError};
pub use summary::Summary;
pub use transaction::Transaction;
