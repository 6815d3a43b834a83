//! Reconciliation of confirmed blockchain transactions into transaction records and
//! token movements, with the decisions of a historical backfill walk.
//!
//! - [`amount`]: lenient parsing of raw token amounts.
//! - [`diff`]: net per-mint changes between pre- and post-transaction balances.
//! - [`reconcile`]: the record and movements one confirmed transaction yields.
//! - [`store`]: an in-memory store with idempotent transaction inserts.
//! - [`backfill`]: the paginated walk through an account's signature history.
//! - [`live`]: naming the transaction a stream notification carries.
//! - [`config`]: process settings.
pub mod amount;
pub mod backfill;
pub mod config;
pub mod diff;
pub mod live;
pub mod reconcile;
pub mod store;

pub use config::VialyticsConfig;
pub use reconcile::process_confirmed_transaction;
