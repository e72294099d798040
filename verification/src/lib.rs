//! A synchronizable store of browsing history, verified.
//!
//! The store keeps a place for each URL, the visits to each place, and
//! tombstones for what was deleted, so that a sync service cannot bring it
//! back. On it work:
//!
//! - `history`: observations, deletions and the full wipe;
//! - `history::prune`: which visits go first when the store must shrink;
//! - `history::history_sync`: what goes out to the sync service and what
//!   comes in from it;
//! - `history::read`: queries;
//! - `frecency`: the score that ranks places.
//!
//! `model` holds the store as plain values and says what each row-level
//! change does to it; `store` is the store itself; `laws` states and proves
//! what holds of the operations on every store.
//!
//! Beside the history engine stand a few small types for applications:
//! account server configurations (`fxa`), errors of the recommendations
//! client (`merino`), the search engine selector (`search`), and the rules
//! by which feature manifests are found (`fml`). `outside` holds what the
//! library takes on trust from the `url` crate.

pub mod fml;
pub mod frecency;
pub mod fxa;
pub mod history;
pub mod laws;
pub mod merino;
pub mod model;
pub mod observation;
pub mod outside;
pub mod search;
pub mod seq_util;
pub mod store;
pub mod text;
pub mod types;
