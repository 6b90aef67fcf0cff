//! Persistent state substrate of a Starknet-compatible node.
//!
//! The library keeps contract state (nonces, class bindings, storage
//! slots, declared classes) in ordered tables and reconstructs it as of
//! any committed block from a log of changes, without a snapshot per
//! block:
//!
//! - [`table`] and [`dup`] are the tables, single-valued and dup-sorted,
//!   with their cursors and walkers; [`key`] and [`codec`] the keys and the
//!   byte encodings whose order the tables keep; [`tables`] the registry of
//!   the tables' names and kinds;
//! - [`list`] is the block list with rank and select, [`history`] the
//!   change log of one kind of entity, [`state`] the state tables with
//!   their writers and the latest and historical providers, and [`laws`]
//!   what holds of writes and reads together;
//! - [`version`] is the format version of the database and what opening
//!   does about it, [`env`] the settings of the environment, [`db`] the
//!   database with its transactions, and [`trie`] the binding of
//!   commitment tries to a state;
//! - [`buffer`], [`gas`], [`oracle`] and [`config`] are the gas prices,
//!   their sampling window and the oracle; [`starknet_version`] and
//!   [`transaction`] the protocol versions and the transactions.

pub mod felt;
pub mod text;
pub mod codec;
pub mod key;
pub mod list;
pub mod table;
pub mod dup;
pub mod tables;
pub mod history;
pub mod models;
pub mod trie;
pub mod state;
pub mod laws;
pub mod version;
pub mod env;
pub mod db;
pub mod buffer;
pub mod gas;
pub mod oracle;
pub mod config;
pub mod starknet_version;
pub mod transaction;
