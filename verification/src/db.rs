//! The database: an environment of state tables with read and write
//! transactions, under a format version.

use vstd::prelude::*;
use crate::felt::{BlockNumber, ContractAddress};
use crate::models::{ContractStorageKey, GenericContractInfo};
use crate::state::{DbProvider, HistoricalStateProvider, LatestStateProvider, StateDb};
use crate::version::{migration_required, OpenPlan, Version, CURRENT_DB_VERSION};

verus! {

/// Why a transaction could not begin.
#[derive(Debug, Clone, Copy, PartialEq, Eq, Structural)]
pub enum DatabaseError {
    /// A write transaction is open: the next one cannot begin before it
    /// is committed or aborted.
    CreateRWTx,
}

/// A read transaction: the state as it was committed when the
/// transaction began. What is committed later does not reach it.
#[derive(Debug)]
pub struct Tx {
    snapshot: StateDb,
}

impl Tx {
    /// The state that the transaction reads.
    pub closed spec fn state(&self) -> StateDb {
        self.snapshot
    }

    /// The tables of the snapshot.
    pub fn tables(&self) -> (tables: &StateDb)
        ensures
            *tables == self.state(),
    {
        &self.snapshot
    }

    /// A provider of the latest state of the snapshot.
    pub fn latest(&self) -> (provider: LatestStateProvider<'_>)
        ensures
            *provider.0 == self.state(),
    {
        LatestStateProvider::new(&self.snapshot)
    }

    /// A provider of the snapshot's state as of `block_number`.
    pub fn historical(&self, block_number: BlockNumber) -> (provider: HistoricalStateProvider<'_>)
        ensures
            provider.state() == self.state(),
            provider.pinned() == block_number,
    {
        HistoricalStateProvider::new(&self.snapshot, block_number)
    }
}

/// A write transaction: a copy of the committed state, written until it
/// is committed or aborted.
#[derive(Debug)]
pub struct TxMut {
    pub provider: DbProvider,
}

/// The storage environment: the committed state, read by any number of
/// transactions and written by one at a time.
#[derive(Debug)]
pub struct DbEnv {
    committed: StateDb,
    writer_open: bool,
}

impl DbEnv {
    /// The committed state.
    pub closed spec fn state(&self) -> StateDb {
        self.committed
    }

    /// Whether a write transaction is open.
    pub closed spec fn writing(&self) -> bool {
        self.writer_open
    }

    /// An environment with empty tables.
    pub fn new() -> (env: DbEnv)
        ensures
            env.state().wf(),
            !env.writing(),
            forall|a: ContractAddress| #[trigger] env.state().contract_untouched(a),
            forall|k: ContractStorageKey| #[trigger] env.state().slot_untouched(k),
            env.state().contract_info@ == Map::<ContractAddress, GenericContractInfo>::empty(),
    {
        DbEnv { committed: StateDb::new(), writer_open: false }
    }

    /// An environment with the given tables committed.
    pub fn with_state(state: StateDb) -> (env: DbEnv)
        ensures
            env.state() == state,
            !env.writing(),
    {
        DbEnv { committed: state, writer_open: false }
    }

    /// Begins a read transaction on the committed state. Readers are never
    /// kept waiting, whether or not a write transaction is open.
    pub fn tx(&self) -> (tx: Tx)
        ensures
            self.state().same_state(tx.state()),
    {
        Tx { snapshot: self.committed.replica() }
    }

    /// Begins a write transaction on a copy of the committed state, unless
    /// one is open.
    pub fn tx_mut(&mut self) -> (r: Result<TxMut, DatabaseError>)
        ensures
            final(self).state() == old(self).state(),
            match r {
                Ok(tx) => !old(self).writing() && final(self).writing() && old(self).state().same_state(tx.provider.0),
                Err(e) => old(self).writing() && final(self).writing() && e
                    == DatabaseError::CreateRWTx,
            },
    {
        if self.writer_open {
            return Err(DatabaseError::CreateRWTx);
        }
        self.writer_open = true;
        Ok(TxMut { provider: DbProvider::new(self.committed.replica()) })
    }

    /// Commits a write transaction: what it wrote is the committed state
    /// from now on, and the next write transaction can begin.
    pub fn commit(&mut self, tx: TxMut)
        ensures
            final(self).state() == tx.provider.0,
            !final(self).writing(),
    {
        self.committed = tx.provider.0;
        self.writer_open = false;
    }

    /// Aborts a write transaction: what it wrote is gone, and the next
    /// write transaction can begin.
    pub fn abort(&mut self, tx: TxMut)
        ensures
            final(self).state() == old(self).state(),
            !final(self).writing(),
    {
        self.writer_open = false;
    }
}

/// A database held in memory: an environment and the format version
/// under which it was opened.
#[derive(Debug)]
pub struct Db {
    version: Version,
    env: DbEnv,
}

impl Db {
    /// The version under which the database was opened.
    pub closed spec fn format(&self) -> Version {
        self.version
    }

    /// The environment.
    pub closed spec fn environment(&self) -> DbEnv {
        self.env
    }

    /// The committed state.
    pub open spec fn tables(&self) -> StateDb {
        self.environment().state()
    }

    /// An empty database under the current version.
    pub fn in_memory() -> (db: Db)
        ensures
            db.format().value() == CURRENT_DB_VERSION,
            db.tables().wf(),
            !db.environment().writing(),
            forall|a: ContractAddress| #[trigger] db.tables().contract_untouched(a),
            db.tables().contract_info@ == Map::<ContractAddress, GenericContractInfo>::empty(),
    {
        Db { version: Version::current(), env: DbEnv::new() }
    }

    /// The database of the given tables, opened as the plan says.
    pub fn open(plan: OpenPlan, state: StateDb) -> (db: Db)
        ensures
            db.format() == plan.version,
            db.tables() == state,
            !db.environment().writing(),
    {
        Db { version: plan.version, env: DbEnv::with_state(state) }
    }

    /// Whether the database has to be migrated: its version is not the
    /// current one.
    pub fn require_migration(&self) -> (b: bool)
        ensures
            b == migration_required(self.format()),
    {
        self.version.0 != CURRENT_DB_VERSION
    }

    /// Returns the version of the database.
    pub fn version(&self) -> (v: Version)
        ensures
            v == self.format(),
    {
        self.version
    }

    /// Begins a read transaction.
    pub fn tx(&self) -> (tx: Tx)
        ensures
            self.tables().same_state(tx.state()),
    {
        self.env.tx()
    }

    /// Begins a write transaction, unless one is open.
    pub fn tx_mut(&mut self) -> (r: Result<TxMut, DatabaseError>)
        ensures
            final(self).format() == old(self).format(),
            final(self).tables() == old(self).tables(),
            match r {
                Ok(tx) => !old(self).environment().writing() && final(self).environment().writing() && old(self).tables().same_state(tx.provider.0),
                Err(e) => old(self).environment().writing() && final(self).environment().writing() && e == DatabaseError::CreateRWTx,
            },
    {
        self.env.tx_mut()
    }

    /// Commits a write transaction.
    pub fn commit(&mut self, tx: TxMut)
        ensures
            final(self).format() == old(self).format(),
            final(self).tables() == tx.provider.0,
            !final(self).environment().writing(),
    {
        self.env.commit(tx)
    }

    /// Aborts a write transaction.
    pub fn abort(&mut self, tx: TxMut)
        ensures
            final(self).format() == old(self).format(),
            final(self).tables() == old(self).tables(),
            !final(self).environment().writing(),
    {
        self.env.abort(tx)
    }

    /// A provider of the latest committed state.
    pub fn latest(&self) -> (provider: LatestStateProvider<'_>)
        ensures
            *provider.0 == self.tables(),
    {
        LatestStateProvider::new(&self.env.committed)
    }

    /// A provider of the committed state as of `block_number`.
    pub fn historical(&self, block_number: BlockNumber) -> (provider: HistoricalStateProvider<'_>)
        ensures
            provider.state() == self.tables(),
            provider.pinned() == block_number,
    {
        HistoricalStateProvider::new(&self.env.committed, block_number)
    }
}

} // verus!
