//! The settings under which a database environment is opened.

use vstd::prelude::*;
use crate::tables::NUM_TABLES;

verus! {

pub const GIGABYTE: u64 = 1024 * 1024 * 1024;

pub const TERABYTE: u64 = 1024 * 1024 * 1024 * 1024;

/// The engine allows up to 32767 readers; the default stays slightly
/// below that.
pub const DEFAULT_MAX_READERS: u64 = 32_000;

/// Maximum database size of 1 terabyte.
pub const DEFAULT_MAX_SIZE: u64 = 1024 * 1024 * 1024 * 1024;

/// The database grows in increments of 4 gigabytes.
pub const DEFAULT_GROWTH_STEP: i64 = 4 * 1024 * 1024 * 1024;

/// Maximum size of an ephemeral database: 10 gigabytes.
pub const EPHEMERAL_MAX_SIZE: u64 = 10 * 1024 * 1024 * 1024;

/// An ephemeral database grows in increments of 512 megabytes.
pub const EPHEMERAL_GROWTH_STEP: i64 = 512 * 1024 * 1024;

/// How writes reach the disk.
#[derive(Debug, Clone, Copy, PartialEq, Eq, Structural)]
pub enum SyncMode {
    /// Each commit is flushed.
    Durable,
    /// The meta page is flushed lazily.
    NoMetaSync,
    /// Commits are not flushed; a system crash may undo the last ones.
    SafeNoSync,
    /// Nothing is flushed: fastest, and a system crash may corrupt the
    /// database.
    UtterlyNoSync,
}

/// Whether the environment is opened for reading only or for writing.
#[derive(Debug, Clone, Copy, PartialEq, Eq, Structural)]
pub enum Mode {
    ReadOnly,
    ReadWrite { sync_mode: SyncMode },
}

/// What a database environment is opened with.
#[derive(Debug, Clone, Copy, PartialEq, Eq, Structural)]
pub struct EnvSettings {
    /// The number of tables that the environment can hold.
    pub max_dbs: usize,
    /// The size that the database may reach.
    pub max_size: u64,
    /// The step by which the database grows.
    pub growth_step: i64,
    /// Whether the database shrinks; it never does.
    pub shrinks: bool,
    pub mode: Mode,
    /// Reading ahead is off: it helps linear scans and hurts random
    /// access.
    pub no_rdahead: bool,
    pub coalesce: bool,
    pub max_readers: u64,
}

/// Builder for configuring a database environment.
#[derive(Debug, Clone, Copy, PartialEq, Eq, Structural)]
pub struct DbEnvBuilder {
    pub mode: Mode,
    pub max_readers: u64,
    pub max_size: u64,
    pub growth_step: i64,
}

impl DbEnvBuilder {
    /// The settings that the builder leads to.
    pub open spec fn settings(self) -> EnvSettings {
        EnvSettings {
            max_dbs: NUM_TABLES,
            max_size: self.max_size,
            growth_step: self.growth_step,
            shrinks: false,
            mode: self.mode,
            no_rdahead: true,
            coalesce: true,
            max_readers: self.max_readers,
        }
    }

    /// Creates a new builder with default settings: read-only, 32000
    /// readers, up to one terabyte in steps of four gigabytes.
    pub fn new() -> (builder: Self)
        ensures
            builder == (DbEnvBuilder {
                mode: Mode::ReadOnly,
                max_readers: 32_000,
                max_size: 0x100_0000_0000,
                growth_step: 0x1_0000_0000,
            }),
    {
        DbEnvBuilder {
            mode: Mode::ReadOnly,
            max_readers: DEFAULT_MAX_READERS,
            max_size: DEFAULT_MAX_SIZE,
            growth_step: DEFAULT_GROWTH_STEP,
        }
    }

    /// The builder of an ephemeral database: up to ten gigabytes in steps
    /// of 512 megabytes, written without any flush.
    pub fn in_memory() -> (builder: Self)
        ensures
            builder == (DbEnvBuilder {
                mode: Mode::ReadWrite { sync_mode: SyncMode::UtterlyNoSync },
                max_readers: 32_000,
                max_size: 0x2_8000_0000,
                growth_step: 0x2000_0000,
            }),
    {
        DbEnvBuilder::new().max_size(EPHEMERAL_MAX_SIZE).growth_step(EPHEMERAL_GROWTH_STEP).sync(
            SyncMode::UtterlyNoSync,
        )
    }

    /// Sets the maximum number of readers.
    pub fn max_readers(self, max_readers: u64) -> (builder: Self)
        ensures
            builder == (DbEnvBuilder { max_readers, ..self }),
    {
        DbEnvBuilder { max_readers, ..self }
    }

    /// Opens for writing, each commit flushed.
    pub fn write(self) -> (builder: Self)
        ensures
            builder == (DbEnvBuilder {
                mode: Mode::ReadWrite { sync_mode: SyncMode::Durable },
                ..self
            }),
    {
        DbEnvBuilder { mode: Mode::ReadWrite { sync_mode: SyncMode::Durable }, ..self }
    }

    /// Opens for writing under the given sync mode.
    pub fn sync(self, sync_mode: SyncMode) -> (builder: Self)
        ensures
            builder == (DbEnvBuilder { mode: Mode::ReadWrite { sync_mode }, ..self }),
    {
        DbEnvBuilder { mode: Mode::ReadWrite { sync_mode }, ..self }
    }

    pub fn max_size(self, max_size: u64) -> (builder: Self)
        ensures
            builder == (DbEnvBuilder { max_size, ..self }),
    {
        DbEnvBuilder { max_size, ..self }
    }

    pub fn growth_step(self, growth_step: i64) -> (builder: Self)
        ensures
            builder == (DbEnvBuilder { growth_step, ..self }),
    {
        DbEnvBuilder { growth_step, ..self }
    }

    /// The settings with which the environment is opened.
    pub fn build(self) -> (settings: EnvSettings)
        ensures
            settings == self.settings(),
    {
        EnvSettings {
            max_dbs: NUM_TABLES,
            max_size: self.max_size,
            growth_step: self.growth_step,
            shrinks: false,
            mode: self.mode,
            no_rdahead: true,
            coalesce: true,
            max_readers: self.max_readers,
        }
    }
}

impl Default for DbEnvBuilder {
    fn default() -> (builder: Self)
        ensures
            builder.mode == Mode::ReadOnly,
    {
        DbEnvBuilder::new()
    }
}

} // verus!
