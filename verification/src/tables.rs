//! The tables of the database: their names and kinds.

use vstd::prelude::*;

verus! {

/// The kind of a table.
#[derive(Debug, Clone, Copy, PartialEq, Eq, Structural)]
pub enum TableType {
    /// One value per key.
    Table,
    /// Several values per key, ordered by an embedded subkey.
    DupSort,
}

/// The number of tables.
pub const NUM_TABLES: usize = 10;

/// The tables that hold contract state and its history.
#[derive(Debug, Clone, Copy, PartialEq, Eq, Structural)]
pub enum Tables {
    ContractInfo,
    ContractStorage,
    Classes,
    CompiledClassHashes,
    ClassDeclarationBlock,
    ContractInfoChangeSet,
    NonceChangeHistory,
    ClassChangeHistory,
    StorageChangeSet,
    StorageChangeHistory,
}

impl Tables {
    /// The place of the table in the list of all tables.
    pub open spec fn index(self) -> int {
        match self {
            Tables::ContractInfo => 0,
            Tables::ContractStorage => 1,
            Tables::Classes => 2,
            Tables::CompiledClassHashes => 3,
            Tables::ClassDeclarationBlock => 4,
            Tables::ContractInfoChangeSet => 5,
            Tables::NonceChangeHistory => 6,
            Tables::ClassChangeHistory => 7,
            Tables::StorageChangeSet => 8,
            Tables::StorageChangeHistory => 9,
        }
    }

    /// The kind of the table: the latest storage and the three change
    /// histories hold several values per key.
    pub open spec fn kind(self) -> TableType {
        match self {
            Tables::ContractStorage => TableType::DupSort,
            Tables::NonceChangeHistory => TableType::DupSort,
            Tables::ClassChangeHistory => TableType::DupSort,
            Tables::StorageChangeHistory => TableType::DupSort,
            _ => TableType::Table,
        }
    }

    /// The name of the table.
    pub open spec fn label(self) -> Seq<char> {
        match self {
            Tables::ContractInfo => "ContractInfo"@,
            Tables::ContractStorage => "ContractStorage"@,
            Tables::Classes => "Classes"@,
            Tables::CompiledClassHashes => "CompiledClassHashes"@,
            Tables::ClassDeclarationBlock => "ClassDeclarationBlock"@,
            Tables::ContractInfoChangeSet => "ContractInfoChangeSet"@,
            Tables::NonceChangeHistory => "NonceChangeHistory"@,
            Tables::ClassChangeHistory => "ClassChangeHistory"@,
            Tables::StorageChangeSet => "StorageChangeSet"@,
            Tables::StorageChangeHistory => "StorageChangeHistory"@,
        }
    }

    /// All tables, each once.
    pub fn all() -> (tables: [Tables; 10])
        ensures
            forall|t: Tables| 0 <= #[trigger] t.index() < 10 && tables@[t.index()] == t,
    {
        let tables = [
            Tables::ContractInfo,
            Tables::ContractStorage,
            Tables::Classes,
            Tables::CompiledClassHashes,
            Tables::ClassDeclarationBlock,
            Tables::ContractInfoChangeSet,
            Tables::NonceChangeHistory,
            Tables::ClassChangeHistory,
            Tables::StorageChangeSet,
            Tables::StorageChangeHistory,
        ];
        tables
    }

    /// The name of the table.
    pub fn name(&self) -> (name: &'static str)
        ensures
            name@ == self.label(),
    {
        match self {
            Tables::ContractInfo => "ContractInfo",
            Tables::ContractStorage => "ContractStorage",
            Tables::Classes => "Classes",
            Tables::CompiledClassHashes => "CompiledClassHashes",
            Tables::ClassDeclarationBlock => "ClassDeclarationBlock",
            Tables::ContractInfoChangeSet => "ContractInfoChangeSet",
            Tables::NonceChangeHistory => "NonceChangeHistory",
            Tables::ClassChangeHistory => "ClassChangeHistory",
            Tables::StorageChangeSet => "StorageChangeSet",
            Tables::StorageChangeHistory => "StorageChangeHistory",
        }
    }

    /// The kind of the table.
    pub fn table_type(&self) -> (kind: TableType)
        ensures
            kind == self.kind(),
    {
        match self {
            Tables::ContractStorage => TableType::DupSort,
            Tables::NonceChangeHistory => TableType::DupSort,
            Tables::ClassChangeHistory => TableType::DupSort,
            Tables::StorageChangeHistory => TableType::DupSort,
            _ => TableType::Table,
        }
    }
}

} // verus!
