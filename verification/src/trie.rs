//! Which commitment trie a read binds to: of which tree, and as of which
//! state.

use vstd::prelude::*;
use crate::felt::{BlockNumber, ContractAddress};

verus! {

/// The state that a trie is read as of.
#[derive(Debug, Clone, Copy, PartialEq, Eq, Structural)]
pub enum TrieSnapshot {
    /// The state after the last committed block.
    Latest,
    /// The state as of a committed block.
    Historical(BlockNumber),
}

/// One of the three commitment trees.
#[derive(Debug, Clone, Copy, PartialEq, Eq, Structural)]
pub enum TrieKind {
    /// The tree of declared classes.
    Classes,
    /// The tree of contracts.
    Contracts,
    /// The tree of one contract's storage.
    Storages(ContractAddress),
}

/// A commitment trie bound to a state.
#[derive(Debug, Clone, Copy, PartialEq, Eq, Structural)]
pub struct TrieBinding {
    pub snapshot: TrieSnapshot,
    pub kind: TrieKind,
}

/// A historical trie was asked for a block that was never committed.
#[derive(Debug, Clone, Copy, PartialEq, Eq, Structural)]
pub struct UncommittedBlock {
    pub block: BlockNumber,
}

/// The commitment tries of one state.
#[derive(Debug, Clone, Copy, PartialEq, Eq, Structural)]
pub struct GlobalTrie {
    pub snapshot: TrieSnapshot,
}

impl GlobalTrie {
    pub fn classes_trie(&self) -> (trie: TrieBinding)
        ensures
            trie == (TrieBinding { snapshot: self.snapshot, kind: TrieKind::Classes }),
    {
        TrieBinding { snapshot: self.snapshot, kind: TrieKind::Classes }
    }

    pub fn contracts_trie(&self) -> (trie: TrieBinding)
        ensures
            trie == (TrieBinding { snapshot: self.snapshot, kind: TrieKind::Contracts }),
    {
        TrieBinding { snapshot: self.snapshot, kind: TrieKind::Contracts }
    }

    pub fn storages_trie(&self, address: ContractAddress) -> (trie: TrieBinding)
        ensures
            trie == (TrieBinding { snapshot: self.snapshot, kind: TrieKind::Storages(address) }),
    {
        TrieBinding { snapshot: self.snapshot, kind: TrieKind::Storages(address) }
    }
}

/// Binds commitment tries to the latest state or to the state as of a
/// committed block.
#[derive(Debug, Clone, Copy, PartialEq, Eq, Structural)]
pub struct TrieDbFactory {
    /// The last committed block, if any block was committed.
    pub latest_block: Option<BlockNumber>,
}

impl TrieDbFactory {
    /// Whether `block` was committed.
    pub open spec fn committed(self, block: BlockNumber) -> bool {
        self.latest_block matches Some(latest) && block <= latest
    }

    pub fn new(latest_block: Option<BlockNumber>) -> (factory: Self)
        ensures
            factory.latest_block == latest_block,
    {
        TrieDbFactory { latest_block }
    }

    /// The tries of the latest state.
    pub fn latest(&self) -> (trie: GlobalTrie)
        ensures
            trie.snapshot == TrieSnapshot::Latest,
    {
        GlobalTrie { snapshot: TrieSnapshot::Latest }
    }

    /// The tries as of `block`, which must have been committed: a block
    /// that was not is refused, and never read as the latest state.
    pub fn historical(&self, block: BlockNumber) -> (r: Result<GlobalTrie, UncommittedBlock>)
        ensures
            r == if self.committed(block) {
                Ok::<GlobalTrie, UncommittedBlock>(
                    GlobalTrie { snapshot: TrieSnapshot::Historical(block) },
                )
            } else {
                Err::<GlobalTrie, UncommittedBlock>(UncommittedBlock { block })
            },
    {
        match self.latest_block {
            Some(latest) => {
                if block <= latest {
                    Ok(GlobalTrie { snapshot: TrieSnapshot::Historical(block) })
                } else {
                    Err(UncommittedBlock { block })
                }
            },
            None => Err(UncommittedBlock { block }),
        }
    }
}

} // verus!
