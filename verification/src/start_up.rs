//! Where the genesis block comes from when the node starts, and how the
//! chain is loaded from it.

use crate::types::HeaderHash;
use vstd::prelude::*;

verus! {

/// What the settings say of the genesis block.
#[derive(Clone, Copy, Debug, PartialEq, Eq)]
pub enum Block0Info {
    /// The block is in a file.
    Path,
    /// Only the hash of the block is known.
    Hash(HeaderHash),
}

/// Where to take the genesis block from.
#[derive(Clone, Copy, Debug, PartialEq, Eq)]
pub enum Block0Source {
    /// Parse it from the file of the settings.
    File,
    /// Read it from the block storage.
    Storage(HeaderHash),
    /// Download it from the trusted peers.
    Network(HeaderHash),
}

/// Why loading the chain from the genesis block failed.
#[derive(Clone, Copy, Debug, PartialEq, Eq)]
pub enum LoadError {
    /// The storage holds the genesis block already.
    Block0AlreadyInStorage,
    /// Anything else.
    Other,
}

/// What to do after the attempt to load the chain from the genesis block.
#[derive(Clone, Copy, Debug, PartialEq, Eq)]
pub enum LoadStep {
    /// The chain is loaded.
    Loaded,
    /// The storage holds a chain: load it from there.
    LoadFromStorage,
    /// Give up with this error.
    Fail(LoadError),
}

/// Where to take the genesis block from: the file if the settings name
/// one; else the storage if it holds the block of that hash, and the
/// network if it does not. `in_storage` is read for a hash only.
pub fn prepare_block_0(block_0: Block0Info, in_storage: bool) -> (r: Block0Source)
    ensures
        r == (match block_0 {
            Block0Info::Path => Block0Source::File,
            Block0Info::Hash(id) => if in_storage {
                Block0Source::Storage(id)
            } else {
                Block0Source::Network(id)
            },
        }),
{
    match block_0 {
        Block0Info::Path => Block0Source::File,
        Block0Info::Hash(id) => {
            if in_storage {
                Block0Source::Storage(id)
            } else {
                Block0Source::Network(id)
            }
        },
    }
}

/// What follows the attempt to load the chain from the genesis block: a
/// storage that holds the block already is loaded from instead, and any
/// other failure is final.
pub fn load_blockchain(from_block0: Result<(), LoadError>) -> (r: LoadStep)
    ensures
        r == (match from_block0 {
            Ok(_) => LoadStep::Loaded,
            Err(LoadError::Block0AlreadyInStorage) => LoadStep::LoadFromStorage,
            Err(e) => LoadStep::Fail(e),
        }),
{
    match from_block0 {
        Ok(_) => LoadStep::Loaded,
        Err(e) => match e {
            LoadError::Block0AlreadyInStorage => LoadStep::LoadFromStorage,
            LoadError::Other => LoadStep::Fail(e),
        },
    }
}

} // verus!
