//! Storage engine of a personal backup tool: content-defined chunking,
//! a password-based authenticated encryption envelope, the blob index of a
//! repository, and the naming rules of a plain folder backend.

use vstd::prelude::*;

pub mod chunker;
pub mod crypto;
pub mod paths;
pub mod repository;

pub use chunker::{chunk_bytes, split_chunks};
pub use crypto::{decrypt, encrypt, encrypt_with, CryptoError};
pub use paths::{blob_filename, join_path, local_blob_path};
pub use repository::{
    append_entry, entry_ids, initial_index, record_blob, repo_paths, IndexEntry, RepoError, RepoPaths,
};

verus! {

/// Sum of two counters; the caller keeps the sum within `u64`.
pub fn add(left: u64, right: u64) -> (r: u64)
    requires
        left + right <= u64::MAX,
    ensures
        r == left + right,
{
    left + right
}

} // verus!
