//! What the gateway keeps of an interrupted transfer, and the sizes it works with.
use vstd::prelude::*;

verus! {

/// Bytes read or written per step of a transfer.
pub const CHUNK_SIZE: usize = 32 * 1024;

/// How long a read of one reply may wait, in milliseconds.
pub const REPLY_TIMEOUT_MS: u64 = 500;

/// A transfer that has not yet completed, as listed to a user: the direction
/// (`stor` or `retr`), the local file, the remote directory and file name,
/// and the offset recorded last.
#[derive(Debug, PartialEq, Eq)]
pub struct Breakpoint {
    pub mode: String,
    pub local_filepath: String,
    pub local_filename: String,
    pub remote_filedir: String,
    pub remote_filename: String,
    pub bytes: i64,
}

} // verus!
