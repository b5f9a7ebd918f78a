//! What a server is configured with.

use vstd::prelude::*;

verus! {

/// The settings of a server, fixed when it starts.
#[derive(Clone, Debug, PartialEq, Eq)]
pub struct LoaferConfig {
    /// The path of the directory whose files are served.
    pub base_dir: Vec<u8>,
    /// The path of the file that is the home resource.
    pub index_file: Vec<u8>,
    /// The most connections that are handled at once.
    pub max_connections: usize,
}

} // verus!
