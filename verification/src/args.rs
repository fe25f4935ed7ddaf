//! The command line.

use vstd::prelude::*;

verus! {

/// What the command line asks for; what it leaves open comes from the configuration.
#[derive(Debug)]
pub struct Args {
    /// Whether to shuffle.
    pub shuffle: Option<bool>,
    /// The playlist to start with.
    pub playlist: Option<String>,
}

} // verus!
