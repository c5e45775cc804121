//! How to start the language server of a file type.

use vstd::prelude::*;

verus! {

#[derive(Clone, Debug)]
pub struct LspConfig {
    /// The file extensions that the server analyses.
    pub extensions: Vec<String>,
    pub command: String,
    pub args: Vec<String>,
}

} // verus!
