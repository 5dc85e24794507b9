//! Command-line options the process is started with.
use vstd::prelude::*;

verus! {

/// The options gathered from the command line: where the configuration
/// file lives.
pub struct Arguments {
    pub config_file: String,
}

} // verus!
