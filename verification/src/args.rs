//! The command line.
use vstd::prelude::*;

verus! {

/// The arguments of the viewer: the image or directory to show (empty for
/// the current directory).
pub struct Args {
    pub file: String,
}

} // verus!
