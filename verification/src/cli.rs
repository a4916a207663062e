//! What the command line asks of the process.

use vstd::prelude::*;

verus! {

/// The two ways to run: register the daemon with the host OS, or run the
/// capture pipeline itself.
#[derive(Clone, Copy, Debug, PartialEq, Eq, Structural)]
pub enum Command {
    Install,
    Daemon,
}

} // verus!
