//! Arguments of the export command, which repackages a contest day for
//! an external judging tool.  The export itself writes files and
//! invokes compilers, and lives in the application.

use vstd::prelude::*;

verus! {

/// The external format to export to.
#[derive(Debug, PartialEq, Eq, Structural, Copy, Clone)]
pub enum Target {
    Lemon,
}

/// Arguments of the export command.
#[derive(Debug, PartialEq, Eq, Structural, Copy, Clone)]
pub struct DumpArgs {
    pub target: Target,
}

} // verus!
