//! Arguments of the scaffold-generation command: creating contest, day
//! and problem folders and detecting data, samples and solutions.  The
//! scaffolding itself copies template trees on disk and lives in the
//! application.

use vstd::prelude::*;

verus! {

/// Names of the objects to scaffold.
#[derive(Debug, Clone)]
pub struct GenStatementArgs {
    pub name: Vec<String>,
}

/// Whether to skip the overwrite confirmation prompt.
#[derive(Debug, PartialEq, Eq, Structural, Copy, Clone)]
pub struct GenConfirmArgs {
    pub confirm: bool,
}

/// The shell to emit a completion file for.
#[derive(Debug, Clone)]
pub struct GenCompleteArgs {
    pub name: String,
}

/// Which kind of object the generation command works on.
#[derive(Debug, Clone)]
enum Targets {
    Contest(GenStatementArgs),
    Day(GenStatementArgs),
    Problem(GenStatementArgs),
    Data(GenConfirmArgs),
    Samples(GenConfirmArgs),
    Code(GenConfirmArgs),
    All(GenConfirmArgs),
    Complete(GenCompleteArgs),
}

/// Arguments of the generation command.
#[derive(Debug, Clone)]
pub struct GenArgs {
    target: Targets,
}

} // verus!
