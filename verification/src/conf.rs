//! Arguments of the configuration-editing command: setting titles, time
//! limits, contest lengths, or arbitrary configuration fields.  The
//! editing itself rewrites JSON configuration files and lives in the
//! application.

use vstd::prelude::*;

verus! {

/// Plain values handed to a configuration edit, one per problem or day.
#[derive(Debug, Clone)]
pub struct ConfValuesArgs {
    pub value: Vec<String>,
}

/// A free-form configuration edit: one key, one value per target.
#[derive(Debug, Clone)]
pub struct ConfCustomArgs {
    pub key: String,
    pub value: Vec<String>,
}

/// Which field a configuration edit addresses.
#[derive(Debug, Clone)]
enum Targets {
    Title(ConfValuesArgs),
    Time(ConfValuesArgs),
    Length(ConfValuesArgs),
    Conf(ConfCustomArgs),
}

/// Arguments of the configuration-editing command.
#[derive(Debug, Clone)]
pub struct ConfArgs {
    target: Targets,
}

} // verus!
