//! Set-up of process-wide logging through the `log` crate.

use log::{LevelFilter, SetLoggerError};
use vstd::prelude::*;

verus! {

/// The level up to which log records are let through.
pub type Lvl = LevelFilter;

/// `log::LevelFilter`, carried through as an opaque value.
#[verifier::external_type_specification]
#[verifier::external_body]
pub struct ExLevelFilter(log::LevelFilter);

/// `log::SetLoggerError`, the failure of `log::set_logger`, carried through
/// as an opaque value.
#[verifier::external_type_specification]
#[verifier::external_body]
pub struct ExSetLoggerError(log::SetLoggerError);

/// Calls `log::set_max_level`, which stores the level in the crate's global
/// filter. It returns nothing, so nothing is claimed of it.
#[verifier::external_body]
fn set_max_level(level: LevelFilter) {
    log::set_max_level(level)
}

/// Finishes the set-up of logging. `installed` is what `log::set_logger`
/// answered when the program registered its logger. After a successful
/// registration the maximum level is set to `level`; after a failed one
/// nothing is changed. Either way the answer is handed on.
pub fn init(level: LevelFilter, installed: Result<(), SetLoggerError>) -> (outcome: Result<
    (),
    SetLoggerError,
>)
    ensures
        outcome == installed,
{
    match installed {
        Ok(done) => {
            set_max_level(level);
            Ok(done)
        },
        Err(e) => Err(e),
    }
}

} // verus!
