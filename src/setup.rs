//! Process-wide setup: logging.

use simplelog::{ColorChoice, Config, LevelFilter, TermLogger, TerminalMode};
use vstd::prelude::*;

verus! {

/// Why setup failed.
#[derive(Clone, Copy, Debug, PartialEq, Eq, Structural)]
pub enum SetupError {
    /// A logger was installed before.
    LoggerAlreadySet,
}

/// Relies on simplelog's `TermLogger::init`, which installs an info-level
/// logger on standard error; `false` where a logger was installed before.
#[verifier::external_body]
fn logger() -> (r: bool) {
    TermLogger::init(LevelFilter::Info, Config::default(), TerminalMode::Stderr, ColorChoice::Auto)
        .is_ok()
}

/// Installs the logger.
pub fn setup() -> (r: Result<(), SetupError>)
    ensures
        r is Err ==> r == Err::<(), SetupError>(SetupError::LoggerAlreadySet),
{
    if logger() {
        Ok(())
    } else {
        Err(SetupError::LoggerAlreadySet)
    }
}

} // verus!
