//! Process-wide logging setup.

use vstd::prelude::*;

verus! {

/// The log level where the environment does not set one: `info`, or `debug` when
/// `verbose` is set.
pub fn default_level(verbose: bool) -> (level: &'static str)
    ensures
        level@ == if verbose {
            "debug"@
        } else {
            "info"@
        },
{
    if verbose {
        "debug"
    } else {
        "info"
    }
}

} // verus!
