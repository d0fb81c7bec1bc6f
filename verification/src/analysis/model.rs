//! Values produced by the analysis.

use vstd::prelude::*;

verus! {

/// How serious a fired trigger is.
#[derive(Clone, Copy, Debug, PartialEq, Eq, Structural)]
pub enum TriggerSeverity {
    Info,
    Warning,
    Critical,
}

} // verus!
