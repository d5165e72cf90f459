//! Pasting into the active application with the paste shortcut.

use vstd::prelude::*;
use crate::error::AuralFlowError;

verus! {

/// The outcome of the paste shortcut once `v` was clicked and the modifier
/// released (both are always attempted, so the modifier is never left held):
/// the click's failure if it failed, otherwise the release's failure, as a
/// clipboard error carrying the keyboard's report.
pub fn key_sequence_outcome(click: Result<(), String>, release: Result<(), String>) -> (r: Result<
    (),
    AuralFlowError,
>)
    ensures
        r is Ok <==> (click is Ok && release is Ok),
        click matches Err(d) ==> (r matches Err(e) && (e matches AuralFlowError::Clipboard(m) && m@
            == d@)),
        click is Ok ==> (release matches Err(d) ==> (r matches Err(e) && (
        e matches AuralFlowError::Clipboard(m) && m@ == d@))),
{
    match click {
        Err(detail) => Err(AuralFlowError::Clipboard(detail)),
        Ok(()) => match release {
            Err(detail) => Err(AuralFlowError::Clipboard(detail)),
            Ok(()) => Ok(()),
        },
    }
}

} // verus!
