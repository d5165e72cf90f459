//! The outcome of a dictation, as reported to the interface.

use vstd::prelude::*;
use crate::error::AuralFlowError;

verus! {

/// The transcript of one dictation, how long it took, and whether it was
/// pasted into the active application.
#[derive(Debug, Clone, PartialEq, Eq)]
pub struct TranscriptResult {
    pub text: String,
    pub elapsed_ms: u128,
    pub pasted: bool,
    pub warning: Option<String>,
}

/// The warning shown when the text was transcribed but could not be pasted.
pub open spec fn paste_warning(error: AuralFlowError) -> Seq<char> {
    "El texto se transcribió, pero no se pudo pegar: "@ + error.message_view()
}

/// Whether the text was pasted and the warning to show, given the outcome of
/// pasting (`None` when automatic pasting is off).
pub fn paste_report(paste: Option<Result<(), AuralFlowError>>) -> (r: (bool, Option<String>))
    ensures
        r.0 <==> (paste matches Some(Ok(_))),
        paste matches Some(Err(e)) ==> (r.1 matches Some(w) && w@ == paste_warning(e)),
        !(paste is Some && paste->0 is Err) ==> r.1 is None,
{
    match paste {
        None => (false, None),
        Some(Ok(())) => (true, None),
        Some(Err(error)) => {
            let mut warning = String::from_str("El texto se transcribió, pero no se pudo pegar: ");
            let message = error.message();
            warning.append(message.as_str());
            (false, Some(warning))
        },
    }
}

/// The result of a dictation whose transcript is `text`, which took
/// `elapsed_ms` milliseconds, given the outcome of pasting it.
pub fn transcript_result(text: String, elapsed_ms: u128, paste: Option<Result<(), AuralFlowError>>) -> (r:
    TranscriptResult)
    ensures
        r.text@ == text@,
        r.elapsed_ms == elapsed_ms,
        r.pasted <==> (paste matches Some(Ok(_))),
        paste matches Some(Err(e)) ==> (r.warning matches Some(w) && w@ == paste_warning(e)),
        !(paste is Some && paste->0 is Err) ==> r.warning is None,
{
    let (pasted, warning) = paste_report(paste);
    TranscriptResult { text, elapsed_ms, pasted, warning }
}

} // verus!
