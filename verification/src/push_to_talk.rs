//! Push-to-talk on the Fn (Globe) key: which keyboard events are reported.

use vstd::prelude::*;

verus! {

/// The virtual key code of the Fn/Globe key.
pub const FN_KEY_CODE: i64 = 63;

/// The event mask that selects flag-change (modifier) events.
pub const FLAGS_CHANGED_MASK: u64 = 1 << 12;

/// A push-to-talk transition reported to the interface.
#[derive(Debug, Clone, Copy, PartialEq, Eq)]
pub struct PushToTalkEvent {
    pub state: &'static str,
    pub key: &'static str,
}

/// The transition to report for a keyboard event: only flag-change events of
/// the Fn key, and only when someone listens, are reported, as `pressed` when
/// the Fn flag is set and `released` otherwise. Arrow and navigation keys
/// carry the same flag but have other key codes.
pub fn fn_key_event(flags_changed: bool, key_code: i64, has_listener: bool, fn_flag_set: bool) -> (r:
    Option<PushToTalkEvent>)
    ensures
        r is Some <==> (flags_changed && key_code == FN_KEY_CODE && has_listener),
        r matches Some(e) ==> (e.key@ == "Fn"@ && (fn_flag_set ==> e.state@ == "pressed"@) && (
        !fn_flag_set ==> e.state@ == "released"@)),
{
    if flags_changed && key_code == FN_KEY_CODE && has_listener {
        let state = if fn_flag_set {
            "pressed"
        } else {
            "released"
        };
        Some(PushToTalkEvent { state, key: "Fn" })
    } else {
        None
    }
}

} // verus!
