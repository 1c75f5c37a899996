//! Global shortcut actions and the events they raise in the UI.
use vstd::prelude::*;

use crate::text::{chars_eq, chars_of};

verus! {

/// The UI event of a shortcut action: the action's own name for the three
/// known actions, `unknown` otherwise.
pub open spec fn action_event(action: Seq<char>) -> Seq<char> {
    if action == "save_clip"@ {
        "save_clip"@
    } else if action == "toggle_recording"@ {
        "toggle_recording"@
    } else if action == "open_library"@ {
        "open_library"@
    } else {
        "unknown"@
    }
}

/// Maps a hotkey action name to its UI event name.
pub fn action_to_event(action: &str) -> (r: &'static str)
    ensures
        r@ == action_event(action@),
{
    let a = chars_of(action);
    if chars_eq(a.as_slice(), chars_of("save_clip").as_slice()) {
        "save_clip"
    } else if chars_eq(a.as_slice(), chars_of("toggle_recording").as_slice()) {
        "toggle_recording"
    } else if chars_eq(a.as_slice(), chars_of("open_library").as_slice()) {
        "open_library"
    } else {
        "unknown"
    }
}

} // verus!
