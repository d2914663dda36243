//! The names of the notifications sent to the user interface.

use vstd::prelude::*;

verus! {

/// Notification names.
pub struct Events;

impl Events {
    pub const RECORDING_STATE_CHANGED: &'static str = "recording-state-changed";

    pub const PLAYBACK_FINISHED: &'static str = "playback-finished";

    pub const TRANSCRIPTION_STARTED: &'static str = "transcription_started";

    pub const TRANSCRIPTION_SUCCESS: &'static str = "transcription_success";

    pub const TRANSCRIPTION_FAILED: &'static str = "transcription_failed";

    pub const MEETING_DETECTED: &'static str = "meeting-detected";

    pub const MEETING_ENDED: &'static str = "meeting-ended";
}

} // verus!
