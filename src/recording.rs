//! The recording lifecycle: the Idle / Recording / Paused state machine, the
//! playback state, and the list of recent recordings.

use vstd::prelude::*;
use crossbeam_channel::Receiver;
use crate::audio::{AudioCommand, RecorderState};
use crate::paths::{
    join_path, AppPaths, base_name, extension_of, file_name, has_extension, lemma_with_extension_has_it, recorded_file_name,
    with_extension_spec,
};
use crate::text::{append_decimal, append_decimal2, decimal, decimal2, owned};

verus! {

/// How many recordings the recent list keeps.
pub const MAX_RECENT_RECORDINGS: usize = 5;

/// Where a recording stands with the transcription service.
#[derive(Debug, Clone, Copy, PartialEq, Eq, Structural)]
pub enum RecordingStatus {
    /// Recorded locally, not yet uploaded.
    Local,
    /// Uploaded and processed.
    Uploaded,
    /// Upload or processing failed.
    Failed,
}

/// A finished recording. `timestamp` is when it ended, in milliseconds since
/// the Unix epoch (UTC); `duration` reads `M:SS`.
#[derive(Debug, Clone)]
pub struct Recording {
    pub id: String,
    pub filename: String,
    pub duration: String,
    pub timestamp: i64,
    pub status: RecordingStatus,
}

impl Recording {
    /// A copy of this recording.
    pub fn duplicate(&self) -> (r: Recording)
        ensures
            r == *self,
    {
        Recording {
            id: self.id.clone(),
            filename: self.filename.clone(),
            duration: self.duration.clone(),
            timestamp: self.timestamp,
            status: self.status,
        }
    }
}

/// The recorder's lifecycle state. Times are milliseconds since the Unix
/// epoch; `elapsed` is in whole seconds.
#[derive(Debug, Clone)]
pub enum RecordingState {
    Idle,
    Recording { start_time: i64, file_path: String },
    Paused { start_time: i64, elapsed: u64, file_path: String },
}

/// Whether a recording is being played back, and which.
#[derive(Debug, Clone)]
pub enum PlaybackState {
    Idle,
    Playing { recording_id: String, filename: String, start_time: i64 },
}

/// A request to the lifecycle state machine.
pub enum LifecycleOp {
    Start { start_time: i64, file_path: String },
    Pause { now: i64 },
    Resume,
    Stop { end_time: i64 },
}

/// Whole seconds from `start` to `end`; a clock that went backwards counts
/// as no time.
pub open spec fn elapsed_seconds_spec(start: i64, end: i64) -> nat {
    if end >= start {
        ((end - start) / 1000) as nat
    } else {
        0
    }
}

/// The state that `op` leads to from `s`, or `None` where `op` is not
/// allowed: start only from Idle, pause only while recording, resume only
/// while paused, stop from Recording or Paused.
pub open spec fn lifecycle_step(s: RecordingState, op: LifecycleOp) -> Option<RecordingState> {
    match op {
        LifecycleOp::Start { start_time, file_path } => if s is Idle {
            Some(RecordingState::Recording { start_time, file_path })
        } else {
            None
        },
        LifecycleOp::Pause { now } => match s {
            RecordingState::Recording { start_time, file_path } => Some(
                RecordingState::Paused {
                    start_time,
                    elapsed: elapsed_seconds_spec(start_time, now) as u64,
                    file_path,
                },
            ),
            _ => None,
        },
        LifecycleOp::Resume => match s {
            RecordingState::Paused { start_time, file_path, .. } => Some(
                RecordingState::Recording { start_time, file_path },
            ),
            _ => None,
        },
        LifecycleOp::Stop { .. } => if s is Idle {
            None
        } else {
            Some(RecordingState::Idle)
        },
    }
}

/// The duration text `M:SS` of `seconds`.
pub open spec fn duration_text(seconds: nat) -> Seq<char> {
    decimal(seconds / 60) + seq![':'] + decimal2(seconds % 60)
}

/// The state's name as the user interface shows it.
pub open spec fn state_label(s: RecordingState) -> Seq<char> {
    match s {
        RecordingState::Idle => "idle"@,
        RecordingState::Recording { .. } => "recording"@,
        RecordingState::Paused { .. } => "paused"@,
    }
}

/// The playback state's name as the user interface shows it.
pub open spec fn playback_label(s: PlaybackState) -> Seq<char> {
    match s {
        PlaybackState::Idle => "idle"@,
        PlaybackState::Playing { .. } => "playing"@,
    }
}

/// Whole seconds from `start` to `end`.
pub fn elapsed_seconds(start: i64, end: i64) -> (r: u64)
    ensures
        r == elapsed_seconds_spec(start, end),
{
    if end >= start {
        let d: i128 = end as i128 - start as i128;
        assert(d / 1000 < 0x1_0000_0000_0000_0000) by (nonlinear_arith)
            requires
                0 <= d < 0x1_0000_0000_0000_0000,
        ;
        (d / 1000) as u64
    } else {
        0
    }
}

/// Writes `seconds` as `M:SS`.
pub fn format_duration(seconds: u64) -> (r: String)
    ensures
        r@ == duration_text(seconds as nat),
{
    let mut r = String::new();
    append_decimal(&mut r, seconds / 60);
    r.append(":");
    append_decimal2(&mut r, seconds % 60);
    proof {
        reveal_strlit(":");
        assert(r@ =~= duration_text(seconds as nat));
    }
    r
}

/// The name of the recording file started at the instant written `stamp`.
pub fn recording_file_name(stamp: &str) -> (r: String)
    ensures
        r@ == "recording_"@ + stamp@ + ".wav"@,
{
    let mut r = owned("recording_");
    r.append(stamp);
    r.append(".wav");
    r
}

/// The date and time that chrono writes for an instant.
pub uninterp spec fn utc_compact_stamp(millis: int) -> Seq<char>;

/// Relies on chrono's `DateTime::from_timestamp_millis` and its `format`:
/// the UTC date and time of the instant `millis` written as
/// `%Y%m%d_%H%M%S`, or `None` where chrono cannot represent the instant.
/// chrono represents every instant of the years 1970 to 9999, whose four-digit
/// years make the text 15 characters long.
#[verifier::external_body]
fn compact_utc_stamp(millis: i64) -> (r: Option<String>)
    ensures
        r matches Some(s) ==> s@ == utc_compact_stamp(millis as int),
        0 <= millis <= LAST_MILLIS_OF_9999 ==> r is Some,
        r matches Some(s) ==> (0 <= millis <= LAST_MILLIS_OF_9999 ==> s@.len() == 15),
{
    match chrono::DateTime::from_timestamp_millis(millis) {
        Some(t) => Some(t.format("%Y%m%d_%H%M%S").to_string()),
        None => None,
    }
}

/// The last millisecond of the year 9999, UTC.
pub const LAST_MILLIS_OF_9999: i64 = 253402300799999;

/// The name of the recording file started at `millis`, or `None` where the
/// instant has no calendar date.
pub fn recording_file_name_at(millis: i64) -> (r: Option<String>)
    ensures
        0 <= millis <= LAST_MILLIS_OF_9999 ==> r is Some,
        r matches Some(n) ==> n@ == "recording_"@ + utc_compact_stamp(millis as int) + ".wav"@,
{
    match compact_utc_stamp(millis) {
        Some(stamp) => Some(recording_file_name(stamp.as_str())),
        None => None,
    }
}

/// Lowercase hexadecimal digit.
pub open spec fn is_lower_hex(c: char) -> bool {
    ('0' <= c && c <= '9') || ('a' <= c && c <= 'f')
}

/// A UUID written in its hyphenated lowercase form.
pub open spec fn is_hyphenated_uuid(s: Seq<char>) -> bool {
    &&& s.len() == 36
    &&& forall|i: int|
        0 <= i < 36 ==> if i == 8 || i == 13 || i == 18 || i == 23 {
            #[trigger] s[i] == '-'
        } else {
            is_lower_hex(s[i])
        }
}

/// Relies on uuid's `Uuid::new_v4` and its `Display`: a fresh random UUID,
/// written as 32 lowercase hexadecimal digits in groups of 8-4-4-4-12
/// separated by hyphens.
#[verifier::external_body]
fn new_recording_id() -> (r: String)
    ensures
        is_hyphenated_uuid(r@),
{
    uuid::Uuid::new_v4().to_string()
}

/// `s` cut down to the recent-list size.
pub open spec fn cap_recent(s: Seq<Recording>) -> Seq<Recording> {
    if s.len() > MAX_RECENT_RECORDINGS {
        s.take(MAX_RECENT_RECORDINGS as int)
    } else {
        s
    }
}

/// The recent list after `r` is added in front of `s`.
pub open spec fn with_newest(s: Seq<Recording>, r: Recording) -> Seq<Recording> {
    cap_recent(seq![r] + s)
}

/// Puts `r` at the front of `list`, keeping at most the recent-list size.
pub fn add_recording(list: &mut Vec<Recording>, r: Recording)
    ensures
        final(list)@ == with_newest(old(list)@, r),
{
    list.insert(0, r);
    if list.len() > MAX_RECENT_RECORDINGS {
        list.truncate(MAX_RECENT_RECORDINGS);
    }
    proof {
        assert(old(list)@.insert(0, r) =~= seq![r] + old(list)@);
    }
}

/// A recording session that was just stopped: the file it wrote, how long it
/// ran and when it ended.
#[derive(Debug)]
pub struct StoppedRecording {
    pub file_path: String,
    pub duration: String,
    pub ended_at: i64,
}

/// A recording that was added to the recent list, with the file that holds it
/// and whether that file should go to the transcription service.
#[derive(Debug)]
pub struct CompletedRecording {
    pub recording: Recording,
    pub file_path: String,
    pub transcribe: bool,
}

/// What a toggle did.
pub enum ToggleOutcome {
    /// A recording started; a new audio queue's receiver may come with it.
    Started { receiver: Option<Receiver<AudioCommand>> },
    /// The recording stopped.
    Stopped { stopped: StoppedRecording },
}

/// The recorder's shared state: the lifecycle, playback, the recent list and
/// the audio pipeline's handle.
pub struct AppState {
    pub recording_state: RecordingState,
    pub playback_state: PlaybackState,
    pub recordings: Vec<Recording>,
    pub audio_recorder: RecorderState,
}

impl AppState {
    /// Idle, not playing, no recordings, no audio queue.
    pub fn new() -> (r: AppState)
        ensures
            r.recording_state is Idle,
            r.playback_state is Idle,
            r.recordings@.len() == 0,
            !r.audio_recorder.initialized_spec(),
            !r.audio_recorder.recording_spec(),
    {
        AppState {
            recording_state: RecordingState::Idle,
            playback_state: PlaybackState::Idle,
            recordings: Vec::new(),
            audio_recorder: RecorderState::new(),
        }
    }

    /// Opens the audio queue unless it is open; see [`RecorderState::initialize`].
    pub fn initialize_audio_system(&mut self) -> (r: Option<Receiver<AudioCommand>>)
        ensures
            final(self).audio_recorder.initialized_spec(),
            r is Some <==> !old(self).audio_recorder.initialized_spec(),
            final(self).recording_state == old(self).recording_state,
            final(self).playback_state == old(self).playback_state,
            final(self).recordings == old(self).recordings,
    {
        self.audio_recorder.initialize()
    }
}

/// Starts recording to `file_path` at `start_time`. Only legal while idle:
/// otherwise an error, and nothing changes. Opens the audio queue if needed
/// (its receiver is returned for the caller to run the audio task on) and
/// sends it the start command.
pub fn start_recording(state: &mut AppState, start_time: i64, file_path: String) -> (r: Result<
    Option<Receiver<AudioCommand>>,
    String,
>)
    ensures
        !(old(state).recording_state is Idle) ==> (r matches Err(e) && e@ == "Already recording"@
            && *final(state) == *old(state)),
        r is Ok ==> Some(final(state).recording_state) == lifecycle_step(
            old(state).recording_state,
            LifecycleOp::Start { start_time, file_path },
        ),
        r is Ok ==> final(state).audio_recorder.recording_spec()
            && final(state).audio_recorder.initialized_spec()
            && final(state).audio_recorder.file_path_spec() == Some(file_path@),
        r matches Ok(rx) ==> (rx is Some <==> !old(state).audio_recorder.initialized_spec()),
        old(state).recording_state is Idle ==> final(state).audio_recorder.sent_spec() == old(state).audio_recorder.sent_spec().push((AudioCommand::StartRecording { file_path }, r is Ok)),
        (old(state).recording_state is Idle && r is Err) ==> (r matches Err(e) && e@
            == "Failed to send start command"@ && final(state).recording_state is Idle
            && !final(state).audio_recorder.initialized_spec()
            && !final(state).audio_recorder.recording_spec()
            && final(state).audio_recorder.file_path_spec() is None),
        final(state).recordings == old(state).recordings,
        final(state).playback_state == old(state).playback_state,
{
    match &state.recording_state {
        RecordingState::Idle => {},
        _ => {
            return Err(owned("Already recording"));
        },
    }
    let receiver = state.audio_recorder.initialize();
    let sent = state.audio_recorder.send_command(
        AudioCommand::StartRecording { file_path: file_path.clone() },
    );
    if sent.is_err() {
        state.audio_recorder.cleanup();
        return Err(owned("Failed to send start command"));
    }
    state.audio_recorder.set_current_file_path(Some(file_path.clone()));
    state.audio_recorder.set_recording(true);
    state.recording_state = RecordingState::Recording { start_time, file_path };
    Ok(receiver)
}

/// Pauses the recording at `now`, keeping the seconds elapsed so far. The
/// audio stream itself keeps running: the pause is the state's label.
pub fn pause_recording(state: &mut AppState, now: i64) -> (r: Result<(), String>)
    ensures
        match lifecycle_step(old(state).recording_state, LifecycleOp::Pause { now }) {
            Some(next) => r is Ok && final(state).recording_state == next,
            None => r matches Err(e) && e@ == "Not currently recording"@ && final(state).recording_state
                == old(state).recording_state,
        },
        final(state).recordings == old(state).recordings,
        final(state).playback_state == old(state).playback_state,
        final(state).audio_recorder == old(state).audio_recorder,
{
    let (start_time, file_path) = match &state.recording_state {
        RecordingState::Recording { start_time, file_path } => (*start_time, file_path.clone()),
        _ => {
            return Err(owned("Not currently recording"));
        },
    };
    let elapsed = elapsed_seconds(start_time, now);
    state.recording_state = RecordingState::Paused { start_time, elapsed, file_path };
    Ok(())
}

/// Resumes a paused recording; its start time is kept.
pub fn resume_recording(state: &mut AppState) -> (r: Result<(), String>)
    ensures
        match lifecycle_step(old(state).recording_state, LifecycleOp::Resume) {
            Some(next) => r is Ok && final(state).recording_state == next,
            None => r matches Err(e) && e@ == "Recording is not paused"@ && final(state).recording_state
                == old(state).recording_state,
        },
        final(state).recordings == old(state).recordings,
        final(state).playback_state == old(state).playback_state,
        final(state).audio_recorder == old(state).audio_recorder,
{
    let (start_time, file_path) = match &state.recording_state {
        RecordingState::Paused { start_time, file_path, .. } => (*start_time, file_path.clone()),
        _ => {
            return Err(owned("Recording is not paused"));
        },
    };
    state.recording_state = RecordingState::Recording { start_time, file_path };
    Ok(())
}

/// Stops the recording or paused recording at `end_time`: the state becomes
/// Idle, the audio task is told to stop and finalise the file, and the audio
/// queue is closed. The duration counts from the first start, pauses
/// included.
pub fn stop_recording(state: &mut AppState, end_time: i64) -> (r: Result<StoppedRecording, String>)
    ensures
        old(state).recording_state is Idle ==> (r matches Err(e) && e@ == "Not recording"@
            && *final(state) == *old(state)),
        !(old(state).recording_state is Idle) ==> {
            &&& final(state).recording_state is Idle
            &&& !final(state).audio_recorder.initialized_spec()
            &&& !final(state).audio_recorder.recording_spec()
            &&& final(state).audio_recorder.file_path_spec() is None
            &&& r matches Err(e) ==> e@ == "Failed to send stop command"@
            &&& old(state).audio_recorder.initialized_spec() ==> final(state).audio_recorder.sent_spec() == old(state).audio_recorder.sent_spec().push(
                (AudioCommand::StopRecording, r is Ok),
            )
            &&& !old(state).audio_recorder.initialized_spec() ==> (r is Ok && final(state).audio_recorder.sent_spec() == old(state).audio_recorder.sent_spec())
        },
        r matches Ok(stopped) ==> match old(state).recording_state {
            RecordingState::Recording { start_time, file_path } => stopped.file_path == file_path
                && stopped.duration@ == duration_text(elapsed_seconds_spec(start_time, end_time))
                && stopped.ended_at == end_time,
            RecordingState::Paused { start_time, file_path, .. } => stopped.file_path == file_path
                && stopped.duration@ == duration_text(elapsed_seconds_spec(start_time, end_time))
                && stopped.ended_at == end_time,
            RecordingState::Idle => false,
        },
        final(state).recordings == old(state).recordings,
        final(state).playback_state == old(state).playback_state,
{
    let (start_time, file_path) = match &state.recording_state {
        RecordingState::Recording { start_time, file_path } => (*start_time, file_path.clone()),
        RecordingState::Paused { start_time, file_path, .. } => (*start_time, file_path.clone()),
        RecordingState::Idle => {
            return Err(owned("Not recording"));
        },
    };
    state.recording_state = RecordingState::Idle;
    let sent = if state.audio_recorder.is_initialized() {
        state.audio_recorder.send_command(AudioCommand::StopRecording).is_ok()
    } else {
        true
    };
    state.audio_recorder.cleanup();
    if !sent {
        return Err(owned("Failed to send stop command"));
    }
    let duration = format_duration(elapsed_seconds(start_time, end_time));
    Ok(StoppedRecording { file_path, duration, ended_at: end_time })
}

/// The file that holds a stopped recording: the converted file when there is
/// one, else the WAV file that was recorded.
pub open spec fn final_file(stopped: StoppedRecording, converted: Option<String>) -> Seq<char> {
    match converted {
        Some(p) => p@,
        None => stopped.file_path@,
    }
}

/// Adds a stopped recording to the front of the recent list, under a fresh
/// id, and says whether its file goes to transcription: only a converted
/// (`.opus`) file does.
pub fn complete_recording(
    state: &mut AppState,
    stopped: StoppedRecording,
    converted: Option<String>,
) -> (r: CompletedRecording)
    ensures
        r.file_path@ == final_file(stopped, converted),
        r.recording.filename@ == recorded_file_name(final_file(stopped, converted)),
        r.recording.duration == stopped.duration,
        r.recording.timestamp == stopped.ended_at,
        r.recording.status == RecordingStatus::Local,
        is_hyphenated_uuid(r.recording.id@),
        r.transcribe == (extension_of(final_file(stopped, converted)) == Some("opus"@)),
        final(state).recordings@ == with_newest(old(state).recordings@, r.recording),
        final(state).recording_state == old(state).recording_state,
        final(state).playback_state == old(state).playback_state,
        final(state).audio_recorder == old(state).audio_recorder,
{
    let final_path = match converted {
        Some(p) => p,
        None => stopped.file_path,
    };
    let recording = Recording {
        id: new_recording_id(),
        filename: file_name(final_path.as_str()),
        duration: stopped.duration,
        timestamp: stopped.ended_at,
        status: RecordingStatus::Local,
    };
    add_recording(&mut state.recordings, recording.duplicate());
    let transcribe = has_extension(final_path.as_str(), "opus");
    CompletedRecording { recording, file_path: final_path, transcribe }
}

/// A stopped recording whose WAV file was converted to the same path with the
/// `opus` extension is listed under the converted file's own name, which
/// has that extension, so `complete_recording` sends it to transcription. A
/// recording whose conversion failed keeps its `.wav` file and name, and is
/// not transcribed.
pub proof fn lemma_converted_recording_is_opus(stopped: StoppedRecording, converted: String)
    requires
        base_name(stopped.file_path@).len() > 0,
        converted@ == with_extension_spec(stopped.file_path@, "opus"@),
    ensures
        final_file(stopped, Some(converted)) == converted@,
        extension_of(final_file(stopped, Some(converted))) == Some("opus"@),
        recorded_file_name(converted@) == base_name(converted@),
        extension_of(stopped.file_path@) == Some("wav"@) ==> extension_of(
            final_file(stopped, None),
        ) != Some("opus"@) && recorded_file_name(final_file(stopped, None)) == base_name(
            stopped.file_path@,
        ),
{
    reveal_strlit("opus");
    reveal_strlit("wav");
    lemma_with_extension_has_it(stopped.file_path@, "opus"@);
    assert("wav"@.len() != "opus"@.len());
}

/// Stops when a recording is under way, starts one otherwise.
pub fn toggle_recording(state: &mut AppState, now: i64, file_path: String) -> (r: Result<
    ToggleOutcome,
    String,
>)
    ensures
        old(state).recording_state is Idle ==> match r {
            Ok(ToggleOutcome::Started { .. }) => final(state).recording_state
                == RecordingState::Recording { start_time: now, file_path },
            Ok(ToggleOutcome::Stopped { .. }) => false,
            Err(e) => e@ == "Failed to send start command"@ && final(state).recording_state is Idle,
        },
        old(state).recording_state is Idle ==> final(state).audio_recorder.sent_spec() == old(state).audio_recorder.sent_spec().push((AudioCommand::StartRecording { file_path }, r is Ok)),
        !(old(state).recording_state is Idle) && old(state).audio_recorder.initialized_spec()
            ==> final(state).audio_recorder.sent_spec() == old(state).audio_recorder.sent_spec().push(
            (AudioCommand::StopRecording, r is Ok),
        ),
        !(old(state).recording_state is Idle) && !old(state).audio_recorder.initialized_spec()
            ==> r is Ok,
        !(old(state).recording_state is Idle) ==> final(state).recording_state is Idle && match r {
            Ok(ToggleOutcome::Started { .. }) => false,
            Ok(ToggleOutcome::Stopped { stopped }) => stopped.ended_at == now,
            Err(e) => e@ == "Failed to send stop command"@,
        },
        final(state).recordings == old(state).recordings,
        final(state).playback_state == old(state).playback_state,
{
    let idle = match &state.recording_state {
        RecordingState::Idle => true,
        _ => false,
    };
    if idle {
        match start_recording(state, now, file_path) {
            Ok(receiver) => Ok(ToggleOutcome::Started { receiver }),
            Err(e) => Err(e),
        }
    } else {
        match stop_recording(state, now) {
            Ok(stopped) => Ok(ToggleOutcome::Stopped { stopped }),
            Err(e) => Err(e),
        }
    }
}

/// The lifecycle state's name.
pub fn get_recording_state(state: &AppState) -> (r: Result<String, String>)
    ensures
        r matches Ok(s) && s@ == state_label(state.recording_state),
{
    let label = match &state.recording_state {
        RecordingState::Idle => "idle",
        RecordingState::Recording { .. } => "recording",
        RecordingState::Paused { .. } => "paused",
    };
    Ok(owned(label))
}

/// The playback state's name.
pub fn get_playback_state(state: &AppState) -> (r: Result<String, String>)
    ensures
        r matches Ok(s) && s@ == playback_label(state.playback_state),
{
    let label = match &state.playback_state {
        PlaybackState::Idle => "idle",
        PlaybackState::Playing { .. } => "playing",
    };
    Ok(owned(label))
}

/// A copy of the recent list.
pub fn get_recent_recordings(state: &AppState) -> (r: Result<Vec<Recording>, String>)
    ensures
        r matches Ok(v) && v@ == state.recordings@,
{
    let mut v: Vec<Recording> = Vec::new();
    let mut i: usize = 0;
    while i < state.recordings.len()
        invariant
            i <= state.recordings.len(),
            v@ == state.recordings@.take(i as int),
        decreases state.recordings.len() - i,
    {
        v.push(state.recordings[i].duplicate());
        proof {
            assert(v@ =~= state.recordings@.take(i + 1));
        }
        i = i + 1;
    }
    proof {
        assert(v@ =~= state.recordings@);
    }
    Ok(v)
}

/// `i` is the first position in `s` of a recording with id `id`.
pub open spec fn is_first_with_id(s: Seq<Recording>, id: Seq<char>, i: int) -> bool {
    &&& 0 <= i < s.len()
    &&& s[i].id@ == id
    &&& forall|j: int| 0 <= j < i ==> (#[trigger] s[j]).id@ != id
}

/// The first recording in `list` with id `id`.
pub fn find_recording(list: &Vec<Recording>, id: &str) -> (r: Option<Recording>)
    ensures
        match r {
            Some(x) => exists|i: int| is_first_with_id(list@, id@, i) && list@[i] == x,
            None => forall|i: int| 0 <= i < list.len() ==> (#[trigger] list@[i]).id@ != id@,
        },
{
    let key = owned(id);
    let mut i: usize = 0;
    while i < list.len()
        invariant
            i <= list.len(),
            key@ == id@,
            forall|j: int| 0 <= j < i ==> (#[trigger] list@[j]).id@ != id@,
        decreases list.len() - i,
    {
        if list[i].id == key {
            proof {
                assert(is_first_with_id(list@, id@, i as int));
            }
            return Some(list[i].duplicate());
        }
        i = i + 1;
    }
    None
}

/// `s` without the recordings whose id is `id`, in order.
pub open spec fn without_id(s: Seq<Recording>, id: Seq<char>) -> Seq<Recording>
    decreases s.len(),
{
    if s.len() == 0 {
        s
    } else if s.last().id@ == id {
        without_id(s.drop_last(), id)
    } else {
        without_id(s.drop_last(), id).push(s.last())
    }
}

fn remove_id(list: &Vec<Recording>, key: &String) -> (r: Vec<Recording>)
    ensures
        r@ == without_id(list@, key@),
{
    let mut r: Vec<Recording> = Vec::new();
    let mut i: usize = 0;
    while i < list.len()
        invariant
            i <= list.len(),
            r@ == without_id(list@.take(i as int), key@),
        decreases list.len() - i,
    {
        proof {
            assert(list@.take(i + 1).drop_last() =~= list@.take(i as int));
        }
        if list[i].id != *key {
            r.push(list[i].duplicate());
        }
        i = i + 1;
    }
    proof {
        assert(list@.take(list.len() as int) =~= list@);
    }
    r
}

/// Stops playback: the state becomes Idle and, if the audio queue is open,
/// the audio task is told to stop playing.
pub fn stop_playback(state: &mut AppState) -> (r: Result<(), String>)
    ensures
        final(state).playback_state is Idle,
        r matches Err(e) ==> e@ == "Failed to send stop playback command"@,
        old(state).audio_recorder.initialized_spec() ==> final(state).audio_recorder.sent_spec()
            == old(state).audio_recorder.sent_spec().push((AudioCommand::StopPlayback, r is Ok)),
        !old(state).audio_recorder.initialized_spec() ==> (r is Ok && final(state).audio_recorder.sent_spec() == old(state).audio_recorder.sent_spec()),
        final(state).recording_state == old(state).recording_state,
        final(state).recordings == old(state).recordings,
        final(state).audio_recorder.initialized_spec() == old(state).audio_recorder.initialized_spec(),
        final(state).audio_recorder.recording_spec() == old(state).audio_recorder.recording_spec(),
        final(state).audio_recorder.file_path_spec() == old(state).audio_recorder.file_path_spec(),
{
    state.playback_state = PlaybackState::Idle;
    if state.audio_recorder.is_initialized() {
        if state.audio_recorder.send_command(AudioCommand::StopPlayback).is_err() {
            return Err(owned("Failed to send stop playback command"));
        }
    }
    Ok(())
}

proof fn lemma_not_found_messages_differ()
    ensures
        "Recording not found"@ != "Recording file not found"@,
        "Recording not found"@ != "Failed to send stop playback command"@,
        "Recording not found"@ != "Failed to send playback command"@,
        "Recording file not found"@ != "Failed to send playback command"@,
{
    reveal_strlit("Recording not found");
    reveal_strlit("Recording file not found");
    reveal_strlit("Failed to send stop playback command");
    reveal_strlit("Failed to send playback command");
    assert("Recording not found"@.len() != "Recording file not found"@.len());
    assert("Recording not found"@.len() != "Failed to send stop playback command"@.len());
    assert("Recording not found"@.len() != "Failed to send playback command"@.len());
    assert("Recording file not found"@.len() != "Failed to send playback command"@.len());
}

/// Some recording in `s` has id `id`.
pub open spec fn has_id(s: Seq<Recording>, id: Seq<char>) -> bool {
    exists|i: int| 0 <= i < s.len() && (#[trigger] s[i]).id@ == id
}

/// The recording with id `id` is the one playing.
pub open spec fn is_playing(p: PlaybackState, id: Seq<char>) -> bool {
    match p {
        PlaybackState::Playing { recording_id, .. } => recording_id@ == id,
        PlaybackState::Idle => false,
    }
}

/// Removes the recording `recording_id` from the recent list (its file is the
/// caller's to delete) and stops playback if it was the one playing. The
/// removed recording is returned.
pub fn delete_recording(state: &mut AppState, recording_id: &str) -> (r: Result<Recording, String>)
    ensures
        !has_id(old(state).recordings@, recording_id@) <==> (r matches Err(e) && e@
            == "Recording not found"@),
        !has_id(old(state).recordings@, recording_id@) ==> *final(state) == *old(state),
        has_id(old(state).recordings@, recording_id@) ==> final(state).recordings@ == without_id(
            old(state).recordings@,
            recording_id@,
        ),
        has_id(old(state).recordings@, recording_id@) && !(is_playing(
            old(state).playback_state,
            recording_id@,
        ) && old(state).audio_recorder.initialized_spec()) ==> r is Ok,
        has_id(old(state).recordings@, recording_id@) && is_playing(
            old(state).playback_state,
            recording_id@,
        ) ==> final(state).playback_state is Idle,
        has_id(old(state).recordings@, recording_id@) && is_playing(
            old(state).playback_state,
            recording_id@,
        ) && old(state).audio_recorder.initialized_spec() ==> final(state).audio_recorder.sent_spec()
            == old(state).audio_recorder.sent_spec().push((AudioCommand::StopPlayback, r is Ok)),
        !(is_playing(old(state).playback_state, recording_id@)
            && old(state).audio_recorder.initialized_spec()) ==> final(state).audio_recorder.sent_spec()
            == old(state).audio_recorder.sent_spec(),
        !is_playing(old(state).playback_state, recording_id@) ==> final(state).playback_state
            == old(state).playback_state,
        r matches Ok(x) ==> exists|i: int|
            is_first_with_id(old(state).recordings@, recording_id@, i) && old(state).recordings@[i]
                == x,
        r matches Err(e) ==> (e@ == "Recording not found"@ || e@
            == "Failed to send stop playback command"@),
        final(state).recording_state == old(state).recording_state,
        final(state).audio_recorder.initialized_spec() == old(state).audio_recorder.initialized_spec(),
        final(state).audio_recorder.recording_spec() == old(state).audio_recorder.recording_spec(),
        final(state).audio_recorder.file_path_spec() == old(state).audio_recorder.file_path_spec(),
{
    proof {
        lemma_not_found_messages_differ();
    }
    let found = match find_recording(&state.recordings, recording_id) {
        Some(x) => x,
        None => {
            return Err(owned("Recording not found"));
        },
    };
    let key = owned(recording_id);
    state.recordings = remove_id(&state.recordings, &key);
    let playing_it = match &state.playback_state {
        PlaybackState::Playing { recording_id: playing, .. } => *playing == key,
        PlaybackState::Idle => false,
    };
    if playing_it {
        match stop_playback(state) {
            Ok(()) => {},
            Err(e) => {
                return Err(e);
            },
        }
    }
    Ok(found)
}

/// `path` is the file, under `paths`, of the first recording in `s` with id
/// `id`.
pub open spec fn is_file_of(paths: AppPaths, s: Seq<Recording>, id: Seq<char>, path: Seq<char>) -> bool {
    exists|i: int|
        #[trigger] is_first_with_id(s, id, i) && path == join_path(
            paths.recordings_dir_spec(),
            s[i].filename@,
        )
}

/// The file of the recording `recording_id`: its filename in the recordings
/// directory of `paths`; `None` when no recording has that id.
pub fn recording_file(state: &AppState, paths: &AppPaths, recording_id: &str) -> (r: Option<String>)
    ensures
        match r {
            Some(p) => is_file_of(*paths, state.recordings@, recording_id@, p@),
            None => !has_id(state.recordings@, recording_id@),
        },
{
    match find_recording(&state.recordings, recording_id) {
        Some(found) => {
            let p = paths.recording_path(found.filename.as_str());
            proof {
                let i = choose|i: int|
                    is_first_with_id(state.recordings@, recording_id@, i) && state.recordings@[i]
                        == found;
                assert(is_first_with_id(state.recordings@, recording_id@, i));
            }
            Some(p)
        },
        None => None,
    }
}

/// The command plays the file, under `paths`, of the first recording in `s`
/// with id `id`.
pub open spec fn plays_file_of(
    cmd: AudioCommand,
    paths: AppPaths,
    s: Seq<Recording>,
    id: Seq<char>,
) -> bool {
    match cmd {
        AudioCommand::StartPlayback { file_path } => is_file_of(paths, s, id, file_path@),
        _ => false,
    }
}

/// Starts playing the recording `recording_id` from its file in the
/// recordings directory of `paths`; `file_exists` says whether that file is
/// on disk. Opens the audio queue if needed (its receiver is returned for the
/// caller to run the audio task on).
pub fn play_recording(
    state: &mut AppState,
    paths: &AppPaths,
    recording_id: &str,
    file_exists: bool,
    now: i64,
) -> (r: Result<Option<Receiver<AudioCommand>>, String>)
    ensures
        !has_id(old(state).recordings@, recording_id@) <==> (r matches Err(e) && e@
            == "Recording not found"@),
        !has_id(old(state).recordings@, recording_id@) ==> *final(state) == *old(state),
        has_id(old(state).recordings@, recording_id@) && !file_exists <==> (r matches Err(e) && e@
            == "Recording file not found"@),
        has_id(old(state).recordings@, recording_id@) && !file_exists ==> *final(state) == *old(state),
        has_id(old(state).recordings@, recording_id@) && file_exists ==> {
            let sent = final(state).audio_recorder.sent_spec();
            &&& final(state).audio_recorder.initialized_spec()
            &&& sent.len() == old(state).audio_recorder.sent_spec().len() + 1
            &&& sent.drop_last() == old(state).audio_recorder.sent_spec()
            &&& sent.last().1 == r is Ok
            &&& plays_file_of(sent.last().0, *paths, old(state).recordings@, recording_id@)
            &&& r matches Err(e) ==> e@ == "Failed to send playback command"@
                && final(state).playback_state == old(state).playback_state
        },
        r is Ok ==> exists|i: int|
            is_first_with_id(old(state).recordings@, recording_id@, i) && final(state).playback_state
                == (PlaybackState::Playing {
                recording_id: old(state).recordings@[i].id,
                filename: old(state).recordings@[i].filename,
                start_time: now,
            }),
        r matches Ok(rx) ==> (rx is Some <==> !old(state).audio_recorder.initialized_spec()),
        final(state).recording_state == old(state).recording_state,
        final(state).recordings == old(state).recordings,
        final(state).audio_recorder.recording_spec() == old(state).audio_recorder.recording_spec(),
        final(state).audio_recorder.file_path_spec() == old(state).audio_recorder.file_path_spec(),
{
    proof {
        lemma_not_found_messages_differ();
    }
    let found = match find_recording(&state.recordings, recording_id) {
        Some(x) => x,
        None => {
            return Err(owned("Recording not found"));
        },
    };
    if !file_exists {
        return Err(owned("Recording file not found"));
    }
    let file_path = paths.recording_path(found.filename.as_str());
    let ghost path = file_path@;
    proof {
        let i = choose|i: int|
            is_first_with_id(state.recordings@, recording_id@, i) && state.recordings@[i] == found;
        assert(is_first_with_id(state.recordings@, recording_id@, i));
        assert(is_file_of(*paths, state.recordings@, recording_id@, path));
    }
    let receiver = state.audio_recorder.initialize();
    let ghost before = state.audio_recorder.sent_spec();
    let sent = state.audio_recorder.send_command(AudioCommand::StartPlayback { file_path });
    proof {
        assert(state.audio_recorder.sent_spec().drop_last() =~= before);
    }
    if sent.is_err() {
        return Err(owned("Failed to send playback command"));
    }
    state.playback_state = PlaybackState::Playing {
        recording_id: found.id,
        filename: found.filename,
        start_time: now,
    };
    Ok(receiver)
}

// ---------------------------------------------------------------------------
// Loading and saving the metadata list
// ---------------------------------------------------------------------------

/// The flag for entry `i`: a missing flag counts as a missing file.
pub open spec fn flag_at(present: Seq<bool>, i: int) -> bool {
    0 <= i < present.len() && present[i]
}

/// The entries of `s` whose backing file is present, in order.
pub open spec fn select_present(s: Seq<Recording>, present: Seq<bool>) -> Seq<Recording>
    decreases s.len(),
{
    if s.len() == 0 {
        s
    } else if flag_at(present, s.len() - 1) {
        select_present(s.drop_last(), present).push(s.last())
    } else {
        select_present(s.drop_last(), present)
    }
}

/// How many entries at the front of `s` are no older than `t`.
pub open spec fn count_not_older(s: Seq<Recording>, t: i64) -> nat
    decreases s.len(),
{
    if s.len() == 0 {
        0
    } else if s[0].timestamp >= t {
        1 + count_not_older(s.drop_first(), t)
    } else {
        0
    }
}

/// `x` placed into `s` after every leading entry no older than it.
pub open spec fn insert_by_age(s: Seq<Recording>, x: Recording) -> Seq<Recording> {
    let k = count_not_older(s, x.timestamp) as int;
    s.take(k) + seq![x] + s.skip(k)
}

/// `s` ordered newest first; entries with equal timestamps keep their order.
pub open spec fn newest_first(s: Seq<Recording>) -> Seq<Recording>
    decreases s.len(),
{
    if s.len() == 0 {
        s
    } else {
        insert_by_age(newest_first(s.drop_last()), s.last())
    }
}

/// `s` is ordered newest first.
pub open spec fn is_newest_first(s: Seq<Recording>) -> bool {
    forall|i: int, j: int| 0 <= i < j < s.len() ==> s[i].timestamp >= s[j].timestamp
}

/// The list that loading a stored list yields: entries whose file is gone are
/// dropped, the rest ordered newest first and cut to the recent-list size.
pub open spec fn loaded_recordings(stored: Seq<Recording>, present: Seq<bool>) -> Seq<Recording> {
    cap_recent(newest_first(select_present(stored, present)))
}

/// The list as it is written out: newest first, cut to the recent-list size.
pub open spec fn saved_recordings(list: Seq<Recording>) -> Seq<Recording> {
    cap_recent(newest_first(list))
}

proof fn lemma_count_not_older_bound(s: Seq<Recording>, t: i64)
    ensures
        count_not_older(s, t) <= s.len(),
        forall|i: int| 0 <= i < count_not_older(s, t) ==> (#[trigger] s[i]).timestamp >= t,
        count_not_older(s, t) < s.len() ==> s[count_not_older(s, t) as int].timestamp < t,
    decreases s.len(),
{
    if s.len() > 0 && s[0].timestamp >= t {
        lemma_count_not_older_bound(s.drop_first(), t);
        if count_not_older(s, t) < s.len() {
            assert(s[count_not_older(s, t) as int] == s.drop_first()[count_not_older(s, t) - 1]);
        }
        assert forall|i: int| 0 <= i < count_not_older(s, t) implies (#[trigger] s[i]).timestamp >= t by {
            if i > 0 {
                assert(s[i] == s.drop_first()[i - 1]);
            }
        }
    }
}

fn insert_by_age_exec(v: &Vec<Recording>, x: Recording) -> (r: Vec<Recording>)
    ensures
        r@ == insert_by_age(v@, x),
{
    let t = x.timestamp;
    let mut k: usize = 0;
    proof {
        assert(v@.skip(0) =~= v@);
    }
    while k < v.len() && v[k].timestamp >= t
        invariant
            k <= v.len(),
            count_not_older(v@, t) == k + count_not_older(v@.skip(k as int), t),
        decreases v.len() - k,
    {
        proof {
            assert(v@.skip(k as int).drop_first() =~= v@.skip(k + 1));
        }
        k = k + 1;
    }
    proof {
        if k < v.len() {
            assert(v@.skip(k as int)[0] == v@[k as int]);
        }
        assert(count_not_older(v@.skip(k as int), t) == 0);
    }
    let mut r: Vec<Recording> = Vec::new();
    let mut i: usize = 0;
    while i < k
        invariant
            i <= k <= v.len(),
            r@ == v@.take(i as int),
        decreases k - i,
    {
        r.push(v[i].duplicate());
        proof {
            assert(r@ =~= v@.take(i + 1));
        }
        i = i + 1;
    }
    r.push(x);
    let ghost front = r@;
    while i < v.len()
        invariant
            k <= i <= v.len(),
            front == v@.take(k as int) + seq![x],
            r@ == front + v@.subrange(k as int, i as int),
        decreases v.len() - i,
    {
        r.push(v[i].duplicate());
        proof {
            assert(r@ =~= front + v@.subrange(k as int, i + 1));
        }
        i = i + 1;
    }
    proof {
        assert(v@.subrange(k as int, v.len() as int) =~= v@.skip(k as int));
    }
    r
}

/// `list` ordered newest first; equal timestamps keep their order.
pub fn sort_newest_first(list: &Vec<Recording>) -> (r: Vec<Recording>)
    ensures
        r@ == newest_first(list@),
{
    let mut r: Vec<Recording> = Vec::new();
    let mut i: usize = 0;
    while i < list.len()
        invariant
            i <= list.len(),
            r@ == newest_first(list@.take(i as int)),
        decreases list.len() - i,
    {
        proof {
            assert(list@.take(i + 1).drop_last() =~= list@.take(i as int));
        }
        r = insert_by_age_exec(&r, list[i].duplicate());
        i = i + 1;
    }
    proof {
        assert(list@.take(list.len() as int) =~= list@);
    }
    r
}

fn cap_recent_exec(list: &mut Vec<Recording>)
    ensures
        final(list)@ == cap_recent(old(list)@),
{
    if list.len() > MAX_RECENT_RECORDINGS {
        list.truncate(MAX_RECENT_RECORDINGS);
    }
}

/// The list that loading the stored list `stored` yields, where `present[i]`
/// says whether the file of `stored[i]` is still on disk (a missing flag
/// counts as a missing file).
pub fn load_recordings_metadata(stored: &Vec<Recording>, present: &Vec<bool>) -> (r: Vec<
    Recording,
>)
    ensures
        r@ == loaded_recordings(stored@, present@),
{
    let mut kept: Vec<Recording> = Vec::new();
    let mut i: usize = 0;
    while i < stored.len()
        invariant
            i <= stored.len(),
            kept@ == select_present(stored@.take(i as int), present@),
        decreases stored.len() - i,
    {
        proof {
            assert(stored@.take(i + 1).drop_last() =~= stored@.take(i as int));
        }
        if i < present.len() && present[i] {
            kept.push(stored[i].duplicate());
        }
        i = i + 1;
    }
    proof {
        assert(stored@.take(stored.len() as int) =~= stored@);
    }
    let mut r = sort_newest_first(&kept);
    cap_recent_exec(&mut r);
    r
}

/// Replaces the recent list with what loading `stored` yields; see
/// [`load_recordings_metadata`].
pub fn load_recordings_from_disk(
    state: &mut AppState,
    stored: &Vec<Recording>,
    present: &Vec<bool>,
) -> (r: Result<(), String>)
    ensures
        r is Ok,
        final(state).recordings@ == loaded_recordings(stored@, present@),
        final(state).recording_state == old(state).recording_state,
        final(state).playback_state == old(state).playback_state,
        final(state).audio_recorder == old(state).audio_recorder,
{
    state.recordings = load_recordings_metadata(stored, present);
    Ok(())
}

/// The list as it is written to the metadata file: newest first, cut to the
/// recent-list size.
pub fn recordings_to_save(list: &Vec<Recording>) -> (r: Vec<Recording>)
    ensures
        r@ == saved_recordings(list@),
{
    let mut r = sort_newest_first(list);
    cap_recent_exec(&mut r);
    r
}

// ---------------------------------------------------------------------------
// Laws of the metadata list
// ---------------------------------------------------------------------------

proof fn lemma_select_all(s: Seq<Recording>, present: Seq<bool>)
    requires
        forall|i: int| 0 <= i < s.len() ==> #[trigger] flag_at(present, i),
    ensures
        select_present(s, present) == s,
    decreases s.len(),
{
    if s.len() > 0 {
        assert(flag_at(present, s.len() - 1));
        lemma_select_all(s.drop_last(), present);
        assert(s.drop_last().push(s.last()) =~= s);
    }
}

proof fn lemma_count_all(s: Seq<Recording>, t: i64)
    requires
        forall|i: int| 0 <= i < s.len() ==> (#[trigger] s[i]).timestamp >= t,
    ensures
        count_not_older(s, t) == s.len(),
    decreases s.len(),
{
    if s.len() > 0 {
        assert forall|i: int| 0 <= i < s.drop_first().len() implies (
        #[trigger] s.drop_first()[i]).timestamp >= t by {
            assert(s.drop_first()[i] == s[i + 1]);
        }
        lemma_count_all(s.drop_first(), t);
    }
}

proof fn lemma_insert_keeps_order(s: Seq<Recording>, x: Recording)
    requires
        is_newest_first(s),
    ensures
        is_newest_first(insert_by_age(s, x)),
        insert_by_age(s, x).len() == s.len() + 1,
{
    let k = count_not_older(s, x.timestamp) as int;
    lemma_count_not_older_bound(s, x.timestamp);
    let r = insert_by_age(s, x);
    assert(r.len() == s.len() + 1);
    assert forall|i: int, j: int| 0 <= i < j < r.len() implies r[i].timestamp >= r[j].timestamp by {
        if j < k {
            assert(r[i] == s[i] && r[j] == s[j]);
        } else if j == k {
            assert(r[i] == s[i]);
        } else if i < k {
            assert(r[i] == s[i] && r[j] == s[j - 1]);
        } else if i == k {
            assert(r[j] == s[j - 1]);
            assert(s[k].timestamp < x.timestamp);
            if j - 1 > k {
                assert(s[k].timestamp >= s[j - 1].timestamp);
            }
        } else {
            assert(r[i] == s[i - 1] && r[j] == s[j - 1]);
        }
    }
}

/// Ordering newest first gives an ordered list of the same length.
pub proof fn lemma_newest_first_ordered(s: Seq<Recording>)
    ensures
        is_newest_first(newest_first(s)),
        newest_first(s).len() == s.len(),
    decreases s.len(),
{
    if s.len() > 0 {
        lemma_newest_first_ordered(s.drop_last());
        lemma_insert_keeps_order(newest_first(s.drop_last()), s.last());
    }
}

proof fn lemma_newest_first_of_ordered(s: Seq<Recording>)
    requires
        is_newest_first(s),
    ensures
        newest_first(s) == s,
    decreases s.len(),
{
    if s.len() > 0 {
        let d = s.drop_last();
        assert(is_newest_first(d)) by {
            assert forall|i: int, j: int| 0 <= i < j < d.len() implies d[i].timestamp
                >= d[j].timestamp by {
                assert(d[i] == s[i] && d[j] == s[j]);
            }
        }
        lemma_newest_first_of_ordered(d);
        assert forall|i: int| 0 <= i < d.len() implies (#[trigger] d[i]).timestamp
            >= s.last().timestamp by {
            assert(d[i] == s[i]);
        }
        lemma_count_all(d, s.last().timestamp);
        assert(d.take(d.len() as int) + seq![s.last()] + d.skip(d.len() as int) =~= s);
    }
}

/// The written list is ordered newest first and no longer than the
/// recent-list size.
pub proof fn lemma_saved_is_ordered(list: Seq<Recording>)
    ensures
        is_newest_first(saved_recordings(list)),
        saved_recordings(list).len() <= MAX_RECENT_RECORDINGS,
{
    lemma_newest_first_ordered(list);
    let n = newest_first(list);
    let c = cap_recent(n);
    assert forall|i: int, j: int| 0 <= i < j < c.len() implies c[i].timestamp >= c[j].timestamp by {
        assert(c[i] == n[i] && c[j] == n[j]);
    }
}

/// Writing a list out and loading it back, with every backing file present,
/// gives the written list again, field for field; and a list that is already
/// newest first and no longer than the recent-list size is written as it is.
pub proof fn lemma_metadata_round_trip(list: Seq<Recording>, present: Seq<bool>)
    requires
        forall|i: int| 0 <= i < list.len() ==> #[trigger] flag_at(present, i),
    ensures
        loaded_recordings(saved_recordings(list), present) == saved_recordings(list),
        is_newest_first(list) && list.len() <= MAX_RECENT_RECORDINGS ==> saved_recordings(list)
            == list,
{
    let saved = saved_recordings(list);
    lemma_newest_first_ordered(list);
    lemma_select_all(saved, present);
    lemma_saved_is_ordered(list);
    lemma_newest_first_of_ordered(saved);
    if is_newest_first(list) && list.len() <= MAX_RECENT_RECORDINGS {
        lemma_newest_first_of_ordered(list);
    }
}

proof fn lemma_select_from_present(s: Seq<Recording>, present: Seq<bool>)
    ensures
        forall|r: Recording| #[trigger]
            select_present(s, present).contains(r) ==> exists|i: int|
                0 <= i < s.len() && flag_at(present, i) && s[i] == r,
    decreases s.len(),
{
    if s.len() > 0 {
        let d = s.drop_last();
        lemma_select_from_present(d, present);
        assert forall|r: Recording| #[trigger]
            select_present(s, present).contains(r) implies exists|i: int|
                0 <= i < s.len() && flag_at(present, i) && s[i] == r by {
            let sel = select_present(s, present);
            let j = choose|j: int| 0 <= j < sel.len() && sel[j] == r;
            if flag_at(present, s.len() - 1) && j == sel.len() - 1 {
                assert(s[s.len() - 1] == r);
            } else {
                assert(select_present(d, present).contains(r)) by {
                    if flag_at(present, s.len() - 1) {
                        assert(select_present(d, present)[j] == r);
                    } else {
                        assert(select_present(d, present)[j] == r);
                    }
                }
                let i = choose|i: int| 0 <= i < d.len() && flag_at(present, i) && d[i] == r;
                assert(s[i] == r);
            }
        }
    }
}

proof fn lemma_newest_first_members(s: Seq<Recording>)
    ensures
        forall|r: Recording| #[trigger] newest_first(s).contains(r) ==> s.contains(r),
    decreases s.len(),
{
    if s.len() > 0 {
        let d = s.drop_last();
        lemma_newest_first_members(d);
        let n = newest_first(d);
        lemma_newest_first_ordered(d);
        lemma_count_not_older_bound(n, s.last().timestamp);
        let k = count_not_older(n, s.last().timestamp) as int;
        assert forall|r: Recording| #[trigger] newest_first(s).contains(r) implies s.contains(
            r,
        ) by {
            let ins = newest_first(s);
            let j = choose|j: int| 0 <= j < ins.len() && ins[j] == r;
            if j < k {
                assert(n[j] == r);
                assert(n.contains(r));
                let i = choose|i: int| 0 <= i < d.len() && d[i] == r;
                assert(s[i] == r);
            } else if j == k {
                assert(s[s.len() - 1] == r);
            } else {
                assert(n[j - 1] == r);
                assert(n.contains(r));
                let i = choose|i: int| 0 <= i < d.len() && d[i] == r;
                assert(s[i] == r);
            }
        }
    }
}

/// Loading keeps only entries whose backing file is present: every loaded
/// recording is a stored one whose file was found.
pub proof fn lemma_load_keeps_only_present(stored: Seq<Recording>, present: Seq<bool>)
    ensures
        forall|r: Recording| #[trigger]
            loaded_recordings(stored, present).contains(r) ==> exists|i: int|
                0 <= i < stored.len() && flag_at(present, i) && stored[i] == r,
        loaded_recordings(stored, present).len() <= MAX_RECENT_RECORDINGS,
{
    let sel = select_present(stored, present);
    lemma_select_from_present(stored, present);
    lemma_newest_first_members(sel);
    lemma_newest_first_ordered(sel);
    let n = newest_first(sel);
    assert forall|r: Recording| #[trigger]
        loaded_recordings(stored, present).contains(r) implies exists|i: int|
            0 <= i < stored.len() && flag_at(present, i) && stored[i] == r by {
        let c = cap_recent(n);
        let j = choose|j: int| 0 <= j < c.len() && c[j] == r;
        assert(n[j] == r);
        assert(n.contains(r));
        assert(sel.contains(r));
    }
}

// ---------------------------------------------------------------------------
// Laws of the lifecycle
// ---------------------------------------------------------------------------

/// The state after `op`; a rejected request leaves the state as it was.
pub open spec fn apply_op(s: RecordingState, op: LifecycleOp) -> RecordingState {
    match lifecycle_step(s, op) {
        Some(next) => next,
        None => s,
    }
}

/// The state after a sequence of requests, applied one at a time.
pub open spec fn run_lifecycle(s: RecordingState, ops: Seq<LifecycleOp>) -> RecordingState
    decreases ops.len(),
{
    if ops.len() == 0 {
        s
    } else {
        run_lifecycle(apply_op(s, ops[0]), ops.drop_first())
    }
}

/// How many start requests in `ops` were accepted.
pub open spec fn accepted_starts(s: RecordingState, ops: Seq<LifecycleOp>) -> nat
    decreases ops.len(),
{
    if ops.len() == 0 {
        0
    } else {
        (if ops[0] is Start && lifecycle_step(s, ops[0]) is Some {
            1nat
        } else {
            0nat
        }) + accepted_starts(apply_op(s, ops[0]), ops.drop_first())
    }
}

/// How many stop requests in `ops` were accepted, each completing a recording.
pub open spec fn accepted_stops(s: RecordingState, ops: Seq<LifecycleOp>) -> nat
    decreases ops.len(),
{
    if ops.len() == 0 {
        0
    } else {
        (if ops[0] is Stop && lifecycle_step(s, ops[0]) is Some {
            1nat
        } else {
            0nat
        }) + accepted_stops(apply_op(s, ops[0]), ops.drop_first())
    }
}

/// How many recordings are active in `s`: one outside Idle, none in it.
pub open spec fn active_recordings(s: RecordingState) -> nat {
    if s is Idle {
        0
    } else {
        1
    }
}

/// However requests from many callers interleave, the lifecycle holds at most
/// one active recording, and the accepted starts equal the accepted stops
/// (the completed recordings) plus the recording still active at the end.
/// From Idle to Idle, every accepted start was matched by an accepted stop.
pub proof fn lemma_lifecycle_counts(s: RecordingState, ops: Seq<LifecycleOp>)
    ensures
        accepted_starts(s, ops) + active_recordings(s) == accepted_stops(s, ops)
            + active_recordings(run_lifecycle(s, ops)),
        active_recordings(run_lifecycle(s, ops)) <= 1,
        s is Idle && run_lifecycle(s, ops) is Idle ==> accepted_starts(s, ops) == accepted_stops(
            s,
            ops,
        ),
    decreases ops.len(),
{
    if ops.len() > 0 {
        lemma_lifecycle_counts(apply_op(s, ops[0]), ops.drop_first());
    }
}

proof fn lemma_starts_while_active(s: RecordingState, ops: Seq<LifecycleOp>)
    requires
        !(s is Idle),
        forall|k: int| 0 <= k < ops.len() ==> (#[trigger] ops[k]) is Start,
    ensures
        accepted_starts(s, ops) == 0,
        run_lifecycle(s, ops) == s,
    decreases ops.len(),
{
    if ops.len() > 0 {
        assert(ops[0] is Start);
        assert forall|k: int| 0 <= k < ops.drop_first().len() implies (
        #[trigger] ops.drop_first()[k]) is Start by {
            assert(ops.drop_first()[k] == ops[k + 1]);
        }
        lemma_starts_while_active(s, ops.drop_first());
    }
}

/// Start requests that race from Idle, with no stop between them: exactly
/// one is accepted, and the recording it started is the only one active.
pub proof fn lemma_racing_starts(ops: Seq<LifecycleOp>)
    requires
        ops.len() > 0,
        forall|k: int| 0 <= k < ops.len() ==> (#[trigger] ops[k]) is Start,
    ensures
        accepted_starts(RecordingState::Idle, ops) == 1,
        run_lifecycle(RecordingState::Idle, ops) == apply_op(RecordingState::Idle, ops[0]),
{
    assert(ops[0] is Start);
    let next = apply_op(RecordingState::Idle, ops[0]);
    assert(!(next is Idle));
    assert forall|k: int| 0 <= k < ops.drop_first().len() implies (
    #[trigger] ops.drop_first()[k]) is Start by {
        assert(ops.drop_first()[k] == ops[k + 1]);
    }
    lemma_starts_while_active(next, ops.drop_first());
}

} // verus!
