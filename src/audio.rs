//! The recorder's handle on the audio pipeline: the command queue that feeds
//! the single audio task, and the bookkeeping of what it is recording.

use vstd::prelude::*;
use crossbeam_channel::{Receiver, Sender};

verus! {

#[verifier::external_type_specification]
#[verifier::external_body]
#[verifier::reject_recursive_types(T)]
pub struct ExSender<T>(Sender<T>);

#[verifier::external_type_specification]
#[verifier::external_body]
#[verifier::reject_recursive_types(T)]
pub struct ExReceiver<T>(Receiver<T>);

/// Relies on crossbeam_channel::unbounded: a new channel with no capacity
/// bound, whose two ends are returned.
pub assume_specification<T>[ crossbeam_channel::unbounded::<T> ]() -> (Sender<T>, Receiver<T>);

/// Relies on crossbeam_channel::Sender::send: queues `command`, or fails once
/// every receiver of the channel is gone. Whether it succeeds depends on the
/// other end, so nothing is promised of the result.
#[verifier::external_body]
fn send_on(sender: &Sender<AudioCommand>, command: AudioCommand) -> (r: bool) {
    sender.send(command).is_ok()
}

/// A command for the audio task, which handles them one at a time in the
/// order they were sent.
#[derive(Debug)]
pub enum AudioCommand {
    StartRecording { file_path: String },
    StopRecording,
    StartPlayback { file_path: String },
    StopPlayback,
}

/// What the recorder knows of the audio task: whether its command queue is
/// open, and which file it is recording to. `sent` records every command
/// handed to a queue, with whether the queue accepted it.
pub struct RecorderState {
    command_sender: Option<Sender<AudioCommand>>,
    current_file_path: Option<String>,
    is_recording: bool,
    sent: Ghost<Seq<(AudioCommand, bool)>>,
}

impl RecorderState {
    /// The command queue is open.
    pub closed spec fn initialized_spec(&self) -> bool {
        self.command_sender is Some
    }

    /// The commands handed to the queue so far, each with whether the queue
    /// accepted it.
    pub closed spec fn sent_spec(&self) -> Seq<(AudioCommand, bool)> {
        self.sent@
    }

    /// A recording is in progress.
    pub closed spec fn recording_spec(&self) -> bool {
        self.is_recording
    }

    /// The file being recorded to.
    pub closed spec fn file_path_spec(&self) -> Option<Seq<char>> {
        match self.current_file_path {
            Some(p) => Some(p@),
            None => None,
        }
    }

    /// A recorder with no queue and no recording.
    pub fn new() -> (r: RecorderState)
        ensures
            !r.initialized_spec(),
            !r.recording_spec(),
            r.file_path_spec() is None,
            r.sent_spec() == Seq::<(AudioCommand, bool)>::empty(),
    {
        RecorderState {
            command_sender: None,
            current_file_path: None,
            is_recording: false,
            sent: Ghost(Seq::empty()),
        }
    }

    /// Opens the command queue unless it is open already. The receiving end of
    /// a new queue is returned: the caller runs the audio task on it.
    pub fn initialize(&mut self) -> (r: Option<Receiver<AudioCommand>>)
        ensures
            final(self).initialized_spec(),
            r is Some <==> !old(self).initialized_spec(),
            final(self).recording_spec() == old(self).recording_spec(),
            final(self).file_path_spec() == old(self).file_path_spec(),
            final(self).sent_spec() == old(self).sent_spec(),
    {
        if self.command_sender.is_some() {
            return None;
        }
        let (sender, receiver) = crossbeam_channel::unbounded::<AudioCommand>();
        self.command_sender = Some(sender);
        Some(receiver)
    }

    /// Whether a recording is in progress.
    pub fn is_recording(&self) -> (r: bool)
        ensures
            r == self.recording_spec(),
    {
        self.is_recording
    }

    /// Sends `command` to the audio task. Fails without an open queue, and
    /// when the task is gone. With an open queue the command is recorded in
    /// `sent_spec`, together with the outcome.
    pub fn send_command(&mut self, command: AudioCommand) -> (r: Result<(), String>)
        ensures
            !old(self).initialized_spec() ==> (r matches Err(e) && e@
                == "Audio system not initialized"@ && final(self).sent_spec() == old(self).sent_spec()),
            old(self).initialized_spec() ==> final(self).sent_spec() == old(self).sent_spec().push(
                (command, r is Ok),
            ),
            old(self).initialized_spec() ==> (r matches Err(e) ==> e@
                == "Failed to send audio command"@),
            final(self).initialized_spec() == old(self).initialized_spec(),
            final(self).recording_spec() == old(self).recording_spec(),
            final(self).file_path_spec() == old(self).file_path_spec(),
    {
        let ghost cmd = command;
        match &self.command_sender {
            Some(sender) => {
                let ok = send_on(sender, command);
                proof {
                    self.sent@ = self.sent@.push((cmd, ok));
                }
                if ok {
                    Ok(())
                } else {
                    Err(String::from_str("Failed to send audio command"))
                }
            },
            None => Err(String::from_str("Audio system not initialized")),
        }
    }

    /// Records whether a recording is in progress.
    pub fn set_recording(&mut self, is_recording: bool)
        ensures
            final(self).recording_spec() == is_recording,
            final(self).initialized_spec() == old(self).initialized_spec(),
            final(self).file_path_spec() == old(self).file_path_spec(),
            final(self).sent_spec() == old(self).sent_spec(),
    {
        self.is_recording = is_recording;
    }

    /// Records the file being recorded to.
    pub fn set_current_file_path(&mut self, file_path: Option<String>)
        ensures
            final(self).file_path_spec() == match file_path {
                Some(p) => Some(p@),
                None => None::<Seq<char>>,
            },
            final(self).initialized_spec() == old(self).initialized_spec(),
            final(self).recording_spec() == old(self).recording_spec(),
            final(self).sent_spec() == old(self).sent_spec(),
    {
        self.current_file_path = file_path;
    }

    /// Closes the command queue, which ends the audio task once it has
    /// handled what was sent, and forgets the recording.
    pub fn cleanup(&mut self)
        ensures
            !final(self).initialized_spec(),
            !final(self).recording_spec(),
            final(self).file_path_spec() is None,
            final(self).sent_spec() == old(self).sent_spec(),
    {
        self.command_sender = None;
        self.current_file_path = None;
        self.is_recording = false;
    }

    /// Whether the command queue is open.
    pub fn is_initialized(&self) -> (r: bool)
        ensures
            r == self.initialized_spec(),
    {
        self.command_sender.is_some()
    }
}

/// What the audio task has open: at most one stream, for capture or for
/// playback.
#[derive(Debug)]
pub enum PipelineState {
    Idle,
    Capturing { file_path: String },
    Playing { file_path: String },
}

/// A stream that the audio task is to open.
#[derive(Debug)]
pub enum OpenRequest {
    Capture { file_path: String },
    Playback { file_path: String },
}

/// The stream that `cmd` asks for, if any.
pub open spec fn requested_stream(cmd: AudioCommand) -> Option<OpenRequest> {
    match cmd {
        AudioCommand::StartRecording { file_path } => Some(OpenRequest::Capture { file_path }),
        AudioCommand::StartPlayback { file_path } => Some(OpenRequest::Playback { file_path }),
        _ => None,
    }
}

impl PipelineState {
    /// Handles one command: whatever stream is open is released first (the
    /// state becomes Idle), then the stream that the command asks for, if
    /// any, is returned for the caller to open.
    pub fn handle_command(&mut self, cmd: AudioCommand) -> (r: Option<OpenRequest>)
        ensures
            *final(self) is Idle,
            r == requested_stream(cmd),
    {
        *self = PipelineState::Idle;
        match cmd {
            AudioCommand::StartRecording { file_path } => Some(OpenRequest::Capture { file_path }),
            AudioCommand::StartPlayback { file_path } => Some(OpenRequest::Playback { file_path }),
            AudioCommand::StopRecording => None,
            AudioCommand::StopPlayback => None,
        }
    }

    /// Records whether opening `request` succeeded; a failure leaves the task
    /// idle, ready for the next command.
    pub fn stream_opened(&mut self, request: OpenRequest, ok: bool) -> (r: ())
        ensures
            !ok ==> *final(self) is Idle,
            ok ==> *final(self) == match request {
                OpenRequest::Capture { file_path } => PipelineState::Capturing { file_path },
                OpenRequest::Playback { file_path } => PipelineState::Playing { file_path },
            },
    {
        if !ok {
            *self = PipelineState::Idle;
            return ;
        }
        *self = match request {
            OpenRequest::Capture { file_path } => PipelineState::Capturing { file_path },
            OpenRequest::Playback { file_path } => PipelineState::Playing { file_path },
        };
    }
}

} // verus!
