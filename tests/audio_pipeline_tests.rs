use meeting_recorder::audio::{AudioCommand, OpenRequest, PipelineState};
use meeting_recorder::events::Events;
use meeting_recorder::services::{
    next_wav_wait, wav_file_ready, AudioConverter, WavWait, WAV_HEADER_MIN_BYTES, WAV_READY_MAX_ATTEMPTS,
};
use meeting_recorder::text::{append_decimal, append_decimal2};

#[test]
fn pipeline_holds_one_stream_at_a_time() {
    let mut p = PipelineState::Idle;
    let req = p.handle_command(AudioCommand::StartRecording { file_path: "/r/a.wav".to_string() });
    assert!(matches!(p, PipelineState::Idle));
    let req = req.unwrap();
    assert!(matches!(&req, OpenRequest::Capture { file_path } if file_path == "/r/a.wav"));
    p.stream_opened(req, true);
    assert!(matches!(&p, PipelineState::Capturing { file_path } if file_path == "/r/a.wav"));

    let req = p.handle_command(AudioCommand::StartPlayback { file_path: "/r/b.opus".to_string() }).unwrap();
    assert!(matches!(p, PipelineState::Idle));
    p.stream_opened(req, true);
    assert!(matches!(&p, PipelineState::Playing { file_path } if file_path == "/r/b.opus"));

    assert!(p.handle_command(AudioCommand::StopPlayback).is_none());
    assert!(matches!(p, PipelineState::Idle));
    assert!(p.handle_command(AudioCommand::StopRecording).is_none());
}

#[test]
fn failed_open_leaves_pipeline_idle() {
    let mut p = PipelineState::Idle;
    let req = p.handle_command(AudioCommand::StartRecording { file_path: "/none/x.wav".to_string() }).unwrap();
    p.stream_opened(req, false);
    assert!(matches!(p, PipelineState::Idle));
    let req = p.handle_command(AudioCommand::StartRecording { file_path: "/r/y.wav".to_string() }).unwrap();
    p.stream_opened(req, true);
    assert!(matches!(p, PipelineState::Capturing { .. }));
}

#[test]
fn wav_readiness() {
    assert_eq!(WAV_HEADER_MIN_BYTES, 44);
    assert_eq!(WAV_READY_MAX_ATTEMPTS, 5);
    assert!(!wav_file_ready(None));
    assert!(!wav_file_ready(Some(0)));
    assert!(!wav_file_ready(Some(44)));
    assert!(wav_file_ready(Some(45)));
}

#[test]
fn decimal_writing() {
    let mut s = String::from("n=");
    append_decimal(&mut s, 0);
    assert_eq!(s, "n=0");
    let mut s = String::new();
    append_decimal(&mut s, u64::MAX);
    assert_eq!(s, "18446744073709551615");
    let mut s = String::new();
    append_decimal2(&mut s, 7);
    append_decimal2(&mut s, 42);
    append_decimal2(&mut s, 123);
    assert_eq!(s, "0742123");
}

#[test]
fn event_names() {
    assert_eq!(Events::RECORDING_STATE_CHANGED, "recording-state-changed");
    assert_eq!(Events::PLAYBACK_FINISHED, "playback-finished");
    assert_eq!(Events::TRANSCRIPTION_STARTED, "transcription_started");
    assert_eq!(Events::TRANSCRIPTION_SUCCESS, "transcription_success");
    assert_eq!(Events::TRANSCRIPTION_FAILED, "transcription_failed");
    assert_eq!(Events::MEETING_DETECTED, "meeting-detected");
    assert_eq!(Events::MEETING_ENDED, "meeting-ended");
}

#[test]
fn bounded_wav_wait() {
    assert_eq!(next_wav_wait(0, Some(45)), WavWait::Ready);
    assert_eq!(next_wav_wait(0, Some(44)), WavWait::Retry);
    assert_eq!(next_wav_wait(3, None), WavWait::Retry);
    assert_eq!(next_wav_wait(4, None), WavWait::GiveUp);
    assert_eq!(next_wav_wait(4, Some(1000)), WavWait::Ready);
}

#[test]
fn encoder_search_order() {
    let dev = Some("/app/binaries/ffmpeg-linux".to_string());
    let prod = Some("/res/ffmpeg-linux".to_string());
    assert_eq!(AudioConverter::choose_encoder(dev.clone(), true, prod.clone(), true), dev);
    assert_eq!(AudioConverter::choose_encoder(dev.clone(), false, prod.clone(), true), prod);
    assert_eq!(AudioConverter::choose_encoder(None, true, prod.clone(), false), None);
    assert_eq!(AudioConverter::choose_encoder(dev, false, None, true), None);
}
