use meeting_recorder::audio::RecorderState;
use meeting_recorder::paths::AppPaths;
use meeting_recorder::recording::{
    add_recording, complete_recording, delete_recording, elapsed_seconds, find_recording,
    format_duration, get_playback_state, get_recent_recordings, get_recording_state,
    load_recordings_from_disk, load_recordings_metadata, recording_file, pause_recording, play_recording,
    recording_file_name, recording_file_name_at, recordings_to_save, resume_recording,
    start_recording, stop_playback, stop_recording, toggle_recording, AppState, PlaybackState,
    Recording, RecordingState, RecordingStatus, ToggleOutcome,
};

fn rec(id: &str, filename: &str, duration: &str, timestamp: i64) -> Recording {
    Recording {
        id: id.to_string(),
        filename: filename.to_string(),
        duration: duration.to_string(),
        timestamp,
        status: RecordingStatus::Local,
    }
}

fn same(a: &Recording, b: &Recording) -> bool {
    a.id == b.id
        && a.filename == b.filename
        && a.duration == b.duration
        && a.timestamp == b.timestamp
        && a.status == b.status
}

fn save_and_load(list: &Vec<Recording>) -> Vec<Recording> {
    let saved = recordings_to_save(list);
    let present = vec![true; saved.len()];
    load_recordings_metadata(&saved, &present)
}

const T0: i64 = 1_724_682_622_000;

#[test]
fn test_save_and_load_empty_recordings() {
    let loaded = save_and_load(&vec![]);
    assert_eq!(loaded.len(), 0, "Loaded recordings should be empty");
}

#[test]
fn test_save_and_load_single_recording() {
    let r = rec("5f0c3a8e-1d2b-4c3d-9e4f-0a1b2c3d4e5f", "recording_20240826_143022.wav", "2:30", T0);
    let loaded = save_and_load(&vec![r.clone()]);
    assert_eq!(loaded.len(), 1, "Should load one recording");
    assert_eq!(loaded[0].id, r.id, "Recording ID should match");
    assert_eq!(loaded[0].filename, r.filename, "Filename should match");
    assert_eq!(loaded[0].duration, r.duration, "Duration should match");
}

#[test]
fn test_save_and_load_multiple_recordings() {
    let recordings: Vec<Recording> = (0..5)
        .map(|i| rec(&format!("id-{}", i), &format!("recording_{}.wav", i), &format!("0{}:30", i + 1), T0))
        .collect();
    let loaded = save_and_load(&recordings);
    assert_eq!(loaded.len(), 5, "Should load five recordings");
    for (before, loaded) in recordings.iter().zip(loaded.iter()) {
        assert_eq!(before.id, loaded.id, "Recording IDs should match");
        assert_eq!(before.filename, loaded.filename, "Filenames should match");
        assert_eq!(before.duration, loaded.duration, "Durations should match");
    }
}

#[test]
fn test_recording_data_integrity() {
    let r = rec(
        "test-id-with-unicode-\u{1F3B5}",
        "recording with spaces & special chars (test).wav",
        "23:59",
        1_735_689_599_999,
    );
    let loaded = save_and_load(&vec![r.clone()]);
    assert_eq!(loaded.len(), 1, "Should load one recording");
    assert!(same(&loaded[0], &r));
}

#[test]
fn round_trip_of_newest_first_list_is_identity() {
    let list: Vec<Recording> = (0..5).map(|i| rec(&format!("r{}", i), "a.wav", "0:01", T0 - i * 1000)).collect();
    let loaded = save_and_load(&list);
    assert_eq!(loaded.len(), list.len());
    for (a, b) in loaded.iter().zip(list.iter()) {
        assert!(same(a, b));
    }
}

#[test]
fn load_drops_missing_files_sorts_and_caps() {
    let stored: Vec<Recording> = (0..8).map(|i| rec(&format!("r{}", i), "a.wav", "0:01", T0 + i * 1000)).collect();
    let present = vec![true, false, true, true, true, true, true, true];
    let loaded = load_recordings_metadata(&stored, &present);
    let ids: Vec<&str> = loaded.iter().map(|r| r.id.as_str()).collect();
    assert_eq!(ids, vec!["r7", "r6", "r5", "r4", "r3"]);
    // A missing flag counts as a missing file.
    let loaded = load_recordings_metadata(&stored, &vec![false, true]);
    let ids: Vec<&str> = loaded.iter().map(|r| r.id.as_str()).collect();
    assert_eq!(ids, vec!["r1"]);
    let mut state = AppState::new();
    assert!(load_recordings_from_disk(&mut state, &stored, &vec![true; 2]).is_ok());
    assert_eq!(state.recordings.len(), 2);
    assert_eq!(state.recordings[0].id, "r1");
}

#[test]
fn durations_and_names() {
    assert_eq!(format_duration(0), "0:00");
    assert_eq!(format_duration(5), "0:05");
    assert_eq!(format_duration(65), "1:05");
    assert_eq!(format_duration(600), "10:00");
    assert_eq!(format_duration(3599), "59:59");
    assert_eq!(format_duration(7322), "122:02");
    assert_eq!(elapsed_seconds(T0, T0 + 100), 0);
    assert_eq!(elapsed_seconds(T0, T0 + 61_999), 61);
    assert_eq!(elapsed_seconds(T0 + 5, T0), 0);
    assert_eq!(elapsed_seconds(i64::MIN, i64::MAX), 18_446_744_073_709_551);
    assert_eq!(recording_file_name("20240826_143022"), "recording_20240826_143022.wav");
    assert_eq!(recording_file_name_at(T0), Some("recording_20240826_143022.wav".to_string()));
    assert_eq!(recording_file_name_at(0), Some("recording_19700101_000000.wav".to_string()));
    assert_eq!(
        recording_file_name_at(meeting_recorder::recording::LAST_MILLIS_OF_9999),
        Some("recording_99991231_235959.wav".to_string())
    );
}

#[test]
fn recent_list_keeps_five_newest_first() {
    let mut list = Vec::new();
    for i in 0..7 {
        add_recording(&mut list, rec(&format!("r{}", i), "a.wav", "0:01", T0 + i));
    }
    let ids: Vec<&str> = list.iter().map(|r| r.id.as_str()).collect();
    assert_eq!(ids, vec!["r6", "r5", "r4", "r3", "r2"]);
    let found = find_recording(&list, "r4").unwrap();
    assert_eq!(found.id, "r4");
    assert!(find_recording(&list, "r0").is_none());
}

#[test]
fn start_twice_fails_without_change() {
    let mut state = AppState::new();
    let rx = start_recording(&mut state, T0, "/data/recordings/a.wav".to_string());
    assert!(matches!(rx, Ok(Some(_))));
    assert!(state.audio_recorder.is_recording());
    assert_eq!(get_recording_state(&state), Ok("recording".to_string()));
    let again = start_recording(&mut state, T0 + 10, "/data/recordings/b.wav".to_string());
    assert!(matches!(again, Err(ref e) if e == "Already recording"));
    match &state.recording_state {
        RecordingState::Recording { start_time, file_path } => {
            assert_eq!(*start_time, T0);
            assert_eq!(file_path, "/data/recordings/a.wav");
        }
        _ => panic!("should still be recording the first file"),
    }
}

#[test]
fn pause_resume_stop_lifecycle() {
    let mut state = AppState::new();
    assert_eq!(pause_recording(&mut state, T0), Err("Not currently recording".to_string()));
    assert_eq!(resume_recording(&mut state), Err("Recording is not paused".to_string()));
    assert!(matches!(stop_recording(&mut state, T0), Err(ref e) if e == "Not recording"));
    let _rx = start_recording(&mut state, T0, "/r/x.wav".to_string()).unwrap();
    assert_eq!(resume_recording(&mut state), Err("Recording is not paused".to_string()));
    assert!(pause_recording(&mut state, T0 + 42_500).is_ok());
    match &state.recording_state {
        RecordingState::Paused { start_time, elapsed, .. } => {
            assert_eq!(*start_time, T0);
            assert_eq!(*elapsed, 42);
        }
        _ => panic!("should be paused"),
    }
    assert_eq!(get_recording_state(&state), Ok("paused".to_string()));
    assert!(resume_recording(&mut state).is_ok());
    let stopped = stop_recording(&mut state, T0 + 125_000).unwrap();
    assert_eq!(stopped.file_path, "/r/x.wav");
    assert_eq!(stopped.duration, "2:05");
    assert_eq!(stopped.ended_at, T0 + 125_000);
    assert_eq!(get_recording_state(&state), Ok("idle".to_string()));
    assert!(!state.audio_recorder.is_initialized());
    assert!(!state.audio_recorder.is_recording());
}

#[test]
fn end_to_end_short_capture() {
    let paths = AppPaths::new("/data");
    let name = recording_file_name_at(T0).unwrap();
    let path = paths.recording_path(&name);
    let mut state = AppState::new();
    let _rx = start_recording(&mut state, T0, path.clone()).unwrap();
    let stopped = stop_recording(&mut state, T0 + 100).unwrap();
    let converted = meeting_recorder::services::AudioConverter::output_path(&stopped.file_path);
    let done = complete_recording(&mut state, stopped, Some(converted));
    assert_eq!(done.recording.filename, "recording_20240826_143022.opus");
    assert_eq!(done.recording.duration, "0:00");
    assert_eq!(done.recording.timestamp, T0 + 100);
    assert!(done.transcribe);
    assert_eq!(done.file_path, "/data/recordings/recording_20240826_143022.opus");
    assert_eq!(done.recording.id.len(), 36);
    assert_eq!(state.recordings.len(), 1);

    let _rx = start_recording(&mut state, T0 + 1000, "/data/recordings/b.wav".to_string()).unwrap();
    let stopped = stop_recording(&mut state, T0 + 3_100).unwrap();
    let done = complete_recording(&mut state, stopped, None);
    assert_eq!(done.recording.filename, "b.wav");
    assert_eq!(done.recording.duration, "0:02");
    assert!(!done.transcribe);
    assert_eq!(state.recordings.len(), 2);
    assert_eq!(state.recordings[0].filename, "b.wav");
    assert_ne!(state.recordings[0].id, state.recordings[1].id);
    let recent = get_recent_recordings(&state).unwrap();
    assert_eq!(recent.len(), 2);
}

#[test]
fn toggle_starts_then_stops() {
    let mut state = AppState::new();
    let first = toggle_recording(&mut state, T0, "/r/t.wav".to_string()).unwrap();
    assert!(matches!(first, ToggleOutcome::Started { receiver: Some(_) }));
    let second = toggle_recording(&mut state, T0 + 61_000, "/r/u.wav".to_string()).unwrap();
    match second {
        ToggleOutcome::Stopped { stopped } => {
            assert_eq!(stopped.file_path, "/r/t.wav");
            assert_eq!(stopped.duration, "1:01");
        }
        _ => panic!("second toggle should stop"),
    }
    assert!(matches!(state.recording_state, RecordingState::Idle));
}

#[test]
fn start_fails_when_audio_task_is_gone() {
    let mut state = AppState::new();
    let rx = state.initialize_audio_system().unwrap();
    drop(rx);
    let r = start_recording(&mut state, T0, "/r/a.wav".to_string());
    assert!(matches!(r, Err(ref e) if e == "Failed to send start command"));
    assert!(matches!(state.recording_state, RecordingState::Idle));
    assert!(!state.audio_recorder.is_initialized());
}

#[test]
fn playback_and_delete() {
    let mut state = AppState::new();
    add_recording(&mut state.recordings, rec("a", "a.opus", "0:10", T0));
    add_recording(&mut state.recordings, rec("b", "b.opus", "0:20", T0 + 1));
    let paths = AppPaths::new("/r");
    assert!(matches!(play_recording(&mut state, &paths, "zz", true, T0), Err(ref e) if e == "Recording not found"));
    assert!(matches!(play_recording(&mut state, &paths, "a", false, T0), Err(ref e) if e == "Recording file not found"));
    assert_eq!(recording_file(&state, &paths, "a"), Some("/r/recordings/a.opus".to_string()));
    assert_eq!(recording_file(&state, &paths, "zz"), None);
    assert_eq!(get_playback_state(&state), Ok("idle".to_string()));
    let rx = play_recording(&mut state, &paths, "a", true, T0 + 5).unwrap();
    assert!(rx.is_some());
    match rx.as_ref().unwrap().try_recv() {
        Ok(meeting_recorder::audio::AudioCommand::StartPlayback { file_path }) => {
            assert_eq!(file_path, "/r/recordings/a.opus");
        }
        _ => panic!("the playback command should name the recording's file"),
    }
    match &state.playback_state {
        PlaybackState::Playing { recording_id, filename, start_time } => {
            assert_eq!(recording_id, "a");
            assert_eq!(filename, "a.opus");
            assert_eq!(*start_time, T0 + 5);
        }
        _ => panic!("should be playing"),
    }
    assert_eq!(get_playback_state(&state), Ok("playing".to_string()));
    let deleted = delete_recording(&mut state, "b").unwrap();
    assert_eq!(deleted.id, "b");
    assert_eq!(get_playback_state(&state), Ok("playing".to_string()));
    let deleted = delete_recording(&mut state, "a").unwrap();
    assert_eq!(deleted.filename, "a.opus");
    assert_eq!(get_playback_state(&state), Ok("idle".to_string()));
    assert!(state.recordings.is_empty());
    assert!(matches!(delete_recording(&mut state, "a"), Err(ref e) if e == "Recording not found"));
    assert!(stop_playback(&mut state).is_ok());
}

#[test]
fn many_callers_sharing_one_coordinator() {
    // Eight callers issue start and stop requests, interleaved in turn.
    let mut state = AppState::new();
    let mut starts = 0u32;
    let mut stops = 0u32;
    let mut receivers = Vec::new();
    for k in 0..20i64 {
        for caller in 0..8i64 {
            let now = T0 + k * 1000 + caller;
            if (caller * 7 + k * 3) % 5 < 2 {
                if let Ok(rx) = start_recording(&mut state, now, format!("/r/{}_{}.wav", caller, k)) {
                    starts += 1;
                    receivers.push(rx);
                }
            } else if let Ok(stopped) = stop_recording(&mut state, now) {
                stops += 1;
                complete_recording(&mut state, stopped, None);
            }
            let active = !matches!(state.recording_state, RecordingState::Idle);
            assert_eq!(starts, stops + if active { 1 } else { 0 });
            assert_eq!(state.audio_recorder.is_recording(), active);
        }
    }
    if let Ok(stopped) = stop_recording(&mut state, T0 + 10_000_000) {
        stops += 1;
        complete_recording(&mut state, stopped, None);
    }
    assert!(matches!(state.recording_state, RecordingState::Idle));
    assert!(starts > 1);
    assert_eq!(starts, stops);
    assert_eq!(state.recordings.len(), std::cmp::min(5, stops as usize));
}

#[test]
fn recorder_bookkeeping() {
    let mut r = RecorderState::new();
    assert!(!r.is_initialized());
    assert!(r.send_command(meeting_recorder::audio::AudioCommand::StopRecording).is_err());
    let rx = r.initialize();
    assert!(rx.is_some());
    assert!(r.initialize().is_none());
    assert!(r.send_command(meeting_recorder::audio::AudioCommand::StopPlayback).is_ok());
    let rx = rx.unwrap();
    assert!(matches!(rx.try_recv(), Ok(meeting_recorder::audio::AudioCommand::StopPlayback)));
    r.set_recording(true);
    r.set_current_file_path(Some("/r/a.wav".to_string()));
    assert!(r.is_recording());
    r.cleanup();
    assert!(!r.is_initialized() && !r.is_recording());
}

#[test]
fn test_recorder_state_lifecycle() {
    let mut state = AppState::new();
    assert!(!state.audio_recorder.is_recording(), "Should not be recording initially");
    assert!(!state.audio_recorder.is_initialized(), "Should not be initialized initially");
    let rx = state.initialize_audio_system();
    assert!(rx.is_some(), "Initialization should succeed");
    assert!(state.audio_recorder.is_initialized(), "Should be initialized after init");
    assert!(state.initialize_audio_system().is_none(), "A second initialization opens nothing");
    let start = start_recording(&mut state, T0, "/r/test_recording.wav".to_string());
    assert!(matches!(start, Ok(None)), "Start recording should succeed on the open queue");
    assert!(state.audio_recorder.is_recording(), "Should be recording after start");
    assert!(start_recording(&mut state, T0 + 1, "/r/another.wav".to_string()).is_err(), "Double start should fail");
    let stopped = stop_recording(&mut state, T0 + 10).unwrap();
    assert_eq!(stopped.file_path, "/r/test_recording.wav");
    assert!(!state.audio_recorder.is_recording(), "Should not be recording after stop");
    assert!(stop_recording(&mut state, T0 + 20).is_err(), "Double stop should fail");
    assert!(!state.audio_recorder.is_initialized(), "Should not be initialized after stop");
    drop(rx);
}

#[test]
fn test_state_recovery_after_errors() {
    let mut state = AppState::new();
    assert!(stop_recording(&mut state, T0).is_err(), "Stop without start should fail");
    let _rx = start_recording(&mut state, T0, "/r/error_test_0.wav".to_string()).unwrap();
    assert!(start_recording(&mut state, T0 + 1, "/r/error_test_1.wav".to_string()).is_err(), "Second start should fail");
    assert!(stop_recording(&mut state, T0 + 2).is_ok());
    assert!(matches!(state.recording_state, RecordingState::Idle), "State should remain consistent after errors");
    let _rx = start_recording(&mut state, T0 + 3, "/r/recovery_test.wav".to_string()).unwrap();
    assert!(stop_recording(&mut state, T0 + 4).is_ok(), "Should be able to perform normal operations after errors");
}
