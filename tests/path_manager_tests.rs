use meeting_recorder::config::AppConfig;
use meeting_recorder::paths::{file_name, has_extension, join, with_extension, AppPaths};
use meeting_recorder::services::{AudioConverter, TranscriptionService};

#[test]
fn test_app_paths_creation() {
    let paths = AppPaths::new("/home/u/.local/share/app");
    assert_eq!(paths.recordings_dir(), "/home/u/.local/share/app/recordings");
    assert_eq!(paths.metadata_file(), "/home/u/.local/share/app/recordings/recordings.json");
    assert_eq!(AppPaths::new("/data/").recordings_dir(), "/data/recordings");
}

#[test]
fn path_manager_test_recording_path_generation() {
    let paths = AppPaths::new("/data");
    let test_cases = vec![
        "simple.wav",
        "recording_20240826_143022.wav",
        "test with spaces.wav",
        "test-with-dashes.wav",
        "test_with_underscores.wav",
    ];
    for filename in test_cases {
        let recording_path = paths.recording_path(filename);
        assert_eq!(recording_path, format!("/data/recordings/{}", filename));
        assert_eq!(file_name(&recording_path), filename);
    }
}

#[test]
fn test_special_characters_in_filename() {
    let paths = AppPaths::new("/data");
    let special_filenames = vec![
        "file with spaces.wav",
        "file-with-dashes.wav",
        "file_with_underscores.wav",
        "file.with.dots.wav",
        "file(with)parentheses.wav",
        "file[with]brackets.wav",
    ];
    for filename in special_filenames {
        let recording_path = paths.recording_path(filename);
        assert_eq!(file_name(&recording_path), filename, "Filename should be preserved exactly");
        assert!(recording_path.starts_with(paths.recordings_dir().as_str()));
    }
}

#[test]
fn test_empty_filename() {
    let paths = AppPaths::new("/data");
    assert_eq!(paths.recording_path(""), *paths.recordings_dir());
}

#[test]
fn test_unix_path_handling() {
    let paths = AppPaths::new("/data");
    assert!(paths.recording_path("test.wav").contains('/'));
}

#[test]
fn joins_names_and_extensions() {
    assert_eq!(join("", "a.wav"), "a.wav");
    assert_eq!(join("/x/", "a.wav"), "/x/a.wav");
    assert_eq!(file_name("/x/"), "recording.opus");
    assert_eq!(file_name("a.wav"), "a.wav");
    assert!(has_extension("/x/a.opus", "opus"));
    assert!(!has_extension("/x/.opus", "opus"));
    assert!(!has_extension("/x.opus/a", "opus"));
    assert!(!has_extension("/x/a.opusx", "opus"));
    assert_eq!(with_extension("/x/a.wav", "opus"), "/x/a.opus");
    assert_eq!(with_extension("/x/a.b.wav", "opus"), "/x/a.b.opus");
    assert_eq!(with_extension("/x.d/a", "opus"), "/x.d/a.opus");
    assert_eq!(with_extension("/x/.hidden", "opus"), "/x/.hidden.opus");
    assert_eq!(with_extension("/x/", "opus"), "/x/");
}

#[test]
fn transcribe_endpoint_trims_slashes() {
    let mut c = AppConfig::default();
    assert_eq!(c.web_app_url, "http://localhost:3000");
    assert!(c.api_key.is_none());
    assert_eq!(c.transcribe_endpoint(), "http://localhost:3000/api/transcribe");
    c.web_app_url = "https://example.com//".to_string();
    assert_eq!(c.transcribe_endpoint(), "https://example.com/api/transcribe");
    c.web_app_url = String::new();
    assert_eq!(c.transcribe_endpoint(), "/api/transcribe");
}

#[test]
fn converter_and_service_parameters() {
    assert_eq!(AudioConverter::output_path("/r/recording_1.wav"), "/r/recording_1.opus");
    let args = AudioConverter::encoder_arguments("/r/a.wav", "/r/a.opus");
    assert_eq!(
        args,
        vec!["-i", "/r/a.wav", "-c:a", "libopus", "-b:a", "64k", "-ar", "16000", "-ac", "1", "-y", "/r/a.opus"]
    );
    assert_eq!(AudioConverter::check_output(false, 0), Err("Opus file was not created successfully".to_string()));
    assert_eq!(AudioConverter::check_output(true, 0), Err("Opus file was created but is empty".to_string()));
    assert_eq!(AudioConverter::check_output(true, 10), Ok(()));
    assert_eq!(TranscriptionService::authorization_value("k1"), "Bearer k1");
    assert_eq!(TranscriptionService::audio_mime_type(), "audio/opus");
    let fields = TranscriptionService::form_fields();
    assert_eq!(fields[0], ("format".to_string(), "opus".to_string()));
    assert_eq!(fields[1], ("sample_rate".to_string(), "16000".to_string()));
    assert_eq!(fields[2], ("channels".to_string(), "1".to_string()));
}

#[test]
fn recording_service_tests_test_recording_path_generation() {
    let paths = AppPaths::new("/tmp/app_data");
    let test_cases = vec![
        "simple.wav",
        "recording_with_timestamp_20240826_143022.wav",
        "file with spaces.wav",
        "file-with-dashes.wav",
        "file_with_underscores.wav",
        "file.with.multiple.dots.wav",
    ];
    for filename in test_cases {
        let path = paths.recording_path(filename);
        assert!(path.starts_with('/'), "Recording path should be absolute");
        assert_eq!(file_name(&path), filename, "Filename should be preserved exactly");
        assert!(path.starts_with(paths.recordings_dir().as_str()), "Path should be within recordings directory");
    }
}
