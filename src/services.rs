//! The parts of format conversion and transcription that the recorder
//! decides: file names, the encoder's parameters, the request's fields.

use vstd::prelude::*;
use crate::paths::{with_extension, with_extension_spec};
use crate::text::owned;

verus! {

/// The sample rate of converted audio, as the encoder and the service read it.
pub open spec fn speech_sample_rate() -> Seq<char> {
    "16000"@
}

/// The views of a list of strings.
pub open spec fn views(v: Seq<String>) -> Seq<Seq<char>> {
    v.map_values(|s: String| s@)
}

/// The size of a canonical WAV header: a file no larger holds no samples.
pub const WAV_HEADER_MIN_BYTES: u64 = 44;

/// How many times the finished WAV file is checked before conversion.
pub const WAV_READY_MAX_ATTEMPTS: u32 = 5;

/// Milliseconds between those checks.
pub const WAV_READY_CHECK_DELAY_MS: u64 = 200;

/// Milliseconds allowed for the writer to finalise the file after a stop.
pub const AUDIO_FINALIZATION_DELAY_MS: u64 = 500;

/// Whether a WAV file of size `size` (`None`: it could not be read) holds
/// samples past its header, so that conversion may start.
pub fn wav_file_ready(size: Option<u64>) -> (r: bool)
    ensures
        r == (size matches Some(n) && n > WAV_HEADER_MIN_BYTES),
{
    match size {
        Some(n) => n > WAV_HEADER_MIN_BYTES,
        None => false,
    }
}

/// What to do after the WAV file's check number `attempt` (counted from 0).
#[derive(Debug, Clone, Copy, PartialEq, Eq, Structural)]
pub enum WavWait {
    /// The file holds samples: convert it.
    Ready,
    /// Not yet: wait and check again.
    Retry,
    /// Checks are used up: convert what there is.
    GiveUp,
}

/// The bounded wait for the writer to finalise the WAV file: at most
/// `WAV_READY_MAX_ATTEMPTS` checks.
pub fn next_wav_wait(attempt: u32, size: Option<u64>) -> (r: WavWait)
    ensures
        (size matches Some(n) && n > WAV_HEADER_MIN_BYTES) ==> r == WavWait::Ready,
        !(size matches Some(n) && n > WAV_HEADER_MIN_BYTES) && attempt + 1 < WAV_READY_MAX_ATTEMPTS
            ==> r == WavWait::Retry,
        !(size matches Some(n) && n > WAV_HEADER_MIN_BYTES) && attempt + 1 >= WAV_READY_MAX_ATTEMPTS
            ==> r == WavWait::GiveUp,
{
    if wav_file_ready(size) {
        WavWait::Ready
    } else if attempt < WAV_READY_MAX_ATTEMPTS - 1 {
        WavWait::Retry
    } else {
        WavWait::GiveUp
    }
}

/// Converts finished recordings to the compact speech codec.
pub struct AudioConverter;

/// The encoder's arguments: read `input`, encode Opus at 64 kbit/s, resample
/// to 16 kHz mono, overwrite `output`.
pub open spec fn encoder_args(input: Seq<char>, output: Seq<char>) -> Seq<Seq<char>> {
    seq![
        "-i"@,
        input,
        "-c:a"@,
        "libopus"@,
        "-b:a"@,
        "64k"@,
        "-ar"@,
        speech_sample_rate(),
        "-ac"@,
        "1"@,
        "-y"@,
        output,
    ]
}

fn push_str(v: &mut Vec<String>, s: &str)
    ensures
        views(final(v)@) == views(old(v)@).push(s@),
{
    v.push(owned(s));
    proof {
        assert(views(final(v)@) =~= views(old(v)@).push(s@));
    }
}

impl AudioConverter {
    /// The converted file for `wav_path`: the same path with the `opus`
    /// extension.
    pub fn output_path(wav_path: &str) -> (r: String)
        ensures
            r@ == with_extension_spec(wav_path@, "opus"@),
    {
        with_extension(wav_path, "opus")
    }

    /// The encoder's command-line arguments.
    pub fn encoder_arguments(input: &str, output: &str) -> (r: Vec<String>)
        ensures
            views(r@) == encoder_args(input@, output@),
    {
        let mut v: Vec<String> = Vec::new();
        push_str(&mut v, "-i");
        push_str(&mut v, input);
        push_str(&mut v, "-c:a");
        push_str(&mut v, "libopus");
        push_str(&mut v, "-b:a");
        push_str(&mut v, "64k");
        push_str(&mut v, "-ar");
        push_str(&mut v, "16000");
        push_str(&mut v, "-ac");
        push_str(&mut v, "1");
        push_str(&mut v, "-y");
        push_str(&mut v, output);
        proof {
            assert(views(v@) =~= encoder_args(input@, output@));
        }
        v
    }

    /// The encoder binary to run: the one next to the executable when it
    /// exists, else the one among the packaged resources when it exists.
    pub fn choose_encoder(
        beside_executable: Option<String>,
        beside_exists: bool,
        in_resources: Option<String>,
        resources_exists: bool,
    ) -> (r: Option<String>)
        ensures
            r == if beside_executable is Some && beside_exists {
                beside_executable
            } else if in_resources is Some && resources_exists {
                in_resources
            } else {
                None
            },
    {
        if beside_executable.is_some() && beside_exists {
            return beside_executable;
        }
        if in_resources.is_some() && resources_exists {
            return in_resources;
        }
        None
    }

    /// Judges the encoder's output file: it must exist and hold data.
    pub fn check_output(exists: bool, size: u64) -> (r: Result<(), String>)
        ensures
            !exists ==> (r matches Err(e) && e@ == "Opus file was not created successfully"@),
            exists && size == 0 ==> (r matches Err(e) && e@ == "Opus file was created but is empty"@),
            r is Ok <==> exists && size > 0,
    {
        if !exists {
            return Err(owned("Opus file was not created successfully"));
        }
        if size == 0 {
            return Err(owned("Opus file was created but is empty"));
        }
        Ok(())
    }
}

/// An error body returned by the transcription service.
#[derive(Debug, Clone)]
pub struct TranscriptionError {
    pub error: String,
    pub details: Option<String>,
}

/// Sends converted recordings to the transcription service.
pub struct TranscriptionService;

/// The text fields of the upload form besides the audio itself.
pub open spec fn form_fields_spec() -> Seq<(Seq<char>, Seq<char>)> {
    seq![("format"@, "opus"@), ("sample_rate"@, speech_sample_rate()), ("channels"@, "1"@)]
}

impl TranscriptionService {
    /// The value of the `Authorization` header for `api_key`.
    pub fn authorization_value(api_key: &str) -> (r: String)
        ensures
            r@ == "Bearer "@ + api_key@,
    {
        let mut r = owned("Bearer ");
        r.append(api_key);
        r
    }

    /// The upload form's text fields, as name and value.
    pub fn form_fields() -> (r: Vec<(String, String)>)
        ensures
            r@.map_values(|f: (String, String)| (f.0@, f.1@)) == form_fields_spec(),
    {
        let mut v: Vec<(String, String)> = Vec::new();
        v.push((owned("format"), owned("opus")));
        v.push((owned("sample_rate"), owned("16000")));
        v.push((owned("channels"), owned("1")));
        proof {
            assert(v@.map_values(|f: (String, String)| (f.0@, f.1@)) =~= form_fields_spec());
        }
        v
    }

    /// The MIME type of the uploaded audio.
    pub fn audio_mime_type() -> (r: String)
        ensures
            r@ == "audio/opus"@,
    {
        owned("audio/opus")
    }
}

} // verus!
