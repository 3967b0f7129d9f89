//! Conversion of the user's audio/video input into the 16 kHz mono PCM WAV
//! that the recogniser takes: the converter's arguments and file names, and
//! the decisions taken while it runs.

use vstd::prelude::*;
use crate::error::AppError;
use crate::text::decimal;
use crate::transcript::accepted_wav_format;

verus! {

/// The converter's options between input and output: drop video, one
/// channel, 16000 Hz, WAV container.
pub open spec fn conversion_args_text() -> Seq<Seq<char>> {
    seq!["-vn"@, "-ac"@, "1"@, "-ar"@, "16000"@, "-f"@, "wav"@]
}

/// The converter's options between input and output.
pub fn conversion_args() -> (args: Vec<&'static str>)
    ensures
        args@.len() == conversion_args_text().len(),
        forall|i: int| 0 <= i < args@.len() ==> #[trigger] args@[i]@ == conversion_args_text()[i],
{
    let args = vec!["-vn", "-ac", "1", "-ar", "16000", "-f", "wav"];
    assert forall|i: int| 0 <= i < args@.len() implies #[trigger] args@[i]@
        == conversion_args_text()[i] by {
        if i == 0 {} else if i == 1 {} else if i == 2 {} else if i == 3 {} else if i == 4 {} else if i == 5 {} else {}
    }
    args
}

/// The converter is asked for one channel (`-ac 1`) at 16000 Hz
/// (`-ar 16000`), which is exactly the format the recogniser accepts.
pub proof fn law_converted_audio_is_accepted()
    ensures
        conversion_args_text()[1] == "-ac"@,
        conversion_args_text()[2] == decimal(1),
        conversion_args_text()[3] == "-ar"@,
        conversion_args_text()[4] == decimal(16000),
        accepted_wav_format(1, 16000),
{
    reveal_strlit("1");
    reveal_strlit("16000");
    reveal_with_fuel(decimal, 6);
    assert(decimal(1) =~= "1"@);
    assert(decimal(16000) =~= "16000"@);
}

/// Prefix of the temporary directory that receives the converted audio.
pub fn temp_dir_prefix() -> (p: &'static str)
    ensures
        p@ == "tts-tool-"@,
{
    "tts-tool-"
}

/// Name of the converted audio file inside the temporary directory.
pub fn converted_file_name() -> (n: &'static str)
    ensures
        n@ == "audio-16k-mono.wav"@,
{
    "audio-16k-mono.wav"
}

/// Milliseconds between two looks at the running converter.
pub const POLL_INTERVAL_MS: u64 = 150;

/// The error when no converter binary could be obtained.
pub fn converter_unavailable(detail: &str) -> (e: AppError)
    ensures
        e matches AppError::FfmpegFailed(m) && m@ == "could not obtain ffmpeg binary: "@ + detail@,
{
    let mut m = String::from_str("could not obtain ffmpeg binary: ");
    m.append(detail);
    AppError::FfmpegFailed(m)
}

/// The input must be an existing file; if not, the error names the path
/// shown as `display`.
pub fn check_input_file(is_file: bool, display: &str) -> (r: Result<(), AppError>)
    ensures
        is_file ==> r == Ok::<(), AppError>(()),
        !is_file ==> (r matches Err(AppError::InvalidInput(m)) && m@ == "file not found: "@
            + display@),
{
    if is_file {
        Ok(())
    } else {
        let mut m = String::from_str("file not found: ");
        m.append(display);
        Err(AppError::InvalidInput(m))
    }
}

/// What to do at one look at the running converter.
#[derive(Debug, Clone, Copy, PartialEq, Eq, Structural)]
pub enum PollAction {
    /// Kill the converter, remove its temporary directory, and stop with
    /// [`AppError::Cancelled`].
    Cancel,
    /// The converter has exited: judge its outcome.
    Finished,
    /// Wait [`POLL_INTERVAL_MS`] and look again.
    Wait,
}

/// A cancellation request wins over everything; otherwise an exited
/// converter is judged and a running one is waited for.
pub fn poll_action(cancelled: bool, exited: bool) -> (a: PollAction)
    ensures
        a == if cancelled {
            PollAction::Cancel
        } else if exited {
            PollAction::Finished
        } else {
            PollAction::Wait
        },
{
    if cancelled {
        PollAction::Cancel
    } else if exited {
        PollAction::Finished
    } else {
        PollAction::Wait
    }
}

/// The outcome of a finished conversion: a failing exit status is an error
/// quoting it as `status_text`; a successful exit that left no output file
/// is an error too.
pub fn conversion_outcome(success: bool, status_text: &str, output_exists: bool) -> (r: Result<(), AppError>)
    ensures
        !success ==> (r matches Err(AppError::FfmpegFailed(m)) && m@ == "ffmpeg exited with status "@
            + status_text@),
        success && !output_exists ==> (r matches Err(AppError::FfmpegFailed(m)) && m@
            == "ffmpeg did not produce an output file"@),
        success && output_exists ==> r == Ok::<(), AppError>(()),
{
    if !success {
        let mut m = String::from_str("ffmpeg exited with status ");
        m.append(status_text);
        return Err(AppError::FfmpegFailed(m));
    }
    if !output_exists {
        return Err(AppError::FfmpegFailed(String::from_str("ffmpeg did not produce an output file")));
    }
    Ok(())
}

} // verus!
