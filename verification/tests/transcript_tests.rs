use tts_tool::audio::{
    check_input_file, conversion_args, conversion_outcome, converted_file_name, converter_unavailable,
    poll_action, temp_dir_prefix, PollAction, POLL_INTERVAL_MS,
};
use tts_tool::catalog::ModelKind;
use tts_tool::error::AppError;
use tts_tool::pipeline::{prepare_model, stage_message, ModelPreparation, Stage};
use tts_tool::transcript::{
    after_first_run, assemble_transcript, check_model_file, check_wav_format, run_failure, thread_count,
    AfterFirstRun, RecognizedSegment, TranscriptSegment, RETRY_THREADS,
};

fn raw(text: &str, t0: i64, t1: i64) -> RecognizedSegment {
    RecognizedSegment { text: text.to_string(), t0, t1 }
}

#[test]
fn assembles_segments_and_text() {
    let r = assemble_transcript(
        &[raw(" Hola mundo.", 0, 150), raw("  Adios ", 150, 320)],
        Some("es".to_string()),
    );
    assert_eq!(r.text, "Hola mundo. Adios");
    assert_eq!(
        r.segments,
        vec![
            TranscriptSegment { start_ms: 0, end_ms: 1500, text: "Hola mundo.".to_string() },
            TranscriptSegment { start_ms: 1500, end_ms: 3200, text: "Adios".to_string() },
        ]
    );
    assert_eq!(r.language, Some("es".to_string()));
    let empty = assemble_transcript(&[], None);
    assert_eq!(empty.text, "");
    assert!(empty.segments.is_empty());
    assert_eq!(empty.language, None);
}

#[test]
fn blank_segments_leave_no_double_spaces_at_the_ends() {
    let r = assemble_transcript(&[raw("   ", 0, 1), raw("x", 1, 2), raw(" ", 2, 3)], None);
    assert_eq!(r.text, "x");
    assert_eq!(r.segments[0].text, "");
}

#[test]
fn huge_times_are_kept_exactly() {
    let r = assemble_transcript(&[raw("a", i64::MAX, i64::MIN)], None);
    assert_eq!(r.segments[0].start_ms, i64::MAX as i128 * 10);
    assert_eq!(r.segments[0].end_ms, i64::MIN as i128 * 10);
}

#[test]
fn threads() {
    assert_eq!(thread_count(Some(2)), 2);
    assert_eq!(thread_count(Some(4)), 4);
    assert_eq!(thread_count(Some(16)), 4);
    assert_eq!(thread_count(None), 4);
    assert_eq!(RETRY_THREADS, 1);
}

#[test]
fn run_failures_and_retry() {
    assert_eq!(run_failure(true, "x".to_string()), AppError::Cancelled);
    assert_eq!(run_failure(false, "x".to_string()), AppError::TranscriptionFailed("x".to_string()));
    assert_eq!(after_first_run(Ok(())), AfterFirstRun::Proceed);
    assert_eq!(after_first_run(Err(AppError::Cancelled)), AfterFirstRun::Abort(AppError::Cancelled));
    assert_eq!(
        after_first_run(Err(AppError::TranscriptionFailed("-6".to_string()))),
        AfterFirstRun::Retry
    );
}

#[test]
fn input_checks() {
    assert_eq!(check_model_file(true, "/m.bin"), Ok(()));
    assert_eq!(
        check_model_file(false, "/m.bin"),
        Err(AppError::ModelError("model file not found: /m.bin".to_string()))
    );
    assert_eq!(check_wav_format(1, 16000), Ok(()));
    assert_eq!(
        check_wav_format(2, 44100),
        Err(AppError::TranscriptionFailed(
            "expected mono 16kHz WAV, got 2 channel(s) at 44100Hz".to_string()
        ))
    );
    assert_eq!(
        check_wav_format(1, 8000),
        Err(AppError::TranscriptionFailed(
            "expected mono 16kHz WAV, got 1 channel(s) at 8000Hz".to_string()
        ))
    );
}

#[test]
fn conversion_decisions() {
    assert_eq!(conversion_args(), vec!["-vn", "-ac", "1", "-ar", "16000", "-f", "wav"]);
    assert_eq!(temp_dir_prefix(), "tts-tool-");
    assert_eq!(converted_file_name(), "audio-16k-mono.wav");
    assert_eq!(POLL_INTERVAL_MS, 150);
    assert_eq!(
        converter_unavailable("offline"),
        AppError::FfmpegFailed("could not obtain ffmpeg binary: offline".to_string())
    );
    assert_eq!(check_input_file(true, "a.mp4"), Ok(()));
    assert_eq!(
        check_input_file(false, "a.mp4"),
        Err(AppError::InvalidInput("file not found: a.mp4".to_string()))
    );
    assert_eq!(poll_action(true, true), PollAction::Cancel);
    assert_eq!(poll_action(true, false), PollAction::Cancel);
    assert_eq!(poll_action(false, true), PollAction::Finished);
    assert_eq!(poll_action(false, false), PollAction::Wait);
    assert_eq!(
        conversion_outcome(false, "exit status: 1", true),
        Err(AppError::FfmpegFailed("ffmpeg exited with status exit status: 1".to_string()))
    );
    assert_eq!(
        conversion_outcome(true, "exit status: 0", false),
        Err(AppError::FfmpegFailed("ffmpeg did not produce an output file".to_string()))
    );
    assert_eq!(conversion_outcome(true, "exit status: 0", true), Ok(()));
}

#[test]
fn stages_and_model_preparation() {
    assert_eq!(stage_message(Stage::DownloadingModel), "Descargando modelo de precisión alta (medium)...");
    assert_eq!(stage_message(Stage::ExtractingAudio), "Extrayendo audio...");
    assert_eq!(stage_message(Stage::Transcribing), "Transcribiendo... (puede tardar varios minutos)");
    assert_eq!(stage_message(Stage::Completed), "Completado");
    assert_eq!(prepare_model(ModelKind::Fast, true), Ok(ModelPreparation::Ready));
    assert_eq!(prepare_model(ModelKind::HighAccuracy, true), Ok(ModelPreparation::Ready));
    assert_eq!(
        prepare_model(ModelKind::Fast, false),
        Err(AppError::ModelNotDownloaded("small".to_string()))
    );
    assert_eq!(prepare_model(ModelKind::HighAccuracy, false), Ok(ModelPreparation::Download));
}
