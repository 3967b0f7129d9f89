use tts_tool::error::AppError;

fn s(x: &str) -> String {
    x.to_string()
}

#[test]
fn kinds_of_every_variant() {
    assert_eq!(AppError::InvalidInput(s("x")).kind(), "invalid_input");
    assert_eq!(AppError::FfmpegFailed(s("x")).kind(), "ffmpeg_failed");
    assert_eq!(AppError::ModelError(s("x")).kind(), "model_error");
    assert_eq!(AppError::ModelNotDownloaded(s("x")).kind(), "model_not_downloaded");
    assert_eq!(AppError::DownloadFailed(s("x")).kind(), "download_failed");
    assert_eq!(AppError::ChecksumMismatch.kind(), "checksum_mismatch");
    assert_eq!(AppError::TranscriptionFailed(s("x")).kind(), "transcription_failed");
    assert_eq!(AppError::Io(s("x")).kind(), "io_error");
    assert_eq!(AppError::Cancelled.kind(), "cancelled");
}

#[test]
fn messages_of_every_variant() {
    assert_eq!(
        AppError::InvalidInput(s("bad.mp3")).message(),
        "Unsupported or unreadable input file: bad.mp3"
    );
    assert_eq!(AppError::FfmpegFailed(s("boom")).message(), "Audio extraction failed: boom");
    assert_eq!(AppError::ModelError(s("m")).message(), "Whisper model error: m");
    assert_eq!(
        AppError::ModelNotDownloaded(s("small")).message(),
        "The 'small' model is not downloaded yet"
    );
    assert_eq!(AppError::DownloadFailed(s("net")).message(), "Model download failed: net");
    assert_eq!(
        AppError::ChecksumMismatch.message(),
        "Downloaded model failed integrity check (SHA-256 mismatch)"
    );
    assert_eq!(
        AppError::TranscriptionFailed(s("t")).message(),
        "Transcription failed: t"
    );
    assert_eq!(AppError::Io(s("disk")).message(), "I/O error: disk");
    assert_eq!(AppError::Cancelled.message(), "Cancelled by the user");
}

#[test]
fn kinds_are_distinct() {
    let all = vec![
        AppError::InvalidInput(s("")),
        AppError::FfmpegFailed(s("")),
        AppError::ModelError(s("")),
        AppError::ModelNotDownloaded(s("")),
        AppError::DownloadFailed(s("")),
        AppError::ChecksumMismatch,
        AppError::TranscriptionFailed(s("")),
        AppError::Io(s("")),
        AppError::Cancelled,
    ];
    for i in 0..all.len() {
        for j in 0..all.len() {
            if i != j {
                assert_ne!(all[i].kind(), all[j].kind());
            }
        }
    }
}
