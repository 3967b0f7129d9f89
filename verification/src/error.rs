//! The application's error type, and the `{ kind, message }` pair by which it
//! is reported to the user interface.

use vstd::prelude::*;

verus! {

/// Application-level error.
#[derive(Debug, Clone, PartialEq, Eq)]
pub enum AppError {
    InvalidInput(String),
    FfmpegFailed(String),
    ModelError(String),
    ModelNotDownloaded(String),
    DownloadFailed(String),
    ChecksumMismatch,
    TranscriptionFailed(String),
    Io(String),
    Cancelled,
}

/// The machine-readable kind of an error, one per variant.
pub open spec fn kind_text(e: AppError) -> Seq<char> {
    match e {
        AppError::InvalidInput(_) => "invalid_input"@,
        AppError::FfmpegFailed(_) => "ffmpeg_failed"@,
        AppError::ModelError(_) => "model_error"@,
        AppError::ModelNotDownloaded(_) => "model_not_downloaded"@,
        AppError::DownloadFailed(_) => "download_failed"@,
        AppError::ChecksumMismatch => "checksum_mismatch"@,
        AppError::TranscriptionFailed(_) => "transcription_failed"@,
        AppError::Io(_) => "io_error"@,
        AppError::Cancelled => "cancelled"@,
    }
}

/// The human-readable message of an error.
pub open spec fn message_text(e: AppError) -> Seq<char> {
    match e {
        AppError::InvalidInput(d) => "Unsupported or unreadable input file: "@ + d@,
        AppError::FfmpegFailed(d) => "Audio extraction failed: "@ + d@,
        AppError::ModelError(d) => "Whisper model error: "@ + d@,
        AppError::ModelNotDownloaded(m) => "The '"@ + m@ + "' model is not downloaded yet"@,
        AppError::DownloadFailed(d) => "Model download failed: "@ + d@,
        AppError::ChecksumMismatch => "Downloaded model failed integrity check (SHA-256 mismatch)"@,
        AppError::TranscriptionFailed(d) => "Transcription failed: "@ + d@,
        AppError::Io(d) => "I/O error: "@ + d@,
        AppError::Cancelled => "Cancelled by the user"@,
    }
}

/// Which variant an error is, by position in the declaration.
pub open spec fn variant_index(e: AppError) -> int {
    match e {
        AppError::InvalidInput(_) => 0,
        AppError::FfmpegFailed(_) => 1,
        AppError::ModelError(_) => 2,
        AppError::ModelNotDownloaded(_) => 3,
        AppError::DownloadFailed(_) => 4,
        AppError::ChecksumMismatch => 5,
        AppError::TranscriptionFailed(_) => 6,
        AppError::Io(_) => 7,
        AppError::Cancelled => 8,
    }
}

impl AppError {
    /// The kind under which the error is reported to the user interface.
    pub fn kind(&self) -> (k: &'static str)
        ensures
            k@ == kind_text(*self),
    {
        match self {
            AppError::InvalidInput(_) => "invalid_input",
            AppError::FfmpegFailed(_) => "ffmpeg_failed",
            AppError::ModelError(_) => "model_error",
            AppError::ModelNotDownloaded(_) => "model_not_downloaded",
            AppError::DownloadFailed(_) => "download_failed",
            AppError::ChecksumMismatch => "checksum_mismatch",
            AppError::TranscriptionFailed(_) => "transcription_failed",
            AppError::Io(_) => "io_error",
            AppError::Cancelled => "cancelled",
        }
    }

    /// The error's message, as shown to the user.
    pub fn message(&self) -> (m: String)
        ensures
            m@ == message_text(*self),
    {
        match self {
            AppError::InvalidInput(d) => {
                let mut m = String::from_str("Unsupported or unreadable input file: ");
                m.append(d.as_str());
                m
            },
            AppError::FfmpegFailed(d) => {
                let mut m = String::from_str("Audio extraction failed: ");
                m.append(d.as_str());
                m
            },
            AppError::ModelError(d) => {
                let mut m = String::from_str("Whisper model error: ");
                m.append(d.as_str());
                m
            },
            AppError::ModelNotDownloaded(name) => {
                let mut m = String::from_str("The '");
                m.append(name.as_str());
                m.append("' model is not downloaded yet");
                m
            },
            AppError::DownloadFailed(d) => {
                let mut m = String::from_str("Model download failed: ");
                m.append(d.as_str());
                m
            },
            AppError::ChecksumMismatch => String::from_str(
                "Downloaded model failed integrity check (SHA-256 mismatch)",
            ),
            AppError::TranscriptionFailed(d) => {
                let mut m = String::from_str("Transcription failed: ");
                m.append(d.as_str());
                m
            },
            AppError::Io(d) => {
                let mut m = String::from_str("I/O error: ");
                m.append(d.as_str());
                m
            },
            AppError::Cancelled => String::from_str("Cancelled by the user"),
        }
    }
}

spec fn variant_of_kind(k: Seq<char>) -> int {
    if k.len() == 13 && k[0] == 'i' { 0 }
    else if k.len() == 13 { 1 }
    else if k.len() == 11 { 2 }
    else if k.len() == 20 && k[0] == 'm' { 3 }
    else if k.len() == 15 { 4 }
    else if k.len() == 17 { 5 }
    else if k.len() == 20 { 6 }
    else if k.len() == 8 { 7 }
    else { 8 }
}

proof fn lemma_kind_determines_variant(e: AppError)
    ensures
        variant_of_kind(kind_text(e)) == variant_index(e),
{
    match e {
        AppError::InvalidInput(_) => reveal_strlit("invalid_input"),
        AppError::FfmpegFailed(_) => reveal_strlit("ffmpeg_failed"),
        AppError::ModelError(_) => reveal_strlit("model_error"),
        AppError::ModelNotDownloaded(_) => reveal_strlit("model_not_downloaded"),
        AppError::DownloadFailed(_) => reveal_strlit("download_failed"),
        AppError::ChecksumMismatch => reveal_strlit("checksum_mismatch"),
        AppError::TranscriptionFailed(_) => reveal_strlit("transcription_failed"),
        AppError::Io(_) => reveal_strlit("io_error"),
        AppError::Cancelled => reveal_strlit("cancelled"),
    }
}

/// Errors of different variants are reported under different kinds, so the
/// user interface can tell every variant apart by its kind alone.
pub proof fn law_kind_identifies_variant(a: AppError, b: AppError)
    requires
        kind_text(a) == kind_text(b),
    ensures
        variant_index(a) == variant_index(b),
{
    lemma_kind_determines_variant(a);
    lemma_kind_determines_variant(b);
}

} // verus!
