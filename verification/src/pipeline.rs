//! The course of a transcription request: preparing the model, the stages
//! reported to the user, and their messages.

use vstd::prelude::*;
use crate::catalog::ModelKind;
use crate::error::AppError;

verus! {

/// The stages of a transcription reported to the user interface.
#[derive(Debug, Clone, Copy, PartialEq, Eq, Structural)]
pub enum Stage {
    DownloadingModel,
    ExtractingAudio,
    Transcribing,
    Completed,
}

/// The message shown with each stage.
pub open spec fn stage_message_text(stage: Stage) -> Seq<char> {
    match stage {
        Stage::DownloadingModel => "Descargando modelo de precisi\u{f3}n alta (medium)..."@,
        Stage::ExtractingAudio => "Extrayendo audio..."@,
        Stage::Transcribing => "Transcribiendo... (puede tardar varios minutos)"@,
        Stage::Completed => "Completado"@,
    }
}

/// The message shown with `stage`.
pub fn stage_message(stage: Stage) -> (m: &'static str)
    ensures
        m@ == stage_message_text(stage),
{
    match stage {
        Stage::DownloadingModel => "Descargando modelo de precisi\u{f3}n alta (medium)...",
        Stage::ExtractingAudio => "Extrayendo audio...",
        Stage::Transcribing => "Transcribiendo... (puede tardar varios minutos)",
        Stage::Completed => "Completado",
    }
}

/// How the model of a transcription is made available.
#[derive(Debug, Clone, Copy, PartialEq, Eq, Structural)]
pub enum ModelPreparation {
    /// The model file is present.
    Ready,
    /// Download it first, reporting [`Stage::DownloadingModel`].
    Download,
}

/// A present model is used as it is. A missing bundled model is an error;
/// a missing downloadable model is downloaded first.
pub fn prepare_model(mode: ModelKind, downloaded: bool) -> (r: Result<ModelPreparation, AppError>)
    ensures
        downloaded ==> r == Ok::<ModelPreparation, AppError>(ModelPreparation::Ready),
        !downloaded && mode == ModelKind::Fast ==> (r matches Err(AppError::ModelNotDownloaded(m))
            && m@ == "small"@),
        !downloaded && mode == ModelKind::HighAccuracy ==> r == Ok::<ModelPreparation, AppError>(
            ModelPreparation::Download,
        ),
{
    if downloaded {
        return Ok(ModelPreparation::Ready);
    }
    match mode {
        ModelKind::Fast => Err(AppError::ModelNotDownloaded(String::from_str("small"))),
        ModelKind::HighAccuracy => Ok(ModelPreparation::Download),
    }
}

} // verus!
