//! The catalogue of speech-recognition models the user can pick from, and
//! where each one lives on disk.

use vstd::prelude::*;

verus! {

/// Which model/mode the user selected.
#[derive(Debug, Clone, Copy, PartialEq, Eq, Structural)]
pub enum ModelKind {
    /// `ggml-small-q5_1.bin`, bundled inside the installer as a resource.
    Fast,
    /// `ggml-medium-q5_0.bin`, downloaded on demand into the app data dir.
    HighAccuracy,
}

/// Static description of a model.
#[derive(Debug, Clone, Copy)]
pub struct ModelInfo {
    pub kind: ModelKind,
    pub file_name: &'static str,
    /// `None` for bundled models (resolved as a resource, not downloaded).
    pub download_url: Option<&'static str>,
    pub approx_size_bytes: u64,
}

/// The file name of each model.
pub open spec fn model_file_name(kind: ModelKind) -> Seq<char> {
    match kind {
        ModelKind::Fast => "ggml-small-q5_1.bin"@,
        ModelKind::HighAccuracy => "ggml-medium-q5_0.bin"@,
    }
}

/// Where the model can be downloaded from, if it is downloaded at all.
pub open spec fn model_download_url(kind: ModelKind) -> Option<Seq<char>> {
    match kind {
        ModelKind::Fast => None,
        ModelKind::HighAccuracy => Some(
            "https://huggingface.co/ggerganov/whisper.cpp/resolve/main/ggml-medium-q5_0.bin"@,
        ),
    }
}

/// The approximate size of each model: 190 MiB and 539 MiB.
pub open spec fn model_size(kind: ModelKind) -> nat {
    match kind {
        ModelKind::Fast => 190 * 1024 * 1024,
        ModelKind::HighAccuracy => 539 * 1024 * 1024,
    }
}

/// The description of a model matches the catalogue entry for `kind`.
pub open spec fn describes(info: ModelInfo, kind: ModelKind) -> bool {
    &&& info.kind == kind
    &&& info.file_name@ == model_file_name(kind)
    &&& match info.download_url {
        Some(u) => model_download_url(kind) == Some(u@),
        None => model_download_url(kind) is None,
    }
    &&& info.approx_size_bytes == model_size(kind)
}

/// The catalogue entry of a model.
pub fn model_info(kind: ModelKind) -> (info: ModelInfo)
    ensures
        describes(info, kind),
{
    match kind {
        ModelKind::Fast => ModelInfo {
            kind: ModelKind::Fast,
            file_name: "ggml-small-q5_1.bin",
            download_url: None,
            approx_size_bytes: 190 * 1024 * 1024,
        },
        ModelKind::HighAccuracy => ModelInfo {
            kind: ModelKind::HighAccuracy,
            file_name: "ggml-medium-q5_0.bin",
            download_url: Some(
                "https://huggingface.co/ggerganov/whisper.cpp/resolve/main/ggml-medium-q5_0.bin",
            ),
            approx_size_bytes: 539 * 1024 * 1024,
        },
    }
}

/// What the user interface is told about a model.
#[derive(Debug, Clone, PartialEq, Eq)]
pub struct ModelStatus {
    pub kind: ModelKind,
    pub file_name: String,
    pub downloaded: bool,
    pub approx_size_bytes: u64,
}

/// The status of model `kind`, given whether its file is present.
pub fn model_status(kind: ModelKind, downloaded: bool) -> (st: ModelStatus)
    ensures
        st.kind == kind,
        st.file_name@ == model_file_name(kind),
        st.downloaded == downloaded,
        st.approx_size_bytes == model_size(kind),
{
    let info = model_info(kind);
    ModelStatus {
        kind,
        file_name: String::from_str(info.file_name),
        downloaded,
        approx_size_bytes: info.approx_size_bytes,
    }
}

/// Where a model's file is looked for.
#[derive(Debug, Clone, PartialEq, Eq)]
pub enum ModelLocation {
    /// A file shipped with the application, at this path relative to its
    /// resource directory.
    Resource { relative_path: String },
    /// A file `file_name` in the directory `dir_name` of the application's
    /// data directory (created if missing).
    AppData { dir_name: String, file_name: String },
}

/// The bundled model is a resource under `resources/models/`; the
/// downloaded one is kept in the `models` directory of the app data dir.
pub fn model_location(kind: ModelKind) -> (loc: ModelLocation)
    ensures
        match kind {
            ModelKind::Fast => loc matches ModelLocation::Resource { relative_path }
                && relative_path@ == "resources/models/"@ + model_file_name(kind),
            ModelKind::HighAccuracy => loc matches ModelLocation::AppData { dir_name, file_name }
                && dir_name@ == "models"@ && file_name@ == model_file_name(kind),
        },
{
    let info = model_info(kind);
    match kind {
        ModelKind::Fast => {
            let mut p = String::from_str("resources/models/");
            p.append(info.file_name);
            ModelLocation::Resource { relative_path: p }
        },
        ModelKind::HighAccuracy => ModelLocation::AppData {
            dir_name: String::from_str("models"),
            file_name: String::from_str(info.file_name),
        },
    }
}

/// Only the model that is not bundled can be downloaded.
pub proof fn law_only_high_accuracy_is_downloadable(kind: ModelKind)
    ensures
        model_download_url(kind) is Some <==> kind == ModelKind::HighAccuracy,
{
}

} // verus!
