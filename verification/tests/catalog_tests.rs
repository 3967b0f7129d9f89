use tts_tool::catalog::{model_info, model_location, model_status, ModelKind, ModelLocation};

#[test]
fn catalogue_entries() {
    let fast = model_info(ModelKind::Fast);
    assert_eq!(fast.kind, ModelKind::Fast);
    assert_eq!(fast.file_name, "ggml-small-q5_1.bin");
    assert_eq!(fast.download_url, None);
    assert_eq!(fast.approx_size_bytes, 199_229_440);
    let high = model_info(ModelKind::HighAccuracy);
    assert_eq!(high.kind, ModelKind::HighAccuracy);
    assert_eq!(high.file_name, "ggml-medium-q5_0.bin");
    assert_eq!(
        high.download_url,
        Some("https://huggingface.co/ggerganov/whisper.cpp/resolve/main/ggml-medium-q5_0.bin")
    );
    assert_eq!(high.approx_size_bytes, 565_182_464);
}

#[test]
fn status_reports_catalogue_and_presence() {
    let st = model_status(ModelKind::HighAccuracy, false);
    assert_eq!(st.kind, ModelKind::HighAccuracy);
    assert_eq!(st.file_name, "ggml-medium-q5_0.bin");
    assert!(!st.downloaded);
    assert_eq!(st.approx_size_bytes, 539 * 1024 * 1024);
    let st = model_status(ModelKind::Fast, true);
    assert!(st.downloaded);
    assert_eq!(st.file_name, "ggml-small-q5_1.bin");
}

#[test]
fn locations() {
    assert_eq!(
        model_location(ModelKind::Fast),
        ModelLocation::Resource { relative_path: "resources/models/ggml-small-q5_1.bin".to_string() }
    );
    assert_eq!(
        model_location(ModelKind::HighAccuracy),
        ModelLocation::AppData {
            dir_name: "models".to_string(),
            file_name: "ggml-medium-q5_0.bin".to_string()
        }
    );
}
