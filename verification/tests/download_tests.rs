use tts_tool::catalog::ModelKind;
use tts_tool::digest::{digest_matches, pinned_digest, ModelHasher};
use tts_tool::download::{check_response, plan_download, DownloadPlan, DownloadProgress, DownloadSession};
use tts_tool::error::AppError;

const ABC_SHA256: &str = "ba7816bf8f01cfea414140de5dae2223b00361a396177a9cb410ff61f20015ad";
const EMPTY_SHA256: &str = "e3b0c44298fc1c149afbf4c8996fb92427ae41e4649b934ca495991b7852b855";

#[test]
fn hasher_digests() {
    let mut h = ModelHasher::new();
    h.update(b"abc");
    let hex = h.finish_hex();
    assert_eq!(hex, ABC_SHA256);
    assert_eq!(hex.len(), 64);
    let mut h = ModelHasher::new();
    h.update(b"a");
    h.update(b"");
    h.update(b"bc");
    assert_eq!(h.finish_hex(), ABC_SHA256);
    assert_eq!(ModelHasher::new().finish_hex(), EMPTY_SHA256);
}

#[test]
fn download_plans() {
    assert_eq!(
        plan_download(ModelKind::Fast, false),
        Err(AppError::ModelError("the fast model is bundled and cannot be downloaded".to_string()))
    );
    assert_eq!(
        plan_download(ModelKind::Fast, true),
        Err(AppError::ModelError("the fast model is bundled and cannot be downloaded".to_string()))
    );
    assert_eq!(plan_download(ModelKind::HighAccuracy, true), Ok(DownloadPlan::AlreadyPresent));
    assert_eq!(
        plan_download(ModelKind::HighAccuracy, false),
        Ok(DownloadPlan::Fetch {
            url: "https://huggingface.co/ggerganov/whisper.cpp/resolve/main/ggml-medium-q5_0.bin"
                .to_string()
        })
    );
}

#[test]
fn responses() {
    assert_eq!(check_response(true, "200 OK"), Ok(()));
    assert_eq!(
        check_response(false, "404 Not Found"),
        Err(AppError::DownloadFailed("server responded with 404 Not Found".to_string()))
    );
}

#[test]
fn session_counts_and_pins_digest() {
    let mut s = DownloadSession::start(ModelKind::HighAccuracy, Some(3));
    assert_eq!(s.downloaded_bytes(), 0);
    let p = s.receive(b"ab");
    assert_eq!(
        p,
        DownloadProgress { model: ModelKind::HighAccuracy, downloaded_bytes: 2, total_bytes: Some(3) }
    );
    let p = s.receive(b"c");
    assert_eq!(p.downloaded_bytes, 3);
    assert_eq!(s.downloaded_bytes(), 3);
    assert_eq!(s.finish(), ABC_SHA256);
    let s = DownloadSession::start(ModelKind::HighAccuracy, None);
    assert_eq!(s.finish(), EMPTY_SHA256);
}

#[test]
fn cached_model_verification() {
    assert_eq!(pinned_digest(false, Some(ABC_SHA256.to_string())), None);
    assert_eq!(pinned_digest(true, None), None);
    let expected = pinned_digest(true, Some(format!("  {}\n", ABC_SHA256))).unwrap();
    assert_eq!(expected, ABC_SHA256);
    let mut h = ModelHasher::new();
    h.update(b"abc");
    assert!(digest_matches(&expected, h));
    let mut h = ModelHasher::new();
    h.update(b"abd");
    assert!(!digest_matches(&expected, h));
}

#[test]
fn fresh_download_verifies() {
    let mut s = DownloadSession::start(ModelKind::HighAccuracy, None);
    s.receive(b"model bytes");
    let stored = s.finish();
    let expected = pinned_digest(true, Some(stored)).unwrap();
    let mut h = ModelHasher::new();
    h.update(b"model ");
    h.update(b"bytes");
    assert!(digest_matches(&expected, h));
}
