//! On-demand download of a model: what to fetch, how a response is judged,
//! and the running state of a download (bytes received, progress reports,
//! and the digest pinned once the file is complete).

use vstd::prelude::*;
use crate::catalog::{model_download_url, model_info, ModelKind};
use crate::digest::{hasher_input, sha256_of, ModelHasher};
use crate::error::AppError;
use crate::text::hex_lower;

verus! {

/// What a download of a model amounts to.
#[derive(Debug, Clone, PartialEq, Eq)]
pub enum DownloadPlan {
    /// The model file is already there: nothing to do.
    AlreadyPresent,
    /// Fetch the model from `url`.
    Fetch { url: String },
}

/// Decides a download of model `kind`. The bundled model cannot be
/// downloaded; a model already on disk is not fetched again; otherwise it is
/// fetched from its catalogue URL.
pub fn plan_download(kind: ModelKind, already_downloaded: bool) -> (r: Result<DownloadPlan, AppError>)
    ensures
        kind == ModelKind::Fast ==> (r matches Err(AppError::ModelError(m))
            && m@ == "the fast model is bundled and cannot be downloaded"@),
        kind == ModelKind::HighAccuracy && already_downloaded ==> r == Ok::<DownloadPlan, AppError>(
            DownloadPlan::AlreadyPresent,
        ),
        kind == ModelKind::HighAccuracy && !already_downloaded ==> (r matches Ok(
            DownloadPlan::Fetch { url },
        ) && model_download_url(kind) == Some(url@)),
{
    if kind == ModelKind::Fast {
        return Err(
            AppError::ModelError(
                String::from_str("the fast model is bundled and cannot be downloaded"),
            ),
        );
    }
    if already_downloaded {
        return Ok(DownloadPlan::AlreadyPresent);
    }
    let info = model_info(kind);
    match info.download_url {
        Some(url) => Ok(DownloadPlan::Fetch { url: String::from_str(url) }),
        None => Err(AppError::ModelError(String::from_str("model has no download URL"))),
    }
}

/// A response whose status is not a success fails the download; the error
/// quotes the status as `status_text`.
pub fn check_response(success: bool, status_text: &str) -> (r: Result<(), AppError>)
    ensures
        success ==> r == Ok::<(), AppError>(()),
        !success ==> (r matches Err(AppError::DownloadFailed(m)) && m@ == "server responded with "@
            + status_text@),
{
    if success {
        Ok(())
    } else {
        let mut m = String::from_str("server responded with ");
        m.append(status_text);
        Err(AppError::DownloadFailed(m))
    }
}

/// A progress report of a running download.
#[derive(Debug, Clone, Copy, PartialEq, Eq)]
pub struct DownloadProgress {
    pub model: ModelKind,
    pub downloaded_bytes: u64,
    pub total_bytes: Option<u64>,
}

/// A download in progress: the bytes received so far are counted and hashed
/// as they arrive.
pub struct DownloadSession {
    model: ModelKind,
    total_bytes: Option<u64>,
    downloaded_bytes: u64,
    hasher: ModelHasher,
}

impl DownloadSession {
    /// The bytes received so far, in order.
    pub closed spec fn received(&self) -> Seq<u8> {
        hasher_input(self.hasher)
    }

    /// The model being downloaded.
    pub closed spec fn model(&self) -> ModelKind {
        self.model
    }

    /// The size announced by the server, if any.
    pub closed spec fn total(&self) -> Option<u64> {
        self.total_bytes
    }

    /// The byte count kept equals what was received.
    pub closed spec fn wf(&self) -> bool {
        self.downloaded_bytes as nat == hasher_input(self.hasher).len()
    }

    /// Starts a download of `model`, whose size the server announced as
    /// `total_bytes` (if it did).
    pub fn start(model: ModelKind, total_bytes: Option<u64>) -> (s: Self)
        ensures
            s.wf(),
            s.received() == Seq::<u8>::empty(),
            s.model() == model,
            s.total() == total_bytes,
    {
        DownloadSession { model, total_bytes, downloaded_bytes: 0, hasher: ModelHasher::new() }
    }

    /// Takes in a received chunk and reports the progress made: the model,
    /// the number of bytes received so far, and the announced size.
    pub fn receive(&mut self, chunk: &[u8]) -> (p: DownloadProgress)
        requires
            old(self).wf(),
            old(self).received().len() + chunk@.len() <= u64::MAX,
        ensures
            final(self).wf(),
            final(self).received() == old(self).received() + chunk@,
            final(self).model() == old(self).model(),
            final(self).total() == old(self).total(),
            p.model == old(self).model(),
            p.downloaded_bytes as nat == final(self).received().len(),
            p.total_bytes == old(self).total(),
    {
        self.hasher.update(chunk);
        self.downloaded_bytes = self.downloaded_bytes + chunk.len() as u64;
        DownloadProgress {
            model: self.model,
            downloaded_bytes: self.downloaded_bytes,
            total_bytes: self.total_bytes,
        }
    }

    /// The number of bytes received so far.
    pub fn downloaded_bytes(&self) -> (n: u64)
        requires
            self.wf(),
        ensures
            n as nat == self.received().len(),
    {
        self.downloaded_bytes
    }

    /// Ends the download: the lowercase hex SHA-256 digest of all bytes
    /// received, to be stored next to the model.
    pub fn finish(self) -> (hex: String)
        ensures
            hex@ == hex_lower(sha256_of(self.received())),
            sha256_of(self.received()).len() == 32,
            hex@.len() == 64,
    {
        self.hasher.finish_hex()
    }
}

} // verus!
