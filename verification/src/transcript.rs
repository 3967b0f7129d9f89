//! Transcripts: timestamped segments and the full text, how they are
//! assembled from what the speech recogniser reports, and the decisions
//! taken around a recognition run.

use vstd::prelude::*;
use crate::error::AppError;
use crate::text::{decimal, law_trim_idempotent, push_char, push_decimal, trim, trimmed};

verus! {

/// One timestamped piece of a transcript. Times are in milliseconds.
#[derive(Debug, Clone, PartialEq, Eq)]
pub struct TranscriptSegment {
    pub start_ms: i128,
    pub end_ms: i128,
    pub text: String,
}

/// A finished transcription.
#[derive(Debug, Clone, PartialEq, Eq)]
pub struct TranscriptionResult {
    /// The whole transcript as one text.
    pub text: String,
    pub segments: Vec<TranscriptSegment>,
    /// Language code reported by the recogniser's language detection, if any.
    pub language: Option<String>,
}

/// A segment as the recogniser reports it: raw text, and start and end in
/// centiseconds.
#[derive(Debug, Clone, PartialEq, Eq)]
pub struct RecognizedSegment {
    pub text: String,
    pub t0: i64,
    pub t1: i64,
}

/// A time in centiseconds converted to milliseconds.
pub open spec fn centis_to_millis(cs: int) -> int {
    cs * 10
}

/// The segment of a transcript made from a recognised segment: same times
/// in milliseconds, trimmed text.
pub open spec fn segment_matches(seg: TranscriptSegment, raw: RecognizedSegment) -> bool {
    &&& seg.start_ms as int == centis_to_millis(raw.t0 as int)
    &&& seg.end_ms as int == centis_to_millis(raw.t1 as int)
    &&& seg.text@ == trimmed(raw.text@)
}

/// The trimmed texts of the recognised segments, each followed by a space.
pub open spec fn joined_text(raw: Seq<RecognizedSegment>) -> Seq<char>
    decreases raw.len(),
{
    if raw.len() == 0 {
        Seq::<char>::empty()
    } else {
        joined_text(raw.drop_last()) + trimmed(raw.last().text@) + seq![' ']
    }
}

/// The joined text holds, for every recognised segment in order, its trimmed
/// text followed by one space, each right after the one before it.
pub proof fn law_joined_text_at(raw: Seq<RecognizedSegment>, i: int)
    requires
        0 <= i < raw.len(),
    ensures
        joined_text(raw.subrange(0, i + 1)) == joined_text(raw.subrange(0, i)) + (trimmed(
            raw[i].text@,
        ) + seq![' ']),
        joined_text(raw).subrange(0, joined_text(raw.subrange(0, i + 1)).len() as int)
            == joined_text(raw.subrange(0, i + 1)),
{
    let p = raw.subrange(0, i + 1);
    assert(p.drop_last() =~= raw.subrange(0, i));
    assert(p.last() == raw[i]);
    assert(joined_text(p) =~= joined_text(raw.subrange(0, i)) + (trimmed(raw[i].text@) + seq![' ']));
    lemma_joined_prefix(raw, i + 1);
}

proof fn lemma_joined_prefix(raw: Seq<RecognizedSegment>, k: int)
    requires
        0 <= k <= raw.len(),
    ensures
        joined_text(raw.subrange(0, k)).len() <= joined_text(raw).len(),
        joined_text(raw).subrange(0, joined_text(raw.subrange(0, k)).len() as int) == joined_text(
            raw.subrange(0, k),
        ),
    decreases raw.len(),
{
    if k == raw.len() {
        assert(raw.subrange(0, k) =~= raw);
    } else {
        let d = raw.drop_last();
        assert(d.subrange(0, k) =~= raw.subrange(0, k));
        lemma_joined_prefix(d, k);
    }
}

/// Texts of an assembled transcript are already trimmed, so exporting it
/// (which trims every segment text) shows each text exactly as assembled.
pub proof fn law_assembled_text_is_export_text(seg: TranscriptSegment, raw: RecognizedSegment)
    requires
        segment_matches(seg, raw),
    ensures
        trimmed(seg.text@) == seg.text@,
{
    law_trim_idempotent(raw.text@);
}

/// A time of `cs` centiseconds is `10 * cs` milliseconds, for every `cs`.
pub proof fn law_centis_to_millis(cs: int)
    ensures
        centis_to_millis(cs) == 10 * cs,
{
}

fn centis_to_millis_exec(cs: i64) -> (ms: i128)
    ensures
        ms as int == centis_to_millis(cs as int),
        ms as int == 10 * cs,
{
    cs as i128 * 10
}

/// Builds the transcript from the recognised segments: each segment keeps
/// its times (in milliseconds) and its trimmed text; the full text is the
/// trimmed segment texts joined by single spaces.
pub fn assemble_transcript(raw: &[RecognizedSegment], language: Option<String>) -> (r: TranscriptionResult)
    ensures
        r.segments@.len() == raw@.len(),
        forall|i: int| 0 <= i < raw@.len() ==> segment_matches(#[trigger] r.segments@[i], raw@[i]),
        forall|i: int|
            0 <= i < raw@.len() ==> (#[trigger] r.segments@[i]).start_ms as int == 10 * raw@[i].t0
                && r.segments@[i].end_ms as int == 10 * raw@[i].t1 && r.segments@[i].text@
                == trimmed(raw@[i].text@),
        r.text@ == trimmed(joined_text(raw@)),
        r.language == language,
{
    let mut segments: Vec<TranscriptSegment> = Vec::new();
    let mut full_text = String::new();
    let n = raw.len();
    let mut i: usize = 0;
    assert(raw@.subrange(0, 0) =~= Seq::<RecognizedSegment>::empty());
    while i < n
        invariant
            i <= n,
            n == raw@.len(),
            segments@.len() == i,
            forall|k: int| 0 <= k < i ==> segment_matches(#[trigger] segments@[k], raw@[k]),
            forall|k: int|
                0 <= k < i ==> (#[trigger] segments@[k]).start_ms as int == 10 * raw@[k].t0
                    && segments@[k].end_ms as int == 10 * raw@[k].t1,
            full_text@ == joined_text(raw@.subrange(0, i as int)),
        decreases n - i,
    {
        let r = &raw[i];
        let text = trim(r.text.as_str());
        full_text.append(text.as_str());
        push_char(&mut full_text, ' ');
        let start_ms = centis_to_millis_exec(r.t0);
        let end_ms = centis_to_millis_exec(r.t1);
        segments.push(TranscriptSegment { start_ms, end_ms, text });
        assert(raw@.subrange(0, i + 1).drop_last() =~= raw@.subrange(0, i as int));
        i = i + 1;
    }
    assert(raw@.subrange(0, n as int) =~= raw@);
    let text = trim(full_text.as_str());
    TranscriptionResult { text, segments, language }
}

/// How many threads a recognition run uses: the available parallelism
/// capped at 4, or 4 when it cannot be determined.
pub fn thread_count(available: Option<usize>) -> (n: i32)
    ensures
        n == match available {
            Some(a) => if a < 4 { a as int } else { 4 },
            None => 4,
        },
{
    match available {
        Some(a) => if a < 4 { a as i32 } else { 4 },
        None => 4,
    }
}

/// The number of threads of the retry after a failed first run.
pub const RETRY_THREADS: i32 = 1;

/// The error a failed recognition run is reported as: a cancellation if the
/// job was cancelled meanwhile, else a transcription failure with `detail`.
pub fn run_failure(cancelled: bool, detail: String) -> (e: AppError)
    ensures
        e == if cancelled { AppError::Cancelled } else { AppError::TranscriptionFailed(detail) },
{
    if cancelled {
        AppError::Cancelled
    } else {
        AppError::TranscriptionFailed(detail)
    }
}

/// What follows the first recognition run.
#[derive(Debug, Clone, PartialEq, Eq)]
pub enum AfterFirstRun {
    /// The run succeeded: read the segments.
    Proceed,
    /// Stop with this error.
    Abort(AppError),
    /// Run once more with [`RETRY_THREADS`] threads; its error, if any, is final.
    Retry,
}

/// A first run that succeeded proceeds; a cancelled one stops; any other
/// failure is retried once single-threaded.
pub fn after_first_run(outcome: Result<(), AppError>) -> (next: AfterFirstRun)
    ensures
        next == match outcome {
            Ok(()) => AfterFirstRun::Proceed,
            Err(AppError::Cancelled) => AfterFirstRun::Abort(AppError::Cancelled),
            Err(_) => AfterFirstRun::Retry,
        },
{
    match outcome {
        Ok(()) => AfterFirstRun::Proceed,
        Err(AppError::Cancelled) => AfterFirstRun::Abort(AppError::Cancelled),
        Err(_) => AfterFirstRun::Retry,
    }
}

/// A recognition needs its model file: if it is missing the error names the
/// path shown as `display`.
pub fn check_model_file(exists: bool, display: &str) -> (r: Result<(), AppError>)
    ensures
        exists ==> r == Ok::<(), AppError>(()),
        !exists ==> (r matches Err(AppError::ModelError(m)) && m@ == "model file not found: "@
            + display@),
{
    if exists {
        Ok(())
    } else {
        let mut m = String::from_str("model file not found: ");
        m.append(display);
        Err(AppError::ModelError(m))
    }
}

/// The text of the error for an audio file that is not mono 16 kHz.
pub open spec fn wav_format_message(channels: nat, sample_rate: nat) -> Seq<char> {
    "expected mono 16kHz WAV, got "@ + decimal(channels) + " channel(s) at "@ + decimal(
        sample_rate,
    ) + "Hz"@
}

/// The audio format the recogniser takes: one channel at 16000 Hz.
pub open spec fn accepted_wav_format(channels: nat, sample_rate: nat) -> bool {
    channels == 1 && sample_rate == 16000
}

/// Exactly one format is accepted: one channel at 16000 Hz; every other
/// channel count or rate is refused.
pub proof fn law_only_mono_16k_is_accepted(channels: nat, sample_rate: nat)
    ensures
        accepted_wav_format(channels, sample_rate) <==> (channels == 1 && sample_rate == 16000),
{
}

/// The recogniser takes mono audio at 16 kHz only.
pub fn check_wav_format(channels: u16, sample_rate: u32) -> (r: Result<(), AppError>)
    ensures
        r is Ok <==> (channels == 1 && sample_rate == 16000),
        accepted_wav_format(channels as nat, sample_rate as nat) ==> r == Ok::<(), AppError>(()),
        !accepted_wav_format(channels as nat, sample_rate as nat) ==> (r matches Err(
            AppError::TranscriptionFailed(m),
        ) && m@ == wav_format_message(channels as nat, sample_rate as nat)),
{
    if channels != 1 || sample_rate != 16000 {
        let mut m = String::from_str("expected mono 16kHz WAV, got ");
        push_decimal(&mut m, channels as u128);
        m.append(" channel(s) at ");
        push_decimal(&mut m, sample_rate as u128);
        m.append("Hz");
        Err(AppError::TranscriptionFailed(m))
    } else {
        Ok(())
    }
}

} // verus!
