use tts_tool::error::AppError;
use tts_tool::state::{check_not_cancelled, is_cancelled, TranscriptionState};

#[test]
fn cancel_without_job_reports_false() {
    let mut st = TranscriptionState::new();
    assert!(!st.request_cancel());
    let d = TranscriptionState::default();
    let mut d = d;
    assert!(!d.request_cancel());
}

#[test]
fn cancel_reaches_running_job() {
    let mut st = TranscriptionState::new();
    let job = st.begin_job();
    assert!(!is_cancelled(&st, job));
    assert_eq!(check_not_cancelled(&st, job), Ok(()));
    assert!(st.request_cancel());
    assert!(is_cancelled(&st, job));
    assert_eq!(check_not_cancelled(&st, job), Err(AppError::Cancelled));
}

#[test]
fn ended_job_cannot_be_cancelled_but_keeps_flag() {
    let mut st = TranscriptionState::new();
    let job = st.begin_job();
    assert!(st.request_cancel());
    st.end_job();
    assert!(!st.request_cancel());
    assert!(is_cancelled(&st, job));
}

#[test]
fn new_job_starts_uncancelled_and_only_it_is_cancelled() {
    let mut st = TranscriptionState::new();
    let first = st.begin_job();
    let second = st.begin_job();
    assert_ne!(first, second);
    assert!(!is_cancelled(&st, second));
    assert!(st.request_cancel());
    assert!(is_cancelled(&st, second));
    assert!(!is_cancelled(&st, first));
}

#[test]
fn foreign_handle_reads_not_cancelled() {
    let mut a = TranscriptionState::new();
    a.begin_job();
    let late = a.begin_job();
    let mut b = TranscriptionState::new();
    b.begin_job();
    b.request_cancel();
    assert!(!is_cancelled(&b, late));
}
