use null_launcher::download::{
    body_offset, is_retryable, keeps_partial, next_step, retry_delay_ms, unreported_bytes, CachedCopy, DownloadObject, FailureKind, NextStep,
    MAX_ATTEMPTS,
};

fn object(size: Option<u64>, sha1: Option<&str>) -> DownloadObject {
    DownloadObject {
        url: "https://example.org/f".to_string(),
        size,
        sha1: sha1.map(|s| s.to_string()),
        file_path: "f".to_string(),
    }
}

#[test]
fn cached_copies() {
    assert_eq!(object(Some(3), None).cached_copy(None), CachedCopy::Stale);
    assert_eq!(object(Some(3), None).cached_copy(Some(3)), CachedCopy::Valid);
    assert_eq!(object(Some(3), Some("x")).cached_copy(Some(3)), CachedCopy::CheckDigest);
    assert_eq!(object(Some(3), Some("x")).cached_copy(Some(4)), CachedCopy::Stale);
    assert_eq!(object(None, None).cached_copy(Some(4)), CachedCopy::Stale);
}

#[test]
fn cached_contents() {
    let o = object(Some(3), Some("a9993e364706816aba3e25717850c26c9cd0d89d"));
    assert!(o.contents_match(b"abc"));
    assert!(!o.contents_match(b"abd"));
    assert!(object(Some(3), None).contents_match(b"anything"));
}

#[test]
fn transfers() {
    let o = object(Some(3), Some("abc"));
    assert_eq!(o.check_transfer(3, "abc"), Ok(()));
    assert_eq!(o.check_transfer(4, "abc"), Err("size mismatch".to_string()));
    assert_eq!(o.check_transfer(4, "zzz"), Err("size mismatch".to_string()));
    assert_eq!(o.check_transfer(3, "zzz"), Err("sha1 mismatch".to_string()));
    assert_eq!(object(None, None).check_transfer(99, "zzz"), Ok(()));
}

#[test]
fn retry_delays() {
    assert_eq!(retry_delay_ms(1), 500);
    assert_eq!(retry_delay_ms(2), 1000);
    assert_eq!(retry_delay_ms(3), 2000);
    assert_eq!(retry_delay_ms(4), 4000);
    assert_eq!(retry_delay_ms(5), 8000);
    assert_eq!(retry_delay_ms(40), 8000);
    assert_eq!(retry_delay_ms(u32::MAX), 8000);
}

#[test]
fn retryable_failures() {
    assert!(is_retryable(FailureKind::Other));
    assert!(is_retryable(FailureKind::Request { status: None, is_builder: false }));
    assert!(!is_retryable(FailureKind::Request { status: None, is_builder: true }));
    assert!(is_retryable(FailureKind::Request { status: Some(503), is_builder: false }));
    assert!(is_retryable(FailureKind::Request { status: Some(429), is_builder: false }));
    assert!(!is_retryable(FailureKind::Request { status: Some(404), is_builder: false }));
    assert!(!is_retryable(FailureKind::Request { status: Some(600), is_builder: false }));
}

#[test]
fn steps_after_failures() {
    assert_eq!(next_step(1, FailureKind::Other), NextStep::RetryAfter(500));
    assert_eq!(next_step(4, FailureKind::Other), NextStep::RetryAfter(4000));
    assert_eq!(next_step(MAX_ATTEMPTS, FailureKind::Other), NextStep::GiveUp);
    assert_eq!(next_step(2, FailureKind::Request { status: Some(404), is_builder: false }), NextStep::GiveUp);
}

#[test]
fn progress_of_a_transfer() {
    assert_eq!(unreported_bytes(0, 100), (100, 100));
    assert_eq!(unreported_bytes(100, 150), (50, 150));
    assert_eq!(unreported_bytes(150, 20), (0, 150));
}

#[test]
fn interrupted_transfers_resume() {
    let sized = object(Some(100), Some("abc"));
    assert_eq!(sized.resume_offset(None), 0);
    assert_eq!(sized.resume_offset(Some(0)), 0);
    assert_eq!(sized.resume_offset(Some(40)), 40);
    assert_eq!(sized.resume_offset(Some(99)), 99);
    assert_eq!(sized.resume_offset(Some(100)), 0);
    assert_eq!(sized.resume_offset(Some(150)), 0);
    let unsized_ = object(None, None);
    assert_eq!(unsized_.resume_offset(Some(40)), 40);
    assert_eq!(unsized_.resume_offset(None), 0);
}

#[test]
fn response_bodies_continue_or_restart() {
    assert_eq!(body_offset(40, 206), 40);
    assert_eq!(body_offset(40, 200), 0);
    assert_eq!(body_offset(0, 200), 0);
}

#[test]
fn partial_files_kept_only_for_broken_transfers() {
    assert!(keeps_partial(FailureKind::Request { status: None, is_builder: false }));
    assert!(keeps_partial(FailureKind::Request { status: Some(503), is_builder: false }));
    assert!(keeps_partial(FailureKind::Request { status: Some(429), is_builder: false }));
    assert!(!keeps_partial(FailureKind::Request { status: Some(416), is_builder: false }));
    assert!(!keeps_partial(FailureKind::Request { status: None, is_builder: true }));
    assert!(!keeps_partial(FailureKind::Other));
}
