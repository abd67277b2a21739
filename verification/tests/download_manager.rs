use prunr_app::checksum::{same_checksum, Checksum};
use prunr_app::download_manager::{
    partial_path, total_bytes_of, AttemptFailure, DownloadAttempt, DownloadError, DownloadEvent,
    DownloadManager, DownloadState, ModelOffer, ModelPart, MultiPart, Retry, RetryStep,
};
use prunr_app::pipeline::ModelId;

fn fixture() -> DownloadManager {
    DownloadManager::new()
}

#[test]
fn idle_state_for_untouched_id() {
    let dm = fixture();
    assert_eq!(dm.state(ModelId::U2net), DownloadState::Idle);
    assert_eq!(dm.state(ModelId::LaMaFp32), DownloadState::Idle);
}

#[test]
fn start_for_bundled_model_marks_done_immediately() {
    let mut dm = fixture();
    let start = dm.start_download(ModelId::Silueta, true, &ModelOffer::Bundled);
    assert!(start.is_none());
    assert_eq!(dm.state(ModelId::Silueta), DownloadState::Done);
    assert!(dm.active.is_none());
}

#[test]
fn cancel_unstarted_id_is_safe_no_op() {
    let mut dm = fixture();
    dm.cancel_download(ModelId::U2net);
    assert_eq!(dm.state(ModelId::U2net), DownloadState::Idle);
}

#[test]
fn apply_event_progress_updates_bytes_so_far() {
    let mut dm = fixture();
    dm.apply_event(&DownloadEvent::Progress { id: ModelId::U2net, bytes_so_far: 1024, total: 4096 });
    match dm.state(ModelId::U2net) {
        DownloadState::InProgress { bytes_so_far, total_bytes } => {
            assert_eq!(bytes_so_far, 1024);
            assert_eq!(total_bytes, 4096);
        }
        other => panic!("expected InProgress, got {other:?}"),
    }
}

#[test]
fn apply_event_complete_clears_active() {
    let mut dm = fixture();
    dm.active = Some(ModelId::U2net);
    dm.apply_event(&DownloadEvent::Complete { id: ModelId::U2net });
    assert_eq!(dm.state(ModelId::U2net), DownloadState::Done);
    assert!(dm.active.is_none());
}

#[test]
fn apply_event_failed_records_retryable_flag() {
    let mut dm = fixture();
    dm.apply_event(&DownloadEvent::Failed {
        id: ModelId::U2net,
        error: "timeout".into(),
        retryable: true,
    });
    match dm.state(ModelId::U2net) {
        DownloadState::Failed { retryable, .. } => assert!(retryable),
        other => panic!("expected Failed, got {other:?}"),
    }
}

#[test]
fn partial_path_appends_partial_suffix() {
    let p = partial_path("/tmp/big_lama.onnx");
    assert_eq!(p, "/tmp/big_lama.onnx.partial");
}

/// Runs tries until they are over. Returns how many there were, the pauses between
/// them, and how they ended.
fn run(
    max_attempts: u32,
    base_ms: u64,
    mut attempt: impl FnMut(u32) -> Result<(), DownloadError>,
) -> (u32, Vec<u64>, Result<(), DownloadError>) {
    let mut retry = Retry::new();
    let mut pauses = Vec::new();
    let mut n = 0;
    loop {
        n += 1;
        match retry.next(attempt(n - 1), max_attempts, base_ms) {
            RetryStep::Finish(r) => return (n, pauses, r),
            RetryStep::Wait(ms) => pauses.push(ms),
        }
    }
}

#[test]
fn retry_succeeds_after_two_transient_failures() {
    let (attempts, _, result) = run(3, 1, |n| {
        if n < 2 {
            Err(DownloadError::transient("simulated timeout".into()))
        } else {
            Ok(())
        }
    });
    assert!(result.is_ok());
    assert_eq!(attempts, 3);
}

#[test]
fn retry_fails_fast_on_fatal_error() {
    let (attempts, _, result) = run(3, 1, |_| Err(DownloadError::fatal("404".into())));
    assert!(result.is_err());
    assert_eq!(attempts, 1, "fatal error must not retry");
}

#[test]
fn retry_exhausts_max_attempts() {
    let (attempts, _, result) = run(3, 1, |_| Err(DownloadError::transient("network".into())));
    assert!(result.is_err());
    assert_eq!(attempts, 3);
}

#[test]
fn pauses_double_up_to_a_limit() {
    let (_, pauses, _) = run(10, 5, |_| Err(DownloadError::transient("network".into())));
    assert_eq!(pauses, vec![5, 10, 20, 40, 80, 160, 320, 320, 320]);
}

#[test]
fn multi_part_progress_aggregation_via_apply_event() {
    let mut dm = fixture();
    let id = ModelId::SdV15InpaintFp16;
    dm.apply_event(&DownloadEvent::Progress {
        id,
        bytes_so_far: 1_073_741_824,
        total: 2_147_483_648,
    });
    match dm.state(id) {
        DownloadState::InProgress { bytes_so_far, total_bytes } => {
            assert_eq!(bytes_so_far, 1_073_741_824);
            assert_eq!(total_bytes, 2_147_483_648);
        }
        other => panic!("expected InProgress, got {other:?}"),
    }
    dm.apply_event(&DownloadEvent::Complete { id });
    assert_eq!(dm.state(id), DownloadState::Done);
}

#[test]
fn cancel_dequeues_a_pending_id() {
    let mut dm = fixture();
    dm.active = Some(ModelId::U2net);
    dm.queue.push_back(ModelId::LaMaFp32);
    dm.states.insert(ModelId::LaMaFp32.to_code(), DownloadState::Queued);

    dm.cancel_download(ModelId::LaMaFp32);

    assert!(dm.queue.is_empty());
    assert_eq!(dm.state(ModelId::LaMaFp32), DownloadState::Idle);
    assert_eq!(
        dm.active,
        Some(ModelId::U2net),
        "cancelling a queued id must not clear the active download"
    );
}

#[test]
fn downloads_run_one_after_the_other() {
    let mut dm = fixture();
    let offer = ModelOffer::Download { total_bytes: 10 };
    let first = dm.start_download(ModelId::U2net, false, &offer).expect("starts at once");
    assert_eq!(first.total_bytes, 10);
    assert!(dm.start_download(ModelId::LaMaFp32, false, &offer).is_none());
    assert_eq!(dm.state(ModelId::LaMaFp32), DownloadState::Queued);
    let pumped = dm.pump(vec![DownloadEvent::Complete { id: ModelId::U2net }]);
    assert_eq!(pumped.events.len(), 1);
    assert_eq!(pumped.next, Some(ModelId::LaMaFp32));
    assert!(dm.kick_off(ModelId::LaMaFp32, &offer).is_some());
    assert_eq!(dm.active, Some(ModelId::LaMaFp32));
}

#[test]
fn a_model_that_cannot_be_had_fails() {
    for offer in [
        ModelOffer::Unknown,
        ModelOffer::Bundled,
        ModelOffer::NoDataDir,
        ModelOffer::DirFailed { error: "no".into() },
    ] {
        let mut dm = fixture();
        assert!(dm.start_download(ModelId::U2net, false, &offer).is_none());
        let pumped = dm.pump(Vec::new());
        assert_eq!(pumped.events.len(), 1);
        assert!(matches!(dm.state(ModelId::U2net), DownloadState::Failed { .. }));
    }
}

#[test]
fn parts_add_up_to_the_total() {
    let mut m = MultiPart::new(
        ModelId::SdV15InpaintFp16,
        vec![
            ModelPart { key: "unet".into(), size_bytes: 30 },
            ModelPart { key: "vae".into(), size_bytes: 12 },
        ],
    );
    assert_eq!(m.total, 42);
    assert_eq!(m.current().unwrap().key, "unet");
    let failed = m.failed(&DownloadError::fatal("HTTP 404".into()));
    assert!(matches!(failed, DownloadEvent::Failed { error, .. } if error == "unet: HTTP 404"));
    m.downloaded();
    assert!(matches!(
        m.progress(5),
        Some(DownloadEvent::Progress { bytes_so_far: 35, total: 42, .. })
    ));
    let there = m.already_there();
    assert!(matches!(there, DownloadEvent::Progress { bytes_so_far: 42, .. }));
    assert!(m.current().is_none());
    assert_eq!(total_bytes_of(3), 3_145_728);
}

#[test]
fn only_success_begins_an_attempt() {
    assert!(DownloadAttempt::begin(200, "OK".into(), Some(3)).is_ok());
    assert!(DownloadAttempt::begin(299, String::new(), None).is_ok());
    let gone = DownloadAttempt::begin(404, "404 Not Found".into(), None).err().unwrap();
    assert!(!gone.retryable);
    let busy = DownloadAttempt::begin(503, "503 Service Unavailable".into(), None).err().unwrap();
    assert!(busy.retryable);
}

#[test]
fn a_download_is_checked_against_its_checksum() {
    let abc = "ba7816bf8f01cfea414140de5dae2223b00361a396177a9cb410ff61f20015ad";
    let mut a = DownloadAttempt::begin(200, "OK".into(), Some(3)).unwrap();
    a.on_chunk(b"a");
    a.on_chunk(b"bc");
    assert_eq!(a.written, 3);
    assert!(a.verify(&abc.to_uppercase()).is_ok());

    let mut b = DownloadAttempt::begin(200, "OK".into(), None).unwrap();
    b.on_chunk(b"abd");
    let e = b.verify(abc).err().unwrap();
    assert!(!e.retryable);
    assert!(e.message.starts_with("Checksum mismatch \u{2014} expected ba7816bf"));
}

#[test]
fn checksums_are_written_in_small_hex() {
    let c = Checksum::new();
    assert_eq!(
        c.finish(),
        "e3b0c44298fc1c149afbf4c8996fb92427ae41e4649b934ca495991b7852b855"
    );
    assert!(same_checksum("aB", "Ab"));
    assert!(!same_checksum("ab", "abc"));
}

#[test]
fn failures_say_what_went_wrong() {
    let text = |f| DownloadError::of(f).message;
    let why = || "x".to_string();
    assert_eq!(text(AttemptFailure::ClientInit { error: why() }), "HTTP client init failed: x");
    assert_eq!(text(AttemptFailure::Network { error: why() }), "Network error: x");
    assert_eq!(text(AttemptFailure::Cancelled), "Cancelled by user");
    assert!(!DownloadError::of(AttemptFailure::Cancelled).retryable);
    assert!(DownloadError::of(AttemptFailure::Read { error: why() }).retryable);
    assert!(!DownloadError::of(AttemptFailure::Write { error: why() }).retryable);
    assert!(!DownloadError::of(AttemptFailure::Flush { error: why() }).retryable);
    assert!(!DownloadError::of(AttemptFailure::Finalize { error: why() }).retryable);
    assert!(!DownloadError::of(AttemptFailure::CreateFile { path: why(), error: why() }).retryable);
}

#[test]
fn retry_aborts_during_backoff_on_cancel() {
    let mut retry = Retry::new();
    let mut attempts = 0;
    let mut elapsed: u64 = 0;
    let result = loop {
        attempts += 1;
        match retry.next(Err(DownloadError::transient("network".into())), 3, 200) {
            RetryStep::Finish(r) => break r,
            RetryStep::Wait(ms) => {
                let deadline = elapsed + ms;
                let mut aborted = None;
                while elapsed < deadline && aborted.is_none() {
                    aborted = retry.during_pause(elapsed >= 30);
                    if aborted.is_none() {
                        elapsed += 50;
                    }
                }
                if let Some(e) = aborted {
                    break Err(e);
                }
            }
        }
    };
    let e = result.unwrap_err();
    assert_eq!((e.message.as_str(), e.retryable), ("Cancelled by user", false));
    assert_eq!(attempts, 1);
    assert!(elapsed < 200, "cancel during backoff must abort promptly, took {elapsed} ms");
}
