use offload_core::driver::{
    classify_direct_status, classify_manifest_status, classify_refresh_status,
    classify_relay_status, CacheDecision, Driver, DriverPhase, FetchError, FetchPhase, FetchStep,
    PartDecision, PartFetch, ProgressEvent, RoutePolicy,
};
use offload_core::manifest::PartMeta;
use offload_core::registry::TaskStatus;

fn part(index: u64, size: u64) -> PartMeta {
    PartMeta { index, size, hash: vec![], url: format!("https://origin/p{index}").into_bytes() }
}

#[test]
fn status_classification() {
    assert_eq!(classify_direct_status(404), Err(FetchError::Expired));
    assert_eq!(classify_direct_status(200), Ok(()));
    assert_eq!(classify_direct_status(204), Ok(()));
    assert_eq!(classify_direct_status(500), Err(FetchError::Status(500)));
    assert_eq!(classify_relay_status(502), Err(FetchError::RelayStatus(502)));
    assert_eq!(classify_relay_status(200), Ok(()));
    assert_eq!(classify_refresh_status(503), Err(FetchError::RefreshStatus(503)));
    assert_eq!(classify_refresh_status(201), Ok(()));
}

#[test]
fn error_messages() {
    assert_eq!(FetchError::Expired.message(), b"expired".to_vec());
    assert_eq!(FetchError::Status(500).message(), b"status_500".to_vec());
    assert_eq!(FetchError::RelayStatus(502).message(), b"relay_status_502".to_vec());
    assert_eq!(FetchError::RefreshStatus(403).message(), b"refresh_status_403".to_vec());
    assert_eq!(FetchError::Cancelled.message(), b"cancelled".to_vec());
    assert_eq!(FetchError::Network(b"refused".to_vec()).message(), b"refused".to_vec());
}

#[test]
fn direct_to_relay_fallback_then_refresh_recovery() {
    // Part 0: direct returns 500, relay succeeds — and any success returns
    // the policy to preferring direct. Part 1, entered right away: direct
    // returns 404, refresh hands a new URL, the retried direct succeeds.
    let parts = vec![part(0, 7), part(1, 13)];
    let mut d = Driver::new(parts, Some(20), 0);

    assert_eq!(d.begin_part(false), PartDecision::CheckCache { index: 0 });
    let mut f = match d.on_cache(false, 0) {
        CacheDecision::Fetch(f) => f,
        CacheDecision::Skip => panic!("expected a fetch"),
    };
    assert_eq!(f.phase, FetchPhase::Direct);
    f.step(FetchStep::Direct(Err(FetchError::Status(500))), &mut d.policy, 0);
    assert_eq!(f.phase, FetchPhase::Relay);
    assert!(!d.policy.prefer_direct);
    assert_eq!(d.policy.next_direct_check_ms, 300_000);
    f.step(FetchStep::Relay(Ok(())), &mut d.policy, 0);
    assert_eq!(f.phase, FetchPhase::Succeeded { via_direct: false });
    // the relay success restores the direct preference and clears the back-off
    assert!(d.policy.prefer_direct);
    assert_eq!(d.policy.next_direct_check_ms, 0);
    d.on_fetched(true);
    assert!(d.on_verified(true, 100).is_none());

    // Part 1, immediately after: the direct path is tried again.
    let now = 600;
    assert_eq!(d.begin_part(false), PartDecision::CheckCache { index: 1 });
    let mut f = match d.on_cache(false, now) {
        CacheDecision::Fetch(f) => f,
        CacheDecision::Skip => panic!("expected a fetch"),
    };
    assert_eq!(f.phase, FetchPhase::Direct);
    f.step(FetchStep::Direct(Err(FetchError::Expired)), &mut d.policy, now);
    assert_eq!(f.phase, FetchPhase::Refresh);
    f.step(FetchStep::Refresh(Ok(b"https://origin/fresh".to_vec())), &mut d.policy, now);
    assert_eq!(f.phase, FetchPhase::RetryDirect);
    assert_eq!(f.url, b"https://origin/fresh".to_vec());
    f.step(FetchStep::Direct(Ok(())), &mut d.policy, now);
    assert_eq!(f.phase, FetchPhase::Succeeded { via_direct: true });
    assert!(d.policy.prefer_direct);
    d.on_fetched(true);
    let ev = d.on_verified(true, now).expect("over 500 ms since the last emission");
    assert_eq!(ev.downloaded, 20);
    assert_eq!(ev.status, TaskStatus::Downloading);

    assert_eq!(d.begin_part(false), PartDecision::Decrypt);
    d.on_decrypted(true);
    let last = d.terminal_progress();
    assert_eq!(last.status, TaskStatus::Completed);
    assert_eq!(last.downloaded, 20);
}

#[test]
fn relay_skipped_direct_within_backoff() {
    let mut p = RoutePolicy::new();
    assert!(p.should_try_direct(0));
    p.record_direct_failure(1_000);
    assert!(!p.should_try_direct(1_001));
    assert!(!p.should_try_direct(300_999));
    assert!(p.should_try_direct(301_000));
    p.record_success();
    assert!(p.should_try_direct(0));
    assert_eq!(p.next_direct_check_ms, 0);
}

#[test]
fn cancelled_transfer_books_no_backoff() {
    // A cancellation mid-transfer ends the attempt at once: no relay try,
    // no back-off against the origin.
    let mut p = RoutePolicy::new();
    let mut f = PartFetch::new(0, b"u".to_vec(), true);
    f.step(FetchStep::Direct(Err(FetchError::Cancelled)), &mut p, 5);
    assert_eq!(f.phase, FetchPhase::Failed);
    assert_eq!(f.failure, Some(FetchError::Cancelled));
    assert!(p.prefer_direct);
    assert_eq!(p.next_direct_check_ms, 0);
}

#[test]
fn manifest_status_classification() {
    assert_eq!(classify_manifest_status(200), Ok(()));
    assert_eq!(classify_manifest_status(204), Ok(()));
    assert_eq!(classify_manifest_status(500), Err(b"server_error:500".to_vec()));
    assert_eq!(classify_manifest_status(404), Err(b"server_error:404".to_vec()));
}

#[test]
fn expired_on_retry_goes_to_relay() {
    // A second 404 after the refresh does not loop: it falls to the relay.
    let mut p = RoutePolicy::new();
    let mut f = PartFetch::new(0, b"u".to_vec(), true);
    f.step(FetchStep::Direct(Err(FetchError::Expired)), &mut p, 0);
    f.step(FetchStep::Refresh(Ok(b"u2".to_vec())), &mut p, 0);
    f.step(FetchStep::Direct(Err(FetchError::Expired)), &mut p, 0);
    assert_eq!(f.phase, FetchPhase::Relay);
    f.step(FetchStep::Relay(Err(FetchError::RelayStatus(500))), &mut p, 0);
    assert_eq!(f.phase, FetchPhase::Failed);
    assert_eq!(f.failure, Some(FetchError::RelayStatus(500)));
}

#[test]
fn failed_refresh_goes_to_relay() {
    let mut p = RoutePolicy::new();
    let mut f = PartFetch::new(3, b"u".to_vec(), true);
    f.step(FetchStep::Direct(Err(FetchError::Expired)), &mut p, 7);
    f.step(FetchStep::Refresh(Err(FetchError::RefreshStatus(500))), &mut p, 7);
    assert_eq!(f.phase, FetchPhase::Relay);
    assert!(!p.prefer_direct);
    assert_eq!(p.next_direct_check_ms, 7 + 300_000);
}

#[test]
fn resume_skips_valid_cached_parts() {
    // Part 0 is cached and valid: it is accounted without any fetch; only
    // part 1 is fetched.
    let parts = vec![part(0, 7), part(1, 13)];
    let mut d = Driver::new(parts, Some(20), 0);
    assert_eq!(d.begin_part(false), PartDecision::CheckCache { index: 0 });
    match d.on_cache(true, 0) {
        CacheDecision::Skip => {}
        CacheDecision::Fetch(_) => panic!("a valid cached part must not be re-fetched"),
    }
    assert_eq!(d.downloaded, 7);
    assert_eq!(d.begin_part(false), PartDecision::CheckCache { index: 1 });
    match d.on_cache(false, 0) {
        CacheDecision::Fetch(_) => {}
        CacheDecision::Skip => panic!("an absent part must be fetched"),
    }
    d.on_fetched(true);
    d.on_verified(true, 0);
    assert_eq!(d.downloaded, 20);
    assert_eq!(d.begin_part(false), PartDecision::Decrypt);
}

#[test]
fn cancellation_pauses_at_part_boundary() {
    let parts = vec![part(0, 5)];
    let mut d = Driver::new(parts, None, 0);
    assert_eq!(d.begin_part(true), PartDecision::Pause);
    assert_eq!(d.phase, DriverPhase::Finished);
    let ev = d.terminal_progress();
    assert_eq!(ev.status, TaskStatus::Paused);
    assert_eq!(ev.downloaded, 0);
}

#[test]
fn cancellation_pauses_mid_transfer() {
    let parts = vec![part(0, 5)];
    let mut d = Driver::new(parts, None, 0);
    d.begin_part(false);
    let _f = match d.on_cache(false, 0) {
        CacheDecision::Fetch(f) => f,
        CacheDecision::Skip => panic!("expected a fetch"),
    };
    d.on_cancelled();
    assert_eq!(d.terminal_progress().status, TaskStatus::Paused);
}

#[test]
fn hash_mismatch_fails_without_retry() {
    let parts = vec![part(0, 5)];
    let mut d = Driver::new(parts, None, 0);
    d.begin_part(false);
    match d.on_cache(false, 0) {
        CacheDecision::Fetch(_) => {}
        CacheDecision::Skip => panic!("expected a fetch"),
    }
    d.on_fetched(true);
    assert!(d.on_verified(false, 0).is_none());
    assert_eq!(d.terminal_progress().status, TaskStatus::Error);
}

#[test]
fn progress_is_monotone_and_throttled() {
    let parts = vec![part(0, 10), part(1, 10), part(2, 10)];
    let mut d = Driver::new(parts, Some(30), 0);
    let mut events: Vec<ProgressEvent> = vec![d.initial_progress()];
    let times = [100u64, 600, 700];
    for now in times {
        d.begin_part(false);
        match d.on_cache(false, now) {
            CacheDecision::Fetch(_) => {}
            CacheDecision::Skip => panic!("expected a fetch"),
        }
        d.on_fetched(true);
        if let Some(ev) = d.on_verified(true, now) {
            events.push(ev);
        }
    }
    // only the emission at 600 ms clears the 500 ms gate; 100 and 700 do not
    assert_eq!(events.len(), 2);
    assert_eq!(events[1].downloaded, 20);
    // speed: 20 bytes in 600 ms
    assert_eq!(events[1].speed, 20 * 1000 / 600);
    for w in events.windows(2) {
        assert!(w[0].downloaded <= w[1].downloaded);
    }
    assert!(d.downloaded <= 30);
}
