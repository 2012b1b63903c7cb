use wifi_ctrl::error::Error;
use wifi_ctrl::startup::{connect_step, ConnectAttempt, ConnectStep, StartupQueue, StartupStep};
use wifi_ctrl::wire::expect_ok;

#[test]
fn permission_denied_fails_at_once() {
    let path = "/var/run/wpa_supplicant/wlan0".to_string();
    assert_eq!(
        connect_step(0, ConnectAttempt::PermissionDenied, &path),
        ConnectStep::GiveUp(Error::PermissionDeniedOpeningSocket(path.clone()))
    );
}

#[test]
fn connect_retries_until_deadline() {
    let path = "/run/hostapd/wlan1".to_string();
    assert_eq!(connect_step(0, ConnectAttempt::Connected, &path), ConnectStep::Done);
    assert_eq!(connect_step(0, ConnectAttempt::Failed, &path), ConnectStep::Retry);
    assert_eq!(connect_step(299, ConnectAttempt::Failed, &path), ConnectStep::Retry);
    assert_eq!(
        connect_step(300, ConnectAttempt::Failed, &path),
        ConnectStep::GiveUp(Error::TimeoutOpeningSocket(path.clone()))
    );
}

#[test]
fn shutdown_during_startup_aborts_every_queued_request() {
    let mut q: StartupQueue<&str> = StartupQueue::new();
    assert!(matches!(q.on_request("status", false), StartupStep::Wait));
    assert!(matches!(q.on_request("scan", false), StartupStep::Wait));
    match q.on_request("shutdown", true) {
        StartupStep::Abort(v) => assert_eq!(v, vec!["status", "scan"]),
        StartupStep::Wait => panic!("shutdown must abort"),
    }
    assert_eq!(q.into_deferred(), Vec::<&str>::new());
}

#[test]
fn startup_keeps_requests_for_replay() {
    let mut q: StartupQueue<u8> = StartupQueue::new();
    for r in [1u8, 2, 3] {
        assert!(matches!(q.on_request(r, false), StartupStep::Wait));
    }
    assert_eq!(q.into_deferred(), vec![1, 2, 3]);
}

#[test]
fn ok_acknowledgement() {
    assert_eq!(expect_ok(b"OK\n"), Ok(()));
    assert_eq!(expect_ok(b"  OK  "), Ok(()));
    assert_eq!(expect_ok(b"FAIL\n"), Err(Error::UnexpectedResponse("FAIL".to_string())));
    assert_eq!(expect_ok(b"OKAY"), Err(Error::UnexpectedResponse("OKAY".to_string())));
    assert_eq!(expect_ok(b""), Err(Error::UnexpectedResponse(String::new())));
    assert_eq!(expect_ok(&[0xff]), Err(Error::Utf8Parse));
}
