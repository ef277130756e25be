//! The session state machine: bounded admission wired to the router.

use roof::router::Method;
use roof::router::RouteKind;
use roof::session::Admission;
use roof::session::Session;
use roof::session::SessionState;
use roof::session::prepare_resource;

fn bytes(s: &str) -> Vec<u8> {
    s.as_bytes().to_vec()
}

#[test]
fn single_get_serves_then_drains() {
    // One budgeted request: the exact GET is served, marked last, and
    // the session moves to draining — the process exit is under way.
    let mut session = Session::new(&bytes("pub/archive.bin"), 1);
    assert_eq!(session.resource_name(), &bytes("archive.bin"));
    assert_eq!(session.state(), SessionState::Listening);
    let outcome = session.on_request(Method::Get, &bytes("/archive.bin"));
    assert_eq!(outcome, Admission::Granted { was_last: true, kind: RouteKind::Serve });
    assert_eq!(session.state(), SessionState::Draining);
    // A straggler arriving past exhaustion is refused outright and the
    // session terminates.
    let straggler = session.on_request(Method::Get, &bytes("/archive.bin"));
    assert_eq!(straggler, Admission::Refused);
    assert_eq!(session.state(), SessionState::Terminated);
}

#[test]
fn n_requests_then_exhaustion_once() {
    let n: u64 = 3;
    let mut session = Session::new(&bytes("f.txt"), n);
    let mut served: u32 = 0;
    let mut last_signals: u32 = 0;
    for _ in 0..n {
        match session.on_request(Method::Get, &bytes("/f.txt")) {
            Admission::Granted { was_last, kind } => {
                assert_eq!(kind, RouteKind::Serve);
                served += 1;
                if was_last {
                    last_signals += 1;
                }
            }
            Admission::Refused => unreachable!(),
        }
    }
    assert_eq!(served, 3);
    assert_eq!(last_signals, 1);
    assert_eq!(session.remaining_requests(), 0);
    assert_eq!(session.state(), SessionState::Draining);
}

#[test]
fn foreign_path_not_found_in_any_state() {
    // A mismatched path is "not found" whatever the method and however
    // far the budget has run down.
    let mut session = Session::new(&bytes("f.txt"), 2);
    let first = session.on_request(Method::Other, &bytes("/f.txt"));
    assert_eq!(first, Admission::Granted { was_last: false, kind: RouteKind::NotFound });
    let second = session.on_request(Method::Get, &bytes("/g.txt"));
    assert_eq!(second, Admission::Granted { was_last: true, kind: RouteKind::NotFound });
    assert_eq!(session.state(), SessionState::Draining);
}

#[test]
fn directory_serves_through_archive() {
    let resolved = prepare_resource(&bytes("data/site stuff"), true);
    assert_eq!(resolved, bytes("data/site stuff.tar.gz"));
    let session = Session::new(&resolved, 1);
    assert_eq!(session.resource_name(), &bytes("site_stuff.tar.gz"));
}

#[test]
fn plain_file_serves_as_is() {
    let resolved = prepare_resource(&bytes("data/file.bin"), false);
    assert_eq!(resolved, bytes("data/file.bin"));
}
