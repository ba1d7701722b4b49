//! Tests of the readiness set, the registration option, and the smaller
//! listener and stream paths.

use mio_uds_windows::machine::{Completion, CompletionKind};
use mio_uds_windows::net;
use mio_uds_windows::poll::IdSource;
use mio_uds_windows::ready::{Event, PollOpt, Ready, Token};
use mio_uds_windows::selector::Selector;
use mio_uds_windows::{UnixListener, UnixStream};

#[test]
fn ready_sets_combine_and_query() {
    let none = Ready::empty();
    assert!(none.is_empty());
    assert!(!none.is_readable());

    let r = Ready::readable();
    let w = Ready::writable();
    let both = r.union(w);
    assert!(both.is_readable() && both.is_writable());
    assert!(!both.is_error());
    assert!(both.contains(r));
    assert!(both.contains(w));
    assert!(!r.contains(both));
    assert!(r.contains(Ready::empty()));

    let e = Ready::error();
    assert!(e.is_error());
    let h = Ready::hup();
    assert!(!h.is_empty());
    assert_eq!(r.union(r), r);
}

#[test]
fn poll_opt_distinguishes_edge_and_level() {
    assert!(PollOpt::edge().is_edge());
    assert!(!PollOpt::level().is_edge());
    assert_ne!(PollOpt::edge(), PollOpt::level());
}

#[test]
fn accept_std_hands_out_the_bare_socket_and_peer() {
    let mut ids = IdSource::new();
    let mut sel = Selector::new(&mut ids, 4);
    let path = b"/tmp/std.sock".to_vec();
    let mut l = UnixListener::bind(3, &path).unwrap();
    l.register(&mut sel, Token(0), Ready::readable(), PollOpt::level())
        .unwrap();

    let peer_path = b"/tmp/client.sock".to_vec();
    let peer = net::SocketAddr::from_path(&peer_path).unwrap();
    let conn = net::UnixStream::connected(7, net::SocketAddr::unnamed(), peer);
    let mut events: Vec<Event> = Vec::new();
    sel.poll(
        vec![Completion { key: 0, op_id: 0, kind: CompletionKind::Accept { stream: conn } }],
        &mut events,
    );

    let (mut sock, addr) = l.accept_std(&mut sel).unwrap();
    assert_eq!(addr.as_pathname().map(|p| p.clone()), Some(peer_path));
    // the bare socket is handed out as the kernel produced it
    assert_eq!(sock.take_error(), Ok(None));
}

#[test]
fn edge_listener_rearms_through_reregister() {
    let mut ids = IdSource::new();
    let mut sel = Selector::new(&mut ids, 4);
    let path = b"/tmp/edge.sock".to_vec();
    let mut l = UnixListener::bind(3, &path).unwrap();
    l.register(&mut sel, Token(4), Ready::readable(), PollOpt::edge())
        .unwrap();

    // the first accept (op 0) produces one event; edge-triggered interest
    // does not re-arm
    let conn = net::UnixStream::connected(8, net::SocketAddr::unnamed(), net::SocketAddr::unnamed());
    let mut events: Vec<Event> = Vec::new();
    let n = sel.poll(
        vec![Completion { key: 0, op_id: 0, kind: CompletionKind::Accept { stream: conn } }],
        &mut events,
    );
    assert_eq!(n, 1);
    assert!(l.accept(&mut sel).is_ok());

    // with no probe in flight, another packet stays silent
    let conn2 =
        net::UnixStream::connected(9, net::SocketAddr::unnamed(), net::SocketAddr::unnamed());
    let n2 = sel.poll(
        vec![Completion { key: 0, op_id: 1, kind: CompletionKind::Accept { stream: conn2 } }],
        &mut events,
    );
    assert_eq!(n2, 0);

    // re-registering issues the fresh probe (op 3)
    l.reregister(&mut sel, Token(4), Ready::readable(), PollOpt::edge())
        .unwrap();
    let conn3 =
        net::UnixStream::connected(10, net::SocketAddr::unnamed(), net::SocketAddr::unnamed());
    let n3 = sel.poll(
        vec![Completion { key: 0, op_id: 3, kind: CompletionKind::Accept { stream: conn3 } }],
        &mut events,
    );
    assert_eq!(n3, 1);
    assert!(l.accept(&mut sel).is_ok());
}

#[test]
fn write_is_accepted_without_a_prior_write_probe() {
    let mut ids = IdSource::new();
    let mut sel = Selector::new(&mut ids, 4);
    let sock = net::UnixStream::connected(5, net::SocketAddr::unnamed(), net::SocketAddr::unnamed());
    let mut s = UnixStream::from_stream(sock).unwrap();
    // only reads are observed, so no write probe is issued; a write still
    // starts its own operation at once
    s.register(&mut sel, Token(1), Ready::readable(), PollOpt::level())
        .unwrap();
    assert_eq!(s.write(&mut sel, &b"abc".to_vec()).unwrap(), 3);
    // and a second write before that operation completes would block
    assert!(s.write(&mut sel, &b"d".to_vec()).is_err());
}

#[test]
fn dropping_interest_discards_the_in_flight_probe_silently() {
    let mut ids = IdSource::new();
    let mut sel = Selector::new(&mut ids, 4);
    let sock = net::UnixStream::connected(5, net::SocketAddr::unnamed(), net::SocketAddr::unnamed());
    let mut s = UnixStream::from_stream(sock).unwrap();
    s.register(&mut sel, Token(1), Ready::readable(), PollOpt::level())
        .unwrap();

    // the read probe (op 0) stays in flight when reads stop being observed
    s.reregister(&mut sel, Token(1), Ready::empty(), PollOpt::level())
        .unwrap();

    // its completion is discarded: no event, no re-arm, no stored data
    let mut events: Vec<Event> = Vec::new();
    let n = sel.poll(
        vec![Completion { key: 0, op_id: 0, kind: CompletionKind::Read { data: b"gone".to_vec() } }],
        &mut events,
    );
    assert_eq!(n, 0);
    let mut buf: Vec<u8> = Vec::new();
    assert!(s.read(&mut sel, &mut buf, 8).is_err());
    assert_eq!(buf, Vec::<u8>::new());
}
