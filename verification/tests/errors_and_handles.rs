//! Tests of the error kinds, the single-selector invariant on handles,
//! and the remaining handle operations.

use mio_uds_windows::machine::{Completion, CompletionKind};
use mio_uds_windows::net;
use mio_uds_windows::poll::IdSource;
use mio_uds_windows::ready::{Error, Event, PollOpt, Ready, Token};
use mio_uds_windows::selector::Selector;
use mio_uds_windows::{UnixListener, UnixStream};

#[test]
fn overlong_path_is_invalid() {
    let long = vec![b'x'; 200];
    assert!(matches!(
        net::SocketAddr::from_path(&long),
        Err(Error::InvalidPath)
    ));
    assert!(matches!(UnixListener::bind(1, &long), Err(Error::InvalidPath)));
    let sock = net::UnixStream::new(2);
    assert!(matches!(UnixStream::connect(sock, &long), Err(Error::InvalidPath)));
}

#[test]
fn path_at_the_limit_is_accepted() {
    let edge = vec![b'y'; 108];
    let addr = net::SocketAddr::from_path(&edge).unwrap();
    assert_eq!(addr.as_pathname().map(|p| p.clone()), Some(edge));
}

#[test]
fn registering_with_a_second_selector_fails() {
    let mut ids = IdSource::new();
    let mut sel_a = Selector::new(&mut ids, 4);
    let mut sel_b = Selector::new(&mut ids, 4);
    assert_ne!(sel_a.id(), sel_b.id());

    let sock = net::UnixStream::connected(5, net::SocketAddr::unnamed(), net::SocketAddr::unnamed());
    let mut s = UnixStream::from_stream(sock).unwrap();
    s.register(&mut sel_a, Token(1), Ready::readable(), PollOpt::level())
        .unwrap();

    // a second, different selector is refused
    assert_eq!(
        s.register(&mut sel_b, Token(1), Ready::readable(), PollOpt::level()),
        Err(Error::AlreadyAssociated)
    );

    // registering again with the first selector is a no-op success
    assert!(s
        .register(&mut sel_a, Token(1), Ready::readable(), PollOpt::level())
        .is_ok());

    // after deregistering, the handle may bind to the other selector
    s.deregister(&mut sel_a).unwrap();
    assert!(s
        .register(&mut sel_b, Token(2), Ready::readable(), PollOpt::level())
        .is_ok());
}

#[test]
fn clones_inherit_the_identity_snapshot() {
    let mut ids = IdSource::new();
    let mut sel_a = Selector::new(&mut ids, 4);
    let mut sel_b = Selector::new(&mut ids, 4);

    let sock = net::UnixStream::connected(5, net::SocketAddr::unnamed(), net::SocketAddr::unnamed());
    let mut s = UnixStream::from_stream(sock).unwrap();
    s.register(&mut sel_a, Token(1), Ready::readable(), PollOpt::level())
        .unwrap();

    // the clone carries the identity snapshot: the other selector refuses it
    let mut c = s.try_clone().unwrap();
    assert_eq!(
        c.register(&mut sel_b, Token(3), Ready::readable(), PollOpt::level()),
        Err(Error::AlreadyAssociated)
    );
    // but the same selector accepts it, as a registration of its own
    assert!(c
        .register(&mut sel_a, Token(3), Ready::readable(), PollOpt::level())
        .is_ok());
}

#[test]
fn listener_clone_and_errors() {
    let mut ids = IdSource::new();
    let mut sel_a = Selector::new(&mut ids, 4);
    let mut sel_b = Selector::new(&mut ids, 4);
    let path = b"/tmp/c.sock".to_vec();
    let mut l = UnixListener::bind(3, &path).unwrap();
    l.register(&mut sel_a, Token(0), Ready::readable(), PollOpt::level())
        .unwrap();
    let mut m = l.try_clone().unwrap();
    assert_eq!(
        m.register(&mut sel_b, Token(0), Ready::readable(), PollOpt::level()),
        Err(Error::AlreadyAssociated)
    );

    // accepting with nothing pending signals a retry, not a failure
    assert_eq!(
        l.accept(&mut sel_a).err().map(|e| e == Error::WouldBlock),
        Some(true)
    );
}

#[test]
fn failed_connect_surfaces_the_os_code() {
    let mut ids = IdSource::new();
    let mut sel = Selector::new(&mut ids, 4);
    let path = b"/tmp/nobody.sock".to_vec();
    let sock = net::UnixStream::new(6);
    let mut c = UnixStream::connect(sock, &path).unwrap();
    c.register(&mut sel, Token(3), Ready::writable(), PollOpt::level())
        .unwrap();

    // the kernel reports the connect failure (connection refused)
    let mut events: Vec<Event> = Vec::new();
    let n = sel.poll(
        vec![Completion { key: 0, op_id: 0, kind: CompletionKind::Connect { error: Some(111) } }],
        &mut events,
    );
    assert_eq!(n, 1);
    assert!(events[0].readiness.is_error());

    // transfers now report the stored code
    let mut buf: Vec<u8> = Vec::new();
    assert_eq!(c.read(&mut sel, &mut buf, 4), Err(Error::Os(111)));
    assert_eq!(c.write(&mut sel, &b"x".to_vec()), Err(Error::Os(111)));
}

#[test]
fn would_block_while_probe_in_flight() {
    let mut ids = IdSource::new();
    let mut sel = Selector::new(&mut ids, 4);
    let sock = net::UnixStream::connected(7, net::SocketAddr::unnamed(), net::SocketAddr::unnamed());
    let mut s = UnixStream::from_stream(sock).unwrap();
    s.register(&mut sel, Token(4), Ready::readable(), PollOpt::level())
        .unwrap();
    let mut buf: Vec<u8> = Vec::new();
    assert_eq!(s.read(&mut sel, &mut buf, 4), Err(Error::WouldBlock));
}

#[test]
fn take_error_returns_and_clears_the_stored_code() {
    let mut sock = net::UnixStream::new(6);
    sock.set_error(54);
    let mut s = UnixStream::from_stream(sock).unwrap();
    assert_eq!(s.take_error(), Ok(Some(Error::Os(54))));
    assert_eq!(s.take_error(), Ok(None));

    let path = b"/tmp/e.sock".to_vec();
    let mut l0 = net::UnixListener::bind(3, &path).unwrap();
    l0.set_error(98);
    let mut l = UnixListener::from_std(l0).unwrap();
    assert_eq!(l.take_error(), Ok(Some(Error::Os(98))));
    assert_eq!(l.take_error(), Ok(None));
}

#[test]
fn addresses_of_streams_and_listeners() {
    let path = b"/tmp/addr.sock".to_vec();
    let local = net::SocketAddr::from_path(&path).unwrap();
    let peer_path = b"/tmp/peer.sock".to_vec();
    let peer = net::SocketAddr::from_path(&peer_path).unwrap();
    let sock = net::UnixStream::connected(11, local, peer);
    let s = UnixStream::from_stream(sock).unwrap();
    assert_eq!(
        s.local_addr().unwrap().as_pathname().map(|p| p.clone()),
        Some(path)
    );
    // the peer is known from the underlying socket, with no selector asked
    let mut ids = IdSource::new();
    let sel = Selector::new(&mut ids, 1);
    assert_eq!(
        s.peer_addr(&sel).unwrap().as_pathname().map(|p| p.clone()),
        Some(peer_path)
    );

    // an unconnected, unregistered stream has no peer
    let bare = UnixStream::from_stream(net::UnixStream::new(12)).unwrap();
    assert_eq!(bare.peer_addr(&sel), Err(Error::NotConnected));
    assert!(bare.flush().is_ok());
}
