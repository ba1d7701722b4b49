//! End-to-end scenarios over the selector model: the surrounding program
//! plays the kernel, feeding completion packets for the operations the
//! state machines issued.

use mio_uds_windows::machine::{Completion, CompletionKind};
use mio_uds_windows::net;
use mio_uds_windows::poll::IdSource;
use mio_uds_windows::ready::{Event, PollOpt, Ready, Token};
use mio_uds_windows::selector::Selector;
use mio_uds_windows::{UnixListener, UnixStream};

fn accept_completion(key: usize, op_id: u64, desc: usize) -> Completion {
    let peer = net::SocketAddr::unnamed();
    let local = net::SocketAddr::unnamed();
    let stream = net::UnixStream::connected(desc, local, peer);
    Completion { key, op_id, kind: CompletionKind::Accept { stream } }
}

#[test]
fn scenario_edge_listener_accept_then_read_five_bytes() {
    let mut ids = IdSource::new();
    let mut sel = Selector::new(&mut ids, 8);
    let path = b"/tmp/demo.sock".to_vec();

    let mut listener = UnixListener::bind(3, &path).unwrap();
    assert_eq!(
        listener.local_addr().unwrap().as_pathname().map(|p| p.clone()),
        Some(path.clone())
    );
    listener
        .register(&mut sel, Token(0), Ready::readable(), PollOpt::edge())
        .unwrap();

    // a client connects; the kernel completes the accept probe (op 0)
    let mut events: Vec<Event> = Vec::new();
    let n = sel.poll(vec![accept_completion(0, 0, 4)], &mut events);
    assert_eq!(n, 1);
    assert_eq!(events[0].token, Token(0));
    assert!(events[0].readiness.is_readable());

    let (mut stream, peer) = listener.accept(&mut sel).unwrap();
    assert!(peer.is_unnamed());

    // register the accepted stream; its read probe is op 2
    stream
        .register(&mut sel, Token(1), Ready::readable(), PollOpt::edge())
        .unwrap();

    // the client writes five bytes; the kernel completes the read probe
    let n2 = sel.poll(
        vec![Completion { key: 1, op_id: 2, kind: CompletionKind::Read { data: b"hello".to_vec() } }],
        &mut events,
    );
    assert_eq!(n2, 1);
    assert_eq!(events[1].token, Token(1));
    assert!(events[1].readiness.is_readable());

    // reading yields exactly those five bytes
    let mut buf: Vec<u8> = Vec::new();
    let got = stream.read(&mut sel, &mut buf, 16).unwrap();
    assert_eq!(got, 5);
    assert_eq!(buf, b"hello".to_vec());

    // nothing more was delivered
    let mut buf2: Vec<u8> = Vec::new();
    assert!(stream.read(&mut sel, &mut buf2, 16).is_err());

    // cleanup closes both state machines
    listener.deregister(&mut sel).unwrap();
    stream.deregister(&mut sel).unwrap();
}

#[test]
fn level_listener_delivers_one_event_per_accepted_connection() {
    let mut ids = IdSource::new();
    let mut sel = Selector::new(&mut ids, 8);
    let path = b"/tmp/level.sock".to_vec();
    let mut listener = UnixListener::bind(3, &path).unwrap();
    listener
        .register(&mut sel, Token(5), Ready::readable(), PollOpt::level())
        .unwrap();

    // three back-to-back connections: the probe is re-armed after each
    // completion, so the matching operation identities are 0, then the
    // fresh ones issued while draining
    let mut events: Vec<Event> = Vec::new();
    let n = sel.poll(
        vec![
            accept_completion(0, 0, 10),
            accept_completion(0, 1, 11),
            accept_completion(0, 2, 12),
        ],
        &mut events,
    );
    assert_eq!(n, 3);
    for e in &events {
        assert_eq!(e.token, Token(5));
        assert!(e.readiness.is_readable());
    }

    // each accepted connection is handed out exactly once
    assert!(listener.accept(&mut sel).is_ok());
    assert!(listener.accept(&mut sel).is_ok());
    assert!(listener.accept(&mut sel).is_ok());
    assert!(listener.accept(&mut sel).is_err());
}

#[test]
fn edge_stream_produces_no_second_event_until_reregistered() {
    let mut ids = IdSource::new();
    let mut sel = Selector::new(&mut ids, 8);
    let sock = net::UnixStream::connected(8, net::SocketAddr::unnamed(), net::SocketAddr::unnamed());
    let mut s = UnixStream::from_stream(sock).unwrap();
    s.register(&mut sel, Token(2), Ready::readable(), PollOpt::edge())
        .unwrap();

    // the read probe (op 0) completes: one event
    let mut events: Vec<Event> = Vec::new();
    let n = sel.poll(
        vec![Completion { key: 0, op_id: 0, kind: CompletionKind::Read { data: b"ab".to_vec() } }],
        &mut events,
    );
    assert_eq!(n, 1);

    // a duplicate packet for the same operation matches nothing
    let n2 = sel.poll(
        vec![Completion { key: 0, op_id: 0, kind: CompletionKind::Read { data: b"xy".to_vec() } }],
        &mut events,
    );
    assert_eq!(n2, 0);

    // draining the data leaves the edge-triggered direction idle
    let mut buf: Vec<u8> = Vec::new();
    assert_eq!(s.read(&mut sel, &mut buf, 16).unwrap(), 2);
    assert_eq!(buf, b"ab".to_vec());

    // with no probe in flight, no packet can produce an event
    let n3 = sel.poll(
        vec![Completion { key: 0, op_id: 4, kind: CompletionKind::Read { data: b"zz".to_vec() } }],
        &mut events,
    );
    assert_eq!(n3, 0);

    // re-registering re-arms the probe (op 6); only then a new event comes
    s.reregister(&mut sel, Token(2), Ready::readable(), PollOpt::edge())
        .unwrap();
    let n4 = sel.poll(
        vec![Completion { key: 0, op_id: 6, kind: CompletionKind::Read { data: b"ef".to_vec() } }],
        &mut events,
    );
    assert_eq!(n4, 1);
    assert_eq!(events.len(), 2);
}

#[test]
fn dropping_a_stream_with_a_probe_in_flight_keeps_poll_silent() {
    let mut ids = IdSource::new();
    let mut sel = Selector::new(&mut ids, 8);
    let sock = net::UnixStream::connected(9, net::SocketAddr::unnamed(), net::SocketAddr::unnamed());
    let mut s = UnixStream::from_stream(sock).unwrap();
    s.register(&mut sel, Token(9), Ready::readable(), PollOpt::level())
        .unwrap();

    // the read probe (op 0) is in flight when the stream is dropped
    s.close(&mut sel);

    // the cancelled operation's completion is drained without an event
    let mut events: Vec<Event> = Vec::new();
    let n = sel.poll(
        vec![Completion { key: 0, op_id: 0, kind: CompletionKind::Read { data: b"late".to_vec() } }],
        &mut events,
    );
    assert_eq!(n, 0);
    assert_eq!(events.len(), 0);

    // the slot is reclaimed; further packets for it stay silent too
    let n2 = sel.poll(
        vec![Completion { key: 0, op_id: 0, kind: CompletionKind::Read { data: b"more".to_vec() } }],
        &mut events,
    );
    assert_eq!(n2, 0);
}

#[test]
fn connect_path_completes_into_writable_stream() {
    let mut ids = IdSource::new();
    let mut sel = Selector::new(&mut ids, 8);
    let path = b"/tmp/server.sock".to_vec();
    let sock = net::UnixStream::new(6);
    let mut c = UnixStream::connect(sock, &path).unwrap();
    let both = Ready::readable().union(Ready::writable());
    c.register(&mut sel, Token(3), both, PollOpt::level()).unwrap();

    // before the connect operation (op 0) completes, transfers fail
    let mut buf: Vec<u8> = Vec::new();
    assert!(c.read(&mut sel, &mut buf, 8).is_err());
    assert!(c.peer_addr(&sel).is_err());

    // the kernel completes the connect: one writable event, and the read
    // probe starts
    let mut events: Vec<Event> = Vec::new();
    let n = sel.poll(
        vec![Completion { key: 0, op_id: 0, kind: CompletionKind::Connect { error: None } }],
        &mut events,
    );
    assert_eq!(n, 1);
    assert!(events[0].readiness.is_writable());
    assert_eq!(events[0].token, Token(3));

    // the peer is now the connect target
    let peer = c.peer_addr(&sel).unwrap();
    assert_eq!(peer.as_pathname().map(|p| p.clone()), Some(path.clone()));

    // the stream accepts a write at once
    assert_eq!(c.write(&mut sel, &b"ping".to_vec()).unwrap(), 4);
}

#[test]
fn round_trip_vectored_write_and_read() {
    let mut ids = IdSource::new();
    let mut sel = Selector::new(&mut ids, 8);
    let writer_sock =
        net::UnixStream::connected(8, net::SocketAddr::unnamed(), net::SocketAddr::unnamed());
    let reader_sock =
        net::UnixStream::connected(9, net::SocketAddr::unnamed(), net::SocketAddr::unnamed());
    let mut a = UnixStream::from_stream(writer_sock).unwrap();
    let mut b = UnixStream::from_stream(reader_sock).unwrap();
    a.register(&mut sel, Token(0), Ready::writable(), PollOpt::level())
        .unwrap();
    b.register(&mut sel, Token(1), Ready::readable(), PollOpt::level())
        .unwrap();

    // a's write probe is op 1; once it completes, a is writable
    let mut events: Vec<Event> = Vec::new();
    let n = sel.poll(
        vec![Completion { key: 0, op_id: 1, kind: CompletionKind::Write }],
        &mut events,
    );
    assert_eq!(n, 1);
    assert!(events[0].readiness.is_writable());

    // write a vectored message: the operation carries the gathered bytes
    let parts = vec![b"he".to_vec(), b"llo".to_vec()];
    assert_eq!(a.write_bufs(&mut sel, &parts).unwrap(), 5);

    // a second write before the completion is observed would block
    assert!(a.write(&mut sel, &b"again".to_vec()).is_err());

    // the kernel delivers those bytes to b's read probe (op 2)
    let n2 = sel.poll(
        vec![Completion { key: 1, op_id: 2, kind: CompletionKind::Read { data: b"hello".to_vec() } }],
        &mut events,
    );
    assert_eq!(n2, 1);
    assert_eq!(events[1].token, Token(1));

    // vectored read splits the bytes across the buffer boundaries
    let caps = vec![2usize, 3usize];
    let out = b.read_bufs(&mut sel, &caps).unwrap();
    assert_eq!(out.len(), 2);
    assert_eq!(out[0], b"he".to_vec());
    assert_eq!(out[1], b"llo".to_vec());
}
