//! Connection lifecycle: bind, connect, accept, byte transport, close and
//! fault-injected disconnects.

use simulation::net::{Addr, IoErrorKind, ReadOutcome};
use simulation::rt::{DeterministicRuntime, SchedStep};
use simulation::sched::TaskState;

fn addr(port: u16) -> Addr {
    Addr { ip: 0x7F00_0001, port }
}

/// Binding an address twice fails with "already in use"; connecting to an
/// unbound address fails with "refused".
#[test]
fn bind_and_connect_errors() {
    let mut rt = DeterministicRuntime::new();
    let a = addr(8080);
    let lid = rt.bind(a).unwrap();
    assert_eq!(rt.bind(a), Err(IoErrorKind::AddrInUse));
    assert_eq!(rt.connect(addr(9999)), Err(IoErrorKind::ConnectionRefused));

    // A different address is free.
    let other = rt.bind(addr(8081)).unwrap();
    assert_ne!(lid, other);

    // After the listener closes, connects are refused again.
    rt.close_listener(lid);
    assert_eq!(rt.connect(a), Err(IoErrorKind::ConnectionRefused));
    // ... and the address can be bound anew.
    assert!(rt.bind(a).is_ok());
}

/// Bytes written on one endpoint are observed on the other in write order.
#[test]
fn bytes_flow_in_write_order() {
    let mut rt = DeterministicRuntime::new();
    let t = rt.spawn();
    let lid = rt.bind(addr(8080)).unwrap();
    let client = rt.connect(addr(8080)).unwrap();
    let (server, peer) = rt.accept(lid, t).unwrap();
    assert_eq!(peer, rt.net.endpoint_local_addr(client));

    assert_eq!(rt.write(client, b"Hello"), Ok(5));
    assert_eq!(rt.write(client, b" World!"), Ok(7));
    match rt.read(server, t) {
        ReadOutcome::Data(d) => assert_eq!(d, b"Hello World!".to_vec()),
        other => panic!("expected data, got {:?}", other),
    }

    // The reverse direction works the same way.
    assert_eq!(rt.write(server, b"ack"), Ok(3));
    match rt.read(client, t) {
        ReadOutcome::Data(d) => assert_eq!(d, b"ack".to_vec()),
        other => panic!("expected data, got {:?}", other),
    }
}

/// Closing either endpoint: the survivor's read observes end of stream and
/// its write fails.
#[test]
fn close_is_observed_by_the_peer() {
    let mut rt = DeterministicRuntime::new();
    let t = rt.spawn();
    let lid = rt.bind(addr(8080)).unwrap();
    let client = rt.connect(addr(8080)).unwrap();
    let (server, _) = rt.accept(lid, t).unwrap();

    rt.close(client);
    assert!(matches!(rt.read(server, t), ReadOutcome::Closed));
    assert_eq!(rt.write(server, b"x"), Err(IoErrorKind::BrokenPipe));
    // The closer's own operations fail the same way, never a crash.
    assert_eq!(rt.write(client, b"x"), Err(IoErrorKind::BrokenPipe));
}

/// A fault-injected disconnect: both sides observe a reset.
#[test]
fn disconnect_resets_both_sides() {
    let mut rt = DeterministicRuntime::new();
    let t = rt.spawn();
    let lid = rt.bind(addr(8080)).unwrap();
    let client = rt.connect(addr(8080)).unwrap();
    let (server, _) = rt.accept(lid, t).unwrap();

    assert_eq!(rt.write(client, b"in flight"), Ok(9));
    rt.disconnect_conn(client.conn);
    assert!(matches!(rt.read(server, t), ReadOutcome::Reset));
    assert_eq!(rt.write(server, b"x"), Err(IoErrorKind::ConnectionReset));
    assert_eq!(rt.write(client, b"x"), Err(IoErrorKind::ConnectionReset));
}

/// A task blocked in `accept` is woken by an arriving connection; a task
/// blocked in `read` is woken by arriving bytes.
#[test]
fn waiters_are_woken_by_progress() {
    let mut rt = DeterministicRuntime::new();
    let acceptor = rt.spawn();
    let lid = rt.bind(addr(8080)).unwrap();

    // The acceptor runs first, finds nothing pending, and suspends.
    assert_eq!(rt.step(), SchedStep::RunTask(acceptor));
    assert!(rt.accept(lid, acceptor).is_none());
    rt.mark_suspended(acceptor);

    // A connection arrives: the acceptor becomes runnable again.
    let client = rt.connect(addr(8080)).unwrap();
    assert_eq!(rt.sched.state_of(acceptor), TaskState::Runnable);
    assert_eq!(rt.step(), SchedStep::RunTask(acceptor));
    let (server, _) = rt.accept(lid, acceptor).unwrap();

    // The acceptor now blocks reading; a write wakes it.
    assert!(matches!(rt.read(server, acceptor), ReadOutcome::WouldBlock));
    rt.mark_suspended(acceptor);
    assert_eq!(rt.write(client, b"ping"), Ok(4));
    assert_eq!(rt.sched.state_of(acceptor), TaskState::Runnable);
}

/// Listener metadata: the bound address and the time-to-live round-trip.
#[test]
fn listener_metadata() {
    let mut rt = DeterministicRuntime::new();
    let a = addr(4242);
    let lid = rt.bind(a).unwrap();
    assert_eq!(rt.net.listener_addr(lid), a);
    assert_eq!(rt.net.listener_ttl(lid), 64);
    rt.net.set_listener_ttl(lid, 7);
    assert_eq!(rt.net.listener_ttl(lid), 7);
}

/// Endpoint addresses: the connector sees the listener's address as its
/// peer and an ephemeral localhost source port as its own.
#[test]
fn endpoint_addresses() {
    let mut rt = DeterministicRuntime::new();
    let t = rt.spawn();
    let a = addr(8080);
    let lid = rt.bind(a).unwrap();
    let client = rt.connect(a).unwrap();
    let (server, _) = rt.accept(lid, t).unwrap();
    assert_eq!(rt.net.endpoint_peer_addr(client), a);
    assert_eq!(rt.net.endpoint_local_addr(server), a);
    let src = rt.net.endpoint_local_addr(client);
    assert_eq!(src.ip, 0x7F00_0001);
    assert_eq!(src, rt.net.endpoint_peer_addr(server));
}

/// An empty write succeeds, delivers nothing, and changes nothing.
#[test]
fn empty_write_is_a_no_op() {
    let mut rt = DeterministicRuntime::new();
    let t = rt.spawn();
    let lid = rt.bind(addr(8080)).unwrap();
    let client = rt.connect(addr(8080)).unwrap();
    let (server, _) = rt.accept(lid, t).unwrap();
    assert_eq!(rt.write(client, b""), Ok(0));
    assert!(matches!(rt.read(server, t), ReadOutcome::WouldBlock));
}

/// Closing a listener hands back the connections it never accepted; closing
/// their server ends lets the connectors observe end of stream.
#[test]
fn closing_a_listener_orphans_pending_connects() {
    let mut rt = DeterministicRuntime::new();
    let t = rt.spawn();
    let lid = rt.bind(addr(8080)).unwrap();
    let c1 = rt.connect(addr(8080)).unwrap();
    let c2 = rt.connect(addr(8080)).unwrap();
    let orphans = rt.close_listener(lid);
    assert_eq!(orphans, vec![c1.conn, c2.conn]);
    for conn in orphans {
        rt.close(simulation::net::Endpoint { conn, side: simulation::net::Side::Server });
    }
    assert!(matches!(rt.read(c1, t), ReadOutcome::Closed));
    assert!(matches!(rt.read(c2, t), ReadOutcome::Closed));
}
