//! The in-memory network: listener registry and simulated byte streams.
//!
//! A listener owns a first-in-first-out queue of pending inbound connections.
//! `bind` fails on an address that is already bound, `connect` fails
//! immediately when no listener is registered at the address, and an
//! established connection is a pair of directional byte buffers: bytes written
//! on one endpoint append to the peer's read buffer and are read back in write
//! order. Either side closing, or a fault-injected disconnect, is observed by
//! the survivor as end-of-stream or a reset error — never as corruption.
//!
//! Tasks that must wait (an `accept` on an empty queue, a `read` on an empty
//! buffer) deposit their task id as a waiter; the operation that unblocks them
//! hands the waiter back to the runtime, which moves the task to the ready
//! queue. No waiter is ever signalled spuriously: a wake is returned only by
//! the operation that made progress possible.

use vstd::prelude::*;

verus! {

/// An endpoint address: an IPv4 host and a port.
#[derive(Clone, Copy, Debug, PartialEq, Eq, Hash, Structural)]
pub struct Addr {
    pub ip: u32,
    pub port: u16,
}

/// The network error conditions an application under test must handle.
#[derive(Clone, Copy, Debug, PartialEq, Eq, Structural)]
pub enum IoErrorKind {
    /// A listener is already bound to the address.
    AddrInUse,
    /// No listener is bound to the address.
    ConnectionRefused,
    /// The connection was disconnected by fault injection.
    ConnectionReset,
    /// The peer (or this side) already closed the connection.
    BrokenPipe,
    /// A timeout elapsed before the inner operation finished.
    TimedOut,
}

/// Which end of a connection an endpoint handle designates.
#[derive(Clone, Copy, Debug, PartialEq, Eq, Structural)]
pub enum Side {
    Client,
    Server,
}

/// A handle to one end of an established connection.
#[derive(Clone, Copy, Debug, PartialEq, Eq, Structural)]
pub struct Endpoint {
    pub conn: usize,
    pub side: Side,
}

/// One bound listener: its address, its queue of pending inbound connections
/// (connection indices, in arrival order), and the task, if any, suspended in
/// `accept` waiting for the queue to fill.
pub struct Listener {
    pub addr: Addr,
    pub active: bool,
    pub ttl: u32,
    pub pending: Vec<usize>,
    pub accept_waiter: Option<usize>,
}

/// One established connection: a pair of directional byte buffers plus
/// per-connection fault state. `to_server` holds bytes the client wrote and
/// the server has not read yet; `to_client` the reverse.
pub struct Conn {
    pub client_addr: Addr,
    pub server_addr: Addr,
    pub to_server: Vec<u8>,
    pub to_client: Vec<u8>,
    pub client_closed: bool,
    pub server_closed: bool,
    /// Set by the fault injector; afterwards every operation fails with
    /// `ConnectionReset`.
    pub reset: bool,
    pub client_read_waiter: Option<usize>,
    pub server_read_waiter: Option<usize>,
}

impl Conn {
    /// The buffer a read on `side` consumes.
    pub open spec fn inbuf(self, side: Side) -> Seq<u8> {
        if side is Client {
            self.to_client@
        } else {
            self.to_server@
        }
    }

    /// The buffer a write on `side` appends to (the peer's read buffer).
    pub open spec fn outbuf(self, side: Side) -> Seq<u8> {
        if side is Client {
            self.to_server@
        } else {
            self.to_client@
        }
    }

    pub open spec fn closed(self, side: Side) -> bool {
        if side is Client {
            self.client_closed
        } else {
            self.server_closed
        }
    }

    pub open spec fn read_waiter(self, side: Side) -> Option<usize> {
        if side is Client {
            self.client_read_waiter
        } else {
            self.server_read_waiter
        }
    }

    pub open spec fn peer(side: Side) -> Side {
        if side is Client {
            Side::Server
        } else {
            Side::Client
        }
    }
}

/// What one read returned.
#[derive(Debug, PartialEq, Eq)]
pub enum ReadOutcome {
    /// The bytes that were available, in the order the peer wrote them.
    Data(Vec<u8>),
    /// End of stream: no buffered bytes and the connection is closed.
    Closed,
    /// The connection was disconnected by fault injection.
    Reset,
    /// Nothing to read yet; the task was recorded as the side's read waiter
    /// and must suspend.
    WouldBlock,
}

/// The result of a connection attempt, together with the accept waiter to
/// wake when the attempt reached a listener.
pub struct ConnectOutcome {
    pub result: Result<Endpoint, IoErrorKind>,
    pub wake: Option<usize>,
}

/// The result of a write, together with the peer's read waiter to wake when
/// bytes were delivered.
pub struct WriteOutcome {
    pub result: Result<usize, IoErrorKind>,
    pub wake: Option<usize>,
}

/// The connection registry and the set of live simulated streams.
pub struct NetSim {
    pub listeners: Vec<Listener>,
    pub conns: Vec<Conn>,
}

impl NetSim {
    /// Some active listener is bound to `a`.
    pub open spec fn addr_bound(self, a: Addr) -> bool {
        exists|i: int|
            0 <= i < self.listeners@.len() && (#[trigger] self.listeners@[i]).active
                && self.listeners@[i].addr == a
    }

    /// At most one active listener per address, and every pending connection
    /// index is live.
    pub open spec fn wf(self) -> bool {
        &&& forall|i: int, j: int|
            0 <= i < j < self.listeners@.len() && (#[trigger] self.listeners@[i]).active && (
            #[trigger] self.listeners@[j]).active ==> self.listeners@[i].addr
                != self.listeners@[j].addr
        &&& forall|i: int, k: int|
            0 <= i < self.listeners@.len() && 0 <= k < (#[trigger] self.listeners@[i]).pending@.len()
                ==> (#[trigger] self.listeners@[i].pending@[k]) < self.conns@.len()
    }

    pub fn new() -> (r: NetSim)
        ensures
            r.wf(),
            r.listeners@.len() == 0,
            r.conns@.len() == 0,
    {
        NetSim { listeners: Vec::new(), conns: Vec::new() }
    }

    /// The index of the active listener bound to `addr`, if one exists.
    fn find_listener(&self, addr: Addr) -> (r: Option<usize>)
        ensures
            match r {
                Option::Some(i) => (i as int) < self.listeners@.len()
                    && self.listeners@[i as int].active && self.listeners@[i as int].addr == addr,
                Option::None => !self.addr_bound(addr),
            },
    {
        let mut i: usize = 0;
        let n = self.listeners.len();
        while i < n
            invariant
                n == self.listeners@.len(),
                i <= n,
                forall|j: int|
                    0 <= j < i ==> !((#[trigger] self.listeners@[j]).active && self.listeners@[j].addr
                        == addr),
            decreases n - i,
        {
            if self.listeners[i].active && self.listeners[i].addr == addr {
                return Option::Some(i);
            }
            i = i + 1;
        }
        Option::None
    }

    /// Bind a new listener to `addr`. Fails with `AddrInUse` exactly when an
    /// active listener already holds the address; otherwise the new listener
    /// starts with an empty pending queue and the default time-to-live.
    pub fn bind(&mut self, addr: Addr) -> (r: Result<usize, IoErrorKind>)
        requires
            old(self).wf(),
        ensures
            final(self).wf(),
            final(self).conns@ == old(self).conns@,
            match r {
                Result::Err(e) => e == IoErrorKind::AddrInUse && old(self).addr_bound(addr)
                    && *final(self) == *old(self),
                Result::Ok(lid) => {
                    &&& !old(self).addr_bound(addr)
                    &&& lid == old(self).listeners@.len()
                    &&& final(self).listeners@.len() == old(self).listeners@.len() + 1
                    &&& forall|i: int|
                        0 <= i < old(self).listeners@.len() ==> final(self).listeners@[i] == old(
                            self).listeners@[i]
                    &&& final(self).listeners@[lid as int].addr == addr
                    &&& final(self).listeners@[lid as int].active
                    &&& final(self).listeners@[lid as int].ttl == 64u32
                    &&& final(self).listeners@[lid as int].pending@.len() == 0
                    &&& final(self).listeners@[lid as int].accept_waiter is None
                },
            },
    {
        match self.find_listener(addr) {
            Option::Some(_) => Result::Err(IoErrorKind::AddrInUse),
            Option::None => {
                let lid = self.listeners.len();
                self.listeners.push(
                    Listener {
                        addr,
                        active: true,
                        ttl: 64,
                        pending: Vec::new(),
                        accept_waiter: Option::None,
                    },
                );
                Result::Ok(lid)
            },
        }
    }

    /// Attempt a connection from `client_addr` to `addr`. Fails immediately
    /// with `ConnectionRefused` exactly when no active listener holds `addr`;
    /// otherwise a fresh connection is created, its server end joins the
    /// listener's pending queue, the listener's accept waiter (if any) is
    /// handed back to be woken, and the client end is returned.
    pub fn connect(&mut self, client_addr: Addr, addr: Addr) -> (r: ConnectOutcome)
        requires
            old(self).wf(),
            old(self).conns@.len() < usize::MAX,
        ensures
            final(self).wf(),
            match r.result {
                Result::Err(e) => e == IoErrorKind::ConnectionRefused && !old(self).addr_bound(addr)
                    && *final(self) == *old(self) && r.wake is None,
                Result::Ok(ep) => {
                    &&& old(self).addr_bound(addr)
                    &&& ep.conn == old(self).conns@.len()
                    &&& ep.side == Side::Client
                    &&& final(self).conns@.len() == old(self).conns@.len() + 1
                    &&& forall|i: int|
                        0 <= i < old(self).conns@.len() ==> final(self).conns@[i] == old(
                            self).conns@[i]
                    &&& final(self).conns@[ep.conn as int].client_addr == client_addr
                    &&& final(self).conns@[ep.conn as int].server_addr == addr
                    &&& final(self).conns@[ep.conn as int].to_server@.len() == 0
                    &&& final(self).conns@[ep.conn as int].to_client@.len() == 0
                    &&& !final(self).conns@[ep.conn as int].client_closed
                    &&& !final(self).conns@[ep.conn as int].server_closed
                    &&& !final(self).conns@[ep.conn as int].reset
                    &&& final(self).conns@[ep.conn as int].client_read_waiter is None
                    &&& final(self).conns@[ep.conn as int].server_read_waiter is None
                    &&& exists|li: int|
                        {
                            &&& 0 <= li < old(self).listeners@.len()
                            &&& (#[trigger] old(self).listeners@[li]).active
                            &&& old(self).listeners@[li].addr == addr
                            &&& final(self).listeners@.len() == old(self).listeners@.len()
                            &&& forall|i: int|
                                0 <= i < old(self).listeners@.len() && i != li ==> final(
                                    self).listeners@[i] == old(self).listeners@[i]
                            &&& final(self).listeners@[li].addr == old(self).listeners@[li].addr
                            &&& final(self).listeners@[li].active == old(self).listeners@[li].active
                            &&& final(self).listeners@[li].ttl == old(self).listeners@[li].ttl
                            &&& final(self).listeners@[li].pending@ == old(
                                self).listeners@[li].pending@.push(ep.conn)
                            &&& final(self).listeners@[li].accept_waiter is None
                            &&& r.wake == old(self).listeners@[li].accept_waiter
                        }
                },
            },
    {
        let found = self.find_listener(addr);
        match found {
            Option::None => ConnectOutcome {
                result: Result::Err(IoErrorKind::ConnectionRefused),
                wake: Option::None,
            },
            Option::Some(li) => {
                let cid = self.conns.len();
                self.conns.push(
                    Conn {
                        client_addr,
                        server_addr: addr,
                        to_server: Vec::new(),
                        to_client: Vec::new(),
                        client_closed: false,
                        server_closed: false,
                        reset: false,
                        client_read_waiter: Option::None,
                        server_read_waiter: Option::None,
                    },
                );
                let mut listener = self.listeners.remove(li);
                let wake = listener.accept_waiter;
                listener.pending.push(cid);
                listener.accept_waiter = Option::None;
                self.listeners.insert(li, listener);
                proof {
                    assert(self.listeners@ =~= old(self).listeners@.update(
                        li as int,
                        self.listeners@[li as int],
                    ));
                    assert forall|i: int, k: int|
                        0 <= i < self.listeners@.len() && 0 <= k < (
                        #[trigger] self.listeners@[i]).pending@.len() implies (
                        #[trigger] self.listeners@[i].pending@[k]) < self.conns@.len() by {
                        if i == li as int && k == self.listeners@[i].pending@.len() - 1 {
                        } else {
                            assert(old(self).listeners@[i].pending@[k] < old(self).conns@.len());
                        }
                    }
                }
                ConnectOutcome {
                    result: Result::Ok(Endpoint { conn: cid, side: Side::Client }),
                    wake,
                }
            },
        }
    }

    /// Take one pending inbound connection, first come first served. When the
    /// queue is empty, `task` is recorded as the listener's accept waiter and
    /// the caller must suspend it.
    pub fn accept(&mut self, lid: usize, task: usize) -> (r: Option<(Endpoint, Addr)>)
        requires
            old(self).wf(),
            (lid as int) < old(self).listeners@.len(),
        ensures
            final(self).wf(),
            final(self).conns@ == old(self).conns@,
            final(self).listeners@.len() == old(self).listeners@.len(),
            forall|i: int|
                0 <= i < old(self).listeners@.len() && i != lid as int ==> final(self).listeners@[i]
                    == old(self).listeners@[i],
            final(self).listeners@[lid as int].addr == old(self).listeners@[lid as int].addr,
            final(self).listeners@[lid as int].active == old(self).listeners@[lid as int].active,
            final(self).listeners@[lid as int].ttl == old(self).listeners@[lid as int].ttl,
            match r {
                Option::None => {
                    &&& old(self).listeners@[lid as int].pending@.len() == 0
                    &&& final(self).listeners@[lid as int].pending@.len() == 0
                    &&& final(self).listeners@[lid as int].accept_waiter == Option::Some(task)
                },
                Option::Some((ep, peer)) => {
                    &&& old(self).listeners@[lid as int].pending@.len() > 0
                    &&& ep.conn == old(self).listeners@[lid as int].pending@[0]
                    &&& ep.side == Side::Server
                    &&& (ep.conn as int) < old(self).conns@.len()
                    &&& peer == old(self).conns@[ep.conn as int].client_addr
                    &&& final(self).listeners@[lid as int].pending@ == old(
                        self).listeners@[lid as int].pending@.subrange(
                        1,
                        old(self).listeners@[lid as int].pending@.len() as int,
                    )
                    &&& final(self).listeners@[lid as int].accept_waiter == old(
                        self).listeners@[lid as int].accept_waiter
                },
            },
    {
        let mut listener = self.listeners.remove(lid);
        if listener.pending.len() == 0 {
            listener.accept_waiter = Option::Some(task);
            self.listeners.insert(lid, listener);
            proof {
                assert(self.listeners@ =~= old(self).listeners@.update(
                    lid as int,
                    self.listeners@[lid as int],
                ));
            }
            Option::None
        } else {
            let cid = listener.pending.remove(0);
            self.listeners.insert(lid, listener);
            proof {
                assert(self.listeners@ =~= old(self).listeners@.update(
                    lid as int,
                    self.listeners@[lid as int],
                ));
                old(self).listeners@[lid as int].pending@.remove_ensures(0);
                assert(self.listeners@[lid as int].pending@ =~= old(
                    self,
                ).listeners@[lid as int].pending@.subrange(
                    1,
                    old(self).listeners@[lid as int].pending@.len() as int,
                ));
                assert(old(self).listeners@[lid as int].pending@[0] < old(self).conns@.len());
            }
            let peer = self.conns[cid].client_addr;
            Option::Some((Endpoint { conn: cid, side: Side::Server }, peer))
        }
    }

    /// Append `data` to the peer's read buffer. Fails with `ConnectionReset`
    /// when fault injection disconnected the connection, with `BrokenPipe`
    /// when either side already closed it; otherwise every byte is delivered
    /// in order and the peer's read waiter, if any, is handed back to be
    /// woken.
    pub fn write(&mut self, ep: Endpoint, data: &[u8]) -> (r: WriteOutcome)
        requires
            old(self).wf(),
            (ep.conn as int) < old(self).conns@.len(),
        ensures
            final(self).wf(),
            final(self).listeners@ == old(self).listeners@,
            final(self).conns@.len() == old(self).conns@.len(),
            forall|i: int|
                0 <= i < old(self).conns@.len() && i != ep.conn as int ==> final(self).conns@[i]
                    == old(self).conns@[i],
            match r.result {
                Result::Err(e) => {
                    &&& *final(self) == *old(self)
                    &&& r.wake is None
                    &&& (e == IoErrorKind::ConnectionReset || e == IoErrorKind::BrokenPipe)
                    &&& (e == IoErrorKind::ConnectionReset <==> old(self).conns@[ep.conn as int].reset)
                    &&& (e == IoErrorKind::BrokenPipe ==> !old(self).conns@[ep.conn as int].reset
                        && (old(self).conns@[ep.conn as int].client_closed || old(
                            self).conns@[ep.conn as int].server_closed))
                },
                Result::Ok(n) => {
                    &&& !old(self).conns@[ep.conn as int].reset
                    &&& !old(self).conns@[ep.conn as int].client_closed
                    &&& !old(self).conns@[ep.conn as int].server_closed
                    &&& n == data@.len()
                    &&& final(self).conns@[ep.conn as int].outbuf(ep.side) == old(
                        self).conns@[ep.conn as int].outbuf(ep.side) + data@
                    &&& final(self).conns@[ep.conn as int].inbuf(ep.side) == old(
                        self).conns@[ep.conn as int].inbuf(ep.side)
                    &&& final(self).conns@[ep.conn as int].read_waiter(Conn::peer(ep.side)) is None
                    &&& final(self).conns@[ep.conn as int].read_waiter(ep.side) == old(
                        self).conns@[ep.conn as int].read_waiter(ep.side)
                    &&& r.wake == old(self).conns@[ep.conn as int].read_waiter(Conn::peer(ep.side))
                    &&& final(self).conns@[ep.conn as int].client_addr == old(
                        self).conns@[ep.conn as int].client_addr
                    &&& final(self).conns@[ep.conn as int].server_addr == old(
                        self).conns@[ep.conn as int].server_addr
                    &&& final(self).conns@[ep.conn as int].client_closed == old(
                        self).conns@[ep.conn as int].client_closed
                    &&& final(self).conns@[ep.conn as int].server_closed == old(
                        self).conns@[ep.conn as int].server_closed
                    &&& final(self).conns@[ep.conn as int].reset == old(
                        self).conns@[ep.conn as int].reset
                },
            },
    {
        if self.conns[ep.conn].reset {
            return WriteOutcome {
                result: Result::Err(IoErrorKind::ConnectionReset),
                wake: Option::None,
            };
        }
        if self.conns[ep.conn].client_closed || self.conns[ep.conn].server_closed {
            return WriteOutcome {
                result: Result::Err(IoErrorKind::BrokenPipe),
                wake: Option::None,
            };
        }
        let mut conn = self.conns.remove(ep.conn);
        let wake: Option<usize>;
        match ep.side {
            Side::Client => {
                wake = conn.server_read_waiter;
                conn.server_read_waiter = Option::None;
                let mut buf = conn.to_server;
                let ghost buf0 = buf@;
                let mut j: usize = 0;
                let n = data.len();
                while j < n
                    invariant
                        n == data@.len(),
                        j <= n,
                        buf@ == buf0 + data@.subrange(0, j as int),
                    decreases n - j,
                {
                    buf.push(data[j]);
                    proof {
                        assert(data@.subrange(0, j + 1 as int) =~= data@.subrange(0, j as int).push(
                            data@[j as int],
                        ));
                    }
                    j = j + 1;
                }
                proof {
                    assert(data@.subrange(0, data@.len() as int) =~= data@);
                }
                conn.to_server = buf;
            },
            Side::Server => {
                wake = conn.client_read_waiter;
                conn.client_read_waiter = Option::None;
                let mut buf = conn.to_client;
                let ghost buf0 = buf@;
                let mut j: usize = 0;
                let n = data.len();
                while j < n
                    invariant
                        n == data@.len(),
                        j <= n,
                        buf@ == buf0 + data@.subrange(0, j as int),
                    decreases n - j,
                {
                    buf.push(data[j]);
                    proof {
                        assert(data@.subrange(0, j + 1 as int) =~= data@.subrange(0, j as int).push(
                            data@[j as int],
                        ));
                    }
                    j = j + 1;
                }
                proof {
                    assert(data@.subrange(0, data@.len() as int) =~= data@);
                }
                conn.to_client = buf;
            },
        }
        self.conns.insert(ep.conn, conn);
        proof {
            assert(self.conns@ =~= old(self).conns@.update(ep.conn as int, self.conns@[ep.conn as int]));
        }
        WriteOutcome { result: Result::Ok(data.len()), wake }
    }

    /// Read whatever bytes are buffered for `ep`, in the order the peer wrote
    /// them. A disconnected connection reports `Reset`; an empty buffer on a
    /// closed connection reports end of stream; an empty buffer on a live
    /// connection records `task` as the side's read waiter and reports
    /// `WouldBlock`, and the caller must suspend the task.
    pub fn read(&mut self, ep: Endpoint, task: usize) -> (r: ReadOutcome)
        requires
            old(self).wf(),
            (ep.conn as int) < old(self).conns@.len(),
        ensures
            final(self).wf(),
            final(self).listeners@ == old(self).listeners@,
            final(self).conns@.len() == old(self).conns@.len(),
            forall|i: int|
                0 <= i < old(self).conns@.len() && i != ep.conn as int ==> final(self).conns@[i]
                    == old(self).conns@[i],
            match r {
                ReadOutcome::Reset => old(self).conns@[ep.conn as int].reset && *final(self)
                    == *old(self),
                ReadOutcome::Data(data) => {
                    &&& !old(self).conns@[ep.conn as int].reset
                    &&& old(self).conns@[ep.conn as int].inbuf(ep.side).len() > 0
                    &&& data@ == old(self).conns@[ep.conn as int].inbuf(ep.side)
                    &&& final(self).conns@[ep.conn as int].inbuf(ep.side).len() == 0
                    &&& final(self).conns@[ep.conn as int].outbuf(ep.side) == old(
                        self).conns@[ep.conn as int].outbuf(ep.side)
                    &&& final(self).conns@[ep.conn as int].read_waiter(ep.side) is None
                    &&& final(self).conns@[ep.conn as int].read_waiter(Conn::peer(ep.side)) == old(
                        self).conns@[ep.conn as int].read_waiter(Conn::peer(ep.side))
                    &&& final(self).conns@[ep.conn as int].client_closed == old(
                        self).conns@[ep.conn as int].client_closed
                    &&& final(self).conns@[ep.conn as int].server_closed == old(
                        self).conns@[ep.conn as int].server_closed
                    &&& final(self).conns@[ep.conn as int].reset == old(
                        self).conns@[ep.conn as int].reset
                    &&& final(self).conns@[ep.conn as int].client_addr == old(
                        self).conns@[ep.conn as int].client_addr
                    &&& final(self).conns@[ep.conn as int].server_addr == old(
                        self).conns@[ep.conn as int].server_addr
                },
                ReadOutcome::Closed => {
                    &&& !old(self).conns@[ep.conn as int].reset
                    &&& old(self).conns@[ep.conn as int].inbuf(ep.side).len() == 0
                    &&& (old(self).conns@[ep.conn as int].client_closed || old(
                        self).conns@[ep.conn as int].server_closed)
                    &&& *final(self) == *old(self)
                },
                ReadOutcome::WouldBlock => {
                    &&& !old(self).conns@[ep.conn as int].reset
                    &&& old(self).conns@[ep.conn as int].inbuf(ep.side).len() == 0
                    &&& !old(self).conns@[ep.conn as int].client_closed
                    &&& !old(self).conns@[ep.conn as int].server_closed
                    &&& final(self).conns@[ep.conn as int].read_waiter(ep.side) == Option::Some(
                        task,
                    )
                    &&& final(self).conns@[ep.conn as int].read_waiter(Conn::peer(ep.side)) == old(
                        self).conns@[ep.conn as int].read_waiter(Conn::peer(ep.side))
                    &&& final(self).conns@[ep.conn as int].inbuf(ep.side) == old(
                        self).conns@[ep.conn as int].inbuf(ep.side)
                    &&& final(self).conns@[ep.conn as int].outbuf(ep.side) == old(
                        self).conns@[ep.conn as int].outbuf(ep.side)
                    &&& final(self).conns@[ep.conn as int].client_closed == old(
                        self).conns@[ep.conn as int].client_closed
                    &&& final(self).conns@[ep.conn as int].server_closed == old(
                        self).conns@[ep.conn as int].server_closed
                    &&& final(self).conns@[ep.conn as int].reset == old(
                        self).conns@[ep.conn as int].reset
                },
            },
    {
        if self.conns[ep.conn].reset {
            return ReadOutcome::Reset;
        }
        let has_data = match ep.side {
            Side::Client => self.conns[ep.conn].to_client.len() > 0,
            Side::Server => self.conns[ep.conn].to_server.len() > 0,
        };
        if has_data {
            let mut conn = self.conns.remove(ep.conn);
            let data: Vec<u8>;
            match ep.side {
                Side::Client => {
                    data = conn.to_client;
                    conn.to_client = Vec::new();
                    conn.client_read_waiter = Option::None;
                },
                Side::Server => {
                    data = conn.to_server;
                    conn.to_server = Vec::new();
                    conn.server_read_waiter = Option::None;
                },
            }
            self.conns.insert(ep.conn, conn);
            proof {
                assert(self.conns@ =~= old(self).conns@.update(
                    ep.conn as int,
                    self.conns@[ep.conn as int],
                ));
            }
            ReadOutcome::Data(data)
        } else if self.conns[ep.conn].client_closed || self.conns[ep.conn].server_closed {
            ReadOutcome::Closed
        } else {
            let mut conn = self.conns.remove(ep.conn);
            match ep.side {
                Side::Client => {
                    conn.client_read_waiter = Option::Some(task);
                },
                Side::Server => {
                    conn.server_read_waiter = Option::Some(task);
                },
            }
            self.conns.insert(ep.conn, conn);
            proof {
                assert(self.conns@ =~= old(self).conns@.update(
                    ep.conn as int,
                    self.conns@[ep.conn as int],
                ));
            }
            ReadOutcome::WouldBlock
        }
    }

    /// Close `ep`'s side of the connection. The peer's read waiter, if any,
    /// is handed back to be woken so that it observes end of stream.
    pub fn close(&mut self, ep: Endpoint) -> (wake: Option<usize>)
        requires
            old(self).wf(),
            (ep.conn as int) < old(self).conns@.len(),
        ensures
            final(self).wf(),
            final(self).listeners@ == old(self).listeners@,
            final(self).conns@.len() == old(self).conns@.len(),
            forall|i: int|
                0 <= i < old(self).conns@.len() && i != ep.conn as int ==> final(self).conns@[i]
                    == old(self).conns@[i],
            final(self).conns@[ep.conn as int].closed(ep.side),
            final(self).conns@[ep.conn as int].closed(Conn::peer(ep.side)) == old(
                self).conns@[ep.conn as int].closed(Conn::peer(ep.side)),
            final(self).conns@[ep.conn as int].inbuf(ep.side) == old(
                self).conns@[ep.conn as int].inbuf(ep.side),
            final(self).conns@[ep.conn as int].outbuf(ep.side) == old(
                self).conns@[ep.conn as int].outbuf(ep.side),
            final(self).conns@[ep.conn as int].reset == old(self).conns@[ep.conn as int].reset,
            final(self).conns@[ep.conn as int].read_waiter(Conn::peer(ep.side)) is None,
            final(self).conns@[ep.conn as int].read_waiter(ep.side) == old(
                self).conns@[ep.conn as int].read_waiter(ep.side),
            wake == old(self).conns@[ep.conn as int].read_waiter(Conn::peer(ep.side)),
            final(self).conns@[ep.conn as int].client_addr == old(
                self).conns@[ep.conn as int].client_addr,
            final(self).conns@[ep.conn as int].server_addr == old(
                self).conns@[ep.conn as int].server_addr,
    {
        let mut conn = self.conns.remove(ep.conn);
        let wake: Option<usize>;
        match ep.side {
            Side::Client => {
                conn.client_closed = true;
                wake = conn.server_read_waiter;
                conn.server_read_waiter = Option::None;
            },
            Side::Server => {
                conn.server_closed = true;
                wake = conn.client_read_waiter;
                conn.client_read_waiter = Option::None;
            },
        }
        self.conns.insert(ep.conn, conn);
        proof {
            assert(self.conns@ =~= old(self).conns@.update(
                ep.conn as int,
                self.conns@[ep.conn as int],
            ));
        }
        wake
    }

    /// Fault injection: flip the connection into the disconnected state. Both
    /// sides' read waiters are handed back to be woken so that each observes
    /// the reset.
    pub fn disconnect(&mut self, cid: usize) -> (wakes: (Option<usize>, Option<usize>))
        requires
            old(self).wf(),
            (cid as int) < old(self).conns@.len(),
        ensures
            final(self).wf(),
            final(self).listeners@ == old(self).listeners@,
            final(self).conns@.len() == old(self).conns@.len(),
            forall|i: int|
                0 <= i < old(self).conns@.len() && i != cid as int ==> final(self).conns@[i] == old(
                    self).conns@[i],
            final(self).conns@[cid as int].reset,
            wakes.0 == old(self).conns@[cid as int].client_read_waiter,
            wakes.1 == old(self).conns@[cid as int].server_read_waiter,
            final(self).conns@[cid as int].client_read_waiter is None,
            final(self).conns@[cid as int].server_read_waiter is None,
    {
        let mut conn = self.conns.remove(cid);
        conn.reset = true;
        let w0 = conn.client_read_waiter;
        let w1 = conn.server_read_waiter;
        conn.client_read_waiter = Option::None;
        conn.server_read_waiter = Option::None;
        self.conns.insert(cid, conn);
        proof {
            assert(self.conns@ =~= old(self).conns@.update(cid as int, self.conns@[cid as int]));
        }
        (w0, w1)
    }

    /// Deactivate a listener. Connect attempts at its address are refused from
    /// now on. The pending connections it never accepted are handed back; the
    /// runtime closes their server ends so that the connectors observe end of
    /// stream rather than silence.
    pub fn close_listener(&mut self, lid: usize) -> (orphans: Vec<usize>)
        requires
            old(self).wf(),
            (lid as int) < old(self).listeners@.len(),
        ensures
            final(self).wf(),
            final(self).conns@ == old(self).conns@,
            final(self).listeners@.len() == old(self).listeners@.len(),
            forall|i: int|
                0 <= i < old(self).listeners@.len() && i != lid as int ==> final(self).listeners@[i]
                    == old(self).listeners@[i],
            !final(self).listeners@[lid as int].active,
            final(self).listeners@[lid as int].pending@.len() == 0,
            final(self).listeners@[lid as int].accept_waiter == old(
                self).listeners@[lid as int].accept_waiter,
            orphans@ == old(self).listeners@[lid as int].pending@,
            forall|k: int| 0 <= k < orphans@.len() ==> (#[trigger] orphans@[k]) < old(self).conns@.len(),
    {
        let mut listener = self.listeners.remove(lid);
        listener.active = false;
        let orphans = listener.pending;
        listener.pending = Vec::new();
        self.listeners.insert(lid, listener);
        proof {
            assert(self.listeners@ =~= old(self).listeners@.update(
                lid as int,
                self.listeners@[lid as int],
            ));
        }
        orphans
    }

    /// The address a listener is bound to.
    pub fn listener_addr(&self, lid: usize) -> (r: Addr)
        requires
            (lid as int) < self.listeners@.len(),
        ensures
            r == self.listeners@[lid as int].addr,
    {
        self.listeners[lid].addr
    }

    /// The configured time-to-live of a listener.
    pub fn listener_ttl(&self, lid: usize) -> (r: u32)
        requires
            (lid as int) < self.listeners@.len(),
        ensures
            r == self.listeners@[lid as int].ttl,
    {
        self.listeners[lid].ttl
    }

    /// Reconfigure a listener's time-to-live; nothing else changes.
    pub fn set_listener_ttl(&mut self, lid: usize, ttl: u32)
        requires
            old(self).wf(),
            (lid as int) < old(self).listeners@.len(),
        ensures
            final(self).wf(),
            final(self).conns@ == old(self).conns@,
            final(self).listeners@.len() == old(self).listeners@.len(),
            forall|i: int|
                0 <= i < old(self).listeners@.len() && i != lid as int ==> final(self).listeners@[i]
                    == old(self).listeners@[i],
            final(self).listeners@[lid as int].ttl == ttl,
            final(self).listeners@[lid as int].addr == old(self).listeners@[lid as int].addr,
            final(self).listeners@[lid as int].active == old(self).listeners@[lid as int].active,
            final(self).listeners@[lid as int].pending@ == old(
                self).listeners@[lid as int].pending@,
            final(self).listeners@[lid as int].accept_waiter == old(
                self).listeners@[lid as int].accept_waiter,
    {
        let mut listener = self.listeners.remove(lid);
        listener.ttl = ttl;
        self.listeners.insert(lid, listener);
        proof {
            assert(self.listeners@ =~= old(self).listeners@.update(
                lid as int,
                self.listeners@[lid as int],
            ));
        }
    }

    /// The local address of one endpoint of a connection.
    pub fn endpoint_local_addr(&self, ep: Endpoint) -> (r: Addr)
        requires
            (ep.conn as int) < self.conns@.len(),
        ensures
            r == if ep.side is Client {
                self.conns@[ep.conn as int].client_addr
            } else {
                self.conns@[ep.conn as int].server_addr
            },
    {
        match ep.side {
            Side::Client => self.conns[ep.conn].client_addr,
            Side::Server => self.conns[ep.conn].server_addr,
        }
    }

    /// The peer address of one endpoint of a connection.
    pub fn endpoint_peer_addr(&self, ep: Endpoint) -> (r: Addr)
        requires
            (ep.conn as int) < self.conns@.len(),
        ensures
            r == if ep.side is Client {
                self.conns@[ep.conn as int].server_addr
            } else {
                self.conns@[ep.conn as int].client_addr
            },
    {
        match ep.side {
            Side::Client => self.conns[ep.conn].server_addr,
            Side::Server => self.conns[ep.conn].client_addr,
        }
    }
}

} // verus!
