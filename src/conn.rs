use vstd::prelude::*;

use crate::ev::{MgConnType, MgEvent, MgFlag, MgStatus};

verus! {

/// What a connection reports on one tick: an event and its status.
pub type MgNotice = (MgEvent, MgStatus);

/// The outside work that a connection needs before its next step: a connect
/// attempt to its host and port, a non-destructive peek at its socket, or
/// nothing.
#[derive(Debug, Clone, Copy, PartialEq, Eq, Structural)]
pub enum MgIo {
    Connect,
    Peek,
    Idle,
}

/// A timer or an outbound TCP connection. Instants and intervals are
/// nanoseconds on the owner's monotonic clock. The socket itself is held by
/// the owner; the connection records whether one is held.
pub struct MgConn {
    host: String,
    port: u16,
    conn_type: MgConnType,
    fire_time: u64,
    interval: u64,
    once: bool,
    connected: bool,
    flag: MgFlag,
    id: u128,
}

/// The abstract state of a connection.
pub struct ConnState {
    pub host: Seq<char>,
    pub port: u16,
    pub conn_type: MgConnType,
    pub fire_time: u64,
    pub interval: u64,
    pub once: bool,
    pub connected: bool,
    pub flag: MgFlag,
    pub id: u128,
}

impl View for MgConn {
    type V = ConnState;

    closed spec fn view(&self) -> ConnState {
        ConnState {
            host: self.host@,
            port: self.port,
            conn_type: self.conn_type,
            fire_time: self.fire_time,
            interval: self.interval,
            once: self.once,
            connected: self.connected,
            flag: self.flag,
            id: self.id,
        }
    }
}

/// `now + d`, held at the largest instant the clock can show.
pub open spec fn later(now: u64, d: u64) -> u64 {
    if now + d > u64::MAX {
        u64::MAX
    } else {
        (now + d) as u64
    }
}

/// One step of a timer at instant `now`: the new state, what it reports, and
/// whether it leaves the registry.
pub open spec fn timer_step(c: ConnState, now: u64) -> (ConnState, Option<MgNotice>, bool) {
    if c.fire_time < now {
        (
            ConnState { fire_time: later(now, c.interval), ..c },
            Some((MgEvent::EvTimer, MgStatus::MgOk)),
            c.once,
        )
    } else {
        (c, None, false)
    }
}

/// One step of a TCP connection, given the outcome of the outside work that
/// `io_of(c)` asked for (connect, or peek).
pub open spec fn tcp_step(c: ConnState, io_ok: bool) -> (ConnState, Option<MgNotice>, bool) {
    if !c.connected {
        if io_ok {
            (
                ConnState { connected: true, ..c },
                Some((MgEvent::EvConnect, MgStatus::MgOk)),
                false,
            )
        } else {
            (c, Some((MgEvent::EvConnect, MgStatus::TCPConnectionError)), true)
        }
    } else {
        match c.flag {
            MgFlag::MgWriteError => (c, Some((MgEvent::EvSend, MgStatus::TCPWriteError)), false),
            MgFlag::MgSent => (
                ConnState { flag: MgFlag::MgWaitForData, ..c },
                Some((MgEvent::EvSend, MgStatus::MgOk)),
                false,
            ),
            MgFlag::MgWaitForData => (
                c,
                if io_ok {
                    Some((MgEvent::EvRecv, MgStatus::MgOk))
                } else {
                    None
                },
                false,
            ),
            _ => (c, None, false),
        }
    }
}

/// One step of any connection: one marked for closing only leaves.
pub open spec fn step(c: ConnState, now: u64, io_ok: bool) -> (ConnState, Option<MgNotice>, bool) {
    if c.flag == MgFlag::MgCloseNow {
        (c, None, true)
    } else if c.conn_type == MgConnType::Timer {
        timer_step(c, now)
    } else {
        tcp_step(c, io_ok)
    }
}

/// The outside work that the next step of `c` needs.
pub open spec fn io_of(c: ConnState) -> MgIo {
    if c.flag == MgFlag::MgCloseNow || c.conn_type == MgConnType::Timer {
        MgIo::Idle
    } else if !c.connected {
        MgIo::Connect
    } else if c.flag == MgFlag::MgWaitForData {
        MgIo::Peek
    } else {
        MgIo::Idle
    }
}

/// `ex` with `index` appended when `leaves` holds.
pub open spec fn mark(ex: Seq<usize>, index: usize, leaves: bool) -> Seq<usize> {
    if leaves {
        ex.push(index)
    } else {
        ex
    }
}

/// The state after a send of `requested` bytes of which the transport took
/// `accepted` (`None`: the write failed). Without a socket, or once marked for
/// closing, nothing changes.
pub open spec fn sent(c: ConnState, requested: usize, accepted: Option<usize>) -> ConnState {
    if !c.connected || c.flag == MgFlag::MgCloseNow {
        c
    } else if accepted == Some(requested) {
        ConnState { flag: MgFlag::MgSent, ..c }
    } else {
        ConnState { flag: MgFlag::MgWriteError, ..c }
    }
}

impl MgConn {
    /// A connection that holds no socket yet, in state `MgStart`, with a fresh
    /// random identifier.
    pub fn new(
        host: &str,
        port: u16,
        conn_type: MgConnType,
        once: bool,
        fire_time: u64,
        interval: u64,
    ) -> (r: MgConn)
        ensures
            r@ == (ConnState {
                host: host@,
                port,
                conn_type,
                fire_time,
                interval,
                once,
                connected: false,
                flag: MgFlag::MgStart,
                id: r@.id,
            }),
    {
        MgConn {
            host: host.to_owned(),
            port,
            conn_type,
            fire_time,
            interval,
            once,
            connected: false,
            flag: MgFlag::MgStart,
            id: random_id(),
        }
    }

    pub fn id(&self) -> (r: u128)
        ensures
            r == self@.id,
    {
        self.id
    }

    pub fn flag(&self) -> (r: MgFlag)
        ensures
            r == self@.flag,
    {
        self.flag
    }

    pub fn host(&self) -> (r: &str)
        ensures
            r@ == self@.host,
    {
        self.host.as_str()
    }

    pub fn port(&self) -> (r: u16)
        ensures
            r == self@.port,
    {
        self.port
    }

    pub fn conn_type(&self) -> (r: MgConnType)
        ensures
            r == self@.conn_type,
    {
        self.conn_type
    }

    pub fn fire_time(&self) -> (r: u64)
        ensures
            r == self@.fire_time,
    {
        self.fire_time
    }

    pub fn interval(&self) -> (r: u64)
        ensures
            r == self@.interval,
    {
        self.interval
    }

    pub fn once(&self) -> (r: bool)
        ensures
            r == self@.once,
    {
        self.once
    }

    pub fn is_connected(&self) -> (r: bool)
        ensures
            r == self@.connected,
    {
        self.connected
    }

    /// Records a send of `requested` bytes of which the transport accepted
    /// `accepted` in one write (`None`: the write failed): `MgSent` only when
    /// every byte went, `MgWriteError` otherwise.
    pub fn send(&mut self, requested: usize, accepted: Option<usize>)
        ensures
            final(self)@ == sent(old(self)@, requested, accepted),
    {
        if self.connected && self.flag != MgFlag::MgCloseNow {
            if accepted == Some(requested) {
                self.flag = MgFlag::MgSent;
            } else {
                self.flag = MgFlag::MgWriteError;
            }
        }
    }

    /// The count that a read reports, given what the socket's read returned
    /// (`None`: it failed): 0 on failure or without a socket.
    pub fn read(&self, result: Option<usize>) -> (r: usize)
        ensures
            r == (if self@.connected && result is Some {
                result->0
            } else {
                0
            }),
    {
        if self.connected {
            match result {
                Some(n) => n,
                None => 0,
            }
        } else {
            0
        }
    }

    /// Marks the connection for removal on the next tick.
    pub fn close_now(&mut self)
        ensures
            final(self)@ == (ConnState { flag: MgFlag::MgCloseNow, ..old(self)@ }),
    {
        self.flag = MgFlag::MgCloseNow;
    }

    /// The outside work that the next step needs.
    pub fn io(&self) -> (r: MgIo)
        ensures
            r == io_of(self@),
    {
        if self.flag == MgFlag::MgCloseNow || self.conn_type == MgConnType::Timer {
            MgIo::Idle
        } else if !self.connected {
            MgIo::Connect
        } else if self.flag == MgFlag::MgWaitForData {
            MgIo::Peek
        } else {
            MgIo::Idle
        }
    }

    /// Fires the timer when it is due at `now`, reschedules it, and marks a
    /// one-shot timer as expired at `index`.
    pub fn handle_timer_conn(&mut self, index: usize, now: u64, expired: &mut Vec<usize>) -> (r:
        Option<MgNotice>)
        ensures
            final(self)@ == timer_step(old(self)@, now).0,
            r == timer_step(old(self)@, now).1,
            final(expired)@ == mark(old(expired)@, index, timer_step(old(self)@, now).2),
    {
        if self.fire_time < now {
            self.fire_time = now.saturating_add(self.interval);
            if self.once {
                expired.push(index);
            }
            Some((MgEvent::EvTimer, MgStatus::MgOk))
        } else {
            None
        }
    }

    /// Advances a TCP connection given the outcome `io_ok` of the work that
    /// `io` asked for; a failed connect marks it as expired at `index`.
    pub fn handle_tcp_conn(&mut self, index: usize, io_ok: bool, expired: &mut Vec<usize>) -> (r:
        Option<MgNotice>)
        ensures
            final(self)@ == tcp_step(old(self)@, io_ok).0,
            r == tcp_step(old(self)@, io_ok).1,
            final(expired)@ == mark(old(expired)@, index, tcp_step(old(self)@, io_ok).2),
    {
        if !self.connected {
            if io_ok {
                self.connected = true;
                Some((MgEvent::EvConnect, MgStatus::MgOk))
            } else {
                expired.push(index);
                Some((MgEvent::EvConnect, MgStatus::TCPConnectionError))
            }
        } else {
            match self.flag {
                MgFlag::MgWriteError => Some((MgEvent::EvSend, MgStatus::TCPWriteError)),
                MgFlag::MgSent => {
                    self.flag = MgFlag::MgWaitForData;
                    Some((MgEvent::EvSend, MgStatus::MgOk))
                },
                MgFlag::MgWaitForData => {
                    if io_ok {
                        Some((MgEvent::EvRecv, MgStatus::MgOk))
                    } else {
                        None
                    }
                },
                _ => None,
            }
        }
    }

    /// One tick's handling: a connection marked for closing is only marked as
    /// expired; any other goes to the handler of its kind.
    pub fn handle(&mut self, index: usize, now: u64, io_ok: bool, expired: &mut Vec<usize>) -> (r:
        Option<MgNotice>)
        ensures
            final(self)@ == step(old(self)@, now, io_ok).0,
            r == step(old(self)@, now, io_ok).1,
            final(expired)@ == mark(old(expired)@, index, step(old(self)@, now, io_ok).2),
    {
        if self.flag == MgFlag::MgCloseNow {
            expired.push(index);
            return None;
        }
        match self.conn_type {
            MgConnType::Timer => self.handle_timer_conn(index, now, expired),
            MgConnType::TCP => self.handle_tcp_conn(index, io_ok, expired),
        }
    }
}

/// A one-shot timer that is not marked for closing reports nothing and stays
/// unchanged until it is due; on the tick it is due it reports exactly one
/// timer event and leaves the registry on that same tick.
pub proof fn lemma_one_shot_timer(c: ConnState, now: u64, io_ok: bool)
    requires
        c.conn_type == MgConnType::Timer,
        c.once,
        c.flag != MgFlag::MgCloseNow,
    ensures
        step(c, now, io_ok).1 is Some <==> step(c, now, io_ok).2,
        step(c, now, io_ok).1 is Some ==> step(c, now, io_ok).1 == Some(
            (MgEvent::EvTimer, MgStatus::MgOk),
        ),
        step(c, now, io_ok).1 is None ==> step(c, now, io_ok).0 == c,
{
}

/// A periodic timer never leaves the registry by itself; a tick on which it
/// does not fire leaves it unchanged, and after it fires at `now1` it fires
/// next only at an instant more than its interval later.
pub proof fn lemma_periodic_timer(c: ConnState, now1: u64, now2: u64, io1: bool, io2: bool)
    requires
        c.conn_type == MgConnType::Timer,
        !c.once,
        c.flag != MgFlag::MgCloseNow,
    ensures
        !step(c, now1, io1).2,
        step(c, now1, io1).1 is None ==> step(c, now1, io1).0 == c,
        step(c, now1, io1).1 is Some && step(step(c, now1, io1).0, now2, io2).1 is Some ==> now2
            > now1 + c.interval,
{
}

/// A connect that fails reports exactly a connect error and the connection
/// leaves the registry on that tick.
pub proof fn lemma_failed_connect(c: ConnState, now: u64)
    requires
        c.conn_type == MgConnType::TCP,
        !c.connected,
        c.flag != MgFlag::MgCloseNow,
    ensures
        io_of(c) == MgIo::Connect,
        step(c, now, false) == (c, Some((MgEvent::EvConnect, MgStatus::TCPConnectionError)), true),
{
}

/// On a connected socket, a send that the transport takes whole sets
/// `MgSent`, and the next tick reports one successful send and moves to
/// waiting for data, without leaving.
pub proof fn lemma_send_then_tick(c: ConnState, n: usize, now: u64, io_ok: bool)
    requires
        c.conn_type == MgConnType::TCP,
        c.connected,
        c.flag != MgFlag::MgCloseNow,
    ensures
        sent(c, n, Some(n)).flag == MgFlag::MgSent,
        step(sent(c, n, Some(n)), now, io_ok) == (
            ConnState { flag: MgFlag::MgWaitForData, ..sent(c, n, Some(n)) },
            Some((MgEvent::EvSend, MgStatus::MgOk)),
            false,
        ),
{
}

/// Once marked for closing, a connection reports nothing more, a send leaves
/// it as it is, and the next tick marks it for removal.
pub proof fn lemma_close_now(c: ConnState, now: u64, io_ok: bool, n: usize, accepted: Option<usize>)
    ensures
        ({
            let d = ConnState { flag: MgFlag::MgCloseNow, ..c };
            &&& sent(d, n, accepted) == d
            &&& io_of(d) == MgIo::Idle
            &&& step(d, now, io_ok) == (d, None::<MgNotice>, true)
        }),
{
}

/// Relies on uuid's `Uuid::new_v4` for a random identifier, read as its 128-bit
/// value by `Uuid::as_u128`: the version field holds 4 and the variant field
/// the two bits `10`.
#[verifier::external_body]
fn random_id() -> (r: u128)
    ensures
        (r >> 76u128) & 0xfu128 == 4,
        (r >> 62u128) & 0x3u128 == 2,
{
    uuid::Uuid::new_v4().as_u128()
}

} // verus!
