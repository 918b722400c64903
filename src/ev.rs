use vstd::prelude::*;

verus! {

/// What a connection reports to its owner's callback.
#[derive(Debug, Clone, Copy, PartialEq, Eq, Structural)]
pub enum MgEvent {
    EvConnect,
    EvSend,
    EvRecv,
    EvTimer,
    EvClose,
}

/// The outcome that accompanies an event.
#[derive(Debug, Clone, Copy, PartialEq, Eq, Structural)]
pub enum MgStatus {
    MgOk,
    TCPConnectionError,
    TCPWriteError,
}

/// The state of a connection.
#[derive(Debug, Clone, Copy, PartialEq, Eq, Structural)]
pub enum MgFlag {
    MgStart,
    MgWaitForConnection,
    MgWaitForData,
    MgConnected,
    MgWriteError,
    MgSent,
    MgCloseNow,
}

/// The two kinds of connection: fixed when the connection is made.
#[derive(Debug, Clone, Copy, PartialEq, Eq, Structural)]
pub enum MgConnType {
    TCP,
    Timer,
}

} // verus!
