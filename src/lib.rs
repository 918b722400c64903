//! A single-threaded multiplexer of timers and outbound TCP connections.
//!
//! The library holds the registry and each connection's state machine; the
//! owner of the sockets and the clock performs the outside work that a
//! connection asks for (`MgConn::io`), hands back its outcome, delivers the
//! reported events to its callbacks, and reports a close for every connection
//! that `MgMgr::remove_expired_tasks` hands back.
use vstd::prelude::*;

pub mod conn;
pub mod ev;
pub mod mg;

pub use conn::{MgConn, MgIo, MgNotice};
pub use ev::{MgConnType, MgEvent, MgFlag, MgStatus};
pub use mg::MgMgr;

verus! {

} // verus!
