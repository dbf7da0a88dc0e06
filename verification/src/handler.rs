//! The server-side, per-connection handler state machine.
//!
//! A handler moves `AwaitingUsername -> Registered -> Closed`.  While
//! awaiting, it accumulates and trims a candidate username from whatever the
//! connection yields, validates it, and tries to join the registry; a
//! rejected candidate is discarded before the next attempt.  Once registered,
//! every line that is not the leave token is handed out for broadcast.  Any
//! path that closes the handler ends in [`finish_close`], which removes the
//! username from the registry unconditionally, so a closed session never
//! leaves a dangling member behind.

use vstd::prelude::*;

use crate::protocol::accumulate_candidate;
use crate::protocol::copy_bytes;
use crate::protocol::is_leave_line;
use crate::protocol::leave_token;
use crate::protocol::trim_spec;
use crate::protocol::valid_username;
use crate::protocol::validate_username;
use crate::registry::Entry;
use crate::registry::Registry;

verus! {

/// Where a connection's handler stands.
#[derive(Clone, Copy, Debug, PartialEq, Eq, Structural)]
pub enum HandlerState {
    AwaitingUsername,
    Registered,
    Closed,
}

/// One connection's handler: its state, the identity of its connection, the
/// username candidate gathered so far, and the username it registered.
pub struct Handler {
    pub state: HandlerState,
    pub conn: u64,
    pub candidate: Vec<u8>,
    pub username: Vec<u8>,
}

/// What the connection yielded while a username was awaited.
pub enum HandshakeEvent {
    /// Some bytes arrived.
    Bytes(Vec<u8>),
    /// The peer closed the stream.
    EndOfStream,
    /// Reading failed fatally.
    ReadError,
}

/// What the shell must do after a handshake step.
#[derive(Clone, Copy, Debug, PartialEq, Eq, Structural)]
pub enum HandshakeAction {
    /// Send the `Invalid username` line and await a fresh candidate.
    SendInvalid,
    /// Send the `Username is already taken` line and await a fresh candidate.
    SendTaken,
    /// The username was registered; the session may begin.
    Joined,
    /// The connection is gone; close the handler.
    Close,
}

/// What the connection yielded while the session was running.
pub enum SessionEvent {
    /// One line, already stripped of its terminator.
    Line(Vec<u8>),
    /// The peer closed the stream.
    EndOfStream,
    /// Reading failed fatally.
    ReadError,
}

/// What the shell must do after a session step.
pub enum SessionAction {
    /// Fan this text out to every other member.
    Broadcast(Vec<u8>),
    /// The session is over; close the handler.
    Close,
}

impl Handler {
    /// A registered handler carries an acceptable username.
    pub open spec fn wf(self) -> bool {
        self.state is Registered ==> valid_username(self.username@)
    }

    /// A fresh handler for an accepted connection.
    pub fn new(conn: u64) -> (h: Handler)
        ensures
            h.wf(),
            h.state is AwaitingUsername,
            h.conn == conn,
            h.candidate@ == Seq::<u8>::empty(),
    {
        Handler {
            state: HandlerState::AwaitingUsername,
            conn,
            candidate: Vec::new(),
            username: Vec::new(),
        }
    }
}

/// One step of the username negotiation.  Arrived bytes are trimmed and
/// appended to the candidate; a candidate that is malformed or already taken
/// is rejected, discarded, and re-requested; an acceptable fresh candidate is
/// registered atomically and the handler becomes `Registered`.  End of
/// stream or a read error closes the handler.
pub fn handshake_step(h: &mut Handler, reg: &mut Registry, event: HandshakeEvent) -> (act:
    HandshakeAction)
    requires
        old(h).state is AwaitingUsername,
        old(reg).wf(),
        !old(reg).has_conn(old(h).conn),
    ensures
        final(h).wf(),
        final(reg).wf(),
        final(h).conn == old(h).conn,
        match event {
            HandshakeEvent::Bytes(chunk) => {
                let c = old(h).candidate@ + trim_spec(chunk@);
                if !valid_username(c) {
                    &&& act is SendInvalid
                    &&& final(h).state is AwaitingUsername
                    &&& final(h).candidate@ == Seq::<u8>::empty()
                    &&& final(reg).entries@ == old(reg).entries@
                } else if old(reg).has_name(c) {
                    &&& act is SendTaken
                    &&& final(h).state is AwaitingUsername
                    &&& final(h).candidate@ == Seq::<u8>::empty()
                    &&& final(reg).entries@ == old(reg).entries@
                } else {
                    &&& act is Joined
                    &&& final(h).state is Registered
                    &&& final(h).username@ == c
                    &&& final(reg).has_name(c)
                    &&& exists|e: Entry|
                        e.name@ == c && e.conn == old(h).conn && final(reg).entries@ == old(
                            reg,
                        ).entries@.push(e)
                }
            },
            _ => {
                &&& act is Close
                &&& final(h).state is Closed
                &&& final(reg).entries@ == old(reg).entries@
            },
        },
{
    match event {
        HandshakeEvent::Bytes(chunk) => {
            accumulate_candidate(&mut h.candidate, &chunk);
            if !validate_username(&h.candidate) {
                h.candidate = Vec::new();
                HandshakeAction::SendInvalid
            } else {
                let name = copy_bytes(&h.candidate);
                match reg.join(name, h.conn) {
                    Ok(()) => {
                        let registered = copy_bytes(&h.candidate);
                        h.username = registered;
                        h.state = HandlerState::Registered;
                        proof {
                            let c = old(h).candidate@ + trim_spec(chunk@);
                            assert(reg.entries@[reg.entries@.len() - 1].name@ == c);
                        }
                        HandshakeAction::Joined
                    },
                    Err(_) => {
                        h.candidate = Vec::new();
                        HandshakeAction::SendTaken
                    },
                }
            }
        },
        _ => {
            h.state = HandlerState::Closed;
            HandshakeAction::Close
        },
    }
}

/// One step of a registered session.  A line that is not the leave token is
/// handed out for broadcast; the leave token, end of stream, or a read error
/// closes the handler.
pub fn registered_step(h: &mut Handler, event: SessionEvent) -> (act: SessionAction)
    requires
        old(h).state is Registered,
        old(h).wf(),
    ensures
        final(h).wf(),
        final(h).conn == old(h).conn,
        final(h).username@ == old(h).username@,
        match event {
            SessionEvent::Line(l) => {
                if l@ == leave_token() {
                    final(h).state is Closed && act is Close
                } else {
                    &&& final(h).state is Registered
                    &&& act matches SessionAction::Broadcast(m) && m@ == l@
                }
            },
            _ => final(h).state is Closed && act is Close,
        },
{
    match event {
        SessionEvent::Line(l) => {
            if is_leave_line(&l) {
                h.state = HandlerState::Closed;
                SessionAction::Close
            } else {
                SessionAction::Broadcast(l)
            }
        },
        _ => {
            h.state = HandlerState::Closed;
            SessionAction::Close
        },
    }
}

/// Unconditional cleanup on every path into `Closed`: whatever led here —
/// a graceful leave, end of stream, or a read error — the handler ends
/// `Closed` and its username is absent from the registry immediately after,
/// while every other member is exactly as registered as before.
pub fn finish_close(h: &mut Handler, reg: &mut Registry)
    requires
        old(reg).wf(),
    ensures
        final(h).state is Closed,
        final(h).username@ == old(h).username@,
        final(reg).wf(),
        !final(reg).has_name(old(h).username@),
        forall|n: Seq<u8>|
            n != old(h).username@ ==> (#[trigger] final(reg).has_name(n) <==> old(
                reg,
            ).has_name(n)),
{
    h.state = HandlerState::Closed;
    reg.leave(&h.username);
}

} // verus!
