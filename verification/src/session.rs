//! The client's single-threaded session state and its dispatch decisions.
//!
//! The client suspends only inside a readiness wait; everything it does on a
//! wake-up is decided here, over plain values.  The session tracks one
//! outbound frame and how much of it has been flushed, so a write that
//! accepts only a prefix is resumed on the next opportunity without
//! duplicating or dropping a byte.  The handshake frame is staged exactly
//! once, on the first writable readiness.  Local input is parsed into the
//! `send <text>` and `leave` commands.  Every socket-read outcome maps to
//! exactly one action, and the only action that makes no progress answers a
//! would-block outcome — the loop around these functions acts only when the
//! readiness source reports it can.

use vstd::prelude::*;

use crate::protocol::extend_bytes;
use crate::protocol::handshake_spec;
use crate::protocol::trim_bytes;
use crate::protocol::trim_spec;

verus! {

/// The class of an I/O error, as far as the event loop cares: a would-block
/// report means "no data right now" and is never a failure.
#[derive(Clone, Copy, Debug, PartialEq, Eq, Structural)]
pub enum IoErrorKind {
    /// The operation would have had to wait; retry on the next readiness.
    WouldBlock,
    /// Any other error; fatal for the session.
    Other,
}

/// Is this error the recoverable would-block class?
pub fn would_block(err: &IoErrorKind) -> (r: bool)
    ensures
        r == (err is WouldBlock),
{
    match err {
        IoErrorKind::WouldBlock => true,
        IoErrorKind::Other => false,
    }
}

/// The client's session state: the current outbound frame, how many of its
/// bytes have already been accepted by the socket, and whether the handshake
/// frame has been staged.
pub struct ClientSession {
    pub outbound: Vec<u8>,
    pub bytes_written: usize,
    pub handshake_sent: bool,
}

impl ClientSession {
    /// The flush cursor never passes the end of the frame.
    pub open spec fn wf(self) -> bool {
        self.bytes_written <= self.outbound@.len()
    }

    /// The bytes of the current frame still owed to the socket.
    pub open spec fn pending(self) -> Seq<u8> {
        self.outbound@.skip(self.bytes_written as int)
    }

    /// A fresh session: nothing staged, handshake not sent.
    pub fn new() -> (s: ClientSession)
        ensures
            s.wf(),
            !s.handshake_sent,
            s.outbound@ == Seq::<u8>::empty(),
            s.bytes_written == 0,
    {
        ClientSession { outbound: Vec::new(), bytes_written: 0, handshake_sent: false }
    }

    /// Stage `<text>\n` as the outbound frame, replacing whatever was there,
    /// and rewind the flush cursor to its start.
    pub fn stage_message(&mut self, text: &Vec<u8>)
        ensures
            final(self).wf(),
            final(self).handshake_sent == old(self).handshake_sent,
            final(self).outbound@ == text@ + seq![10u8],
            final(self).bytes_written == 0,
            final(self).pending() == text@ + seq![10u8],
    {
        self.outbound.clear();
        extend_bytes(&mut self.outbound, text);
        self.outbound.push(10);
        self.bytes_written = 0;
        proof {
            assert(self.outbound@ =~= text@ + seq![10u8]);
            assert(self.pending() =~= self.outbound@);
        }
    }

    /// Record that the socket accepted `n` bytes of the pending suffix.  The
    /// accepted prefix followed by the new pending suffix is exactly the old
    /// pending suffix — nothing is duplicated, nothing is dropped — and a
    /// write that accepted everything clears the frame.
    pub fn apply_write_result(&mut self, n: usize)
        requires
            old(self).wf(),
            n <= old(self).pending().len(),
        ensures
            final(self).wf(),
            final(self).handshake_sent == old(self).handshake_sent,
            final(self).pending() == old(self).pending().skip(n as int),
            old(self).pending() == old(self).pending().take(n as int) + final(self).pending(),
            n == old(self).pending().len() ==> final(self).outbound@.len() == 0
                && final(self).pending().len() == 0,
    {
        let total = self.outbound.len();
        proof {
            assert(old(self).pending().len() == total - old(self).bytes_written);
        }
        let written = self.bytes_written + n;
        if written == total {
            self.outbound.clear();
            self.bytes_written = 0;
        } else {
            self.bytes_written = written;
        }
        proof {
            let op = old(self).pending();
            assert(self.pending() =~= op.skip(n as int));
            assert(op =~= op.take(n as int) + op.skip(n as int));
        }
    }

    /// Stage the handshake frame `<username>\n` on the first writable
    /// readiness and never again: the latch guarantees exactly-once staging,
    /// and the pending-frame machinery retries it until fully flushed.
    pub fn handshake_on_writable(&mut self, username: &Vec<u8>) -> (staged: bool)
        requires
            old(self).wf(),
        ensures
            final(self).wf(),
            final(self).handshake_sent,
            old(self).handshake_sent ==> !staged && *final(self) == *old(self),
            !old(self).handshake_sent ==> staged && final(self).outbound@ == handshake_spec(
                username@,
            ) && final(self).bytes_written == 0,
    {
        if self.handshake_sent {
            return false;
        }
        self.outbound.clear();
        extend_bytes(&mut self.outbound, username);
        self.outbound.push(10);
        self.bytes_written = 0;
        self.handshake_sent = true;
        proof {
            assert(self.outbound@ =~= handshake_spec(username@));
        }
        true
    }
}

/// What one socket read yielded, as the shell reports it.
pub enum ReadOutcome {
    /// A zero-length read: the peer closed the stream.
    Eof,
    /// These bytes arrived.
    Data(Vec<u8>),
    /// Nothing available right now.
    WouldBlock,
    /// A fatal read error.
    Fatal,
}

/// What the event loop must do with a socket read.
pub enum ReadAction {
    /// Show this trimmed line to the user.
    PrintLine(Vec<u8>),
    /// End the session gracefully: closed by peer.
    CloseByPeer,
    /// No data right now; wait for the next readiness.
    NoData,
    /// Surface the error and end the session.
    FailSession,
}

/// Decide what a socket-readable wake-up amounts to.  Every outcome maps to
/// exactly one action, and the only action that makes no progress — waiting
/// again — answers exactly the would-block outcome.
pub fn on_socket_readable(outcome: ReadOutcome) -> (act: ReadAction)
    ensures
        outcome is Eof <==> act is CloseByPeer,
        outcome is WouldBlock <==> act is NoData,
        outcome is Fatal <==> act is FailSession,
        outcome matches ReadOutcome::Data(d) ==> act matches ReadAction::PrintLine(l) && l@
            == trim_spec(d@),
        act is PrintLine ==> outcome is Data,
{
    match outcome {
        ReadOutcome::Eof => ReadAction::CloseByPeer,
        ReadOutcome::Data(d) => ReadAction::PrintLine(trim_bytes(&d)),
        ReadOutcome::WouldBlock => ReadAction::NoData,
        ReadOutcome::Fatal => ReadAction::FailSession,
    }
}

/// The local command prefix `send ` (with its trailing space).
pub open spec fn send_prefix() -> Seq<u8> {
    seq![115u8, 101u8, 110u8, 100u8, 32u8]
}

/// The local command word `leave`.
pub open spec fn client_leave_word() -> Seq<u8> {
    seq![108u8, 101u8, 97u8, 118u8, 101u8]
}

/// Does the line begin with the `send ` prefix?
pub open spec fn starts_with_send(line: Seq<u8>) -> bool {
    line.len() >= 5 && line.take(5) == send_prefix()
}

/// Exec mirror of [`starts_with_send`].
pub fn has_send_prefix(line: &Vec<u8>) -> (r: bool)
    ensures
        r == starts_with_send(line@),
{
    if line.len() < 5 {
        return false;
    }
    let r = line[0] == 115 && line[1] == 101 && line[2] == 110 && line[3] == 100 && line[4] == 32;
    proof {
        if r {
            assert(line@.take(5) =~= send_prefix());
        } else {
            if line@.take(5) == send_prefix() {
                assert(line@[0] == line@.take(5)[0]);
                assert(line@[1] == line@.take(5)[1]);
                assert(line@[2] == line@.take(5)[2]);
                assert(line@[3] == line@.take(5)[3]);
                assert(line@[4] == line@.take(5)[4]);
            }
        }
    }
    r
}

/// Does `line` consist of exactly the word `leave`?
pub fn is_client_leave(line: &Vec<u8>) -> (r: bool)
    ensures
        r == (line@ == client_leave_word()),
{
    if line.len() != 5 {
        return false;
    }
    let r = line[0] == 108 && line[1] == 101 && line[2] == 97 && line[3] == 118 && line[4] == 101;
    proof {
        if r {
            assert(line@ =~= client_leave_word());
        }
    }
    r
}

/// One parsed line of local input.
pub enum Command {
    /// `send <text>`: stage `<text>` for the peer.
    Send(Vec<u8>),
    /// `leave`: end the session gracefully.
    Leave,
    /// Anything else: worth a usage hint, nothing more.
    Unknown,
}

/// Parse one trimmed line of local input.  A line beginning with `send ` is
/// a send of everything after the prefix; the exact word `leave` is the
/// leave command; every other line is unknown.
pub fn parse_command(line: &Vec<u8>) -> (c: Command)
    ensures
        starts_with_send(line@) ==> (c matches Command::Send(t) && t@ == line@.skip(5)),
        !starts_with_send(line@) && line@ == client_leave_word() ==> c is Leave,
        !starts_with_send(line@) && line@ != client_leave_word() ==> c is Unknown,
{
    if has_send_prefix(line) {
        let mut t: Vec<u8> = Vec::new();
        let mut i: usize = 5;
        while i < line.len()
            invariant
                5 <= i <= line@.len(),
                t@ == line@.subrange(5, i as int),
            decreases line@.len() - i,
        {
            t.push(line[i]);
            proof {
                assert(line@.subrange(5, i + 1) =~= line@.subrange(5, i as int).push(
                    line@[i as int],
                ));
            }
            i = i + 1;
        }
        proof {
            assert(t@ =~= line@.skip(5));
        }
        Command::Send(t)
    } else if is_client_leave(line) {
        Command::Leave
    } else {
        Command::Unknown
    }
}

/// What the event loop must do with a line of local input.
#[derive(Clone, Copy, Debug, PartialEq, Eq, Structural)]
pub enum InputAction {
    /// A frame was staged; attempt to write it now.
    WriteNow,
    /// The user asked to leave; end the session gracefully.
    ExitGracefully,
    /// Show the usage hint; nothing was staged.
    ShowUsage,
}

/// The input processor: parse one trimmed line of local input and apply it
/// to the session.  `send <text>` stages `<text>\n` and asks for an
/// immediate write attempt; `leave` asks for a graceful exit; anything else
/// asks for a usage hint.  Only a send touches the session.
pub fn process_input(s: &mut ClientSession, line: &Vec<u8>) -> (act: InputAction)
    requires
        old(s).wf(),
    ensures
        final(s).wf(),
        final(s).handshake_sent == old(s).handshake_sent,
        starts_with_send(line@) ==> act is WriteNow && final(s).outbound@ == line@.skip(5)
            + seq![10u8] && final(s).bytes_written == 0,
        !starts_with_send(line@) && line@ == client_leave_word() ==> act is ExitGracefully
            && *final(s) == *old(s),
        !starts_with_send(line@) && line@ != client_leave_word() ==> act is ShowUsage && *final(s)
            == *old(s),
{
    match parse_command(line) {
        Command::Send(t) => {
            s.stage_message(&t);
            InputAction::WriteNow
        },
        Command::Leave => InputAction::ExitGracefully,
        Command::Unknown => InputAction::ShowUsage,
    }
}

/// Partial-write resumption: if a write accepts only the first `k` bytes of
/// a frame, the accepted prefix followed by the remaining suffix reassembles
/// exactly the original frame — a retry with the suffix completes it without
/// duplicating or dropping a byte.
pub proof fn lemma_partial_write_resumption(frame: Seq<u8>, k: int)
    requires
        0 <= k <= frame.len(),
    ensures
        frame.take(k) + frame.skip(k) == frame,
{
    assert(frame.take(k) + frame.skip(k) =~= frame);
}

/// How many bytes a run of writes accepted in total.
pub open spec fn total_accepted(counts: Seq<int>) -> int
    decreases counts.len(),
{
    if counts.len() == 0 {
        0
    } else {
        total_accepted(counts.drop_last()) + counts.last()
    }
}

/// The bytes the peer receives from a run of writes against `frame`: each
/// write accepts the next `counts[i]` bytes of the remaining suffix.
pub open spec fn received(frame: Seq<u8>, counts: Seq<int>) -> Seq<u8>
    decreases counts.len(),
{
    if counts.len() == 0 {
        Seq::empty()
    } else {
        received(frame, counts.drop_last()) + frame.subrange(
            total_accepted(counts.drop_last()),
            total_accepted(counts),
        )
    }
}

/// Any run of writes receives exactly the accepted prefix of the frame.
pub proof fn lemma_received_is_prefix(frame: Seq<u8>, counts: Seq<int>)
    requires
        forall|i: int| 0 <= i < counts.len() ==> counts[i] >= 0,
        total_accepted(counts) <= frame.len(),
    ensures
        total_accepted(counts) >= 0,
        received(frame, counts) == frame.take(total_accepted(counts)),
    decreases counts.len(),
{
    if counts.len() == 0 {
        assert(received(frame, counts) =~= frame.take(0));
    } else {
        let head = counts.drop_last();
        assert(forall|i: int| 0 <= i < head.len() ==> head[i] == counts[i]);
        lemma_received_is_prefix(frame, head);
        assert(frame.take(total_accepted(head)) + frame.subrange(
            total_accepted(head),
            total_accepted(counts),
        ) =~= frame.take(total_accepted(counts)));
    }
}

/// Partial-write resumption, for a whole run: however a frame's flush is
/// split into successive writes — each accepting some of the remaining
/// bytes — once the accepted counts add up to the frame's length, the peer
/// has received exactly the frame, with no byte duplicated or dropped.
pub proof fn lemma_resumed_writes_deliver_frame(frame: Seq<u8>, counts: Seq<int>)
    requires
        forall|i: int| 0 <= i < counts.len() ==> counts[i] >= 0,
        total_accepted(counts) == frame.len(),
    ensures
        received(frame, counts) == frame,
{
    lemma_received_is_prefix(frame, counts);
    assert(frame.take(frame.len() as int) =~= frame);
}

} // verus!
