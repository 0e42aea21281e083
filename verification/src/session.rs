//! Command-session logic: the next-request-id counter (ids start at 1 and
//! grow by exactly 1 per request, never reused and never reset), the framing
//! of the next request, the one-shot resend-on-timeout policy applied to a
//! framed read, and the trimming of a framed response line.

use crate::wire::{Message, MessageVal, Param, wire_bytes};
use vstd::prelude::*;

verus! {

/// Read and write timeout on the established connection, in milliseconds.
pub const IO_TIMEOUT_MS: u64 = 200;

/// The next-request-id counter of one command session. The ghost sequence
/// records every id the session has issued.
pub struct RequestIds {
    next: u16,
    issued: Ghost<Seq<u16>>,
}

impl RequestIds {
    /// All ids issued so far, in order.
    pub closed spec fn issued(self) -> Seq<u16> {
        self.issued@
    }

    /// The id the next request will carry.
    pub closed spec fn next_id(self) -> u16 {
        self.next
    }

    /// Ids start at 1 and the id issued at position `i` is `i + 1`.
    pub open spec fn wf(self) -> bool {
        &&& self.next_id() == self.issued().len() + 1
        &&& forall|i: int| 0 <= i < self.issued().len() ==> self.issued()[i] == i + 1
    }

    /// The current counter value, for callers that must check the counter
    /// has room before asking for a fresh id.
    pub fn peek(&self) -> (r: u16)
        ensures
            r == self.next_id(),
    {
        self.next
    }

    pub fn new() -> (r: RequestIds)
        ensures
            r.wf(),
            r.issued() == Seq::<u16>::empty(),
            r.next_id() == 1,
    {
        RequestIds { next: 1, issued: Ghost(Seq::empty()) }
    }

    /// Issues the next request id: the current counter value, after which
    /// the counter grows by one.
    pub fn fresh(&mut self) -> (id: u16)
        requires
            old(self).wf(),
            old(self).next_id() < 0xFFFF,
        ensures
            final(self).wf(),
            id == old(self).next_id(),
            final(self).next_id() == old(self).next_id() + 1,
            final(self).issued() == old(self).issued().push(id),
    {
        let id = self.next;
        self.next = self.next + 1;
        proof {
            self.issued@ = self.issued@.push(id);
        }
        id
    }

    /// Builds the next request and its framed wire bytes: the message takes
    /// the freshly issued id, and the bytes are its single JSON line with
    /// the CRLF terminator.
    pub fn next_request(&mut self, method: String, params: Vec<Param>) -> (r: (Message, Vec<u8>))
        requires
            old(self).wf(),
            old(self).next_id() < 0xFFFF,
        ensures
            final(self).wf(),
            final(self).next_id() == old(self).next_id() + 1,
            final(self).issued() == old(self).issued().push(old(self).next_id()),
            r.0@ == (MessageVal {
                id: old(self).next_id(),
                method: method@,
                params: params@.map_values(|p: Param| p@),
            }),
            r.1@ == wire_bytes(r.0@),
    {
        let id = self.fresh();
        let msg = Message::new(id, method, params);
        let bytes = crate::wire::encode_message(&msg);
        (msg, bytes)
    }
}

/// The ids a session issues are exactly 1, 2, 3, ...: strictly increasing
/// by 1 starting at 1, however many requests are sent.
pub proof fn lemma_ids_strictly_increasing(s: RequestIds)
    requires
        s.wf(),
    ensures
        forall|i: int| 0 <= i < s.issued().len() ==> s.issued()[i] == i + 1,
        forall|i: int, j: int| 0 <= i < j < s.issued().len() ==> s.issued()[i] < s.issued()[j],
        s.issued().len() > 0 ==> s.issued()[0] == 1,
{
}

pub open spec fn is_ws_byte(b: u8) -> bool {
    b == 32 || b == 9 || b == 10 || b == 13
}

/// The line with its trailing ASCII whitespace (space, tab, CR, LF)
/// removed.
pub open spec fn trim_ws(s: Seq<u8>) -> Seq<u8>
    decreases s.len(),
{
    if s.len() > 0 && is_ws_byte(s.last()) {
        trim_ws(s.drop_last())
    } else {
        s
    }
}

fn is_ws(b: u8) -> (r: bool)
    ensures
        r == is_ws_byte(b),
{
    b == 32 || b == 9 || b == 10 || b == 13
}

/// Removes the trailing whitespace (the line terminator included) from a
/// framed response line.
pub fn trim_line(line: &Vec<u8>) -> (r: Vec<u8>)
    ensures
        r@ == trim_ws(line@),
{
    let mut end = line.len();
    proof {
        assert(line@.subrange(0, line@.len() as int) =~= line@);
    }
    while end > 0 && is_ws(line[end - 1])
        invariant
            0 <= end <= line.len(),
            trim_ws(line@) == trim_ws(line@.subrange(0, end as int)),
        decreases end,
    {
        proof {
            assert(line@.subrange(0, end as int).drop_last() =~= line@.subrange(0, end - 1 as int));
        }
        end = end - 1;
    }
    proof {
        assert(trim_ws(line@.subrange(0, end as int)) == line@.subrange(0, end as int));
    }
    let mut r: Vec<u8> = Vec::new();
    let mut i: usize = 0;
    while i < end
        invariant
            0 <= i <= end <= line.len(),
            r@ =~= line@.subrange(0, i as int),
        decreases end - i,
    {
        r.push(line[i]);
        i += 1;
    }
    proof {
        assert(r@ =~= line@.subrange(0, end as int));
    }
    r
}

/// Outcome of one framed read attempt, as the transport reports it: a full
/// line, a read timeout with no bytes, or any other I/O failure.
#[derive(Debug)]
pub enum ReadEvent {
    Line(Vec<u8>),
    TimedOut,
    Failed,
}

/// Mathematical value of a [`ReadEvent`].
#[verifier::ext_equal]
pub ghost enum ReadEventVal {
    Line(Seq<u8>),
    TimedOut,
    Failed,
}

impl View for ReadEvent {
    type V = ReadEventVal;

    open spec fn view(&self) -> ReadEventVal {
        match self {
            ReadEvent::Line(l) => ReadEventVal::Line(l@),
            ReadEvent::TimedOut => ReadEventVal::TimedOut,
            ReadEvent::Failed => ReadEventVal::Failed,
        }
    }
}

/// What the session does next after a read attempt.
#[derive(Clone, Copy, PartialEq, Eq, Structural, Debug)]
pub enum SendDecision {
    /// The line is the response: trim it and return it.
    Accept,
    /// The read timed out: write the identical request bytes once more and
    /// read once more.
    Resend,
    /// Surface the failure; nothing is retried.
    GiveUp,
}

/// Decision after the first read of a request's response: a timeout is a
/// transient stall answered by exactly one resend; any other failure is
/// surfaced at once.
pub open spec fn spec_decide_first(ev: ReadEventVal) -> SendDecision {
    match ev {
        ReadEventVal::Line(_) => SendDecision::Accept,
        ReadEventVal::TimedOut => SendDecision::Resend,
        ReadEventVal::Failed => SendDecision::GiveUp,
    }
}

/// Decision after the read that follows the single resend: any failure,
/// timeout included, is surfaced; there is never a second resend.
pub open spec fn spec_decide_second(ev: ReadEventVal) -> SendDecision {
    match ev {
        ReadEventVal::Line(_) => SendDecision::Accept,
        ReadEventVal::TimedOut => SendDecision::GiveUp,
        ReadEventVal::Failed => SendDecision::GiveUp,
    }
}

pub fn decide_first(ev: &ReadEvent) -> (d: SendDecision)
    ensures
        d == spec_decide_first(ev@),
        d == SendDecision::Accept <==> ev@ is Line,
        d == SendDecision::Resend <==> ev@ is TimedOut,
        d == SendDecision::GiveUp <==> ev@ is Failed,
{
    match ev {
        ReadEvent::Line(_) => SendDecision::Accept,
        ReadEvent::TimedOut => SendDecision::Resend,
        ReadEvent::Failed => SendDecision::GiveUp,
    }
}

pub fn decide_second(ev: &ReadEvent) -> (d: SendDecision)
    ensures
        d == spec_decide_second(ev@),
        d == SendDecision::Accept <==> ev@ is Line,
        d != SendDecision::Resend,
{
    match ev {
        ReadEvent::Line(_) => SendDecision::Accept,
        ReadEvent::TimedOut => SendDecision::GiveUp,
        ReadEvent::Failed => SendDecision::GiveUp,
    }
}

/// How often the request bytes go onto the wire for one command, given the
/// first read's outcome: once, plus once more only after a timeout.
pub open spec fn spec_send_writes(first: ReadEventVal) -> int {
    if spec_decide_first(first) == SendDecision::Resend {
        2
    } else {
        1
    }
}

/// The response a command yields, given the outcomes of the first read and
/// (if the first timed out) the read after the resend; `None` is a surfaced
/// failure.
pub open spec fn spec_send_outcome(first: ReadEventVal, second: ReadEventVal) -> Option<Seq<u8>> {
    match first {
        ReadEventVal::Line(l) => Some(trim_ws(l)),
        ReadEventVal::Failed => None,
        ReadEventVal::TimedOut => match second {
            ReadEventVal::Line(l) => Some(trim_ws(l)),
            ReadEventVal::TimedOut => None,
            ReadEventVal::Failed => None,
        },
    }
}

/// A read that stalls exactly once and then succeeds yields the eventual
/// response without an error, and the request bytes are written exactly
/// twice: the original send and the single resend, never a third copy.
pub proof fn lemma_single_stall_recovers(l: Seq<u8>)
    ensures
        spec_send_outcome(ReadEventVal::TimedOut, ReadEventVal::Line(l)) == Some(trim_ws(l)),
        spec_send_writes(ReadEventVal::TimedOut) == 2,
{
}

/// Every sent request is written at most twice: at most one read attempt
/// plus at most one resend-and-read attempt, whatever the outcomes.
pub proof fn lemma_at_most_one_resend(first: ReadEventVal)
    ensures
        1 <= spec_send_writes(first) <= 2,
{
}

} // verus!
