//! The per-connection read/dispatch/respond logic.
//!
//! One read event yields at most one decode attempt over the bytes it
//! delivered: a read is never split or reassembled, so a message broken
//! across two reads fails to decode and is dropped. That single-read,
//! single-attempt model is part of the protocol's observable behaviour and
//! is kept as it is.

use vstd::prelude::*;
use crate::codec::{
    add_request_parse, add_request_wire, add_response_wire, decode_client_message, echo_parse,
    echo_wire, encode_add_response, encode_echo, lemma_add_request_round_trip,
    lemma_echo_round_trip,
};
use crate::messages::{AddResponse, ClientMessage, ServerMessage};

verus! {

/// The most bytes one read may deliver: a single reusable buffer of this
/// size, never reassembled across reads.
pub const MAX_READ_BYTES: usize = 1024;

/// How long to sleep before retrying a read that would block.
pub const READ_RETRY_MILLIS: u64 = 10;

/// Two's-complement wraparound sum of two 32-bit integers: the addition
/// semantics of the wire schema's integer width, where overflow silently
/// wraps instead of erroring.
pub open spec fn wrap_add(a: i32, b: i32) -> i32 {
    vstd::wrapping::i32_specs::wrapping_add(a, b)
}

/// Adds two 32-bit integers with silent wraparound on overflow.
pub fn wrapping_sum(a: i32, b: i32) -> (r: i32)
    ensures
        r == wrap_add(a, b),
{
    a.wrapping_add(b)
}

/// Answers one decoded message: an echo comes back with its content
/// unchanged, an add request with the wraparound sum of its two integers.
pub fn handle_message(msg: ClientMessage) -> (r: ServerMessage)
    ensures
        match msg {
            ClientMessage::Echo(m) => r matches ServerMessage::Echo(e) && e.content@
                == m.content@,
            ClientMessage::Add(m) => r matches ServerMessage::Add(e) && e.result
                == wrap_add(m.a, m.b),
        },
{
    match msg {
        ClientMessage::Echo(m) => ServerMessage::Echo(m),
        ClientMessage::Add(m) => ServerMessage::Add(
            AddResponse { result: wrapping_sum(m.a, m.b) },
        ),
    }
}

/// The response bytes owed to one read's bytes: the echoed content for a
/// decodable echo message, the encoded wraparound sum for a decodable add
/// request — echo tried first — and nothing where neither decodes.
pub open spec fn response_wire(s: Seq<u8>) -> Option<Seq<u8>> {
    match echo_parse(s) {
        Some(c) => Some(echo_wire(c)),
        None => match add_request_parse(s) {
            Some((a, b)) => Some(add_response_wire(wrap_add(a, b))),
            None => None,
        },
    }
}

/// Turns the bytes of one read into the encoded response to write back, or
/// `None` where they decode as no known variant and are dropped.
pub fn process_read(data: &[u8]) -> (r: Option<Vec<u8>>)
    ensures
        match r {
            Some(v) => response_wire(data@) == Some(v@),
            None => response_wire(data@) is None,
        },
{
    match decode_client_message(data) {
        Some(msg) => match handle_message(msg) {
            ServerMessage::Echo(e) => Some(encode_echo(&e)),
            ServerMessage::Add(e) => Some(encode_add_response(&e)),
        },
        None => None,
    }
}

/// What one iteration of the read loop observed on the stream.
pub enum ReadEvent {
    /// The peer closed the connection: a read of zero bytes.
    Disconnected,
    /// A read delivered these bytes.
    Data(Vec<u8>),
    /// No data was ready yet; not an error.
    WouldBlock,
    /// Any other I/O error on the stream.
    Failed,
}

/// What the handler loop does next.
pub enum HandlerAction {
    /// Leave the loop as an orderly disconnect.
    Disconnect,
    /// Write these bytes back on the stream, flush, and keep reading.
    Reply(Vec<u8>),
    /// Drop the bytes, log the failure, and keep reading.
    Ignore,
    /// Sleep briefly and retry the read.
    RetryLater,
    /// Leave the loop and surface the error to the caller.
    Abort,
}

/// Decides one iteration of the per-connection loop from what the read
/// observed: orderly disconnect on zero bytes, a reply or a drop for data,
/// a short sleep on would-block, termination on any other error.
pub fn handler_step(ev: ReadEvent) -> (a: HandlerAction)
    ensures
        match ev {
            ReadEvent::Disconnected => a is Disconnect,
            ReadEvent::Data(d) => match response_wire(d@) {
                Some(resp) => a matches HandlerAction::Reply(v) && v@ == resp,
                None => a is Ignore,
            },
            ReadEvent::WouldBlock => a is RetryLater,
            ReadEvent::Failed => a is Abort,
        },
{
    match ev {
        ReadEvent::Disconnected => HandlerAction::Disconnect,
        ReadEvent::Data(d) => match process_read(d.as_slice()) {
            Some(v) => HandlerAction::Reply(v),
            None => HandlerAction::Ignore,
        },
        ReadEvent::WouldBlock => HandlerAction::RetryLater,
        ReadEvent::Failed => HandlerAction::Abort,
    }
}

/// The responses a connection is owed for a sequence of reads, in the order
/// of the reads; a read that decodes as no variant contributes nothing.
pub open spec fn session_responses(reads: Seq<Seq<u8>>) -> Seq<Seq<u8>>
    decreases reads.len(),
{
    if reads.len() == 0 {
        Seq::empty()
    } else {
        match response_wire(reads[0]) {
            Some(resp) => seq![resp] + session_responses(reads.skip(1)),
            None => session_responses(reads.skip(1)),
        }
    }
}

/// Law: a connection that sends well-formed messages gets exactly one
/// response per message, in the order the messages were sent, each the
/// response owed to its own message.
pub proof fn lemma_session_ordered(reads: Seq<Seq<u8>>)
    requires
        forall|i: int| 0 <= i < reads.len() ==> (#[trigger] response_wire(reads[i])) is Some,
    ensures
        session_responses(reads).len() == reads.len(),
        forall|i: int| 0 <= i < reads.len() ==> #[trigger] session_responses(reads)[i]
            == response_wire(reads[i]).unwrap(),
    decreases reads.len(),
{
    if reads.len() > 0 {
        let rest = reads.skip(1);
        assert(forall|i: int| 0 <= i < rest.len() ==> rest[i] == reads[i + 1]);
        lemma_session_ordered(rest);
        assert(forall|i: int| 1 <= i < reads.len() ==> #[trigger] session_responses(reads)[i]
            == session_responses(rest)[i - 1]);
    }
}

/// Runs the compute part of a whole connection in order: one decode attempt
/// and at most one response per read, with reads that decode as no variant
/// dropped.
pub fn run_session(reads: &Vec<Vec<u8>>) -> (resps: Vec<Vec<u8>>)
    ensures
        resps@.map_values(|v: Vec<u8>| v@) == session_responses(
            reads@.map_values(|v: Vec<u8>| v@),
        ),
{
    let ghost target = reads@.map_values(|v: Vec<u8>| v@);
    let mut resps: Vec<Vec<u8>> = Vec::new();
    let mut i: usize = 0;
    while i < reads.len()
        invariant
            i <= reads@.len(),
            target == reads@.map_values(|v: Vec<u8>| v@),
            resps@.map_values(|v: Vec<u8>| v@) == session_responses(target.take(i as int)),
        decreases reads@.len() - i,
    {
        proof {
            lemma_session_snoc(target.take(i as int), target[i as int]);
            assert(target.take(i + 1) =~= target.take(i as int).push(target[i as int]));
        }
        match process_read(reads[i].as_slice()) {
            Some(v) => {
                resps.push(v);
                assert(resps@.map_values(|v: Vec<u8>| v@) =~= session_responses(
                    target.take(i + 1),
                ));
            },
            None => {
                assert(resps@.map_values(|v: Vec<u8>| v@) =~= session_responses(
                    target.take(i + 1),
                ));
            },
        }
        i = i + 1;
    }
    assert(target.take(reads@.len() as int) =~= target);
    resps
}

/// Extending a sequence of reads by one read appends that read's response,
/// if it is owed one.
proof fn lemma_session_snoc(s: Seq<Seq<u8>>, x: Seq<u8>)
    ensures
        session_responses(s.push(x)) == match response_wire(x) {
            Some(resp) => session_responses(s) + seq![resp],
            None => session_responses(s),
        },
    decreases s.len(),
{
    let e = s.push(x);
    if s.len() == 0 {
        assert(e.len() == 1);
        assert(e[0] == x);
        assert(e.skip(1) =~= Seq::<Seq<u8>>::empty());
        assert(session_responses(Seq::<Seq<u8>>::empty()) == Seq::<Seq<u8>>::empty());
        assert(s =~= Seq::<Seq<u8>>::empty());
        match response_wire(x) {
            Some(resp) => {
                assert(session_responses(e) == seq![resp] + session_responses(e.skip(1)));
                assert(session_responses(e) =~~= session_responses(s) + seq![resp]);
            },
            None => {
                assert(session_responses(e) =~~= session_responses(s));
            },
        }
    } else {
        assert(e.len() == s.len() + 1);
        assert(e[0] == s[0]);
        assert(e.skip(1) =~= s.skip(1).push(x));
        lemma_session_snoc(s.skip(1), x);
        match response_wire(x) {
            Some(resp) => {
                assert(session_responses(e) =~~= session_responses(s) + seq![resp]);
            },
            None => {
                assert(session_responses(e) =~~= session_responses(s));
            },
        }
    }
}

/// Law: an echo request with any content round-trips — the response owed to
/// its encoding is that same encoding, so the echoed content is exactly the
/// content sent.
pub proof fn lemma_echo_identity(c: Seq<u8>)
    requires
        c.len() < 0x1_0000_0000_0000_0000,
    ensures
        response_wire(echo_wire(c)) == Some(echo_wire(c)),
{
    lemma_echo_round_trip(c);
}

/// Law: an add request is answered by the encoded wraparound sum of its two
/// integers, overflow included. The one exception is the all-zero request,
/// whose encoding is the empty byte string: that is also a valid echo
/// encoding, and the fixed try-order claims it as an echo first.
pub proof fn lemma_add_wraparound(a: i32, b: i32)
    requires
        !(a == 0 && b == 0),
    ensures
        response_wire(add_request_wire(a, b)) == Some(add_response_wire(wrap_add(a, b))),
{
    let s = add_request_wire(a, b);
    lemma_add_request_round_trip(a, b);
    assert(s.len() > 0);
    assert(s[0] != 0x0a);
    assert(echo_parse(s) is None);
}

} // verus!
