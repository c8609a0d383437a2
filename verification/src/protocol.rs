//! Protocol identity and the two upgrade state machines.
//!
//! The transport negotiates a protocol identifier by exact string equality
//! before a stream reaches this layer. The outbound upgrade then writes the
//! query as one frame and hands the stream back to the caller for reading
//! responses; the inbound upgrade reads exactly one query frame and hands
//! back the decoded query with the stream positioned for writing responses.

use vstd::prelude::*;

use crate::codec::{
    frame_encoding, frame_parse, lemma_frame_round_trip, read_frame, write_frame, DecodeError,
    Stream, MAX_FRAME_SIZE,
};
use crate::schema::Schema;

verus! {

/// The negotiable identifier both ends must share: protocol name and
/// version. Negotiation matches it by exact string equality, so inbound
/// and outbound implementations must always advertise the same value.
pub const PROTOCOL_NAME: &'static str = "/starknet/get_blocks/1";

/// The identifier as a character sequence, for contracts.
pub open spec fn spec_protocol_name() -> Seq<char> {
    PROTOCOL_NAME@
}

/// How an upgrade fails: a transport fault, a malformed or truncated frame
/// from the peer, or no common protocol identifier. A failed upgrade
/// abandons its stream; it holds no state that could outlive it.
#[derive(Clone, Copy, PartialEq, Eq, Structural, Debug)]
pub enum UpgradeError {
    /// The transport failed while the query frame moved.
    Io,
    /// The peer's query frame was truncated, oversized or malformed.
    Decode(DecodeError),
    /// The peers share no protocol identifier.
    Negotiation,
}

/// The initiator-side state machine: holds the query fixed at construction
/// until it is written, exactly once, to the negotiated stream.
pub struct OutboundProtocol<Q> {
    pub query: Q,
}

/// The responder-side state machine: stateless until a negotiated stream
/// arrives carrying the query frame.
pub struct InboundProtocol<Q> {
    marker: core::marker::PhantomData<Q>,
}

impl<Q> OutboundProtocol<Q> {
    /// The ordered identifier set this upgrade advertises to negotiation.
    pub open spec fn spec_protocol_info(self) -> Seq<Seq<char>> {
        seq![spec_protocol_name()]
    }

    /// The identifiers, in negotiation order.
    pub fn protocol_info(&self) -> (r: Vec<&'static str>)
        ensures
            r@.len() == 1,
            r@[0]@ == spec_protocol_name(),
    {
        let mut r: Vec<&'static str> = Vec::new();
        r.push(PROTOCOL_NAME);
        r
    }
}

impl<Q> InboundProtocol<Q> {
    /// A fresh responder-side upgrade, carrying no state.
    pub fn new() -> (r: Self) {
        InboundProtocol { marker: core::marker::PhantomData }
    }

    /// The ordered identifier set this upgrade advertises to negotiation.
    pub open spec fn spec_protocol_info(self) -> Seq<Seq<char>> {
        seq![spec_protocol_name()]
    }

    /// The identifiers, in negotiation order.
    pub fn protocol_info(&self) -> (r: Vec<&'static str>)
        ensures
            r@.len() == 1,
            r@[0]@ == spec_protocol_name(),
    {
        let mut r: Vec<&'static str> = Vec::new();
        r.push(PROTOCOL_NAME);
        r
    }
}

/// Identifier symmetry: for every schema pair, the ordered identifier set
/// of the outbound upgrade equals that of the inbound upgrade, in content
/// and in order — a mismatch would make two compatible peers unable to
/// connect.
pub proof fn lemma_identifier_symmetry<Q>(
    outbound: OutboundProtocol<Q>,
    inbound: InboundProtocol<Q>,
)
    ensures
        outbound.spec_protocol_info() == inbound.spec_protocol_info(),
{
}

impl<Q: Schema> OutboundProtocol<Q> {
    /// Completes the initiator side on a freshly negotiated stream: writes
    /// the query as exactly one frame and returns the same stream, now
    /// owned by the caller and positioned for reading responses. Writing
    /// into the byte-buffer model cannot fail; the unverified transport
    /// edge maps its write faults to [`UpgradeError::Io`].
    pub fn upgrade_outbound(self, stream: Stream, protocol: &str) -> (r: Result<
        Stream,
        UpgradeError,
    >)
        requires
            self.query.wf(),
            stream.wf(),
            protocol@ == spec_protocol_name(),
        ensures
            r matches Ok(s) && s.wf() && s.remaining() == stream.remaining() && s.sent()
                == stream.sent() + frame_encoding(self.query.spec_encode()),
    {
        let mut s = stream;
        match write_frame(&self.query, &mut s) {
            Ok(_) => Ok(s),
            Err(_) => Err(UpgradeError::Io),
        }
    }
}

impl<Q: Schema> InboundProtocol<Q> {
    /// Completes the responder side on a freshly negotiated stream: reads
    /// exactly one frame, decodes it as the query, and returns it paired
    /// with the stream, now owned by the caller and positioned immediately
    /// after the query frame for writing responses. A truncated, oversized
    /// or malformed query frame fails the upgrade without hanging; the
    /// stream is then abandoned.
    pub fn upgrade_inbound(self, stream: Stream, protocol: &str) -> (r: Result<
        (Q, Stream),
        UpgradeError,
    >)
        requires
            stream.wf(),
            protocol@ == spec_protocol_name(),
        ensures
            match r {
                Ok((q, s)) => frame_parse::<Q>(stream.remaining()) matches Ok((w, c)) && w == q
                    && q.wf() && s.wf() && s.remaining() == stream.remaining().skip(c) && s.sent()
                    == stream.sent(),
                Err(e) => frame_parse::<Q>(stream.remaining()) matches Err(de) && e
                    == UpgradeError::Decode(de),
            },
    {
        let mut s = stream;
        match read_frame::<Q>(&mut s) {
            Ok(q) => Ok((q, s)),
            Err(e) => Err(UpgradeError::Decode(e)),
        }
    }
}

/// Negotiation failure is idempotent: an upgrade's outcome is a function of
/// the fresh stream's unread bytes alone, so however many attempts failed
/// on broken streams, an attempt on a stream carrying a well-formed query
/// frame succeeds — failure state never leaks across stream instances.
pub proof fn lemma_failure_does_not_leak_across_streams<Q: Schema>(
    bad: Seq<u8>,
    q: Q,
    rest: Seq<u8>,
)
    requires
        frame_parse::<Q>(bad) is Err,
        q.wf(),
        q.spec_encode().len() <= MAX_FRAME_SIZE,
    ensures
        frame_parse::<Q>(frame_encoding(q.spec_encode()) + rest) == Ok::<(Q, int), DecodeError>(
            (q, frame_encoding(q.spec_encode()).len() as int),
        ),
{
    lemma_frame_round_trip::<Q>(q, rest);
}

} // verus!
