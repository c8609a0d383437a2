//! The schema capability: a message type that can be encoded to and decoded
//! from bytes. The frame codec and both upgrade state machines are written
//! once, generically over any such type.

use vstd::prelude::*;

verus! {

/// A schema-level decoding failure: the payload bytes are not a valid
/// encoding of any value of the schema type.
#[derive(Clone, Copy, PartialEq, Eq, Structural, Debug)]
pub enum SchemaError {
    /// Wrong tag, wrong field encoding, or trailing bytes.
    Malformed,
}

/// A message type with a binary encoding.
///
/// `spec_decode` is strict: it accepts exactly the byte strings that encode
/// a value, with nothing left over. `lemma_round_trip` obliges every
/// implementation to prove that decoding undoes encoding on all
/// well-formed values.
pub trait Schema: Sized {
    /// Which values of the type are valid messages.
    spec fn wf(self) -> bool;

    /// The byte string this value encodes to.
    spec fn spec_encode(self) -> Seq<u8>;

    /// The value `s` decodes to, if `s` is exactly one valid encoding.
    spec fn spec_decode(s: Seq<u8>) -> Option<Self>;

    /// Encodes `self` as bytes.
    fn encode(&self) -> (r: Vec<u8>)
        requires
            self.wf(),
        ensures
            r@ == self.spec_encode(),
    ;

    /// Decodes one value from exactly the whole of `bytes`.
    fn decode(bytes: &Vec<u8>) -> (r: Result<Self, SchemaError>)
        ensures
            match r {
                Ok(v) => Self::spec_decode(bytes@) == Some(v) && v.wf(),
                Err(_) => Self::spec_decode(bytes@) is None,
            },
    ;

    /// Decoding undoes encoding: every well-formed value survives a round
    /// trip through its own binary encoding.
    proof fn lemma_round_trip(self)
        requires
            self.wf(),
        ensures
            Self::spec_decode(self.spec_encode()) == Some(self),
    ;
}

/// A response schema: a closed variant set that designates one terminal
/// variant (`Fin`) signalling the end of a response sequence.
pub trait ResponseSchema: Schema {
    /// Whether this value is the terminal sentinel.
    spec fn is_fin(self) -> bool;

    /// Tests for the terminal sentinel.
    fn check_fin(&self) -> (r: bool)
        ensures
            r == self.is_fin(),
    ;
}

} // verus!
