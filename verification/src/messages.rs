//! Concrete message schemas for the block-exchange instantiation of the
//! protocol: a `GetBlocks` query and a `GetBlocksResponse` tagged union whose
//! terminal `Fin` variant ends a response sequence.

use vstd::prelude::*;

use crate::schema::{ResponseSchema, Schema, SchemaError};
use crate::varint::{
    decode_varint, encode_varint, lemma_varint_round_trip, varint_decoding, varint_encoding,
};

verus! {

/// A reference to a block: an optional hash and a height.
#[derive(Clone, Copy, PartialEq, Eq, Structural, Debug)]
pub struct BlockId {
    pub hash: Option<u64>,
    pub height: u64,
}

/// A block header, here reduced to the block it extends.
#[derive(Clone, Copy, PartialEq, Eq, Structural, Debug)]
pub struct BlockHeader {
    pub parent_block: Option<BlockId>,
}

/// The terminal sentinel: carries no payload.
#[derive(Clone, Copy, PartialEq, Eq, Structural, Debug)]
pub struct Fin {}

/// The payload of one response frame.
#[derive(Clone, Copy, PartialEq, Eq, Structural, Debug)]
pub enum Response {
    Header(BlockHeader),
    Fin(Fin),
}

/// One response frame: a tagged union that always includes the terminal
/// `Fin` variant beside the payload-carrying ones.
#[derive(Clone, Copy, PartialEq, Eq, Structural, Debug)]
pub struct GetBlocksResponse {
    pub response: Option<Response>,
}

/// The query: ask for `count` blocks starting at `from_block`.
#[derive(Clone, Copy, PartialEq, Eq, Structural, Debug)]
pub struct GetBlocks {
    pub from_block: u64,
    pub count: u64,
}

impl Default for GetBlocks {
    fn default() -> (r: Self)
        ensures
            r == (GetBlocks { from_block: 0, count: 0 }),
    {
        GetBlocks { from_block: 0, count: 0 }
    }
}

impl Schema for GetBlocks {
    open spec fn wf(self) -> bool {
        true
    }

    open spec fn spec_encode(self) -> Seq<u8> {
        varint_encoding(self.from_block) + varint_encoding(self.count)
    }

    open spec fn spec_decode(s: Seq<u8>) -> Option<Self> {
        match varint_decoding(s) {
            None => None,
            Some((v1, k1)) => if v1 > u64::MAX {
                None
            } else {
                match varint_decoding(s.skip(k1)) {
                    None => None,
                    Some((v2, k2)) => if v2 > u64::MAX || k1 + k2 != s.len() {
                        None
                    } else {
                        Some(GetBlocks { from_block: v1 as u64, count: v2 as u64 })
                    },
                }
            },
        }
    }

    fn encode(&self) -> (r: Vec<u8>) {
        let mut r: Vec<u8> = Vec::new();
        encode_varint(self.from_block, &mut r);
        encode_varint(self.count, &mut r);
        proof {
            assert(r@ =~= self.spec_encode());
        }
        r
    }

    fn decode(bytes: &Vec<u8>) -> (r: Result<Self, SchemaError>) {
        proof {
            assert(bytes@.skip(0) =~= bytes@);
        }
        let (from_block, mid) = match decode_varint(bytes, 0) {
            Ok(x) => x,
            Err(_) => {
                return Err(SchemaError::Malformed);
            },
        };
        let (count, end) = match decode_varint(bytes, mid) {
            Ok(x) => x,
            Err(_) => {
                return Err(SchemaError::Malformed);
            },
        };
        if end != bytes.len() {
            return Err(SchemaError::Malformed);
        }
        Ok(GetBlocks { from_block, count })
    }

    proof fn lemma_round_trip(self) {
        let e1 = varint_encoding(self.from_block);
        let e2 = varint_encoding(self.count);
        lemma_varint_round_trip(self.from_block, e2);
        lemma_varint_round_trip(self.count, Seq::<u8>::empty());
        assert(e2 + Seq::<u8>::empty() =~= e2);
        assert((e1 + e2).skip(e1.len() as int) =~= e2);
    }
}

impl Schema for GetBlocksResponse {
    open spec fn wf(self) -> bool {
        true
    }

    open spec fn spec_encode(self) -> Seq<u8> {
        match self.response {
            None => seq![0u8],
            Some(Response::Fin(_)) => seq![1u8],
            Some(Response::Header(h)) => match h.parent_block {
                None => seq![2u8],
                Some(id) => match id.hash {
                    None => seq![3u8] + varint_encoding(id.height),
                    Some(hash) => seq![4u8] + varint_encoding(hash) + varint_encoding(id.height),
                },
            },
        }
    }

    open spec fn spec_decode(s: Seq<u8>) -> Option<Self> {
        if s.len() == 0 {
            None
        } else if s[0] == 0 {
            if s.len() == 1 {
                Some(GetBlocksResponse { response: None })
            } else {
                None
            }
        } else if s[0] == 1 {
            if s.len() == 1 {
                Some(GetBlocksResponse { response: Some(Response::Fin(Fin {})) })
            } else {
                None
            }
        } else if s[0] == 2 {
            if s.len() == 1 {
                Some(
                    GetBlocksResponse {
                        response: Some(Response::Header(BlockHeader { parent_block: None })),
                    },
                )
            } else {
                None
            }
        } else if s[0] == 3 {
            match varint_decoding(s.skip(1)) {
                None => None,
                Some((v, k)) => if v > u64::MAX || 1 + k != s.len() {
                    None
                } else {
                    Some(
                        GetBlocksResponse {
                            response: Some(
                                Response::Header(
                                    BlockHeader {
                                        parent_block: Some(
                                            BlockId { hash: None, height: v as u64 },
                                        ),
                                    },
                                ),
                            ),
                        },
                    )
                },
            }
        } else if s[0] == 4 {
            match varint_decoding(s.skip(1)) {
                None => None,
                Some((v1, k1)) => if v1 > u64::MAX {
                    None
                } else {
                    match varint_decoding(s.skip(1 + k1)) {
                        None => None,
                        Some((v2, k2)) => if v2 > u64::MAX || 1 + k1 + k2 != s.len() {
                            None
                        } else {
                            Some(
                                GetBlocksResponse {
                                    response: Some(
                                        Response::Header(
                                            BlockHeader {
                                                parent_block: Some(
                                                    BlockId {
                                                        hash: Some(v1 as u64),
                                                        height: v2 as u64,
                                                    },
                                                ),
                                            },
                                        ),
                                    ),
                                },
                            )
                        },
                    }
                },
            }
        } else {
            None
        }
    }

    fn encode(&self) -> (r: Vec<u8>) {
        let mut r: Vec<u8> = Vec::new();
        match self.response {
            None => {
                r.push(0u8);
            },
            Some(Response::Fin(_)) => {
                r.push(1u8);
            },
            Some(Response::Header(h)) => match h.parent_block {
                None => {
                    r.push(2u8);
                },
                Some(id) => match id.hash {
                    None => {
                        r.push(3u8);
                        encode_varint(id.height, &mut r);
                    },
                    Some(hash) => {
                        r.push(4u8);
                        encode_varint(hash, &mut r);
                        encode_varint(id.height, &mut r);
                    },
                },
            },
        }
        proof {
            assert(r@ =~= self.spec_encode());
        }
        r
    }

    fn decode(bytes: &Vec<u8>) -> (r: Result<Self, SchemaError>) {
        if bytes.len() == 0 {
            return Err(SchemaError::Malformed);
        }
        let tag = bytes[0];
        if tag == 0 || tag == 1 || tag == 2 {
            if bytes.len() != 1 {
                return Err(SchemaError::Malformed);
            }
            if tag == 0 {
                Ok(GetBlocksResponse { response: None })
            } else if tag == 1 {
                Ok(GetBlocksResponse { response: Some(Response::Fin(Fin {})) })
            } else {
                Ok(
                    GetBlocksResponse {
                        response: Some(Response::Header(BlockHeader { parent_block: None })),
                    },
                )
            }
        } else if tag == 3 {
            let (height, end) = match decode_varint(bytes, 1) {
                Ok(x) => x,
                Err(_) => {
                    return Err(SchemaError::Malformed);
                },
            };
            if end != bytes.len() {
                return Err(SchemaError::Malformed);
            }
            Ok(
                GetBlocksResponse {
                    response: Some(
                        Response::Header(
                            BlockHeader { parent_block: Some(BlockId { hash: None, height }) },
                        ),
                    ),
                },
            )
        } else if tag == 4 {
            let (hash, mid) = match decode_varint(bytes, 1) {
                Ok(x) => x,
                Err(_) => {
                    return Err(SchemaError::Malformed);
                },
            };
            let (height, end) = match decode_varint(bytes, mid) {
                Ok(x) => x,
                Err(_) => {
                    proof {
                        assert(bytes@.skip(1).skip(mid - 1) =~= bytes@.skip(mid as int));
                    }
                    return Err(SchemaError::Malformed);
                },
            };
            proof {
                assert(bytes@.skip(1).skip(mid - 1) =~= bytes@.skip(mid as int));
            }
            if end != bytes.len() {
                return Err(SchemaError::Malformed);
            }
            Ok(
                GetBlocksResponse {
                    response: Some(
                        Response::Header(
                            BlockHeader {
                                parent_block: Some(BlockId { hash: Some(hash), height }),
                            },
                        ),
                    ),
                },
            )
        } else {
            Err(SchemaError::Malformed)
        }
    }

    proof fn lemma_round_trip(self) {
        let e = self.spec_encode();
        match self.response {
            None => {},
            Some(Response::Fin(_)) => {},
            Some(Response::Header(h)) => match h.parent_block {
                None => {},
                Some(id) => match id.hash {
                    None => {
                        lemma_varint_round_trip(id.height, Seq::<u8>::empty());
                        assert(varint_encoding(id.height) + Seq::<u8>::empty() =~= varint_encoding(
                            id.height,
                        ));
                        assert(e.skip(1) =~= varint_encoding(id.height));
                    },
                    Some(hash) => {
                        let e1 = varint_encoding(hash);
                        let e2 = varint_encoding(id.height);
                        lemma_varint_round_trip(hash, e2);
                        lemma_varint_round_trip(id.height, Seq::<u8>::empty());
                        assert(e2 + Seq::<u8>::empty() =~= e2);
                        assert(e.skip(1) =~= e1 + e2);
                        assert(e.skip(1 + e1.len() as int) =~= e2);
                    },
                },
            },
        }
    }
}

impl ResponseSchema for GetBlocksResponse {
    open spec fn is_fin(self) -> bool {
        self.response matches Some(Response::Fin(_))
    }

    fn check_fin(&self) -> (r: bool) {
        match self.response {
            Some(Response::Fin(_)) => true,
            _ => false,
        }
    }
}

/// A header response carrying only a parent height, as the responder in the
/// scripted exchange produces them.
pub open spec fn spec_header_response(height: u64) -> GetBlocksResponse {
    GetBlocksResponse {
        response: Some(
            Response::Header(
                BlockHeader { parent_block: Some(BlockId { hash: None, height }) },
            ),
        ),
    }
}

/// The terminal response.
pub open spec fn spec_fin_response() -> GetBlocksResponse {
    GetBlocksResponse { response: Some(Response::Fin(Fin {})) }
}

/// The scripted response sequence of the positive-flow exchange: three
/// headers with increasing heights, then the terminal `Fin`.
pub fn hardcoded_responses() -> (r: Vec<GetBlocksResponse>)
    ensures
        r@ =~= seq![
            spec_header_response(1),
            spec_header_response(2),
            spec_header_response(3),
            spec_fin_response(),
        ],
{
    let mut r: Vec<GetBlocksResponse> = Vec::new();
    r.push(
        GetBlocksResponse {
            response: Some(
                Response::Header(
                    BlockHeader { parent_block: Some(BlockId { hash: None, height: 1 }) },
                ),
            ),
        },
    );
    r.push(
        GetBlocksResponse {
            response: Some(
                Response::Header(
                    BlockHeader { parent_block: Some(BlockId { hash: None, height: 2 }) },
                ),
            ),
        },
    );
    r.push(
        GetBlocksResponse {
            response: Some(
                Response::Header(
                    BlockHeader { parent_block: Some(BlockId { hash: None, height: 3 }) },
                ),
            ),
        },
    );
    r.push(GetBlocksResponse { response: Some(Response::Fin(Fin {})) });
    r
}

} // verus!
