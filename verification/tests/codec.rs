use streamed_data_protocol::codec::{
    encode_frame, read_frame, write_frame, DecodeError, Stream, MAX_FRAME_SIZE,
};
use streamed_data_protocol::messages::{
    BlockHeader, BlockId, Fin, GetBlocks, GetBlocksResponse, Response,
};
use streamed_data_protocol::schema::Schema;
use streamed_data_protocol::varint::{decode_varint, encode_varint, VarintError};

fn varint_bytes(n: u64) -> Vec<u8> {
    let mut out: Vec<u8> = Vec::new();
    encode_varint(n, &mut out);
    out
}

#[test]
fn varint_round_trip_edges() {
    for value in [0u64, 1, 127, 128, 300, 16384, u64::MAX] {
        let bytes = varint_bytes(value);
        let (decoded, end) = decode_varint(&bytes, 0).unwrap();
        assert_eq!(decoded, value);
        assert_eq!(end, bytes.len());
    }
}

#[test]
fn varint_exact_bytes() {
    assert_eq!(varint_bytes(0), vec![0x00]);
    assert_eq!(varint_bytes(127), vec![0x7f]);
    assert_eq!(varint_bytes(128), vec![0x80, 0x01]);
    assert_eq!(varint_bytes(300), vec![0xac, 0x02]);
}

#[test]
fn varint_truncated_is_incomplete() {
    let mut bytes = varint_bytes(u64::MAX);
    bytes.pop();
    assert_eq!(decode_varint(&bytes, 0), Err(VarintError::Incomplete));
    assert_eq!(decode_varint(&Vec::new(), 0), Err(VarintError::Incomplete));
}

#[test]
fn varint_too_wide_is_overflow() {
    // 2 * 128^9 == 2^64, one past the largest encodable value.
    let mut bytes = vec![0x80u8; 9];
    bytes.push(0x02);
    assert_eq!(decode_varint(&bytes, 0), Err(VarintError::Overflow));
}

#[test]
fn query_schema_round_trip() {
    for query in [
        GetBlocks { from_block: 0, count: 0 },
        GetBlocks { from_block: 5, count: 9 },
        GetBlocks { from_block: u64::MAX, count: 1 },
    ] {
        let bytes = query.encode();
        assert_eq!(GetBlocks::decode(&bytes), Ok(query));
    }
}

#[test]
fn response_schema_round_trip() {
    let values = [
        GetBlocksResponse { response: None },
        GetBlocksResponse { response: Some(Response::Fin(Fin {})) },
        GetBlocksResponse {
            response: Some(Response::Header(BlockHeader { parent_block: None })),
        },
        GetBlocksResponse {
            response: Some(Response::Header(BlockHeader {
                parent_block: Some(BlockId { hash: None, height: 1 }),
            })),
        },
        GetBlocksResponse {
            response: Some(Response::Header(BlockHeader {
                parent_block: Some(BlockId { hash: Some(0xabcd), height: u64::MAX }),
            })),
        },
    ];
    for value in values {
        let bytes = value.encode();
        assert_eq!(GetBlocksResponse::decode(&bytes), Ok(value));
    }
}

#[test]
fn malformed_payloads_are_rejected() {
    // Empty payload.
    assert!(GetBlocksResponse::decode(&Vec::new()).is_err());
    // Unknown tag.
    assert!(GetBlocksResponse::decode(&vec![9u8]).is_err());
    // Trailing byte after a complete value.
    assert!(GetBlocksResponse::decode(&vec![1u8, 0u8]).is_err());
    // Tag that demands a height, with none following.
    assert!(GetBlocksResponse::decode(&vec![3u8]).is_err());
    // Query with only one of its two fields.
    assert!(GetBlocks::decode(&vec![5u8]).is_err());
}

#[test]
fn frame_exact_bytes() {
    // Payload `varint(1) || varint(2)`, two bytes, so the frame is `2 1 2`.
    let frame = encode_frame(&GetBlocks { from_block: 1, count: 2 });
    assert_eq!(frame, vec![2u8, 1u8, 2u8]);
}

#[test]
fn frame_round_trip_through_stream() {
    let query = GetBlocks { from_block: 11, count: 4 };
    let mut writer = Stream::new(Vec::new());
    write_frame(&query, &mut writer).unwrap();
    let mut reader = Stream::new(writer.into_sent());
    let read: GetBlocks = read_frame(&mut reader).unwrap();
    assert_eq!(read, query);
    assert_eq!(reader.remaining_len(), 0);
}

#[test]
fn declared_length_without_payload_is_truncated() {
    // A non-zero length claim, then the stream closes: the read must fail,
    // not hang and not hand back a default value.
    let mut reader = Stream::new(varint_bytes(10));
    let r: Result<GetBlocksResponse, DecodeError> = read_frame(&mut reader);
    assert_eq!(r, Err(DecodeError::Truncated));
}

#[test]
fn empty_stream_is_truncated() {
    let mut reader = Stream::new(Vec::new());
    let r: Result<GetBlocksResponse, DecodeError> = read_frame(&mut reader);
    assert_eq!(r, Err(DecodeError::Truncated));
}

#[test]
fn partial_payload_is_truncated() {
    // Length 2 declared, one payload byte sent, then the close.
    let mut bytes = varint_bytes(2);
    bytes.push(3u8);
    let mut reader = Stream::new(bytes);
    let r: Result<GetBlocksResponse, DecodeError> = read_frame(&mut reader);
    assert_eq!(r, Err(DecodeError::Truncated));
}

#[test]
fn oversized_length_claim_is_refused() {
    // One past the maximum: refused before any payload is read.
    let mut reader = Stream::new(varint_bytes(MAX_FRAME_SIZE + 1));
    let r: Result<GetBlocksResponse, DecodeError> = read_frame(&mut reader);
    assert_eq!(r, Err(DecodeError::FrameTooLarge));

    // A length claim wider than 64 bits is refused the same way.
    let mut wide = vec![0x80u8; 9];
    wide.push(0x02);
    let mut reader = Stream::new(wide);
    let r: Result<GetBlocksResponse, DecodeError> = read_frame(&mut reader);
    assert_eq!(r, Err(DecodeError::FrameTooLarge));
}

#[test]
fn garbage_payload_is_invalid() {
    // A well-framed payload that no schema value encodes to.
    let mut bytes = varint_bytes(1);
    bytes.push(9u8);
    let mut reader = Stream::new(bytes);
    let r: Result<GetBlocksResponse, DecodeError> = read_frame(&mut reader);
    assert_eq!(r, Err(DecodeError::InvalidPayload));
}

#[test]
fn failed_read_leaves_stream_position() {
    let mut bytes = varint_bytes(10);
    bytes.push(1u8);
    let mut reader = Stream::new(bytes);
    let before = reader.remaining_len();
    let r: Result<GetBlocksResponse, DecodeError> = read_frame(&mut reader);
    assert!(r.is_err());
    assert_eq!(reader.remaining_len(), before);
}
