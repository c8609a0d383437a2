use streamed_data_protocol::codec::{
    read_frame, read_responses, write_frame, write_responses, Stream,
};
use streamed_data_protocol::messages::{
    hardcoded_responses, BlockHeader, BlockId, Fin, GetBlocks, GetBlocksResponse, Response,
};
use streamed_data_protocol::protocol::{
    InboundProtocol, OutboundProtocol, UpgradeError, PROTOCOL_NAME,
};
use streamed_data_protocol::varint::encode_varint;

#[test]
fn both_protocols_have_same_info() {
    let outbound_protocol = OutboundProtocol::<GetBlocks> { query: Default::default() };
    let inbound_protocol = InboundProtocol::<GetBlocks>::new();
    assert_eq!(outbound_protocol.protocol_info(), inbound_protocol.protocol_info());
}

#[test]
fn positive_flow() {
    let query = GetBlocks::default();
    let outbound_protocol = OutboundProtocol { query: query.clone() };
    let inbound_protocol = InboundProtocol::<GetBlocks>::new();

    // The initiator writes its query frame on a fresh negotiated stream.
    let outbound_stream = outbound_protocol
        .upgrade_outbound(Stream::new(Vec::new()), PROTOCOL_NAME)
        .unwrap();

    // The transport carries the bytes to the responder's stream.
    let (received_query, mut responder_stream) = inbound_protocol
        .upgrade_inbound(Stream::new(outbound_stream.into_sent()), PROTOCOL_NAME)
        .unwrap();
    assert_eq!(query, received_query);

    // The responder writes the scripted responses.
    for response in hardcoded_responses() {
        write_frame(&response, &mut responder_stream).unwrap();
    }

    // The transport carries them back; the initiator reads them in order.
    let mut initiator_stream = Stream::new(responder_stream.into_sent());
    for expected_response in hardcoded_responses() {
        let response: GetBlocksResponse = read_frame(&mut initiator_stream).unwrap();
        assert_eq!(response, expected_response);
    }
    assert_eq!(initiator_stream.remaining_len(), 0);
}

#[test]
fn outbound_sends_invalid_request() {
    // The initiator writes only the length of the message; without that many
    // bytes following, the message is invalid.
    let mut bytes: Vec<u8> = Vec::new();
    encode_varint(10, &mut bytes);
    let inbound_protocol = InboundProtocol::<GetBlocks>::new();
    assert!(inbound_protocol
        .upgrade_inbound(Stream::new(bytes), PROTOCOL_NAME)
        .is_err());
}

#[test]
fn truncated_query_reports_decode_truncated() {
    let mut bytes: Vec<u8> = Vec::new();
    encode_varint(10, &mut bytes);
    let inbound_protocol = InboundProtocol::<GetBlocks>::new();
    let err = inbound_protocol
        .upgrade_inbound(Stream::new(bytes), PROTOCOL_NAME)
        .unwrap_err();
    assert_eq!(
        err,
        UpgradeError::Decode(streamed_data_protocol::codec::DecodeError::Truncated)
    );
}

#[test]
fn retry_after_failure_succeeds() {
    // A peer misbehaves: the upgrade on that stream fails.
    let mut bad: Vec<u8> = Vec::new();
    encode_varint(10, &mut bad);
    let first_attempt = InboundProtocol::<GetBlocks>::new();
    assert!(first_attempt
        .upgrade_inbound(Stream::new(bad), PROTOCOL_NAME)
        .is_err());

    // A fresh stream from a well-behaved peer succeeds: no failure state
    // leaked across stream instances.
    let query = GetBlocks { from_block: 7, count: 3 };
    let outbound_stream = OutboundProtocol { query }
        .upgrade_outbound(Stream::new(Vec::new()), PROTOCOL_NAME)
        .unwrap();
    let second_attempt = InboundProtocol::<GetBlocks>::new();
    let (received, _stream) = second_attempt
        .upgrade_inbound(Stream::new(outbound_stream.into_sent()), PROTOCOL_NAME)
        .unwrap();
    assert_eq!(received, query);
}

#[test]
fn unbounded_response_count() {
    // An arbitrary positive number of payload frames before the sentinel.
    let mut responder_stream = Stream::new(Vec::new());
    for i in 0..100u64 {
        let header = GetBlocksResponse {
            response: Some(Response::Header(BlockHeader {
                parent_block: Some(BlockId { hash: None, height: i }),
            })),
        };
        write_frame(&header, &mut responder_stream).unwrap();
    }
    write_frame(
        &GetBlocksResponse { response: Some(Response::Fin(Fin {})) },
        &mut responder_stream,
    ).unwrap();

    // Bytes after the sentinel's frame must never be read.
    let mut bytes = responder_stream.into_sent();
    bytes.push(0xde);
    bytes.push(0xad);
    bytes.push(0xbe);

    let mut reader = Stream::new(bytes);
    let responses = read_responses::<GetBlocksResponse>(&mut reader).unwrap();
    assert_eq!(responses.len(), 101);
    for i in 0..100usize {
        assert_eq!(
            responses[i],
            GetBlocksResponse {
                response: Some(Response::Header(BlockHeader {
                    parent_block: Some(BlockId { hash: None, height: i as u64 }),
                })),
            }
        );
    }
    assert!(matches!(responses[100].response, Some(Response::Fin(_))));
    assert_eq!(reader.remaining_len(), 3);
}

#[test]
fn responder_writes_and_initiator_reads_back() {
    let responses = hardcoded_responses();
    let mut responder_stream = Stream::new(Vec::new());
    write_responses(&responses, &mut responder_stream).unwrap();
    let mut reader = Stream::new(responder_stream.into_sent());
    let read = read_responses::<GetBlocksResponse>(&mut reader).unwrap();
    assert_eq!(read, responses);
    assert_eq!(reader.remaining_len(), 0);
}

#[test]
fn fin_alone_ends_the_sequence() {
    let mut responder_stream = Stream::new(Vec::new());
    write_frame(
        &GetBlocksResponse { response: Some(Response::Fin(Fin {})) },
        &mut responder_stream,
    ).unwrap();
    let mut reader = Stream::new(responder_stream.into_sent());
    let responses = read_responses::<GetBlocksResponse>(&mut reader).unwrap();
    assert_eq!(responses.len(), 1);
    assert!(matches!(responses[0].response, Some(Response::Fin(_))));
    assert_eq!(reader.remaining_len(), 0);
}

#[test]
fn missing_fin_fails_the_reader() {
    // Payload frames with no sentinel: the reader runs into the close.
    let mut responder_stream = Stream::new(Vec::new());
    write_frame(
        &GetBlocksResponse { response: None },
        &mut responder_stream,
    ).unwrap();
    let mut reader = Stream::new(responder_stream.into_sent());
    let err = read_responses::<GetBlocksResponse>(&mut reader).unwrap_err();
    assert_eq!(err, streamed_data_protocol::codec::DecodeError::Truncated);
}
