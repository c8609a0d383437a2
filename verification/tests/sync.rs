use streamed_data_protocol::sync::{
    CentralSource, ClientError, SNStorageWriter, StateSync, StateSyncError,
};

#[test]
fn run_writes_every_new_block() {
    let central_source = CentralSource {
        block_number: Ok(5),
        events: vec![Ok(5), Ok(6), Ok(7)],
    };
    let mut state_sync = StateSync::new(central_source, SNStorageWriter::new());
    assert_eq!(state_sync.run(), Ok(()));
    assert_eq!(state_sync.writer().written_blocks(), &vec![5u64, 6, 7]);
    assert_eq!(state_sync.writer().latest_block_number(), Some(7));
}

#[test]
fn run_surfaces_the_first_stream_error() {
    let central_source = CentralSource {
        block_number: Ok(1),
        events: vec![Ok(1), Err(ClientError::BadResponse), Ok(2)],
    };
    let mut state_sync = StateSync::new(central_source, SNStorageWriter::new());
    assert_eq!(
        state_sync.run(),
        Err(StateSyncError::CentralSourceError(ClientError::BadResponse))
    );
    // Everything yielded before the failure was written; nothing after it.
    assert_eq!(state_sync.writer().written_blocks(), &vec![1u64]);
}

#[test]
fn run_surfaces_a_failed_block_number_fetch() {
    let central_source = CentralSource {
        block_number: Err(ClientError::BadResponse),
        events: vec![Ok(1)],
    };
    let mut state_sync = StateSync::new(central_source, SNStorageWriter::new());
    assert_eq!(
        state_sync.run(),
        Err(StateSyncError::CentralSourceError(ClientError::BadResponse))
    );
    assert_eq!(state_sync.writer().latest_block_number(), None);
}

#[test]
fn last_block_number() {
    let central_source = CentralSource { block_number: Ok(9), events: vec![] };
    let last_block_number = central_source.get_block_number().unwrap();
    assert_eq!(last_block_number, 9);
}

#[test]
fn stream_block_headers() {
    // Blocks 5 through 8 yielded in order are written in that order.
    let central_source = CentralSource {
        block_number: Ok(5),
        events: vec![Ok(5), Ok(6), Ok(7), Ok(8)],
    };
    let mut state_sync = StateSync::new(central_source, SNStorageWriter::new());
    assert_eq!(state_sync.run(), Ok(()));
    let written = state_sync.writer().written_blocks();
    let mut expected_block_num = 5u64;
    for block_number in written {
        assert_eq!(expected_block_num, *block_number);
        expected_block_num += 1;
    }
    assert_eq!(expected_block_num, 9);
}

#[test]
fn run_with_no_new_blocks_is_ok() {
    let central_source = CentralSource { block_number: Ok(9), events: vec![] };
    let mut state_sync = StateSync::new(central_source, SNStorageWriter::new());
    assert_eq!(state_sync.run(), Ok(()));
    assert_eq!(state_sync.writer().latest_block_number(), None);
}
