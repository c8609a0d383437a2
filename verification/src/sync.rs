//! The state-sync shell: drives a central block source and writes what it
//! yields to storage, surfacing the first failure immediately and
//! terminating — retry and backoff belong to the layer above.
//!
//! The central source is modeled deterministically, the way its tests
//! script a remote: the scripted outcome of the initial block-number fetch
//! and of the new-block stream. The storage writer records every write.

use vstd::prelude::*;

verus! {

/// A failure of the central data source.
#[derive(Clone, Copy, PartialEq, Eq, Structural, Debug)]
pub enum ClientError {
    /// The source could not be reached or answered malformed data.
    BadResponse,
}

/// A failure of the storage writer.
#[derive(Clone, Copy, PartialEq, Eq, Structural, Debug)]
pub enum StorageError {
    /// The write could not be applied.
    WriteFailure,
}

/// Wraps storage and client errors transparently: the sync loop surfaces
/// the first one and terminates.
#[derive(Clone, Copy, PartialEq, Eq, Structural, Debug)]
pub enum StateSyncError {
    StorageError(StorageError),
    CentralSourceError(ClientError),
}

/// The central data source: what its block-number fetch returns, and what
/// its forward-only stream of new blocks yields after that, in order.
#[derive(PartialEq, Eq, Debug)]
pub struct CentralSource {
    /// The outcome of the initial block-number fetch.
    pub block_number: Result<u64, ClientError>,
    /// The outcomes the new-block stream yields, in order.
    pub events: Vec<Result<u64, ClientError>>,
}

impl CentralSource {
    /// The latest block number the source knows, or why it cannot say.
    pub fn get_block_number(&self) -> (r: Result<u64, ClientError>)
        ensures
            r == self.block_number,
    {
        self.block_number
    }
}

/// The storage writer: records the block numbers set on it, in order.
pub struct SNStorageWriter {
    history: Vec<u64>,
}

impl SNStorageWriter {
    /// Every block number written so far, in write order.
    pub closed spec fn blocks_written(self) -> Seq<u64> {
        self.history@
    }

    /// A writer that has written nothing.
    pub fn new() -> (r: SNStorageWriter)
        ensures
            r.blocks_written() == Seq::<u64>::empty(),
    {
        SNStorageWriter { history: Vec::new() }
    }

    /// Records `n` as the latest block number. Writing to the in-memory
    /// record cannot fail; a real storage backend reports its faults as
    /// [`StorageError`].
    pub fn set_latest_block_number(&mut self, n: u64) -> (r: Result<(), StorageError>)
        ensures
            r is Ok,
            final(self).blocks_written() == old(self).blocks_written().push(n),
    {
        self.history.push(n);
        Ok(())
    }

    /// Every block number written so far, in write order.
    pub fn written_blocks(&self) -> (r: &Vec<u64>)
        ensures
            r@ == self.blocks_written(),
    {
        &self.history
    }

    /// The most recently written block number, if any.
    pub fn latest_block_number(&self) -> (r: Option<u64>)
        ensures
            r == (if self.blocks_written().len() == 0 {
                Option::<u64>::None
            } else {
                Option::Some(self.blocks_written().last())
            }),
    {
        if self.history.len() == 0 {
            None
        } else {
            Some(self.history[self.history.len() - 1])
        }
    }
}

/// What a run of the sync loop makes of the stream's outcomes: the block
/// numbers yielded before the first error, and that error if one occurs.
pub open spec fn sync_outcome(events: Seq<Result<u64, ClientError>>) -> (Seq<u64>, Option<
    ClientError,
>)
    decreases events.len(),
{
    if events.len() == 0 {
        (Seq::empty(), None)
    } else {
        match events[0] {
            Err(e) => (Seq::empty(), Some(e)),
            Ok(n) => {
                let (rest, err) = sync_outcome(events.skip(1));
                (seq![n] + rest, err)
            },
        }
    }
}

/// One step of the sync loop: applies one outcome of the new-block stream
/// to storage — a yielded block number is written, an error is surfaced
/// wrapped and writes nothing.
pub fn apply_event(writer: &mut SNStorageWriter, event: Result<u64, ClientError>) -> (r: Result<
    (),
    StateSyncError,
>)
    ensures
        match event {
            Ok(n) => r is Ok && final(writer).blocks_written() == old(writer).blocks_written().push(
                n,
            ),
            Err(e) => r == Err::<(), StateSyncError>(StateSyncError::CentralSourceError(e))
                && final(writer).blocks_written() == old(writer).blocks_written(),
        },
{
    match event {
        Ok(n) => match writer.set_latest_block_number(n) {
            Ok(_) => Ok(()),
            Err(e) => Err(StateSyncError::StorageError(e)),
        },
        Err(e) => Err(StateSyncError::CentralSourceError(e)),
    }
}

/// Orchestrates the central source and writes what it yields to storage.
pub struct StateSync {
    central_source: CentralSource,
    writer: SNStorageWriter,
}

impl StateSync {
    /// The source this sync drives.
    pub closed spec fn spec_central_source(self) -> CentralSource {
        self.central_source
    }

    /// The writer this sync fills.
    pub closed spec fn spec_writer(self) -> SNStorageWriter {
        self.writer
    }

    /// A sync over the given source and writer.
    pub fn new(central_source: CentralSource, writer: SNStorageWriter) -> (r: StateSync)
        ensures
            r.spec_central_source() == central_source,
            r.spec_writer() == writer,
    {
        StateSync { central_source, writer }
    }

    /// The writer, to observe what a run wrote.
    pub fn writer(&self) -> (r: &SNStorageWriter)
        ensures
            *r == self.spec_writer(),
    {
        &self.writer
    }

    /// Fetches the initial block number, then consumes the new-block
    /// stream in order, writing each yielded block number to storage.
    /// Stops at the first failure and surfaces it wrapped; on a clean
    /// stream end, returns successfully with every yielded number written,
    /// in order.
    pub fn run(&mut self) -> (r: Result<(), StateSyncError>)
        ensures
            final(self).spec_central_source() == old(self).spec_central_source(),
            match old(self).spec_central_source().block_number {
                Err(e) => r == Err::<(), StateSyncError>(StateSyncError::CentralSourceError(e))
                    && final(self).spec_writer() == old(self).spec_writer(),
                Ok(_) => final(self).spec_writer().blocks_written() == old(
                    self,
                ).spec_writer().blocks_written() + sync_outcome(
                    old(self).spec_central_source().events@,
                ).0 && r == (match sync_outcome(old(self).spec_central_source().events@).1 {
                    None => Ok::<(), StateSyncError>(()),
                    Some(e) => Err(StateSyncError::CentralSourceError(e)),
                }),
            },
    {
        match self.central_source.get_block_number() {
            Ok(_) => {},
            Err(e) => {
                return Err(StateSyncError::CentralSourceError(e));
            },
        }
        let ghost ev = self.central_source.events@;
        let ghost base = self.writer.blocks_written();
        let ghost mut written: Seq<u64> = Seq::empty();
        proof {
            assert(ev.skip(0) =~= ev);
            assert(Seq::<u64>::empty() + sync_outcome(ev).0 =~= sync_outcome(ev).0);
        }
        let mut i: usize = 0;
        while i < self.central_source.events.len()
            invariant
                old(self).central_source.block_number is Ok,
                self.central_source == old(self).central_source,
                ev == self.central_source.events@,
                base == old(self).writer.blocks_written(),
                0 <= i <= ev.len(),
                self.writer.blocks_written() == base + written,
                sync_outcome(ev).0 == written + sync_outcome(ev.skip(i as int)).0,
                sync_outcome(ev).1 == sync_outcome(ev.skip(i as int)).1,
            decreases ev.len() - i,
        {
            proof {
                assert(ev.skip(i as int).skip(1) =~= ev.skip(i + 1));
                assert(ev.skip(i as int)[0] == ev[i as int]);
            }
            match self.central_source.events[i] {
                Ok(n) => {
                    match self.writer.set_latest_block_number(n) {
                        Ok(_) => {},
                        Err(e) => {
                            return Err(StateSyncError::StorageError(e));
                        },
                    }
                    proof {
                        assert((written + seq![n]) + sync_outcome(ev.skip(i + 1)).0 =~= written + (
                        seq![n] + sync_outcome(ev.skip(i + 1)).0));
                        assert(base + (written + seq![n]) =~= (base + written).push(n));
                        written = written + seq![n];
                    }
                },
                Err(e) => {
                    proof {
                        assert(sync_outcome(ev.skip(i as int)).0 =~= Seq::<u64>::empty());
                        assert(written + Seq::<u64>::empty() =~= written);
                    }
                    return Err(StateSyncError::CentralSourceError(e));
                },
            }
            i = i + 1;
        }
        proof {
            assert(ev.skip(ev.len() as int) =~= Seq::<Result<u64, ClientError>>::empty());
            assert(written + Seq::<u64>::empty() =~= written);
        }
        Ok(())
    }
}

} // verus!
