//! A streamed request/response protocol over a multiplexed byte-stream
//! transport: one peer sends a single typed query on a freshly negotiated
//! stream, the remote peer answers with an open-ended sequence of typed
//! response frames terminated by an explicit `Fin` sentinel.
//!
//! Every message on the wire is a frame: a LEB128 varint length prefix
//! followed by exactly that many bytes of schema-encoded payload.

pub mod codec;
pub mod messages;
pub mod protocol;
pub mod schema;
pub mod sync;
pub mod varint;

pub use codec::{read_frame, read_responses, write_frame, DecodeError, EncodeError, Stream};
pub use protocol::{InboundProtocol, OutboundProtocol, UpgradeError, PROTOCOL_NAME};
pub use schema::{ResponseSchema, Schema};
pub use sync::{StateSync, StateSyncError};
