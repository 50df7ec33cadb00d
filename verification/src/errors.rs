//! The error taxonomy of the forwarding pipeline.

use vstd::prelude::*;

verus! {

/// Every way a record, a batch, or a delivery can fail.
///
/// Per-record failures (`MalformedRecord`, `Encoding`, `Decompression`,
/// `ProtocolDecode`) are absorbed by the caller: the record is skipped and
/// the batch continues. Batch-level failures (`EmptyBatch`, `Compaction`,
/// `Dispatch`) end the invocation. `RegistryRefresh` is fatal only when no
/// collector configuration has ever been loaded.
#[derive(Clone, Copy, Debug, PartialEq, Eq, Structural)]
pub enum ForwardError {
    /// The raw log line is not a well-formed structured record.
    MalformedRecord,
    /// The payload is flagged as base64 but does not decode as base64.
    Encoding,
    /// The payload's compressed stream is corrupt.
    Decompression,
    /// The decompressed bytes are not a valid export request message.
    ProtocolDecode,
    /// Compaction was invoked on a batch with no units.
    EmptyBatch,
    /// Re-encoding or recompressing the merged batch failed.
    Compaction,
    /// Collector configuration could not be fetched and none was ever loaded.
    RegistryRefresh,
    /// Every collector failed for some payload.
    Dispatch,
}

impl ForwardError {
    /// A short, stable description of the error.
    pub fn describe(&self) -> (r: &'static str)
        ensures
            r@.len() > 0,
    {
        let r = match self {
            ForwardError::MalformedRecord => "record is not valid structured data",
            ForwardError::Encoding => "payload is not valid base64",
            ForwardError::Decompression => "payload compression stream is corrupt",
            ForwardError::ProtocolDecode => "payload is not a valid export request",
            ForwardError::EmptyBatch => "cannot compact an empty batch",
            ForwardError::Compaction => "failed to re-encode the merged batch",
            ForwardError::RegistryRefresh => "no collector configuration available",
            ForwardError::Dispatch => "all collectors failed",
        };
        proof {
            reveal_strlit("record is not valid structured data");
            reveal_strlit("payload is not valid base64");
            reveal_strlit("payload compression stream is corrupt");
            reveal_strlit("payload is not a valid export request");
            reveal_strlit("cannot compact an empty batch");
            reveal_strlit("failed to re-encode the merged batch");
            reveal_strlit("no collector configuration available");
            reveal_strlit("all collectors failed");
        }
        r
    }
}

} // verus!
