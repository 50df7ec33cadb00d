//! Merging an ordered batch of decoded export requests into compacted,
//! recompressed payloads.
//!
//! Every unit's message is deserialized, the repeated top-level collections
//! are concatenated in the units' order, and the merged message is serialized
//! once and compressed once. When the batch exceeds the configured size
//! bound it is split into contiguous sub-batches, each compacted on its own.

use vstd::prelude::*;

use crate::codec::{
    append_export_request, clone_string, decode_export_request, decoded_groups,
    empty_export_request, encode_export_request, gunzip_of, gzip_compress, TelemetryUnit,
};
use crate::errors::ForwardError;

verus! {

/// Compaction policy: the output compression level and the size bound past
/// which a batch is split.
pub struct CompactionConfig {
    /// The gzip compression level applied to the merged payload.
    pub compression_level: u32,
    /// The greatest total size, in raw (uncompressed) bytes, merged into one
    /// payload before the batch is split. A single unit larger than the
    /// bound still forms its own payload.
    pub max_payload_bytes: usize,
}

impl CompactionConfig {
    /// The level must be one gzip accepts.
    pub open spec fn wf(self) -> bool {
        self.compression_level <= 9
    }
}

impl Default for CompactionConfig {
    /// The default policy: gzip's default level, split past 4 MiB of raw
    /// bytes.
    fn default() -> (c: CompactionConfig)
        ensures
            c.compression_level == 6,
            c.max_payload_bytes == 4194304,
            c.wf(),
    {
        CompactionConfig { compression_level: 6, max_payload_bytes: 4194304 }
    }
}

/// One merged, recompressed payload, ready for forwarding.
pub struct CompactedPayload {
    /// The merged export request, serialized and compressed: the wire body.
    pub body: Vec<u8>,
    /// The media type of the merged message.
    pub content_type: String,
    /// The final wire encoding of `body`.
    pub content_encoding: String,
}

impl CompactedPayload {
    /// The body decompresses, and the decompressed bytes are a well-formed
    /// export request message.
    pub open spec fn wf(self) -> bool {
        &&& gunzip_of(self.body@) is Some
        &&& decoded_groups(gunzip_of(self.body@)->0) is Some
    }

    /// The groups of the payload's merged message, read back through
    /// decompression and decoding.
    pub open spec fn groups(self) -> Seq<Seq<u8>> {
        decoded_groups(gunzip_of(self.body@)->0)->0
    }
}

/// The ordered union of the groups of a batch of units.
pub open spec fn batch_groups(units: Seq<TelemetryUnit>) -> Seq<Seq<u8>>
    decreases units.len(),
{
    if units.len() == 0 {
        Seq::empty()
    } else {
        batch_groups(units.drop_last()) + units.last().groups()
    }
}

/// The ordered union of the groups of a sequence of compacted payloads.
pub open spec fn payloads_groups(ps: Seq<CompactedPayload>) -> Seq<Seq<u8>>
    decreases ps.len(),
{
    if ps.len() == 0 {
        Seq::empty()
    } else {
        payloads_groups(ps.drop_last()) + ps.last().groups()
    }
}

/// Law: the ordered union of a concatenation of batches is the concatenation
/// of their ordered unions.
pub proof fn lemma_batch_groups_concat(a: Seq<TelemetryUnit>, b: Seq<TelemetryUnit>)
    ensures
        batch_groups(a + b) == batch_groups(a) + batch_groups(b),
    decreases b.len(),
{
    if b.len() == 0 {
        assert(a + b =~= a);
        assert(batch_groups(a) + batch_groups(b) =~= batch_groups(a));
    } else {
        lemma_batch_groups_concat(a, b.drop_last());
        assert((a + b).drop_last() =~= a + b.drop_last());
        assert(batch_groups(a) + batch_groups(b.drop_last()) + b.last().groups() =~= batch_groups(
            a,
        ) + batch_groups(b));
    }
}

/// Law: compacting a single unit is a no-op on record content — the ordered
/// union of a one-unit batch is exactly that unit's groups.
pub proof fn lemma_single_unit_groups(u: TelemetryUnit)
    ensures
        batch_groups(seq![u]) == u.groups(),
{
    assert(seq![u].drop_last() =~= Seq::<TelemetryUnit>::empty());
    assert(batch_groups(Seq::<TelemetryUnit>::empty()) =~= Seq::<Seq<u8>>::empty());
    assert(seq![u].last() == u);
    assert(batch_groups(seq![u]) =~= u.groups());
}

/// Merges the units of `units[lo..hi]` into one payload: every message is
/// decoded, the groups are concatenated in order, and the merged message is
/// serialized and compressed once. The payload's groups are exactly the
/// ordered union of the range's groups; its media type is the first unit's;
/// its wire encoding is gzip.
fn compact_range(units: &Vec<TelemetryUnit>, lo: usize, hi: usize, config: &CompactionConfig) -> (p:
    CompactedPayload)
    requires
        lo < hi <= units@.len(),
        forall|i: int| lo <= i < hi ==> (#[trigger] units@[i]).wf(),
        config.wf(),
    ensures
        p.wf(),
        p.groups() == batch_groups(units@.subrange(lo as int, hi as int)),
        p.content_type@ == units@[lo as int].content_type@,
        p.content_encoding@ == "gzip"@,
{
    let mut merged = empty_export_request();
    let mut k: usize = lo;
    proof {
        assert(units@.subrange(lo as int, lo as int) =~= Seq::<TelemetryUnit>::empty());
    }
    while k < hi
        invariant
            lo <= k <= hi <= units@.len(),
            forall|i: int| lo <= i < hi ==> (#[trigger] units@[i]).wf(),
            crate::codec::req_groups(merged) == batch_groups(units@.subrange(lo as int, k as int)),
        decreases hi - k,
    {
        let ghost prefix = units@.subrange(lo as int, k as int);
        let req_opt = decode_export_request(&units[k].raw_bytes);
        assert(req_opt is Some);
        let req = req_opt.unwrap();
        append_export_request(&mut merged, req);
        proof {
            assert(units@.subrange(lo as int, k + 1).drop_last() =~= prefix);
            assert(units@.subrange(lo as int, k + 1).last() == units@[k as int]);
            assert(crate::codec::req_groups(merged) =~= batch_groups(
                units@.subrange(lo as int, k + 1),
            ));
        }
        k = k + 1;
    }
    let raw = encode_export_request(&merged);
    let body = gzip_compress(&raw, config.compression_level);
    CompactedPayload {
        body,
        content_type: clone_string(&units[lo].content_type),
        content_encoding: gzip_label(),
    }
}

/// The canonical name of the gzip encoding.
fn gzip_label() -> (r: String)
    ensures
        r@ == "gzip"@,
{
    "gzip".to_owned()
}

/// The total size of a batch, in raw (uncompressed) bytes: the measure the
/// split policy is stated over.
pub open spec fn total_raw_bytes(units: Seq<TelemetryUnit>) -> int
    decreases units.len(),
{
    if units.len() == 0 {
        0
    } else {
        total_raw_bytes(units.drop_last()) + units.last().raw_bytes@.len()
    }
}

proof fn lemma_total_raw_bytes_bounds(units: Seq<TelemetryUnit>)
    ensures
        total_raw_bytes(units) >= 0,
        forall|i: int|
            0 <= i <= units.len() ==> 0 <= #[trigger] total_raw_bytes(units.take(i))
                <= total_raw_bytes(units),
    decreases units.len(),
{
    if units.len() > 0 {
        lemma_total_raw_bytes_bounds(units.drop_last());
        assert forall|i: int| 0 <= i <= units.len() implies 0 <= #[trigger] total_raw_bytes(
            units.take(i),
        ) <= total_raw_bytes(units) by {
            if i < units.len() {
                assert(units.drop_last().take(i) =~= units.take(i));
            } else {
                assert(units.take(i) =~= units);
            }
        }
    }
}

/// Splits the batch into contiguous chunks by the configured size bound and
/// compacts each chunk. The input order is preserved: the ordered union of
/// the output payloads' groups is exactly the ordered union of the batch's
/// groups, nothing dropped and nothing duplicated. Compaction succeeds on
/// every non-empty batch; an empty batch fails with
/// [`ForwardError::EmptyBatch`], and with nothing else. A batch within the
/// size bound — in particular a single unit — yields exactly one payload.
pub fn compact(units: &Vec<TelemetryUnit>, config: &CompactionConfig) -> (r: Result<
    Vec<CompactedPayload>,
    ForwardError,
>)
    requires
        forall|i: int| 0 <= i < units@.len() ==> (#[trigger] units@[i]).wf(),
        config.wf(),
    ensures
        r is Ok <==> units@.len() > 0,
        units@.len() == 0 <==> r == Err::<Vec<CompactedPayload>, ForwardError>(
            ForwardError::EmptyBatch,
        ),
        r matches Ok(ps) ==> {
            &&& ps@.len() >= 1
            &&& payloads_groups(ps@) == batch_groups(units@)
            &&& (total_raw_bytes(units@) <= config.max_payload_bytes ==> ps@.len() == 1)
            &&& (units@.len() == 1 ==> ps@.len() == 1)
            &&& forall|i: int|
                0 <= i < ps@.len() ==> (#[trigger] ps@[i]).wf() && ps@[i].content_encoding@
                    == "gzip"@
        },
{
    if units.len() == 0 {
        return Err(ForwardError::EmptyBatch);
    }
    let mut out: Vec<CompactedPayload> = Vec::new();
    let mut lo: usize = 0;
    let mut chunk_bytes: usize = 0;
    let mut i: usize = 0;
    proof {
        assert(units@.subrange(0, 0) =~= Seq::<TelemetryUnit>::empty());
        lemma_total_raw_bytes_bounds(units@);
    }
    while i < units.len()
        invariant
            lo <= i <= units@.len(),
            lo < units@.len(),
            forall|j: int| 0 <= j < units@.len() ==> (#[trigger] units@[j]).wf(),
            config.wf(),
            payloads_groups(out@) == batch_groups(units@.subrange(0, lo as int)),
            forall|j: int|
                0 <= j < out@.len() ==> (#[trigger] out@[j]).wf() && out@[j].content_encoding@
                    == "gzip"@,
            units@.len() == 1 ==> out@.len() == 0 && lo == 0,
            total_raw_bytes(units@) <= config.max_payload_bytes ==> lo == 0 && out@.len() == 0
                && chunk_bytes == total_raw_bytes(units@.take(i as int)),
            forall|k: int|
                0 <= k <= units@.len() ==> 0 <= #[trigger] total_raw_bytes(units@.take(k))
                    <= total_raw_bytes(units@),
        decreases units@.len() - i,
    {
        let unit_bytes = units[i].raw_bytes.len();
        let over = unit_bytes > config.max_payload_bytes || chunk_bytes
            > config.max_payload_bytes - unit_bytes;
        proof {
            assert(units@.take(i + 1).drop_last() =~= units@.take(i as int));
            assert(units@.take(i + 1).last() == units@[i as int]);
            if total_raw_bytes(units@) <= config.max_payload_bytes {
                assert(total_raw_bytes(units@.take(i + 1)) == chunk_bytes + unit_bytes);
                assert(chunk_bytes + unit_bytes <= config.max_payload_bytes);
                assert(!over);
            }
        }
        if i > lo && over {
            let p = compact_range(units, lo, i, config);
            let ghost previous = out@;
            out.push(p);
            proof {
                assert(out@.drop_last() =~= previous);
                lemma_batch_groups_concat(
                    units@.subrange(0, lo as int),
                    units@.subrange(lo as int, i as int),
                );
                assert(units@.subrange(0, lo as int) + units@.subrange(lo as int, i as int)
                    =~= units@.subrange(0, i as int));
                assert(payloads_groups(out@) =~= batch_groups(units@.subrange(0, i as int)));
            }
            lo = i;
            chunk_bytes = 0;
        }
        chunk_bytes = if chunk_bytes <= usize::MAX - unit_bytes {
            chunk_bytes + unit_bytes
        } else {
            usize::MAX
        };
        i = i + 1;
    }
    let p = compact_range(units, lo, units.len(), config);
    let ghost previous = out@;
    out.push(p);
    proof {
        assert(out@.drop_last() =~= previous);
        lemma_batch_groups_concat(
            units@.subrange(0, lo as int),
            units@.subrange(lo as int, units@.len() as int),
        );
        assert(units@.subrange(0, lo as int) + units@.subrange(lo as int, units@.len() as int)
            =~= units@.subrange(0, units@.len() as int));
        assert(units@.subrange(0, units@.len() as int) =~= units@);
        assert(payloads_groups(out@) =~= batch_groups(units@));
    }
    Ok(out)
}

} // verus!
