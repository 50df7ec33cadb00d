//! The per-batch orchestration: each raw log line is normalized and decoded,
//! failed records are skipped, and the surviving units are compacted into
//! forwardable payloads. Every outcome is a function of the batch's texts.

use vstd::prelude::*;

use crate::codec::{decode_export, decoded_groups, spec_decoded_body, TelemetryUnit};
use crate::compact::{batch_groups, compact, payloads_groups, CompactedPayload, CompactionConfig};
use crate::errors::ForwardError;
use crate::record::{
    is_normalized_text, json_parses, normalize_record, text_resolved_bool, text_resolved_dual,
    text_resolved_str,
};

verus! {

/// What converting one raw log line comes to, as a function of the text
/// alone: a malformed-record error when the text does not parse, else the
/// outcome of the decode chain on the text's resolved payload, flags and
/// encoding.
pub open spec fn spec_convert(s: Seq<char>) -> Result<Seq<u8>, ForwardError> {
    if !json_parses(s) {
        Err(ForwardError::MalformedRecord)
    } else {
        spec_decoded_body(
            text_resolved_str(s, "payload"@, ""@),
            text_resolved_bool(s, "base64"@, true),
            text_resolved_dual(s, "content-encoding"@, "content_encoding"@, "gzip"@) == "gzip"@,
        )
    }
}

/// Converts one raw log line into a telemetry unit. The outcome is fixed by
/// the text: parsing fails with the malformed-record error exactly on
/// unparseable text; otherwise the decode chain of the text's resolved
/// payload decides, and the unit carries the text's resolved source and
/// media type with its compression stripped.
pub fn convert_log_event(message: &str) -> (r: Result<TelemetryUnit, ForwardError>)
    ensures
        (match r {
            Ok(u) => {
                &&& spec_convert(message@) == Ok::<Seq<u8>, ForwardError>(u.raw_bytes@)
                &&& u.wf()
                &&& u.content_encoding is None
                &&& u.source@ == text_resolved_str(message@, "source"@, "unknown"@)
                &&& u.content_type@ == text_resolved_dual(
                    message@,
                    "content-type"@,
                    "content_type"@,
                    "application/x-protobuf"@,
                )
            },
            Err(e) => spec_convert(message@) == Err::<Seq<u8>, ForwardError>(e),
        }),
{
    let wrapped = match normalize_record(message) {
        Ok(w) => w,
        Err(e) => {
            return Err(e);
        },
    };
    proof {
        assert(is_normalized_text(wrapped, message@));
    }
    match decode_export(&wrapped) {
        Ok(u) => Ok(u),
        Err(e) => Err(e),
    }
}

/// Whether one raw log line survives conversion.
pub open spec fn converts(s: Seq<char>) -> bool {
    spec_convert(s) is Ok
}

/// How many of the batch's texts survive conversion.
pub open spec fn converted_count(messages: Seq<String>) -> int
    decreases messages.len(),
{
    if messages.len() == 0 {
        0int
    } else {
        converted_count(messages.drop_last()) + (if converts(messages.last()@) {
            1int
        } else {
            0int
        })
    }
}

/// The ordered union of the record groups of the batch's surviving texts.
pub open spec fn messages_groups(messages: Seq<String>) -> Seq<Seq<u8>>
    decreases messages.len(),
{
    if messages.len() == 0 {
        Seq::empty()
    } else {
        messages_groups(messages.drop_last()) + (if converts(messages.last()@) {
            decoded_groups(spec_convert(messages.last()@)->Ok_0)->0
        } else {
            Seq::empty()
        })
    }
}

/// What a whole batch came to: how many records converted, how many were
/// skipped, and the compacted payloads ready for dispatch.
pub struct BatchSummary {
    /// How many records decoded into units.
    pub converted: usize,
    /// How many records were skipped over a per-record error.
    pub skipped: usize,
    /// The compacted payloads; empty exactly when no record converted.
    pub payloads: Vec<CompactedPayload>,
}

/// Processes one batch of raw log lines: every line is converted in order,
/// per-record failures are absorbed (the record is skipped, the batch goes
/// on), and the surviving units are compacted. A record converts exactly
/// when its text's parse-and-decode chain succeeds; the payloads' groups are
/// exactly the ordered union of the surviving records' groups; a batch in
/// which nothing converted yields no payloads. Nothing here fails a batch.
pub fn process_batch(messages: &Vec<String>, config: &CompactionConfig) -> (s: BatchSummary)
    requires
        config.wf(),
    ensures
        s.converted == converted_count(messages@),
        s.converted + s.skipped == messages@.len(),
        s.converted == 0 <==> s.payloads@.len() == 0,
        payloads_groups(s.payloads@) == messages_groups(messages@),
        forall|i: int|
            0 <= i < s.payloads@.len() ==> (#[trigger] s.payloads@[i]).wf()
                && s.payloads@[i].content_encoding@ == "gzip"@,
{
    let mut units: Vec<TelemetryUnit> = Vec::new();
    let mut skipped: usize = 0;
    let mut i: usize = 0;
    while i < messages.len()
        invariant
            i <= messages@.len(),
            units@.len() + skipped == i,
            units@.len() == converted_count(messages@.take(i as int)),
            batch_groups(units@) == messages_groups(messages@.take(i as int)),
            forall|j: int| 0 <= j < units@.len() ==> (#[trigger] units@[j]).wf(),
        decreases messages@.len() - i,
    {
        let ghost prev_units = units@;
        match convert_log_event(messages[i].as_str()) {
            Ok(u) => units.push(u),
            Err(_) => skipped = skipped + 1,
        }
        proof {
            assert(messages@.take(i + 1).drop_last() =~= messages@.take(i as int));
            assert(messages@.take(i + 1).last() == messages@[i as int]);
            if units@.len() > prev_units.len() {
                assert(units@.drop_last() =~= prev_units);
            }
        }
        i = i + 1;
    }
    proof {
        assert(messages@.take(messages@.len() as int) =~= messages@);
    }
    let converted = units.len();
    if converted == 0 {
        let payloads: Vec<CompactedPayload> = Vec::new();
        proof {
            assert(payloads_groups(payloads@) == batch_groups(units@));
        }
        return BatchSummary { converted, skipped, payloads };
    }
    match compact(&units, config) {
        Ok(payloads) => BatchSummary { converted, skipped, payloads },
        Err(_) => {
            proof {
                assert(false);
            }
            BatchSummary { converted, skipped, payloads: Vec::new() }
        },
    }
}

} // verus!
