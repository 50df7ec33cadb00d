//! Tests for batch compaction and the codec round trip.

use flate2::read::GzDecoder;
use opentelemetry_proto::tonic::collector::trace::v1::ExportTraceServiceRequest;
use opentelemetry_proto::tonic::trace::v1::{ResourceSpans, ScopeSpans, Span};
use base64::Engine;
use otlp_forwarder::codec::{decode_export, TelemetryUnit};
use otlp_forwarder::compact::{compact, CompactedPayload, CompactionConfig};
use otlp_forwarder::errors::ForwardError;
use otlp_forwarder::record::WrappedExport;
use prost::Message;
use std::io::Read;

fn span_named(name: &str) -> ResourceSpans {
    ResourceSpans {
        resource: None,
        scope_spans: vec![ScopeSpans {
            scope: None,
            spans: vec![Span {
                name: name.to_string(),
                ..Span::default()
            }],
            schema_url: String::new(),
        }],
        schema_url: String::new(),
    }
}

fn unit_with_spans(source: &str, names: Vec<&str>) -> TelemetryUnit {
    let request = ExportTraceServiceRequest {
        resource_spans: names.into_iter().map(span_named).collect(),
    };
    TelemetryUnit {
        source: source.to_string(),
        content_type: "application/x-protobuf".to_string(),
        content_encoding: None,
        raw_bytes: request.encode_to_vec(),
    }
}

fn decompress_and_decode(payload: &CompactedPayload) -> ExportTraceServiceRequest {
    assert_eq!(payload.content_encoding, "gzip");
    let mut decoder = GzDecoder::new(payload.body.as_slice());
    let mut raw: Vec<u8> = Vec::new();
    decoder.read_to_end(&mut raw).unwrap();
    ExportTraceServiceRequest::decode(raw.as_slice()).unwrap()
}

fn span_names(request: &ExportTraceServiceRequest) -> Vec<String> {
    let mut names: Vec<String> = Vec::new();
    for group in &request.resource_spans {
        for scope in &group.scope_spans {
            for span in &scope.spans {
                names.push(span.name.clone());
            }
        }
    }
    names
}

#[test]
fn empty_batch_always_fails_with_empty_batch_error() {
    let units: Vec<TelemetryUnit> = Vec::new();
    let result = compact(&units, &CompactionConfig::default());
    assert_eq!(result.err(), Some(ForwardError::EmptyBatch));
}

#[test]
fn compacting_merges_record_sets_in_order() {
    let units: Vec<TelemetryUnit> = vec![
        unit_with_spans("svc-a", vec!["alpha", "beta"]),
        unit_with_spans("svc-b", vec!["gamma"]),
        unit_with_spans("svc-c", vec!["delta"]),
    ];
    let payloads = compact(&units, &CompactionConfig::default()).unwrap();
    assert_eq!(payloads.len(), 1);
    let merged = decompress_and_decode(&payloads[0]);
    assert_eq!(merged.resource_spans.len(), 4);
    assert_eq!(span_names(&merged), vec!["alpha", "beta", "gamma", "delta"]);
    assert_eq!(payloads[0].content_type, "application/x-protobuf");
}

#[test]
fn compacting_a_single_unit_keeps_record_content() {
    let unit = unit_with_spans("svc-a", vec!["only"]);
    let original = ExportTraceServiceRequest::decode(unit.raw_bytes.as_slice()).unwrap();
    let units: Vec<TelemetryUnit> = vec![unit];
    let payloads = compact(&units, &CompactionConfig::default()).unwrap();
    assert_eq!(payloads.len(), 1);
    let merged = decompress_and_decode(&payloads[0]);
    assert_eq!(merged, original);
}

#[test]
fn oversized_batch_splits_into_contiguous_payloads() {
    let units: Vec<TelemetryUnit> = vec![
        unit_with_spans("svc-a", vec!["one"]),
        unit_with_spans("svc-b", vec!["two"]),
        unit_with_spans("svc-c", vec!["three"]),
    ];
    // Each unit is a few dozen bytes; a tiny bound forces one payload each.
    let config = CompactionConfig {
        compression_level: 6,
        max_payload_bytes: 1,
    };
    let payloads = compact(&units, &config).unwrap();
    assert_eq!(payloads.len(), 3);
    let mut all_names: Vec<String> = Vec::new();
    for payload in &payloads {
        all_names.extend(span_names(&decompress_and_decode(payload)));
    }
    assert_eq!(all_names, vec!["one", "two", "three"]);
}

#[test]
fn decode_inverts_encode_on_record_content() {
    // Encode: compact a unit, producing the gzip wire body; wrap the body as
    // a base64 payload as the log exporter would. Decode: run the wrapped
    // record back through the codec. The record content must round-trip.
    let unit = unit_with_spans("svc-a", vec!["round", "trip"]);
    let original = ExportTraceServiceRequest::decode(unit.raw_bytes.as_slice()).unwrap();
    let units: Vec<TelemetryUnit> = vec![unit];
    let payloads = compact(&units, &CompactionConfig::default()).unwrap();
    let wrapped = WrappedExport {
        format_version: "v1".to_string(),
        source: "svc-a".to_string(),
        endpoint: "http://localhost:4318/v1/traces".to_string(),
        http_method: "POST".to_string(),
        content_type: payloads[0].content_type.clone(),
        content_encoding: payloads[0].content_encoding.clone(),
        headers: Vec::new(),
        payload: base64::engine::general_purpose::STANDARD.encode(&payloads[0].body),
        is_base64: true,
    };
    let decoded = decode_export(&wrapped).unwrap();
    assert_eq!(decoded.content_encoding, None);
    let reparsed = ExportTraceServiceRequest::decode(decoded.raw_bytes.as_slice()).unwrap();
    assert_eq!(reparsed, original);
}

#[test]
fn compaction_recompresses_rather_than_copying() {
    // The wire body is a fresh gzip stream, not the unit's raw bytes.
    let unit = unit_with_spans("svc-a", vec!["fresh"]);
    let raw = unit.raw_bytes.clone();
    let units: Vec<TelemetryUnit> = vec![unit];
    let payloads = compact(&units, &CompactionConfig::default()).unwrap();
    assert_ne!(payloads[0].body, raw);
    assert_eq!(&payloads[0].body[..2], &[0x1f, 0x8b]);
}
