//! Tests for record normalization and payload decoding.

use base64::Engine;
use flate2::write::GzEncoder;
use flate2::Compression;
use opentelemetry_proto::tonic::collector::trace::v1::ExportTraceServiceRequest;
use otlp_forwarder::errors::ForwardError;
use otlp_forwarder::pipeline::convert_log_event;
use otlp_forwarder::record::normalize_record;
use prost::Message;
use serde_json::Value;
use std::io::Write;

// Helper function to create gzipped, base64-encoded protobuf data
fn create_test_payload() -> String {
    // Create a minimal valid OTLP protobuf payload
    let request = ExportTraceServiceRequest {
        resource_spans: vec![],
    };

    // Convert to protobuf bytes
    let proto_bytes = request.encode_to_vec();

    // Compress with gzip
    let mut encoder = GzEncoder::new(Vec::new(), Compression::default());
    encoder.write_all(&proto_bytes).unwrap();
    let compressed_bytes = encoder.finish().unwrap();

    // Base64 encode
    base64::engine::general_purpose::STANDARD.encode(compressed_bytes)
}

fn record_with(entries: Vec<(&str, Value)>) -> String {
    let mut map = serde_json::Map::new();
    for (k, v) in entries {
        map.insert(k.to_string(), v);
    }
    serde_json::to_string(&Value::Object(map)).unwrap()
}

#[test]
fn test_convert_log_event() {
    // Test standard LogRecord with valid OTLP structure
    let mut headers = serde_json::Map::new();
    headers.insert(
        "content-type".to_string(),
        Value::String("application/x-protobuf".to_string()),
    );
    let message = record_with(vec![
        (
            "__otel_otlp_stdout",
            Value::String("otlp-stdout-span-exporter@0.2.2".to_string()),
        ),
        ("source", Value::String("test-service".to_string())),
        ("endpoint", Value::String("http://example.com".to_string())),
        ("method", Value::String("POST".to_string())),
        ("payload", Value::String(create_test_payload())),
        ("headers", Value::Object(headers)),
        (
            "content-type",
            Value::String("application/x-protobuf".to_string()),
        ),
        ("content-encoding", Value::String("gzip".to_string())),
        ("base64", Value::Bool(true)),
    ]);

    let result = convert_log_event(&message);
    if let Err(e) = &result {
        println!("Error converting log event: {}", e.describe());
    }
    assert!(result.is_ok());
    let telemetry = result.unwrap();
    assert_eq!(telemetry.source, "test-service");
    assert_eq!(telemetry.content_type, "application/x-protobuf"); // Now converted to protobuf
    assert_eq!(telemetry.content_encoding, None); // No compression at this stage
}

#[test]
fn defaults_apply_when_fields_absent() {
    let message = record_with(vec![("payload", Value::String(create_test_payload()))]);
    let wrapped = normalize_record(&message).unwrap();
    assert_eq!(wrapped.format_version, "unknown");
    assert_eq!(wrapped.source, "unknown");
    assert_eq!(wrapped.endpoint, "http://localhost:4318/v1/traces");
    assert_eq!(wrapped.http_method, "POST");
    assert_eq!(wrapped.content_type, "application/x-protobuf");
    assert_eq!(wrapped.content_encoding, "gzip");
    assert!(wrapped.headers.is_empty());
    assert!(wrapped.is_base64);
}

#[test]
fn absent_payload_defaults_to_empty_and_fails_in_codec() {
    let message = record_with(vec![("source", Value::String("svc".to_string()))]);
    let wrapped = normalize_record(&message).unwrap();
    assert_eq!(wrapped.payload, "");
    // The empty payload is not a normalization error; the codec fails on it:
    // empty base64 decodes to zero bytes, which is no gzip stream.
    assert_eq!(
        convert_log_event(&message).err(),
        Some(ForwardError::Decompression)
    );
}

#[test]
fn dual_key_lookup_same_result_for_either_variant() {
    let hyphen = record_with(vec![
        ("payload", Value::String(create_test_payload())),
        ("content-type", Value::String("application/json".to_string())),
    ]);
    let underscore = record_with(vec![
        ("payload", Value::String(create_test_payload())),
        ("content_type", Value::String("application/json".to_string())),
    ]);
    let w1 = normalize_record(&hyphen).unwrap();
    let w2 = normalize_record(&underscore).unwrap();
    assert_eq!(w1.content_type, w2.content_type);
    assert_eq!(w1.content_type, "application/json");
}

#[test]
fn dual_key_lookup_hyphenated_wins_when_both_present() {
    let message = record_with(vec![
        ("payload", Value::String(create_test_payload())),
        ("content-encoding", Value::String("gzip".to_string())),
        ("content_encoding", Value::String("identity".to_string())),
    ]);
    let wrapped = normalize_record(&message).unwrap();
    assert_eq!(wrapped.content_encoding, "gzip");
}

#[test]
fn non_string_header_values_are_skipped() {
    let mut headers = serde_json::Map::new();
    headers.insert("kept".to_string(), Value::String("yes".to_string()));
    headers.insert("dropped".to_string(), Value::Bool(true));
    let message = record_with(vec![
        ("payload", Value::String(create_test_payload())),
        ("headers", Value::Object(headers)),
    ]);
    let wrapped = normalize_record(&message).unwrap();
    assert_eq!(wrapped.headers.len(), 1);
    assert_eq!(wrapped.headers[0].0, "kept");
    assert_eq!(wrapped.headers[0].1, "yes");
}

#[test]
fn malformed_record_is_rejected() {
    assert_eq!(
        normalize_record("not json at all").err(),
        Some(ForwardError::MalformedRecord)
    );
    assert_eq!(
        convert_log_event("{ truncated").err(),
        Some(ForwardError::MalformedRecord)
    );
}

#[test]
fn invalid_base64_fails_with_encoding_error() {
    let message = record_with(vec![(
        "payload",
        Value::String("!!!not-base64!!!".to_string()),
    )]);
    assert_eq!(convert_log_event(&message).err(), Some(ForwardError::Encoding));
}

#[test]
fn corrupt_gzip_fails_with_decompression_error() {
    let not_gzip = base64::engine::general_purpose::STANDARD.encode(b"plainly not a gzip stream");
    let message = record_with(vec![("payload", Value::String(not_gzip))]);
    assert_eq!(
        convert_log_event(&message).err(),
        Some(ForwardError::Decompression)
    );
}

#[test]
fn invalid_protobuf_fails_with_protocol_decode_error() {
    // A well-formed gzip stream whose content is not a valid export request.
    let garbage: Vec<u8> = vec![0xff, 0xff, 0xff, 0xff];
    let mut encoder = GzEncoder::new(Vec::new(), Compression::default());
    encoder.write_all(&garbage).unwrap();
    let compressed = encoder.finish().unwrap();
    let payload = base64::engine::general_purpose::STANDARD.encode(compressed);
    let message = record_with(vec![("payload", Value::String(payload))]);
    assert_eq!(
        convert_log_event(&message).err(),
        Some(ForwardError::ProtocolDecode)
    );
}

#[test]
fn plain_payload_without_base64_or_gzip_decodes() {
    // A record may declare neither base64 nor gzip; the payload bytes must
    // then already be a serialized export request. An empty request encodes
    // to zero bytes, which is valid UTF-8 text.
    let message = record_with(vec![
        ("payload", Value::String(String::new())),
        ("base64", Value::Bool(false)),
        ("content-encoding", Value::String("identity".to_string())),
    ]);
    let unit = convert_log_event(&message).unwrap();
    assert!(unit.raw_bytes.is_empty());
    let decoded = ExportTraceServiceRequest::decode(unit.raw_bytes.as_slice()).unwrap();
    assert!(decoded.resource_spans.is_empty());
}
