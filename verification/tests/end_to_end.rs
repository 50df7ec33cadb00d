//! End-to-end test: two wrapped log entries become one compacted payload,
//! forwarded once per configured collector.

use base64::Engine;
use flate2::read::GzDecoder;
use flate2::write::GzEncoder;
use flate2::Compression;
use opentelemetry_proto::tonic::collector::trace::v1::ExportTraceServiceRequest;
use opentelemetry_proto::tonic::trace::v1::{ResourceSpans, ScopeSpans, Span};
use otlp_forwarder::compact::CompactionConfig;
use otlp_forwarder::dispatch::plan_requests;
use otlp_forwarder::pipeline::process_batch;
use otlp_forwarder::registry::{AuthMode, CollectorConfig};
use prost::Message;
use serde_json::Value;
use std::io::{Read, Write};

fn log_entry(source: &str, span_name: &str) -> String {
    let request = ExportTraceServiceRequest {
        resource_spans: vec![ResourceSpans {
            resource: None,
            scope_spans: vec![ScopeSpans {
                scope: None,
                spans: vec![Span {
                    name: span_name.to_string(),
                    ..Span::default()
                }],
                schema_url: String::new(),
            }],
            schema_url: String::new(),
        }],
    };
    let mut encoder = GzEncoder::new(Vec::new(), Compression::default());
    encoder.write_all(&request.encode_to_vec()).unwrap();
    let payload = base64::engine::general_purpose::STANDARD.encode(encoder.finish().unwrap());

    let mut map = serde_json::Map::new();
    map.insert(
        "__otel_otlp_stdout".to_string(),
        Value::String("otlp-stdout-span-exporter@0.2.2".to_string()),
    );
    map.insert("source".to_string(), Value::String(source.to_string()));
    map.insert(
        "content-type".to_string(),
        Value::String("application/x-protobuf".to_string()),
    );
    map.insert(
        "content-encoding".to_string(),
        Value::String("gzip".to_string()),
    );
    map.insert("payload".to_string(), Value::String(payload));
    map.insert("base64".to_string(), Value::Bool(true));
    serde_json::to_string(&Value::Object(map)).unwrap()
}

#[test]
fn two_entries_one_payload_forwarded_to_every_collector() {
    let messages: Vec<String> = vec![log_entry("svc-a", "span-a"), log_entry("svc-b", "span-b")];
    let summary = process_batch(&messages, &CompactionConfig::default());
    assert_eq!(summary.converted, 2);
    assert_eq!(summary.skipped, 0);
    assert_eq!(summary.payloads.len(), 1);

    // The compacted payload decompresses to exactly the two spans, in order.
    let payload = &summary.payloads[0];
    let mut decoder = GzDecoder::new(payload.body.as_slice());
    let mut raw: Vec<u8> = Vec::new();
    decoder.read_to_end(&mut raw).unwrap();
    let merged = ExportTraceServiceRequest::decode(raw.as_slice()).unwrap();
    assert_eq!(merged.resource_spans.len(), 2);
    let names: Vec<&str> = merged
        .resource_spans
        .iter()
        .flat_map(|g| g.scope_spans.iter())
        .flat_map(|s| s.spans.iter())
        .map(|s| s.name.as_str())
        .collect();
    assert_eq!(names, vec!["span-a", "span-b"]);

    // One request per configured collector, each carrying the same body.
    let collectors: Vec<CollectorConfig> = vec![
        CollectorConfig {
            endpoint: "https://one.example/v1/traces".to_string(),
            headers: Vec::new(),
            auth_mode: AuthMode::SigV4,
        },
        CollectorConfig {
            endpoint: "https://two.example/v1/traces".to_string(),
            headers: Vec::new(),
            auth_mode: AuthMode::StaticHeader,
        },
    ];
    let declared: Vec<(String, String)> = Vec::new();
    let plan = plan_requests(&summary.payloads, &declared, &collectors);
    assert_eq!(plan.len(), 1);
    let requests = &plan[0];
    assert_eq!(requests.len(), 2);
    assert_eq!(requests[0].endpoint, "https://one.example/v1/traces");
    assert_eq!(requests[1].endpoint, "https://two.example/v1/traces");
    for request in requests {
        assert_eq!(request.method, "POST");
        assert_eq!(request.body, payload.body);
        assert!(request
            .headers
            .contains(&("content-encoding".to_string(), "gzip".to_string())));
    }
}

#[test]
fn records_that_fail_to_decode_are_skipped_not_fatal() {
    let messages: Vec<String> = vec![
        log_entry("svc-a", "kept"),
        "not structured data".to_string(),
    ];
    let summary = process_batch(&messages, &CompactionConfig::default());
    assert_eq!(summary.converted, 1);
    assert_eq!(summary.skipped, 1);
    assert_eq!(summary.payloads.len(), 1);
}

#[test]
fn batch_with_nothing_convertible_yields_no_payloads() {
    let messages: Vec<String> = vec!["garbage".to_string(), "{}".to_string()];
    let summary = process_batch(&messages, &CompactionConfig::default());
    assert_eq!(summary.converted, 0);
    assert_eq!(summary.skipped, 2);
    assert!(summary.payloads.is_empty());
}
