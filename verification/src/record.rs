//! Normalization of one raw log line into a canonical wrapped-export value.
//!
//! A raw record is a structured document (JSON text). Parsing and key lookup
//! are delegated to `serde_json` behind trusted items; the resolution order
//! of the heterogeneous field names and the defaults are the library's own
//! verified logic.

use vstd::prelude::*;

use crate::errors::ForwardError;

verus! {

/// The opaque parsed document type of `serde_json`.
#[verifier::external_type_specification]
#[verifier::external_body]
pub struct ExValue(serde_json::Value);

/// The string value stored at a top-level key of the document, when that key
/// is present and holds a string.
pub uninterp spec fn doc_str(v: serde_json::Value, key: Seq<char>) -> Option<Seq<char>>;

/// The boolean value stored at a top-level key of the document, when that key
/// is present and holds a boolean.
pub uninterp spec fn doc_bool(v: serde_json::Value, key: Seq<char>) -> Option<bool>;

/// The entries of the object stored at a top-level key of the document, in
/// the order the document hands them out; a value that is not a string is
/// `None`. An absent key or a non-object value yields the empty sequence.
pub uninterp spec fn doc_entries(v: serde_json::Value, key: Seq<char>) -> Seq<
    (Seq<char>, Option<Seq<char>>),
>;

/// The view of an optional owned string.
pub open spec fn opt_str_view(o: Option<String>) -> Option<Seq<char>> {
    match o {
        Some(s) => Some(s@),
        None => None,
    }
}

/// The view of a sequence of (key, optional string value) entries.
pub open spec fn entries_view(s: Seq<(String, Option<String>)>) -> Seq<
    (Seq<char>, Option<Seq<char>>),
> {
    s.map_values(|p: (String, Option<String>)| (p.0@, opt_str_view(p.1)))
}

/// Whether a text parses as a generic structured document.
pub uninterp spec fn json_parses(s: Seq<char>) -> bool;

/// The string at a top-level key of the document a text parses to: the
/// text-level face of [`doc_str`].
pub uninterp spec fn field_str(s: Seq<char>, key: Seq<char>) -> Option<Seq<char>>;

/// The boolean at a top-level key of the document a text parses to: the
/// text-level face of [`doc_bool`].
pub uninterp spec fn field_bool(s: Seq<char>, key: Seq<char>) -> Option<bool>;

/// The entries of the object at a top-level key of the document a text
/// parses to: the text-level face of [`doc_entries`].
pub uninterp spec fn field_entries(s: Seq<char>, key: Seq<char>) -> Seq<
    (Seq<char>, Option<Seq<char>>),
>;

/// Relies on `serde_json::from_str::<serde_json::Value>`: parses the text as
/// a generic structured document, succeeding exactly on valid documents. The
/// parse is a function of the text alone, so every lookup on the parsed
/// document equals the text-level lookup on the input.
#[verifier::external_body]
fn parse_document(s: &str) -> (r: Option<serde_json::Value>)
    ensures
        r is Some <==> json_parses(s@),
        r matches Some(v) ==> forall|k: Seq<char>| #[trigger] doc_str(v, k) == field_str(s@, k),
        r matches Some(v) ==> forall|k: Seq<char>| #[trigger] doc_bool(v, k) == field_bool(s@, k),
        r matches Some(v) ==> forall|k: Seq<char>|
            #[trigger] doc_entries(v, k) == field_entries(s@, k),
{
    serde_json::from_str(s).ok()
}

/// Relies on `serde_json::Value::get` and `serde_json::Value::as_str`: the
/// string at a top-level key of the document, if present.
#[verifier::external_body]
fn get_string_field(v: &serde_json::Value, key: &str) -> (r: Option<String>)
    ensures
        opt_str_view(r) == doc_str(*v, key@),
{
    v.get(key).and_then(serde_json::Value::as_str).map(|s| s.to_string())
}

/// Relies on `serde_json::Value::get` and `serde_json::Value::as_bool`: the
/// boolean at a top-level key of the document, if present.
#[verifier::external_body]
fn get_bool_field(v: &serde_json::Value, key: &str) -> (r: Option<bool>)
    ensures
        r == doc_bool(*v, key@),
{
    v.get(key).and_then(serde_json::Value::as_bool)
}

/// Relies on `serde_json::Value::get`, `serde_json::Value::as_object` and
/// `serde_json::Map::iter`: the entries of the object at a top-level key,
/// each value handed out as a string where it is one.
#[verifier::external_body]
fn get_object_entries(v: &serde_json::Value, key: &str) -> (r: Vec<(String, Option<String>)>)
    ensures
        entries_view(r@) == doc_entries(*v, key@),
{
    match v.get(key).and_then(serde_json::Value::as_object) {
        Some(m) => m.iter().map(|(k, e)| (k.clone(), e.as_str().map(|s| s.to_string()))).collect(),
        None => Vec::new(),
    }
}

/// One raw log line, normalized: every field resolved to its present value
/// or its documented default.
pub struct WrappedExport {
    /// The format version marker of the wrapped-export schema.
    pub format_version: String,
    /// The service that emitted the export request.
    pub source: String,
    /// The collector endpoint recorded with the export.
    pub endpoint: String,
    /// The HTTP method recorded with the export.
    pub http_method: String,
    /// The media type of the payload.
    pub content_type: String,
    /// The wire encoding of the payload (for example `gzip`).
    pub content_encoding: String,
    /// Additional headers recorded with the export; non-string values of the
    /// raw record are skipped.
    pub headers: Vec<(String, String)>,
    /// The payload text; empty when the raw record carries none.
    pub payload: String,
    /// Whether the payload text is base64-encoded.
    pub is_base64: bool,
}

/// The value at `key`, or `default` when the key is absent.
pub open spec fn resolved_str(v: serde_json::Value, key: Seq<char>, default: Seq<char>) -> Seq<
    char,
> {
    match doc_str(v, key) {
        Some(s) => s,
        None => default,
    }
}

/// Dual-key resolution: the value at `first` when present, else the value at
/// `second`, else `default`. The first (hyphenated) key always wins when both
/// are present.
pub open spec fn resolved_dual(
    v: serde_json::Value,
    first: Seq<char>,
    second: Seq<char>,
    default: Seq<char>,
) -> Seq<char> {
    match doc_str(v, first) {
        Some(s) => s,
        None => resolved_str(v, second, default),
    }
}

/// The boolean at `key`, or `default` when the key is absent.
pub open spec fn resolved_bool(v: serde_json::Value, key: Seq<char>, default: bool) -> bool {
    match doc_bool(v, key) {
        Some(b) => b,
        None => default,
    }
}

/// The header entries kept by normalization: entries with a string value, in
/// order; the rest are skipped.
pub open spec fn kept_entries(entries: Seq<(Seq<char>, Option<Seq<char>>)>) -> Seq<
    (Seq<char>, Seq<char>),
>
    decreases entries.len(),
{
    if entries.len() == 0 {
        Seq::empty()
    } else {
        kept_entries(entries.drop_last()) + (match entries.last().1 {
            Some(s) => seq![(entries.last().0, s)],
            None => Seq::empty(),
        })
    }
}

/// The view of a sequence of owned header pairs.
pub open spec fn pairs_view(s: Seq<(String, String)>) -> Seq<(Seq<char>, Seq<char>)> {
    s.map_values(|p: (String, String)| (p.0@, p.1@))
}

/// What normalization promises of its result, field by field, for the
/// document the raw record parsed to.
pub open spec fn is_normalized(w: WrappedExport, v: serde_json::Value) -> bool {
    &&& w.format_version@ == resolved_str(v, "__otel_otlp_stdout"@, "unknown"@)
    &&& w.source@ == resolved_str(v, "source"@, "unknown"@)
    &&& w.endpoint@ == resolved_str(v, "endpoint"@, "http://localhost:4318/v1/traces"@)
    &&& w.http_method@ == resolved_str(v, "method"@, "POST"@)
    &&& w.content_type@ == resolved_dual(
        v,
        "content-type"@,
        "content_type"@,
        "application/x-protobuf"@,
    )
    &&& w.content_encoding@ == resolved_dual(v, "content-encoding"@, "content_encoding"@, "gzip"@)
    &&& pairs_view(w.headers@) == kept_entries(doc_entries(v, "headers"@))
    &&& w.payload@ == resolved_str(v, "payload"@, ""@)
    &&& w.is_base64 == resolved_bool(v, "base64"@, true)
}

fn resolve_str_field(v: &serde_json::Value, key: &str, default: &str) -> (r: String)
    ensures
        r@ == resolved_str(*v, key@, default@),
{
    match get_string_field(v, key) {
        Some(s) => s,
        None => default.to_owned(),
    }
}

fn resolve_dual_field(v: &serde_json::Value, first: &str, second: &str, default: &str) -> (r:
    String)
    ensures
        r@ == resolved_dual(*v, first@, second@, default@),
{
    match get_string_field(v, first) {
        Some(s) => s,
        None => resolve_str_field(v, second, default),
    }
}

fn resolve_headers(v: &serde_json::Value) -> (r: Vec<(String, String)>)
    ensures
        pairs_view(r@) == kept_entries(doc_entries(*v, "headers"@)),
{
    let entries = get_object_entries(v, "headers");
    let mut kept: Vec<(String, String)> = Vec::new();
    let ghost all = entries_view(entries@);
    let mut i: usize = 0;
    while i < entries.len()
        invariant
            i <= entries@.len(),
            all == entries_view(entries@),
            all.len() == entries@.len(),
            pairs_view(kept@) == kept_entries(all.take(i as int)),
        decreases entries@.len() - i,
    {
        let ghost prefix = all.take(i as int);
        let (key, value) = &entries[i];
        match value {
            Some(s) => {
                kept.push((key.clone(), s.clone()));
                proof {
                    assert(all.take(i + 1).drop_last() =~= prefix);
                    assert(pairs_view(kept@) =~= kept_entries(all.take(i + 1)));
                }
            },
            None => {
                proof {
                    assert(all.take(i + 1).drop_last() =~= prefix);
                    assert(pairs_view(kept@) =~= kept_entries(all.take(i + 1)));
                }
            },
        }
        i = i + 1;
    }
    proof {
        assert(all.take(entries@.len() as int) =~= all);
    }
    kept
}

/// Resolves every normalized field of a parsed document: the present value
/// where the document holds one, the documented default otherwise. The
/// hyphenated key variants win over the underscored ones.
pub fn resolve_fields(v: &serde_json::Value) -> (w: WrappedExport)
    ensures
        is_normalized(w, *v),
{
    WrappedExport {
        format_version: resolve_str_field(v, "__otel_otlp_stdout", "unknown"),
        source: resolve_str_field(v, "source", "unknown"),
        endpoint: resolve_str_field(v, "endpoint", "http://localhost:4318/v1/traces"),
        http_method: resolve_str_field(v, "method", "POST"),
        content_type: resolve_dual_field(v, "content-type", "content_type", "application/x-protobuf"),
        content_encoding: resolve_dual_field(v, "content-encoding", "content_encoding", "gzip"),
        headers: resolve_headers(v),
        payload: resolve_str_field(v, "payload", ""),
        is_base64: match get_bool_field(v, "base64") {
            Some(b) => b,
            None => true,
        },
    }
}

/// The text-level value at `key`, or `default` when the key is absent.
pub open spec fn text_resolved_str(s: Seq<char>, key: Seq<char>, default: Seq<char>) -> Seq<char> {
    match field_str(s, key) {
        Some(v) => v,
        None => default,
    }
}

/// Text-level dual-key resolution: the first (hyphenated) key wins.
pub open spec fn text_resolved_dual(
    s: Seq<char>,
    first: Seq<char>,
    second: Seq<char>,
    default: Seq<char>,
) -> Seq<char> {
    match field_str(s, first) {
        Some(v) => v,
        None => text_resolved_str(s, second, default),
    }
}

/// The text-level boolean at `key`, or `default` when the key is absent.
pub open spec fn text_resolved_bool(s: Seq<char>, key: Seq<char>, default: bool) -> bool {
    match field_bool(s, key) {
        Some(b) => b,
        None => default,
    }
}

/// What normalization promises of its result, field by field, as a function
/// of the raw record text alone.
pub open spec fn is_normalized_text(w: WrappedExport, s: Seq<char>) -> bool {
    &&& w.format_version@ == text_resolved_str(s, "__otel_otlp_stdout"@, "unknown"@)
    &&& w.source@ == text_resolved_str(s, "source"@, "unknown"@)
    &&& w.endpoint@ == text_resolved_str(s, "endpoint"@, "http://localhost:4318/v1/traces"@)
    &&& w.http_method@ == text_resolved_str(s, "method"@, "POST"@)
    &&& w.content_type@ == text_resolved_dual(
        s,
        "content-type"@,
        "content_type"@,
        "application/x-protobuf"@,
    )
    &&& w.content_encoding@ == text_resolved_dual(s, "content-encoding"@, "content_encoding"@, "gzip"@)
    &&& pairs_view(w.headers@) == kept_entries(field_entries(s, "headers"@))
    &&& w.payload@ == text_resolved_str(s, "payload"@, ""@)
    &&& w.is_base64 == text_resolved_bool(s, "base64"@, true)
}

/// Parses one raw log line and normalizes it. Fails with
/// [`ForwardError::MalformedRecord`] exactly when the line is not valid
/// structured data; otherwise every field of the result is fixed by the text
/// alone, as [`is_normalized_text`] states.
pub fn normalize_record(s: &str) -> (r: Result<WrappedExport, ForwardError>)
    ensures
        r is Err <==> !json_parses(s@),
        r matches Err(e) ==> e == ForwardError::MalformedRecord,
        r matches Ok(w) ==> is_normalized_text(w, s@),
{
    match parse_document(s) {
        Some(doc) => {
            let w = resolve_fields(&doc);
            proof {
                assert(is_normalized(w, doc));
                assert(doc_str(doc, "__otel_otlp_stdout"@) == field_str(s@, "__otel_otlp_stdout"@));
                assert(doc_str(doc, "source"@) == field_str(s@, "source"@));
                assert(doc_str(doc, "endpoint"@) == field_str(s@, "endpoint"@));
                assert(doc_str(doc, "method"@) == field_str(s@, "method"@));
                assert(doc_str(doc, "content-type"@) == field_str(s@, "content-type"@));
                assert(doc_str(doc, "content_type"@) == field_str(s@, "content_type"@));
                assert(doc_str(doc, "content-encoding"@) == field_str(s@, "content-encoding"@));
                assert(doc_str(doc, "content_encoding"@) == field_str(s@, "content_encoding"@));
                assert(doc_str(doc, "payload"@) == field_str(s@, "payload"@));
                assert(doc_bool(doc, "base64"@) == field_bool(s@, "base64"@));
                assert(doc_entries(doc, "headers"@) == field_entries(s@, "headers"@));
                assert(is_normalized_text(w, s@));
            }
            Ok(w)
        },
        None => Err(ForwardError::MalformedRecord),
    }
}

/// Law: dual-key lookups agree. A document with only the first key set and a
/// document with only the second key set resolve to the same value; and when
/// both keys are present, the first one wins.
pub proof fn lemma_dual_key_lookup(
    v1: serde_json::Value,
    v2: serde_json::Value,
    first: Seq<char>,
    second: Seq<char>,
    default: Seq<char>,
    s: Seq<char>,
)
    requires
        doc_str(v1, first) == Some(s),
        doc_str(v1, second) == None::<Seq<char>>,
        doc_str(v2, first) == None::<Seq<char>>,
        doc_str(v2, second) == Some(s),
    ensures
        resolved_dual(v1, first, second, default) == resolved_dual(v2, first, second, default),
        resolved_dual(v1, first, second, default) == s,
{
}

/// Law: when both key variants are present, the first (hyphenated) one wins,
/// whatever the second holds.
pub proof fn lemma_dual_key_first_wins(
    v: serde_json::Value,
    first: Seq<char>,
    second: Seq<char>,
    default: Seq<char>,
    s: Seq<char>,
)
    requires
        doc_str(v, first) == Some(s),
    ensures
        resolved_dual(v, first, second, default) == s,
{
}

} // verus!
