//! Decoding a wrapped export into its raw export request, and the encoding
//! half used when a compacted batch is prepared for the wire.
//!
//! Base64, gzip and the protocol-buffer message codec are outside work; each
//! call stands behind a trusted item whose contract names its result. All
//! decisions — which stage runs, which error is reported, what the output
//! unit holds — are verified.

use vstd::prelude::*;

use crate::errors::ForwardError;
use crate::record::WrappedExport;
use base64::Engine;
use opentelemetry_proto::tonic::collector::trace::v1::ExportTraceServiceRequest;

verus! {

/// The opaque export request message type of `opentelemetry_proto`.
#[verifier::external_type_specification]
#[verifier::external_body]
pub struct ExExportTraceServiceRequest(ExportTraceServiceRequest);

/// The bytes a base64 text decodes to, when it is valid base64.
pub uninterp spec fn b64_decoded(s: Seq<char>) -> Option<Seq<u8>>;

/// The bytes a gzip stream decompresses to, when the stream is well formed.
pub uninterp spec fn gunzip_of(b: Seq<u8>) -> Option<Seq<u8>>;

/// The resource-span groups an export request message decodes to, when the
/// bytes are a well-formed message; each group stands for one entry of the
/// message's repeated top-level collection.
pub uninterp spec fn decoded_groups(b: Seq<u8>) -> Option<Seq<Seq<u8>>>;

/// The groups held by an in-memory export request message.
pub uninterp spec fn req_groups(r: ExportTraceServiceRequest) -> Seq<Seq<u8>>;

/// The view of an optional byte vector.
pub open spec fn opt_bytes_view(o: Option<Vec<u8>>) -> Option<Seq<u8>> {
    match o {
        Some(v) => Some(v@),
        None => None,
    }
}

/// Relies on `base64::Engine::decode` with the standard alphabet: decodes
/// base64 text, or fails when the text is not valid base64.
#[verifier::external_body]
fn base64_decode(s: &str) -> (r: Option<Vec<u8>>)
    ensures
        opt_bytes_view(r) == b64_decoded(s@),
{
    base64::engine::general_purpose::STANDARD.decode(s).ok()
}

/// Relies on `flate2::read::GzDecoder`: decompresses a gzip stream, or fails
/// when the stream is corrupt.
#[verifier::external_body]
fn gzip_decompress(b: &Vec<u8>) -> (r: Option<Vec<u8>>)
    ensures
        opt_bytes_view(r) == gunzip_of(b@),
{
    let mut decoder = flate2::read::GzDecoder::new(b.as_slice());
    let mut out = Vec::new();
    match std::io::Read::read_to_end(&mut decoder, &mut out) {
        Ok(_) => Some(out),
        Err(_) => None,
    }
}

/// Relies on `flate2::write::GzEncoder`: the compressed stream always
/// decompresses back to the input bytes. The encoder's sink is a `Vec`,
/// whose writes cannot fail, so compression always succeeds.
#[verifier::external_body]
pub(crate) fn gzip_compress(b: &Vec<u8>, level: u32) -> (r: Vec<u8>)
    requires
        level <= 9,
    ensures
        gunzip_of(r@) == Some(b@),
{
    let mut encoder = flate2::write::GzEncoder::new(Vec::new(), flate2::Compression::new(level));
    std::io::Write::write_all(&mut encoder, b.as_slice()).expect("writing to a Vec cannot fail");
    encoder.finish().expect("writing to a Vec cannot fail")
}

/// Relies on `prost::Message::decode`: parses an export request message, or
/// fails when the bytes are not a well-formed message.
#[verifier::external_body]
pub(crate) fn decode_export_request(b: &Vec<u8>) -> (r: Option<ExportTraceServiceRequest>)
    ensures
        r is Some <==> decoded_groups(b@) is Some,
        r matches Some(req) ==> Some(req_groups(req)) == decoded_groups(b@),
{
    <ExportTraceServiceRequest as prost::Message>::decode(b.as_slice()).ok()
}

/// Relies on `prost::Message::encode_to_vec`: the encoded bytes always decode
/// back to a message holding the same groups.
#[verifier::external_body]
pub(crate) fn encode_export_request(req: &ExportTraceServiceRequest) -> (r: Vec<u8>)
    ensures
        decoded_groups(r@) == Some(req_groups(*req)),
{
    prost::Message::encode_to_vec(req)
}

/// An export request message holding no groups. Relies on the struct's one
/// field being its repeated top-level collection.
#[verifier::external_body]
pub(crate) fn empty_export_request() -> (r: ExportTraceServiceRequest)
    ensures
        req_groups(r) == Seq::<Seq<u8>>::empty(),
{
    ExportTraceServiceRequest { resource_spans: Vec::new() }
}

/// Moves every group of `src` to the end of `dst`, preserving order. Relies
/// on `Vec::append` over the message's repeated top-level collection.
#[verifier::external_body]
pub(crate) fn append_export_request(dst: &mut ExportTraceServiceRequest, src: ExportTraceServiceRequest)
    ensures
        req_groups(*final(dst)) == req_groups(*old(dst)) + req_groups(src),
{
    let mut spans = src.resource_spans;
    dst.resource_spans.append(&mut spans);
}

/// Relies on `str::eq`: equality of the character sequences.
#[verifier::external_body]
pub(crate) fn str_eq(a: &str, b: &str) -> (r: bool)
    ensures
        r == (a@ == b@),
{
    a == b
}

/// One decoded export request in canonical form: uncompressed, binary
/// protocol bytes.
pub struct TelemetryUnit {
    /// The service the record came from.
    pub source: String,
    /// The media type declared for the payload.
    pub content_type: String,
    /// Always `None`: compression has been stripped at this stage.
    pub content_encoding: Option<String>,
    /// The serialized export request message, uncompressed.
    pub raw_bytes: Vec<u8>,
}

impl TelemetryUnit {
    /// A unit is well formed when its bytes are a well-formed serialized
    /// export request.
    pub open spec fn wf(self) -> bool {
        decoded_groups(self.raw_bytes@) is Some
    }

    /// The groups of the unit's export request message.
    pub open spec fn groups(self) -> Seq<Seq<u8>> {
        decoded_groups(self.raw_bytes@)->0
    }
}

/// The raw bytes a payload stands for: the base64 decoding of the text when
/// the record is flagged base64, the text's own bytes otherwise.
pub open spec fn spec_payload_bytes(payload: Seq<char>, is_base64: bool) -> Option<Seq<u8>> {
    if is_base64 {
        b64_decoded(payload)
    } else {
        Some(vstd::utf8::encode_utf8(payload))
    }
}

/// The outcome the decoding pipeline owes for a wrapped export: which stage
/// fails with which error, or the canonical raw bytes.
pub open spec fn spec_decoded_body(
    payload: Seq<char>,
    is_base64: bool,
    is_gzip: bool,
) -> Result<Seq<u8>, ForwardError> {
    match spec_payload_bytes(payload, is_base64) {
        None => Err(ForwardError::Encoding),
        Some(bytes) => {
            if is_gzip {
                match gunzip_of(bytes) {
                    None => Err(ForwardError::Decompression),
                    Some(raw) => spec_checked_message(raw),
                }
            } else {
                spec_checked_message(bytes)
            }
        },
    }
}

/// The final stage of decoding: the bytes must be a well-formed export
/// request message.
pub open spec fn spec_checked_message(raw: Seq<u8>) -> Result<Seq<u8>, ForwardError> {
    if decoded_groups(raw) is Some {
        Ok(raw)
    } else {
        Err(ForwardError::ProtocolDecode)
    }
}

fn checked_message(raw: Vec<u8>) -> (r: Result<Vec<u8>, ForwardError>)
    ensures
        (match r {
            Ok(v) => spec_checked_message(raw@) == Ok::<Seq<u8>, ForwardError>(v@) && v@ == raw@,
            Err(e) => spec_checked_message(raw@) == Err::<Seq<u8>, ForwardError>(e),
        }),
{
    match decode_export_request(&raw) {
        Some(_) => Ok(raw),
        None => Err(ForwardError::ProtocolDecode),
    }
}

/// Decodes one wrapped export into a telemetry unit: base64 first when the
/// record is flagged so, then gzip when the declared encoding says so, and
/// the result must parse as an export request. Each stage reports its own
/// error, exactly as [`spec_decoded_body`] states; the output unit carries
/// the record's source and media type and has its compression stripped.
pub fn decode_export(w: &WrappedExport) -> (r: Result<TelemetryUnit, ForwardError>)
    ensures
        (match r {
            Ok(u) => {
                &&& spec_decoded_body(w.payload@, w.is_base64, w.content_encoding@ == "gzip"@)
                    == Ok::<Seq<u8>, ForwardError>(u.raw_bytes@)
                &&& u.wf()
                &&& u.source@ == w.source@
                &&& u.content_type@ == w.content_type@
                &&& u.content_encoding is None
            },
            Err(e) => spec_decoded_body(w.payload@, w.is_base64, w.content_encoding@ == "gzip"@)
                == Err::<Seq<u8>, ForwardError>(e),
        }),
{
    let bytes: Vec<u8> = if w.is_base64 {
        match base64_decode(w.payload.as_str()) {
            Some(v) => v,
            None => {
                return Err(ForwardError::Encoding);
            },
        }
    } else {
        w.payload.as_str().as_bytes_vec()
    };
    let is_gzip = str_eq(w.content_encoding.as_str(), "gzip");
    let raw = if is_gzip {
        match gzip_decompress(&bytes) {
            Some(v) => v,
            None => {
                return Err(ForwardError::Decompression);
            },
        }
    } else {
        bytes
    };
    let raw = match checked_message(raw) {
        Ok(v) => v,
        Err(e) => {
            return Err(e);
        },
    };
    Ok(TelemetryUnit {
        source: clone_string(&w.source),
        content_type: clone_string(&w.content_type),
        content_encoding: None,
        raw_bytes: raw,
    })
}

/// An owned copy of a string, character for character.
pub fn clone_string(s: &String) -> (r: String)
    ensures
        r@ == s@,
{
    s.as_str().to_owned()
}

/// Law: decoding inverts encoding. Take a well-formed unit; compress its raw
/// bytes (so the compressed stream decompresses back to them, as the gzip
/// encoder guarantees) and wrap the stream as base64 text (which decodes back
/// to the stream, as the base64 encoder guarantees). Decoding that wrapped
/// payload — base64 flagged, gzip declared — yields the unit's raw bytes,
/// byte for byte, and so the very same record groups.
pub proof fn lemma_decode_inverts_encode(u: TelemetryUnit, compressed: Seq<u8>, text: Seq<char>)
    ensures
        (u.wf() && gunzip_of(compressed) == Some(u.raw_bytes@) && b64_decoded(text) == Some(
            compressed,
        )) ==> spec_decoded_body(text, true, true) == Ok::<Seq<u8>, ForwardError>(u.raw_bytes@)
            && decoded_groups(spec_decoded_body(text, true, true)->Ok_0) == Some(u.groups()),
{
}

} // verus!
