//! Wire protocol shared with the Chrome extension: request and response
//! envelopes, commands and their payloads.

use vstd::prelude::*;
use crate::pkcs11::{CertInfo, SlotInfo};
use crate::token_detection::UsbTokenInfo;

verus! {

pub const PROTOCOL_VERSION: u32 = 1;

/// The host's version, reported by `PING`.
pub const HOST_VERSION: &'static str = "0.1.0";

/// Per-message body cap (Chrome's documented native messaging limit).
pub const MAX_NATIVE_MESSAGE_BYTES: usize = 1048576;

/// Maximum base64 chunk size emitted when streaming PDF output back to the
/// extension; well under `MAX_NATIVE_MESSAGE_BYTES` so envelope overhead fits.
pub const MAX_CHUNK_BYTES: usize = 262144;

/// The commands the host implements.
#[derive(Debug, Clone, Copy, PartialEq, Eq, Structural)]
pub enum HostCmd {
    Ping,
    ListUsbTokens,
    ListSlots,
    ListCerts,
    SignPdfStart,
    SignPdfChunk,
    SignPdfEnd,
}

/// Payload of `SIGN_PDF_START`.
#[derive(Debug, Clone)]
pub struct SignPdfStartPayload {
    pub job_id: String,
    pub file_name: Option<String>,
    pub total_chunks: u32,
    pub content_type: Option<String>,
    /// Slot id selected by the user from `LIST_SLOTS`.
    pub slot_id: Option<u64>,
    /// Certificate id (CKA_ID, hex-encoded) of the signing key on the slot.
    pub cert_id: Option<String>,
}

/// Payload of `SIGN_PDF_CHUNK`.
#[derive(Debug, Clone)]
pub struct SignPdfChunkPayload {
    pub job_id: String,
    pub index: u32,
    pub chunk_base64: String,
}

/// Payload of `SIGN_PDF_END`.
#[derive(Debug, Clone)]
pub struct SignPdfEndPayload {
    pub job_id: String,
}

/// A command together with its payload, as far as the command reads it.
/// A payload that does not decode is carried as the decoder's message.
#[derive(Debug)]
pub enum Request {
    Ping,
    ListUsbTokens,
    ListSlots,
    /// `payload.slotId` as an unsigned integer, if present.
    ListCerts { slot_id: Option<u64> },
    SignPdfStart(Result<SignPdfStartPayload, String>),
    SignPdfChunk(Result<SignPdfChunkPayload, String>),
    SignPdfEnd(Result<SignPdfEndPayload, String>),
}

impl Request {
    /// The command this request carries.
    pub fn cmd(&self) -> (c: HostCmd)
        ensures
            c == spec_request_cmd(*self),
    {
        match self {
            Request::Ping => HostCmd::Ping,
            Request::ListUsbTokens => HostCmd::ListUsbTokens,
            Request::ListSlots => HostCmd::ListSlots,
            Request::ListCerts { .. } => HostCmd::ListCerts,
            Request::SignPdfStart(_) => HostCmd::SignPdfStart,
            Request::SignPdfChunk(_) => HostCmd::SignPdfChunk,
            Request::SignPdfEnd(_) => HostCmd::SignPdfEnd,
        }
    }
}

/// The command a request carries.
pub open spec fn spec_request_cmd(r: Request) -> HostCmd {
    match r {
        Request::Ping => HostCmd::Ping,
        Request::ListUsbTokens => HostCmd::ListUsbTokens,
        Request::ListSlots => HostCmd::ListSlots,
        Request::ListCerts { .. } => HostCmd::ListCerts,
        Request::SignPdfStart(_) => HostCmd::SignPdfStart,
        Request::SignPdfChunk(_) => HostCmd::SignPdfChunk,
        Request::SignPdfEnd(_) => HostCmd::SignPdfEnd,
    }
}

/// A request envelope from the extension.
#[derive(Debug)]
pub struct HostEnvelope {
    pub v: u32,
    pub id: String,
    pub request: Request,
}

/// The `result` object of a successful response.
#[derive(Debug, Clone)]
pub enum ResultBody {
    /// `{hostVersion, tokenPresent, protocolVersion}`
    Ping { host_version: String, token_present: bool, protocol_version: u32 },
    /// `{tokens}`
    UsbTokens { tokens: Vec<UsbTokenInfo> },
    /// `{slots, pkcs11Module, usbTokenLikelyPresent}`
    Slots { slots: Vec<SlotInfo>, pkcs11_module: Option<String>, usb_token_likely_present: bool },
    /// `{certs}`
    Certs { certs: Vec<CertInfo> },
    /// `{accepted: true, jobId}`
    JobAccepted { job_id: String },
    /// `{accepted: true, jobId, index}`
    ChunkAccepted { job_id: String, index: u32 },
    /// `{resultType: "chunk", jobId, chunk, index, totalChunks}`
    SignedChunk { job_id: String, chunk: String, index: usize, total_chunks: usize },
    /// `{resultType: "final", jobId}`
    SignedFinal { job_id: String },
}

/// An error reported to the extension.
#[derive(Debug, Clone)]
pub struct HostError {
    pub code: String,
    pub message: String,
}

/// A response envelope to the extension.
#[derive(Debug, Clone)]
pub struct HostResponse {
    pub v: u32,
    pub id: String,
    pub ok: bool,
    pub result: Option<ResultBody>,
    pub error: Option<HostError>,
}

/// The response is a success carrying `result`, addressed to `id`.
pub open spec fn is_success(r: HostResponse, id: Seq<char>, result: ResultBody) -> bool {
    &&& r.v == PROTOCOL_VERSION
    &&& r.id@ == id
    &&& r.ok
    &&& r.result == Some(result)
    &&& r.error is None
}

/// The response is a failure with error `code` and `message`, addressed to `id`.
pub open spec fn is_failure(r: HostResponse, id: Seq<char>, code: Seq<char>, message: Seq<char>) -> bool {
    &&& r.v == PROTOCOL_VERSION
    &&& r.id@ == id
    &&& !r.ok
    &&& r.result is None
    &&& r.error matches Some(e) && e.code@ == code && e.message@ == message
}

/// The response is a failure with error `code`, addressed to `id`.
pub open spec fn is_failure_with_code(r: HostResponse, id: Seq<char>, code: Seq<char>) -> bool {
    &&& r.v == PROTOCOL_VERSION
    &&& r.id@ == id
    &&& !r.ok
    &&& r.result is None
    &&& r.error matches Some(e) && e.code@ == code
}

/// `r` is a well-formed envelope answering request `id`: the protocol version,
/// the request's id, and `ok` exactly when it carries a result and exactly when
/// it carries no error.
pub open spec fn is_envelope(r: HostResponse, id: Seq<char>) -> bool {
    &&& r.v == PROTOCOL_VERSION
    &&& r.id@ == id
    &&& (r.ok <==> r.result is Some)
    &&& (r.ok <==> r.error is None)
}

/// Successes and failures, as the responses are built, are envelopes for
/// their request.
pub proof fn lemma_responses_are_envelopes(r: HostResponse, id: Seq<char>)
    ensures
        (exists|result: ResultBody| #[trigger] is_success(r, id, result)) ==> is_envelope(r, id),
        (exists|code: Seq<char>| #[trigger] is_failure_with_code(r, id, code)) ==> is_envelope(r, id),
        (exists|code: Seq<char>, message: Seq<char>| #[trigger] is_failure(r, id, code, message)) ==> is_envelope(r, id),
{
}

impl HostResponse {
    /// A successful response carrying `result`.
    pub fn success(id: String, result: ResultBody) -> (r: Self)
        ensures
            is_success(r, id@, result),
    {
        HostResponse { v: PROTOCOL_VERSION, id, ok: true, result: Some(result), error: None }
    }

    /// A failed response carrying an error code and message.
    pub fn failure(id: String, code: &str, message: String) -> (r: Self)
        ensures
            is_failure(r, id@, code@, message@),
    {
        HostResponse {
            v: PROTOCOL_VERSION,
            id,
            ok: false,
            result: None,
            error: Some(HostError { code: String::from_str(code), message }),
        }
    }
}

} // verus!
