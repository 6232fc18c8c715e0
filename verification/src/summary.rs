//! One-line log summaries of the requests and responses, short enough for the
//! log whatever the payload holds.

use vstd::prelude::*;
use vstd::utf8::encode_utf8;
use crate::protocol::{HostCmd, HostResponse, ResultBody};
use crate::text::{dec, preview_head_tail, push_decimal, push_decimal_u64, push_str, spec_truncate_middle, truncate_middle};

verus! {

/// The fields of a request payload that its summary reads, as sent: a text
/// field that is absent or not a string is empty, a number that is absent or not
/// an unsigned integer is `None`.
#[derive(Debug, Clone)]
pub struct PayloadFields {
    pub job_id: String,
    pub total_chunks: Option<u64>,
    pub slot_id: Option<u64>,
    pub cert_id: String,
    pub index: Option<u64>,
    pub chunk_base64: String,
}

/// A number as text, or `missing`.
pub open spec fn number_text(v: Option<u64>, missing: Seq<char>) -> Seq<char> {
    match v {
        Some(n) => dec(n as nat),
        None => missing,
    }
}

/// `true` or `false`.
pub open spec fn bool_text(b: bool) -> Seq<char> {
    if b {
        "true"@
    } else {
        "false"@
    }
}

/// About `head` characters of `s` at its start and `tail` at its end.
pub open spec fn preview(s: Seq<char>, head: nat, tail: nat) -> Seq<char> {
    spec_truncate_middle(s, head + tail + 3)
}

/// Length in bytes (UTF-8).
pub open spec fn byte_len(s: Seq<char>) -> nat {
    encode_utf8(s).len()
}

/// The summary of a request: the sign-job fields for the sign commands (the
/// secret-free lengths and previews of the certificate id and the chunk), else
/// the payload's compact JSON `json` cut to 280 characters.
pub open spec fn spec_request_summary(cmd: HostCmd, f: PayloadFields, json: Seq<char>) -> Seq<char> {
    match cmd {
        HostCmd::SignPdfStart => "job_id="@ + f.job_id@ + ",total_chunks="@ + number_text(f.total_chunks, "n/a"@)
            + ",slot_id="@ + number_text(f.slot_id, "none"@) + ",cert_id_present="@ + bool_text(f.cert_id@.len() > 0)
            + ",cert_id_len="@ + dec(byte_len(f.cert_id@)) + ",cert_id_preview="@ + preview(f.cert_id@, 8, 8),
        HostCmd::SignPdfChunk => "job_id="@ + f.job_id@ + ",index="@ + number_text(f.index, "n/a"@)
            + ",chunk_base64_len="@ + dec(byte_len(f.chunk_base64@)) + ",chunk_base64_preview="@ + preview(
            f.chunk_base64@,
            8,
            8,
        ),
        HostCmd::SignPdfEnd => "job_id="@ + f.job_id@,
        _ => spec_truncate_middle(json, 280),
    }
}

fn push_number(s: &mut String, v: Option<u64>, missing: &str)
    ensures
        final(s)@ == old(s)@ + number_text(v, missing@),
{
    match v {
        Some(n) => push_decimal_u64(s, n),
        None => push_str(s, missing),
    }
}

fn push_bool(s: &mut String, b: bool)
    ensures
        final(s)@ == old(s)@ + bool_text(b),
{
    if b {
        push_str(s, "true");
    } else {
        push_str(s, "false");
    }
}

/// The log summary of a request with command `cmd`, payload fields `fields` and
/// compact payload JSON `payload_json`.
pub fn summarize_request_payload(cmd: HostCmd, fields: &PayloadFields, payload_json: &str) -> (r: String)
    requires
        byte_len(fields.cert_id@) <= usize::MAX,
        byte_len(fields.chunk_base64@) <= usize::MAX,
    ensures
        r@ == spec_request_summary(cmd, *fields, payload_json@),
{
    match cmd {
        HostCmd::SignPdfStart => {
            let cert_id = fields.cert_id.as_str();
            let mut r = String::from_str("job_id=");
            push_str(&mut r, fields.job_id.as_str());
            push_str(&mut r, ",total_chunks=");
            push_number(&mut r, fields.total_chunks, "n/a");
            push_str(&mut r, ",slot_id=");
            push_number(&mut r, fields.slot_id, "none");
            push_str(&mut r, ",cert_id_present=");
            push_bool(&mut r, !cert_id.is_empty());
            push_str(&mut r, ",cert_id_len=");
            push_decimal(&mut r, cert_id.len());
            push_str(&mut r, ",cert_id_preview=");
            let p = preview_head_tail(cert_id, 8, 8);
            push_str(&mut r, p.as_str());
            assert(r@ =~= spec_request_summary(cmd, *fields, payload_json@));
            r
        },
        HostCmd::SignPdfChunk => {
            let chunk = fields.chunk_base64.as_str();
            let mut r = String::from_str("job_id=");
            push_str(&mut r, fields.job_id.as_str());
            push_str(&mut r, ",index=");
            push_number(&mut r, fields.index, "n/a");
            push_str(&mut r, ",chunk_base64_len=");
            push_decimal(&mut r, chunk.len());
            push_str(&mut r, ",chunk_base64_preview=");
            let p = preview_head_tail(chunk, 8, 8);
            push_str(&mut r, p.as_str());
            assert(r@ =~= spec_request_summary(cmd, *fields, payload_json@));
            r
        },
        HostCmd::SignPdfEnd => {
            let mut r = String::from_str("job_id=");
            push_str(&mut r, fields.job_id.as_str());
            r
        },
        _ => truncate_middle(payload_json, 280),
    }
}

/// The `resultType` of a result, as sent.
pub open spec fn result_type_text(b: ResultBody) -> Seq<char> {
    match b {
        ResultBody::SignedChunk { .. } => "chunk"@,
        ResultBody::SignedFinal { .. } => "final"@,
        _ => "none"@,
    }
}

/// The `jobId` of a result, empty when it has none.
pub open spec fn result_job_id(b: ResultBody) -> Seq<char> {
    match b {
        ResultBody::JobAccepted { job_id } => job_id@,
        ResultBody::ChunkAccepted { job_id, .. } => job_id@,
        ResultBody::SignedChunk { job_id, .. } => job_id@,
        ResultBody::SignedFinal { job_id } => job_id@,
        _ => Seq::empty(),
    }
}

/// The `chunk` of a result, empty when it has none.
pub open spec fn result_chunk(b: ResultBody) -> Seq<char> {
    match b {
        ResultBody::SignedChunk { chunk, .. } => chunk@,
        _ => Seq::empty(),
    }
}

/// The `index` of a result, as text.
pub open spec fn result_index_text(b: ResultBody) -> Seq<char> {
    match b {
        ResultBody::ChunkAccepted { index, .. } => dec(index as nat),
        ResultBody::SignedChunk { index, .. } => dec(index as nat),
        _ => "n/a"@,
    }
}

/// The `totalChunks` of a result, as text.
pub open spec fn result_total_text(b: ResultBody) -> Seq<char> {
    match b {
        ResultBody::SignedChunk { total_chunks, .. } => dec(total_chunks as nat),
        _ => "n/a"@,
    }
}

/// The summary of a response: for a success its result's type, job, chunk
/// length and preview, index and chunk count, and its compact JSON
/// `result_json` cut to 220 characters; for a failure the code and the length
/// and preview of the message.
pub open spec fn spec_response_summary(r: HostResponse, result_json: Seq<char>) -> Seq<char> {
    if r.ok {
        match r.result {
            Some(b) => "result_type="@ + result_type_text(b) + ",job_id="@ + result_job_id(b) + ",chunk_len="@ + dec(
                byte_len(result_chunk(b)),
            ) + ",chunk_preview="@ + preview(result_chunk(b), 8, 8) + ",index="@ + result_index_text(b)
                + ",total_chunks="@ + result_total_text(b) + ",json="@ + spec_truncate_middle(result_json, 220),
            None => "ok=true,result=none"@,
        }
    } else {
        match r.error {
            Some(e) => "ok=false,error_code="@ + e.code@ + ",error_message_len="@ + dec(byte_len(e.message@))
                + ",error_message_preview="@ + preview(e.message@, 24, 24),
            None => "ok=false,error=none"@,
        }
    }
}

/// The log summary of `response`, whose result serialises to `result_json`.
pub fn summarize_response_payload(response: &HostResponse, result_json: &str) -> (s: String)
    requires
        response.result matches Some(b) ==> byte_len(result_chunk(b)) <= usize::MAX,
        response.error matches Some(e) ==> byte_len(e.message@) <= usize::MAX,
    ensures
        s@ == spec_response_summary(*response, result_json@),
{
    if response.ok {
        match &response.result {
            Some(b) => {
                let mut s = String::from_str("result_type=");
                let (result_type, job_id, chunk): (&str, &str, &str) = match b {
                    ResultBody::SignedChunk { job_id, chunk, .. } => ("chunk", job_id.as_str(), chunk.as_str()),
                    ResultBody::SignedFinal { job_id } => ("final", job_id.as_str(), ""),
                    ResultBody::JobAccepted { job_id } => ("none", job_id.as_str(), ""),
                    ResultBody::ChunkAccepted { job_id, .. } => ("none", job_id.as_str(), ""),
                    _ => ("none", "", ""),
                };
                proof {
                    reveal_strlit("");
                }
                push_str(&mut s, result_type);
                push_str(&mut s, ",job_id=");
                push_str(&mut s, job_id);
                push_str(&mut s, ",chunk_len=");
                push_decimal(&mut s, chunk.len());
                push_str(&mut s, ",chunk_preview=");
                let p = preview_head_tail(chunk, 8, 8);
                push_str(&mut s, p.as_str());
                push_str(&mut s, ",index=");
                match b {
                    ResultBody::ChunkAccepted { index, .. } => push_decimal_u64(&mut s, *index as u64),
                    ResultBody::SignedChunk { index, .. } => push_decimal(&mut s, *index),
                    _ => push_str(&mut s, "n/a"),
                }
                push_str(&mut s, ",total_chunks=");
                match b {
                    ResultBody::SignedChunk { total_chunks, .. } => push_decimal(&mut s, *total_chunks),
                    _ => push_str(&mut s, "n/a"),
                }
                push_str(&mut s, ",json=");
                let j = truncate_middle(result_json, 220);
                push_str(&mut s, j.as_str());
                assert(s@ =~= spec_response_summary(*response, result_json@));
                s
            },
            None => String::from_str("ok=true,result=none"),
        }
    } else {
        match &response.error {
            Some(e) => {
                let mut s = String::from_str("ok=false,error_code=");
                push_str(&mut s, e.code.as_str());
                push_str(&mut s, ",error_message_len=");
                push_decimal(&mut s, e.message.as_str().len());
                push_str(&mut s, ",error_message_preview=");
                let p = preview_head_tail(e.message.as_str(), 24, 24);
                push_str(&mut s, p.as_str());
                assert(s@ =~= spec_response_summary(*response, result_json@));
                s
            },
            None => String::from_str("ok=false,error=none"),
        }
    }
}

} // verus!
