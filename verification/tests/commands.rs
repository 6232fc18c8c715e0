use base64::Engine;
use autodcr_bridge::commands::{
    chunk_string, handle, invalid_json_response, list_certs_response, list_slots_response,
    oversized_frame_response, ping_response, pkcs11_init_timeout_message, pkcs11_load_error_code, preview_head_tail,
    resolve_pkcs11_module, signed_output_responses, usb_tokens_response, Dispatch, SignError, State,
};
use autodcr_bridge::config::HostOs;
use autodcr_bridge::config::Config;
use autodcr_bridge::error_code as err;
use autodcr_bridge::protocol::{
    HostEnvelope, HostResponse, Request, ResultBody, SignPdfChunkPayload, SignPdfEndPayload,
    SignPdfStartPayload, HOST_VERSION, MAX_CHUNK_BYTES, PROTOCOL_VERSION,
};

fn state() -> State {
    State::new(Config::default())
}

fn responses(d: Dispatch) -> Vec<HostResponse> {
    match d {
        Dispatch::Respond(rs) => rs,
        _ => panic!("expected ready responses"),
    }
}

fn start(job: &str, total: u32, slot: Option<u64>, cert: Option<&str>) -> Request {
    Request::SignPdfStart(Ok(SignPdfStartPayload {
        job_id: job.to_string(),
        file_name: None,
        total_chunks: total,
        content_type: None,
        slot_id: slot,
        cert_id: cert.map(|c| c.to_string()),
    }))
}

fn chunk(job: &str, index: u32, text: &str) -> Request {
    Request::SignPdfChunk(Ok(SignPdfChunkPayload {
        job_id: job.to_string(),
        index,
        chunk_base64: text.to_string(),
    }))
}

fn end(job: &str) -> Request {
    Request::SignPdfEnd(Ok(SignPdfEndPayload { job_id: job.to_string() }))
}

fn env(id: &str, request: Request) -> HostEnvelope {
    HostEnvelope { v: 1, id: id.to_string(), request }
}

fn error_code(r: &HostResponse) -> String {
    r.error.as_ref().unwrap().code.clone()
}

#[test]
fn ping_returns_host_version() {
    let mut s = state();
    let d = handle(&mut s, env("abc", Request::Ping));
    let id = match d {
        Dispatch::ProbeTokenPresence { id } => id,
        _ => panic!("PING probes for a token"),
    };
    let r = ping_response(id, HOST_VERSION.to_string(), false);
    assert_eq!(r.len(), 1);
    assert!(r[0].ok);
    assert_eq!(r[0].id, "abc");
    match r[0].result.as_ref().unwrap() {
        ResultBody::Ping { host_version, token_present, protocol_version } => {
            assert_eq!(host_version, HOST_VERSION);
            assert_eq!(*protocol_version, 1);
            assert!(!*token_present);
        }
        _ => panic!("PING result expected"),
    }
}

#[test]
fn sign_chunk_without_start_fails() {
    let mut s = state();
    let r = responses(handle(&mut s, env("x", chunk("j1", 0, "AA=="))));
    assert!(!r[0].ok);
    assert_eq!(error_code(&r[0]), err::UNKNOWN_JOB);
}

#[test]
fn list_usb_tokens_returns_well_formed_response() {
    let mut s = state();
    let id = match handle(&mut s, env("usb-1", Request::ListUsbTokens)) {
        Dispatch::ListUsbTokens { id } => id,
        _ => panic!("LIST_USB_TOKENS enumerates USB devices"),
    };
    let r = usb_tokens_response(id, Ok(Vec::new()));
    assert_eq!(r.len(), 1);
    assert_eq!(r[0].id, "usb-1");
    if r[0].ok {
        assert!(matches!(r[0].result, Some(ResultBody::UsbTokens { .. })), "tokens must be an array");
    } else {
        assert_eq!(error_code(&r[0]), err::USB_ENUM_FAILED);
    }
}

#[test]
fn usb_enumeration_failure_reports_code() {
    let r = usb_tokens_response("u".to_string(), Err("libusb: no device".to_string()));
    assert!(!r[0].ok);
    assert_eq!(error_code(&r[0]), err::USB_ENUM_FAILED);
    assert_eq!(r[0].error.as_ref().unwrap().message, "libusb: no device");
}

#[test]
fn sign_start_then_chunk_succeeds() {
    let mut s = state();
    let r = responses(handle(&mut s, env("1", start("j1", 2, Some(0), Some("00")))));
    assert!(r[0].ok, "{:?}", r[0].error);
    let r = responses(handle(&mut s, env("2", chunk("j1", 0, "AA=="))));
    assert!(r[0].ok);
}

#[test]
fn start_without_chunks_is_invalid() {
    let mut s = state();
    let r = responses(handle(&mut s, env("1", start("j1", 0, None, None))));
    assert!(!r[0].ok);
    assert_eq!(error_code(&r[0]), err::INVALID_PAYLOAD);
    assert_eq!(r[0].error.as_ref().unwrap().message, "SIGN_PDF_START requires jobId and totalChunks > 0.");
    let r = responses(handle(&mut s, env("2", start("", 3, None, None))));
    assert_eq!(error_code(&r[0]), err::INVALID_PAYLOAD);
}

#[test]
fn chunk_index_out_of_range_is_refused() {
    let mut s = state();
    responses(handle(&mut s, env("1", start("j1", 2, Some(0), Some("00")))));
    let r = responses(handle(&mut s, env("2", chunk("j1", 2, "AA=="))));
    assert_eq!(error_code(&r[0]), err::INVALID_CHUNK_INDEX);
    assert_eq!(r[0].error.as_ref().unwrap().message, "Chunk index is out of range.");
}

#[test]
fn end_assembles_chunks_in_index_order_and_consumes_job() {
    let mut s = state();
    responses(handle(&mut s, env("1", start("j1", 2, Some(7), Some("abcd")))));
    // Chunks arrive out of order; "aGVs" + "bG8=" is base64 of "hello".
    responses(handle(&mut s, env("2", chunk("j1", 1, "bG8="))));
    responses(handle(&mut s, env("3", chunk("j1", 0, "aGVs"))));
    match handle(&mut s, env("4", end("j1"))) {
        Dispatch::SignPdf { id, job_id, pdf, slot_id, cert_id } => {
            assert_eq!(id, "4");
            assert_eq!(job_id, "j1");
            assert_eq!(pdf, b"hello".to_vec());
            assert_eq!(slot_id, Some(7));
            assert_eq!(cert_id.as_deref(), Some("abcd"));
        }
        _ => panic!("SIGN_PDF_END hands the PDF to signing"),
    }
    let r = responses(handle(&mut s, env("5", end("j1"))));
    assert_eq!(error_code(&r[0]), err::UNKNOWN_JOB);
    assert_eq!(r[0].error.as_ref().unwrap().message, "SIGN_PDF_END received before SIGN_PDF_START.");
}

#[test]
fn end_with_bad_base64_is_invalid_payload() {
    let mut s = state();
    responses(handle(&mut s, env("1", start("j1", 1, None, None))));
    responses(handle(&mut s, env("2", chunk("j1", 0, "!!!"))));
    let r = responses(handle(&mut s, env("3", end("j1"))));
    assert_eq!(error_code(&r[0]), err::INVALID_PAYLOAD);
    assert!(r[0].error.as_ref().unwrap().message.starts_with("base64 decode failed: "));
}

#[test]
fn list_certs_requires_slot() {
    let mut s = state();
    let r = responses(handle(&mut s, env("c", Request::ListCerts { slot_id: None })));
    assert_eq!(error_code(&r[0]), err::INVALID_PAYLOAD);
    assert_eq!(r[0].error.as_ref().unwrap().message, "LIST_CERTS requires payload.slotId");
    match handle(&mut s, env("c", Request::ListCerts { slot_id: Some(3) })) {
        Dispatch::ListCerts { id, slot_id } => {
            assert_eq!(id, "c");
            assert_eq!(slot_id, 3);
        }
        _ => panic!("LIST_CERTS reads the slot"),
    }
}

#[test]
fn undecodable_payload_is_invalid_payload() {
    let mut s = state();
    let r = responses(handle(&mut s, env("p", Request::SignPdfStart(Err("missing field `jobId`".to_string())))));
    assert_eq!(error_code(&r[0]), err::INVALID_PAYLOAD);
    assert_eq!(r[0].error.as_ref().unwrap().message, "missing field `jobId`");
}

#[test]
fn list_certs_failure_is_cert_not_found() {
    let r = list_certs_response("c".to_string(), Err("slot id 9 not present".to_string()));
    assert_eq!(error_code(&r[0]), err::CERT_NOT_FOUND);
    let r = list_certs_response("c".to_string(), Ok(Vec::new()));
    assert!(r[0].ok);
}

#[test]
fn load_error_code_detects_timeout_marker() {
    assert_eq!(pkcs11_load_error_code("PKCS11_INIT_TIMEOUT: PKCS#11 init timed out after 10s"), err::PKCS11_INIT_TIMEOUT);
    assert_eq!(pkcs11_load_error_code("dlopen /x.so failed"), err::PKCS11_INIT_FAILED);
}

#[test]
fn list_slots_probes_usb_only_on_success() {
    let r = list_slots_response("s".to_string(), Ok(Vec::new()), Some("/lib/p11.so".to_string()), || true);
    match r[0].result.as_ref().unwrap() {
        ResultBody::Slots { slots, pkcs11_module, usb_token_likely_present } => {
            assert!(slots.is_empty());
            assert_eq!(pkcs11_module.as_deref(), Some("/lib/p11.so"));
            assert!(*usb_token_likely_present);
        }
        _ => panic!("slots expected"),
    }
    let r = list_slots_response("s".to_string(), Err("PKCS11_INIT_TIMEOUT: slow".to_string()), None, || -> bool {
        panic!("no USB probe on failure")
    });
    assert_eq!(error_code(&r[0]), err::PKCS11_INIT_TIMEOUT);
}

#[test]
fn chunk_string_under_limit() {
    let parts = chunk_string("hello", 16);
    assert_eq!(parts, vec!["hello".to_string()]);
}

#[test]
fn chunk_string_at_boundary() {
    let parts = chunk_string("aaaabbbb", 4);
    assert_eq!(parts, vec!["aaaa".to_string(), "bbbb".to_string()]);
}

#[test]
fn chunk_string_empty_gives_one_empty_piece() {
    assert_eq!(chunk_string("", 4), vec![String::new()]);
    assert_eq!(chunk_string("abcde", 2), vec!["ab".to_string(), "cd".to_string(), "e".to_string()]);
}

#[test]
fn signed_output_is_chunked_base64_then_final() {
    let pdf = vec![7u8; MAX_CHUNK_BYTES]; // base64 is 4/3 as long: two chunks
    let rs = signed_output_responses("e".to_string(), "j".to_string(), Ok(pdf.clone()));
    assert_eq!(rs.len(), 3);
    let mut joined = String::new();
    for (i, r) in rs[..2].iter().enumerate() {
        match r.result.as_ref().unwrap() {
            ResultBody::SignedChunk { job_id, chunk, index, total_chunks } => {
                assert_eq!(job_id, "j");
                assert_eq!(*index, i);
                assert_eq!(*total_chunks, 2);
                joined.push_str(chunk);
            }
            _ => panic!("chunk expected"),
        }
    }
    assert!(matches!(rs[2].result, Some(ResultBody::SignedFinal { .. })));
    assert_eq!(joined.len(), 4 * ((MAX_CHUNK_BYTES + 2) / 3));
    assert!(joined.starts_with("BwcH"));
    assert_eq!(base64::engine::general_purpose::STANDARD.decode(&joined).unwrap(), pdf);
}

#[test]
fn sign_failures_are_reported() {
    let rs = signed_output_responses("e".to_string(), "j".to_string(), Err(SignError::Cancelled));
    assert_eq!(rs.len(), 1);
    assert_eq!(error_code(&rs[0]), err::PIN_CANCELLED);
    assert_eq!(rs[0].error.as_ref().unwrap().message, "User cancelled the PIN prompt.");
    let rs = signed_output_responses(
        "e".to_string(),
        "j".to_string(),
        Err(SignError::Other(err::PDF_INVALID, "bad".to_string())),
    );
    assert_eq!(error_code(&rs[0]), err::PDF_INVALID);
    assert_eq!(rs[0].error.as_ref().unwrap().message, "bad");
}

#[test]
fn frame_failures_are_answered_to_unknown() {
    let r = oversized_frame_response(1048576, 1048577);
    assert_eq!(r.id, "unknown");
    assert_eq!(error_code(&r), err::MSG_TOO_LARGE);
    assert_eq!(r.error.as_ref().unwrap().message, "Message exceeded 1048576 byte cap (got 1048577).");
    let r = invalid_json_response("expected value at line 1 column 1");
    assert_eq!(error_code(&r), err::INVALID_JSON);
    assert_eq!(
        r.error.as_ref().unwrap().message,
        "Could not parse incoming JSON envelope: expected value at line 1 column 1"
    );
    assert_eq!(r.v, PROTOCOL_VERSION);
}

#[test]
fn head_tail_preview_keeps_ends() {
    assert_eq!(preview_head_tail("0123456789abcdefXYZ", 4, 3), "0123...XYZ");
    assert_eq!(preview_head_tail("short", 8, 8), "short");
}

#[test]
fn configured_module_is_used() {
    let mut c = Config::default();
    c.pkcs11_module = Some("/opt/token/libp11.so".to_string());
    assert_eq!(resolve_pkcs11_module(&c, HostOs::Other).unwrap(), "/opt/token/libp11.so");
    match resolve_pkcs11_module(&Config::default(), HostOs::Other) {
        Ok(p) => assert!(p.ends_with(".so")),
        Err(e) => assert_eq!(e, "no PKCS#11 module configured and no vendor default detected"),
    }
}

#[test]
fn timeout_message_carries_the_marker() {
    let m = pkcs11_init_timeout_message(10, "/x.so");
    assert!(m.starts_with("PKCS11_INIT_TIMEOUT: PKCS#11 init timed out after 10s (module /x.so). The driver"));
    assert_eq!(pkcs11_load_error_code(&m), err::PKCS11_INIT_TIMEOUT);
}

fn assert_envelope(r: &HostResponse, id: &str) {
    assert_eq!(r.v, PROTOCOL_VERSION);
    assert_eq!(r.id, id);
    assert_eq!(r.ok, r.result.is_some());
    assert_eq!(r.ok, r.error.is_none());
}

#[test]
fn every_ready_answer_is_one_envelope_for_the_request() {
    let mut s = state();
    let requests = vec![
        Request::ListCerts { slot_id: None },
        start("j", 1, Some(1), Some("01")),
        chunk("j", 5, "AAAA"),
        chunk("j", 0, "JVBERi0x"),
        chunk("nope", 0, "AAAA"),
        end("nope"),
        Request::SignPdfStart(Err("bad payload".to_string())),
    ];
    for (n, request) in requests.into_iter().enumerate() {
        let id = format!("r{n}");
        match handle(&mut s, env(&id, request)) {
            Dispatch::Respond(rs) => {
                assert_eq!(rs.len(), 1);
                assert_envelope(&rs[0], &id);
            }
            other => panic!("a ready answer expected, got {other:?}"),
        }
    }
    match handle(&mut s, env("last", end("j"))) {
        Dispatch::SignPdf { id, .. } => assert_eq!(id, "last"),
        other => panic!("signing expected, got {other:?}"),
    }
    for r in signed_output_responses("out".to_string(), "j".to_string(), Ok(vec![7u8; 300_000])) {
        assert_envelope(&r, "out");
    }
    for r in signed_output_responses("out".to_string(), "j".to_string(), Err(SignError::Cancelled)) {
        assert_envelope(&r, "out");
    }
}
