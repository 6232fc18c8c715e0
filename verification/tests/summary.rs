use autodcr_bridge::protocol::{HostCmd, HostError, HostResponse, ResultBody};
use autodcr_bridge::summary::{summarize_request_payload, summarize_response_payload, PayloadFields};

fn fields() -> PayloadFields {
    PayloadFields {
        job_id: "j1".to_string(),
        total_chunks: Some(3),
        slot_id: None,
        cert_id: "abcdef0123456789abcdef".to_string(),
        index: None,
        chunk_base64: "QUJD".to_string(),
    }
}

#[test]
fn request_summaries_show_lengths_and_previews() {
    assert_eq!(
        summarize_request_payload(HostCmd::SignPdfStart, &fields(), "{}"),
        "job_id=j1,total_chunks=3,slot_id=none,cert_id_present=true,cert_id_len=22,cert_id_preview=abcdef01...89abcdef"
    );
    assert_eq!(
        summarize_request_payload(HostCmd::SignPdfChunk, &fields(), "{}"),
        "job_id=j1,index=n/a,chunk_base64_len=4,chunk_base64_preview=QUJD"
    );
    assert_eq!(summarize_request_payload(HostCmd::SignPdfEnd, &fields(), "{}"), "job_id=j1");
    assert_eq!(summarize_request_payload(HostCmd::Ping, &fields(), "{\"a\":1}"), "{\"a\":1}");
    let long = "x".repeat(300);
    assert_eq!(summarize_request_payload(HostCmd::ListSlots, &fields(), &long).chars().count(), 280);
}

#[test]
fn response_summaries() {
    let chunk = HostResponse {
        v: 1,
        id: "r".to_string(),
        ok: true,
        result: Some(ResultBody::SignedChunk { job_id: "j".to_string(), chunk: "AAAA".to_string(), index: 0, total_chunks: 2 }),
        error: None,
    };
    assert_eq!(
        summarize_response_payload(&chunk, "X"),
        "result_type=chunk,job_id=j,chunk_len=4,chunk_preview=AAAA,index=0,total_chunks=2,json=X"
    );
    let failed = HostResponse {
        v: 1,
        id: "r".to_string(),
        ok: false,
        result: None,
        error: Some(HostError { code: "E".to_string(), message: "m".to_string() }),
    };
    assert_eq!(summarize_response_payload(&failed, "null"), "ok=false,error_code=E,error_message_len=1,error_message_preview=m");
    let empty = HostResponse { v: 1, id: "r".to_string(), ok: true, result: None, error: None };
    assert_eq!(summarize_response_payload(&empty, "null"), "ok=true,result=none");
}
