use autodcr_bridge::commands::SignError;
use autodcr_bridge::error_code as err;
use autodcr_bridge::pdf::{compute_byte_range, digest_byte_range, locate_placeholder};
use autodcr_bridge::pin::PinError;
use autodcr_bridge::signing::{select_extra_certs, SignAction, SignFlow, SIGN_PIN_ATTEMPTS, SIGN_PIN_LABEL};

const SAMPLE: &[u8] = b"%PDF-1.7\n/ByteRange [0 ********** ********** **********]\n/Contents <0000000000000000000000000000000000000000000000000000000000000000>\n%%EOF\n";

fn failure(a: SignAction) -> (&'static str, String) {
    match a {
        SignAction::Done(Err(SignError::Other(code, message))) => (code, message),
        other => panic!("failure expected, got {other:?}"),
    }
}

#[test]
fn job_must_name_slot_certificate_and_allow_prompt() {
    let (_, a) = SignFlow::start(SAMPLE.to_vec(), None, Some("01".to_string()), true);
    assert_eq!(failure(a), (err::INVALID_PAYLOAD, "SIGN_PDF_START.slotId is required".to_string()));
    let (_, a) = SignFlow::start(SAMPLE.to_vec(), Some(1), None, true);
    assert_eq!(failure(a), (err::INVALID_PAYLOAD, "SIGN_PDF_START.certId is required".to_string()));
    let (_, a) = SignFlow::start(SAMPLE.to_vec(), Some(1), Some("01".to_string()), false);
    assert_eq!(
        failure(a),
        (err::PIN_CANCELLED, "prompt_pin disabled in config and no other PIN source is implemented".to_string())
    );
}

#[test]
fn pin_failures_map_to_codes() {
    let cases = vec![
        (PinError::Incorrect, err::PIN_INCORRECT, "Incorrect DSC PIN."),
        (PinError::Locked, err::PIN_LOCKED, "DSC token PIN is locked."),
        (PinError::NoDialog, err::PIN_CANCELLED, "no supported PIN dialog available"),
    ];
    for (e, code, message) in cases {
        let (mut flow, _) = SignFlow::start(SAMPLE.to_vec(), Some(1), Some("01".to_string()), true);
        assert_eq!(failure(flow.on_pin(Err(e))), (code, message.to_string()));
    }
    let (mut flow, _) = SignFlow::start(SAMPLE.to_vec(), Some(1), Some("01".to_string()), true);
    assert!(matches!(flow.on_pin(Err(PinError::Cancelled)), SignAction::Done(Err(SignError::Cancelled))));
}

#[test]
fn pdf_without_placeholder_is_invalid() {
    let (mut flow, _) = SignFlow::start(b"%PDF-1.7 plain".to_vec(), Some(1), Some("01".to_string()), true);
    assert_eq!(
        failure(flow.on_pin(Ok("1234".to_string()))),
        (err::PDF_INVALID, "PDF does not contain a /ByteRange placeholder".to_string())
    );
}

// "Signer" (EC key) issued by "Test Sub CA", and that CA's certificate.
const LEAF: &str = "\
308201143081baa003020102020103300a06082a8648ce3d04030230163114301206035504030c0b5465737420537562\
204341301e170d3234303130313030303030305a170d3334303130313030303030305a3011310f300d06035504030c06\
5369676e65723059301306072a8648ce3d020106082a8648ce3d0301070342000445a7ab236cf573869d0af211a0c62c\
bd65dff1895ce4f9b0f261b5100da1b0bce0fee454e8fada46a948da8f17485c2ff055cedad3df3353bbd614780740a4\
af300a06082a8648ce3d0403020349003046022100ffb8344ce58416c3863132bdbc4a6a95d83f52f914906453c20bd6\
e6fa091cc102210096525b04eb0b17c05092fc0f3204adf151fb590eab38d352f710e249279b43d8";

const SUB: &str = "\
308201163081bda003020102020102300a06082a8648ce3d04030230143112301006035504030c095465737420526f6f\
74301e170d3234303130313030303030305a170d3334303130313030303030305a30163114301206035504030c0b5465\
7374205375622043413059301306072a8648ce3d020106082a8648ce3d03010703420004376a5d754e07a04add5efc0d\
a63ea8b19adfb7be433e1afd3cc18752df2f327ab77ac98d7bc25c03ae45698800631f6f611e2d24f9bba7373cd020c1\
f793e398300a06082a8648ce3d0403020348003045022037cd90355b04c8eec168588b4d9fb76c73e20f16e0f017befa\
682d01aacaab6002210086e6830123894f6dbbbf4f1f5da25ec610f6fcd618c580da5b40ca815c96a0e7";

fn der(hex: &str) -> Vec<u8> {
    (0..hex.len()).step_by(2).map(|i| u8::from_str_radix(&hex[i..i + 2], 16).unwrap()).collect()
}

fn contains(hay: &[u8], needle: &[u8]) -> bool {
    hay.windows(needle.len()).any(|w| w == needle)
}

/// A PDF whose `/Contents` placeholder holds `hex_len` hex digits.
fn pdf_with_room(hex_len: usize) -> Vec<u8> {
    format!("%PDF-1.7\n/ByteRange [0 ********** ********** **********]\n/Contents <{}>\n%%EOF\n", "0".repeat(hex_len))
        .into_bytes()
}

/// Runs a flow up to the signing time, with the token's certificates `token_certs`.
fn flow_until_signing_time(pdf: Vec<u8>, signer: Vec<u8>, token_certs: Result<Vec<Vec<u8>>, String>) -> SignFlow {
    let (mut flow, _) = SignFlow::start(pdf, Some(4), Some("abcd".to_string()), true);
    flow.on_pin(Ok("1234".to_string()));
    flow.on_signer_cert(Ok(signer));
    assert!(matches!(flow.on_token_certs(token_certs), SignAction::ReadSigningTime));
    flow
}

#[test]
fn full_signing_run_splices_the_signature() {
    let pdf = pdf_with_room(8192);
    let (mut flow, a) = SignFlow::start(pdf.clone(), Some(4), Some("abcd".to_string()), true);
    match a {
        SignAction::VerifyPin { slot_id, token_label, max_attempts } => {
            assert_eq!(slot_id, 4);
            assert_eq!(token_label, "AutoDCR token");
            assert_eq!(token_label, SIGN_PIN_LABEL);
            assert_eq!(max_attempts, 3);
            assert_eq!(max_attempts, SIGN_PIN_ATTEMPTS);
        }
        other => panic!("PIN check expected, got {other:?}"),
    }
    match flow.on_pin(Ok("1234".to_string())) {
        SignAction::ReadSignerCert { slot_id, cert_id } => {
            assert_eq!(slot_id, 4);
            assert_eq!(cert_id, "abcd");
        }
        other => panic!("certificate read expected, got {other:?}"),
    }
    assert!(matches!(flow.on_signer_cert(Ok(der(LEAF))), SignAction::ReadTokenCerts { slot_id: 4 }));
    assert!(matches!(flow.on_token_certs(Ok(vec![der(LEAF), der(SUB)])), SignAction::ReadSigningTime));
    let data = match flow.on_signing_time(1_700_000_000) {
        SignAction::SignWithToken { slot_id, cert_id, signer_cert, pin, data } => {
            assert_eq!(slot_id, 4);
            assert_eq!(cert_id, "abcd");
            assert_eq!(signer_cert, der(LEAF));
            assert_eq!(pin, "1234");
            data
        }
        other => panic!("token signature expected, got {other:?}"),
    };
    // The signed attributes are a DER SET carrying the signing time 2023-11-14 22:13:20 UTC.
    assert_eq!(data[0], 0x31);
    assert!(contains(&data, b"231114221320Z"));
    let signature = vec![0xA5u8; 64];
    let out = match flow.on_signature(Ok(signature.clone())) {
        SignAction::Done(Ok(out)) => out,
        other => panic!("signed PDF expected, got {other:?}"),
    };
    assert_eq!(out.len(), pdf.len());
    let ph = locate_placeholder(&pdf).unwrap();
    let range = compute_byte_range(pdf.len(), &ph);
    let expected = format!("[0 {} {} {}", range[1], range[2], range[3]);
    assert!(out[ph.byte_range_start..].starts_with(expected.as_bytes()));
    // The digest of the covered bytes of the signed file is the messageDigest
    // in the attributes the token signed.
    let digest = digest_byte_range(&out, &range);
    assert!(contains(&data, &digest));
    // The CMS in /Contents embeds the signed attributes, the signature and both certificates.
    let hex = std::str::from_utf8(&out[ph.contents_open + 1..ph.contents_close]).unwrap().trim_end_matches('0');
    let hex = if hex.len() % 2 == 1 { format!("{hex}0") } else { hex.to_string() };
    let cms = der(&hex.to_lowercase());
    assert_eq!(cms[0], 0x30);
    let header = if data[1] < 0x80 { 2 } else { 2 + (data[1] & 0x7f) as usize };
    assert!(contains(&cms, &data[header..]));
    assert!(contains(&cms, &signature));
    assert!(contains(&cms, &der(LEAF)));
    assert!(contains(&cms, &der(SUB)));
    for (i, (a, b)) in pdf.iter().zip(out.iter()).enumerate() {
        let in_range = ph.byte_range_start <= i && i <= ph.byte_range_end;
        let in_hex = ph.contents_open < i && i < ph.contents_close;
        if !in_range && !in_hex {
            assert_eq!(a, b, "byte {i} changed");
        }
    }
}

#[test]
fn token_and_cms_failures() {
    let (mut flow, _) = SignFlow::start(SAMPLE.to_vec(), Some(4), Some("abcd".to_string()), true);
    flow.on_pin(Ok("1234".to_string()));
    assert_eq!(
        failure(flow.on_signer_cert(Err("certificate with requested CKA_ID not found".to_string()))),
        (err::PKCS11_SIGN_FAILED, "certificate with requested CKA_ID not found".to_string())
    );
    let mut flow = flow_until_signing_time(SAMPLE.to_vec(), vec![9], Ok(Vec::new()));
    assert_eq!(failure(flow.on_signing_time(1_700_000_000)), (err::CMS_BUILD_FAILED, "parse signer certificate DER".to_string()));
    let mut flow = flow_until_signing_time(SAMPLE.to_vec(), der(LEAF), Ok(vec![vec![9]]));
    assert_eq!(failure(flow.on_signing_time(1_700_000_000)), (err::CMS_BUILD_FAILED, "parse intermediate certificate".to_string()));
    // 2052 has no UTCTime form.
    let mut flow = flow_until_signing_time(SAMPLE.to_vec(), der(LEAF), Ok(Vec::new()));
    assert_eq!(failure(flow.on_signing_time(2_600_000_000)).0, err::CMS_BUILD_FAILED);
    let mut flow = flow_until_signing_time(SAMPLE.to_vec(), der(LEAF), Ok(Vec::new()));
    assert!(matches!(flow.on_signing_time(1_700_000_000), SignAction::SignWithToken { .. }));
    assert_eq!(failure(flow.on_signature(Err("C_Sign failed".to_string()))), (err::CMS_BUILD_FAILED, "C_Sign failed".to_string()));
    let mut flow = flow_until_signing_time(SAMPLE.to_vec(), der(LEAF), Ok(Vec::new()));
    flow.on_signing_time(1_700_000_000);
    let (code, message) = failure(flow.on_signature(Ok(vec![1u8; 64])));
    assert_eq!(code, err::PDF_INVALID);
    assert!(message.starts_with("signature ("));
    assert!(message.contains("exceeds /Contents placeholder (64 hex bytes)"));
}

#[test]
fn narrow_byte_range_placeholder_is_invalid() {
    let pdf = b"/ByteRange [0 1]\n/Contents <0000000000000000000000000000000000000000000000000000000000000000>".to_vec();
    let (mut flow, _) = SignFlow::start(pdf, Some(4), Some("abcd".to_string()), true);
    flow.on_pin(Ok("1".to_string()));
    flow.on_signer_cert(Ok(vec![9]));
    let (code, message) = failure(flow.on_token_certs(Ok(Vec::new())));
    assert_eq!(code, err::PDF_INVALID);
    assert_eq!(
        message,
        "rendered ByteRange width 11 does not match placeholder width 5; placeholder is too narrow for the actual offsets"
    );
}

#[test]
fn extra_certs_skip_signer_duplicates_and_roots() {
    let signer = vec![1u8];
    let token = Ok(vec![vec![1u8], vec![2u8], vec![2u8], vec![3u8]]);
    let chain = vec![vec![3u8], vec![4u8]];
    assert_eq!(select_extra_certs(&signer, token, chain), vec![vec![2u8], vec![3u8], vec![4u8]]);
    assert_eq!(select_extra_certs(&signer, Err("x".to_string()), vec![vec![5u8]]), vec![vec![5u8]]);
}
