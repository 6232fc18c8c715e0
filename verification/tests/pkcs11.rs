use autodcr_bridge::pkcs11::{
    cert_info, certificate_key, decode_cert_id, find_matching_key, find_private_key_handle, no_matching_key_message,
    private_key_matches,
    strip_leading_zero, any_token_present, cert_metadata, CertPublicKey, KeyKind, PrivateKeyAttributes, SlotInfo,
};

#[test]
fn strip_leading_zero_removes_single_leading_zero() {
    assert_eq!(strip_leading_zero(&[0x00, 0xff, 0x01]), &[0xff, 0x01]);
}

#[test]
fn strip_leading_zero_preserves_no_leading_zero() {
    assert_eq!(strip_leading_zero(&[0x7f, 0x01]), &[0x7f, 0x01]);
}

#[test]
fn strip_leading_zero_preserves_lone_zero() {
    // A single 0x00 byte represents the integer zero; do not collapse to empty.
    assert_eq!(strip_leading_zero(&[0x00]), &[0x00]);
}

#[test]
fn strip_leading_zero_keeps_only_one() {
    assert_eq!(strip_leading_zero(&[0x00, 0x00, 0xab]), &[0x00, 0xab]);
}

#[test]
fn strip_leading_zero_handles_empty() {
    assert_eq!(strip_leading_zero(&[]), &[] as &[u8]);
}

fn rsa_key(modulus: &[u8], exponent: &[u8]) -> PrivateKeyAttributes {
    PrivateKeyAttributes {
        key_type: Some(KeyKind::Rsa),
        modulus: modulus.to_vec(),
        public_exponent: exponent.to_vec(),
        ec_point: Vec::new(),
    }
}

#[test]
fn rsa_key_matches_up_to_sign_byte() {
    let cert = CertPublicKey::Rsa { modulus: vec![0x00, 0xc1, 0x02], exponent: vec![0x01, 0x00, 0x01] };
    assert!(private_key_matches(&cert, &rsa_key(&[0xc1, 0x02], &[0x01, 0x00, 0x01])));
    assert!(!private_key_matches(&cert, &rsa_key(&[0xc1, 0x03], &[0x01, 0x00, 0x01])));
    assert!(!private_key_matches(&cert, &rsa_key(&[], &[0x01, 0x00, 0x01])));
}

#[test]
fn ec_point_found_inside_octet_string() {
    let cert = CertPublicKey::Ec { point: vec![0x04, 0xaa, 0xbb] };
    let key = PrivateKeyAttributes {
        key_type: Some(KeyKind::Ec),
        modulus: Vec::new(),
        public_exponent: Vec::new(),
        ec_point: vec![0x04, 0x03, 0x04, 0xaa, 0xbb],
    };
    assert!(private_key_matches(&cert, &key));
    let wrong_type = PrivateKeyAttributes { key_type: Some(KeyKind::Rsa), ..key.clone() };
    assert!(!private_key_matches(&cert, &wrong_type));
}

#[test]
fn first_matching_candidate_is_chosen() {
    let cert = CertPublicKey::Rsa { modulus: vec![0x05], exponent: vec![0x03] };
    let candidates = vec![
        None,
        Some(rsa_key(&[0x06], &[0x03])),
        Some(rsa_key(&[0x05], &[0x03])),
        Some(rsa_key(&[0x00, 0x05], &[0x03])),
    ];
    assert_eq!(find_matching_key(&cert, &candidates), Some(2));
    assert_eq!(find_matching_key(&CertPublicKey::Other, &candidates), None);
}

// An EC certificate ("Signer", issued by "Test Sub CA") and its public point.
const LEAF: &str = "\
308201143081baa003020102020103300a06082a8648ce3d04030230163114301206035504030c0b5465737420537562\
204341301e170d3234303130313030303030305a170d3334303130313030303030305a3011310f300d06035504030c06\
5369676e65723059301306072a8648ce3d020106082a8648ce3d0301070342000445a7ab236cf573869d0af211a0c62c\
bd65dff1895ce4f9b0f261b5100da1b0bce0fee454e8fada46a948da8f17485c2ff055cedad3df3353bbd614780740a4\
af300a06082a8648ce3d0403020349003046022100ffb8344ce58416c3863132bdbc4a6a95d83f52f914906453c20bd6\
e6fa091cc102210096525b04eb0b17c05092fc0f3204adf151fb590eab38d352f710e249279b43d8";
const LEAF_POINT: &str = "0445a7ab236cf573869d0af211a0c62cbd65dff1895ce4f9b0f261b5100da1b0bce0fee454e8fada46a948da8f17485c2ff055cedad3df3353bbd614780740a4af";

fn der(hex: &str) -> Vec<u8> {
    (0..hex.len()).step_by(2).map(|i| u8::from_str_radix(&hex[i..i + 2], 16).unwrap()).collect()
}

#[test]
fn certificate_key_reads_the_ec_point() {
    match certificate_key(&der(LEAF)).unwrap() {
        CertPublicKey::Ec { point } => assert_eq!(point, der(LEAF_POINT)),
        other => panic!("EC key expected, got {other:?}"),
    }
    let e = certificate_key(&[1, 2, 3]).unwrap_err();
    assert!(e.starts_with("parse certificate DER for fallback: "));
}

#[test]
fn cert_id_is_decoded_from_hex() {
    assert_eq!(decode_cert_id("00aBff").unwrap(), vec![0x00, 0xab, 0xff]);
    assert_eq!(decode_cert_id("").unwrap(), Vec::<u8>::new());
    assert_eq!(decode_cert_id("abc").unwrap_err(), "cert_id is not valid hex");
    assert_eq!(decode_cert_id("zz").unwrap_err(), "cert_id is not valid hex");
}

#[test]
fn cert_info_encodes_id_value_and_metadata() {
    let c = cert_info(&[0x0a, 0xff], "My cert".to_string(), &der(LEAF)).unwrap();
    assert_eq!(c.id, "0aff");
    assert_eq!(c.label, "My cert");
    assert_eq!(c.subject, "CN=Signer");
    assert_eq!(c.issuer, "CN=Test Sub CA");
    assert!(c.not_before.as_deref().unwrap().contains("2024"));
    assert!(c.not_after.as_deref().unwrap().contains("2034"));
    assert_eq!(c.serial.as_deref(), Some("3"));
    let raw = cert_info(&[1], String::new(), &[1, 2, 3]).unwrap();
    assert_eq!(raw.der_base64, "AQID");
    assert_eq!(raw.subject, "");
    assert!(raw.not_before.is_none() && raw.serial.is_none());
    assert_eq!(cert_info(&[1], String::new(), &[]).unwrap_err(), "certificate object had no CKA_VALUE");
    let m = cert_metadata(&der(LEAF));
    assert_eq!(m.subject, "CN=Signer");
}

#[test]
fn no_match_message_lists_candidates() {
    let considered = vec!["{cka_id=01,key_type=Some(RSA)}".to_string(), "<get_attrs failed: x>".to_string()];
    assert_eq!(
        no_matching_key_message(&[0xbe, 0xef], &considered),
        "no private key matches certificate public key (cert_id=beef, considered=[{cka_id=01,key_type=Some(RSA)}, <get_attrs failed: x>])"
    );
    assert_eq!(
        no_matching_key_message(&[], &Vec::new()),
        "no private key matches certificate public key (cert_id=, considered=[])"
    );
}

fn ec_key(point: &[u8]) -> PrivateKeyAttributes {
    PrivateKeyAttributes { key_type: Some(KeyKind::Ec), modulus: Vec::new(), public_exponent: Vec::new(), ec_point: point.to_vec() }
}

#[test]
fn private_key_is_found_by_id_then_by_public_key() {
    let leaf = der(LEAF);
    let none = |_: u32| -> (Option<PrivateKeyAttributes>, String) { panic!("no key is read") };
    let unlisted = || -> Result<Vec<u32>, String> { panic!("no key is listed") };
    // The CKA_ID lookup wins.
    assert_eq!(find_private_key_handle(&[1], &leaf, || Ok(vec![7u32, 8]), unlisted, none), Ok(7));
    assert_eq!(
        find_private_key_handle(&[1], &leaf, || Err("C_FindObjects".to_string()), unlisted, none).unwrap_err(),
        "find private key by CKA_ID"
    );
    // Fallback: the first key whose EC point holds the certificate's.
    let mut wrapped = vec![0x04u8, 0x41];
    wrapped.extend_from_slice(&der(LEAF_POINT));
    let read = |h: u32| -> (Option<PrivateKeyAttributes>, String) {
        match h {
            1 => (None, "<get_attrs failed: x>".to_string()),
            2 => (Some(ec_key(&[0x04, 0x01])), "{cka_id=02,key_type=Some(EC)}".to_string()),
            _ => (Some(ec_key(&wrapped)), "{cka_id=03,key_type=Some(EC)}".to_string()),
        }
    };
    assert_eq!(find_private_key_handle(&[1], &leaf, || Ok(Vec::new()), || Ok(vec![1u32, 2, 3, 4]), read), Ok(3));
    assert_eq!(
        find_private_key_handle(&[0xab], &leaf, || Ok(Vec::new()), || Ok(vec![1u32, 2]), read).unwrap_err(),
        "no private key matches certificate public key (cert_id=ab, considered=[<get_attrs failed: x>, {cka_id=02,key_type=Some(EC)}])"
    );
    assert_eq!(
        find_private_key_handle(&[1], &leaf, || Ok(Vec::new()), || Ok(Vec::<u32>::new()), none).unwrap_err(),
        "token has no private key objects after login"
    );
    assert_eq!(
        find_private_key_handle(&[1], &leaf, || Ok(Vec::new()), || Err("x".to_string()), none).unwrap_err(),
        "enumerate private keys for fallback match"
    );
    let e = find_private_key_handle(&[1], &[1, 2, 3], || Ok(Vec::<u32>::new()), unlisted, none).unwrap_err();
    assert!(e.starts_with("parse certificate DER for fallback: "));
}

fn slot(id: u64, token_present: bool) -> SlotInfo {
    SlotInfo {
        id,
        label: String::new(),
        manufacturer: String::new(),
        model: String::new(),
        serial: String::new(),
        token_present,
    }
}

#[test]
fn any_slot_with_a_token_counts() {
    assert!(!any_token_present(&Vec::new()));
    assert!(!any_token_present(&vec![slot(1, false), slot(2, false)]));
    assert!(any_token_present(&vec![slot(1, false), slot(2, true)]));
}
