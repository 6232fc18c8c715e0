use autodcr_bridge::cms::{assemble_signed_data, check_cms_certs};
use autodcr_bridge::pdf::build_cms_signature;
use std::cell::RefCell;

// "Signer" (EC key) issued by "Test Sub CA", and that CA's certificate.
const LEAF: &str = "\
308201143081baa003020102020103300a06082a8648ce3d04030230163114301206035504030c0b5465737420537562\
204341301e170d3234303130313030303030305a170d3334303130313030303030305a3011310f300d06035504030c06\
5369676e65723059301306072a8648ce3d020106082a8648ce3d0301070342000445a7ab236cf573869d0af211a0c62c\
bd65dff1895ce4f9b0f261b5100da1b0bce0fee454e8fada46a948da8f17485c2ff055cedad3df3353bbd614780740a4\
af300a06082a8648ce3d0403020349003046022100ffb8344ce58416c3863132bdbc4a6a95d83f52f914906453c20bd6\
e6fa091cc102210096525b04eb0b17c05092fc0f3204adf151fb590eab38d352f710e249279b43d8";

const SUB: &str = "\
308201163081bda003020102020102300a06082a8648ce3d04030230143112301006035504030c095465737420526f6f\
74301e170d3234303130313030303030305a170d3334303130313030303030305a30163114301206035504030c0b5465\
7374205375622043413059301306072a8648ce3d020106082a8648ce3d03010703420004376a5d754e07a04add5efc0d\
a63ea8b19adfb7be433e1afd3cc18752df2f327ab77ac98d7bc25c03ae45698800631f6f611e2d24f9bba7373cd020c1\
f793e398300a06082a8648ce3d0403020348003045022037cd90355b04c8eec168588b4d9fb76c73e20f16e0f017befa\
682d01aacaab6002210086e6830123894f6dbbbf4f1f5da25ec610f6fcd618c580da5b40ca815c96a0e7";

fn der(hex: &str) -> Vec<u8> {
    (0..hex.len()).step_by(2).map(|i| u8::from_str_radix(&hex[i..i + 2], 16).unwrap()).collect()
}

fn contains(hay: &[u8], needle: &[u8]) -> bool {
    hay.windows(needle.len()).any(|w| w == needle)
}

#[test]
fn cms_signs_the_attributes_and_embeds_the_chain() {
    let digest = [0x11u8; 32];
    let seen = RefCell::new(Vec::new());
    let cms = build_cms_signature(&digest, &der(LEAF), &vec![der(SUB)], 1_700_000_000, |attrs: &[u8]| {
        *seen.borrow_mut() = attrs.to_vec();
        Ok(vec![0x5Au8; 48])
    })
    .unwrap();
    let attrs = seen.into_inner();
    // SET OF attributes with the messageDigest OCTET STRING and the UTCTime.
    assert_eq!(attrs[0], 0x31);
    let mut md = vec![0x04u8, 0x20];
    md.extend_from_slice(&digest);
    assert!(contains(&attrs, &md));
    assert!(contains(&attrs, b"231114221320Z"));
    // ContentInfo id-signedData (1.2.840.113549.1.7.2).
    assert_eq!(cms[0], 0x30);
    assert!(contains(&cms, &[0x06, 0x09, 0x2a, 0x86, 0x48, 0x86, 0xf7, 0x0d, 0x01, 0x07, 0x02]));
    assert!(contains(&cms, &der(LEAF)));
    assert!(contains(&cms, &der(SUB)));
    assert!(contains(&cms, &[0x5Au8; 48]));
    // The same pieces assemble to the same CMS.
    assert_eq!(assemble_signed_data(&der(LEAF), &vec![der(SUB)], &attrs, &[0x5Au8; 48]).unwrap(), cms);
    // Without the further certificate the CMS is shorter and lacks it.
    let alone = assemble_signed_data(&der(LEAF), &Vec::new(), &attrs, &[0x5Au8; 48]).unwrap();
    assert!(!contains(&alone, &der(SUB)));
    assert!(alone.len() < cms.len());
}

#[test]
fn cms_errors() {
    let digest = [0u8; 32];
    let never = |_: &[u8]| -> Result<Vec<u8>, String> { panic!("the token must not be asked") };
    assert_eq!(
        build_cms_signature(&digest, &[1, 2, 3], &Vec::new(), 1_700_000_000, never).unwrap_err(),
        "parse signer certificate DER"
    );
    assert_eq!(
        build_cms_signature(&digest, &der(LEAF), &vec![vec![7u8]], 1_700_000_000, never).unwrap_err(),
        "parse intermediate certificate"
    );
    assert!(build_cms_signature(&digest, &der(LEAF), &Vec::new(), 2_600_000_000, never).is_err());
    assert_eq!(
        build_cms_signature(&digest, &der(LEAF), &Vec::new(), 1_700_000_000, |_: &[u8]| Err("C_Sign failed".to_string()))
            .unwrap_err(),
        "C_Sign failed"
    );
    assert!(assemble_signed_data(&[1, 2], &Vec::new(), &[0x31, 0x00], &[1]).is_err());
    assert!(check_cms_certs(&der(LEAF), &vec![der(SUB)]).is_ok());
    assert_eq!(check_cms_certs(&der(SUB), &vec![der(LEAF), vec![]]).unwrap_err(), "parse intermediate certificate");
}

#[test]
fn cms_profile_is_signed_data_v1_sha256_rsa_detached_data() {
    let digest = [0x22u8; 32];
    let cms = build_cms_signature(&digest, &der(LEAF), &Vec::new(), 1_700_000_000, |_: &[u8]| Ok(vec![0x77u8; 16])).unwrap();
    // id-signedData, id-data, id-sha256, rsaEncryption followed by NULL, version 1.
    assert!(contains(&cms, &[0x06, 0x09, 0x2a, 0x86, 0x48, 0x86, 0xf7, 0x0d, 0x01, 0x07, 0x02]));
    assert!(contains(&cms, &[0x06, 0x09, 0x2a, 0x86, 0x48, 0x86, 0xf7, 0x0d, 0x01, 0x07, 0x01]));
    assert!(contains(&cms, &[0x06, 0x09, 0x60, 0x86, 0x48, 0x01, 0x65, 0x03, 0x04, 0x02, 0x01]));
    assert!(contains(&cms, &[0x06, 0x09, 0x2a, 0x86, 0x48, 0x86, 0xf7, 0x0d, 0x01, 0x01, 0x01, 0x05, 0x00]));
    assert!(contains(&cms, &[0x02, 0x01, 0x01]));
    // The detached content type is followed directly by the certificate set: no eContent.
    assert!(contains(&cms, &[0x30, 0x0b, 0x06, 0x09, 0x2a, 0x86, 0x48, 0x86, 0xf7, 0x0d, 0x01, 0x07, 0x01, 0xa0]));
}
