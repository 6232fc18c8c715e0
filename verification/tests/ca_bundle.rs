use autodcr_bridge::ca_bundle::{build_chain, build_chain_in, bundled_ca_ders, is_self_signed};

// Small EC certificates: "Test Root" (self-signed) issues "Test Sub CA", which
// issues "Signer"; "Cross A" and "Cross B" issue each other, and "Cross A"
// issues "Signer 2".
const ROOT: &str = "\
308201143081bba003020102020101300a06082a8648ce3d04030230143112301006035504030c095465737420526f6f\
74301e170d3234303130313030303030305a170d3334303130313030303030305a30143112301006035504030c095465\
737420526f6f743059301306072a8648ce3d020106082a8648ce3d03010703420004cd3575fe048c955cf25779cc76c6\
502da683b217cb52820ebf645d527c61534b46a175d0a500adcaf13e7d5f0081f0b54b521ef585bcb5fd858c52cea936\
a6f7300a06082a8648ce3d040302034800304502204b9a3c7d479dff940876dcfe5343613b63052587fe4bbc0f170e68\
fe4e5656dd022100cf7fa35804f87df8527a88578d699df81ae253dad291288c44a0272786a9c3f4";

const SUB: &str = "\
308201163081bda003020102020102300a06082a8648ce3d04030230143112301006035504030c095465737420526f6f\
74301e170d3234303130313030303030305a170d3334303130313030303030305a30163114301206035504030c0b5465\
7374205375622043413059301306072a8648ce3d020106082a8648ce3d03010703420004376a5d754e07a04add5efc0d\
a63ea8b19adfb7be433e1afd3cc18752df2f327ab77ac98d7bc25c03ae45698800631f6f611e2d24f9bba7373cd020c1\
f793e398300a06082a8648ce3d0403020348003045022037cd90355b04c8eec168588b4d9fb76c73e20f16e0f017befa\
682d01aacaab6002210086e6830123894f6dbbbf4f1f5da25ec610f6fcd618c580da5b40ca815c96a0e7";

const LEAF: &str = "\
308201143081baa003020102020103300a06082a8648ce3d04030230163114301206035504030c0b5465737420537562\
204341301e170d3234303130313030303030305a170d3334303130313030303030305a3011310f300d06035504030c06\
5369676e65723059301306072a8648ce3d020106082a8648ce3d0301070342000445a7ab236cf573869d0af211a0c62c\
bd65dff1895ce4f9b0f261b5100da1b0bce0fee454e8fada46a948da8f17485c2ff055cedad3df3353bbd614780740a4\
af300a06082a8648ce3d0403020349003046022100ffb8344ce58416c3863132bdbc4a6a95d83f52f914906453c20bd6\
e6fa091cc102210096525b04eb0b17c05092fc0f3204adf151fb590eab38d352f710e249279b43d8";

const CROSS_A: &str = "\
308201103081b7a003020102020104300a06082a8648ce3d04030230123110300e06035504030c0743726f7373204230\
1e170d3234303130313030303030305a170d3334303130313030303030305a30123110300e06035504030c0743726f73\
7320413059301306072a8648ce3d020106082a8648ce3d03010703420004376a5d754e07a04add5efc0da63ea8b19adf\
b7be433e1afd3cc18752df2f327ab77ac98d7bc25c03ae45698800631f6f611e2d24f9bba7373cd020c1f793e398300a\
06082a8648ce3d040302034800304502210080db7e81a2082da98e1a362c29625fb5cbe3d5d056d5b48230243d16aa45\
fe9102201ef95f163fd08e98e4982584e9eab53004d56975f040a2249c778a24dcc440e7";

const CROSS_B: &str = "\
308201113081b7a003020102020105300a06082a8648ce3d04030230123110300e06035504030c0743726f7373204130\
1e170d3234303130313030303030305a170d3334303130313030303030305a30123110300e06035504030c0743726f73\
7320423059301306072a8648ce3d020106082a8648ce3d03010703420004cd3575fe048c955cf25779cc76c6502da683\
b217cb52820ebf645d527c61534b46a175d0a500adcaf13e7d5f0081f0b54b521ef585bcb5fd858c52cea936a6f7300a\
06082a8648ce3d0403020349003046022100bad721da8c54d81e6a8b40b2b65f67d2ef25f6af75ddc4688c0c9f13272b\
4c1b02210097cd861cbe2e50f5f7aeb4b6e014bc28b1cfc87ec37bba184d92c37c0892a2d5";

const LEAF_CROSS: &str = "\
308201113081b8a003020102020106300a06082a8648ce3d04030230123110300e06035504030c0743726f7373204130\
1e170d3234303130313030303030305a170d3334303130313030303030305a30133111300f06035504030c085369676e\
657220323059301306072a8648ce3d020106082a8648ce3d0301070342000445a7ab236cf573869d0af211a0c62cbd65\
dff1895ce4f9b0f261b5100da1b0bce0fee454e8fada46a948da8f17485c2ff055cedad3df3353bbd614780740a4af30\
0a06082a8648ce3d0403020348003045022100a308aa2e8b6bd90a60c30332aeea78b24d3e20d83e7583559c44bb00ad\
e0d17a0220048efdb3a83f5d33a0aa99eb15fc6956304ba03a36f3e6165e848fea1721ad11";

fn der(hex: &str) -> Vec<u8> {
    (0..hex.len()).step_by(2).map(|i| u8::from_str_radix(&hex[i..i + 2], 16).unwrap()).collect()
}

#[test]
fn empty_bundle_returns_empty_chain_for_unknown_issuer() {
    // A clearly invalid DER yields an empty chain rather than panicking.
    assert!(build_chain(&[0u8; 16]).is_empty());
}

#[test]
fn bundle_compiles_even_when_empty() {
    // The bundle may legitimately be empty; just make sure it can be read.
    let _ = bundled_ca_ders().len();
}

#[test]
fn unparseable_certificates_are_not_self_signed() {
    assert!(!is_self_signed(&[0u8; 16]));
    assert!(!is_self_signed(&[]));
}

#[test]
fn unparseable_leaf_gives_empty_chain_whatever_the_bundle() {
    let bundle = vec![vec![0x30u8, 0x00], vec![1u8, 2, 3]];
    assert!(build_chain_in(&bundle, &[0x30, 0x03, 0x02, 0x01, 0x00]).is_empty());
}

#[test]
fn self_signed_root_is_recognised() {
    assert!(is_self_signed(&der(ROOT)));
    assert!(!is_self_signed(&der(SUB)));
    assert!(!is_self_signed(&der(LEAF)));
}

#[test]
fn chain_walks_up_to_the_self_signed_root() {
    let bundle = vec![der(ROOT), der(LEAF), der(SUB)];
    assert_eq!(build_chain_in(&bundle, &der(LEAF)), vec![der(SUB), der(ROOT)]);
    // Without the root in the bundle the chain stops at the sub CA.
    assert_eq!(build_chain_in(&vec![der(SUB)], &der(LEAF)), vec![der(SUB)]);
    // A leaf whose issuer is not bundled gets no chain.
    assert!(build_chain_in(&vec![der(ROOT)], &der(LEAF)).is_empty());
    assert!(build_chain(&der(LEAF)).is_empty());
}

#[test]
fn chain_cycle_stops() {
    let bundle = vec![der(CROSS_B), der(CROSS_A)];
    assert_eq!(build_chain_in(&bundle, &der(LEAF_CROSS)), vec![der(CROSS_A), der(CROSS_B)]);
}
