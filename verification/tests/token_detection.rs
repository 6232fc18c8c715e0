use autodcr_bridge::token_detection::{
    classify_device, hybrid_token_present, list_usb_tokens, select_usb_tokens, usb_token_hint_present, usb_token_id, UsbDeviceSummary,
    KNOWN_DSC_VENDOR_IDS, USB_CLASS_SMART_CARD,
};

#[test]
fn hybrid_returns_true_when_pkcs11_true() {
    let value = hybrid_token_present(|| Ok(true), || false);
    assert!(value);
}

#[test]
fn hybrid_uses_usb_when_pkcs11_false() {
    let value = hybrid_token_present(|| Ok(false), || true);
    assert!(value);
}

#[test]
fn hybrid_uses_usb_when_pkcs11_errors() {
    let value = hybrid_token_present(|| Err("pkcs11 failed".to_string()), || false);
    assert!(!value);
}

#[test]
fn classify_matches_known_vendor() {
    let vendor = KNOWN_DSC_VENDOR_IDS[0];
    let reason = classify_device(vendor, 0, 0, 0, false);
    assert_eq!(reason, Some("known_vendor"));
}

#[test]
fn classify_matches_smart_card_class() {
    let reason = classify_device(0xFFFF, USB_CLASS_SMART_CARD, 0, 0, false);
    assert_eq!(reason, Some("device_class_smart_card"));
}

#[test]
fn classify_matches_smart_card_interface() {
    let reason = classify_device(0xFFFF, 0, 0, 0, true);
    assert_eq!(reason, Some("interface_class_smart_card"));
}

#[test]
fn classify_rejects_unknown_non_smart_card_devices() {
    let reason = classify_device(0xFFFF, 0, 0, 0, false);
    assert_eq!(reason, None);
}

fn device(vendor_id: u16, product_id: u16, bus: u8, address: u8, interfaces: Option<Vec<u8>>) -> UsbDeviceSummary {
    UsbDeviceSummary {
        vendor_id,
        product_id,
        class_code: 0,
        sub_class_code: 0,
        protocol_code: 0,
        interface_classes: interfaces,
        bus,
        address,
    }
}

#[test]
fn usb_hint_needs_a_token_like_device() {
    assert!(!usb_token_hint_present(&Err("no libusb".to_string())));
    assert!(!usb_token_hint_present(&Ok(vec![None, Some(device(0xFFFF, 1, 1, 2, Some(vec![3])))])));
    assert!(usb_token_hint_present(&Ok(vec![Some(device(0xFFFF, 1, 1, 2, Some(vec![3, USB_CLASS_SMART_CARD])))])));
}

#[test]
fn usb_token_id_is_hex_vendor_product_bus_address() {
    assert_eq!(usb_token_id(&device(0x0BDA, 0x0165, 3, 12, None)), "0bda:0165-3-12");
}

#[test]
fn selected_tokens_are_deduplicated_by_id() {
    let known = KNOWN_DSC_VENDOR_IDS[0];
    let devices = vec![
        Some(device(known, 1, 1, 2, None)),
        Some(device(0xFFFF, 1, 1, 3, None)),
        None,
        Some(device(known, 1, 1, 2, None)),
        Some(device(known, 2, 1, 4, None)),
    ];
    assert_eq!(select_usb_tokens(&devices), vec![0, 4]);
}

#[test]
fn listed_tokens_carry_their_strings() {
    let known = KNOWN_DSC_VENDOR_IDS[0];
    let devices = vec![Some(device(known, 0x0165, 1, 2, None)), Some(device(0xFFFF, 1, 1, 3, None))];
    let tokens = list_usb_tokens(Ok(devices), |k: usize| (Some(format!("maker{k}")), None)).unwrap();
    assert_eq!(tokens.len(), 1);
    assert_eq!(tokens[0].id, format!("{:04x}:0165-1-2", known));
    assert_eq!(tokens[0].label, format!("USB Token {:04X}:0165", known));
    assert_eq!(tokens[0].path, "usb:1:2");
    assert_eq!(tokens[0].manufacturer.as_deref(), Some("maker0"));
    assert!(tokens[0].serial.is_none());
    assert_eq!(list_usb_tokens(Err("no libusb".to_string()), |_k: usize| (None, None)).unwrap_err(), "no libusb");
}

#[test]
fn usb_hint_agrees_with_the_listing() {
    let known = KNOWN_DSC_VENDOR_IDS[0];
    let snapshots: Vec<Result<Vec<Option<UsbDeviceSummary>>, String>> = vec![
        Err("no libusb".to_string()),
        Ok(Vec::new()),
        Ok(vec![None, Some(device(0xFFFF, 1, 1, 2, Some(vec![3])))]),
        Ok(vec![None, Some(device(known, 1, 1, 2, None)), Some(device(known, 1, 1, 2, None))]),
        Ok(vec![Some(device(0xFFFF, 1, 1, 2, Some(vec![3, USB_CLASS_SMART_CARD])))]),
    ];
    for devices in snapshots {
        let hint = usb_token_hint_present(&devices);
        let listed = list_usb_tokens(devices, |_k: usize| (None, None));
        assert_eq!(hint, matches!(listed, Ok(ts) if !ts.is_empty()));
    }
}
