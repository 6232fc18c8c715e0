//! Hybrid token detection used by PING, and the USB heuristics behind it.
//!
//! PKCS#11 remains the authoritative source for signing readiness. USB probing
//! is only a fallback hint for "device likely connected" when PKCS#11 is not
//! currently usable.

use vstd::prelude::*;
use crate::text::{dec, hex4, push_decimal, push_hex4, push_str};

verus! {

/// Known DSC/smart-token USB vendor ids.
pub const KNOWN_DSC_VENDOR_IDS: [u16; 32] = [
    0x0BDA, 0x04E6, 0x0529, 0x096E, 0x072F, 0x0ACD, 0x076B, 0x08E6, 0x0A89, 0x0B97, 0x0BD4,
    0x0C4B, 0x0E0F, 0x10C4, 0x1FC9, 0x20A0, 0x24DF, 0x413C, 0x04CC, 0x058F, 0x062A, 0x0781,
    0x0951, 0x0BC2, 0x0EA0, 0x0FCE, 0x1050, 0x1A40, 0x1D50, 0x1E68, 0x20AD, 0x2CCF,
];

/// USB class code of smart-card (CCID) devices and interfaces.
pub const USB_CLASS_SMART_CARD: u8 = 0x0B;

/// A USB device that looks like a signing token.
#[derive(Debug, Clone, PartialEq, Eq)]
pub struct UsbTokenInfo {
    pub id: String,
    pub label: String,
    pub manufacturer: Option<String>,
    pub serial: Option<String>,
    pub path: String,
}

/// `vendor_id` is one of the known DSC token vendors.
pub open spec fn is_known_vendor(vendor_id: u16) -> bool {
    KNOWN_DSC_VENDOR_IDS@.contains(vendor_id)
}

fn is_known_vendor_exec(vendor_id: u16) -> (r: bool)
    ensures
        r == is_known_vendor(vendor_id),
{
    let mut i: usize = 0;
    while i < 32
        invariant
            i <= 32,
            forall|k: int| 0 <= k < i ==> KNOWN_DSC_VENDOR_IDS@[k] != vendor_id,
        decreases 32 - i,
    {
        if KNOWN_DSC_VENDOR_IDS[i] == vendor_id {
            assert(KNOWN_DSC_VENDOR_IDS@[i as int] == vendor_id);
            return true;
        }
        i = i + 1;
    }
    false
}

/// Why a USB device is taken for a token: its vendor, its device class, or one
/// of its interfaces being a smart card — checked in that order.
pub open spec fn spec_classify_device(
    vendor_id: u16,
    class_code: u8,
    has_smart_card_interface: bool,
) -> Option<&'static str> {
    if is_known_vendor(vendor_id) {
        Some("known_vendor")
    } else if class_code == USB_CLASS_SMART_CARD {
        Some("device_class_smart_card")
    } else if has_smart_card_interface {
        Some("interface_class_smart_card")
    } else {
        None
    }
}

/// Classifies a USB device by vendor and class; `None` when it does not look
/// like a token.
pub fn classify_device(
    vendor_id: u16,
    class_code: u8,
    sub_class_code: u8,
    protocol_code: u8,
    has_smart_card_interface: bool,
) -> (r: Option<&'static str>)
    ensures
        r == spec_classify_device(vendor_id, class_code, has_smart_card_interface),
{
    if is_known_vendor_exec(vendor_id) {
        return Some("known_vendor");
    }
    if class_code == USB_CLASS_SMART_CARD {
        return Some("device_class_smart_card");
    }
    if has_smart_card_interface {
        return Some("interface_class_smart_card");
    }
    None
}

/// Hybrid detector:
/// - `true` if PKCS#11 reports token-present slots.
/// - otherwise, the USB heuristic's answer (also when the PKCS#11 probe fails).
/// The USB probe runs only when the PKCS#11 probe did not answer `true`.
pub fn hybrid_token_present<P, U>(pkcs11_probe: P, usb_probe: U) -> (r: bool) where
    P: FnOnce() -> Result<bool, String>,
    U: FnOnce() -> bool,

    requires
        call_requires(pkcs11_probe, ()),
        call_requires(usb_probe, ()),
    ensures
        exists|p: Result<bool, String>|
            #[trigger] call_ensures(pkcs11_probe, (), p) && if p == Ok::<bool, String>(true) {
                r
            } else {
                call_ensures(usb_probe, (), r)
            },
{
    let p = pkcs11_probe();
    match p {
        Ok(true) => true,
        Ok(false) => usb_probe(),
        Err(_) => usb_probe(),
    }
}


/// What the host reads from one USB device's descriptors.
#[derive(Debug, Clone)]
pub struct UsbDeviceSummary {
    pub vendor_id: u16,
    pub product_id: u16,
    pub class_code: u8,
    pub sub_class_code: u8,
    pub protocol_code: u8,
    /// Class codes of the active configuration's interface descriptors, or
    /// `None` when that configuration could not be read.
    pub interface_classes: Option<Vec<u8>>,
    pub bus: u8,
    pub address: u8,
}

/// Some interface of the active configuration is a smart card.
pub open spec fn has_smart_card_interface(d: UsbDeviceSummary) -> bool {
    d.interface_classes is Some && d.interface_classes->0@.contains(USB_CLASS_SMART_CARD)
}

/// Why a device is listed as a token: its own descriptor first, then its
/// interfaces.
pub open spec fn spec_device_match_reason(d: UsbDeviceSummary) -> Option<&'static str> {
    spec_classify_device(d.vendor_id, d.class_code, has_smart_card_interface(d))
}

/// A device is taken for a token exactly when its vendor is a known DSC
/// vendor, its device class is the smart-card class (`0x0B`), or an interface
/// of its active configuration, at any position, has that class.
pub proof fn lemma_token_device_criteria(d: UsbDeviceSummary)
    ensures
        spec_device_match_reason(d) is Some <==> (KNOWN_DSC_VENDOR_IDS@.contains(d.vendor_id) || d.class_code == 0x0Bu8
            || (d.interface_classes matches Some(c) && c@.contains(0x0Bu8))),
{
}

/// Classifies one enumerated device: the device descriptor alone, then each
/// interface of the active configuration until one matches.
pub fn device_match_reason(d: &UsbDeviceSummary) -> (r: Option<&'static str>)
    ensures
        r == spec_device_match_reason(*d),
        r is Some <==> (KNOWN_DSC_VENDOR_IDS@.contains(d.vendor_id) || d.class_code == 0x0Bu8 || (
        d.interface_classes matches Some(c) && c@.contains(0x0Bu8))),
{
    proof {
        lemma_token_device_criteria(*d);
    }
    let reason = classify_device(d.vendor_id, d.class_code, d.sub_class_code, d.protocol_code, false);
    if reason.is_some() {
        return reason;
    }
    match &d.interface_classes {
        Some(classes) => {
            let mut i: usize = 0;
            while i < classes.len()
                invariant
                    i <= classes@.len(),
                    forall|k: int| 0 <= k < i ==> classes@[k] != USB_CLASS_SMART_CARD,
                    !is_known_vendor(d.vendor_id),
                    d.interface_classes is Some && d.interface_classes->0@ == classes@,
                    d.class_code != USB_CLASS_SMART_CARD,
                decreases classes@.len() - i,
            {
                let r = classify_device(
                    d.vendor_id,
                    d.class_code,
                    d.sub_class_code,
                    d.protocol_code,
                    classes[i] == USB_CLASS_SMART_CARD,
                );
                if r.is_some() {
                    assert(classes@[i as int] == USB_CLASS_SMART_CARD);
                    assert(classes@.contains(USB_CLASS_SMART_CARD));
                    return r;
                }
                i = i + 1;
            }
            None
        },
        None => None,
    }
}

/// Some readable device looks like a token.
pub open spec fn spec_usb_hint(devices: Seq<Option<UsbDeviceSummary>>) -> bool {
    exists|i: int|
        0 <= i < devices.len() && (#[trigger] devices[i] matches Some(d) && spec_device_match_reason(d) is Some)
}

/// Best-effort USB hint (does not guarantee signability): `false` when
/// enumeration failed, else whether some device with a readable descriptor
/// matches the token heuristics. `None` entries are devices whose descriptor
/// could not be read.
pub fn usb_token_hint_present(devices: &Result<Vec<Option<UsbDeviceSummary>>, String>) -> (r: bool)
    ensures
        devices matches Ok(ds) ==> r == spec_usb_hint(ds@),
        devices is Err ==> !r,
{
    match devices {
        Err(_) => false,
        Ok(ds) => {
            let mut i: usize = 0;
            while i < ds.len()
                invariant
                    i <= ds@.len(),
                    devices matches Ok(x) && x@ == ds@,
                    forall|k: int| 0 <= k < i ==> !(#[trigger] ds@[k] matches Some(d) && spec_device_match_reason(d) is Some),
                decreases ds@.len() - i,
            {
                if let Some(d) = &ds[i] {
                    if device_match_reason(d).is_some() {
                        assert(ds@[i as int] matches Some(dd) && spec_device_match_reason(dd) is Some);
                        return true;
                    }
                }
                i = i + 1;
            }
            false
        },
    }
}

/// `{vendor:04x}:{product:04x}-{bus}-{address}`.
pub open spec fn spec_usb_token_id(d: UsbDeviceSummary) -> Seq<char> {
    hex4(d.vendor_id, false) + seq![':'] + hex4(d.product_id, false) + seq!['-'] + dec(d.bus as nat)
        + seq!['-'] + dec(d.address as nat)
}

/// `USB Token {vendor:04X}:{product:04X}`.
pub open spec fn spec_usb_token_label(d: UsbDeviceSummary) -> Seq<char> {
    seq!['U', 'S', 'B', ' ', 'T', 'o', 'k', 'e', 'n', ' '] + hex4(d.vendor_id, true) + seq![':']
        + hex4(d.product_id, true)
}

/// `usb:{bus}:{address}`.
pub open spec fn spec_usb_token_path(d: UsbDeviceSummary) -> Seq<char> {
    seq!['u', 's', 'b', ':'] + dec(d.bus as nat) + seq![':'] + dec(d.address as nat)
}

/// The stable id under which a token device is listed.
pub fn usb_token_id(d: &UsbDeviceSummary) -> (s: String)
    ensures
        s@ == spec_usb_token_id(*d),
{
    let mut s = String::new();
    push_hex4(&mut s, d.vendor_id, false);
    push_str(&mut s, ":");
    push_hex4(&mut s, d.product_id, false);
    push_str(&mut s, "-");
    push_decimal(&mut s, d.bus as usize);
    push_str(&mut s, "-");
    push_decimal(&mut s, d.address as usize);
    proof {
        reveal_strlit(":");
        reveal_strlit("-");
    }
    assert(s@ =~= spec_usb_token_id(*d));
    s
}

/// The token description for a matched device, with the manufacturer and
/// serial strings that could be read from it.
pub fn usb_token_info(d: &UsbDeviceSummary, manufacturer: Option<String>, serial: Option<String>) -> (t: UsbTokenInfo)
    ensures
        t.id@ == spec_usb_token_id(*d),
        t.label@ == spec_usb_token_label(*d),
        t.path@ == spec_usb_token_path(*d),
        t.manufacturer == manufacturer,
        t.serial == serial,
{
    let id = usb_token_id(d);
    let mut label = String::new();
    push_str(&mut label, "USB Token ");
    push_hex4(&mut label, d.vendor_id, true);
    push_str(&mut label, ":");
    push_hex4(&mut label, d.product_id, true);
    let mut path = String::new();
    push_str(&mut path, "usb:");
    push_decimal(&mut path, d.bus as usize);
    push_str(&mut path, ":");
    push_decimal(&mut path, d.address as usize);
    proof {
        reveal_strlit("USB Token ");
        reveal_strlit(":");
        reveal_strlit("usb:");
    }
    assert(label@ =~= spec_usb_token_label(*d));
    assert(path@ =~= spec_usb_token_path(*d));
    UsbTokenInfo { id, label, manufacturer, serial, path }
}

/// Device `d` is readable and matches the token heuristics.
pub open spec fn is_token_device(d: Option<UsbDeviceSummary>) -> bool {
    d is Some && spec_device_match_reason(d->0) is Some
}

/// Token ids of the selected devices, in order.
pub open spec fn selected_ids(devices: Seq<Option<UsbDeviceSummary>>, sel: Seq<usize>) -> Seq<Seq<char>> {
    sel.map_values(|k: usize| spec_usb_token_id(devices[k as int]->0))
}

/// Indices of the first `n` devices reported as tokens: each readable device
/// that matches the heuristics, unless a device reported before it has the
/// same id.
pub open spec fn spec_select_usb_tokens(devices: Seq<Option<UsbDeviceSummary>>, n: nat) -> Seq<usize>
    decreases n,
{
    if n == 0 {
        seq![]
    } else {
        let prev = spec_select_usb_tokens(devices, (n - 1) as nat);
        let k = (n - 1) as int;
        if is_token_device(devices[k]) && !selected_ids(devices, prev).contains(
            spec_usb_token_id(devices[k]->0),
        ) {
            prev.push(k as usize)
        } else {
            prev
        }
    }
}

/// Among the first `n` devices, every readable one that looks like a token is
/// listed unless a device listed before it has the same id (vendor, product,
/// bus and address); and only such devices are listed.
pub proof fn lemma_every_new_token_is_listed(devices: Seq<Option<UsbDeviceSummary>>, n: nat)
    requires
        n <= devices.len() <= usize::MAX,
    ensures
        forall|k: int|
            0 <= k < n && is_token_device(devices[k]) && !(exists|j: int|
                0 <= j < spec_select_usb_tokens(devices, n).len() && spec_select_usb_tokens(devices, n)[j] < k
                    && spec_usb_token_id(devices[spec_select_usb_tokens(devices, n)[j] as int]->0) == spec_usb_token_id(
                    devices[k]->0,
                )) ==> #[trigger] spec_select_usb_tokens(devices, n).contains(k as usize),
        forall|j: int|
            0 <= j < spec_select_usb_tokens(devices, n).len() ==> is_token_device(
                devices[#[trigger] spec_select_usb_tokens(devices, n)[j] as int],
            ),
    decreases n,
{
    lemma_selected_tokens_ordered(devices, n);
    if n > 0 {
        lemma_every_new_token_is_listed(devices, (n - 1) as nat);
        lemma_selected_tokens_ordered(devices, (n - 1) as nat);
        let prev = spec_select_usb_tokens(devices, (n - 1) as nat);
        let sel = spec_select_usb_tokens(devices, n);
        let last = (n - 1) as int;
        let admitted = is_token_device(devices[last]) && !selected_ids(devices, prev).contains(
            spec_usb_token_id(devices[last]->0),
        );
        if admitted {
            assert(sel == prev.push(last as usize));
        } else {
            assert(sel == prev);
        }
        assert forall|k: int|
            0 <= k < n && is_token_device(devices[k]) && !(exists|j: int|
                0 <= j < sel.len() && sel[j] < k && spec_usb_token_id(devices[sel[j] as int]->0) == spec_usb_token_id(
                    devices[k]->0,
                )) implies #[trigger] sel.contains(k as usize) by {
            if k < last {
                if exists|j: int|
                    0 <= j < prev.len() && prev[j] < k && spec_usb_token_id(devices[prev[j] as int]->0)
                        == spec_usb_token_id(devices[k]->0) {
                    let j = choose|j: int|
                        0 <= j < prev.len() && prev[j] < k && spec_usb_token_id(devices[prev[j] as int]->0)
                            == spec_usb_token_id(devices[k]->0);
                    assert(sel[j] == prev[j]);
                }
                assert(prev.contains(k as usize));
                let w = choose|w: int| 0 <= w < prev.len() && prev[w] == k as usize;
                assert(sel[w] == prev[w]);
            } else {
                if selected_ids(devices, prev).contains(spec_usb_token_id(devices[last]->0)) {
                    let j = choose|j: int|
                        0 <= j < selected_ids(devices, prev).len() && selected_ids(devices, prev)[j]
                            == spec_usb_token_id(devices[last]->0);
                    assert(prev[j] < last);
                    assert(sel[j] == prev[j]);
                    assert(false);
                }
                assert(sel[prev.len() as int] == k as usize);
            }
        }
    }
}

/// Indices of the devices to report as tokens, in enumeration order: each
/// readable device that matches the heuristics, once per token id.
pub fn select_usb_tokens(devices: &Vec<Option<UsbDeviceSummary>>) -> (r: Vec<usize>)
    ensures
        r@ == spec_select_usb_tokens(devices@, devices@.len()),
        forall|k: int|
            0 <= k < devices@.len() && is_token_device(devices@[k]) && !(exists|j: int|
                0 <= j < r@.len() && r@[j] < k && spec_usb_token_id(devices@[r@[j] as int]->0) == spec_usb_token_id(
                    devices@[k]->0,
                )) ==> #[trigger] r@.contains(k as usize),
        forall|j: int| 0 <= j < r@.len() ==> is_token_device(devices@[#[trigger] r@[j] as int]),
        forall|i: int, j: int|
            #![trigger selected_ids(devices@, r@)[i], selected_ids(devices@, r@)[j]]
            0 <= i < j < r@.len() ==> selected_ids(devices@, r@)[i] != selected_ids(devices@, r@)[j],
{
    let _n = devices.len();
    proof {
        lemma_selected_tokens_distinct(devices@, devices@.len());
        lemma_every_new_token_is_listed(devices@, devices@.len());
    }
    let mut out: Vec<usize> = Vec::new();
    let mut seen: Vec<String> = Vec::new();
    let mut i: usize = 0;
    while i < devices.len()
        invariant
            i <= devices@.len(),
            out@ == spec_select_usb_tokens(devices@, i as nat),
            seen@.len() == out@.len(),
            forall|j: int| 0 <= j < seen@.len() ==> (#[trigger] seen@[j])@ == selected_ids(devices@, out@)[j],
        decreases devices@.len() - i,
    {
        let ghost prev_out = out@;
        if let Some(d) = &devices[i] {
            if device_match_reason(d).is_some() {
                let id = usb_token_id(d);
                let mut dup = false;
                let mut k: usize = 0;
                while k < seen.len()
                    invariant
                        k <= seen@.len(),
                        dup == exists|j: int| 0 <= j < k && (#[trigger] seen@[j])@ == id@,
                    decreases seen@.len() - k,
                {
                    if seen[k] == id {
                        dup = true;
                    }
                    k = k + 1;
                }
                proof {
                    if selected_ids(devices@, prev_out).contains(id@) {
                        let j = choose|j: int| 0 <= j < selected_ids(devices@, prev_out).len() && selected_ids(devices@, prev_out)[j] == id@;
                        assert(seen@[j]@ == id@);
                    }
                }
                if !dup {
                    out.push(i);
                    seen.push(id);
                    proof {
                        assert(selected_ids(devices@, out@) =~= selected_ids(devices@, prev_out).push(id@));
                    }
                }
            }
        }
        i = i + 1;
    }
    out
}


/// The USB tokens to list from the enumerated devices (`None` where a device's
/// descriptors could not be read): each device `select_usb_tokens` picks, with
/// the manufacturer and serial strings `read_strings` reads from it.
pub fn list_usb_tokens<F>(devices: Result<Vec<Option<UsbDeviceSummary>>, String>, read_strings: F) -> (r: Result<
    Vec<UsbTokenInfo>,
    String,
>) where F: Fn(usize) -> (Option<String>, Option<String>)
    requires
        forall|k: usize| #[trigger] call_requires(read_strings, (k,)),
    ensures
        devices matches Err(m) ==> r == Err::<Vec<UsbTokenInfo>, String>(m),
        devices matches Ok(ds) ==> (r matches Ok(tokens) && {
            let sel = spec_select_usb_tokens(ds@, ds@.len());
            &&& tokens@.len() == sel.len()
            &&& forall|i: int| 0 <= i < sel.len() ==> {
                let d = ds@[sel[i] as int]->0;
                &&& (#[trigger] tokens@[i]).id@ == spec_usb_token_id(d)
                &&& tokens@[i].label@ == spec_usb_token_label(d)
                &&& tokens@[i].path@ == spec_usb_token_path(d)
                &&& call_ensures(read_strings, (sel[i],), (tokens@[i].manufacturer, tokens@[i].serial))
            }
        }),
{
    let ds = match devices {
        Ok(ds) => ds,
        Err(m) => return Err(m),
    };
    let sel = select_usb_tokens(&ds);
    proof {
        lemma_selected_tokens_ordered(ds@, ds@.len());
    }
    let mut tokens: Vec<UsbTokenInfo> = Vec::new();
    let mut i: usize = 0;
    while i < sel.len()
        invariant
            i <= sel@.len(),
            sel@ == spec_select_usb_tokens(ds@, ds@.len()),
            forall|j: int| #![trigger sel@[j]] 0 <= j < sel@.len() ==> sel@[j] < ds@.len() && is_token_device(ds@[sel@[j] as int]),
            forall|k: usize| #[trigger] call_requires(read_strings, (k,)),
            tokens@.len() == i,
            forall|j: int| 0 <= j < i ==> {
                let d = ds@[sel@[j] as int]->0;
                &&& (#[trigger] tokens@[j]).id@ == spec_usb_token_id(d)
                &&& tokens@[j].label@ == spec_usb_token_label(d)
                &&& tokens@[j].path@ == spec_usb_token_path(d)
                &&& call_ensures(read_strings, (sel@[j],), (tokens@[j].manufacturer, tokens@[j].serial))
            },
        decreases sel@.len() - i,
    {
        let k = sel[i];
        assert(is_token_device(ds@[k as int]));
        let d = match &ds[k] {
            Some(d) => d,
            None => {
                assert(false);
                return Err(String::new());
            },
        };
        let (manufacturer, serial) = read_strings(k);
        tokens.push(usb_token_info(d, manufacturer, serial));
        i = i + 1;
    }
    Ok(tokens)
}

proof fn lemma_selected_ids_push(devices: Seq<Option<UsbDeviceSummary>>, prev: Seq<usize>, k: usize)
    ensures
        selected_ids(devices, prev.push(k)) == selected_ids(devices, prev).push(spec_usb_token_id(devices[k as int]->0)),
{
    assert(selected_ids(devices, prev.push(k)) =~= selected_ids(devices, prev).push(spec_usb_token_id(devices[k as int]->0)));
}

/// The devices `LIST_USB_TOKENS` lists look like tokens and come in enumeration order.
pub proof fn lemma_selected_tokens_ordered(devices: Seq<Option<UsbDeviceSummary>>, n: nat)
    requires
        n <= devices.len() <= usize::MAX,
    ensures
        forall|i: int|
            #![trigger spec_select_usb_tokens(devices, n)[i]]
            0 <= i < spec_select_usb_tokens(devices, n).len() ==> spec_select_usb_tokens(devices, n)[i] < n
                && is_token_device(devices[spec_select_usb_tokens(devices, n)[i] as int]),
        forall|i: int, j: int|
            #![trigger spec_select_usb_tokens(devices, n)[i], spec_select_usb_tokens(devices, n)[j]]
            0 <= i < j < spec_select_usb_tokens(devices, n).len() ==> spec_select_usb_tokens(devices, n)[i]
                < spec_select_usb_tokens(devices, n)[j],
    decreases n,
{
    if n > 0 {
        lemma_selected_tokens_ordered(devices, (n - 1) as nat);
        let prev = spec_select_usb_tokens(devices, (n - 1) as nat);
        let sel = spec_select_usb_tokens(devices, n);
        let k = (n - 1) as int;
        let admitted = is_token_device(devices[k]) && !selected_ids(devices, prev).contains(spec_usb_token_id(devices[k]->0));
        if admitted {
            assert(sel == prev.push(k as usize));
            assert forall|i: int| 0 <= i < sel.len() implies sel[i] < n && is_token_device(devices[sel[i] as int]) by {
                if i < prev.len() {
                    assert(sel[i] == prev[i]);
                    assert(prev[i] < n - 1);
                }
            }
            assert forall|i: int, j: int| 0 <= i < j < sel.len() implies sel[i] < sel[j] by {
                assert(sel[i] == prev[i]);
                assert(prev[i] < n - 1);
                if j < prev.len() {
                    assert(sel[j] == prev[j]);
                    assert(prev[i] < prev[j]);
                }
            }
        } else {
            assert(sel == prev);
        }
    }
}

/// `LIST_USB_TOKENS` never lists two tokens with the same id.
pub proof fn lemma_selected_tokens_distinct(devices: Seq<Option<UsbDeviceSummary>>, n: nat)
    requires
        n <= devices.len() <= usize::MAX,
    ensures
        forall|i: int, j: int|
            #![trigger selected_ids(devices, spec_select_usb_tokens(devices, n))[i], selected_ids(devices, spec_select_usb_tokens(devices, n))[j]]
            0 <= i < j < spec_select_usb_tokens(devices, n).len() ==> selected_ids(devices, spec_select_usb_tokens(devices, n))[i]
                != selected_ids(devices, spec_select_usb_tokens(devices, n))[j],
    decreases n,
{
    if n > 0 {
        lemma_selected_tokens_distinct(devices, (n - 1) as nat);
        let prev = spec_select_usb_tokens(devices, (n - 1) as nat);
        let sel = spec_select_usb_tokens(devices, n);
        let k = (n - 1) as int;
        let ids = selected_ids(devices, prev);
        let x = spec_usb_token_id(devices[k]->0);
        let admitted = is_token_device(devices[k]) && !ids.contains(x);
        if admitted {
            assert(sel == prev.push(k as usize));
            lemma_selected_ids_push(devices, prev, k as usize);
            let ids2 = selected_ids(devices, sel);
            assert(ids2 == ids.push(x));
            assert forall|i: int, j: int| 0 <= i < j < sel.len() implies ids2[i] != ids2[j] by {
                assert(ids2[i] == ids[i]);
                if j == ids.len() {
                    assert(ids.contains(ids[i]));
                } else {
                    assert(ids2[j] == ids[j]);
                }
            }
        } else {
            assert(sel == prev);
        }
    }
}

/// Among the first `n` devices, some readable one looks like a token.
pub open spec fn some_token_device(devices: Seq<Option<UsbDeviceSummary>>, n: nat) -> bool {
    exists|i: int| 0 <= i < n && #[trigger] is_token_device(devices[i])
}

proof fn lemma_selection_nonempty(devices: Seq<Option<UsbDeviceSummary>>, n: nat)
    requires
        n <= devices.len(),
    ensures
        spec_select_usb_tokens(devices, n).len() > 0 <==> some_token_device(devices, n),
    decreases n,
{
    if n > 0 {
        lemma_selection_nonempty(devices, (n - 1) as nat);
        let prev = spec_select_usb_tokens(devices, (n - 1) as nat);
        let k = (n - 1) as int;
        if some_token_device(devices, (n - 1) as nat) {
            let i = choose|i: int| 0 <= i < n - 1 && #[trigger] is_token_device(devices[i]);
            assert(is_token_device(devices[i]));
        } else if is_token_device(devices[k]) {
            assert(prev.len() == 0);
            assert(selected_ids(devices, prev) =~= Seq::<Seq<char>>::empty());
        } else {
            assert forall|i: int| 0 <= i < n implies !#[trigger] is_token_device(devices[i]) by {
                if i < n - 1 {
                    assert(!is_token_device(devices[i]));
                }
            }
        }
    }
}

/// The USB hint is on exactly when `LIST_USB_TOKENS` would list some token for
/// the same enumerated devices (and off, like the listing's error, when the
/// enumeration failed).
pub proof fn lemma_usb_hint_iff_tokens_listed(devices: Seq<Option<UsbDeviceSummary>>)
    ensures
        spec_usb_hint(devices) <==> spec_select_usb_tokens(devices, devices.len()).len() > 0,
{
    lemma_selection_nonempty(devices, devices.len());
    if spec_usb_hint(devices) {
        let i = choose|i: int| 0 <= i < devices.len() && (#[trigger] devices[i] matches Some(d) && spec_device_match_reason(d) is Some);
        assert(is_token_device(devices[i]));
    }
    if some_token_device(devices, devices.len()) {
        let i = choose|i: int| 0 <= i < devices.len() && #[trigger] is_token_device(devices[i]);
        assert(devices[i] matches Some(d) && spec_device_match_reason(d) is Some);
    }
}

} // verus!
