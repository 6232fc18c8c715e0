//! Token-side data the host reports and the decisions it takes on key
//! material read from a PKCS#11 token.

use vstd::prelude::*;
use vstd::string::StringSliceAdditionalSpecFns;
use vstd::utf8::encode_utf8;
use crate::ca_bundle::{parse_certificate, same_bytes, spec_parse_certificate};
use crate::codec::{base64_encode, hex_decode, hex_encode_lower, hex_lower, spec_base64_encode, spec_hex_decode};
use crate::pdf::{find_seq, occurs_at};
use crate::text::push_str;
use x509_parser::certificate::X509Certificate;
use x509_parser::prelude::FromDer;

verus! {

/// A PKCS#11 slot as reported by `LIST_SLOTS`.
#[derive(Debug, Clone)]
pub struct SlotInfo {
    pub id: u64,
    pub label: String,
    pub manufacturer: String,
    pub model: String,
    pub serial: String,
    pub token_present: bool,
}

/// A certificate stored on a token, as reported by `LIST_CERTS`.
#[derive(Debug, Clone)]
pub struct CertInfo {
    /// Hex-encoded CKA_ID. Used by the extension to reference a specific cert.
    pub id: String,
    pub label: String,
    pub subject: String,
    pub issuer: String,
    pub not_before: Option<String>,
    pub not_after: Option<String>,
    pub serial: Option<String>,
    /// Base64-encoded DER. The extension can show fingerprint / chain info.
    pub der_base64: String,
}

/// Whether some slot reports a token present (what `PING` asks of PKCS#11).
pub fn any_token_present(slots: &Vec<SlotInfo>) -> (r: bool)
    ensures
        r <==> exists|i: int| 0 <= i < slots@.len() && (#[trigger] slots@[i]).token_present,
{
    let mut i: usize = 0;
    while i < slots.len()
        invariant
            i <= slots@.len(),
            forall|j: int| 0 <= j < i ==> !(#[trigger] slots@[j]).token_present,
        decreases slots@.len() - i,
    {
        if slots[i].token_present {
            return true;
        }
        i = i + 1;
    }
    false
}

/// Why the token refused a PIN login.
#[derive(Debug, Clone)]
pub enum LoginError {
    /// The token rejected the PIN.
    Incorrect,
    /// The token's PIN is locked.
    Locked,
    /// Any other failure, with its message.
    Other(String),
}

/// A big-endian magnitude with a single ASN.1 sign byte (`0x00`) removed.
pub open spec fn spec_strip_leading_zero(bytes: Seq<u8>) -> Seq<u8> {
    if bytes.len() > 1 && bytes[0] == 0u8 {
        bytes.drop_first()
    } else {
        bytes
    }
}

/// Drop a single leading zero byte from a big-endian unsigned integer.
/// ASN.1 INTEGER encodes magnitudes with the high bit set as `0x00 || bytes`
/// to keep them positive; PKCS#11 returns the raw magnitude. Normalize both
/// to the bare big-endian form before comparing.
pub fn strip_leading_zero(bytes: &[u8]) -> (r: &[u8])
    ensures
        r@ == spec_strip_leading_zero(bytes@),
{
    if bytes.len() > 1 && bytes[0] == 0 {
        let r = &bytes[1..bytes.len()];
        assert(r@ =~= bytes@.drop_first());
        r
    } else {
        bytes
    }
}

/// The public key of a certificate, as far as key matching reads it.
#[derive(Debug, Clone)]
pub enum CertPublicKey {
    Rsa { modulus: Vec<u8>, exponent: Vec<u8> },
    Ec { point: Vec<u8> },
    Other,
}

/// The public key components that key matching compares.
pub enum KeyModel {
    Rsa { modulus: Seq<u8>, exponent: Seq<u8> },
    Ec { point: Seq<u8> },
    Other,
}

impl CertPublicKey {
    /// The key's components.
    pub open spec fn model(self) -> KeyModel {
        match self {
            CertPublicKey::Rsa { modulus, exponent } => KeyModel::Rsa { modulus: modulus@, exponent: exponent@ },
            CertPublicKey::Ec { point } => KeyModel::Ec { point: point@ },
            CertPublicKey::Other => KeyModel::Other,
        }
    }
}

/// The `CKA_KEY_TYPE` of a private key object, as far as key matching reads it.
#[derive(Debug, Clone, Copy, PartialEq, Eq, Structural)]
pub enum KeyKind {
    Rsa,
    Ec,
    Other,
}

/// Attributes read from one private key object on the token.
#[derive(Debug, Clone)]
pub struct PrivateKeyAttributes {
    pub key_type: Option<KeyKind>,
    pub modulus: Vec<u8>,
    pub public_exponent: Vec<u8>,
    pub ec_point: Vec<u8>,
}

/// `needle` occurs somewhere in `hay`.
pub open spec fn contains_seq(hay: Seq<u8>, needle: Seq<u8>) -> bool {
    exists|i: int| occurs_at(hay, needle, i)
}

/// The private key's public components are those of the certificate's key
/// `m`: RSA modulus and exponent equal up to one ASN.1 sign byte, or the EC
/// point found inside the key's `CKA_EC_POINT`.
pub open spec fn spec_model_matches(m: KeyModel, key: PrivateKeyAttributes) -> bool {
    match m {
        KeyModel::Rsa { modulus, exponent } => {
            &&& key.key_type == Some(KeyKind::Rsa)
            &&& key.modulus@.len() > 0
            &&& key.public_exponent@.len() > 0
            &&& spec_strip_leading_zero(modulus) == spec_strip_leading_zero(key.modulus@)
            &&& spec_strip_leading_zero(exponent) == spec_strip_leading_zero(key.public_exponent@)
        },
        KeyModel::Ec { point } => {
            &&& key.key_type == Some(KeyKind::Ec)
            &&& key.ec_point@.len() > 0
            &&& point.len() > 0
            &&& contains_seq(key.ec_point@, point)
        },
        KeyModel::Other => false,
    }
}

/// The private key belongs to the certificate's key `cert_key`.
pub open spec fn spec_key_matches(cert_key: CertPublicKey, key: PrivateKeyAttributes) -> bool {
    spec_model_matches(cert_key.model(), key)
}

proof fn lemma_find_seq_contains(h: Seq<u8>, n: Seq<u8>, start: int)
    requires
        start >= 0,
    ensures
        find_seq(h, n, start) is Some ==> contains_seq(h, n),
        (forall|i: int| 0 <= i < start ==> !occurs_at(h, n, i)) && find_seq(h, n, start) is None
            ==> !contains_seq(h, n),
    decreases h.len() + 1 - start,
{
    if start + n.len() > h.len() {
        if (forall|i: int| 0 <= i < start ==> !occurs_at(h, n, i)) {
            assert forall|i: int| !occurs_at(h, n, i) by {
                if 0 <= i < start {
                } else if i >= start {
                }
            }
        }
    } else if h.subrange(start, start + n.len()) == n {
        assert(occurs_at(h, n, start));
    } else {
        assert(!occurs_at(h, n, start));
        lemma_find_seq_contains(h, n, start + 1);
    }
}

/// Whether a private key object on the token belongs to the certificate's key.
pub fn private_key_matches(cert_key: &CertPublicKey, key: &PrivateKeyAttributes) -> (r: bool)
    ensures
        r == spec_key_matches(*cert_key, *key),
{
    match cert_key {
        CertPublicKey::Rsa { modulus, exponent } => {
            match key.key_type {
                Some(KeyKind::Rsa) => {},
                _ => return false,
            }
            !key.modulus.is_empty() && !key.public_exponent.is_empty() && same_bytes(
                strip_leading_zero(modulus.as_slice()),
                strip_leading_zero(key.modulus.as_slice()),
            ) && same_bytes(
                strip_leading_zero(exponent.as_slice()),
                strip_leading_zero(key.public_exponent.as_slice()),
            )
        },
        CertPublicKey::Ec { point } => {
            match key.key_type {
                Some(KeyKind::Ec) => {},
                _ => return false,
            }
            if key.ec_point.is_empty() || point.is_empty() {
                return false;
            }
            let found = crate::pdf::find_subsequence(key.ec_point.as_slice(), point.as_slice());
            proof {
                lemma_find_seq_contains(key.ec_point@, point@, 0);
            }
            found.is_some()
        },
        CertPublicKey::Other => false,
    }
}

/// A candidate whose attributes were read and that matches the certificate's key.
pub open spec fn candidate_matches(cert_key: CertPublicKey, c: Option<PrivateKeyAttributes>) -> bool {
    model_candidate_matches(cert_key.model(), c)
}

/// A candidate whose attributes were read and that matches the key `m`.
pub open spec fn model_candidate_matches(m: KeyModel, c: Option<PrivateKeyAttributes>) -> bool {
    match c {
        Some(k) => spec_model_matches(m, k),
        None => false,
    }
}

/// Index of the first candidate key whose attributes could be read and that
/// matches the certificate's public key.
pub fn find_matching_key(cert_key: &CertPublicKey, candidates: &Vec<Option<PrivateKeyAttributes>>) -> (r: Option<usize>)
    ensures
        r matches Some(i) ==> i < candidates@.len() && candidate_matches(*cert_key, candidates@[i as int]),
        r matches Some(i) ==> forall|j: int| 0 <= j < i ==> !candidate_matches(*cert_key, #[trigger] candidates@[j]),
        r is None ==> forall|j: int| 0 <= j < candidates@.len() ==> !candidate_matches(*cert_key, #[trigger] candidates@[j]),
{
    let mut i: usize = 0;
    while i < candidates.len()
        invariant
            i <= candidates@.len(),
            forall|j: int| 0 <= j < i ==> !candidate_matches(*cert_key, #[trigger] candidates@[j]),
        decreases candidates@.len() - i,
    {
        if let Some(k) = &candidates[i] {
            if private_key_matches(cert_key, k) {
                return Some(i);
            }
        }
        i = i + 1;
    }
    None
}


/// The certificate's public key, for matching a private key by its components
/// when the `CKA_ID` lookup finds none.
pub fn certificate_key(cert_der: &[u8]) -> (r: Result<CertPublicKey, String>)
    ensures
        match spec_parse_certificate(cert_der@) {
            Err(e) => r matches Err(m) && m@ == "parse certificate DER for fallback: "@ + e,
            Ok(c) => match c.public_key {
                Err(e) => r matches Err(m) && m@ == "parse certificate public key for fallback: "@ + e,
                Ok(km) => r matches Ok(k) && k.model() == km,
            },
        },
{
    match parse_certificate(cert_der) {
        Err(e) => {
            let mut m = String::from_str("parse certificate DER for fallback: ");
            push_str(&mut m, e.as_str());
            Err(m)
        },
        Ok(p) => match p.public_key {
            Ok(k) => Ok(k),
            Err(e) => {
                let mut m = String::from_str("parse certificate public key for fallback: ");
                push_str(&mut m, e.as_str());
                Err(m)
            },
        },
    }
}

/// The `CKA_ID` bytes named by the hex certificate id, or
/// `cert_id is not valid hex`.
pub fn decode_cert_id(cert_id_hex: &str) -> (r: Result<Vec<u8>, String>)
    ensures
        r matches Ok(v) ==> spec_hex_decode(cert_id_hex.spec_bytes()) == Some(v@),
        r matches Err(m) ==> spec_hex_decode(cert_id_hex.spec_bytes()) is None && m@ == "cert_id is not valid hex"@,
{
    match hex_decode(cert_id_hex.as_bytes()) {
        Some(v) => Ok(v),
        None => Err(String::from_str("cert_id is not valid hex")),
    }
}

/// The subject, issuer, validity and serial of a certificate as displayed to
/// the user.
#[derive(Debug, Clone)]
pub struct CertMetadata {
    pub subject: String,
    pub issuer: String,
    pub not_before: Option<String>,
    pub not_after: Option<String>,
    pub serial: Option<String>,
}

/// The subject, issuer, validity bounds and serial (lower-case hex) of the
/// certificate `der` as `x509-parser` renders them, when it parses.
pub uninterp spec fn spec_cert_metadata(der: Seq<u8>) -> Option<(Seq<char>, Seq<char>, Seq<char>, Seq<char>, Seq<char>)>;

/// The views of the texts a metadata read gave.
pub open spec fn metadata_texts_view(r: Option<(String, String, String, String, String)>) -> Option<
    (Seq<char>, Seq<char>, Seq<char>, Seq<char>, Seq<char>),
> {
    match r {
        Some((s, i, b, a, n)) => Some((s@, i@, b@, a@, n@)),
        None => None,
    }
}

/// `X509Certificate::from_der` of `x509-parser`, then the `Display` of the
/// subject, the issuer and the two validity bounds, and `{:x}` of the serial:
/// named `spec_cert_metadata`, `None` when the certificate does not parse.
#[verifier::external_body]
fn cert_metadata_texts(der: &[u8]) -> (r: Option<(String, String, String, String, String)>)
    ensures
        spec_cert_metadata(der@) == metadata_texts_view(r),
{
    let (_, c) = X509Certificate::from_der(der).ok()?;
    let v = c.validity();
    Some((c.subject().to_string(), c.issuer().to_string(), v.not_before.to_string(), v.not_after.to_string(), format!("{:x}", c.serial)))
}

/// The metadata is what `x509-parser` renders of `der`; when it does not parse,
/// empty names and no validity or serial.
pub open spec fn metadata_of(der: Seq<u8>, m: CertMetadata) -> bool {
    match spec_cert_metadata(der) {
        Some((s, i, b, a, n)) => {
            &&& m.subject@ == s
            &&& m.issuer@ == i
            &&& m.not_before matches Some(x) && x@ == b
            &&& m.not_after matches Some(x) && x@ == a
            &&& m.serial matches Some(x) && x@ == n
        },
        None => {
            &&& m.subject@.len() == 0
            &&& m.issuer@.len() == 0
            &&& m.not_before is None
            &&& m.not_after is None
            &&& m.serial is None
        },
    }
}

/// The subject, issuer, validity and serial of the certificate `der` as shown
/// to the user, or empty ones when it does not parse.
pub fn cert_metadata(der: &[u8]) -> (m: CertMetadata)
    ensures
        metadata_of(der@, m),
{
    match cert_metadata_texts(der) {
        Some((subject, issuer, not_before, not_after, serial)) => CertMetadata {
            subject,
            issuer,
            not_before: Some(not_before),
            not_after: Some(not_after),
            serial: Some(serial),
        },
        None => CertMetadata {
            subject: String::new(),
            issuer: String::new(),
            not_before: None,
            not_after: None,
            serial: None,
        },
    }
}

/// The `LIST_CERTS` entry for a certificate object with `CKA_ID` `id`,
/// `CKA_LABEL` `label` and `CKA_VALUE` `der`; an object without a value is
/// skipped with an error.
pub fn cert_info(id: &[u8], label: String, der: &[u8]) -> (r: Result<CertInfo, String>)
    requires
        4 * ((der@.len() + 2) / 3) <= usize::MAX,
    ensures
        der@.len() == 0 ==> (r matches Err(m) && m@ == "certificate object had no CKA_VALUE"@),
        der@.len() > 0 ==> (r matches Ok(c) && {
            &&& encode_utf8(c.id@) == hex_lower(id@)
            &&& c.label == label
            &&& metadata_of(
                der@,
                CertMetadata {
                    subject: c.subject,
                    issuer: c.issuer,
                    not_before: c.not_before,
                    not_after: c.not_after,
                    serial: c.serial,
                },
            )
            &&& c.der_base64@ == spec_base64_encode(der@)
        }),
{
    if der.len() == 0 {
        return Err(String::from_str("certificate object had no CKA_VALUE"));
    }
    let id_hex = hex_encode_lower(id);
    let der_base64 = base64_encode(der);
    let metadata = cert_metadata(der);
    Ok(CertInfo {
        id: id_hex,
        label,
        subject: metadata.subject,
        issuer: metadata.issuer,
        not_before: metadata.not_before,
        not_after: metadata.not_after,
        serial: metadata.serial,
        der_base64,
    })
}

/// The error when no private key matches: the certificate id in hex and what
/// each candidate key looked like.
pub open spec fn no_matching_key_text(cert_id: Seq<u8>, considered: Seq<Seq<char>>) -> Seq<char> {
    "no private key matches certificate public key (cert_id="@ + decode_ascii(hex_lower(cert_id)) + ", considered=["@
        + joined(considered, ", "@) + "])"@
}

/// The error when no private key matches: the certificate id in hex and what
/// each candidate key looked like.
pub fn no_matching_key_message(cert_id: &[u8], considered: &Vec<String>) -> (r: String)
    ensures
        r@ == no_matching_key_text(cert_id@, considered@.map_values(|c: String| c@)),
{
    let id_hex = hex_encode_lower(cert_id);
    proof {
        lemma_ascii_roundtrip(id_hex@);
    }
    let mut r = String::from_str("no private key matches certificate public key (cert_id=");
    push_str(&mut r, id_hex.as_str());
    push_str(&mut r, ", considered=[");
    let ghost parts = considered@.map_values(|c: String| c@);
    let mut i: usize = 0;
    let ghost head = r@;
    while i < considered.len()
        invariant
            i <= considered@.len(),
            parts == considered@.map_values(|c: String| c@),
            r@ == head + joined(parts.take(i as int), ", "@),
        decreases considered@.len() - i,
    {
        proof {
            assert(parts.take(i + 1).drop_last() =~= parts.take(i as int));
        }
        if i > 0 {
            push_str(&mut r, ", ");
        }
        push_str(&mut r, considered[i].as_str());
        proof {
            assert(r@ =~= head + joined(parts.take(i + 1), ", "@));
        }
        i = i + 1;
    }
    assert(parts.take(i as int) =~= parts);
    push_str(&mut r, "])");
    r
}

/// The texts joined with `sep` between them.
pub open spec fn joined(parts: Seq<Seq<char>>, sep: Seq<char>) -> Seq<char>
    decreases parts.len(),
{
    if parts.len() == 0 {
        Seq::empty()
    } else if parts.len() == 1 {
        parts[0]
    } else {
        joined(parts.drop_last(), sep) + sep + parts.last()
    }
}

/// The characters of ASCII bytes.
pub open spec fn decode_ascii(bytes: Seq<u8>) -> Seq<char> {
    Seq::new(bytes.len(), |i: int| bytes[i] as char)
}

proof fn lemma_ascii_roundtrip(s: Seq<char>)
    requires
        vstd::utf8::is_ascii_chars(s),
    ensures
        decode_ascii(encode_utf8(s)) == s,
{
    vstd::utf8::is_ascii_chars_encode_utf8(s);
    assert forall|i: int| 0 <= i < s.len() implies decode_ascii(encode_utf8(s))[i] == s[i] by {
        let c = s[i];
        let b = encode_utf8(s)[i];
        let cu = c as u32;
        assert(c as u8 == b);
        assert(cu < 128);
        assert(b == cu as u8);
        assert((b as u32) == cu) by (bit_vector)
            requires
                b == cu as u8,
                cu < 128,
        ;
        assert(b as char == c);
    }
    assert(decode_ascii(encode_utf8(s)) =~= s);
}

/// Each of `handles` was read by `read_key`, giving `reads` in order: the key's
/// attributes (if they could be read) and how the key is described in errors.
pub open spec fn keys_read<H, R>(read_key: R, handles: Seq<H>, reads: Seq<(Option<PrivateKeyAttributes>, String)>) -> bool where
    R: Fn(H) -> (Option<PrivateKeyAttributes>, String),
{
    &&& reads.len() == handles.len()
    &&& forall|i: int| 0 <= i < handles.len() ==> #[trigger] call_ensures(read_key, (handles[i],), reads[i])
}

/// The key found among `handles` (read as `reads`) by the certificate's key
/// `m`: the first whose attributes match; with none, the error naming the
/// certificate id and every key considered.
pub open spec fn fallback_outcome<H>(
    cert_id: Seq<u8>,
    m: KeyModel,
    handles: Seq<H>,
    reads: Seq<(Option<PrivateKeyAttributes>, String)>,
    r: Result<H, String>,
) -> bool {
    match r {
        Ok(h) => exists|i: int|
            0 <= i < handles.len() && handles[i] == h && #[trigger] model_candidate_matches(m, reads[i].0) && forall|j: int|
                0 <= j < i ==> !model_candidate_matches(m, #[trigger] reads[j].0),
        Err(e) => {
            &&& forall|j: int| 0 <= j < handles.len() ==> !model_candidate_matches(m, #[trigger] reads[j].0)
            &&& e@ == no_matching_key_text(cert_id, reads.map_values(|p: (Option<PrivateKeyAttributes>, String)| p.1@))
        },
    }
}

/// The private key search for the certificate `cert_der` with id `cert_id`:
/// the first key `find_by_id` lists under the id; with none, the certificate's
/// public key is read and the keys `list_keys` lists are matched against it.
pub open spec fn key_search_outcome<H, I, L, R>(
    cert_id: Seq<u8>,
    cert_der: Seq<u8>,
    find_by_id: I,
    list_keys: L,
    read_key: R,
    r: Result<H, String>,
) -> bool where
    I: FnOnce() -> Result<Vec<H>, String>,
    L: FnOnce() -> Result<Vec<H>, String>,
    R: Fn(H) -> (Option<PrivateKeyAttributes>, String),
{
    exists|by_id: Result<Vec<H>, String>|
        #[trigger] call_ensures(find_by_id, (), by_id) && match by_id {
            Err(_) => r matches Err(e) && e@ == "find private key by CKA_ID"@,
            Ok(found) => if found@.len() > 0 {
                r == Ok::<H, String>(found@[0])
            } else {
                match spec_parse_certificate(cert_der) {
                    Err(t) => r matches Err(e) && e@ == "parse certificate DER for fallback: "@ + t,
                    Ok(c) => match c.public_key {
                        Err(t) => r matches Err(e) && e@ == "parse certificate public key for fallback: "@ + t,
                        Ok(m) => exists|keys: Result<Vec<H>, String>|
                            #[trigger] call_ensures(list_keys, (), keys) && match keys {
                                Err(_) => r matches Err(e) && e@ == "enumerate private keys for fallback match"@,
                                Ok(hs) => if hs@.len() == 0 {
                                    r matches Err(e) && e@ == "token has no private key objects after login"@
                                } else {
                                    exists|reads: Seq<(Option<PrivateKeyAttributes>, String)>|
                                        #[trigger] keys_read(read_key, hs@, reads) && fallback_outcome(cert_id, m, hs@, reads, r)
                                },
                            },
                    },
                }
            },
        }
}

/// The private key paired with the certificate: the first key `find_by_id`
/// lists under the certificate's `CKA_ID`, else the first key `list_keys`
/// lists whose public components (read by `read_key`) match the certificate's.
pub fn find_private_key_handle<H: Copy, I, L, R>(
    cert_id: &[u8],
    cert_der: &[u8],
    find_by_id: I,
    list_keys: L,
    read_key: R,
) -> (r: Result<H, String>) where
    I: FnOnce() -> Result<Vec<H>, String>,
    L: FnOnce() -> Result<Vec<H>, String>,
    R: Fn(H) -> (Option<PrivateKeyAttributes>, String),

    requires
        call_requires(find_by_id, ()),
        call_requires(list_keys, ()),
        forall|h: H| #[trigger] call_requires(read_key, (h,)),
    ensures
        key_search_outcome(cert_id@, cert_der@, find_by_id, list_keys, read_key, r),
{
    let by_id = find_by_id();
    let ghost by_id_v = by_id;
    let found = match by_id {
        Err(_) => {
            return Err(String::from_str("find private key by CKA_ID"));
        },
        Ok(v) => v,
    };
    if found.len() > 0 {
        return Ok(found[0]);
    }
    let cert_key = certificate_key(cert_der)?;
    let keys = list_keys();
    let ghost keys_v = keys;
    let handles = match keys {
        Err(_) => {
            let r = Err(String::from_str("enumerate private keys for fallback match"));
            assert(call_ensures(list_keys, (), keys_v));
            return r;
        },
        Ok(h) => h,
    };
    if handles.len() == 0 {
        let r = Err(String::from_str("token has no private key objects after login"));
        assert(call_ensures(list_keys, (), keys_v));
        return r;
    }
    let mut read: Vec<Option<PrivateKeyAttributes>> = Vec::new();
    let mut considered: Vec<String> = Vec::new();
    let ghost mut reads: Seq<(Option<PrivateKeyAttributes>, String)> = Seq::empty();
    let mut i: usize = 0;
    while i < handles.len()
        invariant
            i <= handles@.len(),
            forall|h: H| #[trigger] call_requires(read_key, (h,)),
            reads.len() == i,
            read@.len() == i,
            considered@.len() == i,
            forall|j: int| 0 <= j < i ==> #[trigger] call_ensures(read_key, (handles@[j],), reads[j]),
            forall|j: int| 0 <= j < i ==> read@[j] == #[trigger] reads[j].0,
            forall|j: int| 0 <= j < i ==> considered@[j] == #[trigger] reads[j].1,
        decreases handles@.len() - i,
    {
        let got = read_key(handles[i]);
        proof {
            reads = reads.push(got);
        }
        let (attrs, text) = got;
        read.push(attrs);
        considered.push(text);
        i = i + 1;
    }
    assert(keys_read(read_key, handles@, reads));
    match find_matching_key(&cert_key, &read) {
        Some(k) => {
            assert(model_candidate_matches(cert_key.model(), reads[k as int].0));
            Ok(handles[k])
        },
        None => {
            let e = no_matching_key_message(cert_id, &considered);
            assert(considered@.map_values(|c: String| c@) =~= reads.map_values(
                |p: (Option<PrivateKeyAttributes>, String)| p.1@,
            ));
            Err(e)
        },
    }
}

} // verus!
