//! Certificate chain building from a bundle of CA certificates.
//!
//! Many signing tokens carry only the leaf certificate, so the chain up to a
//! root is resolved from bundled CA certificates by walking issuer → subject
//! distinguished names (compared as raw DER).

use vstd::prelude::*;
use x509_parser::prelude::FromDer;
use x509_parser::certificate::X509Certificate;
use x509_parser::public_key::PublicKey;
use crate::pkcs11::{CertPublicKey, KeyModel};

verus! {

/// What the library reads of a certificate: the raw DER of its subject and
/// issuer names, and its public key, or the parser's message when that does
/// not parse.
pub struct CertificateModel {
    pub subject: Seq<u8>,
    pub issuer: Seq<u8>,
    pub public_key: Result<KeyModel, Seq<char>>,
}

/// The parts of a certificate the library reads.
pub struct ParsedCertificate {
    pub subject: Vec<u8>,
    pub issuer: Vec<u8>,
    /// The public key, or the parser's message when it does not parse.
    pub public_key: Result<CertPublicKey, String>,
}

impl ParsedCertificate {
    /// What the library reads of it.
    pub open spec fn model(self) -> CertificateModel {
        CertificateModel {
            subject: self.subject@,
            issuer: self.issuer@,
            public_key: match self.public_key {
                Ok(k) => Ok(k.model()),
                Err(e) => Err(e@),
            },
        }
    }
}

/// What a parse gave: the certificate's model, or the message.
pub open spec fn parse_outcome(r: Result<ParsedCertificate, String>) -> Result<CertificateModel, Seq<char>> {
    match r {
        Ok(p) => Ok(p.model()),
        Err(e) => Err(e@),
    }
}

/// The certificate `der` as `x509-parser` reads it, or the parser's message
/// when it does not parse.
pub uninterp spec fn spec_parse_certificate(der: Seq<u8>) -> Result<CertificateModel, Seq<char>>;

/// `X509Certificate::from_der` of `x509-parser`: the subject and issuer names as
/// raw DER (`as_raw`), and the public key from `public_key().parsed()` (RSA
/// modulus and exponent, EC point data, any other kind as `Other`), with the
/// parser's messages (its errors' `Display`) where the certificate or its key
/// does not parse. The contract names the result `spec_parse_certificate(der)`.
#[verifier::external_body]
pub(crate) fn parse_certificate(der: &[u8]) -> (r: Result<ParsedCertificate, String>)
    ensures
        spec_parse_certificate(der@) == parse_outcome(r),
{
    let (_, c) = X509Certificate::from_der(der).map_err(|e| e.to_string())?;
    let public_key = match c.public_key().parsed() {
        Ok(PublicKey::RSA(k)) => Ok(CertPublicKey::Rsa { modulus: k.modulus.to_vec(), exponent: k.exponent.to_vec() }),
        Ok(PublicKey::EC(p)) => Ok(CertPublicKey::Ec { point: p.data().to_vec() }),
        Ok(_) => Ok(CertPublicKey::Other),
        Err(e) => Err(e.to_string()),
    };
    Ok(ParsedCertificate { subject: c.subject().as_raw().to_vec(), issuer: c.issuer().as_raw().to_vec(), public_key })
}

/// The raw DER of the subject and issuer names of `der`, when it parses.
pub open spec fn spec_cert_names(der: Seq<u8>) -> Option<(Seq<u8>, Seq<u8>)> {
    match spec_parse_certificate(der) {
        Ok(m) => Some((m.subject, m.issuer)),
        Err(_) => None,
    }
}

/// The subject and issuer names of `der`, when it parses.
fn cert_names(der: &[u8]) -> (r: Option<(Vec<u8>, Vec<u8>)>)
    ensures
        r matches Some((s, i)) ==> spec_cert_names(der@) == Some((s@, i@)),
        r is None <==> spec_cert_names(der@) is None,
{
    match parse_certificate(der) {
        Ok(p) => Some((p.subject, p.issuer)),
        Err(_) => None,
    }
}

/// The certificate's subject name, when it parses.
pub open spec fn subject_of(der: Seq<u8>) -> Option<Seq<u8>> {
    match spec_cert_names(der) {
        Some((s, _)) => Some(s),
        None => None,
    }
}

/// The certificate's issuer name (empty when it does not parse).
pub open spec fn issuer_of(der: Seq<u8>) -> Seq<u8> {
    match spec_cert_names(der) {
        Some((_, i)) => i,
        None => Seq::empty(),
    }
}

/// The certificate parses and its subject equals its issuer.
pub open spec fn is_self_signed_der(der: Seq<u8>) -> bool {
    spec_cert_names(der) matches Some((s, i)) && s == i
}

/// Whether the certificate `der` is self-signed (subject equals issuer);
/// `false` when it does not parse.
pub fn is_self_signed(der: &[u8]) -> (r: bool)
    ensures
        r == is_self_signed_der(der@),
{
    match cert_names(der) {
        Some((s, i)) => same_bytes(s.as_slice(), i.as_slice()),
        None => false,
    }
}

/// Whether two byte strings are equal.
pub(crate) fn same_bytes(a: &[u8], b: &[u8]) -> (r: bool)
    ensures
        r == (a@ == b@),
{
    if a.len() != b.len() {
        return false;
    }
    let mut k: usize = 0;
    while k < a.len()
        invariant
            k <= a@.len(),
            a@.len() == b@.len(),
            forall|m: int| 0 <= m < k ==> a@[m] == b@[m],
        decreases a@.len() - k,
    {
        if a[k] != b[k] {
            return false;
        }
        k = k + 1;
    }
    assert(a@ =~= b@);
    true
}

/// The DER bytes of each certificate.
pub open spec fn ders(v: Seq<Vec<u8>>) -> Seq<Seq<u8>> {
    v.map_values(|d: Vec<u8>| d@)
}

/// Index of the first certificate of `bundle`, at or after `from`, whose
/// subject is `name`.
pub open spec fn first_with_subject(bundle: Seq<Seq<u8>>, name: Seq<u8>, from: int) -> Option<int>
    decreases bundle.len() - from,
{
    if from < 0 || from >= bundle.len() {
        None
    } else if subject_of(bundle[from]) == Some(name) {
        Some(from)
    } else {
        first_with_subject(bundle, name, from + 1)
    }
}

/// The name that link `t` of `chain` is looked up by: the leaf's issuer for the
/// first link, then the issuer of the link before.
pub open spec fn link_issuer(leaf_issuer: Seq<u8>, chain: Seq<Seq<u8>>, t: int) -> Seq<u8> {
    if t == 0 {
        leaf_issuer
    } else {
        issuer_of(chain[t - 1])
    }
}

/// The name looked up for link `t` was already looked up for an earlier link.
pub open spec fn seen_before(leaf_issuer: Seq<u8>, chain: Seq<Seq<u8>>, t: int) -> bool {
    exists|s: int| 0 <= s < t && #[trigger] link_issuer(leaf_issuer, chain, s) == link_issuer(leaf_issuer, chain, t)
}

/// `d` is the first bundled certificate whose subject is `name`.
pub open spec fn is_link(bundle: Seq<Seq<u8>>, name: Seq<u8>, d: Seq<u8>) -> bool {
    first_with_subject(bundle, name, 0) matches Some(j) && d == bundle[j]
}

/// Link `t` of `chain` is the first bundled certificate whose subject is the
/// name looked up, that name was not looked up before, and the link is not
/// self-signed unless it is the last.
pub open spec fn link_ok(bundle: Seq<Seq<u8>>, leaf_issuer: Seq<u8>, chain: Seq<Seq<u8>>, t: int) -> bool {
    &&& !seen_before(leaf_issuer, chain, t)
    &&& is_link(bundle, link_issuer(leaf_issuer, chain, t), chain[t])
    &&& t < chain.len() - 1 ==> !is_self_signed_der(chain[t])
}

/// Every link of `chain` is as `link_ok` says.
pub open spec fn is_walk_prefix(bundle: Seq<Seq<u8>>, leaf_issuer: Seq<u8>, chain: Seq<Seq<u8>>) -> bool {
    forall|t: int| 0 <= t < chain.len() ==> #[trigger] link_ok(bundle, leaf_issuer, chain, t)
}

/// `chain` is the walk from `leaf_issuer` through `bundle`: each link is the first
/// bundled certificate whose subject is the name looked up, every name is looked
/// up once, and the walk stops after a self-signed certificate, at a name seen
/// before, or at a name no bundled certificate has as subject.
pub open spec fn is_chain_walk(bundle: Seq<Seq<u8>>, leaf_issuer: Seq<u8>, chain: Seq<Seq<u8>>) -> bool {
    let m = chain.len() as int;
    &&& is_walk_prefix(bundle, leaf_issuer, chain)
    &&& ((m > 0 && is_self_signed_der(chain[m - 1])) || seen_before(leaf_issuer, chain, m)
        || first_with_subject(bundle, link_issuer(leaf_issuer, chain, m), 0) is None)
}

/// Appending a link keeps the names looked up for the links before it.
proof fn lemma_link_issuer_push(li: Seq<u8>, chain: Seq<Seq<u8>>, d: Seq<u8>)
    ensures
        forall|s: int| 0 <= s <= chain.len() ==> #[trigger] link_issuer(li, chain.push(d), s) == link_issuer(li, chain, s),
{
    assert forall|s: int| 0 <= s <= chain.len() implies #[trigger] link_issuer(li, chain.push(d), s) == link_issuer(li, chain, s) by {
        if s > 0 {
            assert(chain.push(d)[s - 1] == chain[s - 1]);
        }
    }
}

/// Appending a link keeps which names were seen before each earlier link.
proof fn lemma_seen_before_push(li: Seq<u8>, chain: Seq<Seq<u8>>, d: Seq<u8>, t: int)
    requires
        0 <= t <= chain.len(),
    ensures
        seen_before(li, chain.push(d), t) == seen_before(li, chain, t),
{
    lemma_link_issuer_push(li, chain, d);
    let chain2 = chain.push(d);
    if seen_before(li, chain2, t) {
        let s = choose|s: int| 0 <= s < t && #[trigger] link_issuer(li, chain2, s) == link_issuer(li, chain2, t);
        assert(link_issuer(li, chain, s) == link_issuer(li, chain, t));
    }
    if seen_before(li, chain, t) {
        let s = choose|s: int| 0 <= s < t && #[trigger] link_issuer(li, chain, s) == link_issuer(li, chain, t);
        assert(link_issuer(li, chain2, s) == link_issuer(li, chain2, t));
    }
}

/// Extending a walk prefix by the next link keeps it a walk prefix.
proof fn lemma_walk_extend(bundle: Seq<Seq<u8>>, li: Seq<u8>, chain: Seq<Seq<u8>>, k: int)
    requires
        is_walk_prefix(bundle, li, chain),
        chain.len() > 0 ==> !is_self_signed_der(chain[chain.len() - 1]),
        !seen_before(li, chain, chain.len() as int),
        first_with_subject(bundle, link_issuer(li, chain, chain.len() as int), 0) == Some(k),
    ensures
        is_walk_prefix(bundle, li, chain.push(bundle[k])),
{
    let chain2 = chain.push(bundle[k]);
    let m = chain.len() as int;
    lemma_link_issuer_push(li, chain, bundle[k]);
    assert forall|t: int| 0 <= t < chain2.len() implies #[trigger] link_ok(bundle, li, chain2, t) by {
        lemma_seen_before_push(li, chain, bundle[k], t);
        assert(link_issuer(li, chain2, t) == link_issuer(li, chain, t));
        if t < m {
            assert(link_ok(bundle, li, chain, t));
            assert(chain2[t] == chain[t]);
        }
    }
}

/// Number of bundled certificates that parse and whose subject is not in `names`.
pub open spec fn unmatched(bundle: Seq<Seq<u8>>, names: Seq<Seq<u8>>, upto: int) -> nat
    decreases upto,
{
    if upto <= 0 {
        0
    } else {
        unmatched(bundle, names, upto - 1) + match subject_of(bundle[upto - 1]) {
            Some(s) => if names.contains(s) { 0nat } else { 1nat },
            None => 0nat,
        }
    }
}

/// Adding to `names` the subject of certificate `k`, not yet among them, lowers
/// the count of unmatched certificates.
proof fn lemma_unmatched_decreases(bundle: Seq<Seq<u8>>, names: Seq<Seq<u8>>, x: Seq<u8>, k: int, upto: int)
    requires
        0 <= k < bundle.len(),
        subject_of(bundle[k]) == Some(x),
        !names.contains(x),
    ensures
        unmatched(bundle, names.push(x), upto) <= unmatched(bundle, names, upto),
        upto > k ==> unmatched(bundle, names.push(x), upto) < unmatched(bundle, names, upto),
    decreases upto,
{
    if upto > 0 {
        lemma_unmatched_decreases(bundle, names, x, k, upto - 1);
        if let Some(s) = subject_of(bundle[upto - 1]) {
            if names.contains(s) {
                let w = choose|w: int| 0 <= w < names.len() && names[w] == s;
                assert(names.push(x)[w] == s);
            }
            if upto - 1 == k {
                assert(names.push(x)[names.len() as int] == x);
            }
        }
    }
}

proof fn lemma_first_with_subject_bounds(bundle: Seq<Seq<u8>>, name: Seq<u8>, from: int)
    ensures
        first_with_subject(bundle, name, from) matches Some(k) ==> from <= k < bundle.len()
            && subject_of(bundle[k]) == Some(name),
    decreases bundle.len() - from,
{
    if !(from < 0 || from >= bundle.len()) && subject_of(bundle[from]) != Some(name) {
        lemma_first_with_subject_bounds(bundle, name, from + 1);
    }
}

/// The first certificate of `bundle` whose subject is `name`.
fn find_by_subject(bundle: &Vec<Vec<u8>>, name: &[u8]) -> (r: Option<usize>)
    ensures
        r matches Some(k) ==> first_with_subject(ders(bundle@), name@, 0) == Some(k as int),
        r is None ==> first_with_subject(ders(bundle@), name@, 0) is None,
{
    let mut k: usize = 0;
    while k < bundle.len()
        invariant
            k <= bundle@.len(),
            first_with_subject(ders(bundle@), name@, 0) == first_with_subject(ders(bundle@), name@, k as int),
        decreases bundle@.len() - k,
    {
        let hit = match cert_names(bundle[k].as_slice()) {
            Some((s, _)) => same_bytes(s.as_slice(), name),
            None => false,
        };
        assert(ders(bundle@)[k as int] == bundle@[k as int]@);
        if hit {
            return Some(k);
        }
        k = k + 1;
    }
    None
}

/// Whether `name` is among `names`.
pub(crate) fn contains_name(names: &Vec<Vec<u8>>, name: &[u8]) -> (r: bool)
    ensures
        r == ders(names@).contains(name@),
{
    let mut k: usize = 0;
    while k < names.len()
        invariant
            k <= names@.len(),
            forall|m: int| 0 <= m < k ==> names@[m]@ != name@,
        decreases names@.len() - k,
    {
        if same_bytes(names[k].as_slice(), name) {
            assert(ders(names@)[k as int] == name@);
            return true;
        }
        k = k + 1;
    }
    assert forall|m: int| 0 <= m < ders(names@).len() implies ders(names@)[m] != name@ by {
        assert(ders(names@)[m] == names@[m]@);
    }
    false
}

/// Walks from the certificate `leaf_der` up through `bundle`, returning the
/// intermediates (and the root, if it is in the bundle) up to a self-signed
/// certificate. The leaf itself is not included; an unparseable leaf gives an
/// empty chain.
pub fn build_chain_in(bundle: &Vec<Vec<u8>>, leaf_der: &[u8]) -> (out: Vec<Vec<u8>>)
    ensures
        spec_cert_names(leaf_der@) is None ==> out@.len() == 0,
        spec_cert_names(leaf_der@) matches Some((_, leaf_issuer)) ==> is_chain_walk(ders(bundle@), leaf_issuer, ders(out@)),
{
    let mut out: Vec<Vec<u8>> = Vec::new();
    let mut visited: Vec<Vec<u8>> = Vec::new();
    let mut current: Vec<u8> = match cert_names(leaf_der) {
        Some((_, i)) => i,
        None => return out,
    };
    let ghost leaf_issuer = current@;
    let ghost b = ders(bundle@);
    assert(is_walk_prefix(b, leaf_issuer, ders(out@)));
    loop
        invariant_except_break
            visited@.len() == out@.len(),
            forall|s: int| 0 <= s < visited@.len() ==> #[trigger] visited@[s]@ == link_issuer(leaf_issuer, ders(out@), s),
            current@ == link_issuer(leaf_issuer, ders(out@), out@.len() as int),
            is_walk_prefix(b, leaf_issuer, ders(out@)),
            out@.len() > 0 ==> !is_self_signed_der(ders(out@)[out@.len() - 1]),
        invariant
            b == ders(bundle@),
            spec_cert_names(leaf_der@) matches Some((_, li)) && li == leaf_issuer,
        ensures
            is_chain_walk(b, leaf_issuer, ders(out@)),
        decreases unmatched(b, ders(visited@), b.len() as int),
    {
        let ghost m = out@.len() as int;
        let ghost chain = ders(out@);
        let seen = contains_name(&visited, current.as_slice());
        proof {
            if seen {
                let w = choose|w: int| 0 <= w < ders(visited@).len() && ders(visited@)[w] == current@;
                assert(ders(visited@)[w] == visited@[w]@);
                assert(link_issuer(leaf_issuer, chain, w) == link_issuer(leaf_issuer, chain, m));
                assert(seen_before(leaf_issuer, chain, m));
            } else {
                assert forall|s: int| 0 <= s < m implies #[trigger] link_issuer(leaf_issuer, chain, s) != link_issuer(leaf_issuer, chain, m) by {
                    assert(ders(visited@)[s] == visited@[s]@);
                }
            }
        }
        if seen {
            break;
        }
        let ghost old_names = ders(visited@);
        visited.push(current.clone());
        assert(ders(visited@) =~= old_names.push(current@));
        let next = match find_by_subject(bundle, current.as_slice()) {
            Some(k) => k,
            None => break,
        };
        proof {
            lemma_first_with_subject_bounds(b, current@, 0);
            lemma_unmatched_decreases(b, old_names, current@, next as int, b.len() as int);
            lemma_walk_extend(b, leaf_issuer, chain, next as int);
            lemma_link_issuer_push(leaf_issuer, chain, b[next as int]);
        }
        let der = bundle[next].clone();
        assert(der@ == b[next as int]);
        out.push(der);
        let ghost chain2 = ders(out@);
        assert(chain2 =~= chain.push(b[next as int]));
        if is_self_signed(bundle[next].as_slice()) {
            break;
        }
        let issuer = match cert_names(bundle[next].as_slice()) {
            Some((_, i)) => i,
            None => break,
        };
        current = issuer;
        proof {
            assert(chain2[m] == b[next as int]);
            assert(current@ == link_issuer(leaf_issuer, chain2, m + 1));
            assert forall|s: int| 0 <= s < visited@.len() implies #[trigger] visited@[s]@ == link_issuer(leaf_issuer, chain2, s) by {
                if s < m {
                    assert(visited@[s]@ == link_issuer(leaf_issuer, chain, s));
                }
            }
        }
    }
    out
}

/// The CA certificates bundled with the host (DER). None are shipped in this
/// source tree, so the bundle is empty.
pub open spec fn spec_bundled_cas() -> Seq<Seq<u8>> {
    Seq::empty()
}

/// The CA certificates bundled with the host (DER).
pub fn bundled_ca_ders() -> (r: Vec<Vec<u8>>)
    ensures
        ders(r@) == spec_bundled_cas(),
{
    let v: Vec<Vec<u8>> = Vec::new();
    assert(ders(v@) =~= spec_bundled_cas());
    v
}

/// Walks the certificate chain from `leaf_der` through the bundled CA
/// certificates (see `build_chain_in`).
pub fn build_chain(leaf_der: &[u8]) -> (out: Vec<Vec<u8>>)
    ensures
        spec_cert_names(leaf_der@) is None ==> out@.len() == 0,
        spec_cert_names(leaf_der@) matches Some((_, leaf_issuer)) ==> is_chain_walk(spec_bundled_cas(), leaf_issuer, ders(out@)),
{
    let bundle = bundled_ca_ders();
    build_chain_in(&bundle, leaf_der)
}

} // verus!
