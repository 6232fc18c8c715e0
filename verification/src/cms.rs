//! The detached CMS SignedData that goes into a PDF signature. Its profile
//! (the versions, algorithms, content types and attributes) is chosen here and
//! handed to the `cms`, `der`, `const-oid` and `x509-cert` crates as plain
//! values; each encoding step is one trusted wrapper whose result is named.

use vstd::prelude::*;
use crate::ca_bundle::ders;
use cms::cert::{CertificateChoices, IssuerAndSerialNumber};
use cms::content_info::{CmsVersion, ContentInfo};
use cms::revocation::RevocationInfoChoices;
use cms::signed_data::{CertificateSet, EncapsulatedContentInfo, SignedData, SignerIdentifier, SignerInfo, SignerInfos};
use const_oid::ObjectIdentifier;
use der::asn1::{OctetString, SetOfVec, UtcTime};
use der::{Any, Decode, Encode};
use spki::AlgorithmIdentifierOwned;
use std::time::Duration;
use x509_cert::attr::Attribute;
use x509_cert::time::Time;
use x509_cert::Certificate;

verus! {

/// The CMS version of the SignedData and the SignerInfo (issuer-and-serial signer id).
pub const CMS_VERSION: u8 = 1;

/// `id-data`: the (detached) content type.
pub const OID_DATA: &'static str = "1.2.840.113549.1.7.1";

/// `id-signedData`: the type of the ContentInfo.
pub const OID_SIGNED_DATA: &'static str = "1.2.840.113549.1.7.2";

/// `id-contentType`: the signed attribute naming the content type.
pub const OID_CONTENT_TYPE: &'static str = "1.2.840.113549.1.9.3";

/// `id-messageDigest`: the signed attribute holding the content digest.
pub const OID_MESSAGE_DIGEST: &'static str = "1.2.840.113549.1.9.4";

/// `id-signingTime`: the signed attribute holding the signing time.
pub const OID_SIGNING_TIME: &'static str = "1.2.840.113549.1.9.5";

/// `id-sha256`: the digest algorithm.
pub const OID_SHA256: &'static str = "2.16.840.1.101.3.4.2.1";

/// `rsaEncryption`: the signature algorithm (the token signs with RSA PKCS#1
/// v1.5 over a SHA-256 DigestInfo).
pub const OID_RSA_ENCRYPTION: &'static str = "1.2.840.113549.1.1.1";

/// The DER of ASN.1 `NULL`, the parameters of `rsaEncryption`.
pub open spec fn der_null() -> Seq<u8> {
    seq![5u8, 0u8]
}

/// The views of optional bytes.
pub open spec fn opt_view(o: Option<&[u8]>) -> Option<Seq<u8>> {
    match o {
        Some(b) => Some(b@),
        None => None,
    }
}

/// The views of pairs of byte strings.
pub open spec fn pair_views(v: Seq<(Vec<u8>, Vec<u8>)>) -> Seq<(Seq<u8>, Seq<u8>)> {
    v.map_values(|p: (Vec<u8>, Vec<u8>)| (p.0@, p.1@))
}

/// Whether `der` decodes as one X.509 certificate, as `x509-cert` decodes it.
pub uninterp spec fn spec_x509_parses(der: Seq<u8>) -> bool;

/// `x509_cert::Certificate::from_der` (the `der` crate's `Decode`): whether it
/// accepts `der`, named `spec_x509_parses`.
#[verifier::external_body]
fn x509_parses(der: &[u8]) -> (r: bool)
    ensures
        r == spec_x509_parses(der@),
{
    Certificate::from_der(der).is_ok()
}

/// The DER of the object identifier written in dotted form `oid`; `None` when
/// it is not one.
pub uninterp spec fn spec_oid_der(oid: Seq<char>) -> Option<Seq<u8>>;

/// `const_oid::ObjectIdentifier::new` then `Encode::to_der`: named
/// `spec_oid_der`; the error text is not stated.
#[verifier::external_body]
fn oid_der(oid: &str) -> (r: Result<Vec<u8>, String>)
    ensures
        r matches Ok(d) ==> spec_oid_der(oid@) == Some(d@),
        r is Err ==> spec_oid_der(oid@) is None,
{
    ObjectIdentifier::new(oid).map_err(|e| e.to_string())?.to_der().map_err(|e| e.to_string())
}

/// The DER of the OCTET STRING holding `bytes`.
pub uninterp spec fn spec_octet_string_der(bytes: Seq<u8>) -> Option<Seq<u8>>;

/// `der::asn1::OctetString::new` then `Encode::to_der`: named
/// `spec_octet_string_der`; the error text is not stated.
#[verifier::external_body]
fn octet_string_der(bytes: &[u8]) -> (r: Result<Vec<u8>, String>)
    ensures
        r matches Ok(d) ==> spec_octet_string_der(bytes@) == Some(d@),
        r is Err ==> spec_octet_string_der(bytes@) is None,
{
    OctetString::new(bytes).and_then(|o| o.to_der()).map_err(|e| e.to_string())
}

/// The DER of the time `unix_secs` (seconds since the Unix epoch) as an X.509
/// UTCTime; `None` when it has no UTCTime form (from 2050 on).
pub uninterp spec fn spec_utc_time_der(unix_secs: u64) -> Option<Seq<u8>>;

/// `der::asn1::UtcTime::from_unix_duration`, as `x509_cert::time::Time`, then
/// `Encode::to_der`: named `spec_utc_time_der`. The error text (prefixed
/// `UtcTime::from_unix_duration: `) is not stated.
#[verifier::external_body]
fn utc_time_der(unix_secs: u64) -> (r: Result<Vec<u8>, String>)
    ensures
        r matches Ok(d) ==> spec_utc_time_der(unix_secs) == Some(d@),
        r is Err ==> spec_utc_time_der(unix_secs) is None,
{
    let utc = UtcTime::from_unix_duration(Duration::from_secs(unix_secs))
        .map_err(|e| format!("UtcTime::from_unix_duration: {e}"))?;
    Time::UtcTime(utc).to_der().map_err(|e| e.to_string())
}

/// The DER of the SET OF attributes (in DER order) with, for each pair of
/// `attrs`, the type whose DER is the first and the one value whose DER is the
/// second. `None` when one of them does not decode or a type occurs twice.
pub uninterp spec fn spec_attribute_set_der(attrs: Seq<(Seq<u8>, Seq<u8>)>) -> Option<Seq<u8>>;

/// Each pair as an `x509_cert::attr::Attribute` (`ObjectIdentifier::from_der`,
/// `der::Any::from_der`), the list through `der::asn1::SetOfVec::try_from`
/// (which sorts it into DER order) and `Encode::to_der`: named
/// `spec_attribute_set_der`; the error text is not stated.
#[verifier::external_body]
fn attribute_set_der(attrs: &Vec<(Vec<u8>, Vec<u8>)>) -> (r: Result<Vec<u8>, String>)
    ensures
        r matches Ok(d) ==> spec_attribute_set_der(pair_views(attrs@)) == Some(d@),
        r is Err ==> spec_attribute_set_der(pair_views(attrs@)) is None,
{
    let build = || -> der::Result<Vec<u8>> {
        let list: der::Result<Vec<Attribute>> = attrs
            .iter()
            .map(|(t, v)| Ok(Attribute { oid: ObjectIdentifier::from_der(t)?, values: SetOfVec::try_from(vec![Any::from_der(v)?])? }))
            .collect();
        SetOfVec::try_from(list?)?.to_der()
    };
    build().map_err(|e| e.to_string())
}

/// The DER of the IssuerAndSerialNumber of the certificate `cert`; `None` when
/// it does not decode.
pub uninterp spec fn spec_issuer_and_serial_der(cert: Seq<u8>) -> Option<Seq<u8>>;

/// `x509_cert::Certificate::from_der`, its issuer and serial number as a
/// `cms::cert::IssuerAndSerialNumber`, and `Encode::to_der`: named
/// `spec_issuer_and_serial_der`; the error text is not stated.
#[verifier::external_body]
fn issuer_and_serial_der(cert_der: &[u8]) -> (r: Result<Vec<u8>, String>)
    ensures
        r matches Ok(d) ==> spec_issuer_and_serial_der(cert_der@) == Some(d@),
        r is Err ==> spec_issuer_and_serial_der(cert_der@) is None,
{
    let build = || -> der::Result<Vec<u8>> {
        let tbs = Certificate::from_der(cert_der)?.tbs_certificate;
        IssuerAndSerialNumber { issuer: tbs.issuer, serial_number: tbs.serial_number }.to_der()
    };
    build().map_err(|e| e.to_string())
}

/// The DER of the AlgorithmIdentifier with the algorithm whose DER is `oid`
/// and the parameters whose DER is `params`, if any.
pub uninterp spec fn spec_algorithm_identifier_der(oid: Seq<u8>, params: Option<Seq<u8>>) -> Option<Seq<u8>>;

/// `spki::AlgorithmIdentifierOwned` of the decoded identifier and parameters
/// (`ObjectIdentifier::from_der`, `der::Any::from_der`), then `Encode::to_der`:
/// named `spec_algorithm_identifier_der`; the error text is not stated.
#[verifier::external_body]
fn algorithm_identifier_der(oid_der: &[u8], params_der: Option<&[u8]>) -> (r: Result<Vec<u8>, String>)
    ensures
        r matches Ok(d) ==> spec_algorithm_identifier_der(oid_der@, opt_view(params_der)) == Some(d@),
        r is Err ==> spec_algorithm_identifier_der(oid_der@, opt_view(params_der)) is None,
{
    let build = || -> der::Result<Vec<u8>> {
        let parameters = params_der.map(Any::from_der).transpose()?;
        AlgorithmIdentifierOwned { oid: ObjectIdentifier::from_der(oid_der)?, parameters }.to_der()
    };
    build().map_err(|e| e.to_string())
}

/// The DER of the SignerInfo with the given version, signer identifier,
/// digest algorithm, signed attributes (the DER of their SET, if any),
/// signature algorithm, signature and unsigned attributes (if any).
pub uninterp spec fn spec_signer_info_der(
    version: u8,
    sid: Seq<u8>,
    digest_alg: Seq<u8>,
    signed_attrs: Option<Seq<u8>>,
    signature_alg: Seq<u8>,
    signature: Seq<u8>,
    unsigned_attrs: Option<Seq<u8>>,
) -> Option<Seq<u8>>;

/// `cms::signed_data::SignerInfo` of the decoded parts (`CmsVersion::try_from`,
/// `Decode::from_der`, `OctetString::new`), then `Encode::to_der`: named
/// `spec_signer_info_der`; the error text is not stated.
#[verifier::external_body]
fn signer_info_der(
    version: u8,
    sid_der: &[u8],
    digest_alg_der: &[u8],
    signed_attrs_der: Option<&[u8]>,
    signature_alg_der: &[u8],
    signature: &[u8],
    unsigned_attrs_der: Option<&[u8]>,
) -> (r: Result<Vec<u8>, String>)
    ensures
        r matches Ok(d) ==> spec_signer_info_der(version, sid_der@, digest_alg_der@, opt_view(signed_attrs_der), signature_alg_der@, signature@, opt_view(unsigned_attrs_der)) == Some(d@),
        r is Err ==> spec_signer_info_der(version, sid_der@, digest_alg_der@, opt_view(signed_attrs_der), signature_alg_der@, signature@, opt_view(unsigned_attrs_der)) is None,
{
    let build = || -> der::Result<Vec<u8>> {
        SignerInfo {
            version: CmsVersion::try_from(version)?,
            sid: SignerIdentifier::from_der(sid_der)?,
            digest_alg: AlgorithmIdentifierOwned::from_der(digest_alg_der)?,
            signed_attrs: signed_attrs_der.map(SetOfVec::from_der).transpose()?,
            signature_algorithm: AlgorithmIdentifierOwned::from_der(signature_alg_der)?,
            signature: OctetString::new(signature)?,
            unsigned_attrs: unsigned_attrs_der.map(SetOfVec::from_der).transpose()?,
        }.to_der()
    };
    build().map_err(|e| e.to_string())
}

/// The DER of the CertificateSet (in DER order) of the certificates `certs`;
/// `None` when one does not decode or one occurs twice.
pub uninterp spec fn spec_certificate_set_der(certs: Seq<Seq<u8>>) -> Option<Seq<u8>>;

/// Each certificate through `x509_cert::Certificate::from_der` as a
/// `cms::cert::CertificateChoices::Certificate`, the list through
/// `SetOfVec::try_from` into a `cms::signed_data::CertificateSet`, then
/// `Encode::to_der`: named `spec_certificate_set_der`; the error text is not
/// stated.
#[verifier::external_body]
fn certificate_set_der(certs: &Vec<Vec<u8>>) -> (r: Result<Vec<u8>, String>)
    ensures
        r matches Ok(d) ==> spec_certificate_set_der(ders(certs@)) == Some(d@),
        r is Err ==> spec_certificate_set_der(ders(certs@)) is None,
{
    let build = || -> der::Result<Vec<u8>> {
        let list: der::Result<Vec<CertificateChoices>> =
            certs.iter().map(|c| Certificate::from_der(c).map(CertificateChoices::Certificate)).collect();
        CertificateSet(SetOfVec::try_from(list?)?).to_der()
    };
    build().map_err(|e| e.to_string())
}

/// The DER of the EncapsulatedContentInfo with the content type whose DER is
/// `content_type` and the content whose DER is `content`, if any.
pub uninterp spec fn spec_encap_content_info_der(content_type: Seq<u8>, content: Option<Seq<u8>>) -> Option<Seq<u8>>;

/// `cms::signed_data::EncapsulatedContentInfo` of the decoded parts, then
/// `Encode::to_der`: named `spec_encap_content_info_der`; the error text is not
/// stated.
#[verifier::external_body]
fn encap_content_info_der(content_type_der: &[u8], content_der: Option<&[u8]>) -> (r: Result<Vec<u8>, String>)
    ensures
        r matches Ok(d) ==> spec_encap_content_info_der(content_type_der@, opt_view(content_der)) == Some(d@),
        r is Err ==> spec_encap_content_info_der(content_type_der@, opt_view(content_der)) is None,
{
    let build = || -> der::Result<Vec<u8>> {
        let econtent = content_der.map(Any::from_der).transpose()?;
        EncapsulatedContentInfo { econtent_type: ObjectIdentifier::from_der(content_type_der)?, econtent }.to_der()
    };
    build().map_err(|e| e.to_string())
}

/// The DER of the SignedData with the given version, digest algorithms (a SET
/// OF the given ones), encapsulated content info, certificate set and
/// revocation information (the DER of their SETs, if any) and signer infos (a
/// SET OF the given ones).
pub uninterp spec fn spec_signed_data_der(
    version: u8,
    digest_algs: Seq<Seq<u8>>,
    encap: Seq<u8>,
    certs: Option<Seq<u8>>,
    crls: Option<Seq<u8>>,
    signer_infos: Seq<Seq<u8>>,
) -> Option<Seq<u8>>;

/// `cms::signed_data::SignedData` of the decoded parts (`Decode::from_der`,
/// the lists through `SetOfVec::try_from`), then `Encode::to_der`: named
/// `spec_signed_data_der`; the error text is not stated.
#[verifier::external_body]
fn signed_data_der(
    version: u8,
    digest_algs: &Vec<Vec<u8>>,
    encap_der: &[u8],
    certs_der: Option<&[u8]>,
    crls_der: Option<&[u8]>,
    signer_infos: &Vec<Vec<u8>>,
) -> (r: Result<Vec<u8>, String>)
    ensures
        r matches Ok(d) ==> spec_signed_data_der(version, ders(digest_algs@), encap_der@, opt_view(certs_der), opt_view(crls_der), ders(signer_infos@)) == Some(d@),
        r is Err ==> spec_signed_data_der(version, ders(digest_algs@), encap_der@, opt_view(certs_der), opt_view(crls_der), ders(signer_infos@)) is None,
{
    let build = || -> der::Result<Vec<u8>> {
        let algs: der::Result<Vec<_>> = digest_algs.iter().map(|a| AlgorithmIdentifierOwned::from_der(a)).collect();
        let infos: der::Result<Vec<_>> = signer_infos.iter().map(|s| SignerInfo::from_der(s)).collect();
        SignedData {
            version: CmsVersion::try_from(version)?,
            digest_algorithms: SetOfVec::try_from(algs?)?,
            encap_content_info: EncapsulatedContentInfo::from_der(encap_der)?,
            certificates: certs_der.map(CertificateSet::from_der).transpose()?,
            crls: crls_der.map(RevocationInfoChoices::from_der).transpose()?,
            signer_infos: SignerInfos(SetOfVec::try_from(infos?)?),
        }.to_der()
    };
    build().map_err(|e| e.to_string())
}

/// The DER of the ContentInfo with the content type whose DER is
/// `content_type` and the content whose DER is `content`.
pub uninterp spec fn spec_content_info_der(content_type: Seq<u8>, content: Seq<u8>) -> Option<Seq<u8>>;

/// `cms::content_info::ContentInfo` of the decoded parts
/// (`ObjectIdentifier::from_der`, `der::Any::from_der`), then `Encode::to_der`:
/// named `spec_content_info_der`; the error text is not stated.
#[verifier::external_body]
fn content_info_der(content_type_der: &[u8], content_der: &[u8]) -> (r: Result<Vec<u8>, String>)
    ensures
        r matches Ok(d) ==> spec_content_info_der(content_type_der@, content_der@) == Some(d@),
        r is Err ==> spec_content_info_der(content_type_der@, content_der@) is None,
{
    let build = || -> der::Result<Vec<u8>> {
        ContentInfo { content_type: ObjectIdentifier::from_der(content_type_der)?, content: Any::from_der(content_der)? }.to_der()
    };
    build().map_err(|e| e.to_string())
}

/// The signed attributes for `digest` at `unix_secs`: content type `id-data`,
/// message digest `digest` as an OCTET STRING, and signing time `unix_secs` as
/// a UTCTime, as their SET in DER order.
pub open spec fn cms_signed_attrs(digest: Seq<u8>, unix_secs: u64) -> Option<Seq<u8>> {
    match (
        spec_oid_der(OID_CONTENT_TYPE@),
        spec_oid_der(OID_DATA@),
        spec_oid_der(OID_MESSAGE_DIGEST@),
        spec_octet_string_der(digest),
        spec_oid_der(OID_SIGNING_TIME@),
        spec_utc_time_der(unix_secs),
    ) {
        (Some(ct), Some(data), Some(md), Some(d), Some(st), Some(t)) => spec_attribute_set_der(
            seq![(ct, data), (md, d), (st, t)],
        ),
        _ => None,
    }
}

/// The digest algorithm (SHA-256, no parameters) and the signature algorithm
/// (`rsaEncryption`, NULL parameters).
pub open spec fn cms_algorithms() -> Option<(Seq<u8>, Seq<u8>)> {
    match (spec_oid_der(OID_SHA256@), spec_oid_der(OID_RSA_ENCRYPTION@)) {
        (Some(sha), Some(rsa)) => match (
            spec_algorithm_identifier_der(sha, None),
            spec_algorithm_identifier_der(rsa, Some(der_null())),
        ) {
            (Some(d), Some(s)) => Some((d, s)),
            _ => None,
        },
        _ => None,
    }
}

/// The SignerInfo: version 1, the signer's issuer and serial number, SHA-256,
/// the signed attributes `attrs`, `rsaEncryption` with NULL parameters, the
/// token's signature `sig`, and no unsigned attributes.
pub open spec fn cms_signer_info(signer: Seq<u8>, attrs: Seq<u8>, sig: Seq<u8>) -> Option<Seq<u8>> {
    match (cms_algorithms(), spec_issuer_and_serial_der(signer)) {
        (Some((digest_alg, sig_alg)), Some(sid)) => spec_signer_info_der(
            CMS_VERSION,
            sid,
            digest_alg,
            Some(attrs),
            sig_alg,
            sig,
            None,
        ),
        _ => None,
    }
}

/// The SignedData: version 1, digest algorithms {SHA-256}, detached `id-data`
/// content, the certificate set of the signer's certificate and `extra`, no
/// CRLs, and the one SignerInfo.
pub open spec fn cms_signed_data(signer: Seq<u8>, extra: Seq<Seq<u8>>, attrs: Seq<u8>, sig: Seq<u8>) -> Option<Seq<u8>> {
    match (
        cms_algorithms(),
        cms_signer_info(signer, attrs, sig),
        spec_certificate_set_der(seq![signer] + extra),
        spec_oid_der(OID_DATA@),
    ) {
        (Some((digest_alg, _)), Some(si), Some(certs), Some(data)) => match spec_encap_content_info_der(data, None) {
            Some(encap) => spec_signed_data_der(CMS_VERSION, seq![digest_alg], encap, Some(certs), None, seq![si]),
            None => None,
        },
        _ => None,
    }
}

/// The CMS ContentInfo for the signer certificate `signer`, the further
/// certificates `extra`, the signed attributes `attrs` and the token's
/// signature `sig`: an `id-signedData` around `cms_signed_data`.
pub open spec fn spec_cms_der(signer: Seq<u8>, extra: Seq<Seq<u8>>, attrs: Seq<u8>, sig: Seq<u8>) -> Option<Seq<u8>> {
    match (cms_signed_data(signer, extra, attrs, sig), spec_oid_der(OID_SIGNED_DATA@)) {
        (Some(sd), Some(t)) => spec_content_info_der(t, sd),
        _ => None,
    }
}

/// `a` is the DER of a SET of exactly three attributes: content type
/// (1.2.840.113549.1.9.3) with value `id-data` (1.2.840.113549.1.7.1), message
/// digest (1.2.840.113549.1.9.4) with the OCTET STRING of `digest`, and signing
/// time (1.2.840.113549.1.9.5) with the UTCTime of `unix_secs`.
pub open spec fn holds_signed_attributes(a: Seq<u8>, digest: Seq<u8>, unix_secs: u64) -> bool {
    exists|attrs: Seq<(Seq<u8>, Seq<u8>)>|
        #[trigger] spec_attribute_set_der(attrs) == Some(a) && attrs.len() == 3 && {
            &&& spec_oid_der("1.2.840.113549.1.9.3"@) matches Some(ct) && spec_oid_der("1.2.840.113549.1.7.1"@)
                matches Some(data) && attrs.contains((ct, data))
            &&& spec_oid_der("1.2.840.113549.1.9.4"@) matches Some(md) && spec_octet_string_der(digest) matches Some(
                d,
            ) && attrs.contains((md, d))
            &&& spec_oid_der("1.2.840.113549.1.9.5"@) matches Some(st) && spec_utc_time_der(unix_secs) matches Some(t)
                && attrs.contains((st, t))
        }
}

/// The signed attributes the token is asked to sign hold the content type
/// `id-data`, the message digest of the content and the signing time, and
/// nothing else.
pub proof fn lemma_signed_attrs_content(digest: Seq<u8>, unix_secs: u64)
    ensures
        cms_signed_attrs(digest, unix_secs) matches Some(a) ==> holds_signed_attributes(a, digest, unix_secs),
{
    if let Some(a) = cms_signed_attrs(digest, unix_secs) {
        let ct = spec_oid_der(OID_CONTENT_TYPE@)->Some_0;
        let data = spec_oid_der(OID_DATA@)->Some_0;
        let md = spec_oid_der(OID_MESSAGE_DIGEST@)->Some_0;
        let d = spec_octet_string_der(digest)->Some_0;
        let st = spec_oid_der(OID_SIGNING_TIME@)->Some_0;
        let t = spec_utc_time_der(unix_secs)->Some_0;
        let attrs = seq![(ct, data), (md, d), (st, t)];
        assert(attrs[0] == (ct, data));
        assert(attrs[1] == (md, d));
        assert(attrs[2] == (st, t));
        assert(spec_attribute_set_der(attrs) == Some(a));
    }
}

/// Builds the signed attributes for `digest` at `unix_secs` (see `cms_signed_attrs`).
pub fn build_signed_attrs(digest: &[u8; 32], unix_secs: u64) -> (r: Result<Vec<u8>, String>)
    ensures
        r matches Ok(a) ==> cms_signed_attrs(digest@, unix_secs) == Some(a@),
        r matches Ok(a) ==> holds_signed_attributes(a@, digest@, unix_secs),
        r is Err ==> cms_signed_attrs(digest@, unix_secs) is None,
{
    proof {
        lemma_signed_attrs_content(digest@, unix_secs);
    }
    let ct = oid_der(OID_CONTENT_TYPE)?;
    let data = oid_der(OID_DATA)?;
    let md = oid_der(OID_MESSAGE_DIGEST)?;
    let d = octet_string_der(digest.as_slice())?;
    let st = oid_der(OID_SIGNING_TIME)?;
    let t = utc_time_der(unix_secs)?;
    let mut attrs: Vec<(Vec<u8>, Vec<u8>)> = Vec::new();
    attrs.push((ct, data));
    attrs.push((md, d));
    attrs.push((st, t));
    assert(pair_views(attrs@) =~= seq![(ct@, data@), (md@, d@), (st@, t@)]);
    attribute_set_der(&attrs)
}

/// Why the certificates cannot go into a CMS: the signer's first, then any
/// further one that does not decode.
pub open spec fn cms_certs_error(signer: Seq<u8>, extra: Seq<Seq<u8>>) -> Option<Seq<char>> {
    if !spec_x509_parses(signer) {
        Some("parse signer certificate DER"@)
    } else if exists|i: int| 0 <= i < extra.len() && !spec_x509_parses(#[trigger] extra[i]) {
        Some("parse intermediate certificate"@)
    } else {
        None
    }
}

/// What building the CMS gave, once its certificates decode: no signed
/// attributes, no CMS; else the signer was asked to sign exactly their DER,
/// and its refusal is passed on or its signature assembled into the CMS.
pub open spec fn cms_signing_outcome<F: FnOnce(&[u8]) -> Result<Vec<u8>, String>>(
    signer_fn: F,
    digest: Seq<u8>,
    unix_secs: u64,
    signer: Seq<u8>,
    extra: Seq<Seq<u8>>,
    r: Result<Vec<u8>, String>,
) -> bool {
    match cms_signed_attrs(digest, unix_secs) {
        None => r is Err,
        Some(attrs) => exists|d: &[u8], o: Result<Vec<u8>, String>|
            d@ == attrs && #[trigger] call_ensures(signer_fn, (d,), o) && match o {
                Err(m) => r == Err::<Vec<u8>, String>(m),
                Ok(sig) => match spec_cms_der(signer, extra, attrs, sig@) {
                    Some(c) => r matches Ok(x) && x@ == c,
                    None => r is Err,
                },
            },
    }
}

/// Checks that the signer's and the further certificates all decode.
pub fn check_cms_certs(signer_cert_der: &[u8], extra_certs: &Vec<Vec<u8>>) -> (r: Result<(), String>)
    ensures
        match cms_certs_error(signer_cert_der@, ders(extra_certs@)) {
            Some(m) => r matches Err(e) && e@ == m,
            None => r is Ok,
        },
{
    if !x509_parses(signer_cert_der) {
        return Err(String::from_str("parse signer certificate DER"));
    }
    let mut i: usize = 0;
    while i < extra_certs.len()
        invariant
            i <= extra_certs@.len(),
            spec_x509_parses(signer_cert_der@),
            forall|j: int| 0 <= j < i ==> spec_x509_parses(#[trigger] ders(extra_certs@)[j]),
        decreases extra_certs@.len() - i,
    {
        if !x509_parses(extra_certs[i].as_slice()) {
            assert(!spec_x509_parses(ders(extra_certs@)[i as int]));
            return Err(String::from_str("parse intermediate certificate"));
        }
        i = i + 1;
    }
    Ok(())
}

/// Assembles the CMS ContentInfo around the token's `signature` over
/// `signed_attrs_der`, embedding the signer's certificate and `extra_certs`
/// (see `spec_cms_der`).
pub fn assemble_signed_data(
    signer_cert_der: &[u8],
    extra_certs: &Vec<Vec<u8>>,
    signed_attrs_der: &[u8],
    signature: &[u8],
) -> (r: Result<Vec<u8>, String>)
    ensures
        r matches Ok(c) ==> spec_cms_der(signer_cert_der@, ders(extra_certs@), signed_attrs_der@, signature@) == Some(c@),
        r is Err ==> spec_cms_der(signer_cert_der@, ders(extra_certs@), signed_attrs_der@, signature@) is None,
{
    let sha = oid_der(OID_SHA256)?;
    let rsa = oid_der(OID_RSA_ENCRYPTION)?;
    let null: Vec<u8> = vec![5u8, 0u8];
    assert(null@ =~= der_null());
    let digest_alg = algorithm_identifier_der(sha.as_slice(), None)?;
    let sig_alg = algorithm_identifier_der(rsa.as_slice(), Some(null.as_slice()))?;
    let sid = issuer_and_serial_der(signer_cert_der)?;
    let info = signer_info_der(
        CMS_VERSION,
        sid.as_slice(),
        digest_alg.as_slice(),
        Some(signed_attrs_der),
        sig_alg.as_slice(),
        signature,
        None,
    )?;
    let mut certs: Vec<Vec<u8>> = Vec::new();
    let mut signer: Vec<u8> = Vec::new();
    signer.extend_from_slice(signer_cert_der);
    assert(signer@ =~= signer_cert_der@);
    certs.push(signer);
    assert(ders(certs@) =~= seq![signer_cert_der@] + ders(extra_certs@).take(0));
    let mut i: usize = 0;
    while i < extra_certs.len()
        invariant
            i <= extra_certs@.len(),
            ders(certs@) == seq![signer_cert_der@] + ders(extra_certs@).take(i as int),
        decreases extra_certs@.len() - i,
    {
        let ghost before = ders(certs@);
        certs.push(extra_certs[i].clone());
        assert(ders(certs@) =~= before.push(extra_certs@[i as int]@));
        assert(ders(extra_certs@).take(i + 1) =~= ders(extra_certs@).take(i as int).push(extra_certs@[i as int]@));
        assert(ders(certs@) =~= seq![signer_cert_der@] + ders(extra_certs@).take(i + 1));
        i = i + 1;
    }
    assert(ders(extra_certs@).take(i as int) =~= ders(extra_certs@));
    let cert_set = certificate_set_der(&certs)?;
    let data = oid_der(OID_DATA)?;
    let encap = encap_content_info_der(data.as_slice(), None)?;
    let mut algs: Vec<Vec<u8>> = Vec::new();
    algs.push(digest_alg);
    let mut infos: Vec<Vec<u8>> = Vec::new();
    infos.push(info);
    assert(ders(algs@) =~= seq![digest_alg@]);
    assert(ders(infos@) =~= seq![info@]);
    let signed_data = signed_data_der(CMS_VERSION, &algs, encap.as_slice(), Some(cert_set.as_slice()), None, &infos)?;
    let t = oid_der(OID_SIGNED_DATA)?;
    content_info_der(t.as_slice(), signed_data.as_slice())
}

} // verus!
