//! Signing a decoded PDF. The host's PIN dialog, token reads, clock and token
//! signature happen outside the library; this module takes each of their
//! results and decides the next step, from the checks on the sign job through
//! the CMS assembly to the spliced, signed file.

use vstd::prelude::*;
use vstd::string::StringSliceAdditionalSpecFns;
use vstd::utf8::encode_utf8;
use crate::ca_bundle::{
    build_chain, contains_name, ders, is_chain_walk, is_self_signed, is_self_signed_der, spec_bundled_cas, spec_cert_names,
};
use crate::cms::{assemble_signed_data, check_cms_certs, cms_certs_error, build_signed_attrs, cms_signed_attrs, spec_cms_der};
use crate::codec::spec_sha256;
use crate::commands::SignError;
use crate::error_code;
use crate::pdf::{
    compute_byte_range, covered_bytes, digest_byte_range, locate_placeholder, pdf_error_text,
    placeholder_consistent, render_byte_range, spec_compute_byte_range, spec_locate_placeholder,
    spec_render_byte_range, spec_splice, spec_with_byte_range, splice_byte_range, splice_signature,
    PdfError, SignaturePlaceholder,
};
use crate::pin::{pin_error_text, PinError};
use crate::text::{dec, push_decimal, push_str};

verus! {

/// The certificates to embed besides the signer's, from the candidates in order:
/// each one not seen before (the signer's counts as seen) that is not a
/// self-signed root.
pub open spec fn extra_from(cands: Seq<Seq<u8>>, seen: Seq<Seq<u8>>) -> Seq<Seq<u8>>
    decreases cands.len(),
{
    if cands.len() == 0 {
        Seq::empty()
    } else {
        let d = cands[0];
        if seen.contains(d) {
            extra_from(cands.drop_first(), seen)
        } else {
            (if is_self_signed_der(d) {
                Seq::empty()
            } else {
                seq![d]
            }) + extra_from(cands.drop_first(), seen.push(d))
        }
    }
}

/// The embedded certificates are clean: none was already seen (so the signer's
/// own certificate is never embedded again), none is a self-signed root, no two
/// are the same, and each is one of the candidates.
pub proof fn lemma_extra_certs_clean(cands: Seq<Seq<u8>>, seen: Seq<Seq<u8>>)
    ensures
        forall|i: int| 0 <= i < extra_from(cands, seen).len() ==> {
            &&& !seen.contains(#[trigger] extra_from(cands, seen)[i])
            &&& !is_self_signed_der(extra_from(cands, seen)[i])
            &&& cands.contains(extra_from(cands, seen)[i])
        },
        forall|i: int, j: int|
            #![trigger extra_from(cands, seen)[i], extra_from(cands, seen)[j]]
            0 <= i < j < extra_from(cands, seen).len() ==> extra_from(cands, seen)[i] != extra_from(cands, seen)[j],
    decreases cands.len(),
{
    if cands.len() > 0 {
        let d = cands[0];
        let tail = cands.drop_first();
        if seen.contains(d) {
            lemma_extra_certs_clean(tail, seen);
            let r = extra_from(tail, seen);
            assert forall|i: int| 0 <= i < r.len() implies cands.contains(#[trigger] r[i]) by {
                let w = choose|w: int| 0 <= w < tail.len() && tail[w] == r[i];
                assert(cands[w + 1] == r[i]);
            }
        } else {
            let seen2 = seen.push(d);
            lemma_extra_certs_clean(tail, seen2);
            let rest = extra_from(tail, seen2);
            let head: Seq<Seq<u8>> = if is_self_signed_der(d) { Seq::empty() } else { seq![d] };
            let r = head + rest;
            assert(extra_from(cands, seen) == r);
            assert forall|i: int| 0 <= i < rest.len() implies !seen.contains(#[trigger] rest[i]) && rest[i] != d by {
                if seen.contains(rest[i]) {
                    let w = choose|w: int| 0 <= w < seen.len() && seen[w] == rest[i];
                    assert(seen2[w] == rest[i]);
                }
                assert(seen2[seen.len() as int] == d);
            }
            assert forall|i: int| 0 <= i < rest.len() implies cands.contains(#[trigger] rest[i]) by {
                let w = choose|w: int| 0 <= w < tail.len() && tail[w] == rest[i];
                assert(cands[w + 1] == rest[i]);
            }
            assert(cands[0] == d);
            assert forall|i: int| 0 <= i < r.len() implies {
                &&& !seen.contains(#[trigger] r[i])
                &&& !is_self_signed_der(r[i])
                &&& cands.contains(r[i])
            } by {
                if i < head.len() {
                    assert(r[i] == d);
                } else {
                    assert(r[i] == rest[i - head.len()]);
                }
            }
            assert forall|i: int, j: int| 0 <= i < j < r.len() implies r[i] != r[j] by {
                if j < head.len() {
                } else if i < head.len() {
                    assert(r[i] == d);
                    assert(r[j] == rest[j - head.len()]);
                } else {
                    assert(r[i] == rest[i - head.len()]);
                    assert(r[j] == rest[j - head.len()]);
                }
            }
        }
    }
}

/// The certificates read from the token, or none when they could not be read.
pub open spec fn token_candidates(token_certs: Result<Vec<Vec<u8>>, String>) -> Seq<Seq<u8>> {
    match token_certs {
        Ok(v) => ders(v@),
        Err(_) => Seq::empty(),
    }
}

/// The intermediate certificates to embed in the CMS: those from the token, then
/// those from the bundled chain, without duplicates or the signer's own, and
/// without self-signed roots (trust stores anchor on the root locally, and it
/// would only take space in the placeholder).
pub fn select_extra_certs(
    signer_cert: &[u8],
    token_certs: Result<Vec<Vec<u8>>, String>,
    bundle_chain: Vec<Vec<u8>>,
) -> (r: Vec<Vec<u8>>)
    ensures
        ders(r@) == extra_from(token_candidates(token_certs) + ders(bundle_chain@), seq![signer_cert@]),
{
    let mut cands: Vec<Vec<u8>> = match token_certs {
        Ok(v) => v,
        Err(_) => Vec::new(),
    };
    let ghost first = ders(cands@);
    assert(first == token_candidates(token_certs));
    let mut rest = bundle_chain;
    let ghost second = ders(rest@);
    cands.append(&mut rest);
    let ghost all = ders(cands@);
    assert(all =~= first + second);
    let mut seen: Vec<Vec<u8>> = Vec::new();
    let mut signer: Vec<u8> = Vec::new();
    signer.extend_from_slice(signer_cert);
    assert(signer@ =~= signer_cert@);
    seen.push(signer);
    assert(ders(seen@) =~= seq![signer_cert@]);
    let mut out: Vec<Vec<u8>> = Vec::new();
    let mut i: usize = 0;
    assert(all.skip(0) =~= all);
    assert(ders(out@) =~= Seq::<Seq<u8>>::empty());
    while i < cands.len()
        invariant
            all == ders(cands@),
            i <= cands@.len(),
            ders(out@) + extra_from(all.skip(i as int), ders(seen@)) == extra_from(all, seq![signer_cert@]),
        decreases cands@.len() - i,
    {
        let ghost tail = all.skip(i as int);
        assert(tail[0] == cands@[i as int]@);
        assert(tail.drop_first() =~= all.skip(i + 1));
        if contains_name(&seen, cands[i].as_slice()) {
        } else {
            let ghost old_out = ders(out@);
            let ghost old_seen = ders(seen@);
            seen.push(cands[i].clone());
            assert(ders(seen@) =~= old_seen.push(cands@[i as int]@));
            if !is_self_signed(cands[i].as_slice()) {
                out.push(cands[i].clone());
                assert(ders(out@) =~= old_out + seq![cands@[i as int]@]);
                assert(ders(out@) + extra_from(all.skip(i + 1), ders(seen@)) =~= old_out + (seq![cands@[i as int]@]
                    + extra_from(all.skip(i + 1), ders(seen@))));
            } else {
                assert(Seq::<Seq<u8>>::empty() + extra_from(all.skip(i + 1), ders(seen@)) =~= extra_from(all.skip(i + 1), ders(seen@)));
            }
        }
        i = i + 1;
    }
    assert(all.skip(i as int) =~= Seq::<Seq<u8>>::empty());
    assert(ders(out@) + Seq::<Seq<u8>>::empty() =~= ders(out@));
    out
}

/// The label shown in the PIN dialog when signing.
pub const SIGN_PIN_LABEL: &'static str = "AutoDCR token";

/// How many times the PIN dialog may be shown when signing.
pub const SIGN_PIN_ATTEMPTS: u32 = 3;

/// What the host does next for the PDF being signed.
#[derive(Debug)]
pub enum SignAction {
    /// Ask for the PIN in a dialog labelled `token_label`, at most
    /// `max_attempts` times, and check it with a login on the slot.
    VerifyPin { slot_id: u64, token_label: String, max_attempts: u32 },
    /// Read the signer's certificate (DER) from the token.
    ReadSignerCert { slot_id: u64, cert_id: String },
    /// Read every certificate on the token, for the chain.
    ReadTokenCerts { slot_id: u64 },
    /// Read the clock: seconds since the Unix epoch, for the signing time.
    ReadSigningTime,
    /// Have the token sign `data` (SHA-256 with RSA PKCS#1 v1.5) with the key
    /// of the certificate `cert_id`, whose DER is `signer_cert`, after a login
    /// with `pin`.
    SignWithToken { slot_id: u64, cert_id: String, signer_cert: Vec<u8>, pin: String, data: Vec<u8> },
    /// Signing is over: the signed PDF, or why there is none.
    Done(Result<Vec<u8>, SignError>),
}

/// `chain` is the walk from `leaf` through the bundled CA certificates, as
/// `build_chain` gives it.
pub open spec fn is_bundle_chain(leaf: Seq<u8>, chain: Seq<Seq<u8>>) -> bool {
    match spec_cert_names(leaf) {
        None => chain.len() == 0,
        Some((_, leaf_issuer)) => is_chain_walk(spec_bundled_cas(), leaf_issuer, chain),
    }
}

/// The ByteRange of the signature: everything but the `/Contents` hex string.
pub open spec fn sign_range(pdf: Seq<u8>, ph: SignaturePlaceholder) -> Seq<usize> {
    spec_compute_byte_range(pdf.len() as usize, ph)
}

/// Width of the ByteRange placeholder array, brackets included.
pub open spec fn range_width(ph: SignaturePlaceholder) -> int {
    ph.byte_range_end - ph.byte_range_start + 1
}

/// The ByteRange as written into the file.
pub open spec fn rendered_range(pdf: Seq<u8>, ph: SignaturePlaceholder) -> Seq<char> {
    spec_render_byte_range(sign_range(pdf, ph), range_width(ph) as usize)
}

/// The file with its final ByteRange in place: what the digest is taken over.
pub open spec fn presigned(pdf: Seq<u8>, ph: SignaturePlaceholder) -> Seq<u8> {
    spec_with_byte_range(pdf, ph, encode_utf8(rendered_range(pdf, ph)))
}

/// The signed file: the CMS spliced into the `/Contents` placeholder.
pub open spec fn signed_file(pdf: Seq<u8>, ph: SignaturePlaceholder, cms_der: Seq<u8>) -> Seq<u8> {
    spec_splice(presigned(pdf, ph), ph, encode_utf8(rendered_range(pdf, ph)), cms_der)
}

/// The error a `SignError::Other` carries, with its code and message.
pub open spec fn fails_with(r: Result<Vec<u8>, SignError>, code: Seq<char>, message: Seq<char>) -> bool {
    r matches Err(SignError::Other(c, m)) && c@ == code && m@ == message
}

/// The sign failure for a PIN that could not be obtained.
pub open spec fn pin_failure(e: PinError, r: Result<Vec<u8>, SignError>) -> bool {
    match e {
        PinError::Cancelled => r matches Err(SignError::Cancelled),
        PinError::Incorrect => fails_with(r, error_code::PIN_INCORRECT@, "Incorrect DSC PIN."@),
        PinError::Locked => fails_with(r, error_code::PIN_LOCKED@, "DSC token PIN is locked."@),
        _ => fails_with(r, error_code::PIN_CANCELLED@, pin_error_text(e)),
    }
}

/// The message for a rendered ByteRange that does not fit its placeholder.
pub open spec fn width_mismatch_text(rendered: nat, target: nat) -> Seq<char> {
    "rendered ByteRange width "@ + dec(rendered) + " does not match placeholder width "@ + dec(target)
        + "; placeholder is too narrow for the actual offsets"@
}

/// The step after the CMS `cms_der` was assembled for `pdf`: it is spliced
/// into the placeholder when it fits, giving a file as long as the unsigned one
/// whose covered bytes have the digest that was signed; else the PDF is invalid.
/// (A CMS whose hex form would not fit in memory is refused first.)
pub open spec fn cms_outcome(a: SignAction, pdf: Seq<u8>, ph: SignaturePlaceholder, digest: Seq<u8>, cms_der: Seq<u8>) -> bool {
    if 2 * cms_der.len() > usize::MAX {
        a matches SignAction::Done(res) && fails_with(res, error_code::CMS_BUILD_FAILED@, "CMS signature too large"@)
    } else if 2 * cms_der.len() > ph.contents_hex_len {
        a matches SignAction::Done(res) && fails_with(
            res,
            error_code::PDF_INVALID@,
            pdf_error_text(
                PdfError::SignatureTooLarge {
                    signature_hex_len: (2 * cms_der.len()) as usize,
                    placeholder_hex_len: ph.contents_hex_len,
                },
            ),
        )
    } else {
        &&& a matches SignAction::Done(Ok(out))
        &&& out@ == signed_file(pdf, ph, cms_der)
        &&& out@.len() == pdf.len()
        &&& spec_sha256(covered_bytes(out@, sign_range(pdf, ph))) == digest
    }
}

enum SignStage {
    AwaitPin,
    AwaitSignerCert { pin: String, placeholder: SignaturePlaceholder },
    AwaitTokenCerts { pin: String, placeholder: SignaturePlaceholder, signer_cert: Vec<u8> },
    AwaitSigningTime {
        pin: String,
        placeholder: SignaturePlaceholder,
        rendered: String,
        pre_signed: Vec<u8>,
        digest: [u8; 32],
        signer_cert: Vec<u8>,
        extra_certs: Vec<Vec<u8>>,
    },
    AwaitSignature {
        placeholder: SignaturePlaceholder,
        rendered: String,
        pre_signed: Vec<u8>,
        digest: [u8; 32],
        signer_cert: Vec<u8>,
        extra_certs: Vec<Vec<u8>>,
        signed_attrs: Vec<u8>,
    },
    Finished,
}

/// The file is ready to be signed: the ByteRange `rendered` fits its
/// placeholder and is in `pre_signed`, whose covered bytes have `digest`.
pub open spec fn prepared(pdf: Seq<u8>, ph: SignaturePlaceholder, rendered: Seq<char>, pre_signed: Seq<u8>, digest: Seq<u8>) -> bool {
    &&& spec_locate_placeholder(pdf) == Ok::<SignaturePlaceholder, PdfError>(ph)
    &&& rendered == rendered_range(pdf, ph)
    &&& rendered.len() == range_width(ph)
    &&& encode_utf8(rendered).len() == range_width(ph)
    &&& pre_signed == presigned(pdf, ph)
    &&& digest == spec_sha256(covered_bytes(pre_signed, sign_range(pdf, ph)))
}

/// Signing one PDF for one slot and certificate.
pub struct SignFlow {
    pdf: Vec<u8>,
    slot_id: u64,
    cert_id: String,
    stage: SignStage,
}

impl SignFlow {
    /// The PDF being signed.
    pub closed spec fn pdf(self) -> Seq<u8> {
        self.pdf@
    }

    /// The slot of the signing key.
    pub closed spec fn slot_id(self) -> u64 {
        self.slot_id
    }

    /// The hex id of the signing certificate.
    pub closed spec fn cert_id(self) -> Seq<char> {
        self.cert_id@
    }

    /// Waiting for the PIN.
    pub closed spec fn awaiting_pin(self) -> bool {
        self.stage is AwaitPin
    }

    /// Waiting for the signer's certificate.
    pub closed spec fn awaiting_signer_cert(self) -> bool {
        self.stage is AwaitSignerCert
    }

    /// Waiting for the token's certificates.
    pub closed spec fn awaiting_token_certs(self) -> bool {
        self.stage is AwaitTokenCerts
    }

    /// Waiting for the signing time.
    pub closed spec fn awaiting_signing_time(self) -> bool {
        self.stage is AwaitSigningTime
    }

    /// Waiting for the token's signature over the signed attributes.
    pub closed spec fn awaiting_signature(self) -> bool {
        self.stage is AwaitSignature
    }

    /// The verified PIN, once known.
    pub closed spec fn pin(self) -> Seq<char> {
        match self.stage {
            SignStage::AwaitSignerCert { pin, .. } => pin@,
            SignStage::AwaitTokenCerts { pin, .. } => pin@,
            SignStage::AwaitSigningTime { pin, .. } => pin@,
            _ => Seq::empty(),
        }
    }

    /// The signer's certificate, once read.
    pub closed spec fn signer_cert(self) -> Seq<u8> {
        match self.stage {
            SignStage::AwaitTokenCerts { signer_cert, .. } => signer_cert@,
            SignStage::AwaitSigningTime { signer_cert, .. } => signer_cert@,
            SignStage::AwaitSignature { signer_cert, .. } => signer_cert@,
            _ => Seq::empty(),
        }
    }

    /// The further certificates to embed, once selected.
    pub closed spec fn extra_certs(self) -> Seq<Seq<u8>> {
        match self.stage {
            SignStage::AwaitSigningTime { extra_certs, .. } => ders(extra_certs@),
            SignStage::AwaitSignature { extra_certs, .. } => ders(extra_certs@),
            _ => Seq::empty(),
        }
    }

    /// The DER of the signed attributes handed to the token, once built.
    pub closed spec fn signed_attrs(self) -> Seq<u8> {
        match self.stage {
            SignStage::AwaitSignature { signed_attrs, .. } => signed_attrs@,
            _ => Seq::empty(),
        }
    }

    /// The digest handed out for signing, once computed.
    pub closed spec fn digest(self) -> Seq<u8> {
        match self.stage {
            SignStage::AwaitSigningTime { digest, .. } => digest@,
            SignStage::AwaitSignature { digest, .. } => digest@,
            _ => Seq::empty(),
        }
    }

    /// The placeholder of the PDF, once located.
    pub closed spec fn placeholder(self) -> SignaturePlaceholder {
        match self.stage {
            SignStage::AwaitSignerCert { placeholder, .. } => placeholder,
            SignStage::AwaitTokenCerts { placeholder, .. } => placeholder,
            SignStage::AwaitSigningTime { placeholder, .. } => placeholder,
            SignStage::AwaitSignature { placeholder, .. } => placeholder,
            _ => vstd::pervasive::arbitrary(),
        }
    }

    /// What each stage holds is what the earlier steps computed from the PDF.
    pub closed spec fn wf(self) -> bool {
        &&& self.pdf@.len() <= usize::MAX
        &&& match self.stage {
            SignStage::AwaitPin => true,
            SignStage::AwaitSignerCert { placeholder, .. } => spec_locate_placeholder(self.pdf@) == Ok::<
                SignaturePlaceholder,
                PdfError,
            >(placeholder),
            SignStage::AwaitTokenCerts { placeholder, .. } => spec_locate_placeholder(self.pdf@) == Ok::<
                SignaturePlaceholder,
                PdfError,
            >(placeholder),
            SignStage::AwaitSigningTime { placeholder, rendered, pre_signed, digest, .. } => {
                prepared(self.pdf@, placeholder, rendered@, pre_signed@, digest@)
            },
            SignStage::AwaitSignature { placeholder, rendered, pre_signed, digest, signer_cert, extra_certs, .. } => {
                &&& prepared(self.pdf@, placeholder, rendered@, pre_signed@, digest@)
                &&& cms_certs_error(signer_cert@, ders(extra_certs@)) is None
            },
            SignStage::Finished => true,
        }
    }

    /// Starts signing `pdf`: the job must name a slot and a certificate, and the
    /// PIN must come from the dialog; then the PIN is asked for.
    pub fn start(pdf: Vec<u8>, slot_id: Option<u64>, cert_id: Option<String>, prompt_pin: bool) -> (r: (SignFlow, SignAction))
        ensures
            r.0.wf(),
            r.0.pdf() == pdf@,
            slot_id is None ==> (r.1 matches SignAction::Done(res) && fails_with(
                res,
                error_code::INVALID_PAYLOAD@,
                "SIGN_PDF_START.slotId is required"@,
            )),
            slot_id is Some && cert_id is None ==> (r.1 matches SignAction::Done(res) && fails_with(
                res,
                error_code::INVALID_PAYLOAD@,
                "SIGN_PDF_START.certId is required"@,
            )),
            slot_id is Some && cert_id is Some && !prompt_pin ==> (r.1 matches SignAction::Done(res) && fails_with(
                res,
                error_code::PIN_CANCELLED@,
                "prompt_pin disabled in config and no other PIN source is implemented"@,
            )),
            slot_id is Some && cert_id is Some && prompt_pin ==> {
                &&& r.0.awaiting_pin()
                &&& r.0.slot_id() == slot_id.unwrap()
                &&& r.0.cert_id() == cert_id.unwrap()@
                &&& r.1 matches SignAction::VerifyPin { slot_id: s, token_label, max_attempts }
                &&& s == slot_id.unwrap()
                &&& token_label@ == SIGN_PIN_LABEL@
                &&& max_attempts == SIGN_PIN_ATTEMPTS
            },
    {
        let _n = pdf.len();
        let s = match slot_id {
            Some(s) => s,
            None => {
                return (
                    SignFlow { pdf, slot_id: 0, cert_id: String::new(), stage: SignStage::Finished },
                    SignAction::Done(
                        Err(
                            SignError::Other(
                                error_code::INVALID_PAYLOAD,
                                String::from_str("SIGN_PDF_START.slotId is required"),
                            ),
                        ),
                    ),
                );
            },
        };
        let c = match cert_id {
            Some(c) => c,
            None => {
                return (
                    SignFlow { pdf, slot_id: s, cert_id: String::new(), stage: SignStage::Finished },
                    SignAction::Done(
                        Err(
                            SignError::Other(
                                error_code::INVALID_PAYLOAD,
                                String::from_str("SIGN_PDF_START.certId is required"),
                            ),
                        ),
                    ),
                );
            },
        };
        if !prompt_pin {
            return (
                SignFlow { pdf, slot_id: s, cert_id: c, stage: SignStage::Finished },
                SignAction::Done(
                    Err(
                        SignError::Other(
                            error_code::PIN_CANCELLED,
                            String::from_str("prompt_pin disabled in config and no other PIN source is implemented"),
                        ),
                    ),
                ),
            );
        }
        (
            SignFlow { pdf, slot_id: s, cert_id: c, stage: SignStage::AwaitPin },
            SignAction::VerifyPin {
                slot_id: s,
                token_label: String::from_str(SIGN_PIN_LABEL),
                max_attempts: SIGN_PIN_ATTEMPTS,
            },
        )
    }

    /// The PIN dialog and login answered. Without a PIN signing ends; with one,
    /// the PDF's placeholder is located (else the PDF is invalid) and the signer's
    /// certificate is read.
    pub fn on_pin(&mut self, pin: Result<String, PinError>) -> (a: SignAction)
        requires
            old(self).wf(),
            old(self).awaiting_pin(),
        ensures
            final(self).wf(),
            final(self).pdf() == old(self).pdf(),
            final(self).slot_id() == old(self).slot_id(),
            final(self).cert_id() == old(self).cert_id(),
            pin matches Err(e) ==> (a matches SignAction::Done(res) && pin_failure(e, res)),
            pin matches Ok(p) ==> match spec_locate_placeholder(old(self).pdf()) {
                Err(e) => a matches SignAction::Done(res) && fails_with(res, error_code::PDF_INVALID@, pdf_error_text(e)),
                Ok(ph) => {
                    &&& final(self).awaiting_signer_cert()
                    &&& final(self).placeholder() == ph
                    &&& final(self).pin() == p@
                    &&& a matches SignAction::ReadSignerCert { slot_id, cert_id } && slot_id == old(self).slot_id()
                        && cert_id@ == old(self).cert_id()
                },
            },
    {
        let p = match pin {
            Ok(p) => p,
            Err(e) => {
                self.stage = SignStage::Finished;
                let res = match e {
                    PinError::Cancelled => Err(SignError::Cancelled),
                    PinError::Incorrect => Err(
                        SignError::Other(error_code::PIN_INCORRECT, String::from_str("Incorrect DSC PIN.")),
                    ),
                    PinError::Locked => Err(
                        SignError::Other(error_code::PIN_LOCKED, String::from_str("DSC token PIN is locked.")),
                    ),
                    _ => Err(SignError::Other(error_code::PIN_CANCELLED, e.message())),
                };
                return SignAction::Done(res);
            },
        };
        match locate_placeholder(self.pdf.as_slice()) {
            Err(e) => {
                self.stage = SignStage::Finished;
                SignAction::Done(Err(SignError::Other(error_code::PDF_INVALID, e.message())))
            },
            Ok(ph) => {
                self.stage = SignStage::AwaitSignerCert { pin: p, placeholder: ph };
                SignAction::ReadSignerCert { slot_id: self.slot_id, cert_id: self.cert_id.clone() }
            },
        }
    }

    /// The signer's certificate was read (or not: then signing fails); next the
    /// token's other certificates are read.
    pub fn on_signer_cert(&mut self, cert: Result<Vec<u8>, String>) -> (a: SignAction)
        requires
            old(self).wf(),
            old(self).awaiting_signer_cert(),
        ensures
            final(self).wf(),
            final(self).pdf() == old(self).pdf(),
            final(self).slot_id() == old(self).slot_id(),
            final(self).cert_id() == old(self).cert_id(),
            cert matches Err(m) ==> (a matches SignAction::Done(res) && fails_with(res, error_code::PKCS11_SIGN_FAILED@, m@)),
            cert matches Ok(der) ==> {
                &&& final(self).awaiting_token_certs()
                &&& final(self).placeholder() == old(self).placeholder()
                &&& final(self).pin() == old(self).pin()
                &&& final(self).signer_cert() == der@
                &&& a == SignAction::ReadTokenCerts { slot_id: old(self).slot_id() }
            },
    {
        let mut stage = SignStage::Finished;
        std::mem::swap(&mut stage, &mut self.stage);
        let (pin, placeholder) = match stage {
            SignStage::AwaitSignerCert { pin, placeholder } => (pin, placeholder),
            _ => {
                return SignAction::Done(Err(SignError::Cancelled));
            },
        };
        match cert {
            Err(m) => SignAction::Done(Err(SignError::Other(error_code::PKCS11_SIGN_FAILED, m))),
            Ok(der) => {
                self.stage = SignStage::AwaitTokenCerts { pin, placeholder, signer_cert: der };
                SignAction::ReadTokenCerts { slot_id: self.slot_id }
            },
        }
    }

    /// The token's certificates were read (a failure leaves only the bundled
    /// chain), and the further certificates to embed are selected. The
    /// ByteRange is rendered into the file and the covered bytes digested; the
    /// signing time is asked for next.
    pub fn on_token_certs(&mut self, token_certs: Result<Vec<Vec<u8>>, String>) -> (a: SignAction)
        requires
            old(self).wf(),
            old(self).awaiting_token_certs(),
        ensures
            final(self).wf(),
            final(self).pdf() == old(self).pdf(),
            final(self).slot_id() == old(self).slot_id(),
            final(self).cert_id() == old(self).cert_id(),
            ({
                let pdf = old(self).pdf();
                let ph = old(self).placeholder();
                if rendered_range(pdf, ph).len() != range_width(ph) {
                    a matches SignAction::Done(res) && fails_with(
                        res,
                        error_code::PDF_INVALID@,
                        width_mismatch_text(rendered_range(pdf, ph).len(), range_width(ph) as nat),
                    )
                } else {
                    &&& final(self).awaiting_signing_time()
                    &&& final(self).placeholder() == ph
                    &&& final(self).pin() == old(self).pin()
                    &&& final(self).signer_cert() == old(self).signer_cert()
                    &&& final(self).digest() == spec_sha256(covered_bytes(presigned(pdf, ph), sign_range(pdf, ph)))
                    &&& exists|chain: Seq<Seq<u8>>|
                        is_bundle_chain(old(self).signer_cert(), chain) && #[trigger] extra_from(
                            token_candidates(token_certs) + chain,
                            seq![old(self).signer_cert()],
                        ) == final(self).extra_certs()
                    &&& a == SignAction::ReadSigningTime
                }
            }),
    {
        proof {
            crate::pdf::lemma_located_placeholder_consistent(self.pdf@);
        }
        let mut stage = SignStage::Finished;
        std::mem::swap(&mut stage, &mut self.stage);
        let (pin, ph, signer_cert) = match stage {
            SignStage::AwaitTokenCerts { pin, placeholder, signer_cert } => (pin, placeholder, signer_cert),
            _ => {
                return SignAction::Done(Err(SignError::Cancelled));
            },
        };
        let n = self.pdf.len();
        let chain = build_chain(signer_cert.as_slice());
        let ghost chain_ders = ders(chain@);
        let ghost cands = token_candidates(token_certs);
        let ghost signer_cert_v = signer_cert@;
        let extra_certs = select_extra_certs(signer_cert.as_slice(), token_certs, chain);
        assert(is_bundle_chain(signer_cert@, chain_ders));
        assert(extra_from(cands + chain_ders, seq![signer_cert@]) == ders(extra_certs@));
        let byte_range = compute_byte_range(n, &ph);
        let target_width = ph.byte_range_end - ph.byte_range_start + 1;
        let rendered = render_byte_range(&byte_range, target_width);
        proof {
            vstd::utf8::is_ascii_chars_encode_utf8(rendered@);
        }
        let rendered_len = rendered.unicode_len();
        if rendered_len != target_width {
            let mut m = String::from_str("rendered ByteRange width ");
            push_decimal(&mut m, rendered_len);
            push_str(&mut m, " does not match placeholder width ");
            push_decimal(&mut m, target_width);
            push_str(&mut m, "; placeholder is too narrow for the actual offsets");
            return SignAction::Done(Err(SignError::Other(error_code::PDF_INVALID, m)));
        }
        let pre_signed = splice_byte_range(self.pdf.as_slice(), &ph, rendered.as_str());
        let digest = digest_byte_range(pre_signed.as_slice(), &byte_range);
        self.stage = SignStage::AwaitSigningTime {
            pin,
            placeholder: ph,
            rendered,
            pre_signed,
            digest,
            signer_cert,
            extra_certs,
        };
        assert(signer_cert_v == old(self).signer_cert());
        assert(exists|c: Seq<Seq<u8>>| is_bundle_chain(old(self).signer_cert(), c) && #[trigger] extra_from(
            token_candidates(token_certs) + c,
            seq![old(self).signer_cert()],
        ) == self.extra_certs());
        SignAction::ReadSigningTime
    }

    /// The clock was read. The certificates must decode (else the CMS cannot be
    /// built); then the signed attributes for the digest at `unix_secs` are
    /// built and the token is asked to sign exactly them.
    pub fn on_signing_time(&mut self, unix_secs: u64) -> (a: SignAction)
        requires
            old(self).wf(),
            old(self).awaiting_signing_time(),
        ensures
            final(self).wf(),
            final(self).pdf() == old(self).pdf(),
            final(self).slot_id() == old(self).slot_id(),
            final(self).cert_id() == old(self).cert_id(),
            match cms_certs_error(old(self).signer_cert(), old(self).extra_certs()) {
                Some(m) => a matches SignAction::Done(res) && fails_with(res, error_code::CMS_BUILD_FAILED@, m),
                None => match cms_signed_attrs(old(self).digest(), unix_secs) {
                    None => a matches SignAction::Done(Err(SignError::Other(code, _))) && code@ == error_code::CMS_BUILD_FAILED@,
                    Some(attrs) => {
                        &&& final(self).awaiting_signature()
                        &&& final(self).placeholder() == old(self).placeholder()
                        &&& final(self).digest() == old(self).digest()
                        &&& final(self).signer_cert() == old(self).signer_cert()
                        &&& final(self).extra_certs() == old(self).extra_certs()
                        &&& final(self).signed_attrs() == attrs
                        &&& a matches SignAction::SignWithToken { slot_id, cert_id, signer_cert, pin, data }
                        &&& slot_id == old(self).slot_id()
                        &&& cert_id@ == old(self).cert_id()
                        &&& signer_cert@ == old(self).signer_cert()
                        &&& pin@ == old(self).pin()
                        &&& data@ == attrs
                    },
                },
            },
    {
        let mut stage = SignStage::Finished;
        std::mem::swap(&mut stage, &mut self.stage);
        let (pin, placeholder, rendered, pre_signed, digest, signer_cert, extra_certs) = match stage {
            SignStage::AwaitSigningTime { pin, placeholder, rendered, pre_signed, digest, signer_cert, extra_certs } => (
                pin,
                placeholder,
                rendered,
                pre_signed,
                digest,
                signer_cert,
                extra_certs,
            ),
            _ => {
                return SignAction::Done(Err(SignError::Cancelled));
            },
        };
        if let Err(m) = check_cms_certs(signer_cert.as_slice(), &extra_certs) {
            return SignAction::Done(Err(SignError::Other(error_code::CMS_BUILD_FAILED, m)));
        }
        let attrs = match build_signed_attrs(&digest, unix_secs) {
            Ok(attrs) => attrs,
            Err(m) => {
                return SignAction::Done(Err(SignError::Other(error_code::CMS_BUILD_FAILED, m)));
            },
        };
        let data = attrs.clone();
        let token_cert = signer_cert.clone();
        self.stage = SignStage::AwaitSignature {
            placeholder,
            rendered,
            pre_signed,
            digest,
            signer_cert,
            extra_certs,
            signed_attrs: attrs,
        };
        SignAction::SignWithToken {
            slot_id: self.slot_id,
            cert_id: self.cert_id.clone(),
            signer_cert: token_cert,
            pin,
            data,
        }
    }

    /// The token signed the attributes (or not: then signing fails). The CMS is
    /// assembled around the signature, embedding the signer's certificate and
    /// the selected ones, and spliced into the `/Contents` placeholder, which it
    /// must fit.
    pub fn on_signature(&mut self, signature: Result<Vec<u8>, String>) -> (a: SignAction)
        requires
            old(self).wf(),
            old(self).awaiting_signature(),
        ensures
            final(self).pdf() == old(self).pdf(),
            signature matches Err(m) ==> (a matches SignAction::Done(res) && fails_with(res, error_code::CMS_BUILD_FAILED@, m@)),
            signature matches Ok(sig) ==> match spec_cms_der(
                old(self).signer_cert(),
                old(self).extra_certs(),
                old(self).signed_attrs(),
                sig@,
            ) {
                None => a matches SignAction::Done(Err(SignError::Other(code, _))) && code@ == error_code::CMS_BUILD_FAILED@,
                Some(cms) => cms_outcome(a, old(self).pdf(), old(self).placeholder(), old(self).digest(), cms),
            },
    {
        proof {
            crate::pdf::lemma_located_placeholder_consistent(self.pdf@);
        }
        let mut stage = SignStage::Finished;
        std::mem::swap(&mut stage, &mut self.stage);
        let (ph, rendered, pre_signed, signer_cert, extra_certs, signed_attrs) = match stage {
            SignStage::AwaitSignature { placeholder, rendered, pre_signed, signer_cert, extra_certs, signed_attrs, .. } => (
                placeholder,
                rendered,
                pre_signed,
                signer_cert,
                extra_certs,
                signed_attrs,
            ),
            _ => {
                return SignAction::Done(Err(SignError::Cancelled));
            },
        };
        let sig = match signature {
            Err(m) => {
                return SignAction::Done(Err(SignError::Other(error_code::CMS_BUILD_FAILED, m)));
            },
            Ok(s) => s,
        };
        let cms_der = match assemble_signed_data(
            signer_cert.as_slice(),
            &extra_certs,
            signed_attrs.as_slice(),
            sig.as_slice(),
        ) {
            Err(m) => {
                return SignAction::Done(Err(SignError::Other(error_code::CMS_BUILD_FAILED, m)));
            },
            Ok(c) => c,
        };
        if cms_der.len() > usize::MAX / 2 {
            return SignAction::Done(
                Err(SignError::Other(error_code::CMS_BUILD_FAILED, String::from_str("CMS signature too large"))),
            );
        }
        let ghost pdf = self.pdf@;
        let ghost rb = encode_utf8(rendered@);
        match splice_signature(pre_signed.as_slice(), &ph, rendered.as_str(), cms_der.as_slice()) {
            Err(e) => SignAction::Done(Err(SignError::Other(error_code::PDF_INVALID, e.message()))),
            Ok(out) => {
                proof {
                    crate::pdf::lemma_signing_preserves_length(pdf, ph, rb, cms_der@);
                    crate::pdf::lemma_signing_keeps_covered_bytes(pdf, ph, rb, cms_der@);
                }
                SignAction::Done(Ok(out))
            },
        }
    }
}

} // verus!
