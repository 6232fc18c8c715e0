//! PDF signature placeholder handling.

use vstd::prelude::*;
use vstd::string::StringSliceAdditionalSpecFns;
use crate::codec::{hex_encode_upper, hex_upper, sha256, spec_sha256};
use crate::text::{dec, push_char, push_decimal, push_repeated, repeat_char};
use crate::ca_bundle::ders;
use crate::cms::{assemble_signed_data, check_cms_certs, cms_certs_error, build_signed_attrs, cms_signing_outcome};

verus! {

/// `n` occurs in `h` at offset `i`.
pub open spec fn occurs_at(h: Seq<u8>, n: Seq<u8>, i: int) -> bool {
    0 <= i && i + n.len() <= h.len() && h.subrange(i, i + n.len()) == n
}

/// Offset of the first occurrence of `n` in `h` at or after `start`.
pub open spec fn find_seq(h: Seq<u8>, n: Seq<u8>, start: int) -> Option<int>
    decreases h.len() + 1 - start,
{
    if start < 0 || start + n.len() > h.len() {
        None
    } else if h.subrange(start, start + n.len()) == n {
        Some(start)
    } else {
        find_seq(h, n, start + 1)
    }
}

fn occurs_at_exec(haystack: &[u8], needle: &[u8], i: usize) -> (r: bool)
    requires
        i + needle@.len() <= haystack@.len(),
    ensures
        r == (haystack@.subrange(i as int, i + needle@.len()) == needle@),
{
    let hl = haystack.len();
    let mut k: usize = 0;
    while k < needle.len()
        invariant
            k <= needle@.len(),
            hl == haystack@.len(),
            i + needle@.len() <= haystack@.len(),
            forall|m: int| 0 <= m < k ==> haystack@[i + m] == needle@[m],
        decreases needle@.len() - k,
    {
        if haystack[i + k] != needle[k] {
            assert(haystack@.subrange(i as int, i + needle@.len())[k as int] != needle@[k as int]);
            return false;
        }
        k = k + 1;
    }
    assert(haystack@.subrange(i as int, i + needle@.len()) =~= needle@);
    true
}

/// First offset at which `needle` occurs in `haystack`.
pub(crate) fn find_subsequence(haystack: &[u8], needle: &[u8]) -> (r: Option<usize>)
    requires
        needle@.len() > 0,
    ensures
        r matches Some(i) ==> find_seq(haystack@, needle@, 0) == Some(i as int),
        r is None ==> find_seq(haystack@, needle@, 0) is None,
{
    if needle.len() > haystack.len() {
        return None;
    }
    let last = haystack.len() - needle.len();
    let mut i: usize = 0;
    loop
        invariant
            i <= last,
            last + needle@.len() == haystack@.len(),
            find_seq(haystack@, needle@, 0) == find_seq(haystack@, needle@, i as int),
        decreases last - i,
    {
        if occurs_at_exec(haystack, needle, i) {
            return Some(i);
        }
        if i == last {
            assert(find_seq(haystack@, needle@, i + 1) is None);
            return None;
        }
        i = i + 1;
    }
}


/// PDF whitespace bytes skipped around the placeholder tokens: space, CR, LF.
pub open spec fn is_ws(b: u8) -> bool {
    b == 32u8 || b == 13u8 || b == 10u8
}

/// First offset at or after `i` that is not whitespace (or `s.len()`).
pub open spec fn skip_ws(s: Seq<u8>, i: int) -> int
    decreases s.len() - i,
{
    if 0 <= i < s.len() && is_ws(s[i]) {
        skip_ws(s, i + 1)
    } else {
        i
    }
}

/// First offset at or after `start` holding byte `b`.
pub open spec fn find_byte(s: Seq<u8>, start: int, b: u8) -> Option<int>
    decreases s.len() - start,
{
    if start < 0 || start >= s.len() {
        None
    } else if s[start] == b {
        Some(start)
    } else {
        find_byte(s, start + 1, b)
    }
}

/// The bytes of `/ByteRange`.
pub open spec fn byte_range_tag() -> Seq<u8> {
    seq![0x2Fu8, 0x42u8, 0x79u8, 0x74u8, 0x65u8, 0x52u8, 0x61u8, 0x6Eu8, 0x67u8, 0x65u8]
}

/// The bytes of `/Contents`.
pub open spec fn contents_tag() -> Seq<u8> {
    seq![0x2Fu8, 0x43u8, 0x6Fu8, 0x6Eu8, 0x74u8, 0x65u8, 0x6Eu8, 0x74u8, 0x73u8]
}

/// Smallest accepted number of hex digits in the `/Contents` placeholder
/// (32 bytes of signature space).
pub const MIN_CONTENTS_HEX_LEN: usize = 64;

/// Why a PDF could not be prepared for signing.
#[derive(Debug, Clone, Copy, PartialEq, Eq, Structural)]
pub enum PdfError {
    /// No `/ByteRange` token in the document.
    NoByteRange,
    /// `/ByteRange` is not followed by `[`.
    ByteRangeNotArray,
    /// The `/ByteRange` array has no closing `]`.
    ByteRangeUnclosed,
    /// No `/Contents` token after the `/ByteRange` array.
    ContentsMissing,
    /// `/Contents` is not followed by `<`.
    ContentsNotHex,
    /// The `/Contents` hex string has no closing `>`.
    ContentsUnclosed,
    /// The `/Contents` hex string holds fewer than 64 digits.
    ContentsTooSmall,
    /// The hex signature is longer than the `/Contents` placeholder.
    SignatureTooLarge { signature_hex_len: usize, placeholder_hex_len: usize },
}

/// The message reported for a PDF error.
pub open spec fn pdf_error_text(e: PdfError) -> Seq<char> {
    match e {
        PdfError::NoByteRange => "PDF does not contain a /ByteRange placeholder"@,
        PdfError::ByteRangeNotArray => "/ByteRange not followed by '['"@,
        PdfError::ByteRangeUnclosed => "/ByteRange missing closing ']'"@,
        PdfError::ContentsMissing => "/Contents placeholder missing"@,
        PdfError::ContentsNotHex => "/Contents placeholder is not a hex string"@,
        PdfError::ContentsUnclosed => "/Contents missing closing '>'"@,
        PdfError::ContentsTooSmall => "/Contents placeholder too small (need at least 32 bytes of signature space)"@,
        PdfError::SignatureTooLarge { signature_hex_len, placeholder_hex_len } => "signature ("@ + dec(
            signature_hex_len as nat,
        ) + " hex bytes) exceeds /Contents placeholder ("@ + dec(placeholder_hex_len as nat)
            + " hex bytes); web app must reserve a larger placeholder"@,
    }
}

impl PdfError {
    /// The error's message.
    pub fn message(&self) -> (s: String)
        ensures
            s@ == pdf_error_text(*self),
    {
        match self {
            PdfError::NoByteRange => String::from_str("PDF does not contain a /ByteRange placeholder"),
            PdfError::ByteRangeNotArray => String::from_str("/ByteRange not followed by '['"),
            PdfError::ByteRangeUnclosed => String::from_str("/ByteRange missing closing ']'"),
            PdfError::ContentsMissing => String::from_str("/Contents placeholder missing"),
            PdfError::ContentsNotHex => String::from_str("/Contents placeholder is not a hex string"),
            PdfError::ContentsUnclosed => String::from_str("/Contents missing closing '>'"),
            PdfError::ContentsTooSmall => String::from_str(
                "/Contents placeholder too small (need at least 32 bytes of signature space)",
            ),
            PdfError::SignatureTooLarge { signature_hex_len, placeholder_hex_len } => {
                let mut s = String::from_str("signature (");
                push_decimal(&mut s, *signature_hex_len);
                s.append(" hex bytes) exceeds /Contents placeholder (");
                push_decimal(&mut s, *placeholder_hex_len);
                s.append(" hex bytes); web app must reserve a larger placeholder");
                s
            },
        }
    }
}

/// A located `/ByteRange` and `/Contents` placeholder pair within a PDF.
#[derive(Debug, Clone, Copy, PartialEq, Eq, Structural)]
pub struct SignaturePlaceholder {
    /// Offset (within the PDF bytes) of the `[` for the ByteRange array.
    pub byte_range_start: usize,
    /// Offset of the `]` closing the ByteRange array (inclusive).
    pub byte_range_end: usize,
    /// Offset of the opening `<` of the `/Contents` hex string.
    pub contents_open: usize,
    /// Offset of the closing `>` of the `/Contents` hex string.
    pub contents_close: usize,
    /// Number of hex digits between the angle brackets.
    pub contents_hex_len: usize,
}

/// The placeholder that `locate_placeholder` finds in `pdf`, or why there is none.
pub open spec fn spec_locate_placeholder(pdf: Seq<u8>) -> Result<SignaturePlaceholder, PdfError> {
    match find_seq(pdf, byte_range_tag(), 0) {
        None => Err(PdfError::NoByteRange),
        Some(br) => {
            let i = skip_ws(pdf, br + byte_range_tag().len());
            if i >= pdf.len() || pdf[i] != 0x5Bu8 {
                Err(PdfError::ByteRangeNotArray)
            } else {
                match find_byte(pdf, i, 0x5Du8) {
                    None => Err(PdfError::ByteRangeUnclosed),
                    Some(end) => match find_seq(pdf.subrange(end + 1, pdf.len() as int), contents_tag(), 0) {
                        None => Err(PdfError::ContentsMissing),
                        Some(rel) => {
                            let j = skip_ws(pdf, end + 1 + rel + contents_tag().len());
                            if j >= pdf.len() || pdf[j] != 0x3Cu8 {
                                Err(PdfError::ContentsNotHex)
                            } else {
                                match find_byte(pdf, j + 1, 0x3Eu8) {
                                    None => Err(PdfError::ContentsUnclosed),
                                    Some(close) => {
                                        if close - j - 1 < MIN_CONTENTS_HEX_LEN {
                                            Err(PdfError::ContentsTooSmall)
                                        } else {
                                            Ok(SignaturePlaceholder {
                                                byte_range_start: i as usize,
                                                byte_range_end: end as usize,
                                                contents_open: j as usize,
                                                contents_close: close as usize,
                                                contents_hex_len: (close - j - 1) as usize,
                                            })
                                        }
                                    },
                                }
                            }
                        },
                    },
                }
            }
        },
    }
}

fn byte_range_tag_exec() -> (r: Vec<u8>)
    ensures
        r@ == byte_range_tag(),
{
    let r = vec![0x2Fu8, 0x42u8, 0x79u8, 0x74u8, 0x65u8, 0x52u8, 0x61u8, 0x6Eu8, 0x67u8, 0x65u8];
    assert(r@ =~= byte_range_tag());
    r
}

fn contents_tag_exec() -> (r: Vec<u8>)
    ensures
        r@ == contents_tag(),
{
    let r = vec![0x2Fu8, 0x43u8, 0x6Fu8, 0x6Eu8, 0x74u8, 0x65u8, 0x6Eu8, 0x74u8, 0x73u8];
    assert(r@ =~= contents_tag());
    r
}

fn skip_ws_exec(s: &[u8], start: usize) -> (r: usize)
    requires
        start <= s@.len(),
    ensures
        r as int == skip_ws(s@, start as int),
        start <= r <= s@.len(),
{
    let mut i = start;
    while i < s.len() && (s[i] == 32u8 || s[i] == 13u8 || s[i] == 10u8)
        invariant
            start <= i <= s@.len(),
            skip_ws(s@, start as int) == skip_ws(s@, i as int),
        decreases s@.len() - i,
    {
        i = i + 1;
    }
    i
}

fn find_byte_exec(s: &[u8], start: usize, b: u8) -> (r: Option<usize>)
    requires
        start <= s@.len(),
    ensures
        r matches Some(k) ==> find_byte(s@, start as int, b) == Some(k as int) && start <= k < s@.len(),
        r is None ==> find_byte(s@, start as int, b) is None,
{
    let mut k = start;
    while k < s.len()
        invariant
            start <= k <= s@.len(),
            find_byte(s@, start as int, b) == find_byte(s@, k as int, b),
        decreases s@.len() - k,
    {
        if s[k] == b {
            return Some(k);
        }
        k = k + 1;
    }
    None
}

/// Find the first signature placeholder in the PDF.
///
/// Looks for `/ByteRange [` followed by an array and a paired `/Contents <...>`
/// hex string of at least 64 digits.
pub fn locate_placeholder(pdf: &[u8]) -> (r: Result<SignaturePlaceholder, PdfError>)
    ensures
        r == spec_locate_placeholder(pdf@),
        r matches Ok(ph) ==> placeholder_consistent(ph, pdf@.len()),
{
    let _n = pdf.len();
    proof {
        lemma_located_placeholder_consistent(pdf@);
    }
    let needle = byte_range_tag_exec();
    let br_idx = match find_subsequence(pdf, needle.as_slice()) {
        Some(x) => x,
        None => return Err(PdfError::NoByteRange),
    };
    proof {
        assert(find_seq(pdf@, byte_range_tag(), 0) == Some(br_idx as int));
        lemma_find_seq_bounds(pdf@, byte_range_tag(), 0);
    }
    assert(br_idx + needle@.len() <= pdf@.len());
    let pl = pdf.len();
    let i = skip_ws_exec(pdf, br_idx + needle.len());
    if i >= pdf.len() || pdf[i] != 0x5Bu8 {
        return Err(PdfError::ByteRangeNotArray);
    }
    let byte_range_start = i;
    let byte_range_end = match find_byte_exec(pdf, i, 0x5Du8) {
        Some(e) => e,
        None => return Err(PdfError::ByteRangeUnclosed),
    };
    let after_br = byte_range_end + 1;
    let contents_needle = contents_tag_exec();
    let rest = &pdf[after_br..pdf.len()];
    let rel = match find_subsequence(rest, contents_needle.as_slice()) {
        Some(x) => x,
        None => return Err(PdfError::ContentsMissing),
    };
    proof {
        lemma_find_seq_bounds(rest@, contents_tag(), 0);
    }
    let j = skip_ws_exec(pdf, after_br + rel + contents_needle.len());
    if j >= pdf.len() || pdf[j] != 0x3Cu8 {
        return Err(PdfError::ContentsNotHex);
    }
    let contents_open = j;
    let contents_close = match find_byte_exec(pdf, j + 1, 0x3Eu8) {
        Some(c) => c,
        None => return Err(PdfError::ContentsUnclosed),
    };
    let contents_hex_len = contents_close - contents_open - 1;
    if contents_hex_len < MIN_CONTENTS_HEX_LEN {
        return Err(PdfError::ContentsTooSmall);
    }
    Ok(SignaturePlaceholder {
        byte_range_start,
        byte_range_end,
        contents_open,
        contents_close,
        contents_hex_len,
    })
}

/// A match found by `find_seq` lies inside the haystack.
proof fn lemma_find_seq_bounds(h: Seq<u8>, n: Seq<u8>, start: int)
    ensures
        find_seq(h, n, start) matches Some(i) ==> start <= i && i + n.len() <= h.len(),
    decreases h.len() + 1 - start,
{
    if !(start < 0 || start + n.len() > h.len()) && h.subrange(start, start + n.len()) != n {
        lemma_find_seq_bounds(h, n, start + 1);
    }
}


/// The canonical four-segment ByteRange: everything before the `<` of the
/// `/Contents` hex string and everything after its `>`.
pub open spec fn spec_compute_byte_range(pdf_len: usize, ph: SignaturePlaceholder) -> Seq<usize> {
    let off2 = ph.contents_close + 1;
    seq![0usize, ph.contents_open, off2 as usize, if pdf_len >= off2 { (pdf_len - off2) as usize } else { 0usize }]
}

/// Build the canonical four-segment ByteRange covering everything except the
/// `/Contents` hex placeholder. Returns `[off1, len1, off2, len2]`.
pub fn compute_byte_range(pdf_len: usize, ph: &SignaturePlaceholder) -> (r: [usize; 4])
    requires
        ph.contents_close < usize::MAX,
    ensures
        r@ == spec_compute_byte_range(pdf_len, *ph),
{
    let off1: usize = 0;
    let len1 = ph.contents_open;
    let off2 = ph.contents_close + 1;
    let len2 = pdf_len.saturating_sub(off2);
    let r = [off1, len1, off2, len2];
    assert(r@ =~= spec_compute_byte_range(pdf_len, *ph));
    r
}

/// The four ByteRange numbers separated by single spaces.
pub open spec fn byte_range_inner(r: Seq<usize>) -> Seq<char> {
    dec(r[0] as nat) + seq![' '] + dec(r[1] as nat) + seq![' '] + dec(r[2] as nat) + seq![' ']
        + dec(r[3] as nat)
}

/// `[a b c d]`, padded with spaces before the `]` up to `target_width`
/// characters when it is shorter.
pub open spec fn spec_render_byte_range(r: Seq<usize>, target_width: usize) -> Seq<char> {
    let inner = byte_range_inner(r);
    let raw = seq!['['] + inner + seq![']'];
    if raw.len() < target_width {
        seq!['['] + inner + repeat_char(' ', (target_width - raw.len()) as nat) + seq![']']
    } else {
        raw
    }
}

/// Serialise the four-element ByteRange array to the same width as the
/// placeholder so total file length stays identical.
pub fn render_byte_range(range: &[usize; 4], target_width: usize) -> (s: String)
    ensures
        s@ == spec_render_byte_range(range@, target_width),
        s@.len() == if byte_range_inner(range@).len() + 2 < target_width {
            target_width as int
        } else {
            byte_range_inner(range@).len() + 2int
        },
        s.is_ascii(),
{
    let mut inner = String::new();
    push_decimal(&mut inner, range[0]);
    push_char(&mut inner, ' ');
    push_decimal(&mut inner, range[1]);
    push_char(&mut inner, ' ');
    push_decimal(&mut inner, range[2]);
    push_char(&mut inner, ' ');
    push_decimal(&mut inner, range[3]);
    assert(inner@ =~= byte_range_inner(range@));
    let inner_len = inner.unicode_len();
    let mut out = String::new();
    push_char(&mut out, '[');
    out.append(inner.as_str());
    if inner_len < target_width && target_width - inner_len > 2 {
        push_repeated(&mut out, ' ', target_width - inner_len - 2);
    }
    push_char(&mut out, ']');
    proof {
        lemma_render_ascii(range@, target_width);
        assert(out@ =~= spec_render_byte_range(range@, target_width));
    }
    out
}

/// A rendered ByteRange holds only ASCII characters.
proof fn lemma_render_ascii(r: Seq<usize>, w: usize)
    requires
        r.len() == 4,
    ensures
        vstd::utf8::is_ascii_chars(spec_render_byte_range(r, w)),
{
    crate::text::lemma_dec_digits(r[0] as nat);
    crate::text::lemma_dec_digits(r[1] as nat);
    crate::text::lemma_dec_digits(r[2] as nat);
    crate::text::lemma_dec_digits(r[3] as nat);
    let s = spec_render_byte_range(r, w);
    assert forall|i: int| 0 <= i < s.len() implies (#[trigger] s[i]) as int <= 127 by {
        let inner = byte_range_inner(r);
        let a = dec(r[0] as nat);
        let b = dec(r[1] as nat);
        let c = dec(r[2] as nat);
        let d = dec(r[3] as nat);
        if 1 <= i < 1 + inner.len() {
            let k = i - 1;
            assert(inner[k] == s[i]);
            if k < a.len() {
                assert(inner[k] == a[k]);
            } else if k == a.len() {
            } else if k < a.len() + 1 + b.len() {
                assert(inner[k] == b[k - a.len() - 1]);
            } else if k == a.len() + 1 + b.len() {
            } else if k < a.len() + 2 + b.len() + c.len() {
                assert(inner[k] == c[k - a.len() - 2 - b.len()]);
            } else if k == a.len() + 2 + b.len() + c.len() {
            } else {
                assert(inner[k] == d[k - a.len() - 3 - b.len() - c.len()]);
            }
        }
    }
}

/// Compute SHA-256 over the two covered segments of the byte range
/// (skipping the `/Contents` hex bytes).
pub fn digest_byte_range(pdf: &[u8], range: &[usize; 4]) -> (d: [u8; 32])
    requires
        range@[0] + range@[1] <= pdf@.len(),
        range@[2] + range@[3] <= pdf@.len(),
    ensures
        d@ == spec_sha256(
            pdf@.subrange(range@[0] as int, range@[0] + range@[1])
                + pdf@.subrange(range@[2] as int, range@[2] + range@[3]),
        ),
{
    let _n = pdf.len();
    let mut covered: Vec<u8> = Vec::new();
    covered.extend_from_slice(&pdf[range[0]..range[0] + range[1]]);
    covered.extend_from_slice(&pdf[range[2]..range[2] + range[3]]);
    assert(covered@ =~= pdf@.subrange(range@[0] as int, range@[0] + range@[1])
        + pdf@.subrange(range@[2] as int, range@[2] + range@[3]));
    sha256(covered.as_slice())
}

/// `k` ASCII `0` bytes.
pub open spec fn zeros(k: nat) -> Seq<u8> {
    Seq::new(k, |_i: int| 48u8)
}

/// The signed PDF: the rendered ByteRange replaces the placeholder array, and the
/// upper-case hex of the CMS, right-padded with `0` to the placeholder width,
/// fills the `/Contents` hex string.
pub open spec fn spec_splice(
    pdf: Seq<u8>,
    ph: SignaturePlaceholder,
    rendered: Seq<u8>,
    cms_der: Seq<u8>,
) -> Seq<u8> {
    let hex = hex_upper(cms_der);
    pdf.subrange(0, ph.byte_range_start as int) + rendered + pdf.subrange(
        ph.byte_range_end + 1,
        ph.contents_open + 1,
    ) + hex + zeros((ph.contents_hex_len - hex.len()) as nat) + pdf.subrange(
        ph.contents_close as int,
        pdf.len() as int,
    )
}

/// The placeholder's offsets are in order and inside a PDF of `len` bytes.
pub open spec fn placeholder_in_bounds(ph: SignaturePlaceholder, len: nat) -> bool {
    &&& ph.byte_range_start <= ph.byte_range_end
    &&& ph.byte_range_end < ph.contents_open
    &&& ph.contents_open < ph.contents_close
    &&& ph.contents_close < len
}

/// `out` is `pdf` signed: as long as `pdf`, with exactly `rendered` over the
/// ByteRange array, the upper-case hex of `cms_der` padded with `0` filling the
/// `/Contents` hex string, and every other byte unchanged.
pub open spec fn fills_placeholders(
    pdf: Seq<u8>,
    ph: SignaturePlaceholder,
    rendered: Seq<u8>,
    cms_der: Seq<u8>,
    out: Seq<u8>,
) -> bool {
    &&& out.len() == pdf.len()
    &&& out.subrange(ph.byte_range_start as int, ph.byte_range_end + 1) == rendered
    &&& out.subrange(ph.contents_open + 1, ph.contents_close as int) == hex_upper(cms_der) + zeros(
        (ph.contents_hex_len - 2 * cms_der.len()) as nat,
    )
    &&& forall|i: int|
        0 <= i < pdf.len() && !(ph.byte_range_start <= i <= ph.byte_range_end) && !(ph.contents_open < i
            < ph.contents_close) ==> #[trigger] out[i] == pdf[i]
}

/// Splicing a signature that fits writes the rendered ByteRange over the
/// placeholder array and the signature's hex into `/Contents`, keeps every
/// other byte, and keeps the length, whatever the PDF held there before.
pub proof fn lemma_splice_fills_placeholders(pdf: Seq<u8>, ph: SignaturePlaceholder, rendered: Seq<u8>, cms_der: Seq<u8>)
    requires
        placeholder_consistent(ph, pdf.len()),
        rendered.len() == ph.byte_range_end - ph.byte_range_start + 1,
        2 * cms_der.len() <= ph.contents_hex_len,
    ensures
        fills_placeholders(pdf, ph, rendered, cms_der, spec_splice(pdf, ph, rendered, cms_der)),
{
    let out = spec_splice(pdf, ph, rendered, cms_der);
    let hex = hex_upper(cms_der);
    let a = pdf.subrange(0, ph.byte_range_start as int);
    let b = pdf.subrange(ph.byte_range_end + 1, ph.contents_open + 1);
    let pad = hex + zeros((ph.contents_hex_len - hex.len()) as nat);
    let c = pdf.subrange(ph.contents_close as int, pdf.len() as int);
    assert(out == a + rendered + b + pad + c);
    assert(out.subrange(ph.byte_range_start as int, ph.byte_range_end + 1) =~= rendered);
    assert(out.subrange(ph.contents_open + 1, ph.contents_close as int) =~= pad);
    assert forall|i: int|
        0 <= i < pdf.len() && !(ph.byte_range_start <= i <= ph.byte_range_end) && !(ph.contents_open < i
            < ph.contents_close) implies #[trigger] out[i] == pdf[i] by {
        if i < ph.byte_range_start {
            assert(out[i] == a[i]);
        } else if i <= ph.contents_open {
            assert(out[i] == b[i - ph.byte_range_end - 1]);
        } else {
            assert(out[i] == c[i - ph.contents_close]);
        }
    }
}

/// Splice the rendered ByteRange and CMS hex into the PDF, returning the
/// signed bytes. Fails when the hex signature is longer than the placeholder.
pub fn splice_signature(
    pdf: &[u8],
    ph: &SignaturePlaceholder,
    rendered_byte_range: &str,
    cms_der: &[u8],
) -> (r: Result<Vec<u8>, PdfError>)
    requires
        ph.byte_range_start <= ph.byte_range_end + 1 <= ph.contents_open + 1 <= pdf@.len(),
        ph.contents_close <= pdf@.len(),
        2 * cms_der@.len() <= usize::MAX,
    ensures
        2 * cms_der@.len() > ph.contents_hex_len ==> r == Err::<Vec<u8>, PdfError>(
            PdfError::SignatureTooLarge {
                signature_hex_len: (2 * cms_der@.len()) as usize,
                placeholder_hex_len: ph.contents_hex_len,
            },
        ),
        2 * cms_der@.len() <= ph.contents_hex_len ==> (r matches Ok(out) && out@ == spec_splice(
            pdf@,
            *ph,
            rendered_byte_range.spec_bytes(),
            cms_der@,
        )),
        r matches Ok(out) ==> (placeholder_consistent(*ph, pdf@.len()) && rendered_byte_range.spec_bytes().len()
            == ph.byte_range_end - ph.byte_range_start + 1 ==> fills_placeholders(
            pdf@,
            *ph,
            rendered_byte_range.spec_bytes(),
            cms_der@,
            out@,
        )),
{
    let _n = pdf.len();
    let hex_sig = hex_encode_upper(cms_der);
    if hex_sig.len() > ph.contents_hex_len {
        return Err(
            PdfError::SignatureTooLarge {
                signature_hex_len: hex_sig.len(),
                placeholder_hex_len: ph.contents_hex_len,
            },
        );
    }
    let mut padded = hex_sig;
    let ghost hex = padded@;
    while padded.len() < ph.contents_hex_len
        invariant
            hex.len() <= padded@.len() <= ph.contents_hex_len,
            padded@ == hex + zeros((padded@.len() - hex.len()) as nat),
        decreases ph.contents_hex_len - padded@.len(),
    {
        padded.push(48u8);
        assert(padded@ =~= hex + zeros((padded@.len() - hex.len()) as nat));
    }
    let mut out: Vec<u8> = Vec::new();
    out.extend_from_slice(&pdf[0..ph.byte_range_start]);
    out.extend_from_slice(rendered_byte_range.as_bytes());
    let after_br = ph.byte_range_end + 1;
    out.extend_from_slice(&pdf[after_br..ph.contents_open + 1]);
    out.extend_from_slice(padded.as_slice());
    out.extend_from_slice(&pdf[ph.contents_close..pdf.len()]);
    assert(out@ =~= spec_splice(pdf@, *ph, rendered_byte_range.spec_bytes(), cms_der@));
    proof {
        if placeholder_consistent(*ph, pdf@.len()) && rendered_byte_range.spec_bytes().len() == ph.byte_range_end
            - ph.byte_range_start + 1 {
            lemma_splice_fills_placeholders(pdf@, *ph, rendered_byte_range.spec_bytes(), cms_der@);
        }
    }
    Ok(out)
}


/// The PDF with the ByteRange placeholder array replaced by `rendered`.
pub open spec fn spec_with_byte_range(pdf: Seq<u8>, ph: SignaturePlaceholder, rendered: Seq<u8>) -> Seq<u8> {
    pdf.subrange(0, ph.byte_range_start as int) + rendered + pdf.subrange(ph.byte_range_end + 1, pdf.len() as int)
}

/// The bytes that the ByteRange `r` covers: its two segments, in order.
pub open spec fn covered_bytes(pdf: Seq<u8>, r: Seq<usize>) -> Seq<u8> {
    pdf.subrange(r[0] as int, r[0] + r[1]) + pdf.subrange(r[2] as int, r[2] + r[3])
}

/// The placeholder as `locate_placeholder` reports it: offsets in order, inside
/// the PDF, and the hex length between the angle brackets.
pub open spec fn placeholder_consistent(ph: SignaturePlaceholder, len: nat) -> bool {
    &&& placeholder_in_bounds(ph, len)
    &&& ph.contents_hex_len == ph.contents_close - ph.contents_open - 1
}

/// Writes the rendered ByteRange over the placeholder array, in a copy of the
/// PDF; the length is unchanged when the rendering has the placeholder's width.
pub fn splice_byte_range(pdf: &[u8], ph: &SignaturePlaceholder, rendered: &str) -> (out: Vec<u8>)
    requires
        ph.byte_range_start <= ph.byte_range_end < pdf@.len(),
    ensures
        out@ == spec_with_byte_range(pdf@, *ph, rendered.spec_bytes()),
{
    let _n = pdf.len();
    let mut out: Vec<u8> = Vec::new();
    out.extend_from_slice(&pdf[0..ph.byte_range_start]);
    out.extend_from_slice(rendered.as_bytes());
    out.extend_from_slice(&pdf[ph.byte_range_end + 1..pdf.len()]);
    assert(out@ =~= spec_with_byte_range(pdf@, *ph, rendered.spec_bytes()));
    out
}

/// Every placeholder that `locate_placeholder` returns is consistent with the
/// PDF it was found in.
pub proof fn lemma_located_placeholder_consistent(pdf: Seq<u8>)
    requires
        pdf.len() <= usize::MAX,
    ensures
        spec_locate_placeholder(pdf) matches Ok(ph) ==> placeholder_consistent(ph, pdf.len()),
{
    lemma_find_seq_bounds(pdf, byte_range_tag(), 0);
    if let Some(br) = find_seq(pdf, byte_range_tag(), 0) {
        let i = skip_ws(pdf, br + byte_range_tag().len());
        lemma_skip_ws_bounds(pdf, br + byte_range_tag().len());
        lemma_find_byte_bounds(pdf, i, 0x5Du8);
        if let Some(end) = find_byte(pdf, i, 0x5Du8) {
            let rest = pdf.subrange(end + 1, pdf.len() as int);
            lemma_find_seq_bounds(rest, contents_tag(), 0);
            if let Some(rel) = find_seq(rest, contents_tag(), 0) {
                let j = skip_ws(pdf, end + 1 + rel + contents_tag().len());
                lemma_skip_ws_bounds(pdf, end + 1 + rel + contents_tag().len());
                lemma_find_byte_bounds(pdf, j + 1, 0x3Eu8);
            }
        }
    }
}

proof fn lemma_find_byte_bounds(s: Seq<u8>, start: int, b: u8)
    ensures
        find_byte(s, start, b) matches Some(k) ==> start <= k < s.len() && s[k] == b,
    decreases s.len() - start,
{
    if !(start < 0 || start >= s.len()) && s[start] != b {
        lemma_find_byte_bounds(s, start + 1, b);
    }
}

proof fn lemma_skip_ws_bounds(s: Seq<u8>, i: int)
    ensures
        skip_ws(s, i) >= i,
    decreases s.len() - i,
{
    if 0 <= i < s.len() && is_ws(s[i]) {
        lemma_skip_ws_bounds(s, i + 1);
    }
}

/// Signing keeps the file length: writing the ByteRange rendered at the
/// placeholder's width and then a signature that fits the `/Contents`
/// placeholder yields a file exactly as long as the unsigned one.
pub proof fn lemma_signing_preserves_length(pdf: Seq<u8>, ph: SignaturePlaceholder, rendered: Seq<u8>, cms_der: Seq<u8>)
    requires
        placeholder_consistent(ph, pdf.len()),
        rendered.len() == ph.byte_range_end - ph.byte_range_start + 1,
        2 * cms_der.len() <= ph.contents_hex_len,
    ensures
        spec_with_byte_range(pdf, ph, rendered).len() == pdf.len(),
        spec_splice(spec_with_byte_range(pdf, ph, rendered), ph, rendered, cms_der).len() == pdf.len(),
{
}

/// The digest covers the final file: the bytes that the ByteRange covers are the
/// same in the buffer that was digested (ByteRange already rendered) and in the
/// signed output, so splicing the signature in never changes what was signed.
pub proof fn lemma_signing_keeps_covered_bytes(pdf: Seq<u8>, ph: SignaturePlaceholder, rendered: Seq<u8>, cms_der: Seq<u8>)
    requires
        placeholder_consistent(ph, pdf.len()),
        rendered.len() == ph.byte_range_end - ph.byte_range_start + 1,
        2 * cms_der.len() <= ph.contents_hex_len,
    ensures
        ({
            let pre = spec_with_byte_range(pdf, ph, rendered);
            let out = spec_splice(pre, ph, rendered, cms_der);
            let r = spec_compute_byte_range(pre.len() as usize, ph);
            covered_bytes(out, r) == covered_bytes(pre, r)
        }),
{
    let pre = spec_with_byte_range(pdf, ph, rendered);
    let out = spec_splice(pre, ph, rendered, cms_der);
    let r = spec_compute_byte_range(pre.len() as usize, ph);
    let hex = hex_upper(cms_der);
    assert(out.len() == pre.len());
    assert forall|i: int| 0 <= i < ph.contents_open implies out[i] == pre[i] by {
        if i < ph.byte_range_start {
        } else if i <= ph.byte_range_end {
        } else {
        }
    }
    assert forall|i: int| ph.contents_close < i < pre.len() implies out[i] == pre[i] by {
    }
    assert(out.subrange(0, ph.contents_open as int) =~= pre.subrange(0, ph.contents_open as int));
    assert(out.subrange(ph.contents_close + 1, pre.len() as int) =~= pre.subrange(ph.contents_close + 1, pre.len() as int));
}

/// Signing only rewrites the ByteRange array and the `/Contents` hex digits:
/// every other byte of the signed file is that of the unsigned one.
pub proof fn lemma_signing_changes_only_placeholders(pdf: Seq<u8>, ph: SignaturePlaceholder, rendered: Seq<u8>, cms_der: Seq<u8>, i: int)
    requires
        placeholder_consistent(ph, pdf.len()),
        rendered.len() == ph.byte_range_end - ph.byte_range_start + 1,
        2 * cms_der.len() <= ph.contents_hex_len,
        0 <= i < pdf.len(),
        !(ph.byte_range_start <= i <= ph.byte_range_end),
        !(ph.contents_open < i < ph.contents_close),
    ensures
        spec_splice(spec_with_byte_range(pdf, ph, rendered), ph, rendered, cms_der)[i] == pdf[i],
{
}
/// Splicing a signature that fits into a PDF whose ByteRange is already in
/// place keeps the file's length and every byte the ByteRange covers (so its
/// digest), and fills the `/Contents` hex string with the signature's
/// upper-case hex, padded with `0` to the placeholder's width.
pub proof fn lemma_splice_signature_law(pdf: Seq<u8>, ph: SignaturePlaceholder, rendered: Seq<u8>, cms_der: Seq<u8>)
    requires
        pdf.len() <= usize::MAX,
        spec_locate_placeholder(pdf) == Ok::<SignaturePlaceholder, PdfError>(ph),
        pdf.subrange(ph.byte_range_start as int, ph.byte_range_end + 1) == rendered,
        2 * cms_der.len() <= ph.contents_hex_len,
    ensures
        ({
            let out = spec_splice(pdf, ph, rendered, cms_der);
            let r = spec_compute_byte_range(pdf.len() as usize, ph);
            &&& out.len() == pdf.len()
            &&& covered_bytes(out, r) == covered_bytes(pdf, r)
            &&& out.subrange(ph.contents_open + 1, ph.contents_close as int) == hex_upper(cms_der) + zeros(
                (ph.contents_hex_len - 2 * cms_der.len()) as nat,
            )
        }),
{
    lemma_located_placeholder_consistent(pdf);
    assert(spec_with_byte_range(pdf, ph, rendered) =~= pdf);
    lemma_signing_preserves_length(pdf, ph, rendered, cms_der);
    lemma_signing_keeps_covered_bytes(pdf, ph, rendered, cms_der);
    let out = spec_splice(pdf, ph, rendered, cms_der);
    let hex = hex_upper(cms_der);
    let head = pdf.subrange(0, ph.byte_range_start as int) + rendered + pdf.subrange(
        ph.byte_range_end + 1,
        ph.contents_open + 1,
    );
    assert(head.len() == ph.contents_open + 1);
    assert(out.subrange(ph.contents_open + 1, ph.contents_close as int) =~= hex + zeros(
        (ph.contents_hex_len - hex.len()) as nat,
    ));
}

/// Builds a detached CMS SignedData over `signed_content_digest`, signed at
/// `unix_secs`. The certificates must decode; then `digest_signer` gets the DER
/// of the signed attributes and returns the raw signature (RSA PKCS#1 v1.5 over
/// a SHA-256 DigestInfo), which goes into the ContentInfo with the signer's
/// certificate and `extra_certs`.
pub fn build_cms_signature<F>(
    signed_content_digest: &[u8; 32],
    signer_cert_der: &[u8],
    extra_certs: &Vec<Vec<u8>>,
    unix_secs: u64,
    digest_signer: F,
) -> (r: Result<Vec<u8>, String>) where F: FnOnce(&[u8]) -> Result<Vec<u8>, String>,
    requires
        forall|d: &[u8]| #[trigger] call_requires(digest_signer, (d,)),
    ensures
        cms_certs_error(signer_cert_der@, ders(extra_certs@)) matches Some(m) ==> (r matches Err(e) && e@ == m),
        cms_certs_error(signer_cert_der@, ders(extra_certs@)) is None ==> cms_signing_outcome(
            digest_signer,
            signed_content_digest@,
            unix_secs,
            signer_cert_der@,
            ders(extra_certs@),
            r,
        ),
{
    check_cms_certs(signer_cert_der, extra_certs)?;
    let attrs = build_signed_attrs(signed_content_digest, unix_secs)?;
    let data = attrs.as_slice();
    let sig = digest_signer(data);
    let ghost out = sig;
    let ghost d = data;
    assert(call_ensures(digest_signer, (d,), out) && d@ == attrs@);
    let sig = sig?;
    assemble_signed_data(signer_cert_der, extra_certs, attrs.as_slice(), sig.as_slice())
}

} // verus!
