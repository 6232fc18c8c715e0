use autodcr_bridge::pdf::{
    compute_byte_range, digest_byte_range, locate_placeholder, render_byte_range, splice_byte_range, splice_signature,
    PdfError,
};

const SAMPLE: &[u8] = b"%PDF-1.7\n/ByteRange [0 1234 5678 9012]\n/Contents <000000000000000000000000000000000000000000000000000000000000000000000000>\nrest";

#[test]
fn locate_placeholder_finds_byte_range() {
    let ph = locate_placeholder(SAMPLE).unwrap();
    assert_eq!(ph.contents_hex_len, 72);
    assert!(ph.contents_open < ph.contents_close);
}

#[test]
fn render_byte_range_preserves_width() {
    let r = [0usize, 100, 200, 300];
    let s = render_byte_range(&r, 30);
    assert_eq!(s.len(), 30);
}

#[test]
fn render_byte_range_pads_inside_brackets() {
    assert_eq!(render_byte_range(&[0, 1, 2, 3], 12), "[0 1 2 3   ]");
    assert_eq!(render_byte_range(&[0, 10, 20, 30], 4), "[0 10 20 30]");
}

#[test]
fn placeholder_offsets_are_exact() {
    let ph = locate_placeholder(SAMPLE).unwrap();
    assert_eq!(ph.byte_range_start, 20);
    assert_eq!(SAMPLE[ph.byte_range_end], b']');
    assert_eq!(SAMPLE[ph.contents_open], b'<');
    assert_eq!(SAMPLE[ph.contents_close], b'>');
    let r = compute_byte_range(SAMPLE.len(), &ph);
    assert_eq!(r, [0, ph.contents_open, ph.contents_close + 1, SAMPLE.len() - ph.contents_close - 1]);
}

#[test]
fn placeholder_errors() {
    assert_eq!(locate_placeholder(b"%PDF no signature").unwrap_err(), PdfError::NoByteRange);
    assert_eq!(locate_placeholder(b"/ByteRange  x").unwrap_err(), PdfError::ByteRangeNotArray);
    assert_eq!(locate_placeholder(b"/ByteRange [0 1 2 3").unwrap_err(), PdfError::ByteRangeUnclosed);
    assert_eq!(locate_placeholder(b"/ByteRange [0 1 2 3] rest").unwrap_err(), PdfError::ContentsMissing);
    assert_eq!(locate_placeholder(b"/ByteRange [0 1 2 3] /Contents (x)").unwrap_err(), PdfError::ContentsNotHex);
    assert_eq!(locate_placeholder(b"/ByteRange [0 1 2 3] /Contents <00").unwrap_err(), PdfError::ContentsUnclosed);
    assert_eq!(locate_placeholder(b"/ByteRange [0 1 2 3] /Contents <00>").unwrap_err(), PdfError::ContentsTooSmall);
    assert_eq!(
        PdfError::ContentsTooSmall.message(),
        "/Contents placeholder too small (need at least 32 bytes of signature space)"
    );
}

#[test]
fn splice_writes_hex_and_keeps_length() {
    let ph = locate_placeholder(SAMPLE).unwrap();
    let range = compute_byte_range(SAMPLE.len(), &ph);
    let width = ph.byte_range_end - ph.byte_range_start + 1;
    let rendered = render_byte_range(&range, width);
    assert_eq!(rendered.len(), width);
    let pre = splice_byte_range(SAMPLE, &ph, &rendered);
    assert_eq!(pre.len(), SAMPLE.len());
    let out = splice_signature(&pre, &ph, &rendered, &[0xAB, 0x01]).unwrap();
    assert_eq!(out.len(), SAMPLE.len());
    assert_eq!(&out[ph.contents_open + 1..ph.contents_open + 5], b"AB01");
    assert_eq!(out[ph.contents_open + 5], b'0');
    assert_eq!(&out[ph.byte_range_start..=ph.byte_range_end], rendered.as_bytes());
    // The digest covers the same bytes before and after the signature goes in.
    assert_eq!(digest_byte_range(&pre, &range), digest_byte_range(&out, &range));
}

#[test]
fn oversized_signature_is_refused() {
    let ph = locate_placeholder(SAMPLE).unwrap();
    let err = splice_signature(SAMPLE, &ph, "[0 1 2 3]", &[0u8; 37]).unwrap_err();
    assert_eq!(err, PdfError::SignatureTooLarge { signature_hex_len: 74, placeholder_hex_len: 72 });
    assert_eq!(
        err.message(),
        "signature (74 hex bytes) exceeds /Contents placeholder (72 hex bytes); web app must reserve a larger placeholder"
    );
}

#[test]
fn digest_is_sha256_of_covered_segments() {
    // The covered bytes are "a" and "c": the digest is SHA-256 of "ac".
    let d = digest_byte_range(b"aXc", &[0, 1, 2, 1]);
    assert_eq!(
        d,
        [
            0xf4, 0x5d, 0xe5, 0x1c, 0xde, 0xf3, 0x09, 0x91, 0x55, 0x1e, 0x41, 0xe8, 0x82, 0xdd, 0x7b, 0x54, 0x04, 0x79, 0x96, 0x48, 0xa0, 0xa0, 0x07, 0x53, 0xf4, 0x4f, 0xc9, 0x66, 0xe6, 0x15, 0x3f, 0xc1
        ]
    );
}
