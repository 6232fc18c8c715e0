# autodcr_bridge

The native messaging host behind the AutoDCR Chrome extension: it frames JSON
messages on stdio, collects PDFs uploaded in base64 chunks, and signs them with
a key on a PKCS#11 token, splicing a CMS signature into the PDF's placeholder.

The library in `src/` is verified with Verus:

- `framing`: the 4-byte little-endian length prefix and the 1 MiB cap.
- `protocol`, `error_code`: request and response envelopes.
- `commands`: the sign-job state machine behind `SIGN_PDF_START` /
  `SIGN_PDF_CHUNK` / `SIGN_PDF_END`, the response for every command, and the
  chunked streaming of the signed PDF.
- `signing`: the steps of signing a decoded PDF, between the PIN dialog, the
  token reads, the clock and the token's signature.
- `cms`: the CMS SignedData around the token's signature: its profile is
  chosen here, and each encoding step goes through the `cms`, `der`,
  `const-oid` and `x509-cert` crates.
- `pdf`: locating the `/ByteRange` and `/Contents` placeholder, the ByteRange,
  its digest, and splicing the signature in.
- `pin`: the PIN retry policy and the text of the OS dialogs.
- `ca_bundle`: walking a certificate chain through bundled CA certificates.
- `pkcs11`, `token_detection`: decisions on token key material and USB devices.
- `config`, `codec`, `text`: configuration, encodings, text helpers.
- `summary`: the one-line log summaries of requests and responses.

`app/` is the program around it: stdio, the `cryptoki` token client, USB
enumeration with `rusb`, the OS dialogs, the clock, JSON with `serde`,
logging.
