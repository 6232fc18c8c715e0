//! Command dispatch: the sign-job state machine behind `SIGN_PDF_*`, and the
//! responses for every command.

use vstd::prelude::*;
use vstd::string::StringSliceAdditionalSpecFns;
use vstd::utf8::{decode_utf8, encode_utf8, is_char_boundary, valid_utf8};
use crate::config::{discover_default_module, spec_module_candidates, Config, HostOs};
use crate::codec::{base64_decode, base64_encode, is_base64_char, spec_base64_decode, spec_base64_encode};
use crate::pdf::find_seq;
use crate::pkcs11::{CertInfo, SlotInfo};
use crate::token_detection::UsbTokenInfo;
use crate::error_code;
use crate::framing::FrameError;
use crate::protocol::{
    HostEnvelope, HostResponse, Request, ResultBody, MAX_CHUNK_BYTES, PROTOCOL_VERSION, SignPdfChunkPayload, SignPdfEndPayload, SignPdfStartPayload,
    is_envelope, is_failure, is_failure_with_code, is_success, lemma_responses_are_envelopes,
};
use crate::text::{dec, push_decimal, push_decimal_u64, push_str};

verus! {

/// The UTF-8 bytes of each piece.
pub open spec fn piece_bytes(pieces: Seq<String>) -> Seq<Seq<u8>> {
    pieces.map_values(|p: String| encode_utf8(p@))
}

/// `pieces` splits `bytes` into runs of exactly `size` bytes, the last run
/// holding between 1 and `size` bytes; the empty input gives one empty piece.
pub open spec fn is_byte_chunking(bytes: Seq<u8>, size: nat, pieces: Seq<Seq<u8>>) -> bool {
    if bytes.len() == 0 {
        pieces.len() == 1 && pieces[0].len() == 0
    } else {
        &&& pieces.len() > 0
        &&& pieces.flatten() == bytes
        &&& forall|i: int| 0 <= i < pieces.len() - 1 ==> (#[trigger] pieces[i]).len() == size
        &&& 0 < pieces.last().len() <= size
    }
}

/// The UTF-8 bytes of the strings `pieces` split `bytes` as `is_byte_chunking` says.
pub open spec fn is_chunking(bytes: Seq<u8>, size: nat, pieces: Seq<String>) -> bool {
    is_byte_chunking(bytes, size, piece_bytes(pieces))
}

/// Every multiple of `size` inside `bytes` falls on a character boundary, so
/// that splitting there never cuts a character in two.
pub open spec fn splits_on_char_boundaries(bytes: Seq<u8>, size: nat) -> bool {
    forall|j: int| 0 < j < bytes.len() && j % (size as int) == 0 ==> #[trigger] is_char_boundary(bytes, j)
}

proof fn lemma_boundary_in_suffix(bytes: Seq<u8>, off: int, size: int)
    requires
        valid_utf8(bytes),
        0 <= off,
        0 < size,
        off + size < bytes.len(),
        is_char_boundary(bytes, off),
        is_char_boundary(bytes, off + size),
    ensures
        valid_utf8(bytes.subrange(off, bytes.len() as int)),
        is_char_boundary(bytes.subrange(off, bytes.len() as int), size),
{
    broadcast use vstd::utf8::is_char_boundary_iff_not_is_continuation_byte;
    broadcast use vstd::utf8::valid_utf8_split;
    let sub = bytes.subrange(off, bytes.len() as int);
    assert(valid_utf8(sub));
    assert(sub[size] == bytes[off + size]);
    assert(is_char_boundary(bytes, off + size) <==> !vstd::utf8::is_continuation_byte(bytes[off + size]));
    assert(is_char_boundary(sub, size) <==> !vstd::utf8::is_continuation_byte(sub[size]));
}

/// Splits `s` into pieces of at most `size` bytes, in order; the empty string
/// gives a single empty piece.
pub fn chunk_string(s: &str, size: usize) -> (r: Vec<String>)
    requires
        size > 0,
        splits_on_char_boundaries(s.spec_bytes(), size as nat),
    ensures
        is_chunking(s.spec_bytes(), size as nat, r@),
{
    broadcast use vstd::utf8::encode_utf8_valid_utf8;
    if s.as_bytes().len() == 0 {
        let mut v: Vec<String> = Vec::new();
        v.push(String::new());
        assert(v@[0]@.len() == 0);
        assert(piece_bytes(v@)[0] =~= Seq::<u8>::empty());
        assert(s.spec_bytes().len() == 0);
        return v;
    }
    let ghost bytes = s.spec_bytes();
    let mut out: Vec<String> = Vec::new();
    let mut rest: &str = s;
    let ghost mut off: int = 0;
    assert(bytes.subrange(0, 0) =~= Seq::<u8>::empty());
    assert(piece_bytes(out@) =~= Seq::<Seq<u8>>::empty());
    assert(bytes.subrange(0, bytes.len() as int) =~= bytes);
    loop
        invariant
            size > 0,
            splits_on_char_boundaries(bytes, size as nat),
            valid_utf8(bytes),
            bytes == s.spec_bytes(),
            bytes.len() > 0,
            0 <= off < bytes.len(),
            off % (size as int) == 0,
            is_char_boundary(bytes, off),
            rest.spec_bytes() == bytes.subrange(off, bytes.len() as int),
            piece_bytes(out@).flatten() == bytes.subrange(0, off),
            forall|i: int| 0 <= i < out@.len() ==> (#[trigger] piece_bytes(out@)[i]).len() == size,
        decreases bytes.len() - off,
    {
        let ghost prev = out@;
        if rest.as_bytes().len() <= size {
            let piece = rest.to_owned();
            out.push(piece);
            assert(piece_bytes(out@) =~= piece_bytes(prev).push(rest.spec_bytes()));
            proof {
                piece_bytes(prev).lemma_flatten_push(rest.spec_bytes());
            }
            assert(bytes.subrange(0, off) + bytes.subrange(off, bytes.len() as int) =~= bytes);
            assert forall|i: int| 0 <= i < out@.len() - 1 implies (#[trigger] piece_bytes(out@)[i]).len() == size by {
                assert(piece_bytes(out@)[i] == piece_bytes(prev)[i]);
            }
            assert(piece_bytes(out@).last() == rest.spec_bytes());
            assert(piece_bytes(out@).flatten() == bytes);
            assert(0 < piece_bytes(out@).last().len() <= size);
            assert(out@.len() > 0);
            return out;
        }
        proof {
            assert((off + size) % (size as int) == 0) by (nonlinear_arith)
                requires
                    off % (size as int) == 0,
                    size > 0,
            ;
            assert(is_char_boundary(bytes, off + size));
            lemma_boundary_in_suffix(bytes, off, size as int);
        }
        let (a, b) = rest.split_at(size);
        let piece = a.to_owned();
        out.push(piece);
        assert(piece_bytes(out@) =~= piece_bytes(prev).push(a.spec_bytes()));
        proof {
            piece_bytes(prev).lemma_flatten_push(a.spec_bytes());
        }
        assert(bytes.subrange(0, off) + bytes.subrange(off, off + size) =~= bytes.subrange(0, off + size));
        assert(a.spec_bytes() =~= bytes.subrange(off, off + size));
        assert(b.spec_bytes() =~= bytes.subrange(off + size, bytes.len() as int));
        rest = b;
        proof {
            off = off + size;
        }
    }
}

/// A sign job whose PDF is being uploaded in chunks.
struct SignJob {
    job_id: String,
    total_chunks: u32,
    chunks: Vec<String>,
    slot_id: Option<u64>,
    cert_id: Option<String>,
}

/// What the host remembers of a sign job.
pub struct JobView {
    pub total_chunks: u32,
    /// The base64 text received for each chunk index; empty until received.
    pub chunks: Seq<Seq<char>>,
    pub slot_id: Option<u64>,
    pub cert_id: Option<Seq<char>>,
}

/// What the host remembers of `j`.
spec fn job_view(j: SignJob) -> JobView {
    JobView {
        total_chunks: j.total_chunks,
        chunks: j.chunks@.map_values(|c: String| c@),
        slot_id: j.slot_id,
        cert_id: match j.cert_id {
            Some(c) => Some(c@),
            None => None,
        },
    }
}

/// The jobs of `s`, by job id.
spec fn jobs_map(s: Seq<SignJob>) -> Map<Seq<char>, JobView>
    decreases s.len(),
{
    if s.len() == 0 {
        Map::empty()
    } else {
        jobs_map(s.drop_last()).insert(s.last().job_id@, job_view(s.last()))
    }
}

/// No two jobs of `s` share an id, and every job has one chunk slot per
/// announced chunk.
spec fn jobs_wf(s: Seq<SignJob>) -> bool {
    &&& forall|i: int, j: int| 0 <= i < j < s.len() ==> (#[trigger] s[i]).job_id@ != (#[trigger] s[j]).job_id@
    &&& forall|i: int| 0 <= i < s.len() ==> (#[trigger] s[i]).chunks@.len() == s[i].total_chunks
}

proof fn lemma_jobs_map_lookup(s: Seq<SignJob>, k: int)
    requires
        jobs_wf(s),
        0 <= k < s.len(),
    ensures
        jobs_map(s).contains_key(s[k].job_id@),
        jobs_map(s)[s[k].job_id@] == job_view(s[k]),
    decreases s.len(),
{
    if k < s.len() - 1 {
        assert(jobs_wf(s.drop_last()));
        lemma_jobs_map_lookup(s.drop_last(), k);
        assert(s.drop_last()[k] == s[k]);
    }
}

proof fn lemma_jobs_map_absent(s: Seq<SignJob>, id: Seq<char>)
    requires
        forall|i: int| 0 <= i < s.len() ==> (#[trigger] s[i]).job_id@ != id,
    ensures
        !jobs_map(s).contains_key(id),
    decreases s.len(),
{
    if s.len() > 0 {
        assert(forall|i: int| 0 <= i < s.drop_last().len() ==> #[trigger] s.drop_last()[i] == s[i]);
        lemma_jobs_map_absent(s.drop_last(), id);
    }
}

proof fn lemma_jobs_map_dom(s: Seq<SignJob>, id: Seq<char>)
    ensures
        jobs_map(s).contains_key(id) ==> exists|i: int| 0 <= i < s.len() && (#[trigger] s[i]).job_id@ == id,
    decreases s.len(),
{
    if s.len() > 0 {
        lemma_jobs_map_dom(s.drop_last(), id);
        if jobs_map(s.drop_last()).contains_key(id) {
            let i = choose|i: int| 0 <= i < s.drop_last().len() && (#[trigger] s.drop_last()[i]).job_id@ == id;
            assert(s[i] == s.drop_last()[i]);
        }
    }
}

proof fn lemma_jobs_map_update(s: Seq<SignJob>, k: int, j: SignJob)
    requires
        jobs_wf(s),
        0 <= k < s.len(),
        j.job_id@ == s[k].job_id@,
    ensures
        jobs_map(s.update(k, j)) == jobs_map(s).insert(j.job_id@, job_view(j)),
    decreases s.len(),
{
    let t = s.update(k, j);
    if k == s.len() - 1 {
        assert(t.drop_last() =~= s.drop_last());
        lemma_jobs_map_lookup(s, k);
        assert(jobs_map(t) =~= jobs_map(s).insert(j.job_id@, job_view(j)));
    } else {
        assert(jobs_wf(s.drop_last()));
        assert(t.drop_last() =~= s.drop_last().update(k, j));
        lemma_jobs_map_update(s.drop_last(), k, j);
        assert(s.last().job_id@ != j.job_id@);
        assert(jobs_map(t) =~= jobs_map(s).insert(j.job_id@, job_view(j)));
    }
}

proof fn lemma_jobs_map_remove(s: Seq<SignJob>, k: int)
    requires
        jobs_wf(s),
        0 <= k < s.len(),
    ensures
        jobs_map(s.remove(k)) == jobs_map(s).remove(s[k].job_id@),
    decreases s.len(),
{
    let t = s.remove(k);
    let id = s[k].job_id@;
    if k == s.len() - 1 {
        assert(t =~= s.drop_last());
        assert forall|i: int| 0 <= i < t.len() implies (#[trigger] t[i]).job_id@ != id by {
            assert(t[i] == s[i]);
        }
        lemma_jobs_map_absent(t, id);
        assert(jobs_map(t) =~= jobs_map(s).remove(id));
    } else {
        assert(jobs_wf(s.drop_last()));
        assert(t.drop_last() =~= s.drop_last().remove(k));
        lemma_jobs_map_remove(s.drop_last(), k);
        assert(t.last() == s.last());
        assert(s.last().job_id@ != id);
        assert(jobs_map(t) =~= jobs_map(s).remove(id));
    }
}

/// Per-port state: configuration, the sign jobs being uploaded, and which
/// PKCS#11 module got loaded.
pub struct State {
    config: Config,
    sign_jobs: Vec<SignJob>,
    pkcs11_module_path: Option<String>,
}

impl State {
    /// The sign jobs being uploaded, by job id.
    pub closed spec fn jobs(self) -> Map<Seq<char>, JobView> {
        jobs_map(self.sign_jobs@)
    }

    /// The state's internal invariant.
    pub closed spec fn wf(self) -> bool {
        jobs_wf(self.sign_jobs@)
    }

    /// The PKCS#11 module recorded as loaded.
    pub closed spec fn spec_loaded_module(self) -> Option<String> {
        self.pkcs11_module_path
    }

    /// The configuration the state was made with.
    pub closed spec fn spec_config(self) -> Config {
        self.config
    }

    /// Every job of a well-formed state has one chunk slot per announced chunk.
    pub proof fn lemma_jobs_have_every_slot(self, job_id: Seq<char>)
        requires
            self.wf(),
            self.jobs().contains_key(job_id),
        ensures
            self.jobs()[job_id].chunks.len() == self.jobs()[job_id].total_chunks,
    {
        lemma_jobs_map_dom(self.sign_jobs@, job_id);
        let i = choose|i: int| 0 <= i < self.sign_jobs@.len() && (#[trigger] self.sign_jobs@[i]).job_id@ == job_id;
        lemma_jobs_map_lookup(self.sign_jobs@, i);
    }

    /// A fresh state with no sign jobs.
    pub fn new(config: Config) -> (s: Self)
        ensures
            s.wf(),
            s.jobs() == Map::<Seq<char>, JobView>::empty(),
            s.spec_config() == config,
            s.spec_loaded_module() is None,
    {
        State { config, sign_jobs: Vec::new(), pkcs11_module_path: None }
    }

    /// The configuration.
    pub fn config(&self) -> (c: &Config)
        ensures
            *c == self.spec_config(),
    {
        &self.config
    }

    /// The path of the PKCS#11 module that got loaded, if one was.
    pub fn loaded_pkcs11_module(&self) -> (r: Option<String>)
        ensures
            r == self.spec_loaded_module(),
    {
        self.pkcs11_module_path.clone()
    }

    /// Records the path of the PKCS#11 module that got loaded.
    pub fn record_loaded_pkcs11_module(&mut self, path: String)
        requires
            old(self).wf(),
        ensures
            final(self).wf(),
            final(self).jobs() == old(self).jobs(),
            final(self).spec_config() == old(self).spec_config(),
            final(self).spec_loaded_module() == Some(path),
    {
        self.pkcs11_module_path = Some(path);
    }

    fn find_job(&self, job_id: &String) -> (r: Option<usize>)
        requires
            self.wf(),
        ensures
            r matches Some(k) ==> k < self.sign_jobs@.len() && self.sign_jobs@[k as int].job_id@ == job_id@,
            r is None ==> !self.jobs().contains_key(job_id@),
    {
        let mut i: usize = 0;
        while i < self.sign_jobs.len()
            invariant
                i <= self.sign_jobs@.len(),
                forall|k: int| 0 <= k < i ==> (#[trigger] self.sign_jobs@[k]).job_id@ != job_id@,
            decreases self.sign_jobs@.len() - i,
        {
            if self.sign_jobs[i].job_id == *job_id {
                return Some(i);
            }
            i = i + 1;
        }
        proof {
            lemma_jobs_map_absent(self.sign_jobs@, job_id@);
        }
        None
    }
}

/// The job a valid `SIGN_PDF_START` registers: no chunk received yet.
pub open spec fn fresh_job(p: SignPdfStartPayload) -> JobView {
    JobView {
        total_chunks: p.total_chunks,
        chunks: Seq::new(p.total_chunks as nat, |_i: int| Seq::<char>::empty()),
        slot_id: p.slot_id,
        cert_id: match p.cert_id {
            Some(c) => Some(c@),
            None => None,
        },
    }
}

/// A `SIGN_PDF_START` payload names a job and announces at least one chunk.
pub open spec fn start_is_valid(p: SignPdfStartPayload) -> bool {
    p.job_id@.len() > 0 && p.total_chunks > 0
}

/// The base64 text of a job: its chunks concatenated in index order.
pub open spec fn assembled_text(job: JobView) -> Seq<char> {
    job.chunks.flatten()
}

/// What the host does next for a request.
#[derive(Debug)]
pub enum Dispatch {
    /// The responses are ready to be sent.
    Respond(Vec<HostResponse>),
    /// Probe for a token (PKCS#11, then USB) and answer with `ping_response`.
    ProbeTokenPresence { id: String },
    /// Enumerate USB devices and answer with `usb_tokens_response`.
    ListUsbTokens { id: String },
    /// List the PKCS#11 slots and answer with `list_slots_response`.
    ListSlots { id: String },
    /// List the certificates on `slot_id` and answer with `list_certs_response`.
    ListCerts { id: String, slot_id: u64 },
    /// Sign `pdf` with the job's signing context (see `SignFlow`) and answer with
    /// `signed_output_responses`.
    SignPdf { id: String, job_id: String, pdf: Vec<u8>, slot_id: Option<u64>, cert_id: Option<String> },
}

/// The dispatch is a single ready response.
pub open spec fn sole_response(d: Dispatch) -> Option<HostResponse> {
    match d {
        Dispatch::Respond(rs) => if rs@.len() == 1 {
            Some(rs@[0])
        } else {
            None
        },
        _ => None,
    }
}

/// The dispatch asks to sign `pdf` for request `id` with the job's slot and certificate.
pub open spec fn is_sign_dispatch(d: Dispatch, id: Seq<char>, job_id: Seq<char>, pdf: Seq<u8>, job: JobView) -> bool {
    match d {
        Dispatch::SignPdf { id: did, job_id: djob, pdf: dpdf, slot_id, cert_id } => {
            &&& did@ == id
            &&& djob@ == job_id
            &&& dpdf@ == pdf
            &&& slot_id == job.slot_id
            &&& match cert_id {
                Some(c) => job.cert_id == Some(c@),
                None => job.cert_id is None,
            }
        },
        _ => false,
    }
}

impl State {
    /// `SIGN_PDF_START`: registers the job (replacing one with the same id).
    pub fn handle_start(&mut self, id: String, payload: SignPdfStartPayload) -> (r: HostResponse)
        requires
            old(self).wf(),
        ensures
            final(self).wf(),
            final(self).spec_config() == old(self).spec_config(),
            final(self).spec_loaded_module() == old(self).spec_loaded_module(),
            !start_is_valid(payload) ==> is_failure(
                r,
                id@,
                error_code::INVALID_PAYLOAD@,
                "SIGN_PDF_START requires jobId and totalChunks > 0."@,
            ) && final(self).jobs() == old(self).jobs(),
            start_is_valid(payload) ==> is_success(r, id@, ResultBody::JobAccepted { job_id: payload.job_id })
                && final(self).jobs() == old(self).jobs().insert(payload.job_id@, fresh_job(payload)),
    {
        if payload.job_id.as_str().is_empty() || payload.total_chunks == 0 {
            return HostResponse::failure(
                id,
                error_code::INVALID_PAYLOAD,
                String::from_str("SIGN_PDF_START requires jobId and totalChunks > 0."),
            );
        }
        let mut chunks: Vec<String> = Vec::new();
        let total = payload.total_chunks as usize;
        let mut i: usize = 0;
        while i < total
            invariant
                i <= total,
                chunks@.len() == i,
                forall|k: int| 0 <= k < i ==> (#[trigger] chunks@[k])@ == Seq::<char>::empty(),
            decreases total - i,
        {
            chunks.push(String::new());
            i = i + 1;
        }
        let job_id = payload.job_id.clone();
        let job = SignJob {
            job_id: payload.job_id,
            total_chunks: payload.total_chunks,
            chunks,
            slot_id: payload.slot_id,
            cert_id: payload.cert_id,
        };
        proof {
            assert(job_view(job).chunks =~= fresh_job(payload).chunks);
            assert(job_view(job) == fresh_job(payload));
        }
        match self.find_job(&job_id) {
            Some(k) => {
                let ghost s = self.sign_jobs@;
                self.sign_jobs.set(k, job);
                proof {
                    lemma_jobs_map_update(s, k as int, job);
                    assert forall|a: int, b: int| 0 <= a < b < self.sign_jobs@.len() implies
                        (#[trigger] self.sign_jobs@[a]).job_id@ != (#[trigger] self.sign_jobs@[b]).job_id@ by {
                        assert(s[a].job_id@ != s[b].job_id@);
                    }
                }
            },
            None => {
                let ghost s = self.sign_jobs@;
                self.sign_jobs.push(job);
                proof {
                    assert(self.sign_jobs@.drop_last() =~= s);
                    assert forall|a: int, b: int| 0 <= a < b < self.sign_jobs@.len() implies
                        (#[trigger] self.sign_jobs@[a]).job_id@ != (#[trigger] self.sign_jobs@[b]).job_id@ by {
                        if b == s.len() {
                            if s[a].job_id@ == job_id@ {
                                lemma_jobs_map_lookup(s, a);
                            }
                        } else {
                            assert(s[a].job_id@ != s[b].job_id@);
                        }
                    }
                }
            },
        }
        HostResponse::success(id, ResultBody::JobAccepted { job_id })
    }

    /// `SIGN_PDF_CHUNK`: stores the chunk's base64 text at its index.
    pub fn handle_chunk(&mut self, id: String, payload: SignPdfChunkPayload) -> (r: HostResponse)
        requires
            old(self).wf(),
        ensures
            final(self).wf(),
            final(self).spec_config() == old(self).spec_config(),
            final(self).spec_loaded_module() == old(self).spec_loaded_module(),
            !old(self).jobs().contains_key(payload.job_id@) ==> is_failure(
                r,
                id@,
                error_code::UNKNOWN_JOB@,
                "SIGN_PDF_CHUNK received before SIGN_PDF_START."@,
            ) && final(self).jobs() == old(self).jobs(),
            old(self).jobs().contains_key(payload.job_id@) && payload.index >= old(self).jobs()[payload.job_id@].total_chunks
                ==> is_failure(r, id@, error_code::INVALID_CHUNK_INDEX@, "Chunk index is out of range."@)
                && final(self).jobs() == old(self).jobs(),
            old(self).jobs().contains_key(payload.job_id@) && payload.index < old(self).jobs()[payload.job_id@].total_chunks
                ==> is_success(r, id@, ResultBody::ChunkAccepted { job_id: payload.job_id, index: payload.index })
                && final(self).jobs() == old(self).jobs().insert(
                payload.job_id@,
                with_chunk(old(self).jobs()[payload.job_id@], payload.index, payload.chunk_base64@),
            ),
    {
        let k = match self.find_job(&payload.job_id) {
            Some(k) => k,
            None => {
                return HostResponse::failure(
                    id,
                    error_code::UNKNOWN_JOB,
                    String::from_str("SIGN_PDF_CHUNK received before SIGN_PDF_START."),
                );
            },
        };
        let ghost s = self.sign_jobs@;
        proof {
            lemma_jobs_map_lookup(s, k as int);
        }
        if payload.index >= self.sign_jobs[k].total_chunks {
            return HostResponse::failure(
                id,
                error_code::INVALID_CHUNK_INDEX,
                String::from_str("Chunk index is out of range."),
            );
        }
        let mut job = self.sign_jobs.remove(k);
        let ghost before = job;
        job.chunks.set(payload.index as usize, payload.chunk_base64);
        proof {
            assert(job_view(job).chunks =~= job_view(before).chunks.update(payload.index as int, payload.chunk_base64@));
        }
        self.sign_jobs.insert(k, job);
        proof {
            assert(self.sign_jobs@ =~= s.update(k as int, job));
            lemma_jobs_map_update(s, k as int, job);
            assert forall|a: int, b: int| 0 <= a < b < self.sign_jobs@.len() implies
                (#[trigger] self.sign_jobs@[a]).job_id@ != (#[trigger] self.sign_jobs@[b]).job_id@ by {
                assert(s[a].job_id@ != s[b].job_id@);
            }
            assert forall|a: int| 0 <= a < self.sign_jobs@.len() implies
                (#[trigger] self.sign_jobs@[a]).chunks@.len() == self.sign_jobs@[a].total_chunks by {
                assert(s[a].chunks@.len() == s[a].total_chunks);
            }
            assert(job_view(job) == (JobView {
                chunks: job_view(before).chunks.update(payload.index as int, payload.chunk_base64@),
                ..job_view(before)
            }));
        }
        HostResponse::success(id, ResultBody::ChunkAccepted { job_id: payload.job_id, index: payload.index })
    }

    /// `SIGN_PDF_END`: removes the job and decodes its assembled base64 text;
    /// the PDF then goes to signing.
    pub fn handle_end(&mut self, id: String, payload: SignPdfEndPayload) -> (d: Dispatch)
        requires
            old(self).wf(),
        ensures
            final(self).wf(),
            final(self).spec_config() == old(self).spec_config(),
            final(self).spec_loaded_module() == old(self).spec_loaded_module(),
            final(self).jobs() == old(self).jobs().remove(payload.job_id@),
            !old(self).jobs().contains_key(payload.job_id@) ==> (sole_response(d) matches Some(r)
                && is_failure(r, id@, error_code::UNKNOWN_JOB@, "SIGN_PDF_END received before SIGN_PDF_START."@)),
            old(self).jobs().contains_key(payload.job_id@) ==> (spec_base64_decode(assembled_text(old(self).jobs()[payload.job_id@])) matches Err(e)
                ==> (sole_response(d) matches Some(r) && is_decode_failure(r, id@, e))),
            old(self).jobs().contains_key(payload.job_id@) ==> (spec_base64_decode(assembled_text(old(self).jobs()[payload.job_id@])) matches Ok(pdf)
                ==> is_sign_dispatch(d, id@, payload.job_id@, pdf, old(self).jobs()[payload.job_id@])),
    {
        let k = match self.find_job(&payload.job_id) {
            Some(k) => k,
            None => {
                proof {
                    assert(old(self).jobs().remove(payload.job_id@) =~= old(self).jobs());
                }
                let mut rs: Vec<HostResponse> = Vec::new();
                rs.push(HostResponse::failure(
                    id,
                    error_code::UNKNOWN_JOB,
                    String::from_str("SIGN_PDF_END received before SIGN_PDF_START."),
                ));
                return Dispatch::Respond(rs);
            },
        };
        let ghost s = self.sign_jobs@;
        proof {
            lemma_jobs_map_lookup(s, k as int);
            lemma_jobs_map_remove(s, k as int);
        }
        let job = self.sign_jobs.remove(k);
        proof {
            assert forall|a: int, b: int| 0 <= a < b < self.sign_jobs@.len() implies
                (#[trigger] self.sign_jobs@[a]).job_id@ != (#[trigger] self.sign_jobs@[b]).job_id@ by {
                let a0 = if a < k { a } else { a + 1 };
                let b0 = if b < k { b } else { b + 1 };
                assert(self.sign_jobs@[a] == s[a0]);
                assert(self.sign_jobs@[b] == s[b0]);
                assert(s[a0].job_id@ != s[b0].job_id@);
            }
            assert forall|a: int| 0 <= a < self.sign_jobs@.len() implies
                (#[trigger] self.sign_jobs@[a]).chunks@.len() == self.sign_jobs@[a].total_chunks by {
                let a0 = if a < k { a } else { a + 1 };
                assert(self.sign_jobs@[a] == s[a0]);
            }
        }
        let ghost chunks_view = job_view(job).chunks;
        let mut assembled = String::new();
        let mut i: usize = 0;
        while i < job.chunks.len()
            invariant
                i <= job.chunks@.len(),
                chunks_view == job.chunks@.map_values(|c: String| c@),
                assembled@ == chunks_view.take(i as int).flatten(),
            decreases job.chunks@.len() - i,
        {
            push_str(&mut assembled, job.chunks[i].as_str());
            proof {
                assert(chunks_view.take(i + 1) =~= chunks_view.take(i as int).push(chunks_view[i as int]));
                chunks_view.take(i as int).lemma_flatten_push(chunks_view[i as int]);
            }
            i = i + 1;
        }
        proof {
            assert(chunks_view.take(i as int) =~= chunks_view);
        }
        match base64_decode(assembled.as_str()) {
            Err(e) => {
                let mut message = String::new();
                push_str(&mut message, "base64 decode failed: ");
                push_str(&mut message, e.as_str());
                let mut rs: Vec<HostResponse> = Vec::new();
                rs.push(HostResponse::failure(id, error_code::INVALID_PAYLOAD, message));
                Dispatch::Respond(rs)
            },
            Ok(pdf) => Dispatch::SignPdf {
                id,
                job_id: payload.job_id,
                pdf,
                slot_id: job.slot_id,
                cert_id: job.cert_id,
            },
        }
    }
}

/// `r` reports that the assembled base64 did not decode: `INVALID_PAYLOAD`,
/// with the decoder's message `e` after `base64 decode failed: `.
pub open spec fn is_decode_failure(r: HostResponse, id: Seq<char>, e: Seq<char>) -> bool {
    is_failure(r, id, error_code::INVALID_PAYLOAD@, "base64 decode failed: "@ + e)
}

/// The job after chunk `index` is received with base64 text `text`.
pub open spec fn with_chunk(job: JobView, index: u32, text: Seq<char>) -> JobView {
    JobView { chunks: job.chunks.update(index as int, text), ..job }
}

/// The ready single response `d`, addressed to `id`, fails with `code` and `message`.
pub open spec fn fails_with(d: Dispatch, id: Seq<char>, code: Seq<char>, message: Seq<char>) -> bool {
    sole_response(d) matches Some(r) && is_failure(r, id, code, message)
}

/// How `handle` answers `req` (request id `id`), taking the sign jobs from
/// `before` to `after`.
pub open spec fn handles_request(
    before: Map<Seq<char>, JobView>,
    after: Map<Seq<char>, JobView>,
    id: String,
    req: Request,
    d: Dispatch,
) -> bool {
    match req {
        Request::Ping => d == Dispatch::ProbeTokenPresence { id } && after == before,
        Request::ListUsbTokens => d == Dispatch::ListUsbTokens { id } && after == before,
        Request::ListSlots => d == Dispatch::ListSlots { id } && after == before,
        Request::ListCerts { slot_id } => after == before && match slot_id {
            Some(s) => d == Dispatch::ListCerts { id, slot_id: s },
            None => fails_with(d, id@, error_code::INVALID_PAYLOAD@, "LIST_CERTS requires payload.slotId"@),
        },
        Request::SignPdfStart(Err(m)) => fails_with(d, id@, error_code::INVALID_PAYLOAD@, m@) && after == before,
        Request::SignPdfChunk(Err(m)) => fails_with(d, id@, error_code::INVALID_PAYLOAD@, m@) && after == before,
        Request::SignPdfEnd(Err(m)) => fails_with(d, id@, error_code::INVALID_PAYLOAD@, m@) && after == before,
        Request::SignPdfStart(Ok(p)) => if start_is_valid(p) {
            (sole_response(d) matches Some(r) && is_success(r, id@, ResultBody::JobAccepted { job_id: p.job_id }))
                && after == before.insert(p.job_id@, fresh_job(p))
        } else {
            fails_with(d, id@, error_code::INVALID_PAYLOAD@, "SIGN_PDF_START requires jobId and totalChunks > 0."@)
                && after == before
        },
        Request::SignPdfChunk(Ok(p)) => if !before.contains_key(p.job_id@) {
            fails_with(d, id@, error_code::UNKNOWN_JOB@, "SIGN_PDF_CHUNK received before SIGN_PDF_START."@)
                && after == before
        } else if p.index >= before[p.job_id@].total_chunks {
            fails_with(d, id@, error_code::INVALID_CHUNK_INDEX@, "Chunk index is out of range."@) && after == before
        } else {
            (sole_response(d) matches Some(r) && is_success(
                r,
                id@,
                ResultBody::ChunkAccepted { job_id: p.job_id, index: p.index },
            )) && after == before.insert(p.job_id@, with_chunk(before[p.job_id@], p.index, p.chunk_base64@))
        },
        Request::SignPdfEnd(Ok(p)) => after == before.remove(p.job_id@) && if !before.contains_key(p.job_id@) {
            fails_with(d, id@, error_code::UNKNOWN_JOB@, "SIGN_PDF_END received before SIGN_PDF_START."@)
        } else {
            match spec_base64_decode(assembled_text(before[p.job_id@])) {
                Err(e) => sole_response(d) matches Some(r) && is_decode_failure(r, id@, e),
                Ok(pdf) => is_sign_dispatch(d, id@, p.job_id@, pdf, before[p.job_id@]),
            }
        },
    }
}

/// The request id a dispatch that does work carries, to address its answer.
pub open spec fn dispatch_id(d: Dispatch) -> Seq<char> {
    match d {
        Dispatch::Respond(_) => Seq::empty(),
        Dispatch::ProbeTokenPresence { id } => id@,
        Dispatch::ListUsbTokens { id } => id@,
        Dispatch::ListSlots { id } => id@,
        Dispatch::ListCerts { id, .. } => id@,
        Dispatch::SignPdf { id, .. } => id@,
    }
}

/// Every request is answered with envelopes for its id: a ready answer is one
/// envelope, and work to do carries the id its answer goes to; only
/// `SIGN_PDF_END` leads to work that may answer with several responses.
pub proof fn lemma_handled_requests_answer_with_envelopes(
    before: Map<Seq<char>, JobView>,
    after: Map<Seq<char>, JobView>,
    id: String,
    req: Request,
    d: Dispatch,
)
    requires
        handles_request(before, after, id, req, d),
    ensures
        d matches Dispatch::Respond(rs) ==> rs@.len() == 1 && is_envelope(rs@[0], id@),
        !(d is Respond) ==> dispatch_id(d) == id@,
        d is SignPdf ==> req is SignPdfEnd,
{
    if let Dispatch::Respond(rs) = d {
        lemma_responses_are_envelopes(rs@[0], id@);
        if let Request::SignPdfStart(Ok(p)) = req {
            if start_is_valid(p) {
                assert(is_success(rs@[0], id@, ResultBody::JobAccepted { job_id: p.job_id }));
            }
        }
        if let Request::SignPdfChunk(Ok(p)) = req {
            if before.contains_key(p.job_id@) && p.index < before[p.job_id@].total_chunks {
                assert(is_success(rs@[0], id@, ResultBody::ChunkAccepted { job_id: p.job_id, index: p.index }));
            }
        }
        if let Request::SignPdfEnd(Ok(p)) = req {
            if before.contains_key(p.job_id@) && spec_base64_decode(assembled_text(before[p.job_id@])) is Err {
                let e = spec_base64_decode(assembled_text(before[p.job_id@]))->Err_0;
                assert(is_failure(rs@[0], id@, error_code::INVALID_PAYLOAD@, "base64 decode failed: "@ + e));
            }
        }
    }
}

/// The signed output is streamed in envelopes for the request.
pub proof fn lemma_streamed_responses_are_envelopes(rs: Seq<HostResponse>, id: Seq<char>, job_id: Seq<char>, text: Seq<char>)
    requires
        streams_text(rs, id, job_id, text),
    ensures
        rs.len() >= 2,
        forall|i: int| 0 <= i < rs.len() ==> #[trigger] is_envelope(rs[i], id),
{
    assert forall|i: int| 0 <= i < rs.len() implies #[trigger] is_envelope(rs[i], id) by {
        if i < rs.len() - 1 {
            assert(is_signed_chunk(rs[i], id, job_id, i, rs.len() - 1));
        }
    }
}

/// Dispatches one request: answers it at once from the sign-job state, or says
/// which token or USB work to do before answering.
pub fn handle(state: &mut State, env: HostEnvelope) -> (d: Dispatch)
    requires
        old(state).wf(),
    ensures
        final(state).wf(),
        final(state).spec_config() == old(state).spec_config(),
        final(state).spec_loaded_module() == old(state).spec_loaded_module(),
        handles_request(old(state).jobs(), final(state).jobs(), env.id, env.request, d),
{
    let id = env.id;
    match env.request {
        Request::Ping => Dispatch::ProbeTokenPresence { id },
        Request::ListUsbTokens => Dispatch::ListUsbTokens { id },
        Request::ListSlots => Dispatch::ListSlots { id },
        Request::ListCerts { slot_id } => match slot_id {
            Some(s) => Dispatch::ListCerts { id, slot_id: s },
            None => one_response(
                HostResponse::failure(id, error_code::INVALID_PAYLOAD, String::from_str("LIST_CERTS requires payload.slotId")),
            ),
        },
        Request::SignPdfStart(Ok(p)) => one_response(state.handle_start(id, p)),
        Request::SignPdfStart(Err(m)) => one_response(HostResponse::failure(id, error_code::INVALID_PAYLOAD, m)),
        Request::SignPdfChunk(Ok(p)) => one_response(state.handle_chunk(id, p)),
        Request::SignPdfChunk(Err(m)) => one_response(HostResponse::failure(id, error_code::INVALID_PAYLOAD, m)),
        Request::SignPdfEnd(Ok(p)) => state.handle_end(id, p),
        Request::SignPdfEnd(Err(m)) => one_response(HostResponse::failure(id, error_code::INVALID_PAYLOAD, m)),
    }
}

fn one_response(r: HostResponse) -> (d: Dispatch)
    ensures
        sole_response(d) == Some(r),
{
    let mut rs: Vec<HostResponse> = Vec::new();
    rs.push(r);
    Dispatch::Respond(rs)
}

/// `PING`: host and protocol versions, and whether a token looks present.
pub fn ping_response(id: String, host_version: String, token_present: bool) -> (rs: Vec<HostResponse>)
    ensures
        rs@.len() == 1,
        is_success(
            rs@[0],
            id@,
            ResultBody::Ping { host_version, token_present, protocol_version: PROTOCOL_VERSION },
        ),
{
    let mut rs: Vec<HostResponse> = Vec::new();
    rs.push(HostResponse::success(
        id,
        ResultBody::Ping { host_version, token_present, protocol_version: PROTOCOL_VERSION },
    ));
    rs
}

/// `LIST_USB_TOKENS`: the tokens found, or `USB_ENUM_FAILED` with the
/// enumeration error.
pub fn usb_tokens_response(id: String, tokens: Result<Vec<UsbTokenInfo>, String>) -> (rs: Vec<HostResponse>)
    ensures
        rs@.len() == 1,
        tokens matches Ok(t) ==> is_success(rs@[0], id@, ResultBody::UsbTokens { tokens: t }),
        tokens matches Err(m) ==> is_failure(rs@[0], id@, error_code::USB_ENUM_FAILED@, m@),
{
    let r = match tokens {
        Ok(t) => HostResponse::success(id, ResultBody::UsbTokens { tokens: t }),
        Err(m) => HostResponse::failure(id, error_code::USB_ENUM_FAILED, m),
    };
    let mut rs: Vec<HostResponse> = Vec::new();
    rs.push(r);
    rs
}

/// Marker that a PKCS#11 load failure message starts with when the module
/// did not finish initialising in time.
pub const PKCS11_INIT_TIMEOUT_MARKER: &'static str = "PKCS11_INIT_TIMEOUT";

/// The UTF-8 bytes of `PKCS11_INIT_TIMEOUT`.
pub open spec fn timeout_marker_bytes() -> Seq<u8> {
    seq![0x50u8, 0x4Bu8, 0x43u8, 0x53u8, 0x31u8, 0x31u8, 0x5Fu8, 0x49u8, 0x4Eu8, 0x49u8, 0x54u8, 0x5Fu8, 0x54u8, 0x49u8, 0x4Du8, 0x45u8, 0x4Fu8, 0x55u8, 0x54u8]
}

/// The error code for a failed PKCS#11 load with message `message`:
/// `PKCS11_INIT_TIMEOUT` when the message carries the timeout marker, else
/// `PKCS11_INIT_FAILED`.
pub open spec fn load_error_code(message: Seq<char>) -> &'static str {
    if find_seq(encode_utf8(message), timeout_marker_bytes(), 0) is Some {
        error_code::PKCS11_INIT_TIMEOUT
    } else {
        error_code::PKCS11_INIT_FAILED
    }
}

/// The error code for a failed PKCS#11 load.
pub fn pkcs11_load_error_code(message: &str) -> (code: &'static str)
    ensures
        code == load_error_code(message@),
{
    let marker = vec![0x50u8, 0x4Bu8, 0x43u8, 0x53u8, 0x31u8, 0x31u8, 0x5Fu8, 0x49u8, 0x4Eu8, 0x49u8, 0x54u8, 0x5Fu8, 0x54u8, 0x49u8, 0x4Du8, 0x45u8, 0x4Fu8, 0x55u8, 0x54u8];
    assert(marker@ =~= timeout_marker_bytes());
    if crate::pdf::find_subsequence(message.as_bytes(), marker.as_slice()).is_some() {
        error_code::PKCS11_INIT_TIMEOUT
    } else {
        error_code::PKCS11_INIT_FAILED
    }
}

/// `LIST_SLOTS`: the slots, the loaded module and a USB hint; on failure the
/// load error code and message. The USB probe runs only on success.
pub fn list_slots_response<U>(
    id: String,
    slots: Result<Vec<SlotInfo>, String>,
    pkcs11_module: Option<String>,
    usb_probe: U,
) -> (rs: Vec<HostResponse>) where U: FnOnce() -> bool
    requires
        call_requires(usb_probe, ()),
    ensures
        rs@.len() == 1,
        slots matches Ok(sl) ==> exists|hint: bool|
            #[trigger] call_ensures(usb_probe, (), hint) && is_success(
                rs@[0],
                id@,
                ResultBody::Slots { slots: sl, pkcs11_module, usb_token_likely_present: hint },
            ),
        slots matches Err(m) ==> is_failure(rs@[0], id@, load_error_code(m@)@, m@),
{
    let r = match slots {
        Ok(sl) => {
            let hint = usb_probe();
            HostResponse::success(id, ResultBody::Slots { slots: sl, pkcs11_module, usb_token_likely_present: hint })
        },
        Err(m) => {
            let code = pkcs11_load_error_code(m.as_str());
            HostResponse::failure(id, code, m)
        },
    };
    let mut rs: Vec<HostResponse> = Vec::new();
    rs.push(r);
    rs
}


/// `LIST_CERTS`: the certificates on the slot, or `CERT_NOT_FOUND` with the
/// token's error message.
pub fn list_certs_response(id: String, certs: Result<Vec<CertInfo>, String>) -> (rs: Vec<HostResponse>)
    ensures
        rs@.len() == 1,
        certs matches Ok(c) ==> is_success(rs@[0], id@, ResultBody::Certs { certs: c }),
        certs matches Err(m) ==> is_failure(rs@[0], id@, error_code::CERT_NOT_FOUND@, m@),
{
    let r = match certs {
        Ok(c) => HostResponse::success(id, ResultBody::Certs { certs: c }),
        Err(m) => HostResponse::failure(id, error_code::CERT_NOT_FOUND, m),
    };
    let mut rs: Vec<HostResponse> = Vec::new();
    rs.push(r);
    rs
}

/// Why signing a PDF failed.
#[derive(Debug)]
pub enum SignError {
    /// The user dismissed the PIN prompt.
    Cancelled,
    /// Any other failure: the error code reported to the extension and its message.
    Other(&'static str, String),
}

/// The text chunk that a signed-output chunk response carries.
pub open spec fn chunk_text(r: HostResponse) -> Seq<char> {
    match r.result {
        Some(ResultBody::SignedChunk { chunk, .. }) => chunk@,
        _ => Seq::empty(),
    }
}

/// `r` is chunk `index` of `total` of the signed output of job `job_id`, for request `id`.
pub open spec fn is_signed_chunk(r: HostResponse, id: Seq<char>, job_id: Seq<char>, index: int, total: int) -> bool {
    &&& r.v == PROTOCOL_VERSION
    &&& r.id@ == id
    &&& r.ok
    &&& r.error is None
    &&& r.result matches Some(ResultBody::SignedChunk { job_id: j, chunk: _, index: i, total_chunks: t })
        && j@ == job_id && i == index && t == total
}

/// `r` is the final marker of the signed output of job `job_id`, for request `id`.
pub open spec fn is_signed_final(r: HostResponse, id: Seq<char>, job_id: Seq<char>) -> bool {
    &&& r.v == PROTOCOL_VERSION
    &&& r.id@ == id
    &&& r.ok
    &&& r.error is None
    &&& r.result matches Some(ResultBody::SignedFinal { job_id: j }) && j@ == job_id
}

/// `rs` streams `text` for job `job_id`: numbered chunk responses whose texts
/// split `text` into runs of `MAX_CHUNK_BYTES` bytes, then the final marker.
pub open spec fn streams_text(rs: Seq<HostResponse>, id: Seq<char>, job_id: Seq<char>, text: Seq<char>) -> bool {
    let n = rs.len() - 1;
    &&& rs.len() >= 2
    &&& forall|i: int| 0 <= i < n ==> #[trigger] is_signed_chunk(rs[i], id, job_id, i, n)
    &&& is_signed_final(rs[n], id, job_id)
    &&& is_byte_chunking(
        encode_utf8(text),
        MAX_CHUNK_BYTES as nat,
        rs.take(n).map_values(|r: HostResponse| encode_utf8(chunk_text(r))),
    )
}

/// Every byte offset of the UTF-8 encoding of base64 text is a character boundary.
proof fn lemma_base64_boundaries(text: Seq<char>, size: nat)
    requires
        forall|i: int| 0 <= i < text.len() ==> is_base64_char(#[trigger] text[i]),
    ensures
        splits_on_char_boundaries(encode_utf8(text), size),
{
    broadcast use vstd::utf8::is_char_boundary_iff_not_is_continuation_byte;
    broadcast use vstd::utf8::encode_utf8_valid_utf8;
    assert(vstd::utf8::is_ascii_chars(text));
    vstd::utf8::is_ascii_chars_encode_utf8(text);
    let bytes = encode_utf8(text);
    assert forall|j: int| 0 < j < bytes.len() && j % (size as int) == 0 implies #[trigger] is_char_boundary(bytes, j) by {
        let b: u8 = bytes[j];
        let c: u32 = text[j] as u32;
        assert(text[j] as u8 == b);
        assert(c < 128);
        assert(b == c as u8);
        assert(!vstd::utf8::is_continuation_byte(b)) by (bit_vector)
            requires
                b == c as u8,
                c < 128,
        ;
    }
}

/// The responses to `SIGN_PDF_END` once signing has finished: the signed PDF,
/// base64-encoded and streamed in chunks of `MAX_CHUNK_BYTES` followed by a final
/// marker; or the failure.
pub fn signed_output_responses(id: String, job_id: String, outcome: Result<Vec<u8>, SignError>) -> (rs: Vec<HostResponse>)
    requires
        outcome matches Ok(pdf) ==> 4 * ((pdf@.len() + 2) / 3) <= usize::MAX,
    ensures
        outcome matches Err(SignError::Cancelled) ==> rs@.len() == 1 && is_failure(
            rs@[0],
            id@,
            error_code::PIN_CANCELLED@,
            "User cancelled the PIN prompt."@,
        ),
        outcome matches Err(SignError::Other(code, message)) ==> rs@.len() == 1 && is_failure(
            rs@[0],
            id@,
            code@,
            message@,
        ),
        outcome matches Ok(pdf) ==> streams_text(rs@, id@, job_id@, spec_base64_encode(pdf@)),
        outcome matches Ok(pdf) ==> spec_base64_decode(streamed_chunks(rs@).flatten()) == Ok::<Seq<u8>, Seq<char>>(pdf@),
{
    match outcome {
        Err(SignError::Cancelled) => {
            let mut rs: Vec<HostResponse> = Vec::new();
            rs.push(HostResponse::failure(
                id,
                error_code::PIN_CANCELLED,
                String::from_str("User cancelled the PIN prompt."),
            ));
            rs
        },
        Err(SignError::Other(code, message)) => {
            let mut rs: Vec<HostResponse> = Vec::new();
            rs.push(HostResponse::failure(id, code, message));
            rs
        },
        Ok(pdf) => {
            let text = base64_encode(pdf.as_slice());
            proof {
                lemma_base64_boundaries(text@, MAX_CHUNK_BYTES as nat);
            }
            let chunks = chunk_string(text.as_str(), MAX_CHUNK_BYTES);
            let total = chunks.len();
            let mut rs: Vec<HostResponse> = Vec::new();
            let mut i: usize = 0;
            while i < total
                invariant
                    total == chunks@.len(),
                    i <= total,
                    rs@.len() == i,
                    forall|k: int| 0 <= k < i ==> #[trigger] is_signed_chunk(rs@[k], id@, job_id@, k, total as int),
                    forall|k: int| 0 <= k < i ==> chunk_text(#[trigger] rs@[k]) == chunks@[k]@,
                decreases total - i,
            {
                let r = HostResponse::success(
                    id.clone(),
                    ResultBody::SignedChunk { job_id: job_id.clone(), chunk: chunks[i].clone(), index: i, total_chunks: total },
                );
                rs.push(r);
                i = i + 1;
            }
            rs.push(HostResponse::success(id, ResultBody::SignedFinal { job_id }));
            proof {
                let n = total as int;
                assert(rs@.take(n).map_values(|r: HostResponse| encode_utf8(chunk_text(r))) =~= piece_bytes(chunks@));
                assert forall|k: int| 0 <= k < n implies #[trigger] is_signed_chunk(rs@[k], id@, job_id@, k, n) by {
                    assert(rs@[k] == rs@.take(n)[k]);
                }
                lemma_streamed_chunks_rejoin(rs@, id@, job_id@, text@);
            }
            rs
        },
    }
}

/// UTF-8 encoding distributes over concatenation.
proof fn lemma_encode_utf8_concat(a: Seq<char>, b: Seq<char>)
    ensures
        encode_utf8(a + b) == encode_utf8(a) + encode_utf8(b),
    decreases a.len(),
{
    if a.len() == 0 {
        assert(a + b =~= b);
    } else {
        assert((a + b).drop_first() =~= a.drop_first() + b);
        assert((a + b)[0] == a[0]);
        lemma_encode_utf8_concat(a.drop_first(), b);
    }
}

/// UTF-8 encoding distributes over joining a sequence of texts.
proof fn lemma_encode_utf8_flatten(p: Seq<Seq<char>>)
    ensures
        encode_utf8(p.flatten()) == p.map_values(|t: Seq<char>| encode_utf8(t)).flatten(),
    decreases p.len(),
{
    let q = p.map_values(|t: Seq<char>| encode_utf8(t));
    if p.len() == 0 {
        assert(q.len() == 0);
    } else {
        lemma_encode_utf8_flatten(p.drop_first());
        lemma_encode_utf8_concat(p.first(), p.drop_first().flatten());
        assert(q.drop_first() =~= p.drop_first().map_values(|t: Seq<char>| encode_utf8(t)));
        assert(q.first() == encode_utf8(p.first()));
    }
}

/// The chunk texts of the first `rs.len() - 1` responses, in order.
pub open spec fn streamed_chunks(rs: Seq<HostResponse>) -> Seq<Seq<char>> {
    rs.take(rs.len() - 1).map_values(|r: HostResponse| chunk_text(r))
}

/// Joining the chunk texts of a streamed output, in order, gives back exactly
/// the streamed text: the extension reassembles the base64 of the signed PDF.
pub proof fn lemma_streamed_chunks_rejoin(rs: Seq<HostResponse>, id: Seq<char>, job_id: Seq<char>, text: Seq<char>)
    requires
        streams_text(rs, id, job_id, text),
    ensures
        streamed_chunks(rs).flatten() == text,
{
    broadcast use vstd::utf8::encode_utf8_decode_utf8;
    let n = rs.len() - 1;
    let p = streamed_chunks(rs);
    let b = rs.take(n).map_values(|r: HostResponse| encode_utf8(chunk_text(r)));
    assert(p.map_values(|t: Seq<char>| encode_utf8(t)) =~= b);
    lemma_encode_utf8_flatten(p);
    if text.len() == 0 {
        b.lemma_flatten_one_element();
        assert(b.flatten() =~= encode_utf8(text));
    }
    assert(encode_utf8(p.flatten()) == encode_utf8(text));
    assert(decode_utf8(encode_utf8(p.flatten())) == decode_utf8(encode_utf8(text)));
}


/// `value` itself when it has at most `head + tail` characters, else its first
/// `head` and last `tail` characters around `...`.
pub open spec fn spec_head_tail(value: Seq<char>, head: nat, tail: nat) -> Seq<char> {
    if value.len() <= head + tail {
        value
    } else {
        value.take(head as int) + "..."@ + value.skip(value.len() - tail)
    }
}

/// A short preview of an identifier: its first `head` and last `tail` characters.
pub fn preview_head_tail(value: &str, head: usize, tail: usize) -> (r: String)
    ensures
        r@ == spec_head_tail(value@, head as nat, tail as nat),
{
    let n = value.unicode_len();
    if n <= head || n - head <= tail {
        return value.to_owned();
    }
    let prefix = value.substring_char(0, head);
    let suffix = value.substring_char(n - tail, n);
    let mut r = prefix.to_owned();
    push_str(&mut r, "...");
    push_str(&mut r, suffix);
    proof {
        assert(prefix@ =~= value@.take(head as int));
        assert(suffix@ =~= value@.skip(n - tail));
    }
    r
}

/// The answer to a frame longer than the cap: `MSG_TOO_LARGE`, addressed to
/// `unknown` since the request was not read.
pub fn oversized_frame_response(limit: usize, actual: usize) -> (r: HostResponse)
    ensures
        is_failure(
            r,
            "unknown"@,
            error_code::MSG_TOO_LARGE@,
            "Message exceeded "@ + dec(limit as nat) + " byte cap (got "@ + dec(actual as nat) + ")."@,
        ),
{
    let mut m = String::from_str("Message exceeded ");
    push_decimal(&mut m, limit);
    push_str(&mut m, " byte cap (got ");
    push_decimal(&mut m, actual);
    push_str(&mut m, ").");
    HostResponse::failure(String::from_str("unknown"), error_code::MSG_TOO_LARGE, m)
}

/// What the message loop does with one frame read from the extension.
#[derive(Debug)]
pub enum FrameStep {
    /// Handle the body as a request.
    Request(Vec<u8>),
    /// Send this answer and read on.
    Reply(HostResponse),
    /// The port was closed: stop.
    Stop,
    /// The stream failed: stop with this error.
    Fail(FrameError),
}

/// The loop's decision on what reading a frame gave: a body is handled, a
/// clean end stops, an oversized frame is answered with `MSG_TOO_LARGE` and
/// reading goes on, and any other read error stops the host.
pub fn frame_step(read: Result<Option<Vec<u8>>, FrameError>) -> (s: FrameStep)
    ensures
        read matches Ok(Some(b)) ==> s == FrameStep::Request(b),
        read matches Ok(None) ==> s is Stop,
        read matches Err(FrameError::TooLarge { limit, actual }) ==> (s matches FrameStep::Reply(r) && is_failure(
            r,
            "unknown"@,
            error_code::MSG_TOO_LARGE@,
            "Message exceeded "@ + dec(limit as nat) + " byte cap (got "@ + dec(actual as nat) + ")."@,
        )),
        read matches Err(FrameError::Io(m)) ==> s == FrameStep::Fail(FrameError::Io(m)),
        read matches Err(FrameError::UnexpectedEof) ==> s == FrameStep::Fail(FrameError::UnexpectedEof),
{
    match read {
        Ok(Some(b)) => FrameStep::Request(b),
        Ok(None) => FrameStep::Stop,
        Err(FrameError::TooLarge { limit, actual }) => FrameStep::Reply(oversized_frame_response(limit, actual)),
        Err(e) => FrameStep::Fail(e),
    }
}

/// The answer to a frame that is not a JSON envelope: `INVALID_JSON` with the
/// parser's message, addressed to `unknown`.
pub fn invalid_json_response(parse_error: &str) -> (r: HostResponse)
    ensures
        is_failure(r, "unknown"@, error_code::INVALID_JSON@, "Could not parse incoming JSON envelope: "@ + parse_error@),
{
    let mut m = String::from_str("Could not parse incoming JSON envelope: ");
    push_str(&mut m, parse_error);
    HostResponse::failure(String::from_str("unknown"), error_code::INVALID_JSON, m)
}

/// A chunk for a job that was never started is refused with `UNKNOWN_JOB`, and
/// the jobs are left as they were.
pub proof fn lemma_chunk_without_start_fails(
    before: Map<Seq<char>, JobView>,
    after: Map<Seq<char>, JobView>,
    id: String,
    p: SignPdfChunkPayload,
    d: Dispatch,
)
    requires
        !before.contains_key(p.job_id@),
        handles_request(before, after, id, Request::SignPdfChunk(Ok(p)), d),
    ensures
        fails_with(d, id@, error_code::UNKNOWN_JOB@, "SIGN_PDF_CHUNK received before SIGN_PDF_START."@),
        after == before,
{
}

/// A valid `SIGN_PDF_START` registers the job with every chunk still empty,
/// replacing any job of the same id and leaving the others alone.
pub proof fn lemma_start_registers_job(
    before: Map<Seq<char>, JobView>,
    after: Map<Seq<char>, JobView>,
    id: String,
    p: SignPdfStartPayload,
    d: Dispatch,
)
    requires
        start_is_valid(p),
        handles_request(before, after, id, Request::SignPdfStart(Ok(p)), d),
    ensures
        after.contains_key(p.job_id@),
        after[p.job_id@].chunks.len() == p.total_chunks,
        assembled_text(after[p.job_id@]) == Seq::<char>::empty(),
        forall|k: Seq<char>| k != p.job_id@ ==> (#[trigger] after.contains_key(k) <==> before.contains_key(k)),
        forall|k: Seq<char>| k != p.job_id@ && before.contains_key(k) ==> #[trigger] after[k] == before[k],
{
    let c = after[p.job_id@].chunks;
    lemma_flatten_all_empty(c);
}

proof fn lemma_flatten_all_empty(c: Seq<Seq<char>>)
    requires
        forall|i: int| 0 <= i < c.len() ==> (#[trigger] c[i]).len() == 0,
    ensures
        c.flatten() == Seq::<char>::empty(),
    decreases c.len(),
{
    if c.len() > 0 {
        assert forall|i: int| 0 <= i < c.drop_first().len() implies (#[trigger] c.drop_first()[i]).len() == 0 by {
            assert(c.drop_first()[i] == c[i + 1]);
        }
        lemma_flatten_all_empty(c.drop_first());
        assert(c.first() =~= Seq::<char>::empty());
    }
}

/// Chunks may arrive in any order and be sent again: an accepted chunk sets the
/// text at its index, every other index and every other job stays as it was.
pub proof fn lemma_chunk_sets_its_index(
    before: Map<Seq<char>, JobView>,
    after: Map<Seq<char>, JobView>,
    id: String,
    p: SignPdfChunkPayload,
    d: Dispatch,
)
    requires
        before.contains_key(p.job_id@),
        p.index < before[p.job_id@].total_chunks,
        before[p.job_id@].chunks.len() == before[p.job_id@].total_chunks,
        handles_request(before, after, id, Request::SignPdfChunk(Ok(p)), d),
    ensures
        after[p.job_id@].chunks[p.index as int] == p.chunk_base64@,
        forall|i: int| 0 <= i < before[p.job_id@].chunks.len() && i != p.index ==> #[trigger] after[p.job_id@].chunks[i]
            == before[p.job_id@].chunks[i],
        after[p.job_id@].chunks.len() == before[p.job_id@].chunks.len(),
        forall|k: Seq<char>| k != p.job_id@ ==> (#[trigger] after.contains_key(k) <==> before.contains_key(k)),
        forall|k: Seq<char>| k != p.job_id@ && before.contains_key(k) ==> #[trigger] after[k] == before[k],
{
}

/// `SIGN_PDF_END` consumes the job: it decodes the chunks joined in index order
/// and hands that PDF to signing with the job's slot and certificate, and a
/// second `SIGN_PDF_END` for the same job is refused with `UNKNOWN_JOB`.
pub proof fn lemma_end_consumes_job(
    before: Map<Seq<char>, JobView>,
    mid: Map<Seq<char>, JobView>,
    after: Map<Seq<char>, JobView>,
    id1: String,
    id2: String,
    p: SignPdfEndPayload,
    q: SignPdfEndPayload,
    d1: Dispatch,
    d2: Dispatch,
)
    requires
        before.contains_key(p.job_id@),
        q.job_id@ == p.job_id@,
        handles_request(before, mid, id1, Request::SignPdfEnd(Ok(p)), d1),
        handles_request(mid, after, id2, Request::SignPdfEnd(Ok(q)), d2),
    ensures
        !mid.contains_key(p.job_id@),
        spec_base64_decode(assembled_text(before[p.job_id@])) matches Ok(pdf) ==> is_sign_dispatch(
            d1,
            id1@,
            p.job_id@,
            pdf,
            before[p.job_id@],
        ),
        fails_with(d2, id2@, error_code::UNKNOWN_JOB@, "SIGN_PDF_END received before SIGN_PDF_START."@),
        after == mid,
{
    assert(mid.remove(q.job_id@) =~= mid);
}

/// The PKCS#11 module to load: the configured one, else the first well-known
/// vendor module found on this system.
pub fn resolve_pkcs11_module(cfg: &Config, os: HostOs) -> (r: Result<String, String>)
    ensures
        cfg.pkcs11_module matches Some(m) ==> r == Ok::<String, String>(m),
        cfg.pkcs11_module is None ==> (r matches Ok(p) ==> exists|i: int|
            0 <= i < spec_module_candidates(os).len() && (#[trigger] spec_module_candidates(os)[i])@ == p@),
        r matches Err(m) ==> m@ == "no PKCS#11 module configured and no vendor default detected"@,
{
    if let Some(m) = &cfg.pkcs11_module {
        return Ok(m.clone());
    }
    match discover_default_module(os) {
        Some(p) => Ok(p),
        None => Err(String::from_str("no PKCS#11 module configured and no vendor default detected")),
    }
}

/// The load error after `timeout_secs` seconds without the module `module`
/// finishing its initialisation; it starts with the timeout marker.
pub fn pkcs11_init_timeout_message(timeout_secs: u64, module: &str) -> (r: String)
    ensures
        r@ == PKCS11_INIT_TIMEOUT_MARKER@ + ": PKCS#11 init timed out after "@ + dec(timeout_secs as nat) + "s (module "@
            + module@
            + "). The driver may be waiting on the smart-card reader. Re-seat the token, open the vendor manager app, or restart the smart-card service."@,
{
    let mut r = String::from_str(PKCS11_INIT_TIMEOUT_MARKER);
    push_str(&mut r, ": PKCS#11 init timed out after ");
    push_decimal_u64(&mut r, timeout_secs);
    push_str(&mut r, "s (module ");
    push_str(&mut r, module);
    push_str(
        &mut r,
        "). The driver may be waiting on the smart-card reader. Re-seat the token, open the vendor manager app, or restart the smart-card service.",
    );
    r
}
} // verus!
