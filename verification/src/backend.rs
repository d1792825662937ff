//! The transcription backend's plain data: parameters, segments, errors,
//! and the context that carries text from one audio chunk to the next.
use vstd::prelude::*;
use vstd::string::{StringExecFns, StringSliceAdditionalSpecFns};
use crate::text::{
    chars_of, contains_chars, contains_seq, decimal_spec, push_decimal, string_of, trim_bounds, trim_spec,
};

verus! {

/// `std::time::Duration::ZERO`: the empty duration.
#[verifier::external_body]
pub(crate) fn zero_duration() -> (d: std::time::Duration) {
    std::time::Duration::ZERO
}

/// How a transcription backend is set up.
#[derive(Debug, Clone)]
pub struct BackendParams {
    pub language: Option<String>,
    pub beam_size: u32,
    pub vad_enabled: bool,
}

impl Default for BackendParams {
    /// English, a beam of one, voice activity detection on.
    fn default() -> (p: BackendParams)
        ensures
            p.language matches Some(l) && l@ == "en"@,
            p.beam_size == 1,
            p.vad_enabled,
    {
        BackendParams { language: Some(String::from_str("en")), beam_size: 1, vad_enabled: true }
    }
}

/// The text recognised in a piece of audio.
#[derive(Debug)]
pub struct TranscriptSegment {
    pub text: String,
    pub start: std::time::Duration,
    pub end: std::time::Duration,
}

impl TranscriptSegment {
    /// A segment holding `text`, with zero start and end times (the backend
    /// does not time its segments). Durations are opaque here, so that both
    /// are `Duration::ZERO` is not stated; that they are the same is.
    pub fn untimed(text: String) -> (s: TranscriptSegment)
        ensures
            s.text == text,
            s.start == s.end,
    {
        let zero = zero_duration();
        TranscriptSegment { text, start: zero, end: zero }
    }
}

/// What can go wrong in a transcription backend.
#[derive(Debug, Clone)]
pub enum BackendError {
    ModelNotLoaded,
    InvalidAudio(String),
    TranscriptionFailed(String),
    Internal(String),
}

/// The message of an error, as the application shows it.
pub open spec fn backend_error_text(e: BackendError) -> Seq<char> {
    match e {
        BackendError::ModelNotLoaded => "model not loaded"@,
        BackendError::InvalidAudio(s) => "invalid audio data: "@ + s@,
        BackendError::TranscriptionFailed(s) => "transcription failed: "@ + s@,
        BackendError::Internal(s) => "backend error: "@ + s@,
    }
}

impl BackendError {
    /// The message of the error (see `backend_error_text`).
    pub fn message(&self) -> (s: String)
        ensures
            s@ == backend_error_text(*self),
    {
        match self {
            BackendError::ModelNotLoaded => String::from_str("model not loaded"),
            BackendError::InvalidAudio(d) => {
                let mut s = String::from_str("invalid audio data: ");
                s.append(d.as_str());
                s
            },
            BackendError::TranscriptionFailed(d) => {
                let mut s = String::from_str("transcription failed: ");
                s.append(d.as_str());
                s
            },
            BackendError::Internal(d) => {
                let mut s = String::from_str("backend error: ");
                s.append(d.as_str());
                s
            },
        }
    }
}

/// What the transcription worker reports.
#[derive(Debug, Clone)]
pub enum TranscriptionResult {
    Segment(String),
    Error(String),
}

/// Where the selected model stands. A download's progress is the bit
/// pattern of its `f32` percentage.
#[derive(Debug, Clone)]
pub enum ModelStatus {
    NotDownloaded,
    Downloading(u32),
    Ready,
    Error(String),
}

impl Default for ModelStatus {
    /// Not downloaded.
    fn default() -> (s: ModelStatus)
        ensures
            s is NotDownloaded,
    {
        ModelStatus::NotDownloaded
    }
}

/// What the transcription worker reports of one chunk: a non-empty text
/// as a segment, nothing for an empty one, and an error as its message.
pub fn worker_report(r: Result<TranscriptSegment, BackendError>) -> (out: Option<TranscriptionResult>)
    ensures
        match r {
            Ok(seg) => if seg.text@.len() > 0 {
                out matches Some(TranscriptionResult::Segment(t)) && t == seg.text
            } else {
                out is None
            },
            Err(e) => out matches Some(TranscriptionResult::Error(m)) && m@ == backend_error_text(e),
        },
{
    match r {
        Ok(seg) => {
            if seg.text.as_str().is_empty() {
                None
            } else {
                Some(TranscriptionResult::Segment(seg.text))
            }
        },
        Err(e) => Some(TranscriptionResult::Error(e.message())),
    }
}


/// The accelerator a loaded model reports, read off the system information
/// text: Metal, CUDA or Vulkan when named there, in that order of preference,
/// and CPU otherwise.
pub open spec fn accelerator_spec(info: Seq<char>) -> Seq<char> {
    if contains_seq(info, "Metal"@) {
        "Metal"@
    } else if contains_seq(info, "CUDA"@) {
        "CUDA"@
    } else if contains_seq(info, "Vulkan"@) {
        "Vulkan"@
    } else {
        "CPU"@
    }
}

/// The accelerator named by the system information text (see `accelerator_spec`).
pub fn accelerator_from_system_info(info: &str) -> (r: String)
    ensures
        r@ == accelerator_spec(info@),
{
    let v = chars_of(info);
    if contains_chars(&v, &chars_of("Metal")) {
        String::from_str("Metal")
    } else if contains_chars(&v, &chars_of("CUDA")) {
        String::from_str("CUDA")
    } else if contains_chars(&v, &chars_of("Vulkan")) {
        String::from_str("Vulkan")
    } else {
        String::from_str("CPU")
    }
}

/// What the transcription worker does next.
#[derive(Debug, Clone, Copy, PartialEq, Eq, Structural)]
pub enum WorkerStep {
    /// Stop the worker.
    Stop,
    /// Nothing to transcribe: wait for more audio.
    Wait,
    /// Transcribe the chunk taken.
    Transcribe,
}

/// The worker's next step: it stops once recording is over or the
/// application no longer takes its reports, waits when the chunk it took is
/// empty, and otherwise transcribes the chunk.
pub fn worker_step(running: bool, chunk_len: usize, send_failed: bool) -> (s: WorkerStep)
    ensures
        s == if !running || send_failed {
            WorkerStep::Stop
        } else if chunk_len == 0 {
            WorkerStep::Wait
        } else {
            WorkerStep::Transcribe
        },
{
    if !running || send_failed {
        WorkerStep::Stop
    } else if chunk_len == 0 {
        WorkerStep::Wait
    } else {
        WorkerStep::Transcribe
    }
}

/// How many threads transcription uses: the available parallelism held
/// between 2 and 8, or 4 when it is unknown.
pub fn thread_count(available: Option<usize>) -> (n: i32)
    ensures
        n == match available {
            Some(a) => if a < 2 {
                2
            } else if a > 8 {
                8
            } else {
                a as int
            },
            None => 4,
        },
{
    match available {
        Some(a) => {
            let m = if a < 8 { a } else { 8 };
            let m = if m > 2 { m } else { 2 };
            m as i32
        },
        None => 4,
    }
}

/// Why a model file cannot be loaded, given what the file system says of
/// it: whether something is at its path and, if so, whether that is a file
/// and how many bytes it holds (or why that could not be read).
pub open spec fn model_file_problem(
    path_text: Seq<char>,
    exists: bool,
    metadata: Result<(bool, u64), Seq<char>>,
) -> Option<Seq<char>> {
    if !exists {
        Some("Model file not found: "@ + path_text)
    } else {
        match metadata {
            Err(e) => Some("Cannot read model file: "@ + e),
            Ok((is_file, len)) => if !is_file {
                Some("Model path is not a file: "@ + path_text)
            } else if len < 1_000_000 {
                Some(
                    "Model file too small ("@ + decimal_spec(len as nat) + " bytes), may be corrupted: "@
                        + path_text,
                )
            } else {
                None
            },
        }
    }
}

/// Checks a model file before loading it (see `model_file_problem`); a
/// problem is reported as an internal backend error.
pub fn check_model_file(path_text: &str, exists: bool, metadata: Result<(bool, u64), String>) -> (r:
    Result<(), BackendError>)
    ensures
        match model_file_problem(
            path_text@,
            exists,
            match metadata {
                Ok(m) => Ok(m),
                Err(e) => Err(e@),
            },
        ) {
            None => r is Ok,
            Some(msg) => r matches Err(BackendError::Internal(m)) && m@ == msg,
        },
{
    if !exists {
        let mut s = String::from_str("Model file not found: ");
        s.append(path_text);
        return Err(BackendError::Internal(s));
    }
    match metadata {
        Err(e) => {
            let mut s = String::from_str("Cannot read model file: ");
            s.append(e.as_str());
            Err(BackendError::Internal(s))
        },
        Ok((is_file, len)) => {
            if !is_file {
                let mut s = String::from_str("Model path is not a file: ");
                s.append(path_text);
                Err(BackendError::Internal(s))
            } else if len < 1_000_000 {
                let mut s = String::from_str("Model file too small (");
                push_decimal(&mut s, len);
                s.append(" bytes), may be corrupted: ");
                s.append(path_text);
                Err(BackendError::Internal(s))
            } else {
                Ok(())
            }
        },
    }
}

/// How many characters of earlier text a prompt carries at most.
pub const PROMPT_CHARS: usize = 150;

/// How many bytes of earlier text the context keeps at most.
pub const CONTEXT_BYTES: usize = 2048;

/// After how many chunks the decoder state is renewed.
pub const CHUNKS_PER_STATE: usize = 180;

/// The text of the segments of one chunk, joined: each non-empty segment
/// text is trimmed and appended, after a space when something came before.
pub open spec fn joined_segments_spec(texts: Seq<Seq<char>>) -> Seq<char>
    decreases texts.len(),
{
    if texts.len() == 0 {
        seq![]
    } else {
        let acc = joined_segments_spec(texts.drop_last());
        if texts.last().len() == 0 {
            acc
        } else if acc.len() == 0 {
            trim_spec(texts.last())
        } else {
            acc.push(' ') + trim_spec(texts.last())
        }
    }
}

/// Texts joined with exactly one space between each two of them.
pub open spec fn join_spaces(pieces: Seq<Seq<char>>) -> Seq<char>
    decreases pieces.len(),
{
    if pieces.len() == 0 {
        seq![]
    } else if pieces.len() == 1 {
        pieces[0]
    } else {
        join_spaces(pieces.drop_last()).push(' ') + pieces.last()
    }
}

/// Texts without the empty ones they begin with.
pub open spec fn drop_leading_empty(pieces: Seq<Seq<char>>) -> Seq<Seq<char>>
    decreases pieces.len(),
{
    if pieces.len() > 0 && pieces[0].len() == 0 {
        drop_leading_empty(pieces.drop_first())
    } else {
        pieces
    }
}

/// The segment texts that are not empty, each trimmed, in order.
pub open spec fn segment_pieces(texts: Seq<Seq<char>>) -> Seq<Seq<char>>
    decreases texts.len(),
{
    if texts.len() == 0 {
        seq![]
    } else if texts.last().len() == 0 {
        segment_pieces(texts.drop_last())
    } else {
        segment_pieces(texts.drop_last()).push(trim_spec(texts.last()))
    }
}

/// Dropping leading empty texts from texts with one more at the end.
proof fn lemma_drop_leading_push(ps: Seq<Seq<char>>, y: Seq<char>)
    ensures
        drop_leading_empty(ps.push(y)) == if drop_leading_empty(ps).len() == 0 {
            if y.len() == 0 {
                Seq::<Seq<char>>::empty()
            } else {
                seq![y]
            }
        } else {
            drop_leading_empty(ps).push(y)
        },
        drop_leading_empty(ps).len() > 0 ==> drop_leading_empty(ps)[0].len() > 0,
    decreases ps.len(),
{
    if ps.len() == 0 {
        assert(ps.push(y) =~= seq![y]);
        assert(drop_leading_empty(ps) =~= Seq::<Seq<char>>::empty());
        if y.len() == 0 {
            assert(seq![y].drop_first() =~= Seq::<Seq<char>>::empty());
            assert(drop_leading_empty(Seq::<Seq<char>>::empty()) =~= Seq::<Seq<char>>::empty());
        }
    } else if ps[0].len() != 0 {
        assert(ps.push(y)[0] == ps[0]);
    } else {
        assert(ps.push(y).drop_first() =~= ps.drop_first().push(y));
        lemma_drop_leading_push(ps.drop_first(), y);
    }
}

/// Texts that begin with a non-empty one join to a non-empty text.
proof fn lemma_join_nonempty(qs: Seq<Seq<char>>)
    requires
        qs.len() > 0,
        qs[0].len() > 0,
    ensures
        join_spaces(qs).len() > 0,
    decreases qs.len(),
{
    if qs.len() > 1 {
        lemma_join_nonempty(qs.drop_last());
    }
}

/// The text of a chunk is its segment texts, those that are not empty,
/// each trimmed, joined with exactly one space between each two, whatever
/// whitespace the segments start or end with; trimmed segments that are
/// empty before the first non-empty one leave no space behind.
pub proof fn joined_segments_law(texts: Seq<Seq<char>>)
    ensures
        joined_segments_spec(texts) == join_spaces(drop_leading_empty(segment_pieces(texts))),
    decreases texts.len(),
{
    if texts.len() == 0 {
        assert(segment_pieces(texts) =~= Seq::<Seq<char>>::empty());
    } else {
        let t0 = texts.drop_last();
        let x = texts.last();
        joined_segments_law(t0);
        let p0 = segment_pieces(t0);
        let d0 = drop_leading_empty(p0);
        if x.len() == 0 {
            assert(segment_pieces(texts) =~= p0);
        } else {
            let tx = trim_spec(x);
            assert(segment_pieces(texts) =~= p0.push(tx));
            lemma_drop_leading_push(p0, tx);
            if d0.len() == 0 {
                if tx.len() == 0 {
                    assert(join_spaces(drop_leading_empty(p0.push(tx))) =~= tx);
                }
            } else {
                lemma_join_nonempty(d0);
                assert(d0.push(tx).drop_last() =~= d0);
            }
        }
    }
}

/// `p` is a prefix of `s`.
pub open spec fn is_prefix(p: Seq<char>, s: Seq<char>) -> bool {
    p.len() <= s.len() && s.take(p.len() as int) == p
}

/// The context after the text of a new chunk is taken in: nothing changes
/// for an empty chunk; an empty context becomes the trimmed new text; new
/// text that continues the context adds its trimmed remainder; new text that
/// the context already starts with adds nothing; any other new text is
/// appended after a space.
pub open spec fn merged_context_spec(acc: Seq<char>, new_text: Seq<char>) -> Seq<char> {
    if new_text.len() == 0 {
        acc
    } else {
        let n = trim_spec(new_text);
        let a = trim_spec(acc);
        if a.len() == 0 {
            n
        } else if is_prefix(a, n) {
            acc + trim_spec(n.skip(a.len() as int))
        } else if is_prefix(n, a) {
            acc
        } else {
            acc.push(' ') + n
        }
    }
}

/// The last `n` characters of `s` (all of them when there are fewer).
pub open spec fn last_chars(s: Seq<char>, n: nat) -> Seq<char> {
    if s.len() > n {
        s.subrange(s.len() - n, s.len() as int)
    } else {
        s
    }
}

/// The last `n` bytes of `b` (all of them when there are fewer).
pub open spec fn last_bytes(b: Seq<u8>, n: nat) -> Seq<u8> {
    if b.len() > n {
        b.subrange(b.len() - n, b.len() as int)
    } else {
        b
    }
}

/// Cutting the UTF-8 text `b` to its last `n` bytes falls on a character boundary.
pub open spec fn cut_on_boundary(b: Seq<u8>, n: nat) -> bool {
    b.len() > n ==> vstd::utf8::is_char_boundary(b, b.len() - n)
}

/// The plain state of a Whisper backend that carries over from one audio
/// chunk to the next.
pub struct TranscriptionContext {
    pub language: Option<String>,
    pub accelerator: String,
    pub fallback_to_cpu: bool,
    pub accumulated_text: String,
    pub chunks_processed: usize,
}

/// Whether `v[from..from + p.len()]` equals `p`, `from + p.len()` within `v`.
fn starts_with_at(v: &Vec<char>, vfrom: usize, vto: usize, p: &Vec<char>, pfrom: usize, pto: usize) -> (r: bool)
    requires
        vfrom <= vto <= v.len(),
        pfrom <= pto <= p.len(),
    ensures
        r == is_prefix(p@.subrange(pfrom as int, pto as int), v@.subrange(vfrom as int, vto as int)),
{
    let plen = pto - pfrom;
    if plen > vto - vfrom {
        return false;
    }
    let mut k: usize = 0;
    while k < plen
        invariant
            plen == pto - pfrom,
            plen <= vto - vfrom,
            vfrom <= vto <= v.len(),
            pfrom <= pto <= p.len(),
            k <= plen,
            v@.subrange(vfrom as int, vfrom + k) == p@.subrange(pfrom as int, pfrom + k),
        decreases plen - k,
    {
        if v[vfrom + k] != p[pfrom + k] {
            proof {
                let sv = v@.subrange(vfrom as int, vto as int);
                assert(sv.take(plen as int)[k as int] != p@.subrange(pfrom as int, pto as int)[k as int]);
            }
            return false;
        }
        assert(v@.subrange(vfrom as int, vfrom + k + 1) =~= v@.subrange(vfrom as int, vfrom + k).push(
            v@[vfrom + k],
        ));
        assert(p@.subrange(pfrom as int, pfrom + k + 1) =~= p@.subrange(pfrom as int, pfrom + k).push(
            p@[pfrom + k],
        ));
        k = k + 1;
    }
    assert(v@.subrange(vfrom as int, vto as int).take(plen as int) =~= v@.subrange(
        vfrom as int,
        vfrom + plen,
    ));
    true
}

impl TranscriptionContext {
    /// The context of a freshly loaded backend: the parameters' language,
    /// the given accelerator and fallback flag, no text, no chunks.
    pub fn new(params: BackendParams, accelerator: String, fallback_to_cpu: bool) -> (c: TranscriptionContext)
        ensures
            c.language == params.language,
            c.accelerator == accelerator,
            c.fallback_to_cpu == fallback_to_cpu,
            c.accumulated_text@ == Seq::<char>::empty(),
            c.chunks_processed == 0,
    {
        TranscriptionContext {
            language: params.language,
            accelerator,
            fallback_to_cpu,
            accumulated_text: String::new(),
            chunks_processed: 0,
        }
    }

    /// The prompt handed to the decoder: none for an empty context, else the
    /// context's last 150 characters (all of it when shorter).
    pub fn prompt(&self) -> (r: Option<String>)
        ensures
            self.accumulated_text@.len() == 0 ==> r is None,
            self.accumulated_text@.len() > 0 ==> (r matches Some(p) && p@ == last_chars(
                self.accumulated_text@,
                PROMPT_CHARS as nat,
            )),
    {
        let v = chars_of(self.accumulated_text.as_str());
        let n = v.len();
        if n == 0 {
            return None;
        }
        let start = if n > PROMPT_CHARS { n - PROMPT_CHARS } else { 0 };
        assert(v@.subrange(0, n as int) =~= v@);
        Some(string_of(&v, start, n))
    }

    /// Whether the decoder should be retried on the CPU after a failed run:
    /// only the first failure does so, and from then on the backend is marked
    /// as having fallen back.
    pub fn begin_cpu_retry(&mut self, run_failed: bool) -> (r: bool)
        ensures
            r == (run_failed && !old(self).fallback_to_cpu),
            final(self).fallback_to_cpu == (old(self).fallback_to_cpu || r),
            final(self).accumulated_text == old(self).accumulated_text,
            final(self).chunks_processed == old(self).chunks_processed,
            final(self).language == old(self).language,
            final(self).accelerator == old(self).accelerator,
    {
        if run_failed && !self.fallback_to_cpu {
            self.fallback_to_cpu = true;
            true
        } else {
            false
        }
    }

    /// The text of one chunk from its segment texts (see `joined_segments_spec`).
    pub fn join_segments(texts: &Vec<String>) -> (r: String)
        ensures
            r@ == joined_segments_spec(texts@.map_values(|t: String| t@)),
            r@ == join_spaces(drop_leading_empty(segment_pieces(texts@.map_values(|t: String| t@)))),
    {
        let ghost tv = texts@.map_values(|t: String| t@);
        proof {
            joined_segments_law(tv);
        }
        let mut all = String::new();
        let mut i: usize = 0;
        while i < texts.len()
            invariant
                i <= texts.len(),
                tv == texts@.map_values(|t: String| t@),
                all@ == joined_segments_spec(tv.take(i as int)),
            decreases texts.len() - i,
        {
            assert(tv.take(i + 1).drop_last() =~= tv.take(i as int));
            assert(tv.take(i + 1).last() == texts@[i as int]@);
            let t = texts[i].as_str();
            if !t.is_empty() {
                let v = chars_of(t);
                let (a, b) = trim_bounds(&v, 0, v.len());
                assert(v@.subrange(0, v.len() as int) =~= v@);
                let trimmed = string_of(&v, a, b);
                if !all.as_str().is_empty() {
                    all.push(' ');
                }
                all.append(trimmed.as_str());
            }
            i = i + 1;
        }
        assert(tv.take(texts.len() as int) =~= tv);
        all
    }

    /// Takes the text of a new chunk into the context (see `merged_context_spec`).
    pub fn merge_text(&mut self, new_text: &str)
        ensures
            final(self).accumulated_text@ == merged_context_spec(
                old(self).accumulated_text@,
                new_text@,
            ),
            final(self).chunks_processed == old(self).chunks_processed,
            final(self).fallback_to_cpu == old(self).fallback_to_cpu,
            final(self).language == old(self).language,
            final(self).accelerator == old(self).accelerator,
    {
        if new_text.is_empty() {
            return;
        }
        let nv = chars_of(new_text);
        let (na, nb) = trim_bounds(&nv, 0, nv.len());
        assert(nv@.subrange(0, nv.len() as int) =~= nv@);
        let av = chars_of(self.accumulated_text.as_str());
        let (aa, ab) = trim_bounds(&av, 0, av.len());
        assert(av@.subrange(0, av.len() as int) =~= av@);
        let ghost n = nv@.subrange(na as int, nb as int);
        let ghost a = av@.subrange(aa as int, ab as int);
        if aa == ab {
            self.accumulated_text = string_of(&nv, na, nb);
        } else if starts_with_at(&nv, na, nb, &av, aa, ab) {
            let start = na + (ab - aa);
            assert(n.skip(a.len() as int) =~= nv@.subrange(start as int, nb as int));
            let (ra, rb) = trim_bounds(&nv, start, nb);
            if ra < rb {
                let rest = string_of(&nv, ra, rb);
                self.accumulated_text.append(rest.as_str());
            } else {
                assert(self.accumulated_text@ =~= self.accumulated_text@ + seq![]);
            }
        } else if starts_with_at(&av, aa, ab, &nv, na, nb) {
        } else {
            self.accumulated_text.push(' ');
            let t = string_of(&nv, na, nb);
            self.accumulated_text.append(t.as_str());
        }
    }

    /// Whether cutting the context to its last 2048 bytes falls on a
    /// character boundary (when it must be cut at all).
    pub fn context_cut_ok(&self) -> (r: bool)
        ensures
            r == cut_on_boundary(vstd::utf8::encode_utf8(self.accumulated_text@), CONTEXT_BYTES as nat),
    {
        let s = self.accumulated_text.as_str();
        assert(s.spec_bytes() == vstd::utf8::encode_utf8(self.accumulated_text@));
        let n = s.as_bytes().len();
        n <= CONTEXT_BYTES || s.is_char_boundary(n - CONTEXT_BYTES)
    }

    /// Keeps the context's last 2048 bytes.
    pub fn bound_context(&mut self)
        requires
            cut_on_boundary(vstd::utf8::encode_utf8(old(self).accumulated_text@), CONTEXT_BYTES as nat),
        ensures
            vstd::utf8::encode_utf8(final(self).accumulated_text@) == last_bytes(
                vstd::utf8::encode_utf8(old(self).accumulated_text@),
                CONTEXT_BYTES as nat,
            ),
            final(self).chunks_processed == old(self).chunks_processed,
            final(self).fallback_to_cpu == old(self).fallback_to_cpu,
            final(self).language == old(self).language,
            final(self).accelerator == old(self).accelerator,
    {
        let s = self.accumulated_text.as_str();
        assert(s.spec_bytes() == vstd::utf8::encode_utf8(self.accumulated_text@));
        let n = s.as_bytes().len();
        if n > CONTEXT_BYTES {
            let kept = {
                let (_, tail) = s.split_at(n - CONTEXT_BYTES);
                tail.to_owned()
            };
            self.accumulated_text = kept;
        }
    }

    /// Counts a processed chunk; says whether the decoder state is due for
    /// renewal (every 180 chunks).
    pub fn finish_chunk(&mut self) -> (r: bool)
        requires
            old(self).chunks_processed < usize::MAX,
        ensures
            final(self).chunks_processed == old(self).chunks_processed + 1,
            r == (final(self).chunks_processed % CHUNKS_PER_STATE == 0),
            final(self).accumulated_text == old(self).accumulated_text,
            final(self).fallback_to_cpu == old(self).fallback_to_cpu,
            final(self).language == old(self).language,
            final(self).accelerator == old(self).accelerator,
    {
        self.chunks_processed = self.chunks_processed + 1;
        self.chunks_processed % CHUNKS_PER_STATE == 0
    }

    /// Records that the decoder state was renewed: the chunk count starts over.
    pub fn state_renewed(&mut self)
        ensures
            final(self).chunks_processed == 0,
            final(self).accumulated_text == old(self).accumulated_text,
            final(self).fallback_to_cpu == old(self).fallback_to_cpu,
            final(self).language == old(self).language,
            final(self).accelerator == old(self).accelerator,
    {
        self.chunks_processed = 0;
    }
}

} // verus!
