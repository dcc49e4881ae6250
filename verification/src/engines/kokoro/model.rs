//! The loaded model: its errors, limits and synthesis planning.

use vstd::prelude::*;
use vstd::string::StringExecFns;
use super::phonemizer::{phonemize, phonemize_started, voice_lang, voice_language, Phonemization};
use super::text::{collect_chars, contains_text, copy_range, ends_with, occurs_in, prefix_ends_with, prefixed, same_text};
use super::vocab::{config_vocab, hardcoded_vocab, hardcoded_vocab_map, load_vocab, Vocab};
use super::voices::{archive_voices, names_ascend, selected_style, texts, VoiceStore};

verus! {

/// Maximum number of phoneme tokens per chunk (before padding).
pub const MAX_PHONEME_LEN: usize = 510;

/// Style vector dimension for Kokoro.
pub const STYLE_DIM: usize = 256;

/// Output sample rate from the Kokoro model.
pub const SAMPLE_RATE: u32 = 24000;

/// Crossfade (in samples) used when concatenating chunk audio: 10 ms at 24 kHz.
pub const CHUNK_CROSSFADE_SAMPLES: usize = 240;

/// What kind of I/O failure occurred, as far as the engine tells them apart.
#[derive(Debug, Clone, Copy, PartialEq, Eq, Structural)]
pub enum IoErrorKind {
    NotFound,
    Other,
}

/// An I/O failure: its kind and its description.
#[derive(Debug, Clone, PartialEq, Eq)]
pub struct IoError {
    pub kind: IoErrorKind,
    pub message: String,
}

/// Everything that can go wrong while loading a model or synthesizing.
#[derive(Debug, Clone, PartialEq, Eq)]
pub enum KokoroError {
    /// The inference runtime failed; carries its description.
    Ort(String),
    /// A file could not be found or read.
    Io(IoError),
    /// A tensor could not be given the required shape.
    Shape(String),
    /// The phonemizer executable could not be located.
    EspeakNotFound,
    /// The phonemizer exited with a failure; carries its diagnostics.
    PhonemizerFailed(String),
    /// No voice of this name is loaded.
    VoiceNotFound(String),
    /// Synthesis was requested before a model was loaded.
    ModelNotLoaded,
    /// The configuration file is not usable; carries the reason.
    Config(String),
    /// An entry of the voice archive is malformed; carries entry and reason.
    VoiceParse(String),
}

/// The mathematical value of a [`KokoroError`].
pub enum KokoroErrorView {
    Ort(Seq<char>),
    Io(IoErrorKind, Seq<char>),
    Shape(Seq<char>),
    EspeakNotFound,
    PhonemizerFailed(Seq<char>),
    VoiceNotFound(Seq<char>),
    ModelNotLoaded,
    Config(Seq<char>),
    VoiceParse(Seq<char>),
}

impl View for KokoroError {
    type V = KokoroErrorView;

    open spec fn view(&self) -> KokoroErrorView {
        match self {
            KokoroError::Ort(m) => KokoroErrorView::Ort(m@),
            KokoroError::Io(e) => KokoroErrorView::Io(e.kind, e.message@),
            KokoroError::Shape(m) => KokoroErrorView::Shape(m@),
            KokoroError::EspeakNotFound => KokoroErrorView::EspeakNotFound,
            KokoroError::PhonemizerFailed(m) => KokoroErrorView::PhonemizerFailed(m@),
            KokoroError::VoiceNotFound(v) => KokoroErrorView::VoiceNotFound(v@),
            KokoroError::ModelNotLoaded => KokoroErrorView::ModelNotLoaded,
            KokoroError::Config(m) => KokoroErrorView::Config(m@),
            KokoroError::VoiceParse(m) => KokoroErrorView::VoiceParse(m@),
        }
    }
}

/// The text shown to a user for each error.
pub open spec fn error_message(e: KokoroErrorView) -> Seq<char> {
    match e {
        KokoroErrorView::Ort(m) => "ONNX runtime error: "@ + m,
        KokoroErrorView::Io(_, m) => "I/O error: "@ + m,
        KokoroErrorView::Shape(m) => "Array shape error: "@ + m,
        KokoroErrorView::EspeakNotFound =>
            "espeak-ng not found. Install: Linux: `sudo apt-get install espeak-ng`, macOS: `brew install espeak-ng`, Windows: https://espeak-ng.org/download"@,
        KokoroErrorView::PhonemizerFailed(m) => "Phonemization failed: "@ + m,
        KokoroErrorView::VoiceNotFound(v) => "Voice '"@ + v
            + "' not found. Call list_voices() to see available voices."@,
        KokoroErrorView::ModelNotLoaded => "Model not loaded. Call load_model() first."@,
        KokoroErrorView::Config(m) => "Invalid config.json: "@ + m,
        KokoroErrorView::VoiceParse(m) => "Failed to parse voice file: "@ + m,
    }
}

impl KokoroError {
    /// The text shown to a user for this error.
    pub fn message(&self) -> (out: String)
        ensures
            out@ == error_message(self@),
    {
        match self {
            KokoroError::Ort(m) => prefixed("ONNX runtime error: ", m.as_str()),
            KokoroError::Io(e) => prefixed("I/O error: ", e.message.as_str()),
            KokoroError::Shape(m) => prefixed("Array shape error: ", m.as_str()),
            KokoroError::EspeakNotFound => String::from_str(
                "espeak-ng not found. Install: Linux: `sudo apt-get install espeak-ng`, macOS: `brew install espeak-ng`, Windows: https://espeak-ng.org/download",
            ),
            KokoroError::PhonemizerFailed(m) => prefixed("Phonemization failed: ", m.as_str()),
            KokoroError::VoiceNotFound(v) => {
                let mut out = prefixed("Voice '", v.as_str());
                out.append("' not found. Call list_voices() to see available voices.");
                out
            },
            KokoroError::ModelNotLoaded => String::from_str(
                "Model not loaded. Call load_model() first.",
            ),
            KokoroError::Config(m) => prefixed("Invalid config.json: ", m.as_str()),
            KokoroError::VoiceParse(m) => prefixed("Failed to parse voice file: ", m.as_str()),
        }
    }
}

/// Whether `id` is the token of one of the marks `; : , . ! ?`, after which a
/// sequence may be split.
pub open spec fn is_punct_token(id: i64) -> bool {
    1 <= id <= 6
}

/// Where the chunk that starts at `start` ends: at the end of the sequence
/// if the rest fits into `max` tokens, else after the last punctuation token
/// among the next `max` tokens, else after `max` tokens.
pub open spec fn chunk_end(ids: Seq<i64>, start: int, max: int) -> int {
    if start + max >= ids.len() {
        ids.len() as int
    } else {
        match last_punct(ids, start, start + max) {
            Some(p) => p + 1,
            None => start + max,
        }
    }
}

/// The position of the last punctuation token in `ids[start..end]`.
pub open spec fn last_punct(ids: Seq<i64>, start: int, end: int) -> Option<int>
    decreases end - start,
{
    if end <= start {
        None
    } else if is_punct_token(ids[end - 1]) {
        Some(end - 1)
    } else {
        last_punct(ids, start, end - 1)
    }
}

/// The chunks of `ids` from `start` on.
pub open spec fn chunks_from(ids: Seq<i64>, start: int, max: int) -> Seq<Seq<i64>>
    decreases ids.len() - start,
{
    if start < 0 || start >= ids.len() || max < 1 {
        Seq::empty()
    } else {
        let end = chunk_end(ids, start, max);
        if end <= start || end > ids.len() {
            Seq::empty()
        } else {
            seq![ids.subrange(start, end)] + chunks_from(ids, end, max)
        }
    }
}

/// The chunks of a token sequence: consecutive pieces of at most `max`
/// tokens, each but the last ending after a punctuation token where the
/// window holds one.
pub open spec fn token_chunks(ids: Seq<i64>, max: int) -> Seq<Seq<i64>> {
    chunks_from(ids, 0, max)
}

pub proof fn lemma_last_punct(ids: Seq<i64>, start: int, end: int)
    requires
        0 <= start <= end <= ids.len(),
    ensures
        match last_punct(ids, start, end) {
            Some(p) => start <= p < end && is_punct_token(ids[p]) && forall|k: int|
                p < k < end ==> !is_punct_token(ids[k]),
            None => forall|k: int| start <= k < end ==> !is_punct_token(ids[k]),
        },
    decreases end - start,
{
    if start < end && !is_punct_token(ids[end - 1]) {
        lemma_last_punct(ids, start, end - 1);
    }
}

pub proof fn lemma_chunk_end(ids: Seq<i64>, start: int, max: int)
    requires
        0 <= start < ids.len(),
        max >= 1,
    ensures
        start < chunk_end(ids, start, max) <= ids.len(),
        chunk_end(ids, start, max) <= start + max,
{
    if start + max < ids.len() {
        lemma_last_punct(ids, start, start + max);
    }
}

/// Concatenating the chunks in order gives back the rest of the sequence,
/// and no chunk is empty or longer than `max`.
pub proof fn lemma_chunks_from(ids: Seq<i64>, start: int, max: int)
    requires
        0 <= start <= ids.len(),
        max >= 1,
    ensures
        chunks_from(ids, start, max).flatten() == ids.skip(start),
        forall|i: int|
            0 <= i < chunks_from(ids, start, max).len() ==> 1 <= (#[trigger] chunks_from(
                ids,
                start,
                max,
            )[i]).len() <= max,
    decreases ids.len() - start,
{
    if start >= ids.len() {
        assert(ids.skip(start) =~= Seq::<i64>::empty());
        assert(Seq::<Seq<i64>>::empty().flatten() =~= Seq::<i64>::empty());
    } else {
        lemma_chunk_end(ids, start, max);
        let end = chunk_end(ids, start, max);
        let first = ids.subrange(start, end);
        let rest = chunks_from(ids, end, max);
        lemma_chunks_from(ids, end, max);
        assert(seq![first].flatten() =~= first) by {
            assert(seq![first].drop_first() =~= Seq::<Seq<i64>>::empty());
            assert(seq![first].flatten() =~= first + Seq::<Seq<i64>>::empty().flatten());
        }
        vstd::seq_lib::lemma_flatten_concat(seq![first], rest);
        assert(first + ids.skip(end) =~= ids.skip(start));
        assert forall|i: int| 0 <= i < chunks_from(ids, start, max).len() implies 1 <= (
        #[trigger] chunks_from(ids, start, max)[i]).len() <= max by {
            if i > 0 {
                assert(chunks_from(ids, start, max)[i] == rest[i - 1]);
            }
        }
    }
}

/// Chunking loses nothing: the chunks of a sequence, concatenated in order,
/// are the sequence, and every chunk has at least one and at most `max` tokens.
pub proof fn lemma_chunks_reassemble(ids: Seq<i64>, max: int)
    requires
        max >= 1,
    ensures
        token_chunks(ids, max).flatten() == ids,
        forall|i: int|
            0 <= i < token_chunks(ids, max).len() ==> 1 <= (#[trigger] token_chunks(
                ids,
                max,
            )[i]).len() <= max,
{
    lemma_chunks_from(ids, 0, max);
    assert(ids.skip(0) =~= ids);
}

/// A sequence that is not empty and fits into `max` tokens is its own single chunk.
pub proof fn lemma_short_sequence_is_one_chunk(ids: Seq<i64>, max: int)
    requires
        1 <= ids.len() <= max,
    ensures
        token_chunks(ids, max) == seq![ids],
{
    assert(ids.subrange(0, ids.len() as int) =~= ids);
    assert(chunks_from(ids, ids.len() as int, max) =~= Seq::<Seq<i64>>::empty());
    assert(token_chunks(ids, max) =~= seq![ids]);
}

/// The plain values of a list of chunks.
pub open spec fn chunks_view(chunks: Seq<Vec<i64>>) -> Seq<Seq<i64>> {
    chunks.map_values(|c: Vec<i64>| c@)
}

/// Split phoneme ids into chunks of at most `max_len`, preferring to split
/// after punctuation.
pub fn split_chunks_at(ids: &[i64], max_len: usize) -> (chunks: Vec<Vec<i64>>)
    requires
        max_len >= 1,
    ensures
        chunks_view(chunks@) == token_chunks(ids@, max_len as int),
{
    let n = ids.len();
    let mut chunks: Vec<Vec<i64>> = Vec::new();
    let mut start: usize = 0;
    assert(chunks_view(chunks@) + chunks_from(ids@, 0, max_len as int) =~= chunks_from(
        ids@,
        0,
        max_len as int,
    ));
    while start < n
        invariant
            start <= n,
            n == ids@.len(),
            max_len >= 1,
            token_chunks(ids@, max_len as int) == chunks_view(chunks@) + chunks_from(
                ids@,
                start as int,
                max_len as int,
            ),
        decreases n - start,
    {
        proof {
            lemma_chunk_end(ids@, start as int, max_len as int);
        }
        let split = if max_len >= n - start {
            n
        } else {
            let end = start + max_len;
            let mut p: usize = end;
            while p > start && !(1 <= ids[p - 1] && ids[p - 1] <= 6)
                invariant
                    start <= p <= end <= n,
                    n == ids@.len(),
                    last_punct(ids@, start as int, end as int) == last_punct(
                        ids@,
                        start as int,
                        p as int,
                    ),
                decreases p,
            {
                p -= 1;
            }
            if p > start {
                p
            } else {
                end
            }
        };
        assert(split == chunk_end(ids@, start as int, max_len as int));
        let ghost before = chunks_view(chunks@);
        let chunk = copy_range(ids, start, split);
        chunks.push(chunk);
        proof {
            let rest = chunks_from(ids@, split as int, max_len as int);
            assert(chunks_view(chunks@) =~= before + seq![chunk@]);
            assert(before + (seq![chunk@] + rest) =~= (before + seq![chunk@]) + rest);
        }
        start = split;
    }
    assert(chunks_view(chunks@) + Seq::<Seq<i64>>::empty() =~= chunks_view(chunks@));
    chunks
}

/// Split phoneme ids into chunks of at most `MAX_PHONEME_LEN`, preferring to
/// split after punctuation.
pub fn split_chunks(ids: &[i64]) -> (chunks: Vec<Vec<i64>>)
    ensures
        chunks_view(chunks@) == token_chunks(ids@, MAX_PHONEME_LEN as int),
{
    split_chunks_at(ids, MAX_PHONEME_LEN)
}

/// Over how many samples two adjoining buffers are blended: the crossfade
/// length, or less where a buffer is shorter.
pub open spec fn crossfade_overlap(dst_len: int, src_len: int, crossfade: int) -> int {
    if crossfade <= dst_len && crossfade <= src_len {
        crossfade
    } else if dst_len <= src_len {
        dst_len
    } else {
        src_len
    }
}

/// Whether `out` is `dst` continued by `src` with a crossfade: the last
/// samples of `dst` are blended, position by position, with the first
/// samples of `src`, and the rest of `src` follows. Before that `dst` is
/// unchanged. The blended samples are shared, so `out` is shorter than both
/// buffers together by the overlap.
pub open spec fn stitched<T, F: Fn(T, T, usize, usize) -> T>(
    dst: Seq<T>,
    src: Seq<T>,
    crossfade: int,
    blend: F,
    out: Seq<T>,
) -> bool {
    let overlap = crossfade_overlap(dst.len() as int, src.len() as int, crossfade);
    let start = dst.len() - overlap;
    &&& out.len() == dst.len() + src.len() - overlap
    &&& forall|i: int| 0 <= i < start ==> out[i] == dst[i]
    &&& forall|i: int|
        0 <= i < overlap ==> blend.ensures(
            (dst[start + i], src[i], i as usize, overlap as usize),
            #[trigger] out[start + i],
        )
    &&& forall|i: int| overlap <= i < src.len() ==> #[trigger] out[start + i] == src[i]
}

/// The sample count of a stitched buffer: both lengths together less the
/// overlap, which is the crossfade length where both buffers are that long.
pub proof fn lemma_stitched_length<T, F: Fn(T, T, usize, usize) -> T>(
    dst: Seq<T>,
    src: Seq<T>,
    crossfade: int,
    blend: F,
    out: Seq<T>,
)
    requires
        stitched(dst, src, crossfade, blend, out),
        0 <= crossfade,
    ensures
        out.len() == dst.len() + src.len() - crossfade_overlap(
            dst.len() as int,
            src.len() as int,
            crossfade,
        ),
        dst.len() >= crossfade && src.len() >= crossfade ==> out.len() == dst.len() + src.len()
            - crossfade,
        out.len() >= dst.len(),
        out.len() >= src.len(),
{
}

/// Appends `src` to `dst`, blending the last samples of `dst` with the first
/// of `src` over at most `crossfade_samples` samples.
///
/// `blend(left, right, i, n)` gives the sample at position `i` of an overlap
/// of `n` samples, from the sample `left` that fades out and the sample
/// `right` that fades in.
pub fn append_with_crossfade<T: Copy, F: Fn(T, T, usize, usize) -> T>(
    dst: &mut Vec<T>,
    src: &[T],
    crossfade_samples: usize,
    blend: &F,
)
    requires
        forall|left: T, right: T, i: usize, n: usize| i < n ==> blend.requires((left, right, i, n)),
    ensures
        stitched(old(dst)@, src@, crossfade_samples as int, *blend, final(dst)@),
{
    let dst_len = dst.len();
    let overlap = if crossfade_samples <= dst_len && crossfade_samples <= src.len() {
        crossfade_samples
    } else if dst_len <= src.len() {
        dst_len
    } else {
        src.len()
    };
    let dst_start = dst_len - overlap;
    let mut i: usize = 0;
    while i < overlap
        invariant
            i <= overlap <= src@.len(),
            dst_start + overlap == dst_len,
            dst@.len() == dst_len,
            dst_len == old(dst)@.len(),
            forall|left: T, right: T, i: usize, n: usize|
                i < n ==> blend.requires((left, right, i, n)),
            forall|k: int| 0 <= k < dst_start ==> dst@[k] == old(dst)@[k],
            forall|k: int| dst_start + i <= k < dst_len ==> dst@[k] == old(dst)@[k],
            forall|k: int|
                0 <= k < i ==> blend.ensures(
                    (old(dst)@[dst_start + k], src@[k], k as usize, overlap),
                    #[trigger] dst@[dst_start + k],
                ),
        decreases overlap - i,
    {
        let mixed = blend(dst[dst_start + i], src[i], i, overlap);
        dst[dst_start + i] = mixed;
        i += 1;
    }
    let mut j: usize = overlap;
    while j < src.len()
        invariant
            overlap <= j <= src@.len(),
            dst_start + overlap == dst_len,
            dst@.len() == dst_len + (j - overlap),
            dst_len == old(dst)@.len(),
            forall|k: int| 0 <= k < dst_start ==> dst@[k] == old(dst)@[k],
            forall|k: int|
                0 <= k < overlap ==> blend.ensures(
                    (old(dst)@[dst_start + k], src@[k], k as usize, overlap),
                    #[trigger] dst@[dst_start + k],
                ),
            forall|k: int| overlap <= k < j ==> #[trigger] dst@[dst_start + k] == src@[k],
        decreases src.len() - j,
    {
        dst.push(src[j]);
        j += 1;
    }
}

/// The model's token input for a chunk: the chunk between two padding tokens.
pub open spec fn padded_tokens(tokens: Seq<i64>) -> Seq<i64> {
    seq![0i64] + tokens + seq![0i64]
}

/// Builds the model's token input for a chunk: `[0, t1, .., tN, 0]`.
pub fn pad_tokens(tokens: &[i64]) -> (padded: Vec<i64>)
    ensures
        padded@ == padded_tokens(tokens@),
{
    let mut padded: Vec<i64> = Vec::new();
    padded.push(0);
    let mut i: usize = 0;
    while i < tokens.len()
        invariant
            i <= tokens.len(),
            padded@ == seq![0i64] + tokens@.take(i as int),
        decreases tokens.len() - i,
    {
        padded.push(tokens[i]);
        i += 1;
        assert(seq![0i64] + tokens@.take(i as int) =~= (seq![0i64] + tokens@.take(i - 1)).push(
            tokens@[i - 1],
        ));
    }
    assert(tokens@.take(i as int) =~= tokens@);
    padded.push(0);
    assert(padded@ =~= padded_tokens(tokens@));
    padded
}

/// How far the inference runtime rewrites the graph before running it.
#[derive(Debug, Clone, Copy, PartialEq, Eq, Structural)]
pub enum GraphOptimization {
    /// Load the graph as it is: it was optimized when the cache was written.
    Disable,
    /// Run the full, expensive optimization.
    Level3,
}

/// How to open the inference session.
#[derive(Debug, Clone, Copy, PartialEq, Eq)]
pub struct SessionPlan {
    /// Load the graph at the cache path instead of the model file.
    pub load_cached: bool,
    pub optimization: GraphOptimization,
    /// Persist the optimized graph at the cache path.
    pub write_cache: bool,
    /// Threads within and across operators; the runtime's default if none.
    pub threads: Option<usize>,
    /// Let independent operators run side by side.
    pub parallel_execution: bool,
}

/// Chooses how to open the inference session.
///
/// A cached graph that exists is loaded directly, without optimization. If
/// a cache path is given and nothing is there yet, the graph is optimized
/// and the result written to the cache. Without a cache path the graph is
/// optimized on every load.
pub fn init_session(num_threads: Option<usize>, cache_path_given: bool, cache_exists: bool) -> (plan:
    SessionPlan)
    ensures
        plan.threads == num_threads,
        plan.parallel_execution,
        plan.load_cached == (cache_path_given && cache_exists),
        plan.write_cache == (cache_path_given && !cache_exists),
        plan.optimization == (if cache_path_given && cache_exists {
            GraphOptimization::Disable
        } else {
            GraphOptimization::Level3
        }),
{
    if cache_path_given {
        if cache_exists {
            SessionPlan {
                load_cached: true,
                optimization: GraphOptimization::Disable,
                write_cache: false,
                threads: num_threads,
                parallel_execution: true,
            }
        } else {
            SessionPlan {
                load_cached: false,
                optimization: GraphOptimization::Level3,
                write_cache: true,
                threads: num_threads,
                parallel_execution: true,
            }
        }
    } else {
        SessionPlan {
            load_cached: false,
            optimization: GraphOptimization::Level3,
            write_cache: false,
            threads: num_threads,
            parallel_execution: true,
        }
    }
}

/// An input tensor that the graph declares: its name and the description of its element type.
#[derive(Debug, Clone, PartialEq, Eq)]
pub struct GraphInput {
    pub name: String,
    pub dtype: String,
}

/// Whether `name` is one of the two names that the token input has had.
pub open spec fn is_tokens_input(name: Seq<char>) -> bool {
    name == "input_ids"@ || name == "tokens"@
}

/// The name of the graph's token input: the first declared input that is
/// called `input_ids` or `tokens`, and `input_ids` if there is none.
pub open spec fn tokens_input_of(inputs: Seq<GraphInput>) -> Seq<char>
    decreases inputs.len(),
{
    if inputs.len() == 0 {
        "input_ids"@
    } else if is_tokens_input(inputs[0].name@) {
        inputs[0].name@
    } else {
        tokens_input_of(inputs.drop_first())
    }
}

/// Detect the token input name ("input_ids" or "tokens") from the graph's inputs.
pub fn detect_tokens_input(inputs: &Vec<GraphInput>) -> (name: String)
    ensures
        name@ == tokens_input_of(inputs@),
{
    let mut i: usize = 0;
    assert(inputs@.skip(0) =~= inputs@);
    while i < inputs.len()
        invariant
            i <= inputs.len(),
            tokens_input_of(inputs@) == tokens_input_of(inputs@.skip(i as int)),
        decreases inputs.len() - i,
    {
        let name = inputs[i].name.as_str();
        if same_text(name, "input_ids") || same_text(name, "tokens") {
            return inputs[i].name.clone();
        }
        assert(inputs@.skip(i as int).drop_first() =~= inputs@.skip(i + 1));
        i += 1;
    }
    String::from_str("input_ids")
}

/// Whether the description of an element type names 32-bit integers.
pub open spec fn names_int32(dtype: Seq<char>) -> bool {
    occurs_in("Int32"@, dtype) || occurs_in("int32"@, dtype)
}

/// Whether the graph's speed input takes a 32-bit integer: by the element type of the
/// first declared input called `speed`, and true if there is none.
pub open spec fn speed_is_int32_of(inputs: Seq<GraphInput>) -> bool
    decreases inputs.len(),
{
    if inputs.len() == 0 {
        true
    } else if inputs[0].name@ == "speed"@ {
        names_int32(inputs[0].dtype@)
    } else {
        speed_is_int32_of(inputs.drop_first())
    }
}

/// Detect whether the speed input expects int32 (true) or float32 (false).
pub fn detect_speed_type(inputs: &Vec<GraphInput>) -> (is_int32: bool)
    ensures
        is_int32 == speed_is_int32_of(inputs@),
{
    let mut i: usize = 0;
    assert(inputs@.skip(0) =~= inputs@);
    while i < inputs.len()
        invariant
            i <= inputs.len(),
            speed_is_int32_of(inputs@) == speed_is_int32_of(inputs@.skip(i as int)),
        decreases inputs.len() - i,
    {
        if same_text(inputs[i].name.as_str(), "speed") {
            let dtype = collect_chars(inputs[i].dtype.as_str());
            let upper = collect_chars("Int32");
            let lower = collect_chars("int32");
            return contains_text(dtype.as_slice(), upper.as_slice()) || contains_text(
                dtype.as_slice(),
                lower.as_slice(),
            );
        }
        assert(inputs@.skip(i as int).drop_first() =~= inputs@.skip(i + 1));
        i += 1;
    }
    true
}

/// The name of the graph file that a model directory is searched for first.
pub fn preferred_onnx_file_name() -> (name: &'static str)
    ensures
        name@ == "kokoro-quant-convinteger.onnx"@,
{
    "kokoro-quant-convinteger.onnx"
}

/// The name of the voice archive in a model directory.
pub fn voices_file_name() -> (name: &'static str)
    ensures
        name@ == "voices-v1.0.bin"@,
{
    "voices-v1.0.bin"
}

/// The name of the optional configuration file in a model directory.
pub fn config_file_name() -> (name: &'static str)
    ensures
        name@ == "config.json"@,
{
    "config.json"
}

/// Whether a file of this name has the extension `onnx`.
pub open spec fn has_onnx_extension(file_name: Seq<char>) -> bool {
    ends_with(file_name, ".onnx"@) && file_name.len() > ".onnx"@.len()
}

/// The first of `file_names` with the extension `onnx`, if there is one.
pub open spec fn first_onnx_file(file_names: Seq<String>) -> Option<Seq<char>>
    decreases file_names.len(),
{
    if file_names.len() == 0 {
        None
    } else if has_onnx_extension(file_names[0]@) {
        Some(file_names[0]@)
    } else {
        first_onnx_file(file_names.drop_first())
    }
}

/// The graph file of a model directory, or why there is none.
pub open spec fn onnx_file_of(
    model_dir: Seq<char>,
    preferred_exists: bool,
    file_names: Seq<String>,
) -> Result<Seq<char>, KokoroErrorView> {
    if preferred_exists {
        Ok("kokoro-quant-convinteger.onnx"@)
    } else {
        match first_onnx_file(file_names) {
            Some(name) => Ok(name),
            None => Err(
                KokoroErrorView::Io(IoErrorKind::NotFound, "No .onnx file found in "@ + model_dir),
            ),
        }
    }
}

/// Find the graph file among the files of the model directory.
///
/// Prefers `kokoro-quant-convinteger.onnx`, then falls back to the first
/// file with the extension `onnx` in the order the directory lists them.
pub fn find_onnx_file(model_dir: &str, preferred_exists: bool, file_names: &Vec<String>) -> (r:
    Result<String, KokoroError>)
    ensures
        match r {
            Ok(name) => onnx_file_of(model_dir@, preferred_exists, file_names@) == Ok::<
                Seq<char>,
                KokoroErrorView,
            >(name@),
            Err(e) => onnx_file_of(model_dir@, preferred_exists, file_names@) == Err::<
                Seq<char>,
                KokoroErrorView,
            >(e@),
        },
{
    if preferred_exists {
        return Ok(String::from_str(preferred_onnx_file_name()));
    }
    let extension = collect_chars(".onnx");
    let mut i: usize = 0;
    assert(file_names@.skip(0) =~= file_names@);
    while i < file_names.len()
        invariant
            i <= file_names.len(),
            !preferred_exists,
            extension@ == ".onnx"@,
            first_onnx_file(file_names@) == first_onnx_file(file_names@.skip(i as int)),
        decreases file_names.len() - i,
    {
        let name = collect_chars(file_names[i].as_str());
        assert(name@.take(name@.len() as int) =~= name@);
        if name.len() > extension.len() && prefix_ends_with(
            name.as_slice(),
            name.len(),
            extension.as_slice(),
        ) {
            return Ok(file_names[i].clone());
        }
        assert(file_names@.skip(i as int).drop_first() =~= file_names@.skip(i + 1));
        i += 1;
    }
    Err(
        KokoroError::Io(
            IoError {
                kind: IoErrorKind::NotFound,
                message: prefixed("No .onnx file found in ", model_dir),
            },
        ),
    )
}

/// A loaded Kokoro model, as far as synthesis is decided here: its voices,
/// its vocabulary and what its graph expects as inputs.
pub struct KokoroModel {
    voice_store: VoiceStore,
    vocab: Vocab,
    tokens_input_name: String,
    speed_is_int32: bool,
}

/// The bytes of an optional file.
pub open spec fn optional_bytes(file: Option<Vec<u8>>) -> Option<Seq<u8>> {
    match file {
        Some(bytes) => Some(bytes@),
        None => None,
    }
}

/// The text of an optional file.
pub open spec fn optional_text(file: Option<&str>) -> Option<Seq<char>> {
    match file {
        Some(text) => Some(text@),
        None => None,
    }
}

/// The voices and the vocabulary that the files of a model directory give,
/// or why the model cannot be loaded. The voice archive is required; without
/// a configuration file the built-in vocabulary is used.
pub open spec fn model_files(
    voices_path: Seq<char>,
    voices_archive: Option<Seq<u8>>,
    config: Option<Seq<char>>,
) -> Result<(Map<Seq<char>, Seq<Seq<u32>>>, Map<char, i64>), KokoroErrorView> {
    match voices_archive {
        None => Err(
            KokoroErrorView::Io(
                IoErrorKind::NotFound,
                "Voice file not found at "@ + voices_path
                    + ". Download it from the Kokoro model repository."@,
            ),
        ),
        Some(bytes) => match archive_voices(bytes) {
            Err(e) => Err(e),
            Ok(voices) => match config {
                None => Ok((voices, hardcoded_vocab_map())),
                Some(content) => match config_vocab(content) {
                    Err(e) => Err(e),
                    Ok(vocab) => Ok((voices, vocab)),
                },
            },
        },
    }
}

impl KokoroModel {
    /// The style vectors of each voice.
    pub closed spec fn voices(&self) -> Map<Seq<char>, Seq<Seq<u32>>> {
        self.voice_store@
    }

    /// The token id of each phonetic symbol.
    pub closed spec fn vocabulary(&self) -> Map<char, i64> {
        self.vocab@
    }

    /// The name of the graph's token input.
    pub closed spec fn tokens_input(&self) -> Seq<char> {
        self.tokens_input_name@
    }

    /// Whether the graph's speed input takes a 32-bit integer.
    pub closed spec fn speed_int32(&self) -> bool {
        self.speed_is_int32
    }

    /// Load the Kokoro model from what its directory holds.
    ///
    /// `inputs` are the inputs that the graph declares. `voices_archive` is
    /// the content of the voice archive at `voices_path`, or none if that
    /// file does not exist. `config` is the content of the configuration
    /// file, or none if the directory has none.
    pub fn load(
        inputs: &Vec<GraphInput>,
        voices_path: &str,
        voices_archive: Option<Vec<u8>>,
        config: Option<&str>,
    ) -> (r: Result<KokoroModel, KokoroError>)
        ensures
            match r {
                Ok(model) => model_files(
                    voices_path@,
                    optional_bytes(voices_archive),
                    optional_text(config),
                ) == Ok::<(Map<Seq<char>, Seq<Seq<u32>>>, Map<char, i64>), KokoroErrorView>(
                    (model.voices(), model.vocabulary()),
                ) && model.tokens_input() == tokens_input_of(inputs@) && model.speed_int32()
                    == speed_is_int32_of(inputs@),
                Err(e) => model_files(
                    voices_path@,
                    optional_bytes(voices_archive),
                    optional_text(config),
                ) == Err::<(Map<Seq<char>, Seq<Seq<u32>>>, Map<char, i64>), KokoroErrorView>(e@),
            },
    {
        let tokens_input_name = detect_tokens_input(inputs);
        let speed_is_int32 = detect_speed_type(inputs);
        let bytes = match voices_archive {
            Some(bytes) => bytes,
            None => {
                let mut message = prefixed("Voice file not found at ", voices_path);
                message.append(". Download it from the Kokoro model repository.");
                return Err(KokoroError::Io(IoError { kind: IoErrorKind::NotFound, message }));
            },
        };
        let voice_store = match VoiceStore::load(bytes) {
            Ok(store) => store,
            Err(e) => {
                return Err(e);
            },
        };
        let vocab = match config {
            Some(content) => match load_vocab(content) {
                Ok(vocab) => vocab,
                Err(e) => {
                    return Err(e);
                },
            },
            None => hardcoded_vocab(),
        };
        Ok(KokoroModel { voice_store, vocab, tokens_input_name, speed_is_int32 })
    }

    /// The name of the graph's token input: `input_ids` or `tokens`.
    pub fn tokens_input_name(&self) -> (name: &str)
        ensures
            name@ == self.tokens_input(),
    {
        self.tokens_input_name.as_str()
    }

    /// Whether the graph's speed input takes a 32-bit integer rather than a float.
    pub fn speed_is_int32(&self) -> (r: bool)
        ensures
            r == self.speed_int32(),
    {
        self.speed_is_int32
    }

    /// The model's vocabulary.
    pub fn vocab(&self) -> (vocab: &Vocab)
        ensures
            vocab@ == self.vocabulary(),
    {
        &self.vocab
    }

    /// The model's voices.
    pub fn voice_store(&self) -> (store: &VoiceStore)
        ensures
            store@ == self.voices(),
    {
        &self.voice_store
    }

    /// List all available voice names in sorted order.
    pub fn list_voices(&self) -> (names: Vec<&str>)
        ensures
            texts(names@).to_set() == self.voices().dom(),
            names_ascend(texts(names@)),
    {
        self.voice_store.list_voices()
    }

    /// Starts synthesizing `text` with the voice `voice_name`: phonemizes
    /// it in the language of the voice.
    pub fn synthesize_text(&self, text: &str, voice_name: &str) -> (start: Phonemization)
        ensures
            phonemize_started(text@, voice_language(voice_name@), self.vocabulary(), start),
    {
        let lang = voice_lang(voice_name);
        phonemize(text, lang, &self.vocab)
    }

    /// Continues a synthesis once the token sequence of the text is known.
    ///
    /// An empty sequence gives an empty waveform at once. Otherwise the
    /// sequence is chunked, and one style vector conditions all chunks: the
    /// one at `style_idx_override`, or else at the length of the whole
    /// sequence, so that the prosody does not change from chunk to chunk.
    pub fn synthesize_tokens<T: Copy>(
        &self,
        ids: &[i64],
        voice_name: &str,
        style_idx_override: Option<usize>,
    ) -> (r: Result<Synthesis<T>, KokoroError>)
        ensures
            ids@.len() == 0 ==> (r matches Ok(Synthesis::Finished(Ok(samples))) && samples@.len()
                == 0),
            ids@.len() > 0 ==> match selected_style(
                self.voices(),
                voice_name@,
                style_index(ids@.len() as int, style_idx_override),
            ) {
                None => (r matches Err(e) && e@ == KokoroErrorView::VoiceNotFound(voice_name@)),
                Some(style) => (r matches Ok(Synthesis::Pending(job)) && job.chunks()
                    == token_chunks(ids@, MAX_PHONEME_LEN as int) && job.done() == 0 && job.style()
                    == style && job.combined().len() == 0 && job.done() < job.chunks().len()),
            },
    {
        if ids.len() == 0 {
            return Ok(Synthesis::Finished(Ok(Vec::new())));
        }
        let style_idx = match style_idx_override {
            Some(idx) => idx,
            None => ids.len(),
        };
        let chunks = if ids.len() > MAX_PHONEME_LEN {
            split_chunks(ids)
        } else {
            let mut one: Vec<Vec<i64>> = Vec::new();
            one.push(copy_range(ids, 0, ids.len()));
            proof {
                lemma_short_sequence_is_one_chunk(ids@, MAX_PHONEME_LEN as int);
                assert(ids@.subrange(0, ids@.len() as int) =~= ids@);
                assert(chunks_view(one@) =~= seq![ids@]);
            }
            one
        };
        proof {
            lemma_chunks_reassemble(ids@, MAX_PHONEME_LEN as int);
            if chunks@.len() == 0 {
                assert(chunks_view(chunks@).flatten() =~= Seq::<i64>::empty());
            }
            assert forall|i: int| 0 <= i < chunks@.len() implies 1 <= (#[trigger] chunks@[i])@.len()
                <= MAX_PHONEME_LEN by {
                assert(chunks_view(chunks@)[i] == chunks@[i]@);
            }
        }
        let style = match self.voice_store.get_style(voice_name, style_idx) {
            Ok(style) => style,
            Err(e) => {
                return Err(e);
            },
        };
        Ok(Synthesis::Pending(SynthesisJob { chunks, done: 0, style, combined: Vec::new() }))
    }
}

/// The index of the style vector for a sequence of `token_count` tokens: the
/// override if one is given, else the token count.
pub open spec fn style_index(token_count: int, style_idx_override: Option<usize>) -> int {
    match style_idx_override {
        Some(idx) => idx as int,
        None => token_count,
    }
}

/// What the model is run on for one chunk: the padded tokens and the style
/// vector, as the bit patterns of its components.
pub struct InferenceInput {
    pub tokens: Vec<i64>,
    pub style: [u32; 256],
}

impl InferenceInput {
    /// The shape of the token tensor: one row of all padded tokens.
    pub fn tokens_shape(&self) -> (shape: (usize, usize))
        ensures
            shape == (1usize, self.tokens@.len() as usize),
    {
        (1, self.tokens.len())
    }

    /// The shape of the style tensor: one row of `STYLE_DIM` components.
    pub fn style_shape(&self) -> (shape: (usize, usize))
        ensures
            shape == (1usize, STYLE_DIM),
    {
        (1, STYLE_DIM)
    }
}

/// How running the model on a chunk ended.
pub enum InferenceOutcome<T> {
    /// The runtime reported an error; carries its description.
    Failed(String),
    /// A tensor could not be given its shape; carries the description.
    Misshaped(String),
    /// The model ran and gave no output tensor.
    NoOutput,
    /// The first output tensor: the chunk's waveform.
    Audio(Vec<T>),
}

/// A synthesis that waits for the waveform of a chunk.
pub struct SynthesisJob<T> {
    chunks: Vec<Vec<i64>>,
    done: usize,
    style: [u32; 256],
    combined: Vec<T>,
}

/// Where a synthesis stands.
pub enum Synthesis<T> {
    /// All chunks are stitched into the final waveform, or inference failed.
    Finished(Result<Vec<T>, KokoroError>),
    /// The model has to be run on a chunk; the outcome resumes the job.
    Pending(SynthesisJob<T>),
}

/// Whether `out` is the waveform `combined` continued by the waveform
/// `audio` of the next chunk. An empty chunk waveform adds nothing, the
/// first one stands as it is, and every later one is stitched on with a
/// crossfade of `CHUNK_CROSSFADE_SAMPLES` samples.
pub open spec fn continued<T, F: Fn(T, T, usize, usize) -> T>(
    combined: Seq<T>,
    audio: Seq<T>,
    blend: F,
    out: Seq<T>,
) -> bool {
    if audio.len() == 0 {
        out == combined
    } else if combined.len() == 0 {
        out == audio
    } else {
        stitched(combined, audio, CHUNK_CROSSFADE_SAMPLES as int, blend, out)
    }
}

/// The error that a failed inference is reported as, if it failed.
pub open spec fn inference_error<T>(outcome: InferenceOutcome<T>) -> Option<KokoroErrorView> {
    match outcome {
        InferenceOutcome::Failed(reason) => Some(KokoroErrorView::Ort(reason@)),
        InferenceOutcome::Misshaped(reason) => Some(KokoroErrorView::Shape(reason@)),
        InferenceOutcome::NoOutput => Some(KokoroErrorView::Ort("No output from model"@)),
        InferenceOutcome::Audio(_) => None,
    }
}

/// What resuming `job` with `outcome` leads to: `next`.
///
/// A failed inference ends the synthesis with its error. A waveform
/// continues the stitched waveform; with the last chunk's waveform the
/// synthesis ends.
pub open spec fn synthesis_resumed<T: Copy, F: Fn(T, T, usize, usize) -> T>(
    job: SynthesisJob<T>,
    outcome: InferenceOutcome<T>,
    blend: F,
    next: Synthesis<T>,
) -> bool {
    match outcome {
        InferenceOutcome::Audio(audio) => {
            if job.done() + 1 == job.chunks().len() {
                next matches Synthesis::Finished(Ok(samples)) && continued(
                    job.combined(),
                    audio@,
                    blend,
                    samples@,
                )
            } else {
                next matches Synthesis::Pending(rest) && rest.chunks() == job.chunks()
                    && rest.done() == job.done() + 1 && rest.done() < rest.chunks().len()
                    && rest.style() == job.style() && continued(
                    job.combined(),
                    audio@,
                    blend,
                    rest.combined(),
                )
            }
        },
        _ => next matches Synthesis::Finished(Err(e)) && Some(e@) == inference_error(outcome),
    }
}

impl<T> SynthesisJob<T> {
    #[verifier::type_invariant]
    closed spec fn well_formed(&self) -> bool {
        &&& self.done < self.chunks@.len()
        &&& forall|i: int|
            0 <= i < self.chunks@.len() ==> 1 <= (#[trigger] self.chunks@[i])@.len()
                <= MAX_PHONEME_LEN
    }
}

impl<T: Copy> SynthesisJob<T> {
    /// The chunks of the token sequence.
    pub closed spec fn chunks(&self) -> Seq<Seq<i64>> {
        chunks_view(self.chunks@)
    }

    /// How many chunks have their waveform.
    pub closed spec fn done(&self) -> nat {
        self.done as nat
    }

    /// The style vector that conditions every chunk.
    pub closed spec fn style(&self) -> Seq<u32> {
        self.style@
    }

    /// The waveform stitched so far.
    pub closed spec fn combined(&self) -> Seq<T> {
        self.combined@
    }

    /// What to run the model on next: a chunk that is not empty and within
    /// the model's limit, padded, and the style vector.
    pub fn input(&self) -> (input: InferenceInput)
        ensures
            self.done() < self.chunks().len(),
            input.tokens@ == padded_tokens(self.chunks()[self.done() as int]),
            2 < input.tokens@.len() <= MAX_PHONEME_LEN + 2,
            input.style@ == self.style(),
    {
        proof {
            use_type_invariant(self);
        }
        InferenceInput { tokens: pad_tokens(self.chunks[self.done].as_slice()), style: self.style }
    }

    /// Continues the job with the outcome of running the model on the chunk it waited for.
    ///
    /// `blend(left, right, i, n)` gives the sample at position `i` of a
    /// crossfade over `n` samples.
    pub fn resume<F: Fn(T, T, usize, usize) -> T>(
        self,
        outcome: InferenceOutcome<T>,
        blend: &F,
    ) -> (next: Synthesis<T>)
        requires
            forall|left: T, right: T, i: usize, n: usize|
                i < n ==> blend.requires((left, right, i, n)),
        ensures
            synthesis_resumed(self, outcome, *blend, next),
    {
        proof {
            use_type_invariant(&self);
        }
        let audio = match outcome {
            InferenceOutcome::Audio(audio) => audio,
            InferenceOutcome::Failed(reason) => {
                return Synthesis::Finished(Err(KokoroError::Ort(reason)));
            },
            InferenceOutcome::Misshaped(reason) => {
                return Synthesis::Finished(Err(KokoroError::Shape(reason)));
            },
            InferenceOutcome::NoOutput => {
                return Synthesis::Finished(
                    Err(KokoroError::Ort(String::from_str("No output from model"))),
                );
            },
        };
        let SynthesisJob { chunks, done, style, mut combined } = self;
        let total = chunks.len();
        let next_chunk = done + 1;
        if audio.len() > 0 {
            if combined.len() == 0 {
                combined = audio;
            } else {
                append_with_crossfade(
                    &mut combined,
                    audio.as_slice(),
                    CHUNK_CROSSFADE_SAMPLES,
                    blend,
                );
            }
        }
        if next_chunk == total {
            Synthesis::Finished(Ok(combined))
        } else {
            Synthesis::Pending(SynthesisJob { chunks, done: next_chunk, style, combined })
        }
    }
}

} // verus!
