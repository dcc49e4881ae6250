//! Text segmentation and the bridge to the external phonemizer.

use vstd::prelude::*;
use vstd::string::StringExecFns;
use super::model::{IoError, IoErrorKind, KokoroError, KokoroErrorView};
use super::text::{char_is_ascii_digit, collect_chars, copy_range, decimal_string, decimal_text, is_ascii_digit, prefixed, string_from_chars, unicode_white_space};
use super::vocab::Vocab;

verus! {

/// One piece of segmented input: a run of text or a punctuation mark.
#[derive(Debug, Clone, PartialEq, Eq)]
pub enum TextPart {
    Text(String),
    Punct(char),
}

/// The mathematical value of a [`TextPart`].
pub enum TextPartView {
    Text(Seq<char>),
    Punct(char),
}

impl View for TextPart {
    type V = TextPartView;

    open spec fn view(&self) -> TextPartView {
        match self {
            TextPart::Text(s) => TextPartView::Text(s@),
            TextPart::Punct(c) => TextPartView::Punct(*c),
        }
    }
}

/// The views of a sequence of parts.
pub open spec fn parts_view(parts: Seq<TextPart>) -> Seq<TextPartView> {
    parts.map_values(|p: TextPart| p@)
}

/// The punctuation mark that `ch` stands for at a segment boundary, if any.
/// Line breaks count as a full stop.
pub open spec fn boundary_punctuation(ch: char) -> Option<char> {
    if ch == '.' || ch == '!' || ch == '?' || ch == ',' || ch == ';' || ch == ':'
        || ch == '\u{2014}' || ch == '\u{2026}' || ch == '"' || ch == '(' || ch == ')'
        || ch == '\u{201c}' || ch == '\u{201d}' {
        Some(ch)
    } else if ch == '\n' || ch == '\r' {
        Some('.')
    } else {
        None
    }
}

/// Whether position `i` holds a `.` or `,` with an ASCII digit on each side.
pub open spec fn numeric_connector(text: Seq<char>, i: int) -> bool {
    &&& 0 < i && i + 1 < text.len()
    &&& (text[i] == '.' || text[i] == ',')
    &&& is_ascii_digit(text[i - 1])
    &&& is_ascii_digit(text[i + 1])
}

/// Whether the character at `i` ends the running text segment.
pub open spec fn opens_boundary(text: Seq<char>, i: int) -> bool {
    boundary_punctuation(text[i]) is Some && !numeric_connector(text, i)
}

/// `run` without leading and trailing whitespace, each inner run of
/// whitespace replaced by one space.
pub open spec fn collapse_whitespace(run: Seq<char>) -> Seq<char>
    decreases run.len(),
{
    if run.len() == 0 {
        Seq::empty()
    } else {
        let head = collapse_whitespace(run.drop_last());
        let c = run.last();
        if unicode_white_space(c) {
            head
        } else if head.len() > 0 && unicode_white_space(run[run.len() - 2]) {
            head.push(' ').push(c)
        } else {
            head.push(c)
        }
    }
}

/// The part a finished run contributes: its normalized text, or nothing if that is empty.
pub open spec fn flushed(run: Seq<char>) -> Seq<TextPartView> {
    let segment = collapse_whitespace(run);
    if segment.len() == 0 {
        Seq::empty()
    } else {
        seq![TextPartView::Text(segment)]
    }
}

/// Where the run that is open after the first `n` characters began.
pub open spec fn run_start(text: Seq<char>, n: int) -> int
    decreases n,
{
    if n <= 0 {
        0
    } else if opens_boundary(text, n - 1) {
        n
    } else {
        run_start(text, n - 1)
    }
}

/// The parts that the first `n` characters have completed: for every
/// boundary among them, the run before it and its punctuation mark.
pub open spec fn parts_before(text: Seq<char>, n: int) -> Seq<TextPartView>
    decreases n,
{
    if n <= 0 {
        Seq::empty()
    } else if opens_boundary(text, n - 1) {
        parts_before(text, n - 1) + flushed(text.subrange(run_start(text, n - 1), n - 1))
            + seq![TextPartView::Punct(boundary_punctuation(text[n - 1]).unwrap())]
    } else {
        parts_before(text, n - 1)
    }
}

/// The segmentation of `text`: alternating text runs and punctuation marks in input order.
pub open spec fn text_parts(text: Seq<char>) -> Seq<TextPartView> {
    parts_before(text, text.len() as int) + flushed(
        text.subrange(run_start(text, text.len() as int), text.len() as int),
    )
}

/// Whether no text part among `parts` is empty.
pub open spec fn no_empty_text(parts: Seq<TextPartView>) -> bool {
    forall|i: int|
        0 <= i < parts.len() ==> (#[trigger] parts[i] matches TextPartView::Text(segment)
            ==> segment.len() > 0)
}

proof fn lemma_parts_before_have_no_empty_text(text: Seq<char>, n: int)
    ensures
        no_empty_text(parts_before(text, n)),
    decreases n,
{
    if n > 0 {
        lemma_parts_before_have_no_empty_text(text, n - 1);
    }
}

/// Segmentation never yields an empty text part.
pub proof fn lemma_text_parts_have_no_empty_text(text: Seq<char>)
    ensures
        no_empty_text(text_parts(text)),
{
    lemma_parts_before_have_no_empty_text(text, text.len() as int);
}

/// A `.` or `,` ends the running segment unless it stands between two ASCII digits.
pub proof fn lemma_separator_splits_unless_between_digits(text: Seq<char>, i: int)
    requires
        0 <= i < text.len(),
        text[i] == '.' || text[i] == ',',
    ensures
        opens_boundary(text, i) <==> !(0 < i && i + 1 < text.len() && is_ascii_digit(text[i - 1])
            && is_ascii_digit(text[i + 1])),
{
}

proof fn lemma_unbroken_prefix(text: Seq<char>, n: int)
    requires
        0 <= n <= text.len(),
        forall|i: int| 0 <= i < n ==> !opens_boundary(text, i),
    ensures
        run_start(text, n) == 0,
        parts_before(text, n) == Seq::<TextPartView>::empty(),
    decreases n,
{
    if n > 0 {
        lemma_unbroken_prefix(text, n - 1);
    }
}

/// Text in which no character ends a segment is one segment, or none if it
/// is blank: separators between digits never split it.
pub proof fn lemma_unbroken_text_is_one_segment(text: Seq<char>)
    requires
        forall|i: int| 0 <= i < text.len() ==> !opens_boundary(text, i),
    ensures
        text_parts(text) == flushed(text),
{
    lemma_unbroken_prefix(text, text.len() as int);
    assert(text.subrange(0, text.len() as int) =~= text);
    assert(Seq::<TextPartView>::empty() + flushed(text) =~= flushed(text));
}

/// The punctuation mark that `ch` stands for at a segment boundary, if any.
pub fn map_boundary_punctuation(ch: char) -> (r: Option<char>)
    ensures
        r == boundary_punctuation(ch),
{
    if ch == '.' || ch == '!' || ch == '?' || ch == ',' || ch == ';' || ch == ':'
        || ch == '\u{2014}' || ch == '\u{2026}' || ch == '"' || ch == '(' || ch == ')'
        || ch == '\u{201c}' || ch == '\u{201d}' {
        Some(ch)
    } else if ch == '\n' || ch == '\r' {
        Some('.')
    } else {
        None
    }
}

/// Whether `text[idx]` is a decimal point or thousands separator: a `.` or
/// `,` with an ASCII digit on each side.
pub fn is_numeric_connector_between_digits(text: &[char], idx: usize) -> (r: bool)
    requires
        idx < text@.len(),
    ensures
        r == numeric_connector(text@, idx as int),
{
    let ch = text[idx];
    if !(ch == '.' || ch == ',') {
        return false;
    }
    if idx == 0 || idx >= text.len() - 1 {
        return false;
    }
    char_is_ascii_digit(text[idx - 1]) && char_is_ascii_digit(text[idx + 1])
}

/// Closes the running segment: appends it to `parts` unless it is empty, and clears it.
pub fn flush_text_part(parts: &mut Vec<TextPart>, current: &mut Vec<char>)
    ensures
        parts_view(final(parts)@) == parts_view(old(parts)@) + (if old(current)@.len() == 0 {
            Seq::<TextPartView>::empty()
        } else {
            seq![TextPartView::Text(old(current)@)]
        }),
        final(current)@.len() == 0,
{
    if current.len() > 0 {
        let segment = string_from_chars(current.as_slice(), 0, current.len());
        assert(current@.subrange(0, current@.len() as int) == current@);
        let ghost before = parts@;
        parts.push(TextPart::Text(segment));
        assert(parts_view(parts@) =~= parts_view(before) + seq![TextPartView::Text(current@)]);
        current.clear();
    } else {
        assert(parts_view(parts@) =~= parts_view(parts@) + Seq::<TextPartView>::empty());
    }
}

/// Splits raw text into text runs and punctuation marks.
pub fn split_text_parts(text: &str) -> (parts: Vec<TextPart>)
    ensures
        parts_view(parts@) == text_parts(text@),
{
    let chars = collect_chars(text);
    let n = chars.len();
    let mut parts: Vec<TextPart> = Vec::new();
    let mut current: Vec<char> = Vec::new();
    let mut gap = false;
    let ghost mut start: int = 0;
    let mut i: usize = 0;
    assert(parts_view(parts@) =~= parts_before(chars@, 0));
    assert(chars@.subrange(0, 0) =~= Seq::<char>::empty());
    while i < n
        invariant
            i <= n,
            n == chars@.len(),
            chars@ == text@,
            start == run_start(chars@, i as int),
            0 <= start <= i,
            parts_view(parts@) == parts_before(chars@, i as int),
            current@ == collapse_whitespace(chars@.subrange(start, i as int)),
            gap == (current@.len() > 0 && start < i && unicode_white_space(chars@[i - 1])),
        decreases n - i,
    {
        let ch = chars[i];
        let ghost run = chars@.subrange(start, i as int);
        let ghost next_run = chars@.subrange(start, i + 1);
        assert(next_run.drop_last() =~= run);
        let punct = map_boundary_punctuation(ch);
        let connector = is_numeric_connector_between_digits(chars.as_slice(), i);
        if punct.is_some() && !connector {
            flush_text_part(&mut parts, &mut current);
            parts.push(TextPart::Punct(punct.unwrap()));
            gap = false;
            proof {
                start = i + 1;
                assert(chars@.subrange(start, i + 1) =~= Seq::<char>::empty());
                assert(parts_view(parts@) =~= parts_before(chars@, i as int) + flushed(run)
                    + seq![TextPartView::Punct(punct.unwrap())]);
            }
        } else if ch.is_whitespace() {
            if current.len() > 0 {
                gap = true;
            }
        } else {
            if gap {
                current.push(' ');
            }
            current.push(ch);
            gap = false;
        }
        i += 1;
    }
    flush_text_part(&mut parts, &mut current);
    parts
}

/// The phonemizer language code for a voice, by the two characters its name starts with.
pub open spec fn voice_language(voice: Seq<char>) -> Seq<char> {
    if voice.len() < 2 {
        "en-us"@
    } else if voice[0] == 'f' && voice[1] == 'f' {
        "fr"@
    } else if voice[1] != 'f' && voice[1] != 'm' {
        "en-us"@
    } else if voice[0] == 'a' {
        "en-us"@
    } else if voice[0] == 'b' {
        "en-gb"@
    } else if voice[0] == 'e' {
        "es"@
    } else if voice[0] == 'h' {
        "hi"@
    } else if voice[0] == 'i' {
        "it"@
    } else if voice[0] == 'j' {
        "ja"@
    } else if voice[0] == 'p' {
        "pt-br"@
    } else if voice[0] == 'z' {
        "cmn"@
    } else {
        "en-us"@
    }
}

/// Map a voice name prefix to an espeak-ng language code.
///
/// Voice names follow the pattern `{prefix}_{name}` where the two-character
/// prefix encodes the language. Unknown prefixes mean American English.
pub fn voice_lang(voice: &str) -> (lang: &'static str)
    ensures
        lang@ == voice_language(voice@),
{
    let chars = collect_chars(voice);
    if chars.len() < 2 {
        return "en-us";
    }
    let first = chars[0];
    let second = chars[1];
    if first == 'f' && second == 'f' {
        "fr"
    } else if second != 'f' && second != 'm' {
        "en-us"
    } else if first == 'a' {
        "en-us"
    } else if first == 'b' {
        "en-gb"
    } else if first == 'e' {
        "es"
    } else if first == 'h' {
        "hi"
    } else if first == 'i' {
        "it"
    } else if first == 'j' {
        "ja"
    } else if first == 'p' {
        "pt-br"
    } else if first == 'z' {
        "cmn"
    } else {
        "en-us"
    }
}

/// `text` without the line feeds at its end.
pub open spec fn without_final_newlines(text: Seq<char>) -> Seq<char>
    decreases text.len(),
{
    if text.len() > 0 && text.last() == '\n' {
        without_final_newlines(text.drop_last())
    } else {
        text
    }
}

/// What is written to the phonemizer for `input`: the input ending in exactly one line feed.
pub open spec fn canonical_payload(input: Seq<char>) -> Seq<char> {
    without_final_newlines(input).push('\n')
}

/// A canonical payload ends in a line feed that no other line feed precedes.
pub proof fn lemma_canonical_payload_ends_in_one_newline(input: Seq<char>)
    ensures
        canonical_payload(input).last() == '\n',
        canonical_payload(input).len() >= 2 ==> canonical_payload(input)[canonical_payload(
            input,
        ).len() - 2] != '\n',
    decreases input.len(),
{
    if input.len() > 0 && input.last() == '\n' {
        lemma_canonical_payload_ends_in_one_newline(input.drop_last());
    }
}

/// Whether the input ends in a line feed or not, and in how many, the payload is the same.
pub proof fn lemma_canonical_payload_ignores_final_newline(input: Seq<char>)
    ensures
        canonical_payload(input.push('\n')) == canonical_payload(input),
{
    assert(input.push('\n').drop_last() =~= input);
}

/// Canonicalizing twice changes nothing.
pub proof fn lemma_canonical_payload_idempotent(input: Seq<char>)
    ensures
        canonical_payload(canonical_payload(input)) == canonical_payload(input),
{
    let stem = without_final_newlines(input);
    lemma_without_final_newlines_fixed(input);
    assert(stem.push('\n').drop_last() =~= stem);
}

proof fn lemma_without_final_newlines_fixed(text: Seq<char>)
    ensures
        without_final_newlines(without_final_newlines(text)) == without_final_newlines(text),
    decreases text.len(),
{
    if text.len() > 0 && text.last() == '\n' {
        lemma_without_final_newlines_fixed(text.drop_last());
    }
}

/// The text to write to the phonemizer's standard input for `input`.
///
/// The phonemizer reads line by line; without a final line terminator the
/// last symbol of the transcription can be lost.
pub fn canonicalize_espeak_stdin_payload(input: &str) -> (payload: String)
    ensures
        payload@ == canonical_payload(input@),
{
    let chars = collect_chars(input);
    let mut len: usize = chars.len();
    assert(chars@.take(len as int) =~= chars@);
    while len > 0 && chars[len - 1] == '\n'
        invariant
            len <= chars@.len(),
            without_final_newlines(chars@) == without_final_newlines(chars@.take(len as int)),
        decreases len,
    {
        assert(chars@.take(len as int).drop_last() =~= chars@.take(len - 1));
        len -= 1;
    }
    let mut payload = string_from_chars(chars.as_slice(), 0, len);
    assert(chars@.subrange(0, len as int) =~= chars@.take(len as int));
    payload.push('\n');
    payload
}

/// Where the first line of `text` ends: at its first line feed, or at its end.
pub open spec fn first_break(text: Seq<char>) -> int
    decreases text.len(),
{
    if text.len() == 0 || text[0] == '\n' {
        0
    } else {
        1 + first_break(text.drop_first())
    }
}

/// `line` without a carriage return at its end.
pub open spec fn without_carriage_return(line: Seq<char>) -> Seq<char> {
    if line.len() > 0 && line.last() == '\r' {
        line.drop_last()
    } else {
        line
    }
}

/// The lines of `text`. A line ends at a line feed or at a carriage return
/// followed by a line feed; the terminator is not part of the line, and the
/// last line needs none.
pub open spec fn text_lines(text: Seq<char>) -> Seq<Seq<char>>
    decreases text.len(),
{
    if text.len() == 0 {
        Seq::empty()
    } else {
        let n = first_break(text);
        if n < 0 || n >= text.len() {
            seq![text]
        } else {
            seq![without_carriage_return(text.take(n))] + text_lines(text.skip(n + 1))
        }
    }
}

/// `text` without the whitespace at its start.
pub open spec fn trim_start(text: Seq<char>) -> Seq<char>
    decreases text.len(),
{
    if text.len() > 0 && unicode_white_space(text[0]) {
        trim_start(text.drop_first())
    } else {
        text
    }
}

/// `text` without the whitespace at its end.
pub open spec fn trim_end(text: Seq<char>) -> Seq<char>
    decreases text.len(),
{
    if text.len() > 0 && unicode_white_space(text.last()) {
        trim_end(text.drop_last())
    } else {
        text
    }
}

/// `text` without the whitespace at its start and end.
pub open spec fn trim(text: Seq<char>) -> Seq<char> {
    trim_end(trim_start(text))
}

/// The marker that ties two phonetic symbols together; it stands for no token.
pub open spec fn tie_marker() -> char {
    '_'
}

/// The token ids of the symbols of `symbols`, in order; the tie marker and
/// symbols that the vocabulary lacks give none.
pub open spec fn symbol_ids(symbols: Seq<char>, vocab: Map<char, i64>) -> Seq<i64>
    decreases symbols.len(),
{
    if symbols.len() == 0 {
        Seq::empty()
    } else {
        let head = symbol_ids(symbols.drop_last(), vocab);
        let c = symbols.last();
        if c != tie_marker() && vocab.contains_key(c) {
            head.push(vocab[c])
        } else {
            head
        }
    }
}

/// The token ids of a list of phonetic lines: those of each trimmed line, in order.
pub open spec fn lines_ids(lines: Seq<Seq<char>>, vocab: Map<char, i64>) -> Seq<i64>
    decreases lines.len(),
{
    if lines.len() == 0 {
        Seq::empty()
    } else {
        lines_ids(lines.drop_last(), vocab) + symbol_ids(trim(lines.last()), vocab)
    }
}

/// The token ids of a phonetic transcription.
pub open spec fn ipa_ids(ipa: Seq<char>, vocab: Map<char, i64>) -> Seq<i64> {
    lines_ids(text_lines(ipa), vocab)
}

proof fn lemma_first_break_is(text: Seq<char>, m: int)
    requires
        0 <= m <= text.len(),
        forall|k: int| 0 <= k < m ==> text[k] != '\n',
        m == text.len() || text[m] == '\n',
    ensures
        first_break(text) == m,
    decreases m,
{
    if m > 0 {
        let rest = text.drop_first();
        assert forall|k: int| 0 <= k < m - 1 implies rest[k] != '\n' by {
            assert(rest[k] == text[k + 1]);
        }
        lemma_first_break_is(rest, m - 1);
    }
}

/// The plain values of a list of lines.
pub open spec fn lines_view(lines: Seq<Vec<char>>) -> Seq<Seq<char>> {
    lines.map_values(|l: Vec<char>| l@)
}

/// Splits `text` into its lines.
pub fn split_lines(text: &[char]) -> (lines: Vec<Vec<char>>)
    ensures
        lines_view(lines@) == text_lines(text@),
{
    let n = text.len();
    let mut lines: Vec<Vec<char>> = Vec::new();
    let mut start: usize = 0;
    assert(text@.skip(0) =~= text@);
    while start < n
        invariant
            start <= n,
            n == text@.len(),
            text_lines(text@) == lines_view(lines@) + text_lines(text@.skip(start as int)),
        decreases n - start,
    {
        let ghost rest = text@.skip(start as int);
        let mut end: usize = start;
        while end < n && text[end] != '\n'
            invariant
                start <= end <= n,
                n == text@.len(),
                forall|k: int| start <= k < end ==> text@[k] != '\n',
            decreases n - end,
        {
            end += 1;
        }
        proof {
            lemma_first_break_is(rest, end - start);
        }
        let ghost before = lines_view(lines@);
        if end >= n {
            let line = copy_range(text, start, n);
            assert(line@ =~= rest);
            lines.push(line);
            start = n;
            proof {
                assert(text@.skip(n as int) =~= Seq::<char>::empty());
                assert(lines_view(lines@) =~= before + seq![rest]);
            }
        } else {
            let stop = if end > start && text[end - 1] == '\r' {
                end - 1
            } else {
                end
            };
            let line = copy_range(text, start, stop);
            assert(text@.subrange(start as int, end as int) =~= rest.take(end - start));
            assert(line@ =~= without_carriage_return(rest.take(end - start)));
            lines.push(line);
            proof {
                assert(rest.skip(end - start + 1) =~= text@.skip(end + 1));
                assert(lines_view(lines@) =~= before + seq![line@]);
                assert(text_lines(rest) == seq![line@] + text_lines(text@.skip(end + 1)));
                assert(before + (seq![line@] + text_lines(text@.skip(end + 1))) =~= (before
                    + seq![line@]) + text_lines(text@.skip(end + 1)));
            }
            start = end + 1;
        }
    }
    assert(lines_view(lines@) + Seq::<Seq<char>>::empty() =~= lines_view(lines@));
    lines
}

/// The range of `line` that is left when the whitespace at both ends is taken off.
pub fn trim_range(line: &[char]) -> (r: (usize, usize))
    ensures
        r.0 <= r.1 <= line@.len(),
        line@.subrange(r.0 as int, r.1 as int) == trim(line@),
{
    let n = line.len();
    let mut lo: usize = 0;
    assert(line@.skip(0) =~= line@);
    while lo < n && line[lo].is_whitespace()
        invariant
            lo <= n,
            n == line@.len(),
            trim_start(line@) == trim_start(line@.skip(lo as int)),
        decreases n - lo,
    {
        assert(line@.skip(lo as int).drop_first() =~= line@.skip(lo + 1));
        lo += 1;
    }
    assert(trim_start(line@) == line@.skip(lo as int));
    let mut hi: usize = n;
    assert(line@.skip(lo as int) =~= line@.subrange(lo as int, hi as int));
    while hi > lo && line[hi - 1].is_whitespace()
        invariant
            lo <= hi <= n,
            n == line@.len(),
            trim(line@) == trim_end(line@.subrange(lo as int, hi as int)),
        decreases hi,
    {
        assert(line@.subrange(lo as int, hi as int).drop_last() =~= line@.subrange(
            lo as int,
            hi - 1,
        ));
        hi -= 1;
    }
    (lo, hi)
}

/// Appends to `ids` the token ids of one phonetic line.
fn push_line_ids(ids: &mut Vec<i64>, line: &[char], vocab: &Vocab)
    ensures
        final(ids)@ == old(ids)@ + symbol_ids(trim(line@), vocab@),
{
    let (lo, hi) = trim_range(line);
    let ghost symbols = line@.subrange(lo as int, hi as int);
    let mut k: usize = lo;
    assert(symbols.take(0) =~= Seq::<char>::empty());
    assert(ids@ =~= old(ids)@ + Seq::<i64>::empty());
    while k < hi
        invariant
            lo <= k <= hi <= line@.len(),
            symbols == line@.subrange(lo as int, hi as int),
            ids@ == old(ids)@ + symbol_ids(symbols.take(k - lo), vocab@),
        decreases hi - k,
    {
        let c = line[k];
        proof {
            assert(symbols.take(k - lo + 1).drop_last() =~= symbols.take(k - lo));
            assert(symbols.take(k - lo + 1).last() == c);
        }
        if c != '_' {
            match vocab.get(c) {
                Some(id) => {
                    ids.push(id);
                    assert(ids@ =~= old(ids)@ + symbol_ids(symbols.take(k - lo + 1), vocab@));
                },
                None => {},
            }
        }
        k += 1;
    }
    assert(symbols.take(hi - lo) =~= symbols);
}

/// The token ids of the phonetic lines `lines`.
pub fn lines_to_ids(lines: &Vec<Vec<char>>, vocab: &Vocab) -> (ids: Vec<i64>)
    ensures
        ids@ == lines_ids(lines_view(lines@), vocab@),
{
    let mut ids: Vec<i64> = Vec::new();
    let mut i: usize = 0;
    let ghost all = lines_view(lines@);
    assert(all.take(0) =~= Seq::<Seq<char>>::empty());
    while i < lines.len()
        invariant
            i <= lines.len(),
            all == lines_view(lines@),
            ids@ == lines_ids(all.take(i as int), vocab@),
        decreases lines.len() - i,
    {
        assert(all.take(i + 1).drop_last() =~= all.take(i as int));
        assert(all.take(i + 1).last() == lines@[i as int]@);
        push_line_ids(&mut ids, lines[i].as_slice(), vocab);
        i += 1;
    }
    assert(all.take(i as int) =~= all);
    ids
}

/// The token ids of the phonetic transcription `ipa`.
pub fn chars_to_ids(ipa: &[char], vocab: &Vocab) -> (ids: Vec<i64>)
    ensures
        ids@ == ipa_ids(ipa@, vocab@),
{
    let lines = split_lines(ipa);
    lines_to_ids(&lines, vocab)
}

/// Converts a phonetic transcription to token ids.
///
/// Every symbol is mapped through the vocabulary; symbols it lacks, tie
/// markers and the whitespace around each line are dropped.
pub fn ipa_to_ids(ipa: &str, vocab: &Vocab) -> (ids: Vec<i64>)
    ensures
        ids@ == ipa_ids(ipa@, vocab@),
{
    let chars = collect_chars(ipa);
    chars_to_ids(chars.as_slice(), vocab)
}

/// The plain values of a list of token fragments.
pub open spec fn fragments_view(fragments: Seq<Vec<i64>>) -> Seq<Seq<i64>> {
    fragments.map_values(|f: Vec<i64>| f@)
}

/// The token fragment of each phonetic line.
pub open spec fn line_fragments(lines: Seq<Seq<char>>, vocab: Map<char, i64>) -> Seq<Seq<i64>> {
    lines.map_values(|line: Seq<char>| ipa_ids(line, vocab))
}

/// Reads the phonemizer's answer to a batch of `segment_count` segments, one
/// per line: the token fragment of each line. If the answer does not have one
/// line per segment there is no result, and each segment has to be
/// phonemized by itself.
pub fn phonemize_segments_batch(segment_count: usize, output: &str, vocab: &Vocab) -> (r: Option<
    Vec<Vec<i64>>,
>)
    ensures
        match r {
            Some(fragments) => text_lines(output@).len() == segment_count && fragments_view(
                fragments@,
            ) == line_fragments(text_lines(output@), vocab@),
            None => text_lines(output@).len() != segment_count,
        },
{
    let chars = collect_chars(output);
    let lines = split_lines(chars.as_slice());
    if lines.len() != segment_count {
        return None;
    }
    let mut fragments: Vec<Vec<i64>> = Vec::new();
    let mut i: usize = 0;
    let ghost all = text_lines(output@);
    while i < lines.len()
        invariant
            i <= lines.len(),
            all == lines_view(lines@),
            fragments@.len() == i,
            forall|k: int|
                0 <= k < i ==> (#[trigger] fragments@[k])@ == ipa_ids(all[k], vocab@),
        decreases lines.len() - i,
    {
        let ids = chars_to_ids(lines[i].as_slice(), vocab);
        fragments.push(ids);
        i += 1;
    }
    assert(fragments_view(fragments@) =~= line_fragments(all, vocab@));
    Some(fragments)
}

/// The text segments among `parts`, in order.
pub open spec fn segment_texts(parts: Seq<TextPartView>) -> Seq<Seq<char>>
    decreases parts.len(),
{
    if parts.len() == 0 {
        Seq::empty()
    } else {
        match parts.last() {
            TextPartView::Text(segment) => segment_texts(parts.drop_last()).push(segment),
            TextPartView::Punct(_) => segment_texts(parts.drop_last()),
        }
    }
}

/// The token sequence of `parts`: for each text segment its fragment, for
/// each punctuation mark its token if the vocabulary has one, in the order
/// of the parts. A segment beyond the last fragment gives nothing.
pub open spec fn assembled(
    parts: Seq<TextPartView>,
    fragments: Seq<Seq<i64>>,
    vocab: Map<char, i64>,
) -> Seq<i64>
    decreases parts.len(),
{
    if parts.len() == 0 {
        Seq::empty()
    } else {
        let head = assembled(parts.drop_last(), fragments, vocab);
        match parts.last() {
            TextPartView::Text(_) => {
                let k = segment_texts(parts.drop_last()).len() as int;
                if k < fragments.len() {
                    head + fragments[k]
                } else {
                    head
                }
            },
            TextPartView::Punct(c) => if vocab.contains_key(c) {
                head.push(vocab[c])
            } else {
                head
            },
        }
    }
}

/// The plain values of a list of strings.
pub open spec fn strings_view(strings: Seq<String>) -> Seq<Seq<char>> {
    strings.map_values(|s: String| s@)
}

/// The text segments among `parts`, in order.
pub fn text_segments(parts: &Vec<TextPart>) -> (segments: Vec<String>)
    ensures
        strings_view(segments@) == segment_texts(parts_view(parts@)),
{
    let mut segments: Vec<String> = Vec::new();
    let mut i: usize = 0;
    let ghost all = parts_view(parts@);
    assert(all.take(0) =~= Seq::<TextPartView>::empty());
    while i < parts.len()
        invariant
            i <= parts.len(),
            all == parts_view(parts@),
            strings_view(segments@) == segment_texts(all.take(i as int)),
        decreases parts.len() - i,
    {
        assert(all.take(i + 1).drop_last() =~= all.take(i as int));
        assert(all.take(i + 1).last() == parts@[i as int]@);
        match &parts[i] {
            TextPart::Text(segment) => {
                let ghost before = strings_view(segments@);
                segments.push(segment.clone());
                assert(strings_view(segments@) =~= before.push(segment@));
            },
            TextPart::Punct(_) => {},
        }
        i += 1;
    }
    assert(all.take(i as int) =~= all);
    segments
}

/// Interleaves the token fragments of the text segments with the tokens of
/// the punctuation marks, in the order of `parts`.
pub fn assemble_tokens(parts: &Vec<TextPart>, fragments: &Vec<Vec<i64>>, vocab: &Vocab) -> (ids:
    Vec<i64>)
    ensures
        ids@ == assembled(parts_view(parts@), fragments_view(fragments@), vocab@),
{
    let mut ids: Vec<i64> = Vec::new();
    let mut segment_index: usize = 0;
    let mut i: usize = 0;
    let ghost all = parts_view(parts@);
    let ghost given = fragments_view(fragments@);
    assert(all.take(0) =~= Seq::<TextPartView>::empty());
    while i < parts.len()
        invariant
            i <= parts.len(),
            all == parts_view(parts@),
            given == fragments_view(fragments@),
            segment_index == segment_texts(all.take(i as int)).len(),
            segment_index <= i,
            ids@ == assembled(all.take(i as int), given, vocab@),
        decreases parts.len() - i,
    {
        assert(all.take(i + 1).drop_last() =~= all.take(i as int));
        assert(all.take(i + 1).last() == parts@[i as int]@);
        match &parts[i] {
            TextPart::Text(_) => {
                if segment_index < fragments.len() {
                    let fragment = &fragments[segment_index];
                    let ghost before = ids@;
                    let mut k: usize = 0;
                    while k < fragment.len()
                        invariant
                            k <= fragment.len(),
                            ids@ == before + fragment@.take(k as int),
                        decreases fragment.len() - k,
                    {
                        ids.push(fragment[k]);
                        k += 1;
                        assert(before + fragment@.take(k as int) =~= (before + fragment@.take(
                            k - 1,
                        )).push(fragment@[k - 1]));
                    }
                    assert(fragment@.take(k as int) =~= fragment@);
                    assert(given[segment_index as int] == fragment@);
                }
                segment_index += 1;
            },
            TextPart::Punct(ch) => {
                match vocab.get(*ch) {
                    Some(id) => {
                        ids.push(id);
                    },
                    None => {},
                }
            },
        }
        i += 1;
    }
    assert(all.take(i as int) =~= all);
    ids
}

/// Where to find the phonemizer. A path that is not given means the system default.
#[derive(Debug, Clone, PartialEq, Eq)]
pub struct EspeakConfig {
    pub bin_path: Option<String>,
    pub data_path: Option<String>,
}

impl Default for EspeakConfig {
    fn default() -> (config: EspeakConfig)
        ensures
            config.bin_path is None,
            config.data_path is None,
    {
        EspeakConfig { bin_path: None, data_path: None }
    }
}

/// The program to run as the phonemizer: the configured binary, or `espeak-ng` from PATH.
pub open spec fn espeak_program_of(config: EspeakConfig) -> Seq<char> {
    match config.bin_path {
        Some(path) => path@,
        None => "espeak-ng"@,
    }
}

/// The program to run as the phonemizer.
pub fn espeak_program(config: &EspeakConfig) -> (program: String)
    ensures
        program@ == espeak_program_of(*config),
{
    match &config.bin_path {
        Some(path) => path.clone(),
        None => String::from_str("espeak-ng"),
    }
}

/// One invocation of the phonemizer: its arguments and what to write to its standard input.
#[derive(Debug, Clone, PartialEq, Eq)]
pub struct EspeakCall {
    pub args: Vec<String>,
    pub stdin: String,
}

/// How an invocation of the phonemizer ended.
#[derive(Debug, Clone, PartialEq, Eq)]
pub enum EspeakOutcome {
    /// The process could not be started.
    SpawnFailed(IoError),
    /// Writing to the process or waiting for it failed.
    Interrupted(IoError),
    /// The process ran to its end.
    Exited { success: bool, code: Option<i32>, stdout: String, stderr: String },
}

/// The arguments that select phonetic output, input from standard input,
/// quiet mode and the language `lang`.
pub open spec fn espeak_args(lang: Seq<char>) -> Seq<Seq<char>> {
    seq!["--ipa"@, "--stdin"@, "-q"@, "-v"@, lang]
}

/// The invocation that phonemizes `input` in the language `lang`.
pub fn espeak_call(input: &str, lang: &str) -> (call: EspeakCall)
    ensures
        strings_view(call.args@) == espeak_args(lang@),
        call.stdin@ == canonical_payload(input@),
{
    let mut args: Vec<String> = Vec::new();
    args.push(String::from_str("--ipa"));
    args.push(String::from_str("--stdin"));
    args.push(String::from_str("-q"));
    args.push(String::from_str("-v"));
    args.push(String::from_str(lang));
    assert(strings_view(args@) =~= espeak_args(lang@));
    EspeakCall { args, stdin: canonicalize_espeak_stdin_payload(input) }
}

/// A signed number in decimal.
pub open spec fn signed_decimal_text(n: int) -> Seq<char> {
    if n < 0 {
        seq!['-'] + decimal_text((-n) as nat)
    } else {
        decimal_text(n as nat)
    }
}

/// An exit code as diagnostics show it: `Some(1)`, or `None` for a process that a signal ended.
pub open spec fn exit_code_text(code: Option<i32>) -> Seq<char> {
    match code {
        Some(c) => "Some("@ + signed_decimal_text(c as int) + ")"@,
        None => "None"@,
    }
}

/// Writes an exit code as diagnostics show it.
fn exit_code_string(code: Option<i32>) -> (out: String)
    ensures
        out@ == exit_code_text(code),
{
    match code {
        None => String::from_str("None"),
        Some(c) => {
            let mut out = String::from_str("Some(");
            if c < 0 {
                let magnitude: usize = (-(c as i64)) as usize;
                out.push('-');
                out.append(decimal_string(magnitude).as_str());
                assert(out@ =~= "Some("@ + (seq!['-'] + decimal_text((-c) as nat)));
            } else {
                out.append(decimal_string(c as usize).as_str());
            }
            out.append(")");
            out
        },
    }
}

/// What an ended invocation yields: the phonemizer's output, or the error to report.
pub open spec fn espeak_output(outcome: EspeakOutcome) -> Result<Seq<char>, KokoroErrorView> {
    match outcome {
        EspeakOutcome::SpawnFailed(e) => if e.kind == IoErrorKind::NotFound {
            Err(KokoroErrorView::EspeakNotFound)
        } else {
            Err(KokoroErrorView::Io(e.kind, e.message@))
        },
        EspeakOutcome::Interrupted(e) => Err(KokoroErrorView::Io(e.kind, e.message@)),
        EspeakOutcome::Exited { success, code, stdout, stderr } => if success {
            Ok(stdout@)
        } else {
            Err(
                KokoroErrorView::PhonemizerFailed(
                    "espeak-ng exited with code "@ + exit_code_text(code) + ": "@ + stderr@,
                ),
            )
        },
    }
}

/// Turns the end of an invocation into the phonemizer's output or an error.
pub fn espeak_result(outcome: EspeakOutcome) -> (r: Result<String, KokoroError>)
    ensures
        match r {
            Ok(output) => espeak_output(outcome) == Ok::<Seq<char>, KokoroErrorView>(output@),
            Err(e) => espeak_output(outcome) == Err::<Seq<char>, KokoroErrorView>(e@),
        },
{
    match outcome {
        EspeakOutcome::SpawnFailed(e) => {
            match e.kind {
                IoErrorKind::NotFound => Err(KokoroError::EspeakNotFound),
                IoErrorKind::Other => Err(KokoroError::Io(e)),
            }
        },
        EspeakOutcome::Interrupted(e) => Err(KokoroError::Io(e)),
        EspeakOutcome::Exited { success, code, stdout, stderr } => {
            if success {
                Ok(stdout)
            } else {
                let mut msg = prefixed(
                    "espeak-ng exited with code ",
                    exit_code_string(code).as_str(),
                );
                msg.append(": ");
                msg.append(stderr.as_str());
                Err(KokoroError::PhonemizerFailed(msg))
            }
        },
    }
}

/// `segments` joined by line feeds, one segment per line.
pub open spec fn joined_lines(segments: Seq<Seq<char>>) -> Seq<char>
    decreases segments.len(),
{
    if segments.len() == 0 {
        Seq::empty()
    } else if segments.len() == 1 {
        segments[0]
    } else {
        joined_lines(segments.drop_last()) + seq!['\n'] + segments.last()
    }
}

/// Joins `segments` by line feeds.
fn join_lines(segments: &Vec<String>) -> (out: String)
    ensures
        out@ == joined_lines(strings_view(segments@)),
{
    let mut out = String::new();
    let mut i: usize = 0;
    let ghost all = strings_view(segments@);
    assert(all.take(0) =~= Seq::<Seq<char>>::empty());
    while i < segments.len()
        invariant
            i <= segments.len(),
            all == strings_view(segments@),
            out@ == joined_lines(all.take(i as int)),
        decreases segments.len() - i,
    {
        assert(all.take(i + 1).drop_last() =~= all.take(i as int));
        assert(all.take(i + 1).last() == segments@[i as int]@);
        if i > 0 {
            out.push('\n');
            assert(out@ =~= joined_lines(all.take(i as int)) + seq!['\n']);
        } else {
            assert(all.take(1)[0] == segments@[0]@);
            assert(out@ + segments@[0]@ =~= segments@[0]@);
        }
        out.append(segments[i].as_str());
        i += 1;
    }
    assert(all.take(i as int) =~= all);
    out
}

/// A phonemization that waits for an answer of the phonemizer.
///
/// It first asks for all text segments at once, one per line. If the answer
/// does not have one line per segment, it asks for each segment by itself.
pub struct PhonemeJob {
    parts: Vec<TextPart>,
    segments: Vec<String>,
    fragments: Vec<Vec<i64>>,
    batched: bool,
    lang: String,
}

/// Where a phonemization stands.
pub enum Phonemization {
    /// The token sequence is known, or the phonemizer failed.
    Finished(Result<Vec<i64>, KokoroError>),
    /// The phonemizer has to be invoked; its outcome resumes the job.
    Pending(PhonemeJob),
}

impl PhonemeJob {
    /// The parts of the text being phonemized.
    pub closed spec fn parts(&self) -> Seq<TextPartView> {
        parts_view(self.parts@)
    }

    /// The text segments to phonemize.
    pub open spec fn segments(&self) -> Seq<Seq<char>> {
        segment_texts(self.parts())
    }

    /// The token fragments received so far, one per segment asked for by itself.
    pub closed spec fn fragments(&self) -> Seq<Seq<i64>> {
        fragments_view(self.fragments@)
    }

    /// Whether the job waits for the answer to all segments at once.
    pub closed spec fn batched(&self) -> bool {
        self.batched
    }

    /// The language code handed to the phonemizer.
    pub closed spec fn lang(&self) -> Seq<char> {
        self.lang@
    }

    /// What a job always satisfies: it has a segment left to ask for.
    pub open spec fn waiting(&self) -> bool {
        &&& self.fragments().len() < self.segments().len()
        &&& self.batched() ==> self.fragments().len() == 0
    }

    #[verifier::type_invariant]
    closed spec fn well_formed(&self) -> bool {
        &&& strings_view(self.segments@) == segment_texts(parts_view(self.parts@))
        &&& self.fragments@.len() < self.segments@.len()
        &&& self.batched ==> self.fragments@.len() == 0
    }

    /// The text that the job wants phonemized next.
    pub open spec fn pending_input(&self) -> Seq<char> {
        if self.batched() {
            joined_lines(self.segments())
        } else {
            self.segments()[self.fragments().len() as int]
        }
    }

    proof fn lemma_waiting(&self)
        requires
            self.well_formed(),
        ensures
            self.waiting(),
    {
        assert(self.segments().len() == strings_view(self.segments@).len());
    }

    /// The invocation of the phonemizer that the job waits for.
    pub fn call(&self) -> (call: EspeakCall)
        ensures
            strings_view(call.args@) == espeak_args(self.lang()),
            call.stdin@ == canonical_payload(self.pending_input()),
    {
        proof {
            use_type_invariant(self);
        }
        if self.batched {
            let input = join_lines(&self.segments);
            espeak_call(input.as_str(), self.lang.as_str())
        } else {
            let k = self.fragments.len();
            assert(strings_view(self.segments@)[k as int] == self.segments@[k as int]@);
            espeak_call(self.segments[k].as_str(), self.lang.as_str())
        }
    }

    /// Continues the job with the outcome of the invocation it waited for.
    pub fn resume(self, outcome: EspeakOutcome, vocab: &Vocab) -> (next: Phonemization)
        ensures
            resumed(self, outcome, vocab@, next),
    {
        proof {
            use_type_invariant(&self);
            self.lemma_waiting();
        }
        let output = match espeak_result(outcome) {
            Ok(output) => output,
            Err(e) => {
                return Phonemization::Finished(Err(e));
            },
        };
        let PhonemeJob { parts, segments, mut fragments, batched, lang } = self;
        if batched {
            match phonemize_segments_batch(segments.len(), output.as_str(), vocab) {
                Some(fragments) => {
                    let ids = assemble_tokens(&parts, &fragments, vocab);
                    Phonemization::Finished(Ok(ids))
                },
                None => {
                    let job = PhonemeJob {
                        parts,
                        segments,
                        fragments: Vec::new(),
                        batched: false,
                        lang,
                    };
                    assert(job.fragments() =~= Seq::<Seq<i64>>::empty());
                    proof {
                        job.lemma_waiting();
                    }
                    Phonemization::Pending(job)
                },
            }
        } else {
            let fragment = ipa_to_ids(output.as_str(), vocab);
            let ghost before = fragments_view(fragments@);
            fragments.push(fragment);
            assert(fragments_view(fragments@) =~= before.push(fragment@));
            if fragments.len() == segments.len() {
                let ids = assemble_tokens(&parts, &fragments, vocab);
                Phonemization::Finished(Ok(ids))
            } else {
                let job = PhonemeJob { parts, segments, fragments, batched: false, lang };
                proof {
                    job.lemma_waiting();
                }
                Phonemization::Pending(job)
            }
        }
    }
}

/// What resuming `job` with `outcome` leads to: `next`.
///
/// A failed invocation ends the job with its error. The answer to a whole
/// batch ends the job if it has one line per segment, and else makes the job
/// ask for the first segment by itself. The answer for one segment adds its
/// fragment; with the last segment's fragment the job ends.
pub open spec fn resumed(
    job: PhonemeJob,
    outcome: EspeakOutcome,
    vocab: Map<char, i64>,
    next: Phonemization,
) -> bool {
    match espeak_output(outcome) {
        Err(e) => next matches Phonemization::Finished(Err(x)) && x@ == e,
        Ok(output) => if job.batched() {
            if text_lines(output).len() == job.segments().len() {
                next matches Phonemization::Finished(Ok(ids)) && ids@ == assembled(
                    job.parts(),
                    line_fragments(text_lines(output), vocab),
                    vocab,
                )
            } else {
                next matches Phonemization::Pending(again) && again.waiting() && again.parts()
                    == job.parts() && again.lang() == job.lang() && !again.batched()
                    && again.fragments().len() == 0
            }
        } else {
            let fragments = job.fragments().push(ipa_ids(output, vocab));
            if fragments.len() == job.segments().len() {
                next matches Phonemization::Finished(Ok(ids)) && ids@ == assembled(
                    job.parts(),
                    fragments,
                    vocab,
                )
            } else {
                next matches Phonemization::Pending(again) && again.waiting() && again.parts()
                    == job.parts() && again.lang() == job.lang() && !again.batched()
                    && again.fragments() == fragments
            }
        },
    }
}

/// Where phonemizing `text` starts: finished at once if the text has no
/// segment to phonemize, else waiting for the answer to all segments at once.
pub open spec fn phonemize_started(
    text: Seq<char>,
    lang: Seq<char>,
    vocab: Map<char, i64>,
    start: Phonemization,
) -> bool {
    let parts = text_parts(text);
    if segment_texts(parts).len() == 0 {
        start matches Phonemization::Finished(Ok(ids)) && ids@ == assembled(
            parts,
            Seq::empty(),
            vocab,
        )
    } else {
        start matches Phonemization::Pending(job) && job.waiting() && job.parts() == parts
            && job.lang() == lang && job.batched() && job.fragments().len() == 0
    }
}

/// Convert text to Kokoro phoneme token ids with the help of the phonemizer.
///
/// The text is segmented at once. While the result is `Pending`, the caller
/// invokes the phonemizer as the job's `call` says and hands the outcome to
/// `resume`. Symbols that the vocabulary lacks are dropped.
pub fn phonemize(text: &str, lang: &str, vocab: &Vocab) -> (start: Phonemization)
    ensures
        phonemize_started(text@, lang@, vocab@, start),
{
    let parts = split_text_parts(text);
    let segments = text_segments(&parts);
    if segments.len() == 0 {
        let none: Vec<Vec<i64>> = Vec::new();
        assert(fragments_view(none@) =~= Seq::<Seq<i64>>::empty());
        let ids = assemble_tokens(&parts, &none, vocab);
        return Phonemization::Finished(Ok(ids));
    }
    let job = PhonemeJob {
        parts,
        segments,
        fragments: Vec::new(),
        batched: true,
        lang: String::from_str(lang),
    };
    assert(job.fragments() =~= Seq::<Seq<i64>>::empty());
    proof {
        job.lemma_waiting();
    }
    Phonemization::Pending(job)
}

/// Text without characters has no parts, and nothing to phonemize: its
/// token sequence is empty whatever the vocabulary.
pub proof fn lemma_empty_text_has_no_tokens(vocab: Map<char, i64>)
    ensures
        text_parts(Seq::<char>::empty()) == Seq::<TextPartView>::empty(),
        segment_texts(text_parts(Seq::<char>::empty())).len() == 0,
        assembled(text_parts(Seq::<char>::empty()), Seq::empty(), vocab) == Seq::<i64>::empty(),
{
    let text = Seq::<char>::empty();
    assert(text.subrange(0, 0) =~= text);
    assert(text_parts(text) =~= Seq::<TextPartView>::empty());
}

} // verus!
