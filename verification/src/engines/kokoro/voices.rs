//! The voice store: style vectors per voice, parsed from the voice archive.
//!
//! A style vector is kept as the 256 IEEE-754 bit patterns of its 32-bit
//! floating-point components, in order.

use vstd::prelude::*;
use vstd::string::StringExecFns;
use super::archive::{archive_entries, entry_count, entry_data, entry_name, open_archive, zip_read, EntryView};
use super::model::{KokoroError, KokoroErrorView};
use super::text::{collect_chars, compare_text, decimal_string, decimal_text, ends_with, lemma_text_less_irreflexive, lemma_text_less_transitive, prefix_ends_with, prefixed, string_from_chars, text_less, TextOrder};

verus! {

/// The bytes every array file starts with.
pub open spec fn npy_magic() -> Seq<u8> {
    seq![0x93u8, 0x4eu8, 0x55u8, 0x4du8, 0x50u8, 0x59u8]
}

/// The length of the metadata header, stored little-endian at offset 8.
pub open spec fn npy_header_len(data: Seq<u8>) -> int {
    data[8] as int + 256 * (data[9] as int)
}

/// Where the array's values begin.
pub open spec fn npy_data_offset(data: Seq<u8>) -> int {
    10 + npy_header_len(data)
}

/// The bytes of the array's values.
pub open spec fn npy_payload(data: Seq<u8>) -> Seq<u8> {
    data.subrange(npy_data_offset(data), data.len() as int)
}

/// The 32-bit word stored little-endian at `at`.
pub open spec fn le_word(bytes: Seq<u8>, at: int) -> u32 {
    (bytes[at] as int + 256 * (bytes[at + 1] as int) + 65536 * (bytes[at + 2] as int) + 16777216
        * (bytes[at + 3] as int)) as u32
}

/// Row `row` of the payload read as a row-major matrix of 256 columns.
pub open spec fn style_row(payload: Seq<u8>, row: int) -> Seq<u32> {
    Seq::new(256, |j: int| le_word(payload, (row * 256 + j) * 4))
}

/// The style vectors that a well-formed array file holds.
pub open spec fn npy_styles(data: Seq<u8>) -> Seq<Seq<u32>> {
    let payload = npy_payload(data);
    Seq::new((payload.len() / 1024) as nat, |i: int| style_row(payload, i))
}

/// Why `data`, the archive entry `name`, is no array file of style vectors;
/// none if it is one.
pub open spec fn npy_error(data: Seq<u8>, name: Seq<char>) -> Option<KokoroErrorView> {
    if data.len() < 10 {
        Some(
            KokoroErrorView::VoiceParse(
                name + ": file too short ("@ + decimal_text(data.len()) + " bytes)"@,
            ),
        )
    } else if data.subrange(0, 6) != npy_magic() {
        Some(KokoroErrorView::VoiceParse(name + ": invalid numpy magic bytes"@))
    } else if data.len() < npy_data_offset(data) {
        Some(
            KokoroErrorView::VoiceParse(
                name + ": header truncated (need "@ + decimal_text(npy_data_offset(data) as nat)
                    + " bytes, got "@ + decimal_text(data.len()) + ")"@,
            ),
        )
    } else if npy_payload(data).len() % 4 != 0 {
        Some(
            KokoroErrorView::VoiceParse(
                name + ": float data length "@ + decimal_text(npy_payload(data).len())
                    + " is not a multiple of 4"@,
            ),
        )
    } else if (npy_payload(data).len() / 4) % 256 != 0 {
        Some(
            KokoroErrorView::VoiceParse(
                name + ": float count "@ + decimal_text(npy_payload(data).len() / 4)
                    + " is not a multiple of 256 (style vector dim)"@,
            ),
        )
    } else {
        None
    }
}

/// The plain values of a list of style vectors.
pub open spec fn styles_view(styles: Seq<[u32; 256]>) -> Seq<Seq<u32>> {
    styles.map_values(|s: [u32; 256]| s@)
}

/// An array file is accepted exactly when it is long enough for its header,
/// starts with the magic bytes, and its payload is a whole number of
/// 256-component rows of 4-byte values; every rejection is a parse error.
pub proof fn lemma_npy_accepts_whole_rows_only(data: Seq<u8>, name: Seq<char>)
    ensures
        npy_error(data, name) is None <==> (data.len() >= 10 && data.subrange(0, 6) == npy_magic()
            && data.len() >= npy_data_offset(data) && npy_payload(data).len() % (4 * 256) == 0),
        npy_error(data, name) matches Some(e) ==> e is VoiceParse,
{
    if data.len() >= 10 && data.len() >= npy_data_offset(data) {
        let len = npy_payload(data).len() as int;
        assert((len % 4 == 0 && (len / 4) % 256 == 0) <==> len % 1024 == 0);
    }
}

/// Whether `data` starts with the magic bytes.
fn has_magic(data: &[u8]) -> (r: bool)
    requires
        data@.len() >= 6,
    ensures
        r == (data@.subrange(0, 6) == npy_magic()),
{
    let r = data[0] == 0x93 && data[1] == 0x4e && data[2] == 0x55 && data[3] == 0x4d && data[4]
        == 0x50 && data[5] == 0x59;
    proof {
        let head = data@.subrange(0, 6);
        assert(head[0] == data@[0] && head[1] == data@[1] && head[2] == data@[2] && head[3]
            == data@[3] && head[4] == data@[4] && head[5] == data@[5]);
        if r {
            assert(head =~= npy_magic());
        }
    }
    r
}

/// The little-endian word at `at` in the payload that begins at `base`.
fn read_word(data: &[u8], base: usize, at: usize) -> (w: u32)
    requires
        base + at + 4 <= data@.len(),
    ensures
        w == le_word(data@.subrange(base as int, data@.len() as int), at as int),
{
    let len = data.len();
    let p = base + at;
    let b0 = data[p] as u32;
    let b1 = data[p + 1] as u32;
    let b2 = data[p + 2] as u32;
    let b3 = data[p + 3] as u32;
    b0 + 256 * b1 + 65536 * b2 + 16777216 * b3
}

/// Parses an array file into style vectors.
///
/// Expects a two-dimensional array of 32-bit floats with 256 columns,
/// stored little-endian in row-major order after the header.
pub fn parse_npy(data: &[u8], name: &str) -> (r: Result<Vec<[u32; 256]>, KokoroError>)
    ensures
        match r {
            Ok(styles) => npy_error(data@, name@) is None && styles_view(styles@) == npy_styles(
                data@,
            ),
            Err(e) => npy_error(data@, name@) == Some(e@),
        },
{
    if data.len() < 10 {
        let mut msg = prefixed(name, ": file too short (");
        msg.append(decimal_string(data.len()).as_str());
        msg.append(" bytes)");
        return Err(KokoroError::VoiceParse(msg));
    }
    if !has_magic(data) {
        return Err(KokoroError::VoiceParse(prefixed(name, ": invalid numpy magic bytes")));
    }
    let header_len: usize = data[8] as usize + 256 * (data[9] as usize);
    let data_offset: usize = 10 + header_len;
    if data.len() < data_offset {
        let mut msg = prefixed(name, ": header truncated (need ");
        msg.append(decimal_string(data_offset).as_str());
        msg.append(" bytes, got ");
        msg.append(decimal_string(data.len()).as_str());
        msg.append(")");
        return Err(KokoroError::VoiceParse(msg));
    }
    let float_len: usize = data.len() - data_offset;
    if float_len % 4 != 0 {
        let mut msg = prefixed(name, ": float data length ");
        msg.append(decimal_string(float_len).as_str());
        msg.append(" is not a multiple of 4");
        return Err(KokoroError::VoiceParse(msg));
    }
    let n_floats: usize = float_len / 4;
    if n_floats % 256 != 0 {
        let mut msg = prefixed(name, ": float count ");
        msg.append(decimal_string(n_floats).as_str());
        msg.append(" is not a multiple of 256 (style vector dim)");
        return Err(KokoroError::VoiceParse(msg));
    }
    let n_styles: usize = n_floats / 256;
    let ghost payload = npy_payload(data@);
    assert(n_styles == payload.len() / 1024);
    let mut result: Vec<[u32; 256]> = Vec::new();
    let mut i: usize = 0;
    while i < n_styles
        invariant
            i <= n_styles,
            data_offset <= data@.len() <= usize::MAX,
            payload == data@.subrange(data_offset as int, data@.len() as int),
            payload.len() == n_styles * 1024,
            result@.len() == i,
            forall|k: int| 0 <= k < i ==> (#[trigger] result@[k])@ == style_row(payload, k),
        decreases n_styles - i,
    {
        let mut row: [u32; 256] = [0u32; 256];
        let mut j: usize = 0;
        while j < 256
            invariant
                j <= 256,
                i < n_styles,
                data_offset <= data@.len() <= usize::MAX,
                payload == data@.subrange(data_offset as int, data@.len() as int),
                payload.len() == n_styles * 1024,
                forall|k: int| 0 <= k < j ==> #[trigger] row@[k] == le_word(payload, (i * 256 + k) * 4),
            decreases 256 - j,
        {
            let offset: usize = (i * 256 + j) * 4;
            row[j] = read_word(data, data_offset, offset);
            j += 1;
        }
        assert(row@ =~= style_row(payload, i as int));
        result.push(row);
        i += 1;
    }
    assert(styles_view(result@) =~= npy_styles(data@));
    Ok(result)
}

/// `text` without the `c` characters at its end.
pub open spec fn strip_trailing(text: Seq<char>, c: char) -> Seq<char>
    decreases text.len(),
{
    if text.len() > 0 && text.last() == c {
        strip_trailing(text.drop_last(), c)
    } else {
        text
    }
}

/// `text` without the repetitions of `suffix` at its end.
pub open spec fn strip_suffixes(text: Seq<char>, suffix: Seq<char>) -> Seq<char>
    decreases text.len(),
{
    if suffix.len() > 0 && ends_with(text, suffix) {
        strip_suffixes(text.take(text.len() - suffix.len()), suffix)
    } else {
        text
    }
}

/// The extension of array files in a voice archive.
pub open spec fn npy_extension() -> Seq<char> {
    seq!['.', 'n', 'p', 'y']
}

/// The voice that an archive entry of this name holds: the name without
/// trailing separators and without its extension.
pub open spec fn voice_name(raw: Seq<char>) -> Seq<char> {
    strip_suffixes(strip_trailing(raw, '/'), npy_extension())
}

/// Whether an archive entry of this name holds no voice: a directory, or a
/// name that leaves nothing once stripped.
pub open spec fn skips_entry(raw: Seq<char>) -> bool {
    voice_name(raw).len() == 0 || (raw.len() > 0 && raw.last() == '/')
}

/// The voice name of an archive entry, or none for an entry to skip.
pub fn entry_voice(raw_name: &str) -> (voice: Option<String>)
    ensures
        match voice {
            Some(name) => !skips_entry(raw_name@) && name@ == voice_name(raw_name@),
            None => skips_entry(raw_name@),
        },
{
    let raw = collect_chars(raw_name);
    let mut len: usize = raw.len();
    assert(raw@.take(len as int) =~= raw@);
    while len > 0 && raw[len - 1] == '/'
        invariant
            len <= raw@.len(),
            strip_trailing(raw@, '/') == strip_trailing(raw@.take(len as int), '/'),
        decreases len,
    {
        assert(raw@.take(len as int).drop_last() =~= raw@.take(len - 1));
        len -= 1;
    }
    let ghost stem = raw@.take(len as int);
    assert(strip_trailing(raw@, '/') == stem);
    let extension: [char; 4] = ['.', 'n', 'p', 'y'];
    assert(extension@ =~= npy_extension());
    while prefix_ends_with(raw.as_slice(), len, extension.as_slice())
        invariant
            len <= raw@.len(),
            extension@ == npy_extension(),
            voice_name(raw@) == strip_suffixes(raw@.take(len as int), npy_extension()),
        decreases len,
    {
        assert(raw@.take(len as int).take(len - 4) =~= raw@.take(len - 4));
        len -= 4;
    }
    let directory = raw.len() > 0 && raw[raw.len() - 1] == '/';
    if len == 0 || directory {
        None
    } else {
        let name = string_from_chars(raw.as_slice(), 0, len);
        assert(raw@.subrange(0, len as int) =~= raw@.take(len as int));
        Some(name)
    }
}

/// What reading the archive entry at `index` makes of the voices read so far.
pub open spec fn load_step(
    entry: Result<EntryView, Seq<char>>,
    index: nat,
    voices: Map<Seq<char>, Seq<Seq<u32>>>,
) -> Result<Map<Seq<char>, Seq<Seq<u32>>>, KokoroErrorView> {
    match entry {
        Err(reason) => Err(
            KokoroErrorView::VoiceParse(
                "Failed to read zip entry "@ + decimal_text(index) + ": "@ + reason,
            ),
        ),
        Ok(e) => if skips_entry(e.name) {
            Ok(voices)
        } else {
            match e.data {
                Err(reason) => Err(
                    KokoroErrorView::VoiceParse("Failed to read "@ + e.name + ": "@ + reason),
                ),
                Ok(bytes) => match npy_error(bytes, e.name) {
                    Some(error) => Err(error),
                    None => Ok(voices.insert(voice_name(e.name), npy_styles(bytes))),
                },
            }
        },
    }
}

/// The voices after reading the entries from `index` on, in order, stopping
/// at the first that fails.
pub open spec fn load_from(
    entries: Seq<Result<EntryView, Seq<char>>>,
    index: nat,
    voices: Map<Seq<char>, Seq<Seq<u32>>>,
) -> Result<Map<Seq<char>, Seq<Seq<u32>>>, KokoroErrorView>
    decreases entries.len() - index,
{
    if index >= entries.len() {
        Ok(voices)
    } else {
        match load_step(entries[index as int], index, voices) {
            Err(e) => Err(e),
            Ok(next) => load_from(entries, index + 1, next),
        }
    }
}

/// The voices that the bytes of a voice archive hold, or why they hold none.
pub open spec fn archive_voices(bytes: Seq<u8>) -> Result<
    Map<Seq<char>, Seq<Seq<u32>>>,
    KokoroErrorView,
> {
    match zip_read(bytes) {
        Err(reason) => Err(
            KokoroErrorView::VoiceParse("Failed to open zip archive: "@ + reason),
        ),
        Ok(entries) => load_from(entries, 0, Map::empty()),
    }
}

/// Whether the archive entry is an array file whose payload is not a whole
/// number of rows of 256 four-byte values.
pub open spec fn ragged_entry(entry: Result<EntryView, Seq<char>>) -> bool {
    entry matches Ok(e) && !skips_entry(e.name) && (e.data matches Ok(bytes) && bytes.len() >= 10
        && bytes.len() >= npy_data_offset(bytes) && npy_payload(bytes).len() % (4 * 256) != 0)
}

/// Reading stops with a parse error if an entry from `index` on is ragged.
pub proof fn lemma_ragged_entry_fails(
    entries: Seq<Result<EntryView, Seq<char>>>,
    index: nat,
    voices: Map<Seq<char>, Seq<Seq<u32>>>,
    at: int,
)
    requires
        index <= at < entries.len(),
        ragged_entry(entries[at]),
    ensures
        load_from(entries, index, voices) matches Err(e) && e is VoiceParse,
    decreases at - index,
{
    let entry = entries[index as int];
    if let Ok(e) = entry {
        if let Ok(bytes) = e.data {
            lemma_npy_accepts_whole_rows_only(bytes, e.name);
        }
    }
    if index < at {
        if let Ok(next) = load_step(entry, index, voices) {
            lemma_ragged_entry_fails(entries, index + 1, next, at);
        }
    }
}

/// A voice archive with an entry whose payload length is not a multiple of
/// 4 x 256 bytes is rejected with a parse error.
pub proof fn lemma_archive_with_ragged_entry_fails(bytes: Seq<u8>, at: int)
    requires
        zip_read(bytes) matches Ok(entries) && 0 <= at < entries.len() && ragged_entry(entries[at]),
    ensures
        archive_voices(bytes) matches Err(e) && e is VoiceParse,
{
    lemma_ragged_entry_fails(zip_read(bytes)->Ok_0, 0, Map::empty(), at);
}

/// One voice of the store.
struct VoiceEntry {
    name: String,
    styles: Vec<[u32; 256]>,
}

/// Storage for all loaded voice style vectors.
///
/// Each voice has a list of style vectors; the index into the list
/// corresponds to the phoneme token count of the utterance.
pub struct VoiceStore {
    entries: Vec<VoiceEntry>,
}

/// The names of a list of entries.
spec fn entry_names(entries: Seq<VoiceEntry>) -> Seq<Seq<char>> {
    entries.map_values(|e: VoiceEntry| e.name@)
}

/// Whether the entries are in strictly increasing order of name.
pub open spec fn names_ascend(names: Seq<Seq<char>>) -> bool {
    forall|i: int, j: int| 0 <= i < j < names.len() ==> text_less(names[i], names[j])
}

impl VoiceStore {
    /// The names of the entries, in storage order.
    spec fn names(&self) -> Seq<Seq<char>> {
        entry_names(self.entries@)
    }

    #[verifier::type_invariant]
    spec fn well_formed(&self) -> bool {
        names_ascend(self.names())
    }

    /// Where the voice `name` is stored, if the store has it.
    spec fn position(&self, name: Seq<char>) -> int {
        choose|i: int| 0 <= i < self.entries@.len() && self.entries@[i].name@ == name
    }

    proof fn lemma_position(&self, i: int)
        requires
            self.well_formed(),
            0 <= i < self.entries@.len(),
        ensures
            self@.contains_key(self.entries@[i].name@),
            self.position(self.entries@[i].name@) == i,
            self@[self.entries@[i].name@] == styles_view(self.entries@[i].styles@),
    {
        let name = self.entries@[i].name@;
        let p = self.position(name);
        assert(self.names()[i] == name);
        assert(self.names()[p] == name);
        lemma_text_less_irreflexive(name);
    }

    proof fn lemma_absent(&self, name: Seq<char>)
        requires
            forall|i: int| 0 <= i < self.entries@.len() ==> self.entries@[i].name@ != name,
        ensures
            !self@.contains_key(name),
    {
    }

    /// Every style vector of the store has 256 components.
    pub proof fn lemma_styles_have_256_components(&self, voice: Seq<char>, idx: int)
        requires
            self@.contains_key(voice),
            0 <= idx < self@[voice].len(),
        ensures
            self@[voice][idx].len() == 256,
    {
        let styles = self.entries@[self.position(voice)].styles@;
        assert(self@[voice][idx] == styles[idx]@);
    }

    /// An empty store.
    pub fn new() -> (store: VoiceStore)
        ensures
            store@ == Map::<Seq<char>, Seq<Seq<u32>>>::empty(),
    {
        let store = VoiceStore { entries: Vec::new() };
        assert(store@ =~= Map::<Seq<char>, Seq<Seq<u32>>>::empty());
        store
    }

    /// Where `name` is stored, or else where it would have to go.
    fn find(&self, name: &[char]) -> (r: (usize, bool))
        ensures
            r.0 <= self.entries@.len(),
            r.1 ==> r.0 < self.entries@.len() && self.entries@[r.0 as int].name@ == name@,
            !r.1 ==> !self@.contains_key(name@),
            forall|i: int| 0 <= i < r.0 ==> text_less(#[trigger] self.entries@[i].name@, name@),
            !r.1 ==> forall|i: int|
                r.0 <= i < self.entries@.len() ==> text_less(name@, #[trigger] self.entries@[i].name@),
    {
        proof {
            use_type_invariant(self);
        }
        let mut i: usize = 0;
        while i < self.entries.len()
            invariant
                i <= self.entries@.len(),
                self.well_formed(),
                forall|k: int| 0 <= k < i ==> text_less(#[trigger] self.entries@[k].name@, name@),
            decreases self.entries.len() - i,
        {
            let key = collect_chars(self.entries[i].name.as_str());
            match compare_text(key.as_slice(), name) {
                TextOrder::Less => {},
                TextOrder::Equal => {
                    return (i, true);
                },
                TextOrder::Greater => {
                    proof {
                        assert forall|k: int| i <= k < self.entries@.len() implies text_less(
                            name@,
                            #[trigger] self.entries@[k].name@,
                        ) by {
                            if k > i {
                                assert(text_less(self.names()[i as int], self.names()[k]));
                                lemma_text_less_transitive(
                                    name@,
                                    self.entries@[i as int].name@,
                                    self.entries@[k].name@,
                                );
                            }
                        }
                        assert forall|k: int| 0 <= k < self.entries@.len() implies self.entries@[k].name@
                            != name@ by {
                            lemma_text_less_irreflexive(name@);
                        }
                        self.lemma_absent(name@);
                    }
                    return (i, false);
                },
            }
            i += 1;
        }
        proof {
            assert forall|k: int| 0 <= k < self.entries@.len() implies self.entries@[k].name@
                != name@ by {
                lemma_text_less_irreflexive(name@);
            }
            self.lemma_absent(name@);
        }
        (i, false)
    }

    /// Stores `styles` as the style vectors of `name`, replacing what the
    /// store held for that voice.
    pub fn insert(&mut self, name: String, styles: Vec<[u32; 256]>)
        ensures
            final(self)@ == old(self)@.insert(name@, styles_view(styles@)),
    {
        proof {
            use_type_invariant(&*self);
        }
        let key = collect_chars(name.as_str());
        let (at, found) = self.find(key.as_slice());
        let ghost before = *self;
        let ghost added = name@;
        let ghost value = styles_view(styles@);
        let entry = VoiceEntry { name, styles };
        let mut entries: Vec<VoiceEntry> = Vec::new();
        std::mem::swap(&mut self.entries, &mut entries);
        if found {
            entries[at] = entry;
            proof {
                assert(entry_names(entries@) =~= before.names());
            }
        } else {
            entries.insert(at, entry);
            proof {
                let names = entry_names(entries@);
                assert forall|i: int, j: int| 0 <= i < j < names.len() implies text_less(
                    names[i],
                    names[j],
                ) by {
                    let a = if i < at { i } else { i - 1 };
                    let b = if j < at { j } else { j - 1 };
                    if i != at && j != at {
                        assert(text_less(before.names()[a], before.names()[b]));
                    } else if i == at {
                        assert(before.entries@[b].name@ == names[j]);
                    } else {
                        assert(before.entries@[a].name@ == names[i]);
                    }
                }
            }
        }
        std::mem::swap(&mut self.entries, &mut entries);
        proof {
            assert forall|k: Seq<char>| #[trigger]
                self@.contains_key(k) == before@.insert(added, value).contains_key(k) && (
                self@.contains_key(k) ==> self@[k] == before@.insert(added, value)[k]) by {
                if k == added {
                    self.lemma_position(at as int);
                } else if before@.contains_key(k) {
                    let p = before.position(k);
                    before.lemma_position(p);
                    let q = if found || p < at { p } else { p + 1 };
                    assert(self.entries@[q] == before.entries@[p]);
                    self.lemma_position(q);
                } else if self@.contains_key(k) {
                    let q = self.position(k);
                    self.lemma_position(q);
                    let p = if found || q < at { q } else { q - 1 };
                    assert(self.entries@[q] == before.entries@[p]);
                    before.lemma_position(p);
                }
            }
            assert(self@ =~= before@.insert(added, value));
        }
    }

    /// Loads all voices from the bytes of a voice archive.
    ///
    /// The archive is a ZIP container in which each entry is an array file
    /// named after its voice, such as `af_heart.npy`.
    pub fn load(archive_bytes: Vec<u8>) -> (r: Result<VoiceStore, KokoroError>)
        ensures
            match r {
                Ok(store) => archive_voices(archive_bytes@) == Ok::<
                    Map<Seq<char>, Seq<Seq<u32>>>,
                    KokoroErrorView,
                >(store@),
                Err(e) => archive_voices(archive_bytes@) == Err::<
                    Map<Seq<char>, Seq<Seq<u32>>>,
                    KokoroErrorView,
                >(e@),
            },
    {
        let mut archive = match open_archive(archive_bytes) {
            Ok(archive) => archive,
            Err(reason) => {
                return Err(
                    KokoroError::VoiceParse(
                        prefixed("Failed to open zip archive: ", reason.as_str()),
                    ),
                );
            },
        };
        let ghost entries = archive_entries(archive);
        let ghost goal = load_from(entries, 0, Map::empty());
        let count = entry_count(&archive);
        let mut store = VoiceStore::new();
        let mut i: usize = 0;
        while i < count
            invariant
                i <= count,
                count == entries.len(),
                archive_entries(archive) == entries,
                load_from(entries, i as nat, store@) == goal,
                archive_voices(archive_bytes@) == goal,
            decreases count - i,
        {
            let raw_name = match entry_name(&mut archive, i) {
                Ok(name) => name,
                Err(reason) => {
                    let mut msg = prefixed("Failed to read zip entry ", decimal_string(i).as_str());
                    msg.append(": ");
                    msg.append(reason.as_str());
                    return Err(KokoroError::VoiceParse(msg));
                },
            };
            match entry_voice(raw_name.as_str()) {
                None => {},
                Some(voice) => {
                    let data = match entry_data(&mut archive, i) {
                        Ok(data) => data,
                        Err(reason) => {
                            let mut msg = prefixed("Failed to read ", raw_name.as_str());
                            msg.append(": ");
                            msg.append(reason.as_str());
                            return Err(KokoroError::VoiceParse(msg));
                        },
                    };
                    let styles = match parse_npy(data.as_slice(), raw_name.as_str()) {
                        Ok(styles) => styles,
                        Err(e) => {
                            return Err(e);
                        },
                    };
                    store.insert(voice, styles);
                },
            }
            i += 1;
        }
        Ok(store)
    }

    /// The style vector of `voice` at `idx`.
    ///
    /// The index is clamped to the valid range, so any index is safe. A voice
    /// that is absent, or present without any style vector, is not found.
    pub fn get_style(&self, voice: &str, idx: usize) -> (r: Result<[u32; 256], KokoroError>)
        ensures
            match r {
                Ok(style) => selected_style(self@, voice@, idx as int) == Some(style@)
                    && style@.len() == 256,
                Err(e) => selected_style(self@, voice@, idx as int) is None && e@
                    == KokoroErrorView::VoiceNotFound(voice@),
            },
    {
        proof {
            use_type_invariant(self);
        }
        let key = collect_chars(voice);
        let (at, found) = self.find(key.as_slice());
        if !found {
            return Err(KokoroError::VoiceNotFound(voice.to_string()));
        }
        proof {
            self.lemma_position(at as int);
        }
        let styles = &self.entries[at].styles;
        if styles.len() == 0 {
            return Err(KokoroError::VoiceNotFound(voice.to_string()));
        }
        let clamped = if idx < styles.len() {
            idx
        } else {
            styles.len() - 1
        };
        Ok(styles[clamped])
    }

    /// All available voice names in sorted order.
    pub fn list_voices(&self) -> (names: Vec<&str>)
        ensures
            texts(names@).to_set() == self@.dom(),
            names_ascend(texts(names@)),
    {
        proof {
            use_type_invariant(self);
        }
        let mut names: Vec<&str> = Vec::new();
        let mut i: usize = 0;
        while i < self.entries.len()
            invariant
                i <= self.entries@.len(),
                texts(names@) == self.names().take(i as int),
            decreases self.entries.len() - i,
        {
            let ghost prev = names@;
            let name = self.entries[i].name.as_str();
            names.push(name);
            i += 1;
            assert(texts(names@) =~= texts(prev).push(name@));
            assert(self.names().take(i as int) =~= self.names().take(i - 1).push(name@));
        }
        proof {
            assert(self.names().take(i as int) =~= self.names());
            assert forall|k: Seq<char>| texts(names@).to_set().contains(k) == self@.dom().contains(
                k,
            ) by {
                if texts(names@).contains(k) {
                    let p = choose|p: int| 0 <= p < texts(names@).len() && texts(names@)[p] == k;
                    self.lemma_position(p);
                } else if self@.contains_key(k) {
                    let p = self.position(k);
                    assert(texts(names@)[p] == k);
                }
            }
            assert(texts(names@).to_set() =~= self@.dom());
        }
        names
    }
}

/// The index that `idx` is clamped to in a list of `len` style vectors.
pub open spec fn clamped_index(idx: int, len: int) -> int {
    if idx < len {
        idx
    } else {
        len - 1
    }
}

/// The style vector that a store gives for `voice` at `idx`: the one at the
/// index clamped into the voice's list; none if the store lacks the voice or
/// has no style vector for it.
pub open spec fn selected_style(
    voices: Map<Seq<char>, Seq<Seq<u32>>>,
    voice: Seq<char>,
    idx: int,
) -> Option<Seq<u32>> {
    if voices.contains_key(voice) && voices[voice].len() > 0 {
        Some(voices[voice][clamped_index(idx, voices[voice].len() as int)])
    } else {
        None
    }
}

/// An index beyond a voice's last style vector selects the last one, and
/// whether a style is found does not depend on the index.
pub proof fn lemma_style_index_clamps(
    voices: Map<Seq<char>, Seq<Seq<u32>>>,
    voice: Seq<char>,
    idx: int,
    other: int,
)
    requires
        voices.contains_key(voice),
        voices[voice].len() > 0,
        idx >= voices[voice].len(),
    ensures
        selected_style(voices, voice, idx) == selected_style(
            voices,
            voice,
            voices[voice].len() - 1,
        ),
        selected_style(voices, voice, idx) is Some,
        selected_style(voices, voice, other) is Some,
{
}

/// The texts of a list of string slices.
pub open spec fn texts(names: Seq<&str>) -> Seq<Seq<char>> {
    names.map_values(|s: &str| s@)
}

impl View for VoiceStore {
    type V = Map<Seq<char>, Seq<Seq<u32>>>;

    closed spec fn view(&self) -> Map<Seq<char>, Seq<Seq<u32>>> {
        Map::new(
            |name: Seq<char>|
                exists|i: int| 0 <= i < self.entries@.len() && self.entries@[i].name@ == name,
            |name: Seq<char>| styles_view(self.entries@[self.position(name)].styles@),
        )
    }
}

} // verus!
