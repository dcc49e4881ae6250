//! The vocabulary: which token id stands for which phonetic symbol.

use vstd::prelude::*;
use std::collections::HashMap;
use super::json::{as_object, entries_view, int_entries, integer_members, json_text, member, member_of, parse, JsonView};
use super::model::{KokoroError, KokoroErrorView};
use super::text::{collect_chars, debug_string, debug_text, prefixed};

verus! {

broadcast use vstd::std_specs::hash::group_hash_axioms;

/// The key under which a symbol is stored: its code point.
pub open spec fn symbol_key(c: char) -> u32 {
    c as u32
}

proof fn lemma_key_injective(c: char, d: char)
    requires
        symbol_key(c) == symbol_key(d),
    ensures
        c == d,
{
    assert(c as int == d as int);
}

/// Mapping from a phonetic symbol to its token id.
pub struct Vocab {
    table: HashMap<u32, i64>,
}

impl View for Vocab {
    type V = Map<char, i64>;

    closed spec fn view(&self) -> Map<char, i64> {
        Map::new(
            |c: char| self.table@.contains_key(symbol_key(c)),
            |c: char| self.table@[symbol_key(c)],
        )
    }
}

impl Vocab {
    /// The vocabulary without any symbol.
    pub fn new() -> (vocab: Vocab)
        ensures
            vocab@ == Map::<char, i64>::empty(),
    {
        let vocab = Vocab { table: HashMap::new() };
        assert(vocab@ =~= Map::<char, i64>::empty());
        vocab
    }

    /// Maps `symbol` to `id`, replacing an earlier id of the same symbol.
    pub fn insert(&mut self, symbol: char, id: i64)
        ensures
            final(self)@ == old(self)@.insert(symbol, id),
    {
        self.table.insert(symbol as u32, id);
        assert forall|c: char| #[trigger] symbol_key(c) == symbol_key(symbol) implies c == symbol by {
            lemma_key_injective(c, symbol);
        }
        assert(self@ =~= old(self)@.insert(symbol, id));
    }

    /// The id of `symbol`, if the vocabulary has it.
    pub fn get(&self, symbol: char) -> (id: Option<i64>)
        ensures
            id == (if self@.contains_key(symbol) {
                Some(self@[symbol])
            } else {
                None::<i64>
            }),
    {
        let key: u32 = symbol as u32;
        match self.table.get(&key) {
            Some(id) => Some(*id),
            None => None,
        }
    }

    /// Whether the vocabulary has `symbol`.
    pub fn contains(&self, symbol: char) -> (r: bool)
        ensures
            r == self@.contains_key(symbol),
    {
        let key: u32 = symbol as u32;
        self.table.contains_key(&key)
    }
}

/// The vocabulary that a list of configuration entries describes. Each key
/// stands for its first character; a later entry replaces an earlier one for
/// the same character. The first entry with an empty key or a value that is
/// no integer makes the whole list invalid.
pub open spec fn entries_vocab(entries: Seq<(Seq<char>, Option<i64>)>) -> Result<
    Map<char, i64>,
    KokoroErrorView,
>
    decreases entries.len(),
{
    if entries.len() == 0 {
        Ok(Map::empty())
    } else {
        match entries_vocab(entries.drop_last()) {
            Err(e) => Err(e),
            Ok(vocab) => {
                let (key, value) = entries.last();
                if key.len() == 0 {
                    Err(KokoroErrorView::Config("Empty key in vocab: "@ + debug_text(key)))
                } else {
                    match value {
                        None => Err(
                            KokoroErrorView::Config(
                                "Non-integer vocab value for key "@ + debug_text(key),
                            ),
                        ),
                        Some(id) => Ok(vocab.insert(key[0], id)),
                    }
                }
            },
        }
    }
}

/// The vocabulary that a configuration text describes: the members of the
/// `"vocab"` object of the JSON object that the text holds.
pub open spec fn config_vocab(content: Seq<char>) -> Result<Map<char, i64>, KokoroErrorView> {
    match json_text(content) {
        Err(reason) => Err(KokoroErrorView::Config("Failed to parse JSON: "@ + reason)),
        Ok(document) => match member_of(document, "vocab"@) {
            None => Err(KokoroErrorView::Config("Missing 'vocab' field"@)),
            Some(JsonView::Object(members)) => entries_vocab(integer_members(members)),
            Some(_) => Err(KokoroErrorView::Config("'vocab' must be an object"@)),
        },
    }
}

/// Whether `r` is the executable form of `expected`.
pub open spec fn vocab_result_is(
    r: Result<Vocab, KokoroError>,
    expected: Result<Map<char, i64>, KokoroErrorView>,
) -> bool {
    match r {
        Ok(vocab) => expected == Ok::<Map<char, i64>, KokoroErrorView>(vocab@),
        Err(e) => expected == Err::<Map<char, i64>, KokoroErrorView>(e@),
    }
}

/// Builds the vocabulary from configuration entries: key and integer value, in order.
pub fn vocab_from_entries(entries: &Vec<(String, Option<i64>)>) -> (r: Result<Vocab, KokoroError>)
    ensures
        vocab_result_is(r, entries_vocab(entries_view(entries@))),
{
    let mut vocab = Vocab::new();
    let mut i: usize = 0;
    let ghost all = entries_view(entries@);
    assert(all.take(0) =~= Seq::<(Seq<char>, Option<i64>)>::empty());
    while i < entries.len()
        invariant
            i <= entries.len(),
            all == entries_view(entries@),
            entries_vocab(all.take(i as int)) == Ok::<Map<char, i64>, KokoroErrorView>(vocab@),
        decreases entries.len() - i,
    {
        let key = collect_chars(entries[i].0.as_str());
        let value = entries[i].1;
        proof {
            assert(all.take(i + 1).drop_last() =~= all.take(i as int));
            assert(all.take(i + 1).last() == (entries@[i as int].0@, entries@[i as int].1));
            if i + 1 == entries.len() {
                assert(all.take(i + 1) =~= all);
            }
        }
        if key.len() == 0 {
            let shown = debug_string(entries[i].0.as_str());
            let e = KokoroError::Config(prefixed("Empty key in vocab: ", shown.as_str()));
            proof {
                lemma_entries_vocab_error(all, i + 1);
            }
            return Err(e);
        }
        match value {
            None => {
                let shown = debug_string(entries[i].0.as_str());
                let e = KokoroError::Config(
                    prefixed("Non-integer vocab value for key ", shown.as_str()),
                );
                proof {
                    lemma_entries_vocab_error(all, i + 1);
                }
                return Err(e);
            },
            Some(id) => {
                vocab.insert(key[0], id);
            },
        }
        i += 1;
    }
    assert(all.take(i as int) =~= all);
    Ok(vocab)
}

/// Once a prefix of the entries is invalid, so is the whole list, with the same error.
pub proof fn lemma_entries_vocab_error(entries: Seq<(Seq<char>, Option<i64>)>, n: int)
    requires
        0 <= n <= entries.len(),
        entries_vocab(entries.take(n)) is Err,
    ensures
        entries_vocab(entries) == entries_vocab(entries.take(n)),
    decreases entries.len() - n,
{
    if n == entries.len() {
        assert(entries.take(n) =~= entries);
    } else {
        assert(entries.take(n + 1).drop_last() =~= entries.take(n));
        lemma_entries_vocab_error(entries, n + 1);
    }
}

/// Reads the vocabulary from the text of a configuration file.
///
/// The text must be a JSON object with a `"vocab"` member that maps strings
/// to integer token ids.
pub fn load_vocab(content: &str) -> (r: Result<Vocab, KokoroError>)
    ensures
        vocab_result_is(r, config_vocab(content@)),
{
    let document = match parse(content) {
        Ok(document) => document,
        Err(reason) => {
            return Err(KokoroError::Config(prefixed("Failed to parse JSON: ", reason.as_str())));
        },
    };
    let field = match member(&document, "vocab") {
        Some(field) => field,
        None => {
            return Err(KokoroError::Config("Missing 'vocab' field".to_string()));
        },
    };
    let object = match as_object(field) {
        Some(object) => object,
        None => {
            return Err(KokoroError::Config("'vocab' must be an object".to_string()));
        },
    };
    let entries = int_entries(object);
    vocab_from_entries(&entries)
}

/// The built-in Kokoro vocabulary, used when a model ships no configuration.
pub open spec fn hardcoded_vocab_map() -> Map<char, i64> {
    map![
        ';' => 1i64, ':' => 2i64, ',' => 3i64, '.' => 4i64,
        '!' => 5i64, '?' => 6i64, '\u{2014}' => 9i64, '\u{2026}' => 10i64,
        '"' => 11i64, '(' => 12i64, ')' => 13i64, '\u{201c}' => 14i64,
        '\u{201d}' => 15i64, ' ' => 16i64, '\u{0303}' => 17i64, '\u{02a3}' => 18i64,
        '\u{02a5}' => 19i64, '\u{02a6}' => 20i64, '\u{02a8}' => 21i64, '\u{1d5d}' => 22i64,
        '\u{ab67}' => 23i64, 'A' => 24i64, 'I' => 25i64, 'O' => 31i64,
        'Q' => 33i64, 'S' => 35i64, 'T' => 36i64, 'W' => 39i64,
        'Y' => 41i64, '\u{1d4a}' => 42i64, 'a' => 43i64, 'b' => 44i64,
        'c' => 45i64, 'd' => 46i64, 'e' => 47i64, 'f' => 48i64,
        'h' => 50i64, 'i' => 51i64, 'j' => 52i64, 'k' => 53i64,
        'l' => 54i64, 'm' => 55i64, 'n' => 56i64, 'o' => 57i64,
        'p' => 58i64, 'q' => 59i64, 'r' => 60i64, 's' => 61i64,
        't' => 62i64, 'u' => 63i64, 'v' => 64i64, 'w' => 65i64,
        'x' => 66i64, 'y' => 67i64, 'z' => 68i64, '\u{0251}' => 69i64,
        '\u{0250}' => 70i64, '\u{0252}' => 71i64, '\u{00e6}' => 72i64, '\u{03b2}' => 75i64,
        '\u{0254}' => 76i64, '\u{0255}' => 77i64, '\u{00e7}' => 78i64, '\u{0256}' => 80i64,
        '\u{00f0}' => 81i64, '\u{02a4}' => 82i64, '\u{0259}' => 83i64, '\u{025a}' => 85i64,
        '\u{025b}' => 86i64, '\u{025c}' => 87i64, '\u{025f}' => 90i64, '\u{0261}' => 92i64,
        '\u{0265}' => 99i64, '\u{0268}' => 101i64, '\u{026a}' => 102i64, '\u{029d}' => 103i64,
        '\u{026f}' => 110i64, '\u{0270}' => 111i64, '\u{014b}' => 112i64, '\u{0273}' => 113i64,
        '\u{0272}' => 114i64, '\u{0274}' => 115i64, '\u{00f8}' => 116i64, '\u{0278}' => 118i64,
        '\u{03b8}' => 119i64, '\u{0153}' => 120i64, '\u{0279}' => 123i64, '\u{027e}' => 125i64,
        '\u{027b}' => 126i64, '\u{0281}' => 128i64, '\u{027d}' => 129i64, '\u{0282}' => 130i64,
        '\u{0283}' => 131i64, '\u{0288}' => 132i64, '\u{02a7}' => 133i64, '\u{028a}' => 135i64,
        '\u{028b}' => 136i64, '\u{028c}' => 138i64, '\u{0263}' => 139i64, '\u{0264}' => 140i64,
        '\u{03c7}' => 142i64, '\u{028e}' => 143i64, '\u{0292}' => 147i64, '\u{0294}' => 148i64,
        '\u{02c8}' => 156i64, '\u{02cc}' => 157i64, '\u{02d0}' => 158i64, '\u{02b0}' => 162i64,
        '\u{02b2}' => 164i64, '\u{2193}' => 169i64, '\u{2192}' => 171i64, '\u{2197}' => 172i64,
        '\u{2198}' => 173i64, '\u{1d7b}' => 177i64,
    ]
}

/// The built-in Kokoro vocabulary, used when a model ships no configuration.
pub fn hardcoded_vocab() -> (vocab: Vocab)
    ensures
        vocab@ == hardcoded_vocab_map(),
{
    let mut vocab = Vocab::new();
    vocab.insert(';', 1);
    vocab.insert(':', 2);
    vocab.insert(',', 3);
    vocab.insert('.', 4);
    vocab.insert('!', 5);
    vocab.insert('?', 6);
    vocab.insert('\u{2014}', 9);
    vocab.insert('\u{2026}', 10);
    vocab.insert('"', 11);
    vocab.insert('(', 12);
    vocab.insert(')', 13);
    vocab.insert('\u{201c}', 14);
    vocab.insert('\u{201d}', 15);
    vocab.insert(' ', 16);
    vocab.insert('\u{0303}', 17);
    vocab.insert('\u{02a3}', 18);
    vocab.insert('\u{02a5}', 19);
    vocab.insert('\u{02a6}', 20);
    vocab.insert('\u{02a8}', 21);
    vocab.insert('\u{1d5d}', 22);
    vocab.insert('\u{ab67}', 23);
    vocab.insert('A', 24);
    vocab.insert('I', 25);
    vocab.insert('O', 31);
    vocab.insert('Q', 33);
    vocab.insert('S', 35);
    vocab.insert('T', 36);
    vocab.insert('W', 39);
    vocab.insert('Y', 41);
    vocab.insert('\u{1d4a}', 42);
    vocab.insert('a', 43);
    vocab.insert('b', 44);
    vocab.insert('c', 45);
    vocab.insert('d', 46);
    vocab.insert('e', 47);
    vocab.insert('f', 48);
    vocab.insert('h', 50);
    vocab.insert('i', 51);
    vocab.insert('j', 52);
    vocab.insert('k', 53);
    vocab.insert('l', 54);
    vocab.insert('m', 55);
    vocab.insert('n', 56);
    vocab.insert('o', 57);
    vocab.insert('p', 58);
    vocab.insert('q', 59);
    vocab.insert('r', 60);
    vocab.insert('s', 61);
    vocab.insert('t', 62);
    vocab.insert('u', 63);
    vocab.insert('v', 64);
    vocab.insert('w', 65);
    vocab.insert('x', 66);
    vocab.insert('y', 67);
    vocab.insert('z', 68);
    vocab.insert('\u{0251}', 69);
    vocab.insert('\u{0250}', 70);
    vocab.insert('\u{0252}', 71);
    vocab.insert('\u{00e6}', 72);
    vocab.insert('\u{03b2}', 75);
    vocab.insert('\u{0254}', 76);
    vocab.insert('\u{0255}', 77);
    vocab.insert('\u{00e7}', 78);
    vocab.insert('\u{0256}', 80);
    vocab.insert('\u{00f0}', 81);
    vocab.insert('\u{02a4}', 82);
    vocab.insert('\u{0259}', 83);
    vocab.insert('\u{025a}', 85);
    vocab.insert('\u{025b}', 86);
    vocab.insert('\u{025c}', 87);
    vocab.insert('\u{025f}', 90);
    vocab.insert('\u{0261}', 92);
    vocab.insert('\u{0265}', 99);
    vocab.insert('\u{0268}', 101);
    vocab.insert('\u{026a}', 102);
    vocab.insert('\u{029d}', 103);
    vocab.insert('\u{026f}', 110);
    vocab.insert('\u{0270}', 111);
    vocab.insert('\u{014b}', 112);
    vocab.insert('\u{0273}', 113);
    vocab.insert('\u{0272}', 114);
    vocab.insert('\u{0274}', 115);
    vocab.insert('\u{00f8}', 116);
    vocab.insert('\u{0278}', 118);
    vocab.insert('\u{03b8}', 119);
    vocab.insert('\u{0153}', 120);
    vocab.insert('\u{0279}', 123);
    vocab.insert('\u{027e}', 125);
    vocab.insert('\u{027b}', 126);
    vocab.insert('\u{0281}', 128);
    vocab.insert('\u{027d}', 129);
    vocab.insert('\u{0282}', 130);
    vocab.insert('\u{0283}', 131);
    vocab.insert('\u{0288}', 132);
    vocab.insert('\u{02a7}', 133);
    vocab.insert('\u{028a}', 135);
    vocab.insert('\u{028b}', 136);
    vocab.insert('\u{028c}', 138);
    vocab.insert('\u{0263}', 139);
    vocab.insert('\u{0264}', 140);
    vocab.insert('\u{03c7}', 142);
    vocab.insert('\u{028e}', 143);
    vocab.insert('\u{0292}', 147);
    vocab.insert('\u{0294}', 148);
    vocab.insert('\u{02c8}', 156);
    vocab.insert('\u{02cc}', 157);
    vocab.insert('\u{02d0}', 158);
    vocab.insert('\u{02b0}', 162);
    vocab.insert('\u{02b2}', 164);
    vocab.insert('\u{2193}', 169);
    vocab.insert('\u{2192}', 171);
    vocab.insert('\u{2197}', 172);
    vocab.insert('\u{2198}', 173);
    vocab.insert('\u{1d7b}', 177);
    vocab
}

} // verus!
