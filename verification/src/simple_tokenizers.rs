use std::collections::HashMap;
use vstd::hash_map::StringHashMap;
use vstd::prelude::*;

use crate::patterns::{extract_words, regex_compiles, regex_find_all, word_pattern, words_of};
use crate::text::{join_strings, lemma_trimmed_nonempty_concat, seq_join, string_views};

verus! {

/// The map that a list of `(word, id)` entries describes.
pub open spec fn vocabulary_of(entries: Seq<(String, usize)>) -> Map<Seq<char>, usize>
    decreases entries.len(),
{
    if entries.len() == 0 {
        Map::empty()
    } else {
        vocabulary_of(entries.drop_last()).insert(entries.last().0@, entries.last().1)
    }
}

/// No word occurs twice among the entries.
pub open spec fn distinct_words(entries: Seq<(String, usize)>) -> bool {
    forall|i: int, j: int|
        0 <= i < entries.len() && 0 <= j < entries.len() && i != j ==> entries[i].0@
            != entries[j].0@
}

/// `reverse` maps every id of `vocab` to a word that has that id, and holds
/// nothing else.
pub open spec fn reverse_consistent(
    vocab: Map<Seq<char>, usize>,
    reverse: Map<usize, Seq<char>>,
) -> bool {
    &&& forall|w: Seq<char>| #[trigger]
        vocab.contains_key(w) ==> reverse.contains_key(vocab[w])
    &&& forall|id: usize| #[trigger]
        reverse.contains_key(id) ==> vocab.contains_key(reverse[id]) && vocab[reverse[id]] == id
}

/// No two words share an id.
pub open spec fn injective(vocab: Map<Seq<char>, usize>) -> bool {
    forall|w1: Seq<char>, w2: Seq<char>|
        vocab.contains_key(w1) && vocab.contains_key(w2) && vocab[w1] == vocab[w2] ==> w1 == w2
}

/// The ids of `words`, with `unknown` for each word that `vocab` lacks.
pub open spec fn encode_words_spec(
    vocab: Map<Seq<char>, usize>,
    words: Seq<Seq<char>>,
    unknown: usize,
) -> Seq<usize> {
    words.map_values(|w: Seq<char>| if vocab.contains_key(w) { vocab[w] } else { unknown })
}

/// The words of `ids`, with `unknown` for each id that `reverse` lacks.
pub open spec fn id_words(
    reverse: Map<usize, Seq<char>>,
    ids: Seq<usize>,
    unknown: Seq<char>,
) -> Seq<Seq<char>> {
    ids.map_values(|id: usize| if reverse.contains_key(id) { reverse[id] } else { unknown })
}

/// The text that `ids` decode to: their words joined by single spaces.
pub open spec fn decode_spec(
    reverse: Map<usize, Seq<char>>,
    ids: Seq<usize>,
    unknown: Seq<char>,
) -> Seq<char> {
    seq_join(id_words(reverse, ids, unknown), seq![' '])
}

/// Every word is in the vocabulary.
pub open spec fn all_known(vocab: Map<Seq<char>, usize>, words: Seq<Seq<char>>) -> bool {
    forall|i: int| 0 <= i < words.len() ==> #[trigger] vocab.contains_key(words[i])
}

/// The marker word that stands for words outside the vocabulary.
pub open spec fn unknown_marker() -> Seq<char> {
    "<|unk|>"@
}

/// The word that `SimpleTokenizerV1` decodes an unknown id to.
pub open spec fn unknown_word_v1() -> Seq<char> {
    "<UNK>"@
}

proof fn lemma_vocabulary_of_keys(entries: Seq<(String, usize)>, w: Seq<char>)
    ensures
        vocabulary_of(entries).contains_key(w) <==> exists|j: int|
            0 <= j < entries.len() && #[trigger] entries[j].0@ == w,
    decreases entries.len(),
{
    if entries.len() > 0 {
        let init = entries.drop_last();
        lemma_vocabulary_of_keys(init, w);
        if vocabulary_of(init).contains_key(w) {
            let j = choose|j: int| 0 <= j < init.len() && #[trigger] init[j].0@ == w;
            assert(entries[j].0@ == w);
        }
        if exists|j: int| 0 <= j < entries.len() && #[trigger] entries[j].0@ == w {
            let j = choose|j: int| 0 <= j < entries.len() && #[trigger] entries[j].0@ == w;
            if j < entries.len() - 1 {
                assert(init[j].0@ == w);
            }
        }
    }
}

/// When no word occurs twice, the vocabulary gives every entry's word the
/// entry's id, and holds no other word.
pub proof fn lemma_vocabulary_of_entries(entries: Seq<(String, usize)>)
    requires
        distinct_words(entries),
    ensures
        forall|i: int|
            0 <= i < entries.len() ==> #[trigger] vocabulary_of(entries).contains_key(entries[i].0@)
                && vocabulary_of(entries)[entries[i].0@] == entries[i].1,
        forall|w: Seq<char>|
            vocabulary_of(entries).contains_key(w) ==> exists|i: int|
                0 <= i < entries.len() && #[trigger] entries[i].0@ == w,
    decreases entries.len(),
{
    if entries.len() > 0 {
        let init = entries.drop_last();
        assert(distinct_words(init)) by {
            assert forall|i: int, j: int|
                0 <= i < init.len() && 0 <= j < init.len() && i != j implies init[i].0@
                != init[j].0@ by {
                assert(init[i] == entries[i] && init[j] == entries[j]);
            }
        }
        lemma_vocabulary_of_entries(init);
        assert forall|i: int| 0 <= i < entries.len() implies #[trigger] vocabulary_of(
            entries,
        ).contains_key(entries[i].0@) && vocabulary_of(entries)[entries[i].0@] == entries[i].1 by {
            assert(vocabulary_of(entries) == vocabulary_of(init).insert(
                entries.last().0@,
                entries.last().1,
            ));
            if i < entries.len() - 1 {
                assert(init[i] == entries[i]);
                assert(entries[i].0@ != entries[entries.len() - 1].0@);
                assert(vocabulary_of(init).contains_key(init[i].0@));
            } else {
                assert(entries[i] == entries.last());
            }
        }
        assert forall|w: Seq<char>| vocabulary_of(entries).contains_key(w) implies exists|i: int|
            0 <= i < entries.len() && #[trigger] entries[i].0@ == w by {
            if w != entries.last().0@ {
                assert(vocabulary_of(init).contains_key(w));
                let i = choose|i: int| 0 <= i < init.len() && #[trigger] init[i].0@ == w;
                assert(entries[i].0@ == w);
            } else {
                assert(entries[entries.len() - 1].0@ == w);
            }
        }
    }
}

/// Builds the vocabulary and its reverse from entries with distinct words.
fn build_vocabularies(entries: &Vec<(String, usize)>) -> (res: (
    StringHashMap<usize>,
    HashMap<usize, String>,
))
    requires
        distinct_words(entries@),
    ensures
        res.0@ == vocabulary_of(entries@),
        reverse_consistent(res.0@, res.1@.map_values(|s: String| s@)),
{
    let mut vocabulary: StringHashMap<usize> = StringHashMap::new();
    let mut reverse: HashMap<usize, String> = HashMap::new();
    let n = entries.len();
    let mut i: usize = 0;
    while i < n
        invariant
            n == entries.len(),
            i <= n,
            distinct_words(entries@),
            vocabulary@ == vocabulary_of(entries@.take(i as int)),
            reverse_consistent(vocabulary@, reverse@.map_values(|s: String| s@)),
        decreases n - i,
    {
        let word = entries[i].0.clone();
        let id = entries[i].1;
        let ghost prefix = entries@.take(i as int);
        assert(entries@.take(i + 1).drop_last() =~= prefix);
        proof {
            lemma_vocabulary_of_keys(prefix, word@);
            if vocabulary_of(prefix).contains_key(word@) {
                let j = choose|j: int| 0 <= j < prefix.len() && #[trigger] prefix[j].0@ == word@;
                assert(entries@[j].0@ == entries@[i as int].0@);
            }
        }
        let ghost old_vocab = vocabulary@;
        let ghost old_rev = reverse@.map_values(|s: String| s@);
        vocabulary.insert(entries[i].0.clone(), id);
        reverse.insert(id, word);
        let ghost new_rev = reverse@.map_values(|s: String| s@);
        assert(new_rev =~= old_rev.insert(id, entries@[i as int].0@));
        assert forall|w: Seq<char>| #[trigger] vocabulary@.contains_key(w) implies new_rev.contains_key(
            vocabulary@[w],
        ) by {
            if w != entries@[i as int].0@ {
                assert(old_vocab.contains_key(w));
            }
        }
        assert forall|v: usize| #[trigger] new_rev.contains_key(v) implies vocabulary@.contains_key(
            new_rev[v],
        ) && vocabulary@[new_rev[v]] == v by {
            if v != id {
                assert(old_rev.contains_key(v));
                assert(old_vocab.contains_key(old_rev[v]));
            }
        }
        i = i + 1;
    }
    assert(entries@.take(n as int) =~= entries@);
    (vocabulary, reverse)
}

/// Looks up the word of every id, putting `unknown` for the ids that
/// `reverse` lacks, and joins the words with single spaces.
fn decode_with(reverse: &HashMap<usize, String>, tokens: &[usize], unknown: &str) -> (res: String)
    ensures
        res@ == decode_spec(reverse@.map_values(|s: String| s@), tokens@, unknown@),
{
    let ghost rev = reverse@.map_values(|s: String| s@);
    let mut words: Vec<String> = Vec::new();
    let n = tokens.len();
    let mut i: usize = 0;
    while i < n
        invariant
            n == tokens.len(),
            i <= n,
            rev == reverse@.map_values(|s: String| s@),
            string_views(words@) =~= id_words(rev, tokens@.take(i as int), unknown@),
        decreases n - i,
    {
        let ghost before = words@;
        match reverse.get(&tokens[i]) {
            Some(w) => words.push(w.clone()),
            None => words.push(unknown.to_owned()),
        }
        assert(string_views(words@) =~= string_views(before).push(string_views(words@).last()));
        assert(id_words(rev, tokens@.take(i + 1), unknown@) =~= id_words(
            rev,
            tokens@.take(i as int),
            unknown@,
        ).push(id_words(rev, tokens@.take(i + 1), unknown@).last()));
        i = i + 1;
    }
    assert(tokens@.take(n as int) =~= tokens@);
    proof {
        reveal_strlit(" ");
        assert(" "@ =~= seq![' ']);
    }
    join_strings(&words, " ")
}

/// The ids of `words`, with `unknown` for each word that the vocabulary lacks.
fn lookup_ids(vocabulary: &StringHashMap<usize>, words: &Vec<String>, unknown: usize) -> (res: Vec<
    usize,
>)
    ensures
        res@ == encode_words_spec(vocabulary@, string_views(words@), unknown),
{
    let ghost views = string_views(words@);
    let mut ids: Vec<usize> = Vec::new();
    let n = words.len();
    let mut i: usize = 0;
    while i < n
        invariant
            n == words.len(),
            i <= n,
            views == string_views(words@),
            ids@ =~= encode_words_spec(vocabulary@, views.take(i as int), unknown),
        decreases n - i,
    {
        match vocabulary.get(words[i].as_str()) {
            Some(id) => ids.push(*id),
            None => ids.push(unknown),
        }
        assert(views[i as int] == words@[i as int]@);
        i = i + 1;
    }
    assert(views.take(n as int) =~= views);
    ids
}

/// A word-level tokenizer: it maps the words and punctuation marks of a text
/// to ids of a fixed vocabulary, and ids back to words. A word outside the
/// vocabulary is encoded as the id of the `<|unk|>` marker, and an unknown id
/// is decoded as that marker.
pub struct SimpleTokenizer {
    vocabulary: StringHashMap<usize>,
    reverse_vocabulary: HashMap<usize, String>,
}

impl SimpleTokenizer {
    /// The map from words to ids.
    pub closed spec fn vocab(&self) -> Map<Seq<char>, usize> {
        self.vocabulary@
    }

    /// The map from ids back to words.
    pub closed spec fn reverse_vocab(&self) -> Map<usize, Seq<char>> {
        self.reverse_vocabulary@.map_values(|s: String| s@)
    }

    /// The reverse vocabulary inverts the vocabulary.
    pub open spec fn wf(&self) -> bool {
        reverse_consistent(self.vocab(), self.reverse_vocab())
    }

    /// The id that words outside the vocabulary get.
    pub open spec fn unknown_id(&self) -> usize {
        self.vocab()[unknown_marker()]
    }

    /// The text can be encoded: the word pattern compiles, and the text has
    /// no words or the vocabulary has the `<|unk|>` marker, whose id is looked
    /// up for every word.
    pub open spec fn can_encode(&self, text: Seq<char>) -> bool {
        &&& regex_compiles(word_pattern())
        &&& words_of(text).len() == 0 || self.vocab().contains_key(unknown_marker())
    }

    /// Builds a tokenizer from the `(word, id)` entries of a vocabulary, in
    /// which no word occurs twice.
    pub fn new(vocabulary: Vec<(String, usize)>) -> (t: Self)
        requires
            distinct_words(vocabulary@),
        ensures
            t.vocab() == vocabulary_of(vocabulary@),
            t.wf(),
    {
        let (vocabulary, reverse_vocabulary) = build_vocabularies(&vocabulary);
        SimpleTokenizer { vocabulary, reverse_vocabulary }
    }

    /// The ids of the words of `text`; a word outside the vocabulary gets
    /// the id of `<|unk|>`.
    pub fn encode(&self, text: &str) -> (ids: Vec<usize>)
        requires
            self.can_encode(text@),
        ensures
            ids@ == encode_words_spec(self.vocab(), words_of(text@), self.unknown_id()),
    {
        let words = match extract_words(text) {
            Some(w) => w,
            None => vstd::pervasive::unreached(),
        };
        self.encode_words(&words)
    }

    /// The ids of `words`; a word outside the vocabulary gets the id of
    /// `<|unk|>`, which must be there unless there are no words.
    pub fn encode_words(&self, words: &Vec<String>) -> (ids: Vec<usize>)
        requires
            words.len() == 0 || self.vocab().contains_key(unknown_marker()),
        ensures
            ids@ == encode_words_spec(self.vocab(), string_views(words@), self.unknown_id()),
    {
        proof {
            reveal_strlit("<|unk|>");
        }
        let unknown: usize = match self.vocabulary.get("<|unk|>") {
            Some(id) => *id,
            None => 0,
        };
        let ids = lookup_ids(&self.vocabulary, words, unknown);
        assert(ids@ =~= encode_words_spec(self.vocab(), string_views(words@), self.unknown_id()));
        ids
    }

    /// The ids of the words of `text`, or `None` where it cannot be encoded.
    pub fn try_encode(&self, text: &str) -> (res: Option<Vec<usize>>)
        ensures
            res is Some <==> self.can_encode(text@),
            res matches Some(ids) ==> ids@ == encode_words_spec(
                self.vocab(),
                words_of(text@),
                self.unknown_id(),
            ),
    {
        match extract_words(text) {
            Some(words) => {
                proof {
                    reveal_strlit("<|unk|>");
                }
                if words.len() == 0 || self.vocabulary.contains_key("<|unk|>") {
                    Some(self.encode(text))
                } else {
                    None
                }
            },
            None => None,
        }
    }

    /// The words of `tokens` joined by single spaces; an id outside the
    /// vocabulary is written as `<|unk|>`.
    pub fn decode(&self, tokens: &[usize]) -> (text: String)
        ensures
            text@ == decode_spec(self.reverse_vocab(), tokens@, unknown_marker()),
    {
        decode_with(&self.reverse_vocabulary, tokens, "<|unk|>")
    }
}

/// A word-level tokenizer that encodes a word outside the vocabulary as id 0
/// and decodes an unknown id as `<UNK>`.
pub struct SimpleTokenizerV1 {
    vocabulary: StringHashMap<usize>,
    reverse_vocabulary: HashMap<usize, String>,
}

impl SimpleTokenizerV1 {
    /// The map from words to ids.
    pub closed spec fn vocab(&self) -> Map<Seq<char>, usize> {
        self.vocabulary@
    }

    /// The map from ids back to words.
    pub closed spec fn reverse_vocab(&self) -> Map<usize, Seq<char>> {
        self.reverse_vocabulary@.map_values(|s: String| s@)
    }

    /// The reverse vocabulary inverts the vocabulary.
    pub open spec fn wf(&self) -> bool {
        reverse_consistent(self.vocab(), self.reverse_vocab())
    }

    /// Builds a tokenizer from the `(word, id)` entries of a vocabulary, in
    /// which no word occurs twice.
    pub fn new(vocabulary: Vec<(String, usize)>) -> (t: Self)
        requires
            distinct_words(vocabulary@),
        ensures
            t.vocab() == vocabulary_of(vocabulary@),
            t.wf(),
    {
        let (vocabulary, reverse_vocabulary) = build_vocabularies(&vocabulary);
        SimpleTokenizerV1 { vocabulary, reverse_vocabulary }
    }

    /// The ids of the words of `text`; a word outside the vocabulary gets 0.
    pub fn encode(&self, text: &str) -> (ids: Vec<usize>)
        requires
            regex_compiles(word_pattern()),
        ensures
            ids@ == encode_words_spec(self.vocab(), words_of(text@), 0),
    {
        let words = match extract_words(text) {
            Some(w) => w,
            None => vstd::pervasive::unreached(),
        };
        self.encode_words(&words)
    }

    /// The ids of `words`; a word outside the vocabulary gets 0.
    pub fn encode_words(&self, words: &Vec<String>) -> (ids: Vec<usize>)
        ensures
            ids@ == encode_words_spec(self.vocab(), string_views(words@), 0),
    {
        lookup_ids(&self.vocabulary, words, 0)
    }

    /// The ids of the words of `text`, or `None` where the word pattern does
    /// not compile.
    pub fn try_encode(&self, text: &str) -> (res: Option<Vec<usize>>)
        ensures
            res is Some <==> regex_compiles(word_pattern()),
            res matches Some(ids) ==> ids@ == encode_words_spec(self.vocab(), words_of(text@), 0),
    {
        match extract_words(text) {
            Some(_) => Some(self.encode(text)),
            None => None,
        }
    }

    /// The words of `tokens` joined by single spaces; an id outside the
    /// vocabulary is written as `<UNK>`.
    pub fn decode(&self, tokens: &[usize]) -> (text: String)
        ensures
            text@ == decode_spec(self.reverse_vocab(), tokens@, unknown_word_v1()),
    {
        decode_with(&self.reverse_vocabulary, tokens, "<UNK>")
    }
}

/// Decoding the encoding of known words gives the words back, joined by
/// single spaces, whenever no two words share an id and the reverse
/// vocabulary inverts the vocabulary.
pub proof fn lemma_decode_inverts_encode(
    vocab: Map<Seq<char>, usize>,
    reverse: Map<usize, Seq<char>>,
    words: Seq<Seq<char>>,
    unknown_id: usize,
    unknown_word: Seq<char>,
)
    requires
        reverse_consistent(vocab, reverse),
        injective(vocab),
        all_known(vocab, words),
    ensures
        decode_spec(reverse, encode_words_spec(vocab, words, unknown_id), unknown_word)
            == seq_join(words, seq![' ']),
{
    let ids = encode_words_spec(vocab, words, unknown_id);
    assert forall|i: int| 0 <= i < words.len() implies #[trigger] id_words(
        reverse,
        ids,
        unknown_word,
    )[i] == words[i] by {
        let w = words[i];
        assert(vocab.contains_key(w));
        assert(reverse.contains_key(vocab[w]));
        let back = reverse[vocab[w]];
        assert(vocab.contains_key(back) && vocab[back] == vocab[w]);
    }
    assert(id_words(reverse, ids, unknown_word) =~= words);
}

/// Encoding words one sequence after another gives the ids of the first
/// followed by those of the second.
pub proof fn lemma_encode_words_concat(
    vocab: Map<Seq<char>, usize>,
    w1: Seq<Seq<char>>,
    w2: Seq<Seq<char>>,
    unknown: usize,
)
    ensures
        encode_words_spec(vocab, w1 + w2, unknown) == encode_words_spec(vocab, w1, unknown)
            + encode_words_spec(vocab, w2, unknown),
{
    assert(encode_words_spec(vocab, w1 + w2, unknown) =~= encode_words_spec(vocab, w1, unknown)
        + encode_words_spec(vocab, w2, unknown));
}

/// Encoding a text whose matches of the word pattern are those of `a`
/// followed by those of `b` (as for `a` and `b` joined by a space, when no
/// match of the pattern spans whitespace) gives the ids of `a` followed by
/// those of `b`.
pub proof fn lemma_encode_distributes(
    vocab: Map<Seq<char>, usize>,
    text: Seq<char>,
    a: Seq<char>,
    b: Seq<char>,
    unknown: usize,
)
    ensures
        regex_find_all(word_pattern(), text) == regex_find_all(word_pattern(), a) + regex_find_all(
            word_pattern(),
            b,
        ) ==> encode_words_spec(vocab, words_of(text), unknown) == encode_words_spec(
            vocab,
            words_of(a),
            unknown,
        ) + encode_words_spec(vocab, words_of(b), unknown),
{
    lemma_trimmed_nonempty_concat(
        regex_find_all(word_pattern(), a),
        regex_find_all(word_pattern(), b),
    );
    lemma_encode_words_concat(vocab, words_of(a), words_of(b), unknown);
}

/// Decoding the encoding of a text made of known words joined by single
/// spaces gives the text back, whenever no two words share an id, the
/// reverse vocabulary inverts the vocabulary, and the word pattern splits the
/// text into exactly those words.
pub proof fn lemma_text_round_trip(
    vocab: Map<Seq<char>, usize>,
    reverse: Map<usize, Seq<char>>,
    words: Seq<Seq<char>>,
    unknown_id: usize,
    unknown_word: Seq<char>,
)
    ensures
        ({
            let text = seq_join(words, seq![' ']);
            reverse_consistent(vocab, reverse) && injective(vocab) && all_known(vocab, words)
                && words_of(text) == words ==> decode_spec(
                reverse,
                encode_words_spec(vocab, words_of(text), unknown_id),
                unknown_word,
            ) == text
        }),
{
    let text = seq_join(words, seq![' ']);
    if reverse_consistent(vocab, reverse) && injective(vocab) && all_known(vocab, words)
        && words_of(text) == words {
        lemma_decode_inverts_encode(vocab, reverse, words, unknown_id, unknown_word);
    }
}

} // verus!
