use tiktoken::CoreBpe;
use vstd::prelude::*;
use vstd::utf8::encode_utf8;

verus! {

#[verifier::external_type_specification]
#[verifier::external_body]
pub struct ExCoreBpe(CoreBpe);

/// The token ids that `tiktoken::CoreBpe::encode` gives for `text` under the
/// encoding named `encoding`, special tokens treated as ordinary text.
pub uninterp spec fn bpe_encode(encoding: Seq<char>, text: Seq<char>) -> Seq<u32>;

/// The token ids that `tiktoken::CoreBpe::encode_with_special_tokens` gives
/// for `text` under the encoding named `encoding`.
pub uninterp spec fn bpe_encode_with_special(encoding: Seq<char>, text: Seq<char>) -> Seq<u32>;

/// The bytes that `tiktoken::CoreBpe::decode` gives for the single token
/// `token` under the encoding named `encoding` (empty for an id that the
/// encoding does not know).
pub uninterp spec fn bpe_token_bytes(encoding: Seq<char>, token: u32) -> Seq<u8>;

/// The bytes of a sequence of tokens: the bytes of each token, in order.
pub open spec fn bpe_decode(encoding: Seq<char>, tokens: Seq<u32>) -> Seq<u8>
    decreases tokens.len(),
{
    if tokens.len() == 0 {
        Seq::empty()
    } else {
        bpe_decode(encoding, tokens.drop_last()) + bpe_token_bytes(encoding, tokens.last())
    }
}

/// The encoding names that `tiktoken::get_encoding` accepts in a build with
/// the crate's default features.
pub open spec fn known_encoding(name: Seq<char>) -> bool {
    ||| name == "cl100k_base"@
    ||| name == "o200k_base"@
    ||| name == "o200k_harmony"@
    ||| name == "p50k_base"@
    ||| name == "p50k_edit"@
    ||| name == "r50k_base"@
    ||| name == "gpt2"@
    ||| name == "llama3"@
    ||| name == "deepseek_v3"@
    ||| name == "deepseek_v4"@
    ||| name == "qwen2"@
    ||| name == "mistral_v3"@
    ||| name == "kimi_k2"@
    ||| name == "kimi_k3"@
    ||| name == "glm4"@
    ||| name == "glm5"@
    ||| name == "minimax_m2"@
}

/// The encodings whose encoding is lossless on every text: `gpt2` and its
/// alias `r50k_base`. Their split pattern matches every character, and their
/// vocabulary holds all 256 single bytes.
pub open spec fn lossless_encoding(name: Seq<char>) -> bool {
    name == "gpt2"@ || name == "r50k_base"@
}

/// A byte-pair-encoding tokenizer of the tiktoken crate, together with the
/// name of its encoding. Only `lookup_encoding` builds one, so the name is
/// always the one the tokenizer was looked up by.
pub struct BpeTokenizer {
    encoding: String,
    core: &'static CoreBpe,
}

impl View for BpeTokenizer {
    type V = Seq<char>;

    /// The name of the encoding.
    closed spec fn view(&self) -> Seq<char> {
        self.encoding@
    }
}

/// Calls `tiktoken::get_encoding`. Its source matches the name against the
/// encodings compiled in (all of `known_encoding` under the default features)
/// and gives `None` for any other name.
#[verifier::external_body]
fn lookup_encoding(name: &str) -> (res: Option<BpeTokenizer>)
    ensures
        res is Some <==> known_encoding(name@),
        res matches Some(t) ==> t@ == name@,
{
    tiktoken::get_encoding(name).map(|core| BpeTokenizer { encoding: name.to_string(), core })
}

/// Calls `tiktoken::CoreBpe::encode`; the result is named by `bpe_encode`.
/// Its source cuts the text into consecutive pieces of the split pattern and
/// turns each piece into tokens whose bytes, in order, are the piece's bytes;
/// under `gpt2`/`r50k_base` the pieces cover the whole text, so decoding the
/// tokens gives the text's UTF-8 bytes back.
#[verifier::external_body]
fn encode_ordinary(tokenizer: &BpeTokenizer, text: &str) -> (res: Vec<u32>)
    ensures
        res@ == bpe_encode(tokenizer@, text@),
        lossless_encoding(tokenizer@) ==> bpe_decode(tokenizer@, res@) == encode_utf8(text@),
{
    tokenizer.core.encode(text)
}

/// Calls `tiktoken::CoreBpe::encode_with_special_tokens`; the result is
/// named by `bpe_encode_with_special`. Its source encodes the text between
/// special tokens as `encode` does and each special token as the id whose
/// decoding is that token's text, so under `gpt2`/`r50k_base` decoding gives
/// the text's UTF-8 bytes back.
#[verifier::external_body]
fn encode_special(tokenizer: &BpeTokenizer, text: &str) -> (res: Vec<u32>)
    ensures
        res@ == bpe_encode_with_special(tokenizer@, text@),
        lossless_encoding(tokenizer@) ==> bpe_decode(tokenizer@, res@) == encode_utf8(text@),
{
    tokenizer.core.encode_with_special_tokens(text)
}

/// Calls `tiktoken::CoreBpe::decode`. Its source appends, token by token,
/// the bytes of that token (nothing for an id it does not know), which the
/// contract states over `bpe_token_bytes`.
#[verifier::external_body]
fn decode_bytes(tokenizer: &BpeTokenizer, tokens: &[u32]) -> (res: Vec<u8>)
    ensures
        res@ == bpe_decode(tokenizer@, tokens@),
        tokens@.len() == 1 ==> res@ == bpe_token_bytes(tokenizer@, tokens@[0]),
{
    tokenizer.core.decode(tokens)
}

impl BpeTokenizer {
    /// The tokenizer of the named encoding, or `None` for an unknown name.
    pub fn get_encoding(name: &str) -> (res: Option<Self>)
        ensures
            res is Some <==> known_encoding(name@),
            res matches Some(t) ==> t@ == name@,
    {
        lookup_encoding(name)
    }

    /// The token ids of `text`, special tokens treated as ordinary text.
    pub fn encode(&self, text: &str) -> (res: Vec<u32>)
        ensures
            res@ == bpe_encode(self@, text@),
            lossless_encoding(self@) ==> bpe_decode(self@, res@) == encode_utf8(text@),
    {
        encode_ordinary(self, text)
    }

    /// The token ids of `text`, special tokens recognised.
    pub fn encode_with_special_tokens(&self, text: &str) -> (res: Vec<u32>)
        ensures
            res@ == bpe_encode_with_special(self@, text@),
            lossless_encoding(self@) ==> bpe_decode(self@, res@) == encode_utf8(text@),
    {
        encode_special(self, text)
    }

    /// The bytes that `tokens` stand for.
    pub fn decode(&self, tokens: &[u32]) -> (res: Vec<u8>)
        ensures
            res@ == bpe_decode(self@, tokens@),
    {
        decode_bytes(self, tokens)
    }
}

/// Decoding is compositional: the bytes of two token sequences one after the
/// other are the bytes of the first followed by those of the second.
pub proof fn lemma_decode_concat(encoding: Seq<char>, a: Seq<u32>, b: Seq<u32>)
    ensures
        bpe_decode(encoding, a + b) == bpe_decode(encoding, a) + bpe_decode(encoding, b),
    decreases b.len(),
{
    if b.len() == 0 {
        assert(a + b =~= a);
    } else {
        lemma_decode_concat(encoding, a, b.drop_last());
        assert((a + b).drop_last() =~= a + b.drop_last());
        assert((a + b).last() == b.last());
    }
}

} // verus!
