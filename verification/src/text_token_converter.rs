use vstd::prelude::*;
use vstd::string::*;
use vstd::utf8::{decode_utf8, encode_utf8, valid_utf8};

use crate::bpe::{
    bpe_decode, bpe_encode_with_special, known_encoding, lossless_encoding, BpeTokenizer,
};

verus! {

/// The longest prefix length at which `bytes` is valid UTF-8.
pub open spec fn longest_valid_prefix(bytes: Seq<u8>) -> nat
    decreases bytes.len(),
{
    if valid_utf8(bytes) || bytes.len() == 0 {
        bytes.len()
    } else {
        longest_valid_prefix(bytes.drop_last())
    }
}

/// Calls `String::from_utf8` and, for an error, reads the position up to
/// which the bytes were valid (`Utf8Error::valid_up_to`). The contract
/// restates the documented behaviour: `Ok` exactly for valid UTF-8, holding
/// its characters, and otherwise the longest valid prefix.
#[verifier::external_body]
fn utf8_to_string(bytes: Vec<u8>) -> (res: Result<String, usize>)
    ensures
        match res {
            Ok(s) => valid_utf8(bytes@) && s@ == decode_utf8(bytes@),
            Err(n) => !valid_utf8(bytes@) && n == longest_valid_prefix(bytes@),
        },
{
    String::from_utf8(bytes).map_err(|e| e.utf8_error().valid_up_to())
}

/// The character of a decimal digit.
pub open spec fn digit_char(d: nat) -> char {
    (48 + d) as char
}

/// The decimal digits of `n`, most significant first, without leading zeros.
pub open spec fn decimal(n: nat) -> Seq<char>
    decreases n,
{
    if n < 10 {
        seq![digit_char(n)]
    } else {
        decimal(n / 10).push(digit_char(n % 10))
    }
}

/// The one-character string of a decimal digit.
fn digit_str(d: usize) -> (res: &'static str)
    requires
        d < 10,
    ensures
        res@ == seq![digit_char(d as nat)],
{
    proof {
        reveal_strlit("0");
        reveal_strlit("1");
        reveal_strlit("2");
        reveal_strlit("3");
        reveal_strlit("4");
        reveal_strlit("5");
        reveal_strlit("6");
        reveal_strlit("7");
        reveal_strlit("8");
        reveal_strlit("9");
    }
    let res = match d {
        0 => "0",
        1 => "1",
        2 => "2",
        3 => "3",
        4 => "4",
        5 => "5",
        6 => "6",
        7 => "7",
        8 => "8",
        _ => "9",
    };
    assert(res@ =~= seq![digit_char(d as nat)]);
    res
}

/// Writes `n` in decimal.
pub fn to_decimal(n: usize) -> (res: String)
    ensures
        res@ == decimal(n as nat),
    decreases n,
{
    if n < 10 {
        String::from_str(digit_str(n))
    } else {
        let mut res = to_decimal(n / 10);
        res.append(digit_str(n % 10));
        res
    }
}

/// The text that opens the message of a failed UTF-8 conversion.
pub open spec fn utf8_message_prefix() -> Seq<char> {
    "Can not decode byte sequence to utf8. Sequence valid up to "@
}

/// Why token ids could not be turned back into text.
#[derive(Debug)]
pub enum TokenDecodingError {
    StringConversionError(String),
    DataConversionError(String),
}

impl TokenDecodingError {
    /// The error for bytes that are valid UTF-8 only up to `valid_up_to`.
    pub fn from_utf8_failure(valid_up_to: usize) -> (res: Self)
        ensures
            res matches TokenDecodingError::StringConversionError(m) && m@ == utf8_message_prefix()
                + decimal(valid_up_to as nat),
    {
        let mut message = String::from_str(
            "Can not decode byte sequence to utf8. Sequence valid up to ",
        );
        message.append(to_decimal(valid_up_to).as_str());
        TokenDecodingError::StringConversionError(message)
    }
}

/// Turns text into token ids and token ids back into text with one
/// byte-pair encoding.
pub struct TextTokenConverter {
    tokenizer: BpeTokenizer,
}

impl TextTokenConverter {
    /// The name of the encoding in use.
    pub closed spec fn encoding(&self) -> Seq<char> {
        self.tokenizer@
    }

    /// A converter for the named encoding, which must be one that tiktoken
    /// knows.
    pub fn new(tokenizer_encoding: &str) -> (res: Self)
        requires
            known_encoding(tokenizer_encoding@),
        ensures
            res.encoding() == tokenizer_encoding@,
    {
        match BpeTokenizer::get_encoding(tokenizer_encoding) {
            Some(tokenizer) => TextTokenConverter { tokenizer },
            None => vstd::pervasive::unreached(),
        }
    }

    /// The token ids of `text`, special tokens recognised, forming the one
    /// row of a batch.
    pub fn text_to_token_ids(&self, text: &str) -> (res: Vec<u32>)
        ensures
            res@ == bpe_encode_with_special(self.encoding(), text@),
            lossless_encoding(self.encoding()) ==> bpe_decode(self.encoding(), res@) == encode_utf8(
                text@,
            ),
    {
        self.tokenizer.encode_with_special_tokens(text)
    }

    /// The text of the token ids of one row: their bytes read as UTF-8, or
    /// the error that says how far the bytes were valid.
    pub fn token_ids_to_text(&self, token_ids: &[u32]) -> (res: Result<String, TokenDecodingError>)
        ensures
            ({
                let bytes = bpe_decode(self.encoding(), token_ids@);
                match res {
                    Ok(s) => valid_utf8(bytes) && s@ == decode_utf8(bytes),
                    Err(e) => !valid_utf8(bytes) && (e matches TokenDecodingError::StringConversionError(
                        m,
                    ) && m@ == utf8_message_prefix() + decimal(longest_valid_prefix(bytes))),
                }
            }),
            forall|text: Seq<char>|
                bpe_decode(self.encoding(), token_ids@) == #[trigger] encode_utf8(text) ==> (
                res matches Ok(s) && s@ == text),
    {
        proof {
            assert forall|text: Seq<char>|
                bpe_decode(self.encoding(), token_ids@) == #[trigger] encode_utf8(
                    text,
                ) implies valid_utf8(bpe_decode(self.encoding(), token_ids@)) && decode_utf8(
                bpe_decode(self.encoding(), token_ids@),
            ) == text by {
                lemma_token_text_round_trip(self.encoding(), token_ids@, text);
            }
        }
        let bytes = self.tokenizer.decode(token_ids);
        match utf8_to_string(bytes) {
            Ok(s) => Ok(s),
            Err(n) => Err(TokenDecodingError::from_utf8_failure(n)),
        }
    }
}

/// Token ids whose bytes are the UTF-8 encoding of a text decode to that
/// text: with `text_to_token_ids` under `gpt2`, `token_ids_to_text` of the ids
/// of `text` is `Ok(text)`.
pub proof fn lemma_token_text_round_trip(encoding: Seq<char>, ids: Seq<u32>, text: Seq<char>)
    requires
        bpe_decode(encoding, ids) == encode_utf8(text),
    ensures
        valid_utf8(bpe_decode(encoding, ids)),
        decode_utf8(bpe_decode(encoding, ids)) == text,
{
    vstd::utf8::encode_utf8_valid_utf8(text);
    vstd::utf8::encode_utf8_decode_utf8(text);
}

} // verus!
