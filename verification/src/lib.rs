//! Verified building blocks of a small GPT-style language-model toolkit:
//! word-level tokenizers, byte-pair-encoding handles, sliding-window datasets
//! and batch layouts, and token/text conversion.

mod bpe;
mod cli;
mod dataset;
mod evaluation;
mod items;
mod native_dataset;
mod patterns;
mod shapes;
mod simple_tokenizers;
mod text;
mod text_token_converter;
mod windows;

pub use text::{
    join_strings, lemma_trimmed_nonempty_concat, seq_join, single_line, single_line_spec,
    string_views, trim_and_drop_empty, trim_spec, trim_to_string, trimmed_nonempty,
};
pub use patterns::{
    extract_words, lemma_separator_pattern, lemma_word_pattern, pieces_of, separator_marks, word_marks, regex_compiles, regex_find_all, regex_split, separator_pattern,
    split_into_words, word_pattern, words_of,
};
pub use simple_tokenizers::{
    all_known, decode_spec, distinct_words, encode_words_spec, id_words, injective,
    lemma_decode_inverts_encode, lemma_encode_distributes, lemma_encode_words_concat,
    lemma_text_round_trip, lemma_vocabulary_of_entries, reverse_consistent, unknown_marker,
    unknown_word_v1, vocabulary_of, SimpleTokenizer, SimpleTokenizerV1,
};
pub use bpe::{
    bpe_decode, bpe_encode, bpe_encode_with_special, bpe_token_bytes, known_encoding,
    lemma_decode_concat, lossless_encoding, BpeTokenizer,
};
pub use windows::{
    input_window, lemma_targets_follow_inputs, lemma_window_count, next_token_pairs, row_views,
    sliding_windows, target_window, window_count, windows_spec,
};
pub use dataset::{
    flatten_rows, inputs_of, rows_of_width, targets_of, GPTBatch, GPTBatcher,
    GPTDataset, GPTItem,
};
pub use native_dataset::{
    lemma_row_major, lemma_split_partitions, lemma_split_ratio, lemma_windows_tile, split_point,
    NativeGptBatch, NativeGptDataBatcher, NativeGptDataset, NativeGptItem,
};
pub use text_token_converter::{
    decimal, digit_char, lemma_token_text_round_trip, longest_valid_prefix, to_decimal,
    utf8_message_prefix,
    TextTokenConverter, TokenDecodingError,
};
pub use evaluation::{batch_limit_reached, lemma_batch_limit, limit_reached};
pub use items::{pair_views, TokenWindows};
pub use shapes::{head_dim, layer_shapes};
pub use cli::{Cli, Commands};
