use llm_from_scratch::{extract_words, split_into_words, SimpleTokenizer, SimpleTokenizerV1};

fn vocabulary(words: &[&str]) -> Vec<(String, usize)> {
    words.iter().enumerate().map(|(i, w)| (w.to_string(), i)).collect()
}

fn sample_words() -> Vec<(String, usize)> {
    vocabulary(&[
        "!", "\"", "'", "(", ")", ",", "--", ".", ":", ";", "?", "Hello", "I", "It", "do", "in",
        "like", "sunlit", "tea", "terraces", "the", "you", "<|endoftext|>", "<|unk|>",
    ])
}

#[test]
fn extract_words_splits_punctuation_and_dashes() {
    let words = extract_words("Hello, do you like tea? It's the--last-he said.").unwrap();
    assert_eq!(
        words,
        vec![
            "Hello", ",", "do", "you", "like", "tea", "?", "It", "'", "s", "the", "--", "last",
            "-", "he", "said", "."
        ]
    );
}

#[test]
fn split_into_words_drops_separators() {
    let words = split_into_words("Hello, world. Is this-- a test?").unwrap();
    assert_eq!(words, vec!["Hello", "world", "Is", "this", "a", "test"]);
}

#[test]
fn split_into_words_of_blank_text_is_empty() {
    let words = split_into_words("   \n\t ").unwrap();
    assert!(words.is_empty());
}

#[test]
fn encode_gives_ids_of_words() {
    let tok = SimpleTokenizer::new(sample_words());
    let ids = tok.encode("Hello, do you like tea?");
    assert_eq!(ids, vec![11, 5, 14, 21, 16, 18, 10]);
}

#[test]
fn decode_of_encode_joins_words_with_spaces() {
    let tok = SimpleTokenizer::new(sample_words());
    let ids = tok.encode("Hello, do you like tea? In the sunlit terraces");
    assert_eq!(tok.decode(&ids), "Hello , do you like tea ? <|unk|> the sunlit terraces");
}

#[test]
fn unknown_words_get_the_unk_id() {
    let tok = SimpleTokenizer::new(sample_words());
    assert_eq!(tok.encode("Hello palace"), vec![11, 23]);
}

#[test]
fn unknown_ids_decode_to_unk_marker() {
    let tok = SimpleTokenizer::new(sample_words());
    assert_eq!(tok.decode(&[11, 999, 21]), "Hello <|unk|> you");
}

#[test]
fn try_encode_needs_the_unk_marker_for_any_word() {
    let tok = SimpleTokenizer::new(vocabulary(&["Hello", ","]));
    assert_eq!(tok.try_encode("Hello, world"), None);
    assert_eq!(tok.try_encode("Hello, Hello"), None);
    assert_eq!(tok.try_encode("   "), Some(vec![]));
    let with_marker = SimpleTokenizer::new(vocabulary(&["Hello", ",", "<|unk|>"]));
    assert_eq!(with_marker.try_encode("Hello, world"), Some(vec![0, 1, 2]));
}

#[test]
fn empty_text_encodes_to_nothing() {
    let tok = SimpleTokenizer::new(sample_words());
    assert!(tok.encode("").is_empty());
    assert_eq!(tok.decode(&[]), "");
}

#[test]
fn v1_encodes_unknown_words_as_zero() {
    let tok = SimpleTokenizerV1::new(vocabulary(&["!", "Hello", "world"]));
    assert_eq!(tok.encode("Hello brave world!"), vec![1, 0, 2, 0]);
    assert_eq!(tok.try_encode("world"), Some(vec![2]));
}

#[test]
fn v1_decodes_unknown_ids_as_unk() {
    let tok = SimpleTokenizerV1::new(vocabulary(&["!", "Hello", "world"]));
    assert_eq!(tok.decode(&[1, 7, 2, 0]), "Hello <UNK> world !");
}

#[test]
fn v1_round_trip_of_known_words() {
    let tok = SimpleTokenizerV1::new(vocabulary(&["I", "like", "tea", "."]));
    let ids = tok.encode("I like tea.");
    assert_eq!(ids, vec![0, 1, 2, 3]);
    assert_eq!(tok.decode(&ids), "I like tea .");
}

#[test]
fn trimming_drops_blank_pieces() {
    let pieces = vec![" a ".to_string(), "  ".to_string(), "b\t".to_string(), "".to_string()];
    assert_eq!(llm_from_scratch::trim_and_drop_empty(&pieces), vec!["a", "b"]);
}

#[test]
fn single_line_replaces_line_breaks() {
    assert_eq!(llm_from_scratch::single_line("a\r\nb\nc\rd"), "a b c d");
    assert_eq!(llm_from_scratch::single_line("\n\r"), "  ");
    assert_eq!(llm_from_scratch::single_line("no breaks"), "no breaks");
}

#[test]
fn join_strings_puts_separator_between() {
    let words = vec!["a".to_string(), "b".to_string(), "c".to_string()];
    assert_eq!(llm_from_scratch::join_strings(&words, ", "), "a, b, c");
    assert_eq!(llm_from_scratch::join_strings(&Vec::new(), ", "), "");
}

#[test]
fn encode_words_looks_up_each_word() {
    let tok = SimpleTokenizer::new(sample_words());
    let words = vec!["tea".to_string(), "palace".to_string(), "?".to_string()];
    assert_eq!(tok.encode_words(&words), vec![18, 23, 10]);
    assert!(tok.encode_words(&Vec::new()).is_empty());
    let v1 = SimpleTokenizerV1::new(vocabulary(&["a", "b"]));
    assert_eq!(v1.encode_words(&vec!["b".to_string(), "c".to_string()]), vec![1, 0]);
}

#[test]
fn encoding_distributes_over_space_joined_text() {
    let tok = SimpleTokenizer::new(sample_words());
    let a = "Hello, do you";
    let b = "like tea?";
    let mut joined = tok.encode(a);
    joined.extend(tok.encode(b));
    assert_eq!(tok.encode(&format!("{} {}", a, b)), joined);
}

#[test]
fn decode_of_encode_gives_back_space_joined_words() {
    let tok = SimpleTokenizerV1::new(vocabulary(&["Hello", ",", "do", "you", "like", "tea", "?"]));
    let text = "Hello , do you like tea ?";
    assert_eq!(tok.decode(&tok.encode(text)), text);
}

#[test]
fn trim_to_string_removes_unicode_whitespace() {
    assert_eq!(llm_from_scratch::trim_to_string("\u{3000} a b\u{A0}\n"), "a b");
    assert_eq!(llm_from_scratch::trim_to_string("   "), "");
    assert_eq!(llm_from_scratch::trim_to_string("x"), "x");
}
