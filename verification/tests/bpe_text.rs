use llm_from_scratch::{to_decimal, BpeTokenizer, TextTokenConverter, TokenDecodingError};

#[test]
fn gpt2_encodes_hello_world() {
    let tok = BpeTokenizer::get_encoding("gpt2").unwrap();
    assert_eq!(tok.encode("Hello, world"), vec![15496, 11, 995]);
    assert_eq!(tok.decode(&[15496, 11, 995]), b"Hello, world".to_vec());
}

#[test]
fn unknown_encoding_is_none() {
    assert!(BpeTokenizer::get_encoding("no_such_encoding").is_none());
    assert!(BpeTokenizer::get_encoding("cl100k_base").is_some());
}

#[test]
fn decode_is_concatenation_of_token_bytes() {
    let tok = BpeTokenizer::get_encoding("gpt2").unwrap();
    let mut bytes = tok.decode(&[15496]);
    bytes.extend(tok.decode(&[11, 995]));
    assert_eq!(tok.decode(&[15496, 11, 995]), bytes);
}

#[test]
fn special_tokens_are_recognised() {
    let conv = TextTokenConverter::new("gpt2");
    assert_eq!(conv.text_to_token_ids("Hello<|endoftext|>"), vec![15496, 50256]);
    let tok = BpeTokenizer::get_encoding("gpt2").unwrap();
    assert_ne!(tok.encode("Hello<|endoftext|>"), vec![15496, 50256]);
}

#[test]
fn token_ids_round_trip_to_text() {
    let conv = TextTokenConverter::new("gpt2");
    let ids = conv.text_to_token_ids("Every effort moves you");
    assert_eq!(conv.token_ids_to_text(&ids).unwrap(), "Every effort moves you");
}

#[test]
fn invalid_utf8_reports_valid_prefix() {
    let conv = TextTokenConverter::new("gpt2");
    let tok = BpeTokenizer::get_encoding("gpt2").unwrap();
    let mut prefix = Vec::new();
    let mut found = false;
    for text in ["a\u{1F980}", "\u{1F980}\u{1F980}", "\u{65E5}\u{672C}\u{8A9E}", "a\u{20ac}"] {
        let ids = tok.encode(text);
        for k in 1..ids.len() {
            prefix = ids[..k].to_vec();
            let bytes = tok.decode(&prefix);
            if std::str::from_utf8(&bytes).is_err() {
                found = true;
                break;
            }
        }
        if found {
            break;
        }
    }
    assert!(found);
    let bytes = tok.decode(&prefix);
    let valid = std::str::from_utf8(&bytes).unwrap_err().valid_up_to();
    match conv.token_ids_to_text(&prefix) {
        Err(TokenDecodingError::StringConversionError(m)) => assert_eq!(
            m,
            format!("Can not decode byte sequence to utf8. Sequence valid up to {}", valid)
        ),
        other => panic!("unexpected {:?}", other),
    }
}

#[test]
fn utf8_failure_message_names_position() {
    match TokenDecodingError::from_utf8_failure(17) {
        TokenDecodingError::StringConversionError(m) => {
            assert_eq!(m, "Can not decode byte sequence to utf8. Sequence valid up to 17")
        }
        other => panic!("unexpected {:?}", other),
    }
}

#[test]
fn decimal_writing() {
    assert_eq!(to_decimal(0), "0");
    assert_eq!(to_decimal(7), "7");
    assert_eq!(to_decimal(10), "10");
    assert_eq!(to_decimal(1234567890), "1234567890");
}
