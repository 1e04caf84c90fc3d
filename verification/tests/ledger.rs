use audit_logger::solana::{
    chars_of, check_reference, ends_hash, extract_hash, find_tag, find_token_end, hash_in_message,
    keypair_outcome, load_keypair, memo_data, reference_or_error, verify_log_hash, KeypairError,
    LedgerError, MockSolanaClient, LOG_TAG,
};

fn logs(messages: &[&str]) -> Vec<String> {
    messages.iter().map(|m| m.to_string()).collect()
}

#[test]
fn memo_is_the_tag_and_the_hash() {
    assert_eq!(LOG_TAG, "LOG:");
    assert_eq!(memo_data("abc123"), "LOG:abc123");
    assert_eq!(memo_data(""), "LOG:");
}

#[test]
fn chars_of_keeps_every_character() {
    assert_eq!(chars_of("a\u{e9}\u{65e5}"), vec!['a', '\u{e9}', '\u{65e5}']);
    assert_eq!(chars_of(""), Vec::<char>::new());
}

#[test]
fn find_tag_finds_the_first_tag() {
    assert_eq!(find_tag(&chars_of("LOG:abc")), Some(0));
    assert_eq!(find_tag(&chars_of("xxLOG:abc LOG:def")), Some(2));
    assert_eq!(find_tag(&chars_of("LOLOG:x")), Some(2));
    assert_eq!(find_tag(&chars_of("LOG")), None);
    assert_eq!(find_tag(&chars_of("log:abc")), None);
    assert_eq!(find_tag(&chars_of("")), None);
    assert_eq!(find_tag(&chars_of("\u{65e5}\u{672c}LOG:x")), Some(2));
}

#[test]
fn token_ends_at_the_first_delimiter() {
    let text = chars_of("abc def\"ghi");
    assert_eq!(find_token_end(&text, 0), 3);
    assert_eq!(find_token_end(&text, 3), 3);
    assert_eq!(find_token_end(&text, 4), 7);
    assert_eq!(find_token_end(&text, 8), 11);
    assert_eq!(find_token_end(&text, 11), 11);
    assert_eq!(find_token_end(&chars_of("a\tb"), 0), 1);
    assert_eq!(find_token_end(&chars_of("a\nb"), 0), 1);
    assert_eq!(find_token_end(&chars_of("a\rb"), 0), 1);
}

#[test]
fn delimiters_are_the_double_quote_and_white_space() {
    for code in 0..=0x10ffffu32 {
        if let Some(c) = char::from_u32(code) {
            assert_eq!(ends_hash(c), c == '"' || c.is_whitespace(), "U+{:04X}", code);
        }
    }
    assert!(ends_hash('"'));
    assert!(ends_hash(' '));
    assert!(ends_hash('\u{3000}'));
    assert!(!ends_hash('\''));
    assert!(!ends_hash('a'));
}

#[test]
fn token_end_behind_the_text_is_where_it_starts() {
    let text = chars_of("abc");
    assert_eq!(find_token_end(&text, 3), 3);
    assert_eq!(find_token_end(&text, 7), 7);
}

#[test]
fn hash_is_read_up_to_quote_or_white_space() {
    assert_eq!(hash_in_message("LOG:abc\u{a0}def"), Some("abc".to_string()));
    assert_eq!(hash_in_message("LOG:abc\u{2028}def"), Some("abc".to_string()));
    assert_eq!(hash_in_message("LOG:abc"), Some("abc".to_string()));
    assert_eq!(
        hash_in_message("Program log: Memo (len 10): \"LOG:abc123\""),
        Some("abc123".to_string())
    );
    assert_eq!(hash_in_message("x LOG:abc def"), Some("abc".to_string()));
    assert_eq!(hash_in_message("LOG:abc def\"ghi"), Some("abc".to_string()));
    assert_eq!(hash_in_message("LOG:abc\"def ghi"), Some("abc".to_string()));
    assert_eq!(hash_in_message("LOG:abc\ndef"), Some("abc".to_string()));
    assert_eq!(hash_in_message("LOG:"), Some("".to_string()));
    assert_eq!(hash_in_message("LOG: abc"), Some("".to_string()));
    assert_eq!(hash_in_message("\u{e9}\u{e9} LOG:\u{e9}t\u{e9} x"), Some("\u{e9}t\u{e9}".to_string()));
    assert_eq!(hash_in_message("no tag here"), None);
    assert_eq!(hash_in_message(""), None);
}

#[test]
fn extract_hash_reads_the_first_message_with_a_tag() {
    assert_eq!(
        extract_hash(&logs(&[
            "Program MemoSq4gqABAXKb96qnH8TysNcWxMyWCqXgDLGmfcHr invoke [1]",
            "Program log: Memo (len 68): \"LOG:aa11\"",
            "Program log: \"LOG:bb22\"",
        ])),
        Some("aa11".to_string())
    );
    assert_eq!(extract_hash(&logs(&["first", "second"])), None);
    assert_eq!(extract_hash(&logs(&[])), None);
}

#[test]
fn what_is_anchored_is_read_back() {
    let hash = "ba7816bf8f01cfea414140de5dae2223b00361a396177a9cb410ff61f20015ad";
    let line = format!("Program log: Memo (len 68): \"{}\"", memo_data(hash));
    assert_eq!(extract_hash(&vec![line]), Some(hash.to_string()));
    assert_eq!(hash_in_message(&memo_data(hash)), Some(hash.to_string()));
}

#[test]
fn verify_log_hash_maps_what_was_fetched() {
    assert_eq!(
        verify_log_hash(Ok(Some(logs(&["LOG:abc"])))),
        Ok(Some("abc".to_string()))
    );
    assert_eq!(verify_log_hash(Ok(Some(logs(&["nothing"])))), Ok(None));
    assert_eq!(verify_log_hash(Ok(None)), Ok(None));
    assert_eq!(verify_log_hash(Err(LedgerError::VerifyFailed)), Err(LedgerError::VerifyFailed));
    assert_eq!(
        verify_log_hash(Err(LedgerError::InvalidReferenceFormat)),
        Err(LedgerError::InvalidReferenceFormat)
    );
}

#[test]
fn mock_client_gives_fixed_answers() {
    let client = MockSolanaClient::new();
    assert_eq!(client.submit_log_hash("anything"), Ok("mock_signature_12345".to_string()));
    assert_eq!(client.submit_log_hash(""), Ok("mock_signature_12345".to_string()));
    assert_eq!(client.verify_log_hash("anything"), Ok(Some("mock_hash_67890".to_string())));
}

#[test]
fn reference_must_be_the_base58_of_64_bytes() {
    let zeros = "1".repeat(64);
    assert_eq!(check_reference(&zeros), Ok(vec![0u8; 64]));
    let mut expected = vec![0u8; 64];
    expected[63] = 1;
    let one = format!("{}2", "1".repeat(63));
    assert_eq!(check_reference(&one), Ok(expected));
    assert_eq!(check_reference(""), Err(LedgerError::InvalidReferenceFormat));
    assert_eq!(check_reference("mock_signature_12345"), Err(LedgerError::InvalidReferenceFormat));
    assert_eq!(check_reference(&"1".repeat(63)), Err(LedgerError::InvalidReferenceFormat));
    assert_eq!(check_reference(&"1".repeat(65)), Err(LedgerError::InvalidReferenceFormat));
    assert_eq!(check_reference(&"1".repeat(89)), Err(LedgerError::InvalidReferenceFormat));
    assert_eq!(check_reference(&"0".repeat(64)), Err(LedgerError::InvalidReferenceFormat));
}

#[test]
fn reference_or_error_keeps_the_bytes() {
    assert_eq!(reference_or_error(Some(vec![1, 2, 3])), Ok(vec![1, 2, 3]));
    assert_eq!(reference_or_error(None), Err(LedgerError::InvalidReferenceFormat));
}

fn keypair_bytes() -> Vec<u8> {
    let secret = hex::decode("9d61b19deffd5a60ba844af492ec2cc44449c5697b326919703bac031cae7f60")
        .unwrap();
    let public = hex::decode("d75a980182b10ab7d54bfed3c964073a0ee172f3daa62325af021a68f707511a")
        .unwrap();
    let mut bytes = secret;
    bytes.extend(public);
    bytes
}

fn json_array(bytes: &[u8]) -> String {
    let numbers: Vec<String> = bytes.iter().map(|b| b.to_string()).collect();
    format!("[{}]", numbers.join(","))
}

#[test]
fn keypair_file_is_a_json_array_of_64_bytes() {
    let bytes = keypair_bytes();
    assert_eq!(load_keypair(json_array(&bytes).as_bytes()), Ok(bytes.clone()));
    let spaced = json_array(&bytes).replace(",", " ,\n ");
    assert_eq!(load_keypair(spaced.as_bytes()), Ok(bytes));
}

#[test]
fn keypair_file_that_is_no_byte_array_is_malformed() {
    assert_eq!(load_keypair(b""), Err(KeypairError::Malformed));
    assert_eq!(load_keypair(b"{}"), Err(KeypairError::Malformed));
    assert_eq!(load_keypair(b"[1,2,256]"), Err(KeypairError::Malformed));
    assert_eq!(load_keypair(b"[1,2,-1]"), Err(KeypairError::Malformed));
    assert_eq!(load_keypair(b"[1,2"), Err(KeypairError::Malformed));
    assert_eq!(load_keypair(b"\"abc\""), Err(KeypairError::Malformed));
}

#[test]
fn bytes_that_are_no_keypair_are_invalid() {
    assert_eq!(load_keypair(b"[]"), Err(KeypairError::Invalid));
    assert_eq!(load_keypair(b"[1,2,3]"), Err(KeypairError::Invalid));
    let mut wrong_public = keypair_bytes();
    wrong_public[40] ^= 1;
    assert_eq!(load_keypair(json_array(&wrong_public).as_bytes()), Err(KeypairError::Invalid));
    let mut too_long = keypair_bytes();
    too_long.push(0);
    assert_eq!(load_keypair(json_array(&too_long).as_bytes()), Err(KeypairError::Invalid));
}

#[test]
fn keypair_outcome_follows_what_was_read() {
    assert_eq!(keypair_outcome(Some(vec![1, 2]), true), Ok(vec![1, 2]));
    assert_eq!(keypair_outcome(Some(vec![1, 2]), false), Err(KeypairError::Invalid));
    assert_eq!(keypair_outcome(None, false), Err(KeypairError::Malformed));
    assert_eq!(keypair_outcome(None, true), Err(KeypairError::Malformed));
}
