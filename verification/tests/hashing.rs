use audit_logger::digest::{
    canonical_payload, canonical_string, digest_hex, hash_fields, holds_colon, push_spelled,
    HashError,
};
use audit_logger::models::CreateLogRequest;
use audit_logger::numerals::push_decimal;

fn request(event_type: &str, severity: &str, data: &str) -> CreateLogRequest {
    CreateLogRequest {
        event_type: event_type.to_string(),
        severity: severity.to_string(),
        data: data.to_string(),
    }
}

#[test]
fn fields_without_colons_are_joined_by_colons() {
    assert_eq!(canonical_string("deploy", "info", "{\"v\":1}"), "deploy:info:{\"v\":1}");
    assert_eq!(canonical_string("", "", ""), "::");
    assert_eq!(canonical_string("", "", "a:b:c"), "::a:b:c");
    assert_eq!(
        canonical_string("\u{e9}t\u{e9}", "\u{65e5}", "null"),
        "\u{e9}t\u{e9}:\u{65e5}:null"
    );
}

#[test]
fn fields_with_a_colon_are_spelled_out() {
    assert_eq!(canonical_string("a:b", "c", "null"), "97;58;98;|99;|110;117;108;108;");
    assert_eq!(canonical_string("a", "b:c", "null"), "97;|98;58;99;|110;117;108;108;");
    assert_eq!(canonical_string(":", "", ""), "58;||");
    assert_eq!(canonical_string("", ":", "{}"), "|58;|123;125;");
    assert_eq!(
        canonical_string("\u{65e5}:", "\u{10ffff}", "1"),
        "26085;58;|1114111;|49;"
    );
    for (event_type, severity) in [("a:b", "c"), ("a", "b:c"), (":", ":"), ("x", ":")] {
        let text = canonical_string(event_type, severity, "{\"k\":\"v:w\"}");
        assert!(!text.contains(':'), "{}", text);
    }
}

#[test]
fn holds_colon_finds_a_colon_anywhere() {
    assert!(holds_colon(":"));
    assert!(holds_colon("a:"));
    assert!(holds_colon(":a"));
    assert!(holds_colon("\u{e9}:\u{e9}"));
    assert!(!holds_colon(""));
    assert!(!holds_colon("a;b"));
    assert!(!holds_colon("\u{ff1a}"));
}

#[test]
fn push_decimal_writes_numbers_in_decimal() {
    for (n, written) in [(0usize, "0"), (9, "9"), (10, "10"), (255, "255"), (1000, "1000")] {
        let mut text = String::from("n=");
        push_decimal(&mut text, n);
        assert_eq!(text, format!("n={}", written));
    }
    let mut text = String::new();
    push_decimal(&mut text, usize::MAX);
    assert_eq!(text, usize::MAX.to_string());
}

#[test]
fn push_spelled_appends_code_points() {
    let mut text = String::from(">");
    push_spelled(&mut text, "ab");
    assert_eq!(text, ">97;98;");
    push_spelled(&mut text, "");
    assert_eq!(text, ">97;98;");
    push_spelled(&mut text, "\u{0}");
    assert_eq!(text, ">97;98;0;");
}

#[test]
fn fields_that_hold_colons_are_kept_apart() {
    let a = request("a:b", "c", "null");
    let b = request("a", "b:c", "null");
    assert_ne!(
        canonical_string(&a.event_type, &a.severity, "null"),
        canonical_string(&b.event_type, &b.severity, "null")
    );
    assert_ne!(a.compute_hash().unwrap(), b.compute_hash().unwrap());
    assert_ne!(
        request("1:a", "b", "null").compute_hash().unwrap(),
        request("1", "a:1:b", "null").compute_hash().unwrap()
    );
    assert_ne!(
        request("a", "", "1").compute_hash().unwrap(),
        request("", "a", "1").compute_hash().unwrap()
    );
}

#[test]
fn digest_hex_of_known_inputs() {
    assert_eq!(
        digest_hex(""),
        "e3b0c44298fc1c149afbf4c8996fb92427ae41e4649b934ca495991b7852b855"
    );
    assert_eq!(
        digest_hex("abc"),
        "ba7816bf8f01cfea414140de5dae2223b00361a396177a9cb410ff61f20015ad"
    );
}

#[test]
fn hash_is_the_digest_of_the_joined_fields() {
    assert_eq!(
        hash_fields("deploy", "info", "{\"v\":1}"),
        digest_hex("deploy:info:{\"v\":1}")
    );
    assert_eq!(
        request("deploy", "info", "{ \"v\": 1 }").compute_hash(),
        Ok("07b472b5641d88d6c8139cfeaafb0106b17a088bf4c4f181045e97d1014b0a1a".to_string())
    );
    assert_eq!(
        hash_fields("a:b", "c", "null"),
        digest_hex("97;58;98;|99;|110;117;108;108;")
    );
}

#[test]
fn hash_is_deterministic() {
    let a = request("deploy", "info", "{\"v\":1}");
    let b = request("deploy", "info", "{\"v\":1}");
    assert_eq!(a.compute_hash(), b.compute_hash());
    assert_eq!(a.compute_hash(), a.compute_hash());
    assert_eq!(a.compute_hash().unwrap().len(), 64);
}

#[test]
fn hash_changes_with_each_field() {
    let base = request("deploy", "info", "{\"v\":1}").compute_hash().unwrap();
    assert_ne!(base, request("deploy", "info", "{\"v\":2}").compute_hash().unwrap());
    assert_ne!(base, request("deploy", "warn", "{\"v\":1}").compute_hash().unwrap());
    assert_ne!(base, request("restart", "info", "{\"v\":1}").compute_hash().unwrap());
}

#[test]
fn payload_is_hashed_in_its_canonical_writing() {
    assert_eq!(canonical_payload("{ \"v\" : 1 }"), Ok("{\"v\":1}".to_string()));
    assert_eq!(canonical_payload("{\"b\":1,\"a\":[1, 2]}"), Ok("{\"a\":[1,2],\"b\":1}".to_string()));
    assert_eq!(
        request("deploy", "info", "{ \"v\" : 1 }").compute_hash(),
        request("deploy", "info", "{\"v\":1}").compute_hash()
    );
    assert_eq!(
        request("deploy", "info", "{\"v\":1}").compute_hash().unwrap(),
        hash_fields("deploy", "info", "{\"v\":1}")
    );
}

#[test]
fn unrepresentable_payload_has_no_hash() {
    assert_eq!(canonical_payload("{"), Err(HashError::UnrepresentablePayload));
    assert_eq!(
        request("deploy", "info", "not json").compute_hash(),
        Err(HashError::UnrepresentablePayload)
    );
    assert_eq!(request("deploy", "info", "").compute_hash(), Err(HashError::UnrepresentablePayload));
}
