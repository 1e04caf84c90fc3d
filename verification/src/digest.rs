//! The content hash of an event.
//!
//! The hash of an event is the lowercase hexadecimal SHA-256 digest of a text
//! that holds its three fields. Where neither the event type nor the severity
//! holds a colon, the text is `event_type:severity:payload`, with the payload
//! the event's JSON document in its canonical writing. A colon in one of the
//! two would blur where it ends, so such an event is hashed from another
//! text, in which the three fields are spelled out by their code points.
//! Either way the text determines the three fields.

use crate::models::text_of;
use crate::numerals::{
    decimal, is_digit, lemma_decimal_digits, lemma_decimal_injective, push_decimal,
};
use sha2::{Digest, Sha256};
use vstd::prelude::*;
use vstd::utf8::encode_utf8;

verus! {

/// The SHA-256 digest of a byte sequence.
pub uninterp spec fn sha256_of(data: Seq<u8>) -> Seq<u8>;

/// The canonical writing of a JSON document: the text that `serde_json` writes
/// for the value it reads from `text`, or `None` where `text` is not a JSON
/// document that it accepts.
pub uninterp spec fn json_canonical(text: Seq<char>) -> Option<Seq<char>>;

/// The hexadecimal digit of a value below sixteen.
pub open spec fn hex_digit(n: int) -> char {
    seq!['0', '1', '2', '3', '4', '5', '6', '7', '8', '9', 'a', 'b', 'c', 'd', 'e', 'f'][n]
}

/// The lowercase hexadecimal writing of a byte sequence: two digits for each
/// byte, the high half first.
pub open spec fn hex_of(bytes: Seq<u8>) -> Seq<char> {
    Seq::new(
        2 * bytes.len(),
        |i: int|
            if i % 2 == 0 {
                hex_digit(bytes[i / 2] as int / 16)
            } else {
                hex_digit(bytes[i / 2] as int % 16)
            },
    )
}

/// Whether a text holds no colon.
pub open spec fn colon_free(text: Seq<char>) -> bool {
    forall|i: int| 0 <= i < text.len() ==> text[i] != ':'
}

/// A text spelled out: the code point of each character in decimal, each
/// followed by a semicolon.
pub open spec fn spelled(text: Seq<char>) -> Seq<char>
    decreases text.len(),
{
    if text.len() == 0 {
        Seq::empty()
    } else {
        decimal(text[0] as u32 as nat) + seq![';'] + spelled(text.skip(1))
    }
}

/// The three fields joined by colons.
pub open spec fn joined(event_type: Seq<char>, severity: Seq<char>, payload: Seq<char>) -> Seq<
    char,
> {
    event_type + seq![':'] + severity + seq![':'] + payload
}

/// The three fields spelled out and joined by bars. This text holds no
/// colon.
pub open spec fn spelled_out(event_type: Seq<char>, severity: Seq<char>, payload: Seq<char>) -> Seq<
    char,
> {
    spelled(event_type) + seq!['|'] + spelled(severity) + seq!['|'] + spelled(payload)
}

/// The text that is hashed for an event: the three fields joined by colons
/// where neither event type nor severity holds a colon, and the three
/// spelled out where one does.
pub open spec fn hash_input(event_type: Seq<char>, severity: Seq<char>, payload: Seq<char>) -> Seq<
    char,
> {
    if colon_free(event_type) && colon_free(severity) {
        joined(event_type, severity, payload)
    } else {
        spelled_out(event_type, severity, payload)
    }
}

/// The hash of an event whose payload is already in its canonical writing.
pub open spec fn record_hash(event_type: Seq<char>, severity: Seq<char>, payload: Seq<char>) -> Seq<
    char,
> {
    hex_of(sha256_of(encode_utf8(hash_input(event_type, severity, payload))))
}

/// The hash of an event: that of its fields with the payload in its canonical
/// writing, or `None` where the payload is not a JSON document.
pub open spec fn event_hash(event_type: Seq<char>, severity: Seq<char>, data: Seq<char>) -> Option<
    Seq<char>,
> {
    match json_canonical(data) {
        Some(payload) => Some(record_hash(event_type, severity, payload)),
        None => None,
    }
}

/// Why no hash could be computed.
#[derive(Clone, Copy, Debug, PartialEq, Eq, Structural)]
pub enum HashError {
    /// The payload is not a JSON document.
    UnrepresentablePayload,
}

/// Calls `sha2::Sha256::digest`. The contract names the digest `sha256_of` of
/// the input and claims only that it is 32 bytes long, the output size of
/// SHA-256.
#[verifier::external_body]
fn sha256(data: &[u8]) -> (digest: Vec<u8>)
    ensures
        digest@ == sha256_of(data@),
        digest@.len() == 32,
{
    Sha256::digest(data).to_vec()
}

/// Calls `hex::encode`. The contract claims what its documentation says: each
/// byte becomes two lowercase hexadecimal digits, in order.
#[verifier::external_body]
fn hex_encode(bytes: &[u8]) -> (text: String)
    ensures
        text@ == hex_of(bytes@),
{
    hex::encode(bytes)
}

/// Reads `text` with `serde_json::from_str` as a `serde_json::Value` and
/// writes that value back with `serde_json::to_string`. The contract names
/// the outcome `json_canonical` of the input: the written text where both
/// calls succeed, nothing where either fails.
#[verifier::external_body]
fn canonical_json(text: &str) -> (r: Option<String>)
    ensures
        text_of(r) == json_canonical(text@),
{
    match serde_json::from_str::<serde_json::Value>(text) {
        Ok(value) => serde_json::to_string(&value).ok(),
        Err(_) => None,
    }
}

/// Whether a text holds a colon.
pub fn holds_colon(text: &str) -> (b: bool)
    ensures
        b == !colon_free(text@),
{
    let mut found = false;
    let ghost mut at: int = 0;
    for c in it: text.chars()
        invariant
            it.seq() == text@,
            found ==> 0 <= at < text@.len() && text@[at] == ':',
            !found ==> forall|k: int| 0 <= k < it.index() ==> text@[k] != ':',
    {
        if c == ':' {
            found = true;
            proof {
                at = it.index() as int;
            }
        }
    }
    found
}

/// Appends a text spelled out to another.
pub fn push_spelled(text: &mut String, field: &str)
    ensures
        final(text)@ == old(text)@ + spelled(field@),
{
    proof {
        reveal_strlit(";");
    }
    assert(field@.take(0) =~= Seq::<char>::empty());
    assert(text@ =~= old(text)@ + spelled(field@.take(0)));
    for c in it: field.chars()
        invariant
            it.seq() == field@,
            ";"@ == seq![';'],
            text@ == old(text)@ + spelled(field@.take(it.index() as int)),
    {
        let ghost before = text@;
        let ghost done = field@.take(it.index() as int);
        let code: u32 = c as u32;
        push_decimal(text, code as usize);
        text.append(";");
        proof {
            lemma_spelled_push(done, c);
            assert(field@.take(it.index() + 1) =~= done.push(c));
            assert(text@ =~= old(text)@ + spelled(done.push(c)));
        }
    }
    assert(field@.take(field@.len() as int) =~= field@);
}

/// Joins the three fields of an event into the text that is hashed.
pub fn canonical_string(event_type: &str, severity: &str, payload: &str) -> (text: String)
    ensures
        text@ == hash_input(event_type@, severity@, payload@),
{
    proof {
        reveal_strlit(":");
        reveal_strlit("|");
    }
    assert(":"@ =~= seq![':']);
    assert("|"@ =~= seq!['|']);
    if holds_colon(event_type) || holds_colon(severity) {
        let mut text = String::new();
        push_spelled(&mut text, event_type);
        text.append("|");
        push_spelled(&mut text, severity);
        text.append("|");
        push_spelled(&mut text, payload);
        assert(text@ =~= spelled_out(event_type@, severity@, payload@));
        text
    } else {
        let mut text = event_type.to_owned();
        text.append(":");
        text.append(severity);
        text.append(":");
        text.append(payload);
        assert(text@ =~= joined(event_type@, severity@, payload@));
        text
    }
}

/// The lowercase hexadecimal SHA-256 digest of the UTF-8 bytes of `text`:
/// 64 characters.
pub fn digest_hex(text: &str) -> (hash: String)
    ensures
        hash@ == hex_of(sha256_of(encode_utf8(text@))),
        hash@.len() == 64,
{
    let digest = sha256(text.as_bytes());
    hex_encode(digest.as_slice())
}

/// The hash of an event whose payload is already in its canonical writing.
pub fn hash_fields(event_type: &str, severity: &str, payload: &str) -> (hash: String)
    ensures
        hash@ == record_hash(event_type@, severity@, payload@),
        hash@.len() == 64,
{
    let text = canonical_string(event_type, severity, payload);
    digest_hex(text.as_str())
}

/// The canonical writing of a JSON payload.
pub fn canonical_payload(payload: &str) -> (r: Result<String, HashError>)
    ensures
        match r {
            Ok(text) => json_canonical(payload@) == Some(text@),
            Err(e) => json_canonical(payload@) is None && e == HashError::UnrepresentablePayload,
        },
{
    match canonical_json(payload) {
        Some(text) => Ok(text),
        None => Err(HashError::UnrepresentablePayload),
    }
}

/// Whether a character is a lowercase hexadecimal digit.
pub open spec fn is_hex_digit(c: char) -> bool {
    ('0' <= c <= '9') || ('a' <= c <= 'f')
}

/// The hexadecimal writing of bytes is twice as long as the bytes and holds
/// lowercase hexadecimal digits only.
pub proof fn lemma_hex_of_digits(bytes: Seq<u8>)
    ensures
        hex_of(bytes).len() == 2 * bytes.len(),
        forall|i: int| 0 <= i < hex_of(bytes).len() ==> is_hex_digit(#[trigger] hex_of(bytes)[i]),
{
    assert forall|i: int| 0 <= i < hex_of(bytes).len() implies is_hex_digit(
        #[trigger] hex_of(bytes)[i],
    ) by {
        let byte = bytes[i / 2] as int;
        let n = if i % 2 == 0 {
            byte / 16
        } else {
            byte % 16
        };
        assert(0 <= n < 16);
        assert(hex_of(bytes)[i] == hex_digit(n));
    }
}

/// The hash is a function of the three fields of an event: events with
/// equal fields have equal hashes, and either both have one or neither.
pub proof fn lemma_hash_deterministic(
    event_type: Seq<char>,
    severity: Seq<char>,
    data: Seq<char>,
    other_event_type: Seq<char>,
    other_severity: Seq<char>,
    other_data: Seq<char>,
)
    requires
        event_type == other_event_type,
        severity == other_severity,
        data == other_data,
    ensures
        event_hash(event_type, severity, data) == event_hash(
            other_event_type,
            other_severity,
            other_data,
        ),
{
}

/// Whether a text holds no character `c`.
pub open spec fn free_of(text: Seq<char>, c: char) -> bool {
    forall|i: int| 0 <= i < text.len() ==> text[i] != c
}

/// A text that starts with a part free of a character, followed by that
/// character, shows where the part ends: two such texts that are equal
/// start with the same part and go on alike.
proof fn lemma_split_at(
    c: char,
    a: Seq<char>,
    rest_a: Seq<char>,
    b: Seq<char>,
    rest_b: Seq<char>,
)
    requires
        free_of(a, c),
        free_of(b, c),
        a + seq![c] + rest_a == b + seq![c] + rest_b,
    ensures
        a == b,
        rest_a == rest_b,
{
    let text = a + seq![c] + rest_a;
    let other = b + seq![c] + rest_b;
    assert(text[a.len() as int] == c);
    assert(other[b.len() as int] == c);
    if a.len() < b.len() {
        assert(other[a.len() as int] == b[a.len() as int]);
    }
    if b.len() < a.len() {
        assert(text[b.len() as int] == a[b.len() as int]);
    }
    assert forall|i: int| 0 <= i < a.len() implies a[i] == b[i] by {
        assert(text[i] == a[i]);
        assert(other[i] == b[i]);
    }
    assert(a =~= b);
    assert(text.len() == other.len());
    assert forall|i: int| 0 <= i < rest_a.len() implies rest_a[i] == rest_b[i] by {
        assert(text[a.len() + 1 + i] == rest_a[i]);
        assert(other[b.len() + 1 + i] == rest_b[i]);
    }
    assert(rest_a =~= rest_b);
}

/// A text that is spelled out holds digits and semicolons only.
pub proof fn lemma_spelled_alphabet(text: Seq<char>)
    ensures
        forall|i: int|
            0 <= i < spelled(text).len() ==> is_digit(#[trigger] spelled(text)[i]) || spelled(
                text,
            )[i] == ';',
    decreases text.len(),
{
    if text.len() > 0 {
        let head = decimal(text[0] as u32 as nat);
        let tail = spelled(text.skip(1));
        lemma_decimal_digits(text[0] as u32 as nat);
        lemma_spelled_alphabet(text.skip(1));
        assert forall|i: int| 0 <= i < spelled(text).len() implies is_digit(
            #[trigger] spelled(text)[i],
        ) || spelled(text)[i] == ';' by {
            if i < head.len() {
                assert(spelled(text)[i] == head[i]);
            } else if i > head.len() {
                assert(spelled(text)[i] == tail[i - head.len() - 1]);
            }
        }
    }
}

/// Spelling out a text with one more character adds the spelling of that
/// character.
pub proof fn lemma_spelled_push(text: Seq<char>, c: char)
    ensures
        spelled(text.push(c)) == spelled(text) + decimal(c as u32 as nat) + seq![';'],
    decreases text.len(),
{
    let longer = text.push(c);
    if text.len() == 0 {
        assert(longer.skip(1) =~= text);
        assert(longer[0] == c);
        assert(spelled(text) =~= Seq::<char>::empty());
        assert(spelled(longer) =~= decimal(c as u32 as nat) + seq![';'] + spelled(text));
        assert(spelled(longer) =~= spelled(text) + decimal(c as u32 as nat) + seq![';']);
    } else {
        lemma_spelled_push(text.skip(1), c);
        assert(longer.skip(1) =~= text.skip(1).push(c));
        assert(longer[0] == text[0]);
        let head = decimal(text[0] as u32 as nat) + seq![';'];
        let last = decimal(c as u32 as nat) + seq![';'];
        assert(spelled(text) =~= head + spelled(text.skip(1)));
        assert(spelled(longer) =~= head + spelled(longer.skip(1)));
        assert(spelled(longer.skip(1)) =~= spelled(text.skip(1)) + last);
        assert(spelled(longer) =~= spelled(text) + decimal(c as u32 as nat) + seq![';']);
    }
}

/// Two texts that are spelled out alike are the same text.
pub proof fn lemma_spelled_injective(a: Seq<char>, b: Seq<char>)
    requires
        spelled(a) == spelled(b),
    ensures
        a == b,
    decreases a.len(),
{
    if a.len() == 0 {
        if b.len() > 0 {
            assert(spelled(b).len() > 0);
        }
        assert(a =~= b);
    } else if b.len() == 0 {
        assert(spelled(a).len() > 0);
    } else {
        let head_a = decimal(a[0] as u32 as nat);
        let head_b = decimal(b[0] as u32 as nat);
        lemma_decimal_digits(a[0] as u32 as nat);
        lemma_decimal_digits(b[0] as u32 as nat);
        assert(free_of(head_a, ';')) by {
            assert forall|i: int| 0 <= i < head_a.len() implies head_a[i] != ';' by {
                assert(is_digit(head_a[i]));
            }
        }
        assert(free_of(head_b, ';')) by {
            assert forall|i: int| 0 <= i < head_b.len() implies head_b[i] != ';' by {
                assert(is_digit(head_b[i]));
            }
        }
        lemma_split_at(';', head_a, spelled(a.skip(1)), head_b, spelled(b.skip(1)));
        lemma_decimal_injective(a[0] as u32 as nat, b[0] as u32 as nat);
        lemma_spelled_injective(a.skip(1), b.skip(1));
        vstd::utf8::char_u32_cast(a[0], a[0] as u32);
        vstd::utf8::char_u32_cast(b[0], b[0] as u32);
        assert(a[0] == b[0]);
        assert(a =~= seq![a[0]] + a.skip(1));
        assert(b =~= seq![b[0]] + b.skip(1));
    }
}

/// A text that is spelled out holds neither a bar nor a colon.
proof fn lemma_spelled_plain(text: Seq<char>)
    ensures
        free_of(spelled(text), '|'),
        free_of(spelled(text), ':'),
{
    lemma_spelled_alphabet(text);
    assert forall|i: int| 0 <= i < spelled(text).len() implies spelled(text)[i] != '|' && spelled(
        text,
    )[i] != ':' by {
        assert(is_digit(spelled(text)[i]) || spelled(text)[i] == ';');
    }
}

/// The three fields spelled out are kept apart: two such texts that are
/// equal spell the same three fields.
proof fn lemma_spelled_out_determines_fields(
    event_type: Seq<char>,
    severity: Seq<char>,
    payload: Seq<char>,
    other_event_type: Seq<char>,
    other_severity: Seq<char>,
    other_payload: Seq<char>,
)
    requires
        spelled_out(event_type, severity, payload) == spelled_out(
            other_event_type,
            other_severity,
            other_payload,
        ),
    ensures
        event_type == other_event_type,
        severity == other_severity,
        payload == other_payload,
{
    let text = spelled_out(event_type, severity, payload);
    let other = spelled_out(other_event_type, other_severity, other_payload);
    let rest = spelled(severity) + seq!['|'] + spelled(payload);
    let other_rest = spelled(other_severity) + seq!['|'] + spelled(other_payload);
    lemma_spelled_plain(event_type);
    lemma_spelled_plain(other_event_type);
    lemma_spelled_plain(severity);
    lemma_spelled_plain(other_severity);
    assert(text =~= spelled(event_type) + seq!['|'] + rest);
    assert(other =~= spelled(other_event_type) + seq!['|'] + other_rest);
    lemma_split_at('|', spelled(event_type), rest, spelled(other_event_type), other_rest);
    lemma_split_at(
        '|',
        spelled(severity),
        spelled(payload),
        spelled(other_severity),
        spelled(other_payload),
    );
    lemma_spelled_injective(event_type, other_event_type);
    lemma_spelled_injective(severity, other_severity);
    lemma_spelled_injective(payload, other_payload);
}

/// The three fields joined by colons hold a colon; spelled out they hold
/// none. So no text is both.
proof fn lemma_joined_is_not_spelled_out(
    event_type: Seq<char>,
    severity: Seq<char>,
    payload: Seq<char>,
    other_event_type: Seq<char>,
    other_severity: Seq<char>,
    other_payload: Seq<char>,
)
    ensures
        joined(event_type, severity, payload) != spelled_out(
            other_event_type,
            other_severity,
            other_payload,
        ),
{
    let text = joined(event_type, severity, payload);
    let other = spelled_out(other_event_type, other_severity, other_payload);
    lemma_spelled_plain(other_event_type);
    lemma_spelled_plain(other_severity);
    lemma_spelled_plain(other_payload);
    let at = event_type.len() as int;
    assert(text[at] == ':');
    if text == other {
        let first = spelled(other_event_type);
        let second = spelled(other_severity);
        let third = spelled(other_payload);
        assert(other.len() == first.len() + second.len() + third.len() + 2);
        assert(at < other.len());
        if at < first.len() {
            assert(other[at] == first[at]);
        } else if at == first.len() {
            assert(other[at] == '|');
        } else if at < first.len() + 1 + second.len() {
            assert(other[at] == second[at - first.len() - 1]);
        } else if at == first.len() + 1 + second.len() {
            assert(other[at] == '|');
        } else {
            assert(other[at] == third[at - first.len() - second.len() - 2]);
        }
    }
}

/// The text that is hashed determines the three fields of the event: events
/// that differ in any field are hashed from different texts.
pub proof fn lemma_hash_input_determines_fields(
    event_type: Seq<char>,
    severity: Seq<char>,
    payload: Seq<char>,
    other_event_type: Seq<char>,
    other_severity: Seq<char>,
    other_payload: Seq<char>,
)
    requires
        hash_input(event_type, severity, payload) == hash_input(
            other_event_type,
            other_severity,
            other_payload,
        ),
    ensures
        event_type == other_event_type,
        severity == other_severity,
        payload == other_payload,
{
    let plain = colon_free(event_type) && colon_free(severity);
    let other_plain = colon_free(other_event_type) && colon_free(other_severity);
    if plain && other_plain {
        assert(free_of(event_type, ':'));
        assert(free_of(severity, ':'));
        assert(free_of(other_event_type, ':'));
        assert(free_of(other_severity, ':'));
        let rest = severity + seq![':'] + payload;
        let other_rest = other_severity + seq![':'] + other_payload;
        assert(joined(event_type, severity, payload) =~= event_type + seq![':'] + rest);
        assert(joined(other_event_type, other_severity, other_payload) =~= other_event_type
            + seq![':'] + other_rest);
        lemma_split_at(':', event_type, rest, other_event_type, other_rest);
        lemma_split_at(':', severity, payload, other_severity, other_payload);
    } else if !plain && !other_plain {
        lemma_spelled_out_determines_fields(
            event_type,
            severity,
            payload,
            other_event_type,
            other_severity,
            other_payload,
        );
    } else if plain {
        lemma_joined_is_not_spelled_out(
            event_type,
            severity,
            payload,
            other_event_type,
            other_severity,
            other_payload,
        );
    } else {
        lemma_joined_is_not_spelled_out(
            other_event_type,
            other_severity,
            other_payload,
            event_type,
            severity,
            payload,
        );
    }
}

/// The bytes that are hashed determine the three fields of the event: events
/// that differ in any field are hashed from different bytes.
pub proof fn lemma_hashed_bytes_determine_fields(
    event_type: Seq<char>,
    severity: Seq<char>,
    payload: Seq<char>,
    other_event_type: Seq<char>,
    other_severity: Seq<char>,
    other_payload: Seq<char>,
)
    requires
        encode_utf8(hash_input(event_type, severity, payload)) == encode_utf8(
            hash_input(other_event_type, other_severity, other_payload),
        ),
    ensures
        event_type == other_event_type,
        severity == other_severity,
        payload == other_payload,
{
    let text = hash_input(event_type, severity, payload);
    let other = hash_input(other_event_type, other_severity, other_payload);
    vstd::utf8::encode_utf8_decode_utf8(text);
    vstd::utf8::encode_utf8_decode_utf8(other);
    assert(text == other);
    lemma_hash_input_determines_fields(
        event_type,
        severity,
        payload,
        other_event_type,
        other_severity,
        other_payload,
    );
}

} // verus!
