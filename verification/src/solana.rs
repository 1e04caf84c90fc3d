//! The ledger: the tag under which a hash is anchored, and how it is read back.

use crate::models::text_of;
use solana_sdk::signature::{Keypair, Signature};
use std::str::FromStr;
use vstd::prelude::*;

verus! {

/// Why an operation on the ledger failed.
#[derive(Clone, Copy, Debug, PartialEq, Eq, Structural)]
pub enum LedgerError {
    /// The reference is not one that the ledger could have given out.
    InvalidReferenceFormat,
    /// The hash could not be submitted.
    SubmitFailed,
    /// The reference could not be resolved.
    VerifyFailed,
}

/// The characters of a text.
pub fn chars_of(text: &str) -> (chars: Vec<char>)
    ensures
        chars@ == text@,
{
    let mut chars: Vec<char> = Vec::new();
    for c in it: text.chars()
        invariant
            chars@ == it.seq().take(it.index() as int),
            it.seq() == text@,
    {
        chars.push(c);
    }
    chars
}

/// The tag that marks an anchored hash in a memo: the hash follows it.
pub const LOG_TAG: &'static str = "LOG:";

/// The tag, as contracts see it.
pub open spec fn tag() -> Seq<char> {
    seq!['L', 'O', 'G', ':']
}

/// The memo that anchors a hash: the tag, and behind it the hash.
pub open spec fn memo_text(hash: Seq<char>) -> Seq<char> {
    tag() + hash
}

/// Whether the tag stands at place `at` of a text.
pub open spec fn tag_at(text: Seq<char>, at: int) -> bool {
    &&& 0 <= at
    &&& at + 4 <= text.len()
    &&& text[at] == 'L'
    &&& text[at + 1] == 'O'
    &&& text[at + 2] == 'G'
    &&& text[at + 3] == ':'
}

/// The first place at or behind `from` at which the tag stands.
pub open spec fn tag_from(text: Seq<char>, from: int) -> Option<int>
    decreases text.len() - from,
{
    if from < 0 || from + 4 > text.len() {
        None
    } else if tag_at(text, from) {
        Some(from)
    } else {
        tag_from(text, from + 1)
    }
}

/// The first place of a text at which the tag stands.
pub open spec fn first_tag(text: Seq<char>) -> Option<int> {
    tag_from(text, 0)
}

/// Whether the tag stands somewhere in a text.
pub open spec fn has_tag(text: Seq<char>) -> bool {
    first_tag(text) is Some
}

/// Whether a character is white space: one of the code points with the
/// Unicode property `White_Space`.
pub open spec fn is_white_space(c: char) -> bool {
    let n = c as u32;
    ||| 0x09 <= n <= 0x0d
    ||| n == 0x20
    ||| n == 0x85
    ||| n == 0xa0
    ||| n == 0x1680
    ||| 0x2000 <= n <= 0x200a
    ||| n == 0x2028
    ||| n == 0x2029
    ||| n == 0x202f
    ||| n == 0x205f
    ||| n == 0x3000
}

/// Whether a character ends a hash: a double quote, or white space.
pub open spec fn is_delimiter(c: char) -> bool {
    c == '"' || is_white_space(c)
}

/// The end of the token that starts at `from`: the place of the first
/// delimiter at or behind `from`, or the end of the text.
pub open spec fn token_end(text: Seq<char>, from: int) -> int
    decreases text.len() - from,
{
    if from < 0 || from >= text.len() || is_delimiter(text[from]) {
        from
    } else {
        token_end(text, from + 1)
    }
}

/// The hash that a text holds: the token behind the first tag.
pub open spec fn tagged_hash(text: Seq<char>) -> Option<Seq<char>> {
    match first_tag(text) {
        Some(at) => Some(text.subrange(at + 4, token_end(text, at + 4))),
        None => None,
    }
}

/// The hash that the log of a transaction holds: that of the first message
/// with a tag.
pub open spec fn anchored_hash(messages: Seq<Seq<char>>) -> Option<Seq<char>>
    decreases messages.len(),
{
    if messages.len() == 0 {
        None
    } else if has_tag(messages[0]) {
        tagged_hash(messages[0])
    } else {
        anchored_hash(messages.skip(1))
    }
}

/// The views of a sequence of texts.
pub open spec fn text_views(texts: Seq<String>) -> Seq<Seq<char>> {
    texts.map_values(|t: String| t@)
}

/// The memo that anchors a hash.
pub fn memo_data(hash: &str) -> (memo: String)
    ensures
        memo@ == memo_text(hash@),
{
    proof {
        reveal_strlit("LOG:");
    }
    let mut memo = LOG_TAG.to_owned();
    assert(memo@ =~= tag());
    memo.append(hash);
    memo
}

/// Whether a character ends a hash.
pub fn ends_hash(c: char) -> (b: bool)
    ensures
        b == is_delimiter(c),
{
    let n: u32 = c as u32;
    c == '"' || (0x09 <= n && n <= 0x0d) || n == 0x20 || n == 0x85 || n == 0xa0 || n == 0x1680 || (
    0x2000 <= n && n <= 0x200a) || n == 0x2028 || n == 0x2029 || n == 0x202f || n == 0x205f || n
        == 0x3000
}

/// The first place of a text at which the tag stands.
pub fn find_tag(chars: &Vec<char>) -> (r: Option<usize>)
    ensures
        match r {
            Some(at) => first_tag(chars@) == Some(at as int) && at + 4 <= chars.len(),
            None => first_tag(chars@) is None,
        },
{
    if chars.len() < 4 {
        return None;
    }
    let last: usize = chars.len() - 4;
    let mut at: usize = 0;
    while at <= last
        invariant
            last + 4 == chars.len(),
            at <= last + 1,
            first_tag(chars@) == tag_from(chars@, at as int),
        decreases last + 1 - at,
    {
        if chars[at] == 'L' && chars[at + 1] == 'O' && chars[at + 2] == 'G' && chars[at + 3] == ':' {
            return Some(at);
        }
        at = at + 1;
    }
    None
}

/// The end of the token that starts at `from`.
pub fn find_token_end(chars: &Vec<char>, from: usize) -> (end: usize)
    ensures
        end == token_end(chars@, from as int),
        from <= end,
        from <= chars@.len() ==> end <= chars@.len(),
{
    let mut end: usize = from;
    while end < chars.len() && !ends_hash(chars[end])
        invariant
            from <= end,
            from <= chars@.len() ==> end <= chars@.len(),
            token_end(chars@, from as int) == token_end(chars@, end as int),
        decreases chars@.len() - end,
    {
        end = end + 1;
    }
    end
}

/// The hash that a text holds.
pub fn hash_in_message(message: &str) -> (r: Option<String>)
    ensures
        text_of(r) == tagged_hash(message@),
{
    let chars = chars_of(message);
    match find_tag(&chars) {
        None => None,
        Some(at) => {
            let from: usize = at + 4;
            let end = find_token_end(&chars, from);
            let token = cut(message, from, end);
            Some(token)
        },
    }
}

/// The part of a text between two places, counted in characters.
fn cut(text: &str, from: usize, to: usize) -> (part: String)
    requires
        from <= to <= text@.len(),
    ensures
        part@ == text@.subrange(from as int, to as int),
{
    text.substring_char(from, to).to_owned()
}

/// Reads the anchored hash out of the log of a transaction: the token behind
/// the first tag of the first message that holds the tag, up to the first
/// double quote or white space. `None` where no message holds the tag.
pub fn extract_hash(log_messages: &Vec<String>) -> (r: Option<String>)
    ensures
        text_of(r) == anchored_hash(text_views(log_messages@)),
{
    let ghost messages = text_views(log_messages@);
    let mut i: usize = 0;
    assert(messages.skip(0) =~= messages);
    while i < log_messages.len()
        invariant
            i <= log_messages.len(),
            messages == text_views(log_messages@),
            anchored_hash(messages) == anchored_hash(messages.skip(i as int)),
        decreases log_messages.len() - i,
    {
        let found = hash_in_message(log_messages[i].as_str());
        proof {
            assert(messages.skip(i as int)[0] == log_messages@[i as int]@);
            assert(messages.skip(i as int).skip(1) =~= messages.skip(i + 1));
        }
        if found.is_some() {
            return found;
        }
        i = i + 1;
    }
    None
}

/// What the ledger's client reads out of a transaction that it fetched: the
/// anchored hash of its log, `None` where it has no log or no message of
/// the log holds the tag. A fetch that failed stays a failure.
pub fn verify_log_hash(fetched: Result<Option<Vec<String>>, LedgerError>) -> (r: Result<
    Option<String>,
    LedgerError,
>)
    ensures
        match fetched {
            Ok(Some(log_messages)) => r matches Ok(found) && text_of(found) == anchored_hash(
                text_views(log_messages@),
            ),
            Ok(None) => r matches Ok(None),
            Err(e) => r == Err::<Option<String>, LedgerError>(e),
        },
{
    match fetched {
        Ok(Some(log_messages)) => Ok(extract_hash(&log_messages)),
        Ok(None) => Ok(None),
        Err(e) => Err(e),
    }
}

/// The first tag of a text stands where the tag stands and nowhere before.
pub proof fn lemma_first_tag(text: Seq<char>, from: int)
    requires
        0 <= from,
    ensures
        match tag_from(text, from) {
            Some(at) => from <= at && tag_at(text, at) && forall|k: int|
                from <= k < at ==> !#[trigger] tag_at(text, k),
            None => forall|k: int| from <= k ==> !#[trigger] tag_at(text, k),
        },
    decreases text.len() - from,
{
    if from + 4 > text.len() {
    } else if tag_at(text, from) {
    } else {
        lemma_first_tag(text, from + 1);
    }
}

/// The place of the first tag, found from any place that is not behind it.
proof fn lemma_tag_from_found(text: Seq<char>, from: int, at: int)
    requires
        0 <= from <= at,
        tag_at(text, at),
        forall|k: int| from <= k < at ==> !#[trigger] tag_at(text, k),
    ensures
        tag_from(text, from) == Some(at),
    decreases at - from,
{
    if from < at {
        lemma_tag_from_found(text, from + 1, at);
    }
}

/// The end of a token that holds no delimiter and is followed by one, or by
/// the end of the text.
proof fn lemma_token_end(text: Seq<char>, from: int, end: int)
    requires
        0 <= from <= end <= text.len(),
        forall|k: int| from <= k < end ==> !is_delimiter(#[trigger] text[k]),
        end == text.len() || is_delimiter(text[end]),
    ensures
        token_end(text, from) == end,
    decreases end - from,
{
    if from < end {
        lemma_token_end(text, from + 1, end);
    }
}

/// The hash that was anchored is the hash that is read back: a message that
/// holds the memo of a hash, with no tag before it and a delimiter or nothing
/// behind it, yields that hash, as long as the hash holds no delimiter.
pub proof fn lemma_memo_read_back(before: Seq<char>, hash: Seq<char>, behind: Seq<char>)
    requires
        forall|k: int| 0 <= k < hash.len() ==> !is_delimiter(#[trigger] hash[k]),
        forall|k: int| 0 <= k < before.len() ==> !#[trigger] tag_at(before + tag(), k),
        behind.len() == 0 || is_delimiter(behind[0]),
    ensures
        tagged_hash(before + memo_text(hash) + behind) == Some(hash),
{
    let text = before + memo_text(hash) + behind;
    let at = before.len() as int;
    assert(text[at] == 'L' && text[at + 1] == 'O' && text[at + 2] == 'G' && text[at + 3] == ':');
    assert forall|k: int| 0 <= k < at implies !#[trigger] tag_at(text, k) by {
        let head = before + tag();
        assert(!tag_at(head, k));
        assert(text[k] == head[k]);
        assert(text[k + 1] == head[k + 1]);
        assert(text[k + 2] == head[k + 2]);
        assert(text[k + 3] == head[k + 3]);
    }
    lemma_tag_from_found(text, 0, at);
    let end = at + 4 + hash.len();
    assert forall|k: int| at + 4 <= k < end implies !is_delimiter(#[trigger] text[k]) by {
        assert(text[k] == hash[k - at - 4]);
    }
    if behind.len() > 0 {
        assert(text[end] == behind[0]);
    }
    lemma_token_end(text, at + 4, end);
    assert(text.subrange(at + 4, end) =~= hash);
}

/// The bytes of the signature that a reference stands for: what the ledger's
/// SDK reads out of the base-58 text, or `None` where it reads no signature.
pub uninterp spec fn signature_of(reference: Seq<char>) -> Option<Seq<u8>>;

/// The bytes that the JSON text of a keypair file lists: what `serde_json`
/// reads as an array of bytes, or `None` where it reads none.
pub uninterp spec fn json_byte_array(text: Seq<u8>) -> Option<Seq<u8>>;

/// Whether the ledger's SDK accepts the bytes as a keypair.
pub uninterp spec fn is_keypair(bytes: Seq<u8>) -> bool;

/// The view of optional bytes.
pub open spec fn bytes_of(bytes: Option<Vec<u8>>) -> Option<Seq<u8>> {
    match bytes {
        Some(b) => Some(b@),
        None => None,
    }
}

/// Calls `Signature::from_str` of `solana_sdk`, and on success copies the
/// signature's bytes. The contract names the outcome `signature_of` of the
/// text and claims that a signature has 64 bytes.
#[verifier::external_body]
fn parse_signature(reference: &str) -> (r: Option<Vec<u8>>)
    ensures
        bytes_of(r) == signature_of(reference@),
        r matches Some(bytes) ==> bytes@.len() == 64,
{
    match Signature::from_str(reference) {
        Ok(signature) => Some(signature.as_ref().to_vec()),
        Err(_) => None,
    }
}

/// Calls `serde_json::from_slice` for a `Vec<u8>`. The contract names the
/// outcome `json_byte_array` of the text.
#[verifier::external_body]
fn parse_byte_array(text: &[u8]) -> (r: Option<Vec<u8>>)
    ensures
        bytes_of(r) == json_byte_array(text@),
{
    serde_json::from_slice::<Vec<u8>>(text).ok()
}

/// Calls `Keypair::from_bytes` of `solana_sdk` and says whether it
/// succeeded. The contract names the answer `is_keypair` of the bytes and
/// claims that only 64 bytes are accepted.
#[verifier::external_body]
fn keypair_accepted(bytes: &[u8]) -> (ok: bool)
    ensures
        ok == is_keypair(bytes@),
        ok ==> bytes@.len() == 64,
{
    Keypair::from_bytes(bytes).is_ok()
}

/// The signature that was read out of a reference, or the error for a
/// reference that holds none.
pub fn reference_or_error(parsed: Option<Vec<u8>>) -> (r: Result<Vec<u8>, LedgerError>)
    ensures
        match parsed {
            Some(bytes) => r == Ok::<Vec<u8>, LedgerError>(bytes),
            None => r == Err::<Vec<u8>, LedgerError>(LedgerError::InvalidReferenceFormat),
        },
{
    match parsed {
        Some(bytes) => Ok(bytes),
        None => Err(LedgerError::InvalidReferenceFormat),
    }
}

/// Checks the format of a reference before the ledger is asked about it, and
/// gives the 64 bytes of the signature that the reference stands for.
pub fn check_reference(tx_signature: &str) -> (r: Result<Vec<u8>, LedgerError>)
    ensures
        match signature_of(tx_signature@) {
            Some(bytes) => r matches Ok(signature) && signature@ == bytes && bytes.len() == 64,
            None => r == Err::<Vec<u8>, LedgerError>(LedgerError::InvalidReferenceFormat),
        },
{
    reference_or_error(parse_signature(tx_signature))
}

/// Why a keypair file was refused.
#[derive(Clone, Copy, Debug, PartialEq, Eq, Structural)]
pub enum KeypairError {
    /// The file is not a JSON array of bytes.
    Malformed,
    /// The bytes are not a keypair.
    Invalid,
}

/// What becomes of a keypair file: `parsed` is what was read out of it,
/// `accepted` says whether that is a keypair.
pub fn keypair_outcome(parsed: Option<Vec<u8>>, accepted: bool) -> (r: Result<Vec<u8>, KeypairError>)
    ensures
        r == match parsed {
            None => Err::<Vec<u8>, KeypairError>(KeypairError::Malformed),
            Some(bytes) => if accepted {
                Ok::<Vec<u8>, KeypairError>(bytes)
            } else {
                Err::<Vec<u8>, KeypairError>(KeypairError::Invalid)
            },
        },
{
    match parsed {
        None => Err(KeypairError::Malformed),
        Some(bytes) => if accepted {
            Ok(bytes)
        } else {
            Err(KeypairError::Invalid)
        },
    }
}

/// Reads the content of a keypair file: a JSON array of the 64 bytes of a
/// keypair.
pub fn load_keypair(file: &[u8]) -> (r: Result<Vec<u8>, KeypairError>)
    ensures
        match json_byte_array(file@) {
            None => r == Err::<Vec<u8>, KeypairError>(KeypairError::Malformed),
            Some(bytes) => if is_keypair(bytes) {
                r matches Ok(keypair) && keypair@ == bytes && bytes.len() == 64
            } else {
                r == Err::<Vec<u8>, KeypairError>(KeypairError::Invalid)
            },
        },
{
    let parsed = parse_byte_array(file);
    let accepted = match &parsed {
        Some(bytes) => keypair_accepted(bytes.as_slice()),
        None => false,
    };
    keypair_outcome(parsed, accepted)
}

/// A stand-in for the ledger that gives the same answers to every question.
#[derive(Clone, Copy, Debug, PartialEq, Eq, Structural)]
pub struct MockSolanaClient;

impl MockSolanaClient {
    /// The reference that the stand-in gives out for every hash.
    pub open spec fn signature() -> Seq<char> {
        "mock_signature_12345"@
    }

    /// The hash that the stand-in reports under every reference.
    pub open spec fn hash() -> Seq<char> {
        "mock_hash_67890"@
    }

    /// A stand-in for the ledger.
    pub fn new() -> (client: MockSolanaClient)
        ensures
            client == MockSolanaClient,
    {
        MockSolanaClient
    }

    /// Accepts every hash, and gives out the same reference for each.
    pub fn submit_log_hash(&self, _hash: &str) -> (r: Result<String, LedgerError>)
        ensures
            r matches Ok(reference) && reference@ == Self::signature(),
    {
        Ok("mock_signature_12345".to_owned())
    }

    /// Resolves every reference, and reports the same hash under each.
    pub fn verify_log_hash(&self, _tx_signature: &str) -> (r: Result<Option<String>, LedgerError>)
        ensures
            r matches Ok(Some(hash)) && hash@ == Self::hash(),
    {
        Ok(Some("mock_hash_67890".to_owned()))
    }
}

} // verus!
