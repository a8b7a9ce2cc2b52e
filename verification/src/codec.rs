//! The two places where the library leans on outside crates: canonicalizing
//! a submitted payload, and deriving a request identifier from a random
//! seed and the creator's identity.

use vstd::prelude::*;
use sha2::Digest;

verus! {

/// The canonical form of a payload: `Some` of the re-serialized text when
/// the payload parses as structured data, `None` otherwise. A function of
/// the payload text alone.
pub uninterp spec fn json_canon(s: Seq<char>) -> Option<Seq<char>>;

/// Relies on serde_json::from_str::<Value> and Value's to_string: a payload
/// either parses as structured data and re-serializes to one canonical form
/// that depends on the text alone, or is rejected.
#[verifier::external_body]
pub fn canonicalize_payload(s: &str) -> (res: Option<String>)
    ensures
        res is Some <==> json_canon(s@) is Some,
        res is Some ==> res->0@ == json_canon(s@)->0,
{
    match serde_json::from_str::<serde_json::Value>(s) {
        Ok(v) => Some(v.to_string()),
        Err(_) => None,
    }
}

/// Whether `c` is a lower-case hexadecimal digit.
pub open spec fn is_hex_char(c: char) -> bool {
    ('0' <= c && c <= '9') || ('a' <= c && c <= 'f')
}

/// The request identifier derived from a random seed and the creator's
/// identity: a function of the two alone.
pub uninterp spec fn request_id(seed: Seq<u8>, creator: Seq<char>) -> Seq<char>;

/// Relies on sha2::Sha256 (a 32-byte digest of its input) and hex::encode
/// (two lower-case hex digits per byte): the identifier is the hex-encoded
/// digest of the hex-encoded seed followed by the creator's identity — 64
/// lower-case hex characters in all.
#[verifier::external_body]
pub fn make_request_id(seed: &Vec<u8>, creator: &str) -> (res: String)
    ensures
        res@ == request_id(seed@, creator@),
        res@.len() == 64,
        forall|i: int| 0 <= i < 64 ==> is_hex_char(#[trigger] res@[i]),
{
    let message = format!("{}{}", hex::encode(seed), creator);
    hex::encode(sha2::Sha256::digest(message.as_bytes()))
}

} // verus!
