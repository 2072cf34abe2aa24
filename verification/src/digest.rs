//! Content hashes and request hashes.

use vstd::prelude::*;
use vstd::utf8::encode_utf8;

use crate::json::JsonValue;
use crate::text::Text;

verus! {

/// The SHA-256 digest of some bytes, in lower-case hexadecimal.
pub uninterp spec fn sha256_text(bytes: Seq<u8>) -> Text;

/// `sha2::Sha256::digest`, written in lower-case hexadecimal. It depends on the bytes alone.
#[verifier::external_body]
fn sha256_hex(bytes: &Vec<u8>) -> (text: String)
    ensures
        text@ == sha256_text(bytes@),
{
    format!("{:x}", <sha2::Sha256 as sha2::Digest>::digest(bytes))
}

/// The hash of a JSON value: that of its compact text.
pub open spec fn json_hash(json: Text) -> Text {
    sha256_text(encode_utf8(json))
}

/// The hash of a request: that of the operation's name, a zero byte and the request's JSON text.
pub open spec fn request_hash(operation: Text, request: Text) -> Text {
    sha256_text(encode_utf8(operation).push(0) + encode_utf8(request))
}

fn append_bytes(bytes: &mut Vec<u8>, text: &str)
    ensures
        final(bytes)@ == old(bytes)@ + encode_utf8(text@),
{
    let more: &[u8] = text.as_bytes();
    let mut i: usize = 0;
    while i < more.len()
        invariant
            i <= more.len(),
            more@ == encode_utf8(text@),
            bytes@ == old(bytes)@ + more@.take(i as int),
        decreases more.len() - i,
    {
        proof {
            assert(more@.take(i + 1) =~= more@.take(i as int).push(more@[i as int]));
        }
        bytes.push(more[i]);
        proof {
            assert(bytes@ =~= old(bytes)@ + more@.take(i + 1));
        }
        i = i + 1;
    }
    proof {
        assert(more@.take(more@.len() as int) =~= more@);
    }
}

pub fn hash_json(value: &JsonValue) -> (hash: String)
    ensures
        hash@ == json_hash(value@),
{
    let mut bytes: Vec<u8> = Vec::new();
    append_bytes(&mut bytes, value.text());
    proof {
        assert(bytes@ =~= encode_utf8(value@));
    }
    sha256_hex(&bytes)
}

pub fn operation_request_hash(operation: &str, request: &str) -> (hash: String)
    ensures
        hash@ == request_hash(operation@, request@),
{
    let mut bytes: Vec<u8> = Vec::new();
    append_bytes(&mut bytes, operation);
    proof {
        assert(bytes@ =~= encode_utf8(operation@));
    }
    bytes.push(0);
    append_bytes(&mut bytes, request);
    sha256_hex(&bytes)
}

} // verus!
