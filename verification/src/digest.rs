//! SHA-256 digests of text, as lowercase hexadecimal text.

use crypto::digest::Digest;
use crypto::sha2::Sha256;
use vstd::prelude::*;
use vstd::string::*;
use vstd::utf8::encode_utf8;

verus! {

/// The SHA-256 digest of the UTF-8 bytes of `content`, written as hexadecimal
/// text. The digest is computed by the `crypto` crate and is not defined here:
/// all that is known of it is that equal content has equal digests.
pub uninterp spec fn sha256_hex(content: Seq<char>) -> Seq<char>;

/// Content of this many bytes or more has no digest: its length in bits does
/// not fit the 64-bit counter that SHA-256 appends to the message.
pub const HASH_INPUT_LIMIT: u64 = 0x2000_0000_0000_0000;

/// The number of bytes that `content` takes in UTF-8.
pub open spec fn byte_len(content: Seq<char>) -> nat {
    encode_utf8(content).len()
}

/// Whether `content` is short enough to be digested.
pub open spec fn hashable(content: Seq<char>) -> bool {
    byte_len(content) < HASH_INPUT_LIMIT
}

/// The digest of `content`, where it has one.
pub open spec fn digest_of(content: Seq<char>) -> Option<Seq<char>> {
    if hashable(content) {
        Some(sha256_hex(content))
    } else {
        None
    }
}

/// Calls `crypto::sha2::Sha256` through `Digest::input_str` and
/// `Digest::result_str`: the result is the SHA-256 digest of the bytes of
/// `content` in hexadecimal. Nothing is proved of it; the contract gives the
/// result its name. The hasher panics once it has been fed 2^61 bytes, so
/// longer content is left out.
#[verifier::external_body]
pub(crate) fn sha256_text(content: &str) -> (digest: String)
    requires
        hashable(content@),
    ensures
        digest@ == sha256_hex(content@),
{
    let mut hasher = Sha256::new();
    hasher.input_str(content);
    hasher.result_str()
}

/// The digest of `content`, or `None` where the content is too long to be
/// digested.
pub fn hash(content: &str) -> (digest: Option<String>)
    ensures
        match digest {
            Some(text) => digest_of(content@) == Some(text@),
            None => digest_of(content@) is None,
        },
{
    let length: usize = content.as_bytes().len();
    if (length as u64) < HASH_INPUT_LIMIT {
        Some(sha256_text(content))
    } else {
        None
    }
}

} // verus!
