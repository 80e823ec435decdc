//! JSON text of strings.

use vstd::prelude::*;
use vstd::string::*;

verus! {

/// The JSON form of a string: the text between double quotes, with the
/// characters that JSON does not take as they are written as escapes. It is
/// produced by `serde_json` and is not defined here.
pub uninterp spec fn json_string(text: Seq<char>) -> Seq<char>;

#[verifier::external_type_specification]
#[verifier::external_body]
pub struct ExJsonError(serde_json::Error);

/// Calls `serde_json::to_string` on a string slice. The contract names the
/// text that comes back and claims that the call does not fail: it writes
/// into a byte vector, whose writes always succeed, and serialising a string
/// has no other way to fail.
#[verifier::external_body]
fn to_json_string(text: &str) -> (quoted: Result<String, serde_json::Error>)
    ensures
        quoted is Ok,
        quoted->Ok_0@ == json_string(text@),
{
    serde_json::to_string(text)
}

/// Appends the JSON form of `text` to `out`.
pub fn push_json_string(out: &mut String, text: &str)
    ensures
        final(out)@ == old(out)@ + json_string(text@),
{
    let quoted = to_json_string(text).unwrap();
    out.append(quoted.as_str());
}

} // verus!
