//! Building blocks of the canonical JSON text: verbatim text and string
//! literals, both as UTF-8 bytes.

use vstd::prelude::*;
use vstd::utf8::encode_utf8;

verus! {

#[verifier::external_type_specification]
#[verifier::external_body]
pub struct ExJsonError(serde_json::Error);

/// The JSON string literal for `text` as `serde_json` writes it: the
/// quotation marks, and between them the text with its escapes, in UTF-8.
pub uninterp spec fn json_string(text: Seq<char>) -> Seq<u8>;

/// Calls `serde_json::to_vec` on a string slice. The serializer writes into a
/// byte vector, and neither that nor the serialization of a string slice can
/// fail, so the call always succeeds; the bytes depend on the text alone.
#[verifier::external_body]
pub(crate) fn json_string_bytes(text: &str) -> (r: Result<Vec<u8>, serde_json::Error>)
    ensures
        r is Ok,
        r matches Ok(bytes) ==> bytes@ == json_string(text@),
{
    serde_json::to_vec(text)
}

/// Appends `text`, encoded as UTF-8, to `out`.
pub fn push_text(out: &mut Vec<u8>, text: &str)
    ensures
        final(out)@ == old(out)@ + encode_utf8(text@),
{
    let bytes = text.as_bytes();
    out.extend_from_slice(bytes);
    assert(out@ =~= old(out)@ + encode_utf8(text@));
}

/// Appends the JSON string literal for `text` to `out`.
pub fn push_json_string(out: &mut Vec<u8>, text: &str)
    ensures
        final(out)@ == old(out)@ + json_string(text@),
{
    match json_string_bytes(text) {
        Ok(mut bytes) => {
            out.append(&mut bytes);
        },
        Err(_) => {},
    }
}

} // verus!
