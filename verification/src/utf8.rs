//! Bytes read as text.
use vstd::prelude::*;
use vstd::utf8::{decode_utf8, encode_utf8, valid_utf8};

verus! {

/// The text that `String::from_utf8_lossy` makes of `bytes`.
pub uninterp spec fn utf8_lossy(bytes: Seq<u8>) -> Seq<char>;

/// `text` keeps what is valid in `bytes`: it is what they encode where they are
/// valid UTF-8, and starts with what their first bytes encode where those are.
pub open spec fn keeps_valid(bytes: Seq<u8>, text: Seq<char>) -> bool {
    &&& valid_utf8(bytes) ==> text == decode_utf8(bytes)
    &&& forall|k: int|
        0 <= k <= bytes.len() && valid_utf8(#[trigger] bytes.take(k)) ==> decode_utf8(
            bytes.take(k),
        ).is_prefix_of(text)
}

/// Calls `String::from_utf8_lossy`. Trusted: the text depends on the bytes alone,
/// and keeps what is valid in them. For what does not decode, the standard
/// library puts replacement characters; how many is not said here.
#[verifier::external_body]
pub(crate) fn decode_lossy(bytes: &[u8]) -> (text: String)
    ensures
        text@ == utf8_lossy(bytes@),
        keeps_valid(bytes@, text@),
{
    String::from_utf8_lossy(bytes).into_owned()
}

/// Text that is sent ahead of other bytes is read back, whatever they are.
pub proof fn law_text_reads_back(sent: Seq<char>, rest: Seq<u8>, text: Seq<char>)
    requires
        keeps_valid(encode_utf8(sent) + rest, text),
    ensures
        sent.len() <= text.len(),
        text == sent + text.skip(sent.len() as int),
        rest.len() == 0 ==> text == sent,
{
    let bytes = encode_utf8(sent) + rest;
    let k = encode_utf8(sent).len() as int;
    vstd::utf8::encode_utf8_valid_utf8(sent);
    vstd::utf8::encode_utf8_decode_utf8(sent);
    assert(bytes.take(k) =~= encode_utf8(sent));
    if rest.len() == 0 {
        assert(bytes =~= encode_utf8(sent));
    }
    assert(sent.is_prefix_of(text));
    assert(text =~= sent + text.skip(sent.len() as int));
}

} // verus!
