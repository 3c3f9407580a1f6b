use vstd::prelude::*;

verus! {

/// The text that lossy UTF-8 decoding yields for `bytes`. It is a function of
/// the bytes alone: valid sequences come through as the characters they
/// encode, invalid ones as a replacement character.
pub uninterp spec fn lossy_decode(bytes: Seq<u8>) -> Seq<char>;

/// Relies on String::from_utf8_lossy: the decoding never fails and depends on
/// the bytes alone; invalid sequences are replaced, not reported.
#[verifier::external_body]
pub(crate) fn decode_lossy(bytes: &[u8]) -> (r: String)
    ensures
        r@ == lossy_decode(bytes@),
{
    String::from_utf8_lossy(bytes).into_owned()
}

} // verus!
