//! Text encodings the protocol leans on: base64 (the `base64` crate) and
//! lossy UTF-8 decoding (std).

use vstd::prelude::*;

verus! {

/// What the standard base64 engine (padded, standard alphabet) makes of
/// `input`: the decoded bytes, or the text of the error it refuses the
/// input with.
pub uninterp spec fn base64_standard_decode(input: Seq<u8>) -> Result<Seq<u8>, Seq<char>>;

/// The text that lossy UTF-8 decoding makes of `input` (invalid sequences
/// become U+FFFD).
pub uninterp spec fn utf8_lossy(input: Seq<u8>) -> Seq<char>;

/// `base64::Engine::decode` with `base64::prelude::BASE64_STANDARD`.
/// Trusted: the result is what `base64_standard_decode` names: the
/// decoded bytes, or the error, shown as text.
#[verifier::external_body]
pub(crate) fn decode_base64(input: &[u8]) -> (r: Result<Vec<u8>, String>)
    ensures
        match r {
            Ok(v) => base64_standard_decode(input@) == Ok::<Seq<u8>, Seq<char>>(v@),
            Err(e) => base64_standard_decode(input@) == Err::<Seq<u8>, Seq<char>>(e@),
        },
{
    base64::Engine::decode(&base64::prelude::BASE64_STANDARD, input).map_err(|e| e.to_string())
}

/// `String::from_utf8_lossy`. Trusted: the result is the text that
/// `utf8_lossy` names.
#[verifier::external_body]
pub(crate) fn from_utf8_lossy(input: &[u8]) -> (r: String)
    ensures
        r@ == utf8_lossy(input@),
{
    String::from_utf8_lossy(input).into_owned()
}

} // verus!
