use vstd::prelude::*;
use base64::Engine;

verus! {

/// What the `base64` crate's standard engine makes of some bytes.
pub uninterp spec fn base64_of(b: Seq<u8>) -> Seq<char>;

/// Relies on `base64::engine::general_purpose::STANDARD` (`Engine::encode`):
/// padded Base64 over the standard alphabet, four characters for each
/// started group of three bytes. It panics when that length overflows.
#[verifier::external_body]
fn encode_standard(data: &[u8]) -> (r: String)
    requires
        (data@.len() / 3) * 4 + 4 <= usize::MAX,
    ensures
        r@ == base64_of(data@),
        r@.len() == 4 * ((data@.len() + 2) / 3),
{
    base64::engine::general_purpose::STANDARD.encode(data)
}

/// A file's bytes as padded standard Base64 text, as the host receives
/// binary content.
pub fn encode_base64(data: &Vec<u8>) -> (r: String)
    requires
        (data@.len() / 3) * 4 + 4 <= usize::MAX,
    ensures
        r@ == base64_of(data@),
        r@.len() == 4 * ((data@.len() + 2) / 3),
{
    encode_standard(data.as_slice())
}

} // verus!
