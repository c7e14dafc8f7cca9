use vstd::prelude::*;

verus! {

/// The text that `openssl::base64::encode_block` gives for `data`: its
/// base64 encoding in one block, in the standard alphabet, padded, without
/// line breaks.
pub uninterp spec fn base64_block(data: Seq<u8>) -> Seq<char>;

/// The longest input that the encoder takes. It counts in a C `int`, and
/// its count of the output, four characters for every three bytes and five
/// to spare, has to fit in one.
pub const MAX_BLOCK_INPUT: usize = 1_610_612_732;

/// Calls `openssl::base64::encode_block`. The encoder looks at nothing but
/// the bytes it is given, so its result has a name, `base64_block`. It
/// panics on an input over the limit, which `requires` leaves out.
#[verifier::external_body]
pub(crate) fn encode_block(src: &[u8]) -> (encoded: String)
    requires
        src@.len() <= MAX_BLOCK_INPUT,
    ensures
        encoded@ == base64_block(src@),
{
    openssl::base64::encode_block(src)
}

} // verus!
