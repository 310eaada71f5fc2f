//! The wrappings of a replay: zlib compression, and base64 text around it.

use vstd::prelude::*;

verus! {

/// The level at which replays are compressed.
pub const DEFLATE_LEVEL: u8 = 10;

/// What `miniz_oxide::inflate::decompress_to_vec_zlib` makes of some bytes:
/// the data that the zlib stream holds, or nothing where the bytes are no
/// such stream.
pub uninterp spec fn zlib_inflated(data: Seq<u8>) -> Option<Seq<u8>>;

/// The zlib stream that `miniz_oxide::deflate::compress_to_vec_zlib` makes
/// of some bytes at a level.
pub uninterp spec fn zlib_deflated(data: Seq<u8>, level: u8) -> Seq<u8>;

/// What the standard base64 engine makes of a text: the bytes that it
/// stands for, or nothing where the text is no base64.
pub uninterp spec fn base64_decoded(text: Seq<char>) -> Option<Seq<u8>>;

/// The base64 text, with padding, that the standard engine writes for some
/// bytes.
pub uninterp spec fn base64_encoded(bytes: Seq<u8>) -> Seq<char>;

/// Whether the base64 text of `length` bytes has a length that fits in
/// `usize`: four characters for every three bytes, begun or complete.
pub open spec fn base64_length_fits(length: nat) -> bool {
    (length / 3) * 4 + (if length % 3 > 0 {
        4int
    } else {
        0int
    }) <= usize::MAX
}

/// `miniz_oxide::inflate::decompress_to_vec_zlib`. The contract gives its
/// result a name, and says that an error comes exactly where there is no
/// data.
#[verifier::external_body]
pub(crate) fn zlib_inflate(data: &[u8]) -> (inflated: Result<
    Vec<u8>,
    miniz_oxide::inflate::DecompressError,
>)
    ensures
        match inflated {
            Ok(raw) => zlib_inflated(data@) == Some(raw@),
            Err(_) => zlib_inflated(data@) is None,
        },
{
    miniz_oxide::inflate::decompress_to_vec_zlib(data)
}

/// `miniz_oxide::deflate::compress_to_vec_zlib`. The contract gives its
/// result a name.
#[verifier::external_body]
pub(crate) fn zlib_deflate(data: &[u8], level: u8) -> (deflated: Vec<u8>)
    ensures
        deflated@ == zlib_deflated(data@, level),
{
    miniz_oxide::deflate::compress_to_vec_zlib(data, level)
}

/// `Engine::decode` of `base64`'s standard engine. The contract gives its
/// result a name, and says that an error comes exactly where there are no
/// bytes.
#[verifier::external_body]
pub(crate) fn base64_decode(text: &str) -> (decoded: Result<Vec<u8>, base64::DecodeError>)
    ensures
        match decoded {
            Ok(bytes) => base64_decoded(text@) == Some(bytes@),
            Err(_) => base64_decoded(text@) is None,
        },
{
    base64::Engine::decode(&base64::engine::general_purpose::STANDARD, text)
}

/// `Engine::encode` of `base64`'s standard engine. It panics where the
/// length of the text does not fit in `usize`, which `requires` leaves out.
/// The contract gives its result a name.
#[verifier::external_body]
pub(crate) fn base64_encode(bytes: &[u8]) -> (text: String)
    requires
        base64_length_fits(bytes@.len()),
    ensures
        text@ == base64_encoded(bytes@),
{
    base64::Engine::encode(&base64::engine::general_purpose::STANDARD, bytes)
}

} // verus!
