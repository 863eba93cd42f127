//! Inflating a record's payload. The work is done by `miniz_oxide`; this
//! module states what the rest of the library relies on.

use vstd::prelude::*;

verus! {

/// The error of `miniz_oxide`'s one-shot inflaters, carried through unread.
#[verifier::external_type_specification]
#[verifier::external_body]
pub struct ExDecompressError(miniz_oxide::inflate::DecompressError);

/// What `miniz_oxide::inflate::decompress_to_vec_zlib` makes of `data`: the
/// inflated bytes, or `None` where it reports an error. The result depends
/// on the bytes alone.
pub uninterp spec fn zlib_inflated(data: Seq<u8>) -> Option<Seq<u8>>;

/// Calls `miniz_oxide::inflate::decompress_to_vec_zlib` on `data`. Trusted:
/// the outcome is the one that `zlib_inflated` names, an `Ok` carrying
/// exactly those bytes and an `Err` standing for `None`.
#[verifier::external_body]
pub(crate) fn inflate_zlib(data: &[u8]) -> (r: Result<
    Vec<u8>,
    miniz_oxide::inflate::DecompressError,
>)
    ensures
        match r {
            Ok(bytes) => zlib_inflated(data@) == Some(bytes@),
            Err(_) => zlib_inflated(data@) is None,
        },
{
    miniz_oxide::inflate::decompress_to_vec_zlib(data)
}

} // verus!
