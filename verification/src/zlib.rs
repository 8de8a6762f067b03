//! Zlib inflation of compressed CSW recordings, through `flate2`.

use vstd::prelude::*;
use std::io::Read;

verus! {

/// Outcome of inflating the zlib stream `data` through a reader limited to
/// `limit` output bytes: the bytes read, or `None` when the decoder reports
/// an error first.
pub uninterp spec fn zlib_inflate(data: Seq<u8>, limit: nat) -> Option<Seq<u8>>;

/// Calls `flate2::read::ZlibDecoder` over `data`, reading at most `limit`
/// bytes through `std::io::Read::take`. The contract claims only that the
/// outcome is the named function of the arguments and that no more than
/// `limit` bytes come back; the error text is the decoder's message.
#[verifier::external_body]
pub(crate) fn inflate_zlib(data: &[u8], limit: u64) -> (r: Result<Vec<u8>, String>)
    ensures
        r is Ok <==> zlib_inflate(data@, limit as nat) is Some,
        r matches Ok(v) ==> zlib_inflate(data@, limit as nat) == Some(v@) && v@.len() <= limit,
{
    let mut out = Vec::new();
    match flate2::read::ZlibDecoder::new(data).take(limit).read_to_end(&mut out) {
        Ok(_) => Ok(out),
        Err(e) => Err(e.to_string()),
    }
}

} // verus!
