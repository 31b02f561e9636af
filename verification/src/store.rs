//! Chunk store keys and request-body limits.
//!
//! The store itself is a directory of flat files written, read and
//! deleted by the caller; the verified part is the key space.  A key
//! combines the chunk's own digest with the digest of the owning
//! upload identifier, so physically distinct uploads never collide on
//! identical chunk content — deliberately, chunks are not deduplicated
//! across uploads.

use vstd::prelude::*;

use vstd::string::StringSliceAdditionalSpecFns;

use crate::UploadError;
use crate::integrity::md5_hex;
use crate::integrity::md5_hex_of;

verus! {

/// Suffix of every staged chunk file.
pub open spec fn chunk_suffix() -> Seq<char> {
    ".chunk"@
}

/// The storage key under which a chunk with `digest`, owned by the
/// identifier whose digest is `id_hash`, is staged.
pub open spec fn chunk_key_view(chunks_path: Seq<char>, digest: Seq<char>, id_hash: Seq<char>) -> Seq<
    char,
> {
    chunks_path + digest + id_hash + chunk_suffix()
}

/// Computes the storage key of one chunk: staging directory, chunk
/// digest, digest of the owning identifier's bytes, suffix.
pub fn chunk_key(chunks_path: &str, digest: &str, identifier: &str) -> (r: String)
    ensures
        r@ == chunk_key_view(chunks_path@, digest@, md5_hex_of(identifier.spec_bytes())),
{
    let id_hash = md5_hex(identifier.as_bytes());
    let mut r = String::from_str(chunks_path);
    r.append(digest);
    r.append(id_hash.as_str());
    r.append(".chunk");
    r
}

/// One step of receiving a request body: appends the network piece to
/// the buffer unless the total would grow past `max`, in which case
/// the piece is rejected and the buffer stays as it was — nothing of
/// an oversized body is kept.
pub fn append_body_chunk(buf: &mut Vec<u8>, piece: &[u8], max: usize) -> (r: Result<
    (),
    UploadError,
>)
    ensures
        match r {
            Ok(_) => {
                &&& old(buf)@.len() + piece@.len() <= max
                &&& final(buf)@ == old(buf)@ + piece@
            },
            Err(e) => {
                &&& e == UploadError::Overflow
                &&& old(buf)@.len() + piece@.len() > max
                &&& final(buf)@ == old(buf)@
            },
        },
{
    if piece.len() > max || buf.len() > max - piece.len() {
        return Err(UploadError::Overflow);
    }
    let n = piece.len();
    let mut i: usize = 0;
    while i < n
        invariant
            n == piece@.len(),
            i <= n,
            buf@ =~= old(buf)@ + piece@.take(i as int),
        decreases n - i,
    {
        buf.push(piece[i]);
        assert(buf@ =~= old(buf)@ + piece@.take(i + 1));
        i = i + 1;
    }
    assert(buf@ =~= old(buf)@ + piece@);
    Ok(())
}

} // verus!
