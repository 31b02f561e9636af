//! Accepting one chunk, and the progress listing clients poll.
//!
//! A chunk request carries an upload identifier, the chunk's slot
//! index, the total slot count, the digest its sender declared, and
//! the body bytes.  The body is verified against the declared digest
//! before anything else happens; only a verified chunk reaches the
//! registry, and only then does the caller persist the bytes under the
//! returned key.

use vstd::prelude::*;
use vstd::string::StringSliceAdditionalSpecFns;

use crate::UploadError;
use crate::integrity::md5_hex_of;
use crate::integrity::verify_digest;
use crate::registry::ChunkRegistry;
use crate::registry::slot_in_range;
use crate::registry::with_recorded_digest;
use crate::store::chunk_key;
use crate::store::chunk_key_view;

verus! {

/// What the caller must do after a chunk was accepted: write the body
/// bytes under `chunk_key`, and, on `created`, arm one reclamation
/// timer for the identifier's fresh entry.
pub struct RecordedChunk {
    pub chunk_key: String,
    pub created: bool,
}

/// Accepts one chunk: checks the body against the declared digest,
/// then records the digest in the identifier's slot list, allocating
/// the entry on first sight.  A body that does not hash to the
/// declared digest is rejected before the registry is touched, so no
/// storage key is ever handed out for it; an index outside the slot
/// list is likewise rejected and mutates nothing.
pub fn record_chunk(
    registry: &mut ChunkRegistry,
    chunks_path: &str,
    identifier: &str,
    index: usize,
    declared_count: usize,
    declared_digest: &str,
    body: &[u8],
    now: u64,
) -> (r: Result<RecordedChunk, UploadError>)
    requires
        old(registry).wf(),
        now + old(registry).survival() <= u64::MAX,
    ensures
        final(registry).wf(),
        final(registry).survival() == old(registry).survival(),
        match r {
            Ok(rc) => {
                &&& declared_digest@ == md5_hex_of(body@)
                &&& slot_in_range(old(registry)@, identifier@, index as int, declared_count as int)
                &&& rc.chunk_key@ == chunk_key_view(
                    chunks_path@,
                    declared_digest@,
                    md5_hex_of(identifier.spec_bytes()),
                )
                &&& rc.created == !old(registry)@.contains_key(identifier@)
                &&& final(registry)@ == with_recorded_digest(
                    old(registry)@,
                    identifier@,
                    index as int,
                    declared_count as int,
                    declared_digest@,
                    (now + old(registry).survival()) as u64,
                )
            },
            Err(e) => {
                &&& final(registry)@ == old(registry)@
                &&& e == if declared_digest@ != md5_hex_of(body@) {
                    UploadError::DigestMismatch
                } else {
                    UploadError::IndexOutOfRange
                }
                &&& declared_digest@ != md5_hex_of(body@) || !slot_in_range(
                    old(registry)@,
                    identifier@,
                    index as int,
                    declared_count as int,
                )
            },
        },
{
    if !verify_digest(body, declared_digest) {
        return Err(UploadError::DigestMismatch);
    }
    let created = match registry.record_digest(
        identifier,
        index,
        declared_count,
        declared_digest,
        now,
    ) {
        Ok(created) => created,
        Err(e) => {
            return Err(e);
        },
    };
    Ok(RecordedChunk { chunk_key: chunk_key(chunks_path, declared_digest, identifier), created })
}

/// The JSON text that a list of digest strings serializes to.  Its
/// exact spelling is the serializer's business and depends on the
/// digests alone, so it stays uninterpreted.
pub uninterp spec fn json_digest_array(digests: Seq<Seq<char>>) -> Seq<char>;

/// Relies on serde_json::to_string: the JSON text for a vector of
/// strings depends on the strings alone, and the empty vector prints
/// as the empty array.  Serializing a vector of strings cannot fail;
/// the fallback keeps the function total without a panic.
#[verifier::external_body]
fn digests_to_json(digests: &Vec<String>) -> (r: String)
    ensures
        r@ == json_digest_array(digests.deep_view()),
        digests.deep_view().len() == 0 ==> r@ == "[]"@,
{
    serde_json::to_string(digests).unwrap_or_else(|_| String::from("[]"))
}

/// The slot list of `identifier` as a JSON array of digest strings,
/// for clients polling their upload progress.  An identifier that was
/// never seen (or was already merged or reclaimed) yields the empty
/// array, never an error, so polling is always safe.
pub fn list_chunk_digests(registry: &ChunkRegistry, identifier: &str) -> (r: String)
    requires
        registry.wf(),
    ensures
        r@ == json_digest_array(
            if registry@.contains_key(identifier@) {
                registry@[identifier@].slots
            } else {
                Seq::<Seq<char>>::empty()
            },
        ),
        !registry@.contains_key(identifier@) ==> r@ == "[]"@,
{
    let slots = registry.list_slots(identifier);
    digests_to_json(&slots)
}

} // verus!
