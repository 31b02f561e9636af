//! Reassembler: turns a slot list into one artifact.
//!
//! The merge reads the identifier's slot list, resolves each slot to
//! its chunk store key in index order, concatenates the chunks' bytes
//! in exactly that order, and finally deletes the chunks and the
//! registry entry.  The caller performs the reads, the write of the
//! destination file and the deletes; everything it acts on is
//! computed here.  A failed merge rolls nothing back: the destination
//! may be left truncated and the entry intact, and the caller retries.

use vstd::prelude::*;
use vstd::string::StringSliceAdditionalSpecFns;

use crate::MergeError;
use crate::codes::decimal_digits;
use crate::codes::code_to_decimal;
use crate::integrity::md5_hex_of;
use crate::registry::ChunkRegistry;
use crate::registry::EntryModel;
use crate::store::chunk_key;
use crate::store::chunk_key_view;

verus! {

/// What a percent-encoded path decodes to.  The decoding is a
/// function of the text alone; its exact value stays uninterpreted
/// and every contract goes through this name.
pub uninterp spec fn url_decoded(s: Seq<char>) -> Seq<char>;

/// Relies on urlencoding::decode: percent-sequences are decoded as
/// UTF-8 bytes, an unencoded plus sign is kept literally, text
/// without a percent sign comes back unchanged, and the result
/// depends on the text alone.  The one failure is invalid UTF-8
/// after decoding.
#[verifier::external_body]
fn url_decode(s: &str) -> (r: Option<String>)
    ensures
        match r {
            Some(d) => d@ == url_decoded(s@) && (!s@.contains('%') ==> d@ == s@),
            None => s@.contains('%'),
        },
{
    match urlencoding::decode(s) {
        Ok(d) => Some(d.into_owned()),
        Err(_) => None,
    }
}

/// The merge destination for a caller without a path-rewrite policy:
/// the artifact directory followed by the decoded path hint.  `None`
/// exactly when the hint does not decode.
pub fn resolve_destination(base_path: &str, encoded_path: &str) -> (r: Option<String>)
    ensures
        r matches Some(p) ==> p@ == base_path@ + url_decoded(encoded_path@),
        !encoded_path@.contains('%') ==> (r matches Some(p) && p@ == base_path@
            + encoded_path@),
{
    match url_decode(encoded_path) {
        Some(decoded) => {
            let mut p = String::from_str(base_path);
            p.append(decoded.as_str());
            Some(p)
        },
        None => None,
    }
}

/// Path-rewrite policy that appends the retrieval code, so two
/// uploads of the same name cannot overwrite one another.
pub fn resolve_destination_with_code(base_path: &str, encoded_path: &str, code: i32) -> (r: Option<
    String,
>)
    requires
        code >= 0,
    ensures
        r matches Some(p) ==> p@ == base_path@ + url_decoded(encoded_path@) + decimal_digits(
            code as nat,
        ),
        !encoded_path@.contains('%') ==> r is Some,
{
    match resolve_destination(base_path, encoded_path) {
        Some(mut p) => {
            let code_text = code_to_decimal(code);
            p.append(code_text.as_str());
            Some(p)
        },
        None => None,
    }
}

/// Path-rewrite policy that places the artifact under a caller's own
/// directory (the multi-tenant deployment).
pub fn resolve_destination_in_directory(
    base_path: &str,
    directory: &str,
    encoded_path: &str,
) -> (r: Option<String>)
    ensures
        r matches Some(p) ==> p@ == base_path@ + directory@ + url_decoded(encoded_path@),
        !encoded_path@.contains('%') ==> r is Some,
{
    match url_decode(encoded_path) {
        Some(decoded) => {
            let mut p = String::from_str(base_path);
            p.append(directory);
            p.append(decoded.as_str());
            Some(p)
        },
        None => None,
    }
}

/// The chunk store keys of a slot list, in slot order.
pub open spec fn keys_of_slots(
    slots: Seq<Seq<char>>,
    chunks_path: Seq<char>,
    id_hash: Seq<char>,
) -> Seq<Seq<char>> {
    Seq::new(slots.len(), |i: int| chunk_key_view(chunks_path, slots[i], id_hash))
}

/// First half of a merge: the chunk store keys to read, in the order
/// their bytes enter the artifact.  Slots never uploaded still hold
/// the sentinel and resolve to a key no chunk was stored under; the
/// caller's read fails there, which is how an incomplete upload
/// surfaces.  Fails exactly on an unknown identifier.
pub fn plan_merge(registry: &ChunkRegistry, chunks_path: &str, identifier: &str) -> (r: Result<
    Vec<String>,
    MergeError,
>)
    requires
        registry.wf(),
    ensures
        match r {
            Ok(keys) => registry@.contains_key(identifier@) && keys.deep_view() == keys_of_slots(
                registry@[identifier@].slots,
                chunks_path@,
                md5_hex_of(identifier.spec_bytes()),
            ),
            Err(e) => e == MergeError::UnknownIdentifier && !registry@.contains_key(identifier@),
        },
{
    let slots = match registry.take_for_merge(identifier) {
        Some(slots) => slots,
        None => {
            return Err(MergeError::UnknownIdentifier);
        },
    };
    let ghost slots_view = registry@[identifier@].slots;
    let ghost id_hash = md5_hex_of(identifier.spec_bytes());
    let n = slots.len();
    let mut keys: Vec<String> = Vec::new();
    let mut i: usize = 0;
    while i < n
        invariant
            n == slots@.len(),
            i <= n,
            slots.deep_view() == slots_view,
            id_hash == md5_hex_of(identifier.spec_bytes()),
            keys.deep_view() =~= keys_of_slots(slots_view, chunks_path@, id_hash).take(i as int),
        decreases n - i,
    {
        let ghost prev = keys.deep_view();
        assert(slots.deep_view()[i as int] == slots@[i as int]@);
        let key = chunk_key(chunks_path, slots[i].as_str(), identifier);
        assert(key@ == chunk_key_view(chunks_path@, slots_view[i as int], id_hash));
        keys.push(key);
        assert(keys.deep_view() =~= prev.push(key@));
        assert(keys.deep_view() =~= keys_of_slots(slots_view, chunks_path@, id_hash).take(i + 1));
        i = i + 1;
    }
    assert(keys.deep_view() =~= keys_of_slots(slots_view, chunks_path@, id_hash));
    Ok(keys)
}

/// Appends every byte of `src` to `dst`.
fn push_bytes(dst: &mut Vec<u8>, src: &Vec<u8>)
    ensures
        final(dst)@ == old(dst)@ + src@,
{
    let n = src.len();
    let mut i: usize = 0;
    while i < n
        invariant
            n == src@.len(),
            i <= n,
            dst@ =~= old(dst)@ + src@.take(i as int),
        decreases n - i,
    {
        dst.push(src[i]);
        assert(dst@ =~= old(dst)@ + src@.take(i + 1));
        i = i + 1;
    }
    assert(dst@ =~= old(dst)@ + src@);
}

/// Second half of a merge: the artifact's bytes are the chunks'
/// bytes concatenated in slot order — the slot list alone determines
/// the byte order of the artifact.
pub fn assemble_chunks(chunks: &Vec<Vec<u8>>) -> (r: Vec<u8>)
    ensures
        r@ == chunks.deep_view().flatten(),
{
    let n = chunks.len();
    let mut r: Vec<u8> = Vec::new();
    let mut i: usize = 0;
    assert(chunks.deep_view().take(0) =~= Seq::<Seq<u8>>::empty());
    assert(r@ =~= chunks.deep_view().take(0 as int).flatten());
    while i < n
        invariant
            n == chunks@.len(),
            i <= n,
            r@ == chunks.deep_view().take(i as int).flatten(),
        decreases n - i,
    {
        push_bytes(&mut r, &chunks[i]);
        proof {
            let dv = chunks.deep_view();
            dv.take(i as int).lemma_flatten_push(dv[i as int]);
            assert(dv.take(i as int).push(dv[i as int]) =~= dv.take(i + 1));
        }
        i = i + 1;
    }
    assert(chunks.deep_view().take(n as int) =~= chunks.deep_view());
    r
}

/// Classifies one chunk read during a merge: bytes that could not be
/// read back mean a slot was never filled (its key still names the
/// sentinel) or its file is already gone, which aborts the merge as
/// an incomplete upload.
pub fn chunk_read_outcome(bytes: Option<Vec<u8>>) -> (r: Result<Vec<u8>, MergeError>)
    ensures
        r == match bytes {
            Some(b) => Result::<Vec<u8>, MergeError>::Ok(b),
            None => Result::<Vec<u8>, MergeError>::Err(MergeError::IncompleteOrMissingChunk),
        },
{
    match bytes {
        Some(b) => Ok(b),
        None => Err(MergeError::IncompleteOrMissingChunk),
    }
}

/// Last step of a successful merge: after the caller has written the
/// artifact and deleted every chunk file of the plan, the registry
/// entry is removed.  Once it succeeds the identifier lists as empty
/// again and may start a fresh upload.  Fails exactly on an unknown
/// identifier (an expiry that won the race, or a merge never begun).
pub fn finish_merge(registry: &mut ChunkRegistry, identifier: &str) -> (r: Result<(), MergeError>)
    requires
        old(registry).wf(),
    ensures
        final(registry).wf(),
        final(registry).survival() == old(registry).survival(),
        final(registry)@ == old(registry)@.remove(identifier@),
        match r {
            Ok(_) => old(registry)@.contains_key(identifier@),
            Err(e) => e == MergeError::UnknownIdentifier && !old(registry)@.contains_key(
                identifier@,
            ),
        },
{
    if registry.remove(identifier) {
        Ok(())
    } else {
        Err(MergeError::UnknownIdentifier)
    }
}

/// Law: once a merge (or an expiry) has removed an identifier's
/// entry, that identifier is absent from the registry map, so a
/// subsequent listing yields the empty sequence and a subsequent
/// merge is refused — whatever the map held before.
pub proof fn lemma_removed_identifier_absent(pre: Map<Seq<char>, EntryModel>, id: Seq<char>)
    ensures
        !pre.remove(id).contains_key(id),
{
}

} // verus!
