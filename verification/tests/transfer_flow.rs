use std::collections::HashMap;

use chunk_transfer::MergeError;
use chunk_transfer::UploadError;
use chunk_transfer::integrity::verify_digest;
use chunk_transfer::reassemble::assemble_chunks;
use chunk_transfer::reassemble::chunk_read_outcome;
use chunk_transfer::reassemble::finish_merge;
use chunk_transfer::reassemble::plan_merge;
use chunk_transfer::reassemble::resolve_destination;
use chunk_transfer::reassemble::resolve_destination_in_directory;
use chunk_transfer::reassemble::resolve_destination_with_code;
use chunk_transfer::registry::ChunkRegistry;
use chunk_transfer::store::append_body_chunk;
use chunk_transfer::store::chunk_key;
use chunk_transfer::upload::list_chunk_digests;
use chunk_transfer::upload::record_chunk;

fn md5_hex_of(bytes: &[u8]) -> String {
    format!("{:?}", md5::compute(bytes))
}

#[test]
fn digest_verification_accepts_only_the_true_digest() {
    // The digest of "abc" is fixed by the MD5 specification.
    assert!(verify_digest(b"abc", "900150983cd24fb0d6963f7d28e17f72"));
    assert!(verify_digest(b"", "d41d8cd98f00b204e9800998ecf8427e"));
    assert!(!verify_digest(b"abc", "d41d8cd98f00b204e9800998ecf8427e"));
    assert!(!verify_digest(b"abc", "not-a-digest"));
    assert!(!verify_digest(b"abc", ""));
}

#[test]
fn chunk_key_namespaces_by_identifier() {
    let key = chunk_key("./chunks/", "d0d0", "u1");
    assert_eq!(key, format!("./chunks/d0d0{:?}.chunk", md5::compute("u1")));
    let other = chunk_key("./chunks/", "d0d0", "u2");
    assert_ne!(key, other);
}

#[test]
fn body_chunks_overflow_is_rejected_and_buffer_kept() {
    let mut buf: Vec<u8> = Vec::new();
    assert_eq!(append_body_chunk(&mut buf, b"hello", 8), Ok(()));
    assert_eq!(append_body_chunk(&mut buf, b"abc", 7), Err(UploadError::Overflow));
    assert_eq!(buf, b"hello".to_vec());
    // A body of exactly the maximum size is still accepted.
    assert_eq!(append_body_chunk(&mut buf, b"abc", 8), Ok(()));
    assert_eq!(buf, b"helloabc".to_vec());
}

#[test]
fn mismatched_digest_leaves_no_chunk_and_no_entry() {
    let mut reg = ChunkRegistry::new(3600);
    let mut store: HashMap<String, Vec<u8>> = HashMap::new();
    let body = b"some chunk content".to_vec();
    let outcome = record_chunk(
        &mut reg,
        "./chunks/",
        "u1",
        0,
        1,
        "00000000000000000000000000000000",
        &body,
        0,
    );
    assert!(matches!(outcome, Err(UploadError::DigestMismatch)));
    // Nothing was handed out to persist, so the store stays empty.
    assert!(store.is_empty());
    assert!(reg.list_slots("u1").is_empty());
}

#[test]
fn merge_concatenates_last_written_chunks_in_index_order() {
    // A client declares three chunks for "u1" and sends them as
    // index 1, then 0, then 2; the merged artifact is the bytes of
    // chunk 0, then 1, then 2.
    let chunks_path = "./chunks/";
    let mut reg = ChunkRegistry::new(3600);
    let mut store: HashMap<String, Vec<u8>> = HashMap::new();

    let bodies: [&[u8]; 3] = [b"first part,", b"second part,", b"third part"];
    for &index in &[1usize, 0, 2] {
        let body = bodies[index].to_vec();
        let digest = md5_hex_of(&body);
        let accepted = record_chunk(
            &mut reg,
            chunks_path,
            "u1",
            index,
            3,
            &digest,
            &body,
            7,
        )
        .expect("a verified in-range chunk is accepted");
        assert_eq!(accepted.created, index == 1);
        store.insert(accepted.chunk_key, body);
    }

    let keys = plan_merge(&reg, chunks_path, "u1").expect("u1 is registered");
    assert_eq!(keys.len(), 3);
    let fetched: Vec<Vec<u8>> = keys.iter().map(|k| store[k].clone()).collect();
    let artifact = assemble_chunks(&fetched);
    assert_eq!(artifact, b"first part,second part,third part".to_vec());

    for key in &keys {
        store.remove(key).expect("every planned chunk was stored");
    }
    finish_merge(&mut reg, "u1").expect("the entry still exists");

    // After the merge the identifier lists as empty and its chunk
    // files are gone from storage.
    assert_eq!(list_chunk_digests(&reg, "u1"), "[]");
    assert!(store.is_empty());
    assert!(matches!(
        plan_merge(&reg, chunks_path, "u1"),
        Err(MergeError::UnknownIdentifier)
    ));
}

#[test]
fn repeated_upload_to_one_slot_merges_the_last_body() {
    let chunks_path = "./chunks/";
    let mut reg = ChunkRegistry::new(3600);
    let mut store: HashMap<String, Vec<u8>> = HashMap::new();

    for body in [b"first try".to_vec(), b"second try".to_vec()] {
        let digest = md5_hex_of(&body);
        let accepted =
            record_chunk(&mut reg, chunks_path, "u1", 0, 1, &digest, &body, 0).unwrap();
        store.insert(accepted.chunk_key, body);
    }

    let keys = plan_merge(&reg, chunks_path, "u1").unwrap();
    let fetched: Vec<Vec<u8>> = keys.iter().map(|k| store[k].clone()).collect();
    assert_eq!(assemble_chunks(&fetched), b"second try".to_vec());
}

#[test]
fn merge_of_unknown_identifier_is_refused() {
    let mut reg = ChunkRegistry::new(3600);
    assert!(matches!(
        plan_merge(&reg, "./chunks/", "nobody"),
        Err(MergeError::UnknownIdentifier)
    ));
    assert!(matches!(
        finish_merge(&mut reg, "nobody"),
        Err(MergeError::UnknownIdentifier)
    ));
}

#[test]
fn listing_serializes_digests_as_json() {
    let mut reg = ChunkRegistry::new(3600);
    assert_eq!(list_chunk_digests(&reg, "u1"), "[]");
    reg.record_digest("u1", 1, 2, "d1", 0).unwrap();
    assert_eq!(list_chunk_digests(&reg, "u1"), "[\"empty\",\"d1\"]");
}

#[test]
fn assemble_of_nothing_is_empty() {
    let chunks: Vec<Vec<u8>> = Vec::new();
    assert!(assemble_chunks(&chunks).is_empty());
}

#[test]
fn unreadable_chunk_aborts_as_incomplete() {
    assert_eq!(
        chunk_read_outcome(None),
        Err(MergeError::IncompleteOrMissingChunk)
    );
    assert_eq!(chunk_read_outcome(Some(b"ok".to_vec())), Ok(b"ok".to_vec()));
}

#[test]
fn undecodable_path_hint_yields_no_destination() {
    // 0xFF is not valid UTF-8, so the percent-encoded hint has no
    // decoding and no destination is produced.
    assert_eq!(resolve_destination("./files/", "%ff%fe"), None);
    assert_eq!(
        resolve_destination_with_code("./files/", "%ff%fe", 123456),
        None
    );
}

#[test]
fn destinations_decode_and_apply_the_rewrite_policy() {
    assert_eq!(
        resolve_destination("./files/", "dir%20a/report.pdf").as_deref(),
        Some("./files/dir a/report.pdf")
    );
    assert_eq!(
        resolve_destination("./files/", "plain.txt").as_deref(),
        Some("./files/plain.txt")
    );
    assert_eq!(
        resolve_destination_with_code("./files/", "report.pdf", 123456).as_deref(),
        Some("./files/report.pdf123456")
    );
    assert_eq!(
        resolve_destination_in_directory("./files/", "alice/", "report%2Epdf").as_deref(),
        Some("./files/alice/report.pdf")
    );
}
