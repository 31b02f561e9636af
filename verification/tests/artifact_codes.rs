use chunk_transfer::artifact::ArtifactRegistry;
use chunk_transfer::artifact::display_filename;
use chunk_transfer::codes::code_to_decimal;
use chunk_transfer::codes::u64_to_decimal;
use chunk_transfer::auth::verify_token_valid;

#[test]
fn decimal_rendering_matches_the_usual_spelling() {
    assert_eq!(u64_to_decimal(0), "0");
    assert_eq!(u64_to_decimal(7), "7");
    assert_eq!(u64_to_decimal(1024), "1024");
    assert_eq!(u64_to_decimal(18446744073709551615), "18446744073709551615");
    assert_eq!(code_to_decimal(123456), "123456");
    assert_eq!(code_to_decimal(100000), "100000");
}

#[test]
fn created_artifact_is_retrievable_until_expiry() {
    let mut arts = ArtifactRegistry::new(200);
    let (code, path) = arts
        .create_artifact("./files/", "report.pdf", 10)
        .expect("a fresh code is found in an empty registry");
    assert!((100000..1000000).contains(&code));
    assert_eq!(path, format!("./files/report.pdf{}", code));
    assert_eq!(arts.lookup(code).as_deref(), Some(path.as_str()));

    // Before the deadline nothing is reclaimed; at it, the record
    // goes and the path comes back for file deletion.
    assert!(arts.expire_code(code, 209).is_none());
    assert_eq!(arts.expire_code(code, 210).as_deref(), Some(path.as_str()));
    assert!(arts.lookup(code).is_none());
    assert!(arts.expire_code(code, 211).is_none());
}

#[test]
fn retrieval_codes_never_collide_while_both_are_live() {
    let mut arts = ArtifactRegistry::new(3600);
    let (first, _) = arts.create_artifact("./files/", "a.bin", 0).unwrap();
    let (second, _) = arts.create_artifact("./files/", "b.bin", 0).unwrap();
    // The creation redraws on collision, so two live artifacts
    // cannot share a code.
    assert_ne!(first, second);
    assert_ne!(arts.lookup(first), arts.lookup(second));
}

#[test]
fn a_live_code_is_never_overwritten() {
    let mut arts = ArtifactRegistry::new(3600);
    assert!(arts.register_path(123456, "./files/a", 0));
    assert!(!arts.register_path(123456, "./files/b", 0));
    assert_eq!(arts.lookup(123456).as_deref(), Some("./files/a"));
}

#[test]
fn removed_artifact_is_not_found() {
    let mut arts = ArtifactRegistry::new(3600);
    assert!(arts.register_path(222333, "./files/x", 0));
    assert!(arts.remove(222333));
    assert!(!arts.remove(222333));
    assert!(arts.lookup(222333).is_none());
}

#[test]
fn fresh_codes_avoid_every_live_code() {
    let mut arts = ArtifactRegistry::new(3600);
    for _ in 0..50 {
        let (code, _) = arts.create_artifact("./files/", "f", 0).unwrap();
        assert!((100000..1000000).contains(&code));
    }
}

#[test]
fn served_filename_runs_from_last_separator_to_the_code() {
    assert_eq!(display_filename("./files/report.pdf123456"), "/report.pdf");
    assert_eq!(display_filename("./files/a/b/c.txt654321"), "/c.txt");
    // No separator, or too short to strip a code from: the default.
    assert_eq!(display_filename("report.pdf123456"), "defaultName");
    assert_eq!(display_filename("/abc"), "defaultName");
}

#[test]
fn garbage_tokens_are_invalid() {
    assert!(!verify_token_valid("not.a.token", "not a pem key"));
    assert!(!verify_token_valid("", ""));
}
