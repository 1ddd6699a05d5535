use augmcp::fingerprint::hash_blob_name;

#[test]
fn fingerprint_is_deterministic() {
    let a = hash_blob_name("src/main.rs", "fn main() {}\n");
    let b = hash_blob_name("src/main.rs", "fn main() {}\n");
    assert_eq!(a, b);
}

#[test]
fn fingerprint_matches_sha256_of_path_then_content() {
    // SHA-256("abc"), with the content empty, so the digest is over the path bytes alone
    assert_eq!(
        hash_blob_name("abc", ""),
        "ba7816bf8f01cfea414140de5dae2223b00361a396177a9cb410ff61f20015ad"
    );
    // SHA-256 of the empty input
    assert_eq!(
        hash_blob_name("", ""),
        "e3b0c44298fc1c149afbf4c8996fb92427ae41e4649b934ca495991b7852b855"
    );
    // the digest runs over the concatenation of path bytes then content bytes
    assert_eq!(hash_blob_name("ab", "c"), hash_blob_name("a", "bc"));
}

#[test]
fn changing_path_or_content_changes_the_digest() {
    let base = hash_blob_name("p.txt", "hello");
    assert_ne!(base, hash_blob_name("q.txt", "hello"));
    assert_ne!(base, hash_blob_name("p.txt", "hello!"));
    assert_ne!(base, hash_blob_name("p.txt", "Hello"));
}

#[test]
fn no_collisions_in_a_sampled_set() {
    let mut seen = Vec::new();
    for i in 0..50 {
        for j in 0..4 {
            let digest = hash_blob_name(&format!("f{i}.txt"), &format!("content {j}"));
            assert_eq!(digest.len(), 64);
            assert!(digest.chars().all(|c| c.is_ascii_hexdigit() && !c.is_ascii_uppercase()));
            assert!(!seen.contains(&digest), "unexpected collision");
            seen.push(digest);
        }
    }
}
