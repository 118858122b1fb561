use massive_url::digest::digest_path;

// SHA-512 test vector: the digest of "abc".
const SHA512_ABC: &str = "ddaf35a193617abacc417349ae20413112e6fa4e89a97ea20a9eeee64b55d39a\
2192992a274fc1a836ba3c23a3feebbd454d4423643ce80e2a9ac94fa54ca49f";

// SHA-512 test vector: the digest of the empty string.
const SHA512_EMPTY: &str = "cf83e1357eefb8bdf1542850d66d8007d620e4050b5715dc83f4a921d36ce9ce\
47d0d13c5d85f2b0ff8318d2877eec2f63b931bd47417a81a538327af927da3e";

#[test]
fn digest_matches_known_vectors() {
    assert_eq!(digest_path("abc"), SHA512_ABC);
    assert_eq!(digest_path(""), SHA512_EMPTY);
}

#[test]
fn digest_is_deterministic() {
    let a = digest_path("https://example.com/page");
    let b = digest_path("https://example.com/page");
    assert_eq!(a, b);
}

#[test]
fn digest_is_fixed_length_lowercase_hex() {
    for input in ["", "a", "https://example.com", "https://a.very/long/url?with=query&bits=1"] {
        let path = digest_path(input);
        assert_eq!(path.len(), 128);
        assert!(path.chars().all(|c| c.is_ascii_hexdigit() && !c.is_ascii_uppercase()));
    }
}

#[test]
fn digest_has_no_collisions_over_a_corpus() {
    let mut seen: Vec<(String, String)> = Vec::new();
    for i in 0..300 {
        let input = format!("https://example.com/page/{}", i);
        let path = digest_path(&input);
        for (other_input, other_path) in &seen {
            assert_ne!(
                &path, other_path,
                "collision between {input} and {other_input}"
            );
        }
        seen.push((input, path));
    }
}
