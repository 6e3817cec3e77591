use packsync::digest::digest_matches;
use packsync::digest::sha256_hex;
use packsync::digest::verify_download;

const EMPTY_SHA: &str = "e3b0c44298fc1c149afbf4c8996fb92427ae41e4649b934ca495991b7852b855";
const ABC_SHA: &str = "ba7816bf8f01cfea414140de5dae2223b00361a396177a9cb410ff61f20015ad";

#[test]
fn sha256_hex_of_empty_input() {
    assert_eq!(sha256_hex(b""), EMPTY_SHA);
}

#[test]
fn sha256_hex_of_known_vector() {
    assert_eq!(sha256_hex(b"abc"), ABC_SHA);
}

#[test]
fn digest_matches_accepts_correct_digest() {
    assert!(digest_matches(b"abc", &ABC_SHA.to_string()));
}

#[test]
fn digest_matches_rejects_wrong_digest() {
    assert!(!digest_matches(b"abcd", &ABC_SHA.to_string()));
    assert!(!digest_matches(b"abc", &EMPTY_SHA.to_string()));
}

#[test]
fn digest_matches_rejects_malformed_digest_strings() {
    assert!(!digest_matches(b"abc", &ABC_SHA.to_uppercase()));
    assert!(!digest_matches(b"abc", &"ba7816".to_string()));
    assert!(!digest_matches(b"abc", &String::new()));
}

#[test]
fn verify_download_accepts_matching_bytes() {
    assert!(verify_download(b"abc", &ABC_SHA.to_string()).is_ok());
}

#[test]
fn verify_download_rejects_corrupted_bytes() {
    let err = verify_download(b"abx", &ABC_SHA.to_string()).unwrap_err();
    assert_eq!(err.expected, ABC_SHA);
    assert_eq!(err.found, sha256_hex(b"abx"));
}
