use cmem_server::crypto::{hex_decode, hex_encode, sha256_digest};
use cmem_server::tokens::{
    decode_jwt_secret, generate_machine_token, generate_refresh_token, hash_machine_token,
    is_machine_token, sha256_hex, SecretError,
};

#[test]
fn token_hash_stable() {
    let h1 = hash_machine_token("cmt_abcdef");
    let h2 = hash_machine_token("cmt_abcdef");
    assert_eq!(h1, h2);
    assert_eq!(h1.len(), 64);
}

#[test]
fn machine_token_format() {
    let t = generate_machine_token();
    assert!(is_machine_token(&t));
    assert_eq!(t.len(), 4 + 32);
}

#[test]
fn refresh_token_hash_stable() {
    let (plain, hash) = generate_refresh_token();
    assert_eq!(plain.len(), 64);
    assert_eq!(hash.len(), 64);
    assert_eq!(sha256_hex(&plain), hash);
}

#[test]
fn rejects_short_secret() {
    assert_eq!(decode_jwt_secret("deadbeef"), Err(SecretError::TooShort));
    assert_eq!(decode_jwt_secret("not hex at all"), Err(SecretError::NotHex));
    let ok = decode_jwt_secret(&"a".repeat(64)).expect("64 hex digits");
    assert_eq!(ok.len(), 32);
    assert!(ok.iter().all(|b| *b == 0xaa));
}

#[test]
fn sha256_of_known_input() {
    assert_eq!(
        sha256_hex("abc"),
        "ba7816bf8f01cfea414140de5dae2223b00361a396177a9cb410ff61f20015ad"
    );
    assert_eq!(sha256_digest(b"abc").len(), 32);
}

#[test]
fn hex_round_trip() {
    assert_eq!(hex_encode(&[0x00, 0xab, 0x10]), "00ab10");
    assert_eq!(hex_decode(b"00AB10"), Some(vec![0x00, 0xab, 0x10]));
    assert_eq!(hex_decode(b"0"), None);
    assert_eq!(hex_decode(b"zz"), None);
}

#[test]
fn plain_tokens_are_not_machine_tokens() {
    assert!(!is_machine_token("eyJhbGciOi"));
    assert!(is_machine_token("cmt_"));
}
