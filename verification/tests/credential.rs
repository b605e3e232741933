use auther::Passkey;

use rand_core::Rng;
use rand_core::SeedableRng;
use sha2::Digest;
use sha2::Sha512;

#[test]
fn round_trip() {
    let secret = String::from("correct horse battery staple");
    let key = String::from("k");
    let plain = Passkey::Plain(secret.clone());
    let enc = plain.encrypt(&key).unwrap();
    assert!(matches!(enc, Passkey::Encrypted(_)));
    let dec = enc.decrypt(&key).unwrap();
    assert_eq!(dec, Passkey::Plain(secret));
}

#[test]
fn digest_stability() {
    let plain = Passkey::Plain(String::from("swordfish"));
    let key = String::from("a long passphrase");
    let enc = plain.encrypt(&key).unwrap();
    assert_eq!(plain.hash(None).unwrap(), enc.hash(Some(&key)).unwrap());
}

#[test]
fn encrypt_idempotent() {
    let plain = Passkey::Plain(String::from("swordfish"));
    let key1 = String::from("first key");
    let key2 = String::from("second key");
    let enc = plain.encrypt(&key1).unwrap();
    let enc_again = enc.encrypt(&key2).unwrap();
    assert_eq!(enc, enc_again);
}

#[test]
fn hash_is_irreversible() {
    let key = String::from("any key");
    let hashed = Passkey::Plain(String::from("secret")).hash(None).unwrap();
    assert!(matches!(hashed, Passkey::Hash(_)));
    assert!(hashed.encrypt(&key).is_none());
    assert!(hashed.decrypt(&key).is_none());
}

#[test]
fn ciphertext_equality_shortcut() {
    let a = Passkey::Encrypted(vec![1, 2, 3]);
    let b = Passkey::Encrypted(vec![1, 2, 3]);
    let c = Passkey::Encrypted(vec![1, 2, 4]);
    assert!(a.check(&b, None));
    assert!(!a.check(&c, None));
}

#[test]
fn hash_of_ciphertext_needs_key() {
    let key = String::from("k1");
    let enc = Passkey::Plain(String::from("hunter2")).encrypt(&key).unwrap();
    assert!(enc.hash(None).is_none());
    assert!(enc.hash(Some(&key)).is_some());
}

#[test]
fn decrypt_rejects_invalid_text() {
    // With key "a" the keystream starts with byte 0x61, so ciphertext byte
    // 0x9e recovers to 0xff, which is not valid UTF-8 on its own.
    let enc = Passkey::Encrypted(vec![0x9e]);
    let key = String::from("a");
    assert!(enc.decrypt(&key).is_none());
}

#[test]
fn known_sha512_digest() {
    let digest = Passkey::Plain(String::from("abc")).hash(None).unwrap();
    let expected = "ddaf35a193617abacc417349ae20413112e6fa4e89a97ea20a9eeee64b55d39a2192992a274fc1a836ba3c23a3feebbd454d4423643ce80e2a9ac94fa54ca49f";
    assert_eq!(digest, Passkey::Hash(String::from(expected)));
}

#[test]
fn end_to_end_keystream_prefix() {
    // Secret "hunter2" under passphrase "k1": 7 ciphertext bytes, the first
    // two XORed with the passphrase's own bytes, the rest with generator
    // output.
    let secret = "hunter2";
    let key = String::from("k1");
    let enc = Passkey::Plain(String::from(secret)).encrypt(&key).unwrap();
    let ct = match &enc {
        Passkey::Encrypted(ct) => ct.clone(),
        _ => panic!("encrypt must produce a ciphertext"),
    };
    assert_eq!(ct.len(), 7);
    assert_eq!(ct[0], b'h' ^ b'k');
    assert_eq!(ct[1], b'u' ^ b'1');
    assert_eq!(enc.decrypt(&key).unwrap(), Passkey::Plain(String::from(secret)));
}

#[test]
fn keystream_matches_generator() {
    // The ciphertext must equal the secret XORed with: the passphrase bytes,
    // then the HC-128 stream seeded with the first 32 bytes of the
    // passphrase's SHA-512 digest, drawn in 8-byte blocks.
    let secret = "0123456789abcdef";
    let key = String::from("k");
    let enc = Passkey::Plain(String::from(secret)).encrypt(&key).unwrap();

    let mut hasher = Sha512::new();
    hasher.update(key.as_bytes());
    let digest = hasher.finalize();
    let mut seed = [0u8; 32];
    seed.copy_from_slice(&digest[..32]);
    let mut rng = rand_hc::Hc128Rng::from_seed(seed);

    let mut keystream = key.as_bytes().to_vec();
    while keystream.len() < secret.len() {
        let mut fill = [0u8; 8];
        rng.fill_bytes(&mut fill);
        keystream.extend_from_slice(&fill);
    }
    let expected: Vec<u8> = secret
        .bytes()
        .zip(keystream)
        .map(|(a, b)| a ^ b)
        .collect();
    assert_eq!(enc, Passkey::Encrypted(expected));
}
