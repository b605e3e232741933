use auther::Passkey;

#[test]
fn plain_verif() {
    let pass1 = Passkey::Plain(String::from("Hello, World! 0123456789"));
    let pass2 = Passkey::Plain(String::from("Hello, World! 0123456788"));

    let hash1 = pass1.hash(None).unwrap();
    let hash2 = pass2.hash(None).unwrap();

    assert!(pass1.check(&pass1, None));
    assert!(pass1.check(&hash1, None));

    assert!(!pass1.check(&pass2, None));
    assert!(!pass1.check(&hash2, None));

    assert!(pass2.check(&pass2, None));
    assert!(pass2.check(&hash2, None));

    assert!(!pass2.check(&pass1, None));
    assert!(!pass2.check(&hash1, None));
}

#[test]
fn encrypted_verif() {
    let pass1 = Passkey::Plain(String::from("Hello, World! 0123456789"));
    let pass2 = Passkey::Plain(String::from("Hello, World! 0123456788"));

    let hash1 = pass1.hash(None).unwrap();
    let hash2 = pass2.hash(None).unwrap();

    let key1 = String::from("abc1234");
    let key2 = String::from("abc1233");

    let enc1 = pass1.encrypt(&key1).unwrap();
    let enc2 = pass2.encrypt(&key2).unwrap();

    assert_eq!(pass1, enc1.decrypt(&key1).unwrap());
    assert_eq!(pass2, enc2.decrypt(&key2).unwrap());

    assert_eq!(hash1, enc1.hash(Some(&key1)).unwrap());
    assert_eq!(hash2, enc2.hash(Some(&key2)).unwrap());

    assert!(enc1.check(&enc1, None));
    assert!(enc1.check(&pass1, Some(&key1)));
    assert!(enc1.check(&hash1, Some(&key1)));

    assert!(!enc1.check(&pass1, Some(&key2)));
    assert!(!enc1.check(&pass2, Some(&key1)));
    assert!(!enc1.check(&pass2, Some(&key2)));

    assert!(!enc1.check(&hash1, Some(&key2)));
    assert!(!enc1.check(&hash2, Some(&key1)));
    assert!(!enc1.check(&hash2, Some(&key2)));

    assert!(enc2.check(&enc2, None));
    assert!(enc2.check(&pass2, Some(&key2)));
    assert!(enc2.check(&hash2, Some(&key2)));

    assert!(!enc2.check(&pass2, Some(&key1)));
    assert!(!enc2.check(&pass1, Some(&key2)));
    assert!(!enc2.check(&pass1, Some(&key1)));

    assert!(!enc2.check(&hash2, Some(&key1)));
    assert!(!enc2.check(&hash1, Some(&key2)));
    assert!(!enc2.check(&hash1, Some(&key1)));
}
