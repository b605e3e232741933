use auther::Data;
use auther::PassManager;
use auther::Passkey;
use auther::Password;

fn entry(secret: &str, data: Vec<Data>) -> Password {
    let mut p = Password::new(Passkey::Plain(String::from(secret)));
    for d in data {
        p.add(d);
    }
    p
}

#[test]
fn store_merge() {
    let mut manager = PassManager::new();
    manager.add_password(entry("p", vec![Data::location(String::from("a"))]));
    manager.add_password(entry("p", vec![Data::location(String::from("b"))]));

    let passwords = manager.passwords();
    assert_eq!(passwords.len(), 1);
    assert_eq!(passwords[0].location(), vec![String::from("a"), String::from("b")]);

    manager.add_password(entry("q", vec![Data::location(String::from("c"))]));
    let passwords = manager.passwords();
    assert_eq!(passwords.len(), 2);
    assert_eq!(passwords[1].location(), vec![String::from("c")]);
}

#[test]
fn encrypted_entries_do_not_merge_with_plain() {
    // With no passphrase an encrypted entry cannot be digested, so a plain
    // entry with the same secret stays separate.
    let key = String::from("k");
    let enc = Passkey::Plain(String::from("p")).encrypt(&key).unwrap();
    let mut manager = PassManager::new();
    manager.add_password(Password::new(enc));
    manager.add_password(entry("p", vec![Data::location(String::from("a"))]));
    assert_eq!(manager.passwords().len(), 2);
}

#[test]
fn lookup_matches_fields_independently() {
    let mut manager = PassManager::new();
    let mut p = Password::new(Passkey::Plain(String::from("s")));
    p.add_location(String::from("a"));
    p.add_email(String::from("a"), String::from("e@x.com"));
    manager.add_password(p);

    let by_site = manager.get_location(String::from("a")).unwrap();
    assert_eq!(by_site.location(), vec![String::from("a"), String::from("a")]);

    // The email is not on the first record that matches the site; the entry
    // must still be found.
    let by_email = manager.get_email(String::from("a"), String::from("e@x.com")).unwrap();
    assert_eq!(by_email.email(), vec![String::from("e@x.com")]);

    assert!(manager.get_location(String::from("b")).is_none());
    assert!(manager.get_email(String::from("a"), String::from("other@x.com")).is_none());
}

#[test]
fn lookup_by_username() {
    let mut manager = PassManager::new();
    let mut p = Password::new(Passkey::Plain(String::from("s")));
    p.add_username(String::from("site"), String::from("user1"));
    manager.add_password(p);

    let found = manager.get_username(String::from("site"), String::from("user1")).unwrap();
    assert_eq!(found.username(), vec![String::from("user1")]);
    assert!(manager.get_username(String::from("site"), String::from("user2")).is_none());
}

#[test]
fn get_data_ignores_empty_fields() {
    let mut manager = PassManager::new();
    let mut p = Password::new(Passkey::Plain(String::from("s")));
    p.add_email(String::from("site"), String::from("e@x.com"));
    manager.add_password(p);

    let q = Data::location(String::from("site"));
    assert!(manager.get_data(q).is_some());
}

#[test]
fn password_getters() {
    let mut p = Password::new(Passkey::Plain(String::from("s")));
    p.add_location(String::from("plain"));
    p.add_email(String::from("mail"), String::from("e@x.com"));
    p.add_username(String::from("forum"), String::from("user1"));

    assert_eq!(
        p.location(),
        vec![String::from("plain"), String::from("mail"), String::from("forum")]
    );
    assert_eq!(p.email(), vec![String::from("e@x.com")]);
    assert_eq!(p.username(), vec![String::from("user1")]);
}

#[test]
fn password_check_delegates() {
    let p = Password::new(Passkey::Plain(String::from("s")));
    assert!(p.check(&Passkey::Plain(String::from("s")), None));
    assert!(!p.check(&Passkey::Plain(String::from("t")), None));
}

#[test]
fn remove_location() {
    let mut p = Password::new(Passkey::Plain(String::from("s")));
    p.add_location(String::from("a"));
    p.add_location(String::from("b"));
    p.add_location(String::from("a"));
    p.remove_location(String::from("a"));
    assert_eq!(p.location(), vec![String::from("b")]);
}

#[test]
fn remove_email() {
    let mut p = Password::new(Passkey::Plain(String::from("s")));
    p.add_email(String::from("a"), String::from("e@x.com"));
    p.add_email(String::from("b"), String::from("f@x.com"));
    p.remove_email(String::from("e@x.com"));
    assert_eq!(p.location(), vec![String::from("b")]);
    assert_eq!(p.email(), vec![String::from("f@x.com")]);
}

#[test]
fn remove_username() {
    let mut p = Password::new(Passkey::Plain(String::from("s")));
    p.add_username(String::from("a"), String::from("u1"));
    p.add_username(String::from("b"), String::from("u2"));
    p.remove_username(String::from("u2"));
    assert_eq!(p.location(), vec![String::from("a")]);
    assert_eq!(p.username(), vec![String::from("u1")]);
}

#[test]
fn data_constructors() {
    let d = Data::location(String::from("a"));
    assert_eq!(d.location, "a");
    assert!(d.email.is_none());
    assert!(d.username.is_none());

    let d = Data::email(String::from("a"), String::from("e@x.com"));
    assert_eq!(d.email.as_deref(), Some("e@x.com"));
    assert!(d.username.is_none());

    let d = Data::username(String::from("a"), String::from("u"));
    assert_eq!(d.username.as_deref(), Some("u"));
    assert!(d.email.is_none());
}
