use server::password::{judge, login, store, store_with_salt, Login, StoredPassword};
use server::schema::db::User;
use server::schema::ids::{Id, UserId};

const SALT: &str = "c29tZXNhbHRzb21lc2FsdA";

fn id() -> UserId {
    UserId(Id::parse("0123456789abcdef").unwrap())
}

fn user(stored: &StoredPassword) -> User {
    User {
        id: id(),
        username: "alice".to_string(),
        password_hash: stored.hash.clone(),
        password_salt_b64: stored.salt_b64.clone(),
    }
}

#[test]
fn login_with_the_stored_hash_is_granted() {
    assert_eq!(judge(id(), &"h".to_string(), Some("h".to_string())), Login::Granted(id()));
}

#[test]
fn login_with_another_hash_is_invalid() {
    assert_eq!(judge(id(), &"h".to_string(), Some("g".to_string())), Login::Invalid);
    assert_eq!(judge(id(), &"h".to_string(), Some(String::new())), Login::Invalid);
}

#[test]
fn login_without_a_hash_has_failed() {
    assert_eq!(judge(id(), &"h".to_string(), None), Login::Failed);
}

#[test]
fn login_of_an_unknown_user_is_invalid() {
    assert_eq!(login(None, "secret"), Login::Invalid);
}

#[test]
fn password_is_stored_as_an_argon2_hash_under_its_salt() {
    let stored = store_with_salt("secret", SALT.to_string()).unwrap();
    assert_eq!(stored.salt_b64, SALT);
    assert!(stored.hash.starts_with("$argon2id$v=19$m=19456,t=2,p=1$c29tZXNhbHRzb21lc2FsdA$"));
    assert_eq!(stored.hash.len(), 54 + 43);
    assert_eq!(store_with_salt("secret", SALT.to_string()), Some(stored));
}

#[test]
fn stored_password_logs_in_and_another_does_not() {
    let stored = store_with_salt("secret", SALT.to_string()).unwrap();
    assert_eq!(login(Some(&user(&stored)), "secret"), Login::Granted(id()));
    assert_eq!(login(Some(&user(&stored)), "Secret"), Login::Invalid);
}

#[test]
fn unusable_salt_fails_the_login_and_the_storing() {
    assert_eq!(store_with_salt("secret", "abc".to_string()), None);
    assert_eq!(store_with_salt("secret", "not base64 at all!!".to_string()), None);
    let broken = User {
        id: id(),
        username: "alice".to_string(),
        password_hash: "h".to_string(),
        password_salt_b64: "abc".to_string(),
    };
    assert_eq!(login(Some(&broken), "secret"), Login::Failed);
}

#[test]
fn new_password_gets_a_fresh_salt_and_logs_in() {
    let first = store("secret").unwrap();
    let second = store("secret").unwrap();
    assert_ne!(first.salt_b64, second.salt_b64);
    assert_ne!(first.hash, second.hash);
    assert_eq!(first.salt_b64.len(), 22);
    assert_eq!(login(Some(&user(&first)), "secret"), Login::Granted(id()));
}
