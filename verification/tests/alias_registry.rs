use unik::errors::UnikError;
use unik::registry::Registry;

fn s(x: &str) -> String {
    x.to_string()
}

#[test]
fn register_two_chars_fails_length() {
    let mut reg = Registry::new();
    assert_eq!(
        reg.register_alias(&s("ab"), &s(""), 1, 0),
        Err(UnikError::InvalidAliasLength)
    );
    assert_eq!(reg.aliases.len(), 0);
}

#[test]
fn register_thirty_three_chars_fails_length() {
    let mut reg = Registry::new();
    let name = "a".repeat(33);
    assert_eq!(
        reg.register_alias(&name, &s(""), 1, 0),
        Err(UnikError::InvalidAliasLength)
    );
}

#[test]
fn register_uppercase_fails_characters() {
    let mut reg = Registry::new();
    assert_eq!(
        reg.register_alias(&s("AB_1"), &s(""), 1, 0),
        Err(UnikError::InvalidAliasCharacters)
    );
}

#[test]
fn register_non_ascii_fails_characters() {
    let mut reg = Registry::new();
    assert_eq!(
        reg.register_alias(&s("abcé"), &s(""), 1, 0),
        Err(UnikError::InvalidAliasCharacters)
    );
}

#[test]
fn register_three_chars_succeeds_active_version_one() {
    let mut reg = Registry::new();
    assert_eq!(reg.register_alias(&s("abc"), &s("uri"), 7, 42), Ok(()));
    assert_eq!(reg.aliases.len(), 1);
    let rec = &reg.aliases[0];
    assert_eq!(rec.alias, "abc");
    assert_eq!(rec.owner, 7);
    assert_eq!(rec.version, 1);
    assert!(rec.is_active);
    assert_eq!(rec.registered_at, 42);
    assert_eq!(rec.metadata_uri, "uri");
}

#[test]
fn register_boundary_lengths_succeed() {
    let mut reg = Registry::new();
    assert_eq!(reg.register_alias(&s("a_0"), &s(""), 1, 0), Ok(()));
    let long = "z".repeat(32);
    assert_eq!(reg.register_alias(&long, &s(""), 1, 0), Ok(()));
}

#[test]
fn register_oversized_metadata_fails() {
    let mut reg = Registry::new();
    let uri = "x".repeat(201);
    assert_eq!(
        reg.register_alias(&s("abc"), &uri, 1, 0),
        Err(UnikError::MetadataTooLong)
    );
    let ok_uri = "x".repeat(200);
    assert_eq!(reg.register_alias(&s("abc"), &ok_uri, 1, 0), Ok(()));
}

#[test]
fn register_taken_name_fails() {
    let mut reg = Registry::new();
    assert_eq!(reg.register_alias(&s("abc"), &s(""), 1, 0), Ok(()));
    assert_eq!(
        reg.register_alias(&s("abc"), &s(""), 2, 1),
        Err(UnikError::AlreadyExists)
    );
}

#[test]
fn update_metadata_owner_only() {
    let mut reg = Registry::new();
    reg.register_alias(&s("abc"), &s("old"), 1, 0).unwrap();
    assert_eq!(
        reg.update_metadata(&s("abc"), &s("new"), 2),
        Err(UnikError::Unauthorized)
    );
    assert_eq!(reg.aliases[0].metadata_uri, "old");
    assert_eq!(reg.update_metadata(&s("abc"), &s("new"), 1), Ok(()));
    assert_eq!(reg.aliases[0].metadata_uri, "new");
}

#[test]
fn update_metadata_missing_alias_fails() {
    let mut reg = Registry::new();
    assert_eq!(
        reg.update_metadata(&s("abc"), &s("new"), 1),
        Err(UnikError::AliasNotFound)
    );
}

#[test]
fn update_metadata_oversized_fails() {
    let mut reg = Registry::new();
    reg.register_alias(&s("abc"), &s("old"), 1, 0).unwrap();
    let uri = "y".repeat(201);
    assert_eq!(
        reg.update_metadata(&s("abc"), &uri, 1),
        Err(UnikError::MetadataTooLong)
    );
}

#[test]
fn deactivate_is_not_idempotent() {
    let mut reg = Registry::new();
    reg.register_alias(&s("abc"), &s(""), 1, 0).unwrap();
    assert_eq!(reg.deactivate(&s("abc"), 1), Ok(()));
    assert!(!reg.aliases[0].is_active);
    assert_eq!(
        reg.deactivate(&s("abc"), 1),
        Err(UnikError::AliasAlreadyInactive)
    );
}

#[test]
fn reactivate_is_not_idempotent() {
    let mut reg = Registry::new();
    reg.register_alias(&s("abc"), &s(""), 1, 0).unwrap();
    assert_eq!(
        reg.reactivate(&s("abc"), 1),
        Err(UnikError::AliasAlreadyActive)
    );
    reg.deactivate(&s("abc"), 1).unwrap();
    assert_eq!(reg.reactivate(&s("abc"), 1), Ok(()));
    assert!(reg.aliases[0].is_active);
}

#[test]
fn deactivate_owner_only() {
    let mut reg = Registry::new();
    reg.register_alias(&s("abc"), &s(""), 1, 0).unwrap();
    assert_eq!(reg.deactivate(&s("abc"), 9), Err(UnikError::Unauthorized));
    assert!(reg.aliases[0].is_active);
}

#[test]
fn delete_frees_name_for_new_owner_with_fresh_identity() {
    let mut reg = Registry::new();
    reg.register_alias(&s("abc"), &s(""), 1, 0).unwrap();
    let old_id = reg.aliases[0].id;
    assert_eq!(reg.delete_alias(&s("abc"), 2), Err(UnikError::Unauthorized));
    assert_eq!(reg.delete_alias(&s("abc"), 1), Ok(()));
    assert_eq!(reg.aliases.len(), 0);
    assert_eq!(reg.register_alias(&s("abc"), &s(""), 2, 5), Ok(()));
    let rec = &reg.aliases[0];
    assert_eq!(rec.owner, 2);
    assert_eq!(rec.version, 1);
    assert_ne!(rec.id, old_id);
}
