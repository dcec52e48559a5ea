use crim::error::Error;
use crim::vault::KeyVault;

#[test]
fn vault_install_get_clear() {
    let mut vault = KeyVault::new();
    assert_eq!(vault.get("alice"), Err(Error::NoActiveSession));
    vault.install("alice", vec![1, 2, 3]);
    assert_eq!(vault.get("alice"), Ok(vec![1, 2, 3]));
    assert_eq!(vault.get("bob"), Err(Error::NoActiveSession));
    vault.clear("alice");
    assert_eq!(vault.get("alice"), Err(Error::NoActiveSession));
    vault.clear("alice");
    assert!(!vault.holds("alice"));
}

#[test]
fn vault_holds_one_key_per_username() {
    let mut vault = KeyVault::new();
    vault.install("alice", vec![1, 2, 3]);
    vault.install("bob", vec![9]);
    vault.install("alice", vec![4, 5]);
    assert_eq!(vault.get("alice"), Ok(vec![4, 5]));
    assert_eq!(vault.get("bob"), Ok(vec![9]));
    vault.clear("alice");
    assert_eq!(vault.get("alice"), Err(Error::NoActiveSession));
    assert_eq!(vault.get("bob"), Ok(vec![9]));
}
