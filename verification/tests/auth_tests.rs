use broadcast_relay::auth::{check_password, check_publickey, AuthDecision};
use broadcast_relay::credentials::{CredentialStore, UserCredential};

fn store_with(users: Vec<(&str, Option<&str>, Vec<&str>)>) -> CredentialStore {
    let mut store = CredentialStore::new();
    for (name, password, fingerprints) in users {
        let credential = UserCredential {
            password: password.map(|p| p.to_string()),
            key_fingerprints: fingerprints.iter().map(|f| f.to_string()).collect(),
        };
        store.add_user(name.to_string(), credential).unwrap();
    }
    store
}

#[test]
fn password_exact_match_accepts() {
    let store = store_with(vec![("alice", Some("secret"), vec![])]);
    let d = check_password(&store, &"alice".to_string(), &"secret".to_string());
    assert_eq!(d, AuthDecision::Accept);
}

#[test]
fn password_mismatch_rejects_with_retry() {
    let store = store_with(vec![("alice", Some("secret"), vec![])]);
    let d = check_password(&store, &"alice".to_string(), &"wrong".to_string());
    assert_eq!(d, AuthDecision::RejectRetry);
}

#[test]
fn password_comparison_has_no_normalization() {
    let store = store_with(vec![("alice", Some("secret"), vec![])]);
    assert_eq!(
        check_password(&store, &"alice".to_string(), &"Secret".to_string()),
        AuthDecision::RejectRetry
    );
    assert_eq!(
        check_password(&store, &"alice".to_string(), &"secret ".to_string()),
        AuthDecision::RejectRetry
    );
}

#[test]
fn no_configured_password_rejects() {
    let store = store_with(vec![("carol", None, vec!["SHA256:abc"])]);
    let d = check_password(&store, &"carol".to_string(), &"anything".to_string());
    assert_eq!(d, AuthDecision::RejectRetry);
}

#[test]
fn publickey_member_fingerprint_accepts() {
    let store = store_with(vec![("bob", None, vec!["SHA256:abc", "SHA256:def"])]);
    let d = check_publickey(&store, &"bob".to_string(), &"SHA256:def".to_string());
    assert_eq!(d, AuthDecision::Accept);
}

#[test]
fn publickey_nonmember_fingerprint_rejects() {
    let store = store_with(vec![("bob", None, vec!["SHA256:abc", "SHA256:def"])]);
    let d = check_publickey(&store, &"bob".to_string(), &"SHA256:zzz".to_string());
    assert_eq!(d, AuthDecision::RejectRetry);
}

#[test]
fn publickey_empty_set_rejects() {
    let store = store_with(vec![("alice", Some("secret"), vec![])]);
    let d = check_publickey(&store, &"alice".to_string(), &"SHA256:abc".to_string());
    assert_eq!(d, AuthDecision::RejectRetry);
}

#[test]
fn unknown_user_rejects_both_methods() {
    let store = store_with(vec![("alice", Some("secret"), vec!["SHA256:abc"])]);
    assert_eq!(
        check_password(&store, &"mallory".to_string(), &"secret".to_string()),
        AuthDecision::RejectRetry
    );
    assert_eq!(
        check_publickey(&store, &"mallory".to_string(), &"SHA256:abc".to_string()),
        AuthDecision::RejectRetry
    );
}

#[test]
fn empty_store_rejects_everyone() {
    let store = CredentialStore::new();
    assert_eq!(
        check_password(&store, &"alice".to_string(), &"secret".to_string()),
        AuthDecision::RejectRetry
    );
    assert_eq!(
        check_publickey(&store, &"alice".to_string(), &"SHA256:abc".to_string()),
        AuthDecision::RejectRetry
    );
}

#[test]
fn duplicate_username_is_refused() {
    let mut store = CredentialStore::new();
    let first = UserCredential { password: Some("one".to_string()), key_fingerprints: vec![] };
    let second = UserCredential { password: Some("two".to_string()), key_fingerprints: vec![] };
    assert!(store.add_user("alice".to_string(), first).is_ok());
    assert!(store.add_user("alice".to_string(), second).is_err());
    // The first binding survives the refused insertion.
    assert_eq!(
        check_password(&store, &"alice".to_string(), &"one".to_string()),
        AuthDecision::Accept
    );
}

#[test]
fn lookup_finds_only_bound_names() {
    let store = store_with(vec![("alice", Some("secret"), vec![])]);
    assert!(store.lookup(&"alice".to_string()).is_some());
    assert!(store.lookup(&"bob".to_string()).is_none());
    let cred = store.lookup(&"alice".to_string()).unwrap();
    assert_eq!(cred.password.as_deref(), Some("secret"));
}

#[test]
fn scenario_password_then_wrong_retry() {
    // User "alice" is configured with password "secret"; a correct attempt
    // is accepted, a wrong one is rejected with a retry offered.
    let store = store_with(vec![("alice", Some("secret"), vec![])]);
    let first = check_password(&store, &"alice".to_string(), &"secret".to_string());
    assert_eq!(first, AuthDecision::Accept);
    let second = check_password(&store, &"alice".to_string(), &"wrong".to_string());
    assert_eq!(second, AuthDecision::RejectRetry);
}
