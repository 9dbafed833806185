//! The authentication policy. Both methods are stateless decisions against
//! the credential store: a password attempt is accepted exactly when the
//! user is known, has a configured password, and the supplied password
//! equals it; a public-key attempt is accepted exactly when the user is
//! known and the presented fingerprint is one of the user's configured
//! fingerprints. Every rejection invites the client to retry with any
//! supported method. Proof of possession of the private key behind a
//! fingerprint is the transport engine's duty, performed before the
//! public-key decision is ever asked for.

use vstd::prelude::*;

use crate::credentials::CredentialStore;
use crate::credentials::spec_lookup;

verus! {

/// The outcome of one authentication attempt. A rejection never ends the
/// negotiation: the client may retry with any supported method.
#[derive(Clone, Copy, Debug, PartialEq, Eq, Structural)]
pub enum AuthDecision {
    Accept,
    RejectRetry,
}

/// A password attempt on `store` succeeds: the user is bound, has a
/// configured password, and it equals the supplied one exactly.
pub open spec fn password_accepted(store: CredentialStore, user: Seq<char>, password: Seq<char>) -> bool {
    match spec_lookup(store.entries@, user) {
        Some(c) => c.password == Some(password),
        None => false,
    }
}

/// A public-key attempt on `store` succeeds: the user is bound and the
/// presented fingerprint is a member of the user's fingerprint set.
pub open spec fn publickey_accepted(store: CredentialStore, user: Seq<char>, fingerprint: Seq<char>) -> bool {
    match spec_lookup(store.entries@, user) {
        Some(c) => c.has_fingerprint(fingerprint),
        None => false,
    }
}

/// Decides a password authentication attempt: accept exactly on an exact
/// match against the user's configured password; every other case (unknown
/// user, no password configured, mismatch) rejects with retry offered.
pub fn check_password(store: &CredentialStore, user: &String, password: &String) -> (d: AuthDecision)
    ensures
        d == AuthDecision::Accept <==> password_accepted(*store, user@, password@),
        d != AuthDecision::Accept ==> d == AuthDecision::RejectRetry,
{
    match store.lookup(user) {
        Some(credential) => match &credential.password {
            Some(configured) => {
                if *configured == *password {
                    AuthDecision::Accept
                } else {
                    AuthDecision::RejectRetry
                }
            },
            None => AuthDecision::RejectRetry,
        },
        None => AuthDecision::RejectRetry,
    }
}

/// Decides a public-key authentication attempt: accept exactly when the
/// presented fingerprint is configured for the user; otherwise reject with
/// retry offered.
#[verifier::loop_isolation(false)]
pub fn check_publickey(store: &CredentialStore, user: &String, fingerprint: &String) -> (d: AuthDecision)
    ensures
        d == AuthDecision::Accept <==> publickey_accepted(*store, user@, fingerprint@),
        d != AuthDecision::Accept ==> d == AuthDecision::RejectRetry,
{
    match store.lookup(user) {
        Some(credential) => {
            let fps = &credential.key_fingerprints;
            let n = fps.len();
            let mut i: usize = 0;
            while i < n
                invariant
                    i <= n,
                    n == fps@.len(),
                    forall|j: int| 0 <= j < i ==> fps@[j]@ != fingerprint@,
                decreases n - i,
            {
                if fps[i] == *fingerprint {
                    proof {
                        assert(credential@.key_fingerprints[i as int] == fingerprint@);
                    }
                    return AuthDecision::Accept;
                }
                i = i + 1;
            }
            proof {
                assert(!credential@.has_fingerprint(fingerprint@)) by {
                    assert forall|k: int|
                        0 <= k < credential@.key_fingerprints.len()
                            implies credential@.key_fingerprints[k] != fingerprint@ by {
                        assert(credential@.key_fingerprints[k] == fps@[k]@);
                    }
                }
            }
            AuthDecision::RejectRetry
        },
        None => AuthDecision::RejectRetry,
    }
}

/// A username that is not bound in the credential store is rejected by
/// both authentication methods, whatever password or fingerprint is
/// presented.
pub proof fn lemma_unknown_user_always_rejected(
    store: CredentialStore,
    user: Seq<char>,
    password: Seq<char>,
    fingerprint: Seq<char>,
)
    requires
        !store.contains_user(user),
    ensures
        !password_accepted(store, user, password),
        !publickey_accepted(store, user, fingerprint),
{
}

} // verus!
