//! The credential store: an immutable mapping from username to the
//! credentials that user may authenticate with (at most one password and a
//! set of public-key fingerprints). Built once at startup and only read
//! afterwards.

use vstd::prelude::*;

verus! {

/// The credentials configured for one user: an optional plaintext password
/// and the fingerprints of the public keys the user may present.
pub struct UserCredential {
    pub password: Option<String>,
    pub key_fingerprints: Vec<String>,
}

/// Mathematical model of one user's credentials.
pub ghost struct UserCredentialView {
    pub password: Option<Seq<char>>,
    pub key_fingerprints: Seq<Seq<char>>,
}

impl View for UserCredential {
    type V = UserCredentialView;

    open spec fn view(&self) -> UserCredentialView {
        UserCredentialView {
            password: match self.password {
                Some(p) => Some(p@),
                None => None,
            },
            key_fingerprints: self.key_fingerprints@.map(|_i: int, f: String| f@),
        }
    }
}

impl UserCredentialView {
    /// The fingerprint set contains `fp`.
    pub open spec fn has_fingerprint(self, fp: Seq<char>) -> bool {
        exists|i: int| 0 <= i < self.key_fingerprints.len() && self.key_fingerprints[i] == fp
    }
}

/// One username together with its credentials.
pub struct UserEntry {
    pub name: String,
    pub credential: UserCredential,
}

/// The store itself: a list of entries with pairwise distinct usernames.
pub struct CredentialStore {
    pub entries: Vec<UserEntry>,
}

/// What looking a name up in a sequence of entries yields: the credentials
/// of the entry carrying that name, if any.
pub open spec fn spec_lookup(entries: Seq<UserEntry>, name: Seq<char>) -> Option<UserCredentialView>
    decreases entries.len(),
{
    if entries.len() == 0 {
        None
    } else if entries.last().name@ == name {
        Some(entries.last().credential@)
    } else {
        spec_lookup(entries.drop_last(), name)
    }
}

impl CredentialStore {
    /// Usernames are pairwise distinct, so each name maps to at most one
    /// credential record.
    pub open spec fn wf(self) -> bool {
        forall|i: int, j: int|
            0 <= i < j < self.entries@.len() ==> self.entries@[i].name@ != self.entries@[j].name@
    }

    /// The name is bound in the store.
    pub open spec fn contains_user(self, name: Seq<char>) -> bool {
        spec_lookup(self.entries@, name) is Some
    }

    /// An empty store: every lookup misses.
    pub fn new() -> (store: CredentialStore)
        ensures
            store.wf(),
            store.entries@.len() == 0,
    {
        CredentialStore { entries: Vec::new() }
    }

    /// Adds one user. Succeeds exactly when the name is not yet bound;
    /// a duplicate leaves the store unchanged.
    pub fn add_user(&mut self, name: String, credential: UserCredential) -> (r: Result<(), DuplicateName>)
        requires
            old(self).wf(),
        ensures
            final(self).wf(),
            r is Ok <==> !old(self).contains_user(name@),
            r is Ok ==> final(self).entries@ == old(self).entries@.push(
                UserEntry { name, credential },
            ),
            r is Err ==> final(self).entries@ == old(self).entries@,
    {
        if self.contains(&name) {
            Err(DuplicateName)
        } else {
            let ghost pre = self.entries@;
            let ghost nm = name@;
            let entry = UserEntry { name, credential };
            self.entries.push(entry);
            proof {
                assert forall|i: int, j: int|
                    0 <= i < j < self.entries@.len() implies self.entries@[i].name@
                    != self.entries@[j].name@ by {
                    if j == self.entries@.len() - 1 && self.entries@[i].name@ == nm {
                        lemma_bound_name_lookup_hits(pre, i, nm);
                    }
                }
            }
            Ok(())
        }
    }

    /// Whether the name is bound in the store.
    pub fn contains(&self, name: &String) -> (r: bool)
        ensures
            r == self.contains_user(name@),
    {
        self.lookup(name).is_some()
    }

    /// Looks a username up, returning its credentials when the name is
    /// bound and nothing otherwise. The store is never mutated.
    pub fn lookup(&self, name: &String) -> (r: Option<&UserCredential>)
        ensures
            match r {
                Some(c) => spec_lookup(self.entries@, name@) == Some(c@),
                None => spec_lookup(self.entries@, name@) is None,
            },
    {
        let n = self.entries.len();
        proof {
            assert(self.entries@.take(n as int) =~= self.entries@);
        }
        let mut i: usize = n;
        while i > 0
            invariant
                i <= n,
                n == self.entries@.len(),
                spec_lookup(self.entries@.take(i as int), name@) == spec_lookup(
                    self.entries@,
                    name@,
                ),
            decreases i,
        {
            i = i - 1;
            proof {
                assert(self.entries@.take(i + 1).last() == self.entries@[i as int]);
                assert(self.entries@.take(i + 1).drop_last() =~= self.entries@.take(i as int));
            }
            if self.entries[i].name == *name {
                return Some(&self.entries[i].credential);
            }
        }
        proof {
            assert(self.entries@.take(0) =~= Seq::<UserEntry>::empty());
        }
        None
    }
}

/// Error returned when a username is added twice.
#[derive(Clone, Copy, Debug, PartialEq, Eq, Structural)]
pub struct DuplicateName;

/// An entry's name is found by `spec_lookup`.
proof fn lemma_bound_name_lookup_hits(entries: Seq<UserEntry>, i: int, name: Seq<char>)
    requires
        0 <= i < entries.len(),
        entries[i].name@ == name,
    ensures
        spec_lookup(entries, name) is Some,
    decreases entries.len(),
{
    if entries.last().name@ != name {
        lemma_bound_name_lookup_hits(entries.drop_last(), i, name);
    }
}

} // verus!
