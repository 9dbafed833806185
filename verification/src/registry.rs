//! The session registry: a mapping from (connection id, channel id) to the
//! send-handle for that channel, shared by every connection handler. A key
//! is registered at most once; registration of a duplicate key fails and
//! leaves the registry unchanged. Fan-out reads the registry to address
//! every channel whose connection differs from the sender. Callers
//! serialize registration and fan-out (a single registry-wide lock), so
//! the registry itself is a plain sequential structure.

use vstd::prelude::*;
use vstd::seq_lib::group_seq_properties;

verus! {

/// One routable destination: a channel of a connection, with the handle
/// that pushes bytes to it.
pub struct RegistryEntry<H> {
    pub connection_id: u64,
    pub channel_id: u64,
    pub handle: H,
}

/// Error returned when a (connection, channel) key is registered twice.
#[derive(Clone, Copy, Debug, PartialEq, Eq, Structural)]
pub struct DuplicateKey;

/// The registry. `H` is the transport engine's send-handle type; the
/// registry never looks inside a handle, it only stores and returns them.
pub struct SessionRegistry<H> {
    pub entries: Vec<RegistryEntry<H>>,
}

impl<H> SessionRegistry<H> {
    /// The (connection, channel) keys, in registration order.
    pub open spec fn keys(self) -> Seq<(u64, u64)> {
        self.entries@.map(|_i: int, e: RegistryEntry<H>| (e.connection_id, e.channel_id))
    }

    /// Keys are pairwise distinct: at most one entry per (connection,
    /// channel) pair.
    pub open spec fn wf(self) -> bool {
        forall|i: int, j: int| 0 <= i < j < self.keys().len() ==> self.keys()[i] != self.keys()[j]
    }

    /// The key is registered.
    pub open spec fn spec_contains(self, connection_id: u64, channel_id: u64) -> bool {
        self.keys().contains((connection_id, channel_id))
    }

    /// An empty registry: nothing is routable yet.
    pub fn new() -> (r: SessionRegistry<H>)
        ensures
            r.wf(),
            r.entries@.len() == 0,
    {
        SessionRegistry { entries: Vec::new() }
    }

    /// Whether the key is registered.
    #[verifier::loop_isolation(false)]
    pub fn contains_key(&self, connection_id: u64, channel_id: u64) -> (r: bool)
        ensures
            r == self.spec_contains(connection_id, channel_id),
    {
        let n = self.entries.len();
        let mut i: usize = 0;
        while i < n
            invariant
                i <= n,
                forall|j: int| 0 <= j < i ==> self.keys()[j] != (connection_id, channel_id),
            decreases n - i,
        {
            if self.entries[i].connection_id == connection_id && self.entries[i].channel_id
                == channel_id {
                proof {
                    assert(self.keys()[i as int] == (connection_id, channel_id));
                }
                return true;
            }
            i = i + 1;
        }
        false
    }

    /// Registers one destination. Succeeds exactly when the key is new; a
    /// duplicate key is refused and the registry is unchanged, so no
    /// earlier registration is ever lost or overwritten.
    pub fn register(&mut self, connection_id: u64, channel_id: u64, handle: H) -> (r: Result<
        (),
        DuplicateKey,
    >)
        requires
            old(self).wf(),
        ensures
            final(self).wf(),
            r is Ok <==> !old(self).spec_contains(connection_id, channel_id),
            r is Ok ==> final(self).entries@ == old(self).entries@.push(
                RegistryEntry { connection_id, channel_id, handle },
            ),
            r is Ok ==> final(self).keys() == old(self).keys().push((connection_id, channel_id)),
            r is Err ==> final(self).entries@ == old(self).entries@,
    {
        if self.contains_key(connection_id, channel_id) {
            Err(DuplicateKey)
        } else {
            let ghost pre = *self;
            self.entries.push(RegistryEntry { connection_id, channel_id, handle });
            proof {
                assert(self.keys() =~= pre.keys().push((connection_id, channel_id)));
                assert forall|i: int, j: int|
                    0 <= i < j < self.keys().len() implies self.keys()[i] != self.keys()[j] by {
                    if j == self.keys().len() - 1 {
                        assert(pre.keys()[i] == self.keys()[i]);
                        if self.keys()[i] == (connection_id, channel_id) {
                            assert(pre.keys().contains((connection_id, channel_id)));
                        }
                    }
                }
            }
            Ok(())
        }
    }

    /// The number of registered destinations.
    pub fn len(&self) -> (n: usize)
        ensures
            n == self.keys().len(),
    {
        self.entries.len()
    }

    /// The handle registered under a key, if any.
    #[verifier::loop_isolation(false)]
    pub fn get_handle(&self, connection_id: u64, channel_id: u64) -> (r: Option<&H>)
        ensures
            r is Some <==> self.spec_contains(connection_id, channel_id),
            r matches Some(h) ==> exists|i: int|
                0 <= i < self.entries@.len() && self.entries@[i].connection_id == connection_id
                    && self.entries@[i].channel_id == channel_id && self.entries@[i].handle == *h,
    {
        let n = self.entries.len();
        let mut i: usize = 0;
        while i < n
            invariant
                i <= n,
                forall|j: int| 0 <= j < i ==> self.keys()[j] != (connection_id, channel_id),
            decreases n - i,
        {
            if self.entries[i].connection_id == connection_id && self.entries[i].channel_id
                == channel_id {
                proof {
                    assert(self.keys()[i as int] == (connection_id, channel_id));
                }
                return Some(&self.entries[i].handle);
            }
            i = i + 1;
        }
        None
    }

    /// The keys every broadcast of `sender_connection` must reach: each
    /// registered destination whose connection differs from the sender, in
    /// registration order, each exactly once.
    #[verifier::loop_isolation(false)]
    pub fn broadcast_targets(&self, sender_connection: u64) -> (r: Vec<(u64, u64)>)
        ensures
            r@ == self.keys().filter(|k: (u64, u64)| k.0 != sender_connection),
    {
        broadcast use group_seq_properties;

        let pred = |k: (u64, u64)| k.0 != sender_connection;
        let n = self.entries.len();
        let mut out: Vec<(u64, u64)> = Vec::new();
        let mut i: usize = 0;
        proof {
            assert(self.keys().take(0) =~= Seq::<(u64, u64)>::empty());
            reveal(Seq::filter);
        }
        while i < n
            invariant
                i <= n,
                out@ == self.keys().take(i as int).filter(
                    |k: (u64, u64)| k.0 != sender_connection,
                ),
            decreases n - i,
        {
            proof {
                reveal(Seq::filter);
                assert(self.keys().take(i + 1).drop_last() =~= self.keys().take(i as int));
                assert(self.keys().take(i + 1).last() == self.keys()[i as int]);
            }
            if self.entries[i].connection_id != sender_connection {
                out.push((self.entries[i].connection_id, self.entries[i].channel_id));
            }
            i = i + 1;
        }
        proof {
            assert(self.keys().take(n as int) =~= self.keys());
        }
        out
    }
}

/// Draws a fresh connection id from the process-wide monotone counter: the
/// returned id is the counter's old value, never handed out again because
/// the counter strictly increases.
pub fn next_connection_id(counter: &mut u64) -> (id: u64)
    requires
        *old(counter) < u64::MAX,
    ensures
        id == *old(counter),
        *final(counter) == *old(counter) + 1,
{
    let id = *counter;
    *counter = *counter + 1;
    id
}

/// What one registration attempt does to a sequence of registered keys: a
/// fresh key is appended and the attempt succeeds; a duplicate is refused
/// and the keys stay as they were.
pub open spec fn register_outcome(keys: Seq<(u64, u64)>, key: (u64, u64)) -> (Seq<(u64, u64)>, bool) {
    if keys.contains(key) {
        (keys, false)
    } else {
        (keys.push(key), true)
    }
}

/// The keys after a whole sequence of registration attempts, in order.
pub open spec fn keys_after_registrations(keys: Seq<(u64, u64)>, calls: Seq<(u64, u64)>) -> Seq<
    (u64, u64),
>
    decreases calls.len(),
{
    if calls.len() == 0 {
        keys
    } else {
        register_outcome(keys_after_registrations(keys, calls.drop_last()), calls.last()).0
    }
}

/// No registration is lost: serialized registration attempts for pairwise
/// distinct keys, none registered before, all succeed, and the registry
/// ends holding exactly the old keys followed by every requested key — its
/// size grows by exactly the number of attempts.
pub proof fn lemma_no_lost_registrations(keys: Seq<(u64, u64)>, calls: Seq<(u64, u64)>)
    requires
        forall|i: int, j: int| 0 <= i < j < calls.len() ==> calls[i] != calls[j],
        forall|i: int| 0 <= i < calls.len() ==> !keys.contains(#[trigger] calls[i]),
    ensures
        keys_after_registrations(keys, calls) == keys + calls,
        keys_after_registrations(keys, calls).len() == keys.len() + calls.len(),
        forall|i: int|
            0 <= i < calls.len() ==> register_outcome(
                keys_after_registrations(keys, calls.take(i)),
                calls[i],
            ).1,
    decreases calls.len(),
{
    broadcast use group_seq_properties;

    if calls.len() == 0 {
        assert(keys_after_registrations(keys, calls) =~= keys + calls);
    } else {
        let head = calls.drop_last();
        let last = calls.last();
        lemma_no_lost_registrations(keys, head);
        let before = keys_after_registrations(keys, head);
        assert(before == keys + head);
        assert(!before.contains(last)) by {
            if before.contains(last) {
                let w = choose|w: int| 0 <= w < before.len() && before[w] == last;
                if w < keys.len() {
                    assert(keys[w] == last);
                    assert(keys.contains(calls[calls.len() - 1]));
                } else {
                    assert(head[w - keys.len()] == last);
                    assert(calls[w - keys.len()] == calls[calls.len() - 1]);
                }
            }
        }
        assert(keys_after_registrations(keys, calls) =~= keys + calls);
        assert forall|i: int|
            0 <= i < calls.len() implies register_outcome(
            keys_after_registrations(keys, calls.take(i)),
            calls[i],
        ).1 by {
            if i < calls.len() - 1 {
                assert(calls.take(i) =~= head.take(i));
                assert(calls[i] == head[i]);
            } else {
                assert(calls.take(i) =~= head);
            }
        }
    }
}

} // verus!
