//! The forwarded-channel policy. A remote port-forwarding request is
//! always granted; the grant detaches a one-shot task that opens an
//! outbound forwarded channel to the requested address and port, under a
//! fixed originator address and port, writes a fixed greeting, and signals
//! end-of-data. The task's failures stay its own: they are never surfaced
//! to the connection that requested the forward.

use vstd::prelude::*;

verus! {

/// Everything the detached one-shot task needs: where to open the
/// forwarded channel, the originator pair to claim, and the greeting to
/// write before signalling end-of-data.
pub struct ForwardTask {
    pub address: String,
    pub port: u32,
    pub originator_address: String,
    pub originator_port: u32,
    pub greeting: String,
}

/// Decides a remote port-forwarding request for `address:port`: the
/// request is always granted, and the task opens the forwarded channel to
/// exactly the requested address and port, claims the fixed originator
/// `1.2.3.4:1234`, and writes the fixed greeting once.
pub fn plan_forward(address: &str, port: u32) -> (r: (bool, ForwardTask))
    ensures
        r.0,
        r.1.address@ == address@,
        r.1.port == port,
        r.1.originator_address@ == "1.2.3.4"@,
        r.1.originator_port == 1234,
        r.1.greeting@ == "Hello from a forwarded port"@,
{
    let task = ForwardTask {
        address: address.to_owned(),
        port,
        originator_address: "1.2.3.4".to_owned(),
        originator_port: 1234,
        greeting: "Hello from a forwarded port".to_owned(),
    };
    (true, task)
}

} // verus!
