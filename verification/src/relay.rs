//! The data relay. Each inbound payload is decoded tolerantly (invalid
//! UTF-8 never fails, it becomes replacement characters), framed as the
//! line `Got data: <payload>\r\n`, and planned for delivery: once to every
//! registered channel of every other connection (the fan-out), and once,
//! separately, back to the originating channel (the echo). The transport
//! engine performs the sends; a failed send to one destination is its
//! caller's business and never removes a destination from the plan.

use vstd::prelude::*;
use vstd::seq_lib::group_seq_properties;
use vstd::string::StringExecFns;

use crate::registry::SessionRegistry;

verus! {

/// What `String::from_utf8_lossy` returns for these bytes: a function of
/// the bytes alone, the same in every process.
pub uninterp spec fn lossy_utf8(bytes: Seq<u8>) -> Seq<char>;

/// Relies on String::from_utf8_lossy: the result depends on the bytes
/// alone; invalid sequences are replaced by U+FFFD rather than failing,
/// and ASCII bytes (all below 0x80 form valid UTF-8) decode to themselves.
#[verifier::external_body]
fn decode_utf8_lossy(bytes: &[u8]) -> (r: String)
    ensures
        r@ == lossy_utf8(bytes@),
        (forall|i: int| 0 <= i < bytes@.len() ==> bytes@[i] < 0x80) ==> r@ == bytes@.map(
            |_i: int, b: u8| b as char,
        ),
{
    String::from_utf8_lossy(bytes).into_owned()
}

/// The formatted line every destination receives for an inbound payload.
pub open spec fn got_data_line(payload: Seq<u8>) -> Seq<char> {
    "Got data: "@ + lossy_utf8(payload) + "\r\n"@
}

/// Formats one inbound payload as the relay line. Decoding never fails:
/// any byte sequence, valid UTF-8 or not, yields a line.
pub fn format_data_line(payload: &[u8]) -> (r: String)
    ensures
        r@ == got_data_line(payload@),
{
    let mut line: String = "Got data: ".to_owned();
    let decoded = decode_utf8_lossy(payload);
    line.append(decoded.as_str());
    line.append("\r\n");
    line
}

/// The deliveries one inbound data event owes: the same formatted line to
/// every target key (fan-out) and to the originating channel (echo).
pub struct RelayPlan {
    pub line: String,
    pub targets: Vec<(u64, u64)>,
    pub echo_channel: u64,
}

/// Plans the relay of one inbound payload from `sender_connection` heard
/// on `sender_channel`: the formatted line goes to every registered
/// channel of every other connection, each exactly once and in
/// registration order, and the same line echoes back on the originating
/// channel — the sender's other channels, if any, are skipped by the
/// fan-out and not echoed to.
pub fn plan_relay<H>(
    registry: &SessionRegistry<H>,
    sender_connection: u64,
    sender_channel: u64,
    payload: &[u8],
) -> (plan: RelayPlan)
    ensures
        plan.line@ == got_data_line(payload@),
        plan.targets@ == registry.keys().filter(|k: (u64, u64)| k.0 != sender_connection),
        plan.echo_channel == sender_channel,
{
    RelayPlan {
        line: format_data_line(payload),
        targets: registry.broadcast_targets(sender_connection),
        echo_channel: sender_channel,
    }
}

/// The broadcast law. For registered keys with no duplicates, the fan-out
/// targets for a sender hold exactly the keys of the other connections,
/// each exactly once; no channel of the sender is among them (the echo,
/// counted separately, reaches the originating channel). When the sender
/// owns exactly one registered channel, the fan-out reaches all but one of
/// the registered channels, so fan-out plus echo is one delivery per
/// registered channel.
pub proof fn lemma_broadcast_fanout(keys: Seq<(u64, u64)>, sender: u64)
    requires
        keys.no_duplicates(),
    ensures
        forall|k: (u64, u64)|
            keys.filter(|k2: (u64, u64)| k2.0 != sender).contains(k) <==> keys.contains(k) && k.0
                != sender,
        keys.filter(|k2: (u64, u64)| k2.0 != sender).no_duplicates(),
        keys.filter(|k2: (u64, u64)| k2.0 != sender).len() + keys.filter(
            |k2: (u64, u64)| k2.0 == sender,
        ).len() == keys.len(),
        keys.filter(|k2: (u64, u64)| k2.0 == sender).len() == 1 ==> keys.filter(
            |k2: (u64, u64)| k2.0 != sender,
        ).len() + 1 == keys.len(),
    decreases keys.len(),
{
    broadcast use group_seq_properties;

    reveal(Seq::filter);
    let ne = |k2: (u64, u64)| k2.0 != sender;
    let eq = |k2: (u64, u64)| k2.0 == sender;
    if keys.len() == 0 {
        assert(keys.filter(ne) =~= Seq::<(u64, u64)>::empty());
        assert(keys.filter(eq) =~= Seq::<(u64, u64)>::empty());
    } else {
        let head = keys.drop_last();
        let last = keys.last();
        assert(head.no_duplicates());
        lemma_broadcast_fanout(head, sender);
        assert(keys =~= head.push(last));
        if ne(last) {
            assert(keys.filter(ne) == head.filter(ne).push(last));
            assert(keys.filter(eq) == head.filter(eq));
            assert(!head.contains(last));
            assert(!head.filter(ne).contains(last));
        } else {
            assert(keys.filter(ne) == head.filter(ne));
            assert(keys.filter(eq) == head.filter(eq).push(last));
        }
    }
}

} // verus!
