//! The forwarding decision for one TCP segment.

use crate::policy::{CONTROL_PORT, GATEWAY_ADDR, PROTOCOL_TCP};
use crate::tracker::{pair_key_of, SessionTracker, TrackerState};
use vstd::prelude::*;

verus! {

/// What the classifier reads of an IPv4 header.
#[derive(Clone, Copy, Debug, PartialEq, Eq, Structural)]
pub struct Ipv4Header {
    pub src_addr: u32,
    pub dst_addr: u32,
    pub protocol: u8,
}

/// What the classifier reads of a TCP header.
#[derive(Clone, Copy, Debug, PartialEq, Eq, Structural)]
pub struct TcpHeader {
    pub src_port: u16,
    pub dst_port: u16,
    pub syn: bool,
    pub ack: bool,
    pub fin: bool,
    pub rst: bool,
}

/// The outcome for one packet.
#[derive(Clone, Copy, Debug, PartialEq, Eq, Structural)]
pub enum Decision {
    /// Send the packet back to its sender.
    Forward,
    /// Discard the packet silently.
    Drop,
}

/// A segment that opens a connection: SYN set, ACK clear.
pub open spec fn syn_only(tcp: TcpHeader) -> bool {
    tcp.syn && !tcp.ack
}

/// Two ports that may form a data pair: neither is the control port, and
/// they differ by exactly one.
pub open spec fn pair_candidate(src_port: u16, dst_port: u16) -> bool {
    &&& src_port != CONTROL_PORT
    &&& dst_port != CONTROL_PORT
    &&& (src_port - dst_port == 1 || dst_port - src_port == 1)
}

/// Whether a packet with this header is looked at at all: TCP, and addressed
/// to the gateway.
pub open spec fn qualifies(ip: Ipv4Header) -> bool {
    ip.dst_addr == GATEWAY_ADDR && ip.protocol == PROTOCOL_TCP
}

/// The decision for a qualifying segment of `client` at `now`, and the state
/// it leaves behind.
pub open spec fn decided(s: TrackerState, client: u32, tcp: TcpHeader, now: u64) -> (
    Decision,
    TrackerState,
) {
    let swept = s.swept(now);
    let key = pair_key_of(client, tcp.src_port, tcp.dst_port);
    if tcp.dst_port == CONTROL_PORT || tcp.src_port == CONTROL_PORT {
        if syn_only(tcp) && tcp.dst_port == CONTROL_PORT {
            (Decision::Forward, swept.noted(client, now))
        } else {
            (Decision::Forward, swept)
        }
    } else if swept.pairs.contains_key(key) {
        if tcp.fin || tcp.rst {
            (Decision::Forward, swept.touched(key, now).closed(key))
        } else {
            (Decision::Forward, swept.touched(key, now))
        }
    } else if syn_only(tcp) && pair_candidate(tcp.src_port, tcp.dst_port) && swept.fresh(
        client,
        now,
    ) {
        (Decision::Forward, swept.opened(key, now))
    } else {
        (Decision::Drop, swept)
    }
}

/// The decision for any parsed packet: a packet that does not qualify is
/// dropped and leaves the state as it was.
pub open spec fn classified(s: TrackerState, ip: Ipv4Header, tcp: TcpHeader, now: u64) -> (
    Decision,
    TrackerState,
) {
    if qualifies(ip) {
        decided(s, ip.src_addr, tcp, now)
    } else {
        (Decision::Drop, s)
    }
}

/// Whether the segment opens a connection: SYN set, ACK clear.
pub fn is_syn_only(tcp: &TcpHeader) -> (r: bool)
    ensures
        r == syn_only(*tcp),
{
    tcp.syn && !tcp.ack
}

/// Whether the two ports may form a data pair.
pub fn is_pair_candidate(src_port: u16, dst_port: u16) -> (r: bool)
    ensures
        r == pair_candidate(src_port, dst_port),
{
    let (low, high) = if src_port <= dst_port {
        (src_port, dst_port)
    } else {
        (dst_port, src_port)
    };
    low != CONTROL_PORT && high != CONTROL_PORT && high - low == 1
}

/// Whether a packet with this header is looked at at all.
pub fn is_qualifying(ip: &Ipv4Header) -> (r: bool)
    ensures
        r == qualifies(*ip),
{
    ip.dst_addr == GATEWAY_ADDR && ip.protocol == PROTOCOL_TCP
}

/// Decides on a qualifying segment of `client` at `now` and updates the
/// tracker: sweep first; control-port traffic is forwarded, and a SYN to the
/// control port is recorded; traffic of an open pair is forwarded and
/// refreshes the pair, which FIN or RST then closes; a SYN between adjacent
/// ports opens a pair while the client's handshake is fresh; all else is
/// dropped.
pub fn decide(tracker: &mut SessionTracker, client: u32, tcp: &TcpHeader, now: u64) -> (d: Decision)
    ensures
        (d, final(tracker)@) == decided(old(tracker)@, client, *tcp, now),
{
    tracker.cleanup(now);
    if tcp.dst_port == CONTROL_PORT || tcp.src_port == CONTROL_PORT {
        if is_syn_only(tcp) && tcp.dst_port == CONTROL_PORT {
            tracker.note_control_syn(client, now);
        }
        return Decision::Forward;
    }
    let key = SessionTracker::pair_key(client, tcp.src_port, tcp.dst_port);
    if tracker.has_pair(&key) {
        tracker.touch_pair(&key, now);
        if tcp.fin || tcp.rst {
            tracker.close_pair(&key);
        }
        Decision::Forward
    } else if is_syn_only(tcp) && is_pair_candidate(tcp.src_port, tcp.dst_port)
        && tracker.can_open_pair(client, now) {
        tracker.open_pair(key, now);
        Decision::Forward
    } else {
        Decision::Drop
    }
}

/// Decides on any parsed packet: one that is not TCP to the gateway is
/// dropped without touching the tracker, any other goes through `decide`.
pub fn classify(tracker: &mut SessionTracker, ip: &Ipv4Header, tcp: &TcpHeader, now: u64) -> (d:
    Decision)
    ensures
        (d, final(tracker)@) == classified(old(tracker)@, *ip, *tcp, now),
{
    if is_qualifying(ip) {
        decide(tracker, ip.src_addr, tcp, now)
    } else {
        Decision::Drop
    }
}

} // verus!
