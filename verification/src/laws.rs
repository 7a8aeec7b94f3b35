//! What holds of the tracker and the classifier on every input.

use crate::classify::{decided, pair_candidate, syn_only, Decision, TcpHeader};
use crate::policy::{
    elapsed, CLEANUP_INTERVAL, CONTROL_PORT, DATA_PAIR_IDLE_TIMEOUT,
    PAIR_OPEN_WINDOW_AFTER_CONTROL,
};
use crate::tracker::{pair_key_of, PairKey, TrackerState};
use vstd::prelude::*;

verus! {

/// The key of a pair does not depend on which port is named first.
pub proof fn lemma_pair_key_symmetric(client: u32, p: u16, q: u16)
    ensures
        pair_key_of(client, p, q) == pair_key_of(client, q, p),
        pair_key_of(client, p, q).low <= pair_key_of(client, p, q).high,
{
}

/// A sweep never removes a handshake that is still fresh: freshness at `now`
/// is the same before and after a sweep at `now`.
pub proof fn lemma_sweep_keeps_fresh(s: TrackerState, client: u32, now: u64)
    ensures
        s.swept(now).fresh(client, now) == s.fresh(client, now),
{
}

/// A SYN-only segment to the control port at `t0` is forwarded, and from
/// then on the client's handshake is fresh exactly until the opening window
/// has passed, whatever the tracker held before.
pub proof fn lemma_control_window(s: TrackerState, client: u32, tcp: TcpHeader, t0: u64, t: u64)
    requires
        syn_only(tcp),
        tcp.dst_port == CONTROL_PORT,
        t >= t0,
    ensures
        decided(s, client, tcp, t0).0 == Decision::Forward,
        decided(s, client, tcp, t0).1.control.contains_key(client),
        decided(s, client, tcp, t0).1.control[client] == t0,
        decided(s, client, tcp, t0).1.fresh(client, t) <==> t - t0
            <= PAIR_OPEN_WINDOW_AFTER_CONTROL,
{
}

/// Control-port traffic is forwarded whatever its flags, and leaves the
/// pairs as the sweep left them.
pub proof fn lemma_control_traffic_forwarded(s: TrackerState, client: u32, tcp: TcpHeader, now: u64)
    requires
        tcp.dst_port == CONTROL_PORT || tcp.src_port == CONTROL_PORT,
    ensures
        decided(s, client, tcp, now).0 == Decision::Forward,
        decided(s, client, tcp, now).1.pairs == s.swept(now).pairs,
{
}

/// A SYN-only segment between adjacent ports whose pair is not open is
/// forwarded exactly if the client's control handshake is fresh; it then
/// opens the pair, and otherwise leaves no pair behind.
pub proof fn lemma_pair_needs_fresh_handshake(s: TrackerState, client: u32, tcp: TcpHeader, now: u64)
    requires
        syn_only(tcp),
        pair_candidate(tcp.src_port, tcp.dst_port),
        !s.pairs.contains_key(pair_key_of(client, tcp.src_port, tcp.dst_port)),
    ensures
        decided(s, client, tcp, now).0 == Decision::Forward <==> s.fresh(client, now),
        decided(s, client, tcp, now).0 == Decision::Drop <==> !s.fresh(client, now),
        s.fresh(client, now) ==> decided(s, client, tcp, now).1 == s.swept(now).opened(
            pair_key_of(client, tcp.src_port, tcp.dst_port),
            now,
        ),
        !s.fresh(client, now) ==> decided(s, client, tcp, now).1 == s.swept(now),
        decided(s, client, tcp, now).1.pairs.contains_key(
            pair_key_of(client, tcp.src_port, tcp.dst_port),
        ) <==> s.fresh(client, now),
{
    lemma_sweep_keeps_fresh(s, client, now);
}

/// A segment that belongs to no open pair and is not an opening one is
/// dropped: away from the control port, nothing but a SYN-only segment
/// between adjacent ports opens a pair.
pub proof fn lemma_stray_segment_dropped(s: TrackerState, client: u32, tcp: TcpHeader, now: u64)
    requires
        tcp.src_port != CONTROL_PORT,
        tcp.dst_port != CONTROL_PORT,
        !s.pairs.contains_key(pair_key_of(client, tcp.src_port, tcp.dst_port)),
        !syn_only(tcp) || !pair_candidate(tcp.src_port, tcp.dst_port),
    ensures
        decided(s, client, tcp, now) == (Decision::Drop, s.swept(now)),
{
}

/// Opening a pair twice leaves one record with the later time: the second
/// opening only refreshes, and the keys are those of one opening.
pub proof fn lemma_reopen_idempotent(s: TrackerState, key: PairKey, t1: u64, t2: u64)
    ensures
        s.opened(key, t1).opened(key, t2) == s.opened(key, t2),
        s.opened(key, t1).opened(key, t2).pairs.dom() == s.pairs.dom().insert(key),
        s.opened(key, t1).opened(key, t2).pairs[key] == t2,
        s.pairs.dom().finite() ==> s.opened(key, t1).opened(key, t2).pairs.dom().len()
            == s.opened(key, t1).pairs.dom().len(),
{
    assert(s.opened(key, t1).opened(key, t2) =~= s.opened(key, t2));
    assert(s.opened(key, t1).opened(key, t2).pairs.dom() =~= s.pairs.dom().insert(key));
    assert(s.opened(key, t1).pairs.dom() =~= s.pairs.dom().insert(key));
}

/// A sweep that is not held back removes exactly the pairs that were idle
/// for longer than the idle timeout, and keeps the others as they were.
pub proof fn lemma_idle_expiry(s: TrackerState, key: PairKey, now: u64)
    requires
        s.last_cleanup is Some ==> elapsed(now, s.last_cleanup.unwrap()) >= CLEANUP_INTERVAL,
    ensures
        s.swept(now).pairs.contains_key(key) <==> s.pairs.contains_key(key) && elapsed(
            now,
            s.pairs[key],
        ) <= DATA_PAIR_IDLE_TIMEOUT,
        s.swept(now).pairs.contains_key(key) ==> s.swept(now).pairs[key] == s.pairs[key],
        s.swept(now).last_cleanup == Some(now),
{
}

/// A sweep that comes too soon after the last one changes nothing.
pub proof fn lemma_sweep_throttled(s: TrackerState, now: u64)
    requires
        s.last_cleanup is Some,
        elapsed(now, s.last_cleanup.unwrap()) < CLEANUP_INTERVAL,
    ensures
        s.swept(now) == s,
{
}

/// A segment of an open pair is forwarded and refreshes the pair, unless it
/// ends the connection.
pub proof fn lemma_open_pair_forwarded(s: TrackerState, client: u32, tcp: TcpHeader, now: u64)
    requires
        tcp.src_port != CONTROL_PORT,
        tcp.dst_port != CONTROL_PORT,
        s.swept(now).pairs.contains_key(pair_key_of(client, tcp.src_port, tcp.dst_port)),
        !tcp.fin,
        !tcp.rst,
    ensures
        decided(s, client, tcp, now).0 == Decision::Forward,
        decided(s, client, tcp, now).1.pairs == s.swept(now).pairs.insert(
            pair_key_of(client, tcp.src_port, tcp.dst_port),
            now,
        ),
{
}

/// FIN or RST on an open pair is forwarded and closes the pair in the same
/// step, however recently the pair was seen. A later SYN-only segment on the
/// same ports is then forwarded exactly if the client's control handshake is
/// fresh at that time.
pub proof fn lemma_termination_retires_pair(
    s: TrackerState,
    client: u32,
    end: TcpHeader,
    now: u64,
    again: TcpHeader,
    later: u64,
)
    requires
        end.src_port != CONTROL_PORT,
        end.dst_port != CONTROL_PORT,
        s.swept(now).pairs.contains_key(pair_key_of(client, end.src_port, end.dst_port)),
        end.fin || end.rst,
        syn_only(again),
        pair_key_of(client, again.src_port, again.dst_port) == pair_key_of(
            client,
            end.src_port,
            end.dst_port,
        ),
    ensures
        decided(s, client, end, now).0 == Decision::Forward,
        !decided(s, client, end, now).1.pairs.contains_key(
            pair_key_of(client, end.src_port, end.dst_port),
        ),
        decided(s, client, end, now).1.pairs == s.swept(now).pairs.remove(
            pair_key_of(client, end.src_port, end.dst_port),
        ),
        decided(decided(s, client, end, now).1, client, again, later).0 == Decision::Forward
            ==> decided(s, client, end, now).1.fresh(client, later),
        pair_candidate(again.src_port, again.dst_port) ==> (decided(
            decided(s, client, end, now).1,
            client,
            again,
            later,
        ).0 == Decision::Forward <==> decided(s, client, end, now).1.fresh(client, later)),
{
    let after = decided(s, client, end, now).1;
    assert(after.pairs =~= s.swept(now).pairs.remove(
        pair_key_of(client, end.src_port, end.dst_port),
    ));
    lemma_sweep_keeps_fresh(after, client, later);
}

} // verus!
