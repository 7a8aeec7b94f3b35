//! The session tracker: who shook hands on the control port, and which data
//! pairs are open.

use crate::policy::{
    elapsed, within, CLEANUP_INTERVAL, CONTROL_EVENT_TTL, DATA_PAIR_IDLE_TIMEOUT,
    PAIR_OPEN_WINDOW_AFTER_CONTROL,
};
use std::collections::HashMap;
use vstd::prelude::*;
use vstd::set_lib::lemma_map_size;

verus! {

/// A client and an unordered pair of ports, the smaller port first.
#[derive(Clone, Copy, Debug, PartialEq, Eq, Structural, Hash)]
pub struct PairKey {
    pub client: u32,
    pub low: u16,
    pub high: u16,
}

/// The key of the connection between ports `a` and `b` of `client`.
pub open spec fn pair_key_of(client: u32, a: u16, b: u16) -> PairKey {
    PairKey { client, low: if a <= b { a } else { b }, high: if a <= b { b } else { a } }
}

impl PairKey {
    /// The key as one number: client, low and high side by side.
    pub closed spec fn code(self) -> u64 {
        (self.client * 0x1_0000_0000 + self.low * 0x1_0000 + self.high) as u64
    }

    fn encode(&self) -> (r: u64)
        ensures
            r == self.code(),
    {
        let c: u64 = self.client as u64;
        let l: u64 = self.low as u64;
        let h: u64 = self.high as u64;
        c * 0x1_0000_0000 + l * 0x1_0000 + h
    }

    /// Two keys with one code are one key.
    pub proof fn lemma_code_injective(self, other: PairKey)
        ensures
            self.code() == other.code() <==> self == other,
    {
    }

    /// The key that has the code `code`.
    closed spec fn decode(code: u64) -> PairKey {
        PairKey {
            client: (code / 0x1_0000_0000) as u32,
            low: (code / 0x1_0000 % 0x1_0000) as u16,
            high: (code % 0x1_0000) as u16,
        }
    }

    /// Every number is the code of exactly one key.
    proof fn lemma_code_bijective(self, code: u64)
        ensures
            PairKey::decode(self.code()) == self,
            PairKey::decode(code).code() == code,
    {
    }
}

/// What a tracker holds, as mathematical maps.
#[verifier::ext_equal]
pub struct TrackerState {
    /// Per client, when it last sent a SYN to the control port.
    pub control: Map<u32, u64>,
    /// Per open pair, when it was last seen.
    pub pairs: Map<PairKey, u64>,
    /// When the last sweep ran, if one did.
    pub last_cleanup: Option<u64>,
}

/// The entries of `m` that are at most `limit` old at `now`.
pub open spec fn kept<K>(m: Map<K, u64>, now: u64, limit: u64) -> Map<K, u64> {
    Map::new(|k: K| m.contains_key(k) && elapsed(now, m[k]) <= limit, |k: K| m[k])
}

impl TrackerState {
    /// The state of a new tracker.
    pub open spec fn empty() -> TrackerState {
        TrackerState { control: Map::empty(), pairs: Map::empty(), last_cleanup: None }
    }

    /// After a control handshake of `client` at `now`.
    pub open spec fn noted(self, client: u32, now: u64) -> TrackerState {
        TrackerState { control: self.control.insert(client, now), ..self }
    }

    /// Whether `client` shook hands within the opening window before `now`.
    pub open spec fn fresh(self, client: u32, now: u64) -> bool {
        self.control.contains_key(client) && elapsed(now, self.control[client])
            <= PAIR_OPEN_WINDOW_AFTER_CONTROL
    }

    /// After `key` was seen at `now`: refreshed where open, else unchanged.
    pub open spec fn touched(self, key: PairKey, now: u64) -> TrackerState {
        if self.pairs.contains_key(key) {
            TrackerState { pairs: self.pairs.insert(key, now), ..self }
        } else {
            self
        }
    }

    /// After `key` was opened at `now`.
    pub open spec fn opened(self, key: PairKey, now: u64) -> TrackerState {
        TrackerState { pairs: self.pairs.insert(key, now), ..self }
    }

    /// After `key` was closed.
    pub open spec fn closed(self, key: PairKey) -> TrackerState {
        TrackerState { pairs: self.pairs.remove(key), ..self }
    }

    /// Whether a sweep at `now` is held back by the one before it.
    pub open spec fn throttled(self, now: u64) -> bool {
        self.last_cleanup is Some && elapsed(now, self.last_cleanup.unwrap()) < CLEANUP_INTERVAL
    }

    /// After a sweep at `now`: unchanged where throttled; else without the
    /// records that are too old, and with `now` as the time of the sweep.
    pub open spec fn swept(self, now: u64) -> TrackerState {
        if self.throttled(now) {
            self
        } else {
            TrackerState {
                control: kept(self.control, now, CONTROL_EVENT_TTL),
                pairs: kept(self.pairs, now, DATA_PAIR_IDLE_TIMEOUT),
                last_cleanup: Some(now),
            }
        }
    }
}

/// `HashMap::retain` of std with the predicate "at most `limit` old at
/// `now`": the map keeps exactly the entries for which the predicate holds,
/// each with its value.
#[verifier::external_body]
fn retain_within<K>(m: &mut HashMap<K, u64>, now: u64, limit: u64)
    ensures
        final(m)@ == kept(old(m)@, now, limit),
{
    m.retain(|_, seen| within(now, *seen, limit));
}

/// Session state of the tunnel endpoint.
#[derive(Debug)]
pub struct SessionTracker {
    last_control_syn: HashMap<u32, u64>,
    data_pairs: HashMap<u64, u64>,
    last_cleanup: Option<u64>,
}

impl View for SessionTracker {
    type V = TrackerState;

    closed spec fn view(&self) -> TrackerState {
        TrackerState {
            control: self.last_control_syn@,
            pairs: Map::new(
                |k: PairKey| self.data_pairs@.contains_key(k.code()),
                |k: PairKey| self.data_pairs@[k.code()],
            ),
            last_cleanup: self.last_cleanup,
        }
    }
}

impl Default for SessionTracker {
    fn default() -> (t: SessionTracker)
        ensures
            t@ == TrackerState::empty(),
    {
        SessionTracker::new()
    }
}

impl SessionTracker {
    /// A tracker that has seen nothing.
    pub fn new() -> (t: SessionTracker)
        ensures
            t@ == TrackerState::empty(),
    {
        let t = SessionTracker {
            last_control_syn: HashMap::new(),
            data_pairs: HashMap::new(),
            last_cleanup: None,
        };
        assert(t@ =~= TrackerState::empty());
        t
    }

    /// The key of the connection between ports `a` and `b` of `client`,
    /// whichever of the two is the source.
    pub fn pair_key(client: u32, a: u16, b: u16) -> (key: PairKey)
        ensures
            key == pair_key_of(client, a, b),
            key == pair_key_of(client, b, a),
            key.low <= key.high,
    {
        if a <= b {
            PairKey { client, low: a, high: b }
        } else {
            PairKey { client, low: b, high: a }
        }
    }

    /// Records a control handshake of `client` at `now`, over any earlier one.
    pub fn note_control_syn(&mut self, client: u32, now: u64)
        ensures
            final(self)@ == old(self)@.noted(client, now),
    {
        self.last_control_syn.insert(client, now);
        assert(self@ =~= old(self)@.noted(client, now));
    }

    /// Whether `client` shook hands recently enough to open a pair at `now`.
    pub fn can_open_pair(&self, client: u32, now: u64) -> (r: bool)
        ensures
            r == self@.fresh(client, now),
    {
        match self.last_control_syn.get(&client) {
            Some(seen) => within(now, *seen, PAIR_OPEN_WINDOW_AFTER_CONTROL),
            None => false,
        }
    }

    /// Whether `key` is open.
    pub fn has_pair(&self, key: &PairKey) -> (r: bool)
        ensures
            r == self@.pairs.contains_key(*key),
    {
        let code: u64 = key.encode();
        self.data_pairs.contains_key(&code)
    }

    /// How many pairs are open.
    pub fn pair_count(&self) -> (n: usize)
        ensures
            self@.pairs.dom().finite(),
            n == self@.pairs.dom().len(),
    {
        proof {
            self.lemma_pairs_counted();
        }
        self.data_pairs.len()
    }

    /// How many clients have a control handshake on record.
    pub fn control_count(&self) -> (n: usize)
        ensures
            self@.control.dom().finite(),
            n == self@.control.dom().len(),
    {
        self.last_control_syn.len()
    }

    /// When `key` was last seen, where it is open.
    pub fn pair_last_seen(&self, key: &PairKey) -> (r: Option<u64>)
        ensures
            r == (if self@.pairs.contains_key(*key) {
                Some(self@.pairs[*key])
            } else {
                None
            }),
    {
        let code: u64 = key.encode();
        match self.data_pairs.get(&code) {
            Some(seen) => Some(*seen),
            None => None,
        }
    }

    /// Refreshes `key` where it is open; does nothing where it is not.
    pub fn touch_pair(&mut self, key: &PairKey, now: u64)
        ensures
            final(self)@ == old(self)@.touched(*key, now),
    {
        let code: u64 = key.encode();
        if self.data_pairs.contains_key(&code) {
            self.data_pairs.insert(code, now);
            proof {
                self.lemma_pairs_after_insert(*old(self), *key, now);
            }
        }
        assert(self@ =~= old(self)@.touched(*key, now));
    }

    /// Opens `key`, or refreshes it where it is open already.
    pub fn open_pair(&mut self, key: PairKey, now: u64)
        ensures
            final(self)@ == old(self)@.opened(key, now),
    {
        let code: u64 = key.encode();
        self.data_pairs.insert(code, now);
        proof {
            self.lemma_pairs_after_insert(*old(self), key, now);
        }
        assert(self@ =~= old(self)@.opened(key, now));
    }

    /// Closes `key`; does nothing where it is not open.
    pub fn close_pair(&mut self, key: &PairKey)
        ensures
            final(self)@ == old(self)@.closed(*key),
    {
        let code: u64 = key.encode();
        self.data_pairs.remove(&code);
        proof {
            assert forall|k: PairKey| k.code() == key.code() <==> k == *key by {
                k.lemma_code_injective(*key);
            }
            assert(self@.pairs =~= old(self)@.pairs.remove(*key));
        }
        assert(self@ =~= old(self)@.closed(*key));
    }

    /// Sweeps out the records that are too old, unless the last sweep was
    /// less than the cleanup interval ago.
    pub fn cleanup(&mut self, now: u64)
        ensures
            final(self)@ == old(self)@.swept(now),
    {
        let throttled = match self.last_cleanup {
            Some(last) => within(now, last, CLEANUP_INTERVAL - 1),
            None => false,
        };
        if throttled {
            return ;
        }
        retain_within(&mut self.last_control_syn, now, CONTROL_EVENT_TTL);
        retain_within(&mut self.data_pairs, now, DATA_PAIR_IDLE_TIMEOUT);
        self.last_cleanup = Some(now);
        assert(self@.pairs =~= kept(old(self)@.pairs, now, DATA_PAIR_IDLE_TIMEOUT));
        assert(self@ =~= old(self)@.swept(now));
    }

    proof fn lemma_pairs_counted(&self)
        ensures
            self@.pairs.dom().finite(),
            self@.pairs.dom().len() == self.data_pairs@.dom().len(),
    {
        let codes = self.data_pairs@.dom();
        let keys = self@.pairs.dom();
        let f = |code: u64| PairKey::decode(code);
        assert forall|c1: u64, c2: u64| #[trigger] f(c1) == #[trigger] f(c2) implies c1 == c2 by {
            PairKey::decode(c1).lemma_code_bijective(c1);
            PairKey::decode(c2).lemma_code_bijective(c2);
        }
        assert forall|k: PairKey| codes.map(f).contains(k) <==> keys.contains(k) by {
            k.lemma_code_bijective(k.code());
            if keys.contains(k) {
                assert(codes.contains(k.code()) && f(k.code()) == k);
            }
            if codes.map(f).contains(k) {
                let c = choose|c: u64| codes.contains(c) && k == f(c);
                k.lemma_code_bijective(c);
            }
        }
        assert(codes.map(f) =~= keys);
        lemma_map_size(codes, keys, f);
    }

    proof fn lemma_pairs_after_insert(self, before: SessionTracker, key: PairKey, now: u64)
        requires
            self.data_pairs@ == before.data_pairs@.insert(key.code(), now),
        ensures
            self@.pairs == before@.pairs.insert(key, now),
    {
        assert forall|k: PairKey| k.code() == key.code() <==> k == key by {
            k.lemma_code_injective(key);
        }
        assert(self@.pairs =~= before@.pairs.insert(key, now));
    }
}

} // verus!
