//! Reflection: one datagram in, the decision out, and the datagram turned
//! round where it is to be sent back.

use crate::classify::{decide, decided, is_qualifying, qualifies, Decision};
use crate::tracker::{SessionTracker, TrackerState};
use crate::wire::{
    be16, be32, ipv4_dst_addr, ipv4_header_len, ipv4_header_of, ipv4_len_ok, ipv4_payload_of,
    ipv4_set_dst_addr, ipv4_set_src_addr, ipv4_src_addr, octet, parse_ipv4, parse_tcp, payload_of,
    tcp_header_of,
};
use vstd::prelude::*;

verus! {

/// `b` with its source address (bytes 12 to 15) and its destination address
/// (bytes 16 to 19) exchanged, and every other byte as it was.
pub open spec fn reflected(b: Seq<u8>) -> Seq<u8> {
    Seq::new(
        b.len(),
        |i: int|
            if 12 <= i < 16 {
                b[i + 4]
            } else if 16 <= i < 20 {
                b[i - 4]
            } else {
                b[i]
            },
    )
}

/// What becomes of a datagram `b` that arrives at `now` in state `s`: the
/// decision, the state afterwards, and the bytes afterwards. A datagram that
/// is malformed, not TCP or not for the gateway is dropped and changes
/// nothing; any other is decided on, and turned round where it is forwarded.
pub open spec fn processed(s: TrackerState, b: Seq<u8>, now: u64) -> (
    Decision,
    TrackerState,
    Seq<u8>,
) {
    let ip = ipv4_header_of(b);
    let tcp = tcp_header_of(ipv4_payload_of(b));
    if ip is Some && qualifies(ip.unwrap()) && tcp is Some {
        let (d, after) = decided(s, ip.unwrap().src_addr, tcp.unwrap(), now);
        (
            d,
            after,
            if d == Decision::Forward {
                reflected(b)
            } else {
                b
            },
        )
    } else {
        (Decision::Drop, s, b)
    }
}

/// The big-endian bytes of the number made of four big-endian bytes are
/// those bytes.
pub proof fn lemma_octets_of_be32(b0: u8, b1: u8, b2: u8, b3: u8)
    ensures
        octet(be32(b0, b1, b2, b3), 0) == b0,
        octet(be32(b0, b1, b2, b3), 1) == b1,
        octet(be32(b0, b1, b2, b3), 2) == b2,
        octet(be32(b0, b1, b2, b3), 3) == b3,
{
}

/// Exchanges the source and the destination address of an IPv4 header in
/// place.
pub fn reflect(buf: &mut Vec<u8>)
    requires
        old(buf)@.len() >= 20,
    ensures
        final(buf)@ == reflected(old(buf)@),
{
    let src: u32 = ipv4_src_addr(buf.as_slice());
    let dst: u32 = ipv4_dst_addr(buf.as_slice());
    ipv4_set_dst_addr(buf, src);
    ipv4_set_src_addr(buf, dst);
    proof {
        let b = old(buf)@;
        lemma_octets_of_be32(b[12], b[13], b[14], b[15]);
        lemma_octets_of_be32(b[16], b[17], b[18], b[19]);
        assert(buf@ =~= reflected(b));
    }
}

/// Handles one datagram read from the interface at `now`: parses it, decides
/// on it, and on a forward turns it round in `buf`, ready to be written back.
pub fn process_packet(tracker: &mut SessionTracker, buf: &mut Vec<u8>, now: u64) -> (d: Decision)
    ensures
        (d, final(tracker)@, final(buf)@) == processed(old(tracker)@, old(buf)@, now),
{
    let ip = match parse_ipv4(buf.as_slice()) {
        Some(ip) => ip,
        None => {
            return Decision::Drop;
        },
    };
    if !is_qualifying(&ip) {
        return Decision::Drop;
    }
    let tcp = match payload_of(buf.as_slice()) {
        Some(payload) => match parse_tcp(payload) {
            Some(tcp) => tcp,
            None => {
                return Decision::Drop;
            },
        },
        None => {
            return Decision::Drop;
        },
    };
    let d = decide(tracker, ip.src_addr, &tcp, now);
    if d == Decision::Forward {
        reflect(buf);
    }
    d
}

/// The sum of the first `words` big-endian 16-bit words of `b`.
pub open spec fn word_sum(b: Seq<u8>, words: nat) -> int
    decreases words,
{
    if words == 0 {
        0
    } else {
        word_sum(b, (words - 1) as nat) + be16(b[2 * (words - 1)], b[2 * (words - 1) + 1])
    }
}

/// The ones'-complement sum of 16-bit words whose plain sum is `sum`.
pub open spec fn ones_complement(sum: int) -> int {
    if sum <= 0 {
        0
    } else {
        (sum - 1) % 0xffff + 1
    }
}

/// Whether the header checksum of an IPv4 datagram is in order: the
/// ones'-complement sum of the header's words, checksum field included, is
/// all ones.
pub open spec fn header_checksum_ok(b: Seq<u8>) -> bool {
    ones_complement(word_sum(b, (ipv4_header_len(b) / 2) as nat)) == 0xffff
}

/// Exchanging the addresses leaves the sum of the header's words as it was,
/// once the words counted cover both addresses.
pub proof fn lemma_reflection_keeps_word_sum(b: Seq<u8>, words: nat)
    requires
        words >= 10,
        2 * words <= b.len(),
    ensures
        word_sum(reflected(b), words) == word_sum(b, words),
    decreases words,
{
    if words == 10 {
        reveal_with_fuel(word_sum, 11);
    } else {
        lemma_reflection_keeps_word_sum(b, (words - 1) as nat);
    }
}

/// A reflected datagram is the datagram it came from, turned round: as long
/// as before, source and destination exchanged, the protocol, the payload
/// (and with it ports and flags) and every byte outside the two address
/// fields as they were, and the header checksum in order if it was before.
/// This is stated of datagrams whose declared header is at least the fixed
/// 20 bytes, so that the address fields lie inside the header.
pub proof fn lemma_reflection_correct(b: Seq<u8>)
    requires
        ipv4_len_ok(b),
        ipv4_header_len(b) >= 20,
    ensures
        reflected(b).len() == b.len(),
        ipv4_header_of(reflected(b)) is Some,
        ipv4_header_of(reflected(b)).unwrap().src_addr == ipv4_header_of(b).unwrap().dst_addr,
        ipv4_header_of(reflected(b)).unwrap().dst_addr == ipv4_header_of(b).unwrap().src_addr,
        ipv4_header_of(reflected(b)).unwrap().protocol == ipv4_header_of(b).unwrap().protocol,
        ipv4_payload_of(reflected(b)) == ipv4_payload_of(b),
        tcp_header_of(ipv4_payload_of(reflected(b))) == tcp_header_of(ipv4_payload_of(b)),
        forall|i: int| 0 <= i < b.len() && !(12 <= i < 20) ==> reflected(b)[i] == b[i],
        header_checksum_ok(reflected(b)) == header_checksum_ok(b),
{
    assert(ipv4_payload_of(reflected(b)) =~= ipv4_payload_of(b));
    lemma_reflection_keeps_word_sum(b, (ipv4_header_len(b) / 2) as nat);
}

/// What is forwarded was a well-formed TCP datagram for the gateway and
/// leaves turned round; what is dropped leaves as it came.
pub proof fn lemma_forwarded_is_reflected(s: TrackerState, b: Seq<u8>, now: u64)
    ensures
        processed(s, b, now).0 == Decision::Forward ==> {
            &&& ipv4_header_of(b) is Some
            &&& qualifies(ipv4_header_of(b).unwrap())
            &&& tcp_header_of(ipv4_payload_of(b)) is Some
            &&& processed(s, b, now).2 == reflected(b)
        },
        processed(s, b, now).0 == Decision::Drop ==> processed(s, b, now).2 == b,
        !(ipv4_header_of(b) is Some && qualifies(ipv4_header_of(b).unwrap()) && tcp_header_of(
            ipv4_payload_of(b),
        ) is Some) ==> processed(s, b, now) == (Decision::Drop, s, b),
{
}

/// Turning a datagram round twice gives the datagram back.
pub proof fn lemma_reflection_involutive(b: Seq<u8>)
    requires
        b.len() >= 20,
    ensures
        reflected(reflected(b)) == b,
{
    assert(reflected(reflected(b)) =~= b);
}

} // verus!
