//! Reading and rewriting raw IPv4 and TCP headers.
//!
//! The bytes are read and written by `smoltcp`; every function here that
//! calls it says over plain byte sequences what the call does. The parsers
//! built on them are verified against those statements.

use crate::classify::{Ipv4Header, TcpHeader};
use smoltcp::wire::{Ipv4Address, Ipv4Packet, TcpPacket};
use vstd::prelude::*;

verus! {

/// The 16-bit number whose big-endian bytes are `hi`, `lo`.
pub open spec fn be16(hi: u8, lo: u8) -> u16 {
    (hi * 0x100 + lo) as u16
}

/// The 32-bit number whose big-endian bytes are `b0` to `b3`.
pub open spec fn be32(b0: u8, b1: u8, b2: u8, b3: u8) -> u32 {
    (b0 * 0x100_0000 + b1 * 0x1_0000 + b2 * 0x100 + b3) as u32
}

/// Byte `k` (0 to 3) of the big-endian form of `addr`.
pub open spec fn octet(addr: u32, k: int) -> u8 {
    if k == 0 {
        (addr / 0x100_0000) as u8
    } else if k == 1 {
        (addr / 0x1_0000 % 0x100) as u8
    } else if k == 2 {
        (addr / 0x100 % 0x100) as u8
    } else {
        (addr % 0x100) as u8
    }
}

/// `b` with the four bytes from `at` on replaced by the big-endian form of
/// `addr`.
pub open spec fn with_addr(b: Seq<u8>, at: int, addr: u32) -> Seq<u8> {
    Seq::new(
        b.len(),
        |i: int|
            if at <= i < at + 4 {
                octet(addr, i - at)
            } else {
                b[i]
            },
    )
}

/// Whether the bit of weight `weight` (a power of two) is set in `byte`.
pub open spec fn bit_set(byte: u8, weight: u8) -> bool {
    (byte / weight) % 2 == 1
}

/// Header length in bytes that an IPv4 datagram declares: four times the low
/// nibble of its first byte.
pub open spec fn ipv4_header_len(b: Seq<u8>) -> int {
    (b[0] % 16) * 4
}

/// Total length in bytes that an IPv4 datagram declares.
pub open spec fn ipv4_total_len(b: Seq<u8>) -> int {
    be16(b[2], b[3]) as int
}

/// The structural check on an IPv4 datagram: the fixed header is there, and
/// the declared header lies within the declared total, which lies within the
/// buffer.
pub open spec fn ipv4_len_ok(b: Seq<u8>) -> bool {
    &&& b.len() >= 20
    &&& ipv4_header_len(b) <= b.len()
    &&& ipv4_header_len(b) <= ipv4_total_len(b)
    &&& ipv4_total_len(b) <= b.len()
}

/// What an IPv4 datagram carries: the bytes from the declared header length
/// up to the declared total length.
pub open spec fn ipv4_payload_of(b: Seq<u8>) -> Seq<u8> {
    b.subrange(ipv4_header_len(b), ipv4_total_len(b))
}

/// The header fields of a structurally valid IPv4 datagram.
pub open spec fn ipv4_header_of(b: Seq<u8>) -> Option<Ipv4Header> {
    if ipv4_len_ok(b) {
        Some(
            Ipv4Header {
                src_addr: be32(b[12], b[13], b[14], b[15]),
                dst_addr: be32(b[16], b[17], b[18], b[19]),
                protocol: b[9],
            },
        )
    } else {
        None
    }
}

/// Header length in bytes that a TCP segment declares: four times the high
/// nibble of byte 12.
pub open spec fn tcp_header_len(s: Seq<u8>) -> int {
    (s[12] / 16) * 4
}

/// The structural check on a TCP segment: the fixed header is there, and the
/// declared header is at least as long and lies within the buffer.
pub open spec fn tcp_len_ok(s: Seq<u8>) -> bool {
    &&& s.len() >= 20
    &&& tcp_header_len(s) <= s.len()
    &&& tcp_header_len(s) >= 20
}

/// The header fields of a structurally valid TCP segment.
pub open spec fn tcp_header_of(s: Seq<u8>) -> Option<TcpHeader> {
    if tcp_len_ok(s) {
        Some(
            TcpHeader {
                src_port: be16(s[0], s[1]),
                dst_port: be16(s[2], s[3]),
                syn: bit_set(s[13], 2),
                ack: bit_set(s[13], 16),
                fin: bit_set(s[13], 1),
                rst: bit_set(s[13], 4),
            },
        )
    } else {
        None
    }
}

/// `Ipv4Packet::new_checked` of smoltcp succeeds exactly on the buffers that
/// pass the structural check.
#[verifier::external_body]
fn ipv4_check_len(buf: &[u8]) -> (ok: bool)
    ensures
        ok == ipv4_len_ok(buf@),
{
    Ipv4Packet::new_checked(buf).is_ok()
}

/// `Ipv4Packet::src_addr` of smoltcp reads bytes 12 to 15 as a big-endian
/// address.
#[verifier::external_body]
pub(crate) fn ipv4_src_addr(buf: &[u8]) -> (addr: u32)
    requires
        buf@.len() >= 20,
    ensures
        addr == be32(buf@[12], buf@[13], buf@[14], buf@[15]),
{
    u32::from(Ipv4Packet::new_unchecked(buf).src_addr())
}

/// `Ipv4Packet::dst_addr` of smoltcp reads bytes 16 to 19 as a big-endian
/// address.
#[verifier::external_body]
pub(crate) fn ipv4_dst_addr(buf: &[u8]) -> (addr: u32)
    requires
        buf@.len() >= 20,
    ensures
        addr == be32(buf@[16], buf@[17], buf@[18], buf@[19]),
{
    u32::from(Ipv4Packet::new_unchecked(buf).dst_addr())
}

/// `Ipv4Packet::next_header` of smoltcp reads byte 9; as a number, the
/// protocol it returns is that byte.
#[verifier::external_body]
fn ipv4_next_header(buf: &[u8]) -> (protocol: u8)
    requires
        buf@.len() >= 20,
    ensures
        protocol == buf@[9],
{
    u8::from(Ipv4Packet::new_unchecked(buf).next_header())
}

/// `Ipv4Packet::payload` of smoltcp hands out the bytes from the declared
/// header length up to the declared total length.
#[verifier::external_body]
fn ipv4_payload(buf: &[u8]) -> (payload: &[u8])
    requires
        ipv4_len_ok(buf@),
    ensures
        payload@ == ipv4_payload_of(buf@),
{
    Ipv4Packet::new_unchecked(buf).payload()
}

/// `Ipv4Packet::set_src_addr` of smoltcp overwrites bytes 12 to 15 with the
/// big-endian form of the address and leaves every other byte alone.
#[verifier::external_body]
pub(crate) fn ipv4_set_src_addr(buf: &mut Vec<u8>, addr: u32)
    requires
        old(buf)@.len() >= 20,
    ensures
        final(buf)@ == with_addr(old(buf)@, 12, addr),
{
    Ipv4Packet::new_unchecked(buf.as_mut_slice()).set_src_addr(Ipv4Address::from(addr));
}

/// `Ipv4Packet::set_dst_addr` of smoltcp overwrites bytes 16 to 19 with the
/// big-endian form of the address and leaves every other byte alone.
#[verifier::external_body]
pub(crate) fn ipv4_set_dst_addr(buf: &mut Vec<u8>, addr: u32)
    requires
        old(buf)@.len() >= 20,
    ensures
        final(buf)@ == with_addr(old(buf)@, 16, addr),
{
    Ipv4Packet::new_unchecked(buf.as_mut_slice()).set_dst_addr(Ipv4Address::from(addr));
}

/// `TcpPacket::new_checked` of smoltcp succeeds exactly on the buffers that
/// pass the structural check.
#[verifier::external_body]
fn tcp_check_len(seg: &[u8]) -> (ok: bool)
    ensures
        ok == tcp_len_ok(seg@),
{
    TcpPacket::new_checked(seg).is_ok()
}

/// `TcpPacket::src_port` of smoltcp reads bytes 0 and 1 as a big-endian
/// number.
#[verifier::external_body]
fn tcp_src_port(seg: &[u8]) -> (port: u16)
    requires
        seg@.len() >= 20,
    ensures
        port == be16(seg@[0], seg@[1]),
{
    TcpPacket::new_unchecked(seg).src_port()
}

/// `TcpPacket::dst_port` of smoltcp reads bytes 2 and 3 as a big-endian
/// number.
#[verifier::external_body]
fn tcp_dst_port(seg: &[u8]) -> (port: u16)
    requires
        seg@.len() >= 20,
    ensures
        port == be16(seg@[2], seg@[3]),
{
    TcpPacket::new_unchecked(seg).dst_port()
}

/// `TcpPacket::syn` of smoltcp tests the bit of weight 2 in byte 13.
#[verifier::external_body]
fn tcp_syn(seg: &[u8]) -> (set: bool)
    requires
        seg@.len() >= 20,
    ensures
        set == bit_set(seg@[13], 2),
{
    TcpPacket::new_unchecked(seg).syn()
}

/// `TcpPacket::ack` of smoltcp tests the bit of weight 16 in byte 13.
#[verifier::external_body]
fn tcp_ack(seg: &[u8]) -> (set: bool)
    requires
        seg@.len() >= 20,
    ensures
        set == bit_set(seg@[13], 16),
{
    TcpPacket::new_unchecked(seg).ack()
}

/// `TcpPacket::fin` of smoltcp tests the bit of weight 1 in byte 13.
#[verifier::external_body]
fn tcp_fin(seg: &[u8]) -> (set: bool)
    requires
        seg@.len() >= 20,
    ensures
        set == bit_set(seg@[13], 1),
{
    TcpPacket::new_unchecked(seg).fin()
}

/// `TcpPacket::rst` of smoltcp tests the bit of weight 4 in byte 13.
#[verifier::external_body]
fn tcp_rst(seg: &[u8]) -> (set: bool)
    requires
        seg@.len() >= 20,
    ensures
        set == bit_set(seg@[13], 4),
{
    TcpPacket::new_unchecked(seg).rst()
}

/// Reads the header of an IPv4 datagram; `None` where the buffer fails the
/// structural check.
pub fn parse_ipv4(buf: &[u8]) -> (r: Option<Ipv4Header>)
    ensures
        r == ipv4_header_of(buf@),
{
    if !ipv4_check_len(buf) {
        return None;
    }
    Some(
        Ipv4Header {
            src_addr: ipv4_src_addr(buf),
            dst_addr: ipv4_dst_addr(buf),
            protocol: ipv4_next_header(buf),
        },
    )
}

/// The bytes that a structurally valid IPv4 datagram carries; `None` where
/// the buffer fails the structural check.
pub fn payload_of(buf: &[u8]) -> (r: Option<&[u8]>)
    ensures
        r is Some == ipv4_len_ok(buf@),
        r is Some ==> r.unwrap()@ == ipv4_payload_of(buf@),
{
    if ipv4_check_len(buf) {
        Some(ipv4_payload(buf))
    } else {
        None
    }
}

/// Reads the header of a TCP segment; `None` where the buffer fails the
/// structural check.
pub fn parse_tcp(seg: &[u8]) -> (r: Option<TcpHeader>)
    ensures
        r == tcp_header_of(seg@),
{
    if !tcp_check_len(seg) {
        return None;
    }
    Some(
        TcpHeader {
            src_port: tcp_src_port(seg),
            dst_port: tcp_dst_port(seg),
            syn: tcp_syn(seg),
            ack: tcp_ack(seg),
            fin: tcp_fin(seg),
            rst: tcp_rst(seg),
        },
    )
}

} // verus!
