use smoltcp::wire::{Ipv4Packet, TcpPacket};
use tunloop::classify::{Decision, Ipv4Header, TcpHeader};
use tunloop::policy::NANOS_PER_SEC;
use tunloop::reflect::{process_packet, reflect};
use tunloop::tracker::SessionTracker;
use tunloop::wire::{parse_ipv4, parse_tcp, payload_of};

const SEC: u64 = NANOS_PER_SEC;
const CLIENT: [u8; 4] = [10, 7, 0, 2];
const GATEWAY: [u8; 4] = [10, 7, 0, 1];
const FIN: u8 = 0x01;
const SYN: u8 = 0x02;
const RST: u8 = 0x04;
const ACK: u8 = 0x10;

fn datagram(
    src: [u8; 4],
    dst: [u8; 4],
    protocol: u8,
    src_port: u16,
    dst_port: u16,
    flags: u8,
    payload: &[u8],
) -> Vec<u8> {
    let total = 40 + payload.len();
    let mut b = vec![0u8; total];
    b[0] = 0x45;
    b[2] = (total >> 8) as u8;
    b[3] = total as u8;
    b[4] = 0x12;
    b[5] = 0x34;
    b[8] = 64;
    b[9] = protocol;
    b[12..16].copy_from_slice(&src);
    b[16..20].copy_from_slice(&dst);
    b[20] = (src_port >> 8) as u8;
    b[21] = src_port as u8;
    b[22] = (dst_port >> 8) as u8;
    b[23] = dst_port as u8;
    b[27] = 1;
    b[32] = 0x50;
    b[33] = flags;
    b[34] = 0xff;
    b[35] = 0xff;
    b[40..].copy_from_slice(payload);
    Ipv4Packet::new_unchecked(&mut b[..]).fill_checksum();
    b
}

fn tcp_to_gateway(src_port: u16, dst_port: u16, flags: u8) -> Vec<u8> {
    datagram(CLIENT, GATEWAY, 6, src_port, dst_port, flags, &[1, 2, 3, 4, 5])
}

#[test]
fn parse_ipv4_reads_addresses_and_protocol() {
    let b = datagram([192, 168, 1, 77], [10, 7, 0, 1], 6, 1, 2, SYN, &[]);
    assert_eq!(
        parse_ipv4(&b),
        Some(Ipv4Header { src_addr: 0xc0a8_014d, dst_addr: 0x0a07_0001, protocol: 6 })
    );
    let udp = datagram([1, 2, 3, 4], [5, 6, 7, 8], 17, 1, 2, 0, &[]);
    assert_eq!(
        parse_ipv4(&udp),
        Some(Ipv4Header { src_addr: 0x0102_0304, dst_addr: 0x0506_0708, protocol: 17 })
    );
    let odd = datagram([1, 2, 3, 4], [5, 6, 7, 8], 200, 1, 2, 0, &[]);
    assert_eq!(parse_ipv4(&odd).map(|h| h.protocol), Some(200));
}

#[test]
fn parse_ipv4_rejects_bad_lengths() {
    assert_eq!(parse_ipv4(&[]), None);
    let b = tcp_to_gateway(1, 2, SYN);
    assert_eq!(parse_ipv4(&b[..19]), None);
    // the buffer is shorter than the declared total length
    assert_eq!(parse_ipv4(&b[..b.len() - 1]), None);
    // the declared header is longer than the buffer
    let mut long_header = b[..24].to_vec();
    long_header[0] = 0x47;
    long_header[2] = 0;
    long_header[3] = 24;
    assert_eq!(parse_ipv4(&long_header), None);
    // the declared total is shorter than the declared header
    let mut short_total = b.clone();
    short_total[2] = 0;
    short_total[3] = 19;
    assert_eq!(parse_ipv4(&short_total), None);
    // a buffer longer than the declared total is in order
    let mut padded = b.clone();
    padded.extend_from_slice(&[0, 0, 0]);
    assert!(parse_ipv4(&padded).is_some());
}

#[test]
fn payload_runs_from_header_length_to_total_length() {
    let mut b = datagram(CLIENT, GATEWAY, 6, 1, 2, SYN, &[9, 8, 7]);
    b.extend_from_slice(&[0xee, 0xee]);
    let p = payload_of(&b).map(|p| p.to_vec());
    assert_eq!(p.as_ref().map(|p| p.len()), Some(23));
    assert_eq!(p.as_ref().map(|p| p[20..].to_vec()), Some(vec![9, 8, 7]));
    assert_eq!(payload_of(&b[..10]).map(|p| p.to_vec()), None);
    // a header with options
    let mut opt = vec![0u8; 28];
    opt[0] = 0x46;
    opt[3] = 28;
    opt[24] = 0xaa;
    opt[27] = 0xbb;
    assert_eq!(payload_of(&opt).map(|p| p.to_vec()), Some(vec![0xaa, 0, 0, 0xbb]));
}

#[test]
fn parse_tcp_reads_ports_and_flags() {
    let b = tcp_to_gateway(50001, 62078, SYN);
    let seg = &b[20..];
    assert_eq!(
        parse_tcp(seg),
        Some(TcpHeader {
            src_port: 50001,
            dst_port: 62078,
            syn: true,
            ack: false,
            fin: false,
            rst: false
        })
    );
    let b = tcp_to_gateway(258, 772, ACK | FIN);
    assert_eq!(
        parse_tcp(&b[20..]),
        Some(TcpHeader {
            src_port: 258,
            dst_port: 772,
            syn: false,
            ack: true,
            fin: true,
            rst: false
        })
    );
    let b = tcp_to_gateway(1, 2, RST);
    assert_eq!(
        parse_tcp(&b[20..]),
        Some(TcpHeader { src_port: 1, dst_port: 2, syn: false, ack: false, fin: false, rst: true })
    );
    // the other flag bits are not read as any of the four
    let b = tcp_to_gateway(1, 2, 0xe8);
    assert_eq!(
        parse_tcp(&b[20..]),
        Some(TcpHeader {
            src_port: 1,
            dst_port: 2,
            syn: false,
            ack: false,
            fin: false,
            rst: false
        })
    );
    let b = tcp_to_gateway(1, 2, 0xff);
    assert_eq!(
        parse_tcp(&b[20..]),
        Some(TcpHeader { src_port: 1, dst_port: 2, syn: true, ack: true, fin: true, rst: true })
    );
}

#[test]
fn parse_tcp_rejects_bad_lengths() {
    let b = tcp_to_gateway(1, 2, SYN);
    assert_eq!(parse_tcp(&b[20..39]), None);
    assert_eq!(parse_tcp(&[]), None);
    // declared header shorter than the fixed header
    let mut short = b[20..].to_vec();
    short[12] = 0x40;
    assert_eq!(parse_tcp(&short), None);
    // declared header longer than the segment
    let mut long = b[20..].to_vec();
    long[12] = 0x70;
    assert_eq!(parse_tcp(&long), None);
    // declared header of 24 bytes inside a segment of 25
    let mut fits = b[20..].to_vec();
    fits[12] = 0x60;
    assert!(parse_tcp(&fits).is_some());
}

#[test]
fn reflect_exchanges_the_addresses_only() {
    let before = tcp_to_gateway(50001, 62078, SYN);
    let mut after = before.clone();
    reflect(&mut after);
    assert_eq!(after.len(), before.len());
    assert_eq!(&after[12..16], &GATEWAY);
    assert_eq!(&after[16..20], &CLIENT);
    assert_eq!(&after[..12], &before[..12]);
    assert_eq!(&after[20..], &before[20..]);
    reflect(&mut after);
    assert_eq!(after, before);
}

#[test]
fn reflected_packet_keeps_a_valid_checksum() {
    let mut b = tcp_to_gateway(50001, 62078, SYN);
    assert!(Ipv4Packet::new_unchecked(&b[..]).verify_checksum());
    let mut t = SessionTracker::new();
    assert_eq!(process_packet(&mut t, &mut b, 0), Decision::Forward);
    let ip = Ipv4Packet::new_checked(&b[..]).unwrap();
    assert!(ip.verify_checksum());
    assert_eq!(ip.src_addr().octets(), GATEWAY);
    assert_eq!(ip.dst_addr().octets(), CLIENT);
    assert_eq!(u8::from(ip.next_header()), 6);
    let tcp = TcpPacket::new_checked(ip.payload()).unwrap();
    assert_eq!(tcp.src_port(), 50001);
    assert_eq!(tcp.dst_port(), 62078);
    assert!(tcp.syn());
    assert!(!tcp.ack());
    assert_eq!(tcp.payload(), &[1, 2, 3, 4, 5]);
}

#[test]
fn process_packet_drops_malformed_and_foreign_packets_unchanged() {
    let mut t = SessionTracker::new();
    let mut empty: Vec<u8> = Vec::new();
    assert_eq!(process_packet(&mut t, &mut empty, 0), Decision::Drop);
    assert!(empty.is_empty());

    let good = tcp_to_gateway(40000, 62078, SYN);
    let mut truncated = good[..30].to_vec();
    let copy = truncated.clone();
    assert_eq!(process_packet(&mut t, &mut truncated, 0), Decision::Drop);
    assert_eq!(truncated, copy);

    let mut udp = datagram(CLIENT, GATEWAY, 17, 40000, 62078, SYN, &[]);
    let copy = udp.clone();
    assert_eq!(process_packet(&mut t, &mut udp, 0), Decision::Drop);
    assert_eq!(udp, copy);

    let mut elsewhere = datagram(CLIENT, [10, 7, 0, 3], 6, 40000, 62078, SYN, &[]);
    let copy = elsewhere.clone();
    assert_eq!(process_packet(&mut t, &mut elsewhere, 0), Decision::Drop);
    assert_eq!(elsewhere, copy);

    let mut bad_tcp = good.clone();
    bad_tcp[32] = 0x10;
    let copy = bad_tcp.clone();
    assert_eq!(process_packet(&mut t, &mut bad_tcp, 0), Decision::Drop);
    assert_eq!(bad_tcp, copy);

    // none of these recorded a handshake
    assert!(!t.can_open_pair(0x0a07_0002, 0));
}

#[test]
fn process_packet_leaves_a_dropped_packet_unchanged() {
    let mut t = SessionTracker::new();
    let mut b = tcp_to_gateway(50001, 50002, SYN);
    let copy = b.clone();
    assert_eq!(process_packet(&mut t, &mut b, SEC), Decision::Drop);
    assert_eq!(b, copy);
}

#[test]
fn handshake_pair_and_expiry_on_raw_packets() {
    let mut t = SessionTracker::new();
    let client: u32 = 0x0a07_0002;
    let key = SessionTracker::pair_key(client, 50001, 50002);

    let mut control = tcp_to_gateway(40000, 62078, SYN);
    assert_eq!(process_packet(&mut t, &mut control, 0), Decision::Forward);
    assert_eq!(&control[12..16], &GATEWAY);
    assert_eq!(&control[16..20], &CLIENT);
    assert!(t.can_open_pair(client, 0));

    let mut open = tcp_to_gateway(50001, 50002, SYN);
    assert_eq!(process_packet(&mut t, &mut open, SEC), Decision::Forward);
    assert!(t.has_pair(&key));

    let mut data = tcp_to_gateway(50001, 50002, ACK);
    let sent = data.clone();
    assert_eq!(process_packet(&mut t, &mut data, 2 * SEC), Decision::Forward);
    assert_eq!(t.pair_last_seen(&key), Some(2 * SEC));
    assert_eq!(&data[12..16], &sent[16..20]);
    assert_eq!(&data[16..20], &sent[12..16]);
    assert_eq!(&data[20..], &sent[20..]);

    let mut unrelated = tcp_to_gateway(1000, 2000, ACK);
    assert_eq!(process_packet(&mut t, &mut unrelated, 40 * SEC), Decision::Drop);
    assert!(!t.has_pair(&key));

    let mut again = tcp_to_gateway(50001, 50002, SYN);
    let copy = again.clone();
    assert_eq!(process_packet(&mut t, &mut again, 40 * SEC), Decision::Drop);
    assert_eq!(again, copy);
    assert!(!t.has_pair(&key));
}
