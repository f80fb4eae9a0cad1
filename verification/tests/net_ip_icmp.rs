use rustos::net::buffer::PacketBuffer;
use rustos::net::icmp::{
    echo_packet, IcmpHeader, IcmpManager, LocalInterface, MessageAction, NeighborState, process_icmp_packet,
    process_icmpv6_packet, PingData,
};
use rustos::net::ip::{
    calculate_ip_checksum, forward_ipv4_packet, icmp_error_packet, is_packet_for_us, process_ipv4_packet,
    send_ipv4_packet, send_ipv6_packet, ForwardStep, IPv4Header, IpNext, Protocol,
};
use rustos::net::types::{NetworkAddress, NetworkError};

fn ipv4_packet(dst: [u8; 4], protocol: u8, flags_fragment: u16) -> Vec<u8> {
    let mut p = vec![0x45, 0x00, 0x00, 0x1c, 0x00, 0x00, (flags_fragment >> 8) as u8, flags_fragment as u8, 0x40, protocol, 0, 0, 192, 0, 2, 1];
    p.extend_from_slice(&dst);
    let c = calculate_ip_checksum(&p);
    p[10] = (c >> 8) as u8;
    p[11] = c as u8;
    p.extend_from_slice(&[0u8; 8]);
    p
}

#[test]
fn ipv4_packet_for_broadcast_goes_to_icmp() {
    let mut packet = PacketBuffer::from_data(ipv4_packet([255, 255, 255, 255], 1, 0));
    let (header, next) = process_ipv4_packet(&mut packet, &Vec::new()).unwrap();
    assert_eq!(next, IpNext::Icmp);
    assert_eq!(header.ttl, 64);
    assert_eq!(header.source, NetworkAddress::IPv4([192, 0, 2, 1]));
}

#[test]
fn ipv4_known_checksum_is_accepted() {
    let mut bytes = vec![
        0x45, 0x00, 0x00, 0x1c, 0x00, 0x00, 0x00, 0x00, 0x40, 0x01, 0xB8, 0xE0, 0xC0, 0x00, 0x02, 0x01, 0xFF, 0xFF,
        0xFF, 0xFF,
    ];
    bytes.extend_from_slice(&[0u8; 8]);
    let mut packet = PacketBuffer::from_data(bytes);
    assert!(process_ipv4_packet(&mut packet, &Vec::new()).is_ok());
}

#[test]
fn ipv4_bad_checksum_is_refused() {
    let mut bytes = ipv4_packet([255, 255, 255, 255], 1, 0);
    bytes[11] ^= 0xFF;
    let mut packet = PacketBuffer::from_data(bytes);
    assert_eq!(process_ipv4_packet(&mut packet, &Vec::new()).unwrap_err(), NetworkError::InvalidPacket);
}

#[test]
fn ipv4_for_someone_else_is_forwarded_and_fragments_dropped() {
    let mut other = PacketBuffer::from_data(ipv4_packet([10, 0, 0, 9], 6, 0));
    assert_eq!(process_ipv4_packet(&mut other, &Vec::new()).unwrap().1, IpNext::Forward);
    let local = vec![NetworkAddress::IPv4([10, 0, 0, 9])];
    let mut frag = PacketBuffer::from_data(ipv4_packet([10, 0, 0, 9], 6, 0x2000));
    assert_eq!(process_ipv4_packet(&mut frag, &local).unwrap().1, IpNext::Drop);
    let mut tcp = PacketBuffer::from_data(ipv4_packet([10, 0, 0, 9], 6, 0));
    assert_eq!(process_ipv4_packet(&mut tcp, &local).unwrap().1, IpNext::Tcp);
}

#[test]
fn short_or_wrong_version_packets_are_invalid() {
    let mut short = PacketBuffer::from_data(vec![0x45, 0, 0]);
    assert!(IPv4Header::parse(&mut short).is_err());
    let mut v6 = PacketBuffer::from_data(ipv4_packet([1, 2, 3, 4], 1, 0));
    let _ = v6.consume(0);
    let mut bytes = ipv4_packet([1, 2, 3, 4], 1, 0);
    bytes[0] = 0x65;
    let mut wrong = PacketBuffer::from_data(bytes);
    assert!(IPv4Header::parse(&mut wrong).is_err());
}

#[test]
fn unknown_protocol_numbers_read_as_tcp() {
    assert_eq!(Protocol::from(1u8), Protocol::ICMP);
    assert_eq!(Protocol::from(17u8), Protocol::UDP);
    assert_eq!(Protocol::from(99u8), Protocol::TCP);
}

#[test]
fn multicast_and_local_addresses_are_ours() {
    assert!(is_packet_for_us(&NetworkAddress::IPv4([224, 0, 0, 1]), &Vec::new()));
    assert!(!is_packet_for_us(&NetworkAddress::IPv4([10, 0, 0, 1]), &Vec::new()));
    assert!(is_packet_for_us(&NetworkAddress::IPv4([10, 0, 0, 1]), &vec![NetworkAddress::IPv4([10, 0, 0, 1])]));
}

#[test]
fn forwarding_decrements_ttl_and_redoes_checksum() {
    let mut packet = PacketBuffer::from_data(ipv4_packet([10, 0, 0, 9], 6, 0));
    let (header, _) = process_ipv4_packet(&mut packet, &Vec::new()).unwrap();
    match forward_ipv4_packet(&header, &[1, 2, 3]) {
        ForwardStep::Send(bytes) => {
            assert_eq!(bytes[8], 63);
            assert_eq!(calculate_ip_checksum(&bytes[0..20]), 0);
            assert_eq!(&bytes[20..], &[1, 2, 3]);
        }
        ForwardStep::TimeExceeded => panic!("ttl was 64"),
    }
    let mut dying = header.clone();
    dying.ttl = 1;
    assert!(matches!(forward_ipv4_packet(&dying, &[]), ForwardStep::TimeExceeded));
}

#[test]
fn ipv4_frame_layout() {
    let frame = send_ipv4_packet(
        NetworkAddress::IPv4([10, 0, 0, 1]),
        NetworkAddress::IPv4([255, 255, 255, 255]),
        17,
        &[9, 9],
        Some(NetworkAddress::Mac([2, 0, 0, 0, 0, 1])),
        None,
    )
    .unwrap();
    assert_eq!(&frame[0..6], &[0xFF; 6]);
    assert_eq!(&frame[6..12], &[2, 0, 0, 0, 0, 1]);
    assert_eq!(&frame[12..14], &[0x08, 0x00]);
    assert_eq!(frame[14], 0x45);
    assert_eq!(&frame[16..18], &[0, 22]);
    assert_eq!(frame[23], 17);
    assert_eq!(calculate_ip_checksum(&frame[14..34]), 0);
    assert_eq!(&frame[34..], &[9, 9]);
    assert_eq!(
        send_ipv4_packet(NetworkAddress::IPv6([0; 16]), NetworkAddress::IPv4([1, 1, 1, 1]), 6, &[], None, None),
        Err(NetworkError::InvalidAddress)
    );
    assert_eq!(
        send_ipv4_packet(NetworkAddress::IPv4([1, 1, 1, 1]), NetworkAddress::IPv4([2, 2, 2, 2]), 6, &[], None, None),
        Err(NetworkError::NetworkUnreachable)
    );
}

#[test]
fn ipv6_multicast_frame_uses_33_33() {
    let mut dst = [0u8; 16];
    dst[0] = 0xff;
    dst[15] = 1;
    let frame = send_ipv6_packet(
        NetworkAddress::IPv6([0; 16]),
        NetworkAddress::IPv6(dst),
        58,
        &[],
        Some(NetworkAddress::Mac([2, 0, 0, 0, 0, 1])),
    )
    .unwrap();
    assert_eq!(&frame[0..6], &[0x33, 0x33, 0, 0, 0, 1]);
    assert_eq!(&frame[12..14], &[0x86, 0xDD]);
    assert_eq!(frame[14] >> 4, 6);
    assert_eq!(frame.len(), 14 + 40);
}

#[test]
fn icmp_error_message_checksums_to_zero() {
    let m = icmp_error_packet(11);
    assert_eq!(m.len(), 8);
    assert_eq!(m[0], 11);
    assert_eq!(calculate_ip_checksum(&m), 0);
}

#[test]
fn echo_request_is_answered() {
    let mut mgr = IcmpManager::new();
    let bytes = echo_packet(8, 7, 3, b"ping");
    let mut packet = PacketBuffer::from_data(bytes);
    let src = NetworkAddress::IPv4([10, 0, 0, 2]);
    let dst = NetworkAddress::IPv4([10, 0, 0, 1]);
    match process_icmp_packet(&mut mgr, src, dst, &mut packet, 100).unwrap() {
        MessageAction::EchoReply { to, from, identifier, sequence, payload } => {
            assert_eq!(to, src);
            assert_eq!(from, dst);
            assert_eq!(identifier, 7);
            assert_eq!(sequence, 3);
            assert_eq!(payload, b"ping".to_vec());
        }
        _ => panic!("expected an echo reply"),
    }
}

#[test]
fn corrupted_echo_is_refused() {
    let mut mgr = IcmpManager::new();
    let mut bytes = echo_packet(8, 7, 3, b"ping");
    bytes[9] ^= 1;
    let mut packet = PacketBuffer::from_data(bytes);
    assert!(process_icmp_packet(&mut mgr, NetworkAddress::IPv4([1, 1, 1, 1]), NetworkAddress::IPv4([2, 2, 2, 2]), &mut packet, 0).is_err());
}

#[test]
fn ping_session_records_replies() {
    let mut mgr = IcmpManager::new();
    let target = NetworkAddress::IPv4([10, 0, 0, 5]);
    let id = mgr.start_ping(target).unwrap();
    assert_eq!(id, 1);
    assert_eq!(mgr.send_ping(id, 1000).unwrap(), 1);
    let reply = echo_packet(0, id, 1, b"pong");
    let mut packet = PacketBuffer::from_data(reply);
    let _ = process_icmp_packet(&mut mgr, target, NetworkAddress::IPv4([10, 0, 0, 1]), &mut packet, 1025).unwrap();
    let results = mgr.get_ping_results(id).unwrap();
    assert_eq!(results.len(), 1);
    assert_eq!(results[0].sequence, 1);
    assert_eq!(results[0].rtt_ms, 25);
    assert_eq!(results[0].payload, b"pong".to_vec());
    assert!(mgr.close_ping(id).is_ok());
    assert!(mgr.get_ping_results(id).is_none());
    assert_eq!(mgr.send_ping(id, 0), Err(NetworkError::InvalidAddress));
}

#[test]
fn expired_requests_and_neighbors_are_dropped() {
    let mut mgr = IcmpManager::new();
    let id = mgr.start_ping(NetworkAddress::IPv4([10, 0, 0, 5])).unwrap();
    mgr.send_ping(id, 0).unwrap();
    mgr.update_neighbor(NetworkAddress::IPv6([1; 16]), None, NeighborState::Probe, 0);
    mgr.cleanup_expired(1000);
    assert!(mgr.get_ping_results(id).is_some());
    assert!(mgr.lookup_neighbor(&NetworkAddress::IPv6([1; 16])).is_some());
    mgr.cleanup_expired(60_000);
    assert!(mgr.get_ping_results(id).is_none());
    assert!(mgr.lookup_neighbor(&NetworkAddress::IPv6([1; 16])).is_none());
}

#[test]
fn neighbor_solicitation_for_our_address_is_answered() {
    let mut mgr = IcmpManager::new();
    let ours = NetworkAddress::IPv6([0xfe, 0x80, 0, 0, 0, 0, 0, 0, 0, 0, 0, 0, 0, 0, 0, 1]);
    let mut body = vec![0u8; 4];
    if let NetworkAddress::IPv6(a) = ours {
        body.extend_from_slice(&a);
    }
    let src = NetworkAddress::IPv6([0xfe, 0x80, 0, 0, 0, 0, 0, 0, 0, 0, 0, 0, 0, 0, 0, 2]);
    let (s, d) = match (src, ours) {
        (NetworkAddress::IPv6(s), NetworkAddress::IPv6(d)) => (s, d),
        _ => unreachable!(),
    };
    let msg = rustos::net::icmp::v6_message(135, &[0, 0, 0, 0], &body, &s, &d);
    let iface = LocalInterface { mac_address: NetworkAddress::Mac([2, 0, 0, 0, 0, 7]), ip_addresses: vec![ours] };
    let mut packet = PacketBuffer::from_data(msg);
    match process_icmpv6_packet(&mut mgr, src, ours, &mut packet, &vec![iface], 0).unwrap() {
        MessageAction::NeighborAdvertisement { our_mac, to, target } => {
            assert_eq!(our_mac, NetworkAddress::Mac([2, 0, 0, 0, 0, 7]));
            assert_eq!(to, src);
            assert_eq!(target, ours);
        }
        _ => panic!("expected an advertisement"),
    }
}

#[test]
fn ping_data_rest_bytes_round_trip() {
    let d = PingData::new(0x1234, 0xABCD, vec![], 0);
    let rest = d.to_rest_bytes();
    let back = PingData::from_rest_bytes(&rest, vec![], 5);
    assert_eq!(back.identifier, 0x1234);
    assert_eq!(back.sequence, 0xABCD);
    let h = IcmpHeader { icmp_type: 8, code: 0, checksum: 0, rest };
    assert_eq!(h.to_bytes().len(), 8);
}
