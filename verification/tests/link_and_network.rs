use netstack::address::{Ipv4Address, MacAddress};
use netstack::ether::{Ether, EtherConnectionConfig, ETHER_TYPE_IPV4};
use netstack::ipv4::{
    build_packet, build_unsummed_packet, fill_checksum, packet_payload, IPConnectionConfig, IP,
    PROTOCOL_UDP,
};
use netstack::protocol::{Listener, Protocol};

type Net = IP<Ether, fn(Ipv4Address) -> MacAddress>;

const MAC_A: MacAddress = MacAddress(10, 12, 14, 16, 18, 20);
const MAC_B: MacAddress = MacAddress(12, 12, 14, 16, 18, 20);
const IP_A: Ipv4Address = Ipv4Address(192, 16, 16, 16);
const IP_B: Ipv4Address = Ipv4Address(190, 16, 16, 16);

fn translate(address: Ipv4Address) -> MacAddress {
    if address == IP_A {
        MAC_A
    } else if address == IP_B {
        MAC_B
    } else {
        panic!("unknown address")
    }
}

fn network() -> Net {
    IP { inner_protocol: Ether, address_translator: translate as fn(Ipv4Address) -> MacAddress }
}

fn ipv4_link() -> EtherConnectionConfig {
    EtherConnectionConfig { ether_type: ETHER_TYPE_IPV4 }
}

#[test]
fn ether_frame_layout() {
    let a = Ether.connect(MAC_A, MAC_B, ipv4_link());
    let frame = Ether::send(&a, b"hi");
    let mut expected = vec![12, 12, 14, 16, 18, 20, 10, 12, 14, 16, 18, 20, 0x08, 0x00, b'h', b'i'];
    expected.extend_from_slice(&[0; 8]);
    assert_eq!(frame, expected);
}

#[test]
fn ether_round_trip_delivers_data_and_trailer() {
    let a = Ether.connect(MAC_A, MAC_B, ipv4_link());
    let b = Ether.connect(MAC_B, MAC_A, ipv4_link());
    let frame = Ether::send(&a, &[1, 2, 3]);
    assert!(Ether::receivable(&b, &frame));
    let mut buffer = vec![9];
    assert!(Ether::receive(&b, &frame, &mut buffer));
    assert_eq!(buffer, vec![9, 1, 2, 3, 0, 0, 0, 0, 0, 0, 0, 0]);
}

#[test]
fn ether_drops_frames_not_for_the_connection() {
    let a = Ether.connect(MAC_A, MAC_B, ipv4_link());
    let frame = Ether::send(&a, &[1, 2, 3]);
    // The sender's own connection does not take its frame back.
    let mut buffer = Vec::new();
    assert!(!Ether::receive(&a, &frame, &mut buffer));
    assert!(buffer.is_empty());
    // Another ether type is not taken either.
    let other = Ether.connect(MAC_B, MAC_A, EtherConnectionConfig { ether_type: 0x86dd });
    assert!(!Ether::receive(&other, &frame, &mut buffer));
    // Nor a frame from a third address.
    let third = Ether.connect(MAC_B, MacAddress(1, 2, 3, 4, 5, 6), ipv4_link());
    assert!(!Ether::receive(&third, &frame, &mut buffer));
    assert!(buffer.is_empty());
}

#[test]
fn ether_short_frames_are_not_receivable() {
    let b = Ether.connect(MAC_B, MAC_A, ipv4_link());
    assert!(!Ether::receivable(&b, &[0; 13]));
    assert!(Ether::receivable(&b, &[0; 14]));
    let mut buffer = Vec::new();
    assert!(!Ether::receive(&b, &[0; 14], &mut buffer));
}

#[test]
fn ether_listener_hears_the_sender() {
    let a = Ether.connect(MAC_A, MAC_B, ipv4_link());
    let listener = Ether.listen(MAC_B, ipv4_link());
    let frame = Ether::send(&a, &[7]);
    assert!(<Ether as Listener>::next_receivable(&listener, &frame));
    let mut buffer = Vec::new();
    assert_eq!(<Ether as Listener>::next(&listener, &frame, &mut buffer), Some(MAC_A));
    assert_eq!(buffer, vec![7, 0, 0, 0, 0, 0, 0, 0, 0]);
    let elsewhere = Ether.listen(MAC_A, ipv4_link());
    let mut other = Vec::new();
    assert_eq!(<Ether as Listener>::next(&elsewhere, &frame, &mut other), None);
    assert!(other.is_empty());
}

#[test]
fn ether_pending_is_empty() {
    let mut a = Ether.connect(MAC_A, MAC_B, ipv4_link());
    let mut buffer = Vec::new();
    assert!(!Ether::receive_pending(&mut a, &mut buffer));
    assert!(buffer.is_empty());
}

#[test]
fn ipv4_packet_layout_and_checksum() {
    let net = network();
    let a = net.connect(IP_A, IP_B, IPConnectionConfig { protocol: PROTOCOL_UDP });
    assert_eq!(a.connection.source_mac, MAC_A);
    assert_eq!(a.connection.destination_mac, MAC_B);
    let frame = Net::send(&a, &[1, 2, 3, 4]);
    let packet = &frame[14..];
    assert_eq!(frame.len(), 14 + 20 + 4 + 8);
    assert_eq!(
        &packet[..20],
        &[0x45, 0, 0, 24, 0, 0, 0, 0, 0, 17, 0x1c, 0x95, 192, 16, 16, 16, 190, 16, 16, 16]
    );
    assert_eq!(&packet[20..24], &[1, 2, 3, 4]);
    assert_eq!(&packet[24..], &[0; 8]);
}

#[test]
fn ipv4_round_trip_is_exact() {
    let net = network();
    let config = IPConnectionConfig { protocol: PROTOCOL_UDP };
    let a = net.connect(IP_A, IP_B, config);
    let b = net.connect(IP_B, IP_A, config);
    let data: Vec<u8> = (0..100).collect();
    let frame = Net::send(&a, &data);
    assert!(Net::receivable(&b, &frame));
    let mut buffer = Vec::new();
    assert!(Net::receive(&b, &frame, &mut buffer));
    assert_eq!(buffer, data);
}

#[test]
fn ipv4_drops_other_protocols_and_addresses() {
    let net = network();
    let a = net.connect(IP_A, IP_B, IPConnectionConfig { protocol: PROTOCOL_UDP });
    let b_tcp = net.connect(IP_B, IP_A, IPConnectionConfig { protocol: 6 });
    let frame = Net::send(&a, &[5, 6]);
    let mut buffer = Vec::new();
    assert!(!Net::receive(&b_tcp, &frame, &mut buffer));
    assert!(!Net::receive(&a, &frame, &mut buffer));
    assert!(buffer.is_empty());
}

#[test]
fn ipv4_short_packets_are_not_receivable() {
    let net = network();
    let b = net.connect(IP_B, IP_A, IPConnectionConfig { protocol: PROTOCOL_UDP });
    let link_a = Ether.connect(MAC_A, MAC_B, ipv4_link());
    // A frame that the link layer delivers, but with a 19-byte packet and its trailer
    // of 8 zeros: 27 bytes, enough for a packet header, so it is receivable.
    let frame = Ether::send(&link_a, &[0x45; 19]);
    assert!(Net::receivable(&b, &frame));
    // A frame that the link layer delivers, but whose payload is 19 bytes in all.
    let mut short = vec![12, 12, 14, 16, 18, 20, 10, 12, 14, 16, 18, 20, 0x08, 0x00];
    short.extend_from_slice(&[0; 19]);
    assert!(!Net::receivable(&b, &short));
    // A frame that the link layer drops is receivable: nothing is read of it.
    assert!(Net::receivable(&b, &[0; 14]));
}

#[test]
fn ipv4_payload_follows_the_header_fields() {
    // Total length 22 with a 20-byte header: two bytes of payload, trailing bytes cut off.
    let mut packet = vec![0x45, 0, 0, 22, 0, 0, 0, 0, 0, 17, 0, 0, 1, 2, 3, 4, 5, 6, 7, 8];
    packet.extend_from_slice(&[9, 8, 7, 6, 5]);
    assert_eq!(packet_payload(&packet), vec![9, 8]);
    // Header length 6 words: the payload starts at byte 24.
    let mut packet = vec![0x46, 0, 0, 28, 0, 0, 0, 0, 0, 17, 0, 0, 1, 2, 3, 4, 5, 6, 7, 8];
    packet.extend_from_slice(&[0, 0, 0, 0, 1, 2, 3, 4, 5]);
    assert_eq!(packet_payload(&packet), vec![1, 2, 3, 4]);
    // A total length shorter than the header leaves nothing.
    let packet = vec![0x45, 0, 0, 10, 0, 0, 0, 0, 0, 17, 0, 0, 1, 2, 3, 4, 5, 6, 7, 8, 1, 1];
    assert_eq!(packet_payload(&packet), Vec::<u8>::new());
    // Nothing past the header.
    let packet = vec![0x45, 0, 0, 40, 0, 0, 0, 0, 0, 17, 0, 0, 1, 2, 3, 4, 5, 6, 7, 8];
    assert_eq!(packet_payload(&packet), Vec::<u8>::new());
}

#[test]
fn ipv4_send_limits() {
    assert!(Net::can_send(65515));
    assert!(!Net::can_send(65516));
    assert!(Ether::can_send(65536));
    assert!(!Ether::can_send(usize::MAX - 21));
}

#[test]
fn ipv4_listener_hears_the_sender() {
    let net = network();
    let config = IPConnectionConfig { protocol: PROTOCOL_UDP };
    let a = net.connect(IP_A, IP_B, config);
    let listener = net.listen(IP_B, config);
    let frame = Net::send(&a, &[3, 1, 4]);
    assert!(<Net as Listener>::next_receivable(&listener, &frame));
    let mut buffer = Vec::new();
    assert_eq!(<Net as Listener>::next(&listener, &frame, &mut buffer), Some(IP_A));
    assert_eq!(buffer, vec![3, 1, 4]);
    let wrong = net.listen(IP_B, IPConnectionConfig { protocol: 6 });
    let mut other = Vec::new();
    assert_eq!(<Net as Listener>::next(&wrong, &frame, &mut other), None);
    assert!(other.is_empty());
}

#[test]
fn ipv4_checksum_goes_into_bytes_ten_and_eleven() {
    let mut unsummed = build_unsummed_packet(IP_A, IP_B, PROTOCOL_UDP, &[1, 2, 3, 4]);
    assert_eq!(&unsummed[10..12], &[0, 0]);
    fill_checksum(&mut unsummed, 0xabcd);
    assert_eq!(&unsummed[10..12], &[0xab, 0xcd]);
    let packet = build_packet(IP_A, IP_B, PROTOCOL_UDP, &[1, 2, 3, 4]);
    assert_eq!(&packet[10..12], &[0x1c, 0x95]);
    assert_eq!(&packet[..10], &unsummed[..10]);
    assert_eq!(&packet[12..], &unsummed[12..]);
}

#[test]
fn ether_connections_both_ways_are_peers() {
    let a = Ether.connect(MAC_A, MAC_B, ipv4_link());
    let b = Ether.connect(MAC_B, MAC_A, ipv4_link());
    for data in [vec![], vec![0u8], vec![255u8; 1500]] {
        let mut at_b = Vec::new();
        assert!(Ether::receive(&b, &Ether::send(&a, &data), &mut at_b));
        let mut at_a = Vec::new();
        assert!(Ether::receive(&a, &Ether::send(&b, &data), &mut at_a));
        let mut expected = data.clone();
        expected.extend_from_slice(&[0; 8]);
        assert_eq!(at_b, expected);
        assert_eq!(at_a, expected);
    }
}

#[test]
fn ipv4_checksum_field_checks_out_on_the_sent_packet() {
    let packet = build_packet(IP_A, IP_B, PROTOCOL_UDP, &[9, 9, 9]);
    let recomputed =
        pnet_packet::ipv4::checksum(&pnet_packet::ipv4::Ipv4Packet::new(&packet).unwrap());
    assert_eq!(u16::from_be_bytes([packet[10], packet[11]]), recomputed);
}
