use netstack::address::{Ipv4Address, MacAddress};
use netstack::ether::Ether;
use netstack::ipv4::IP;
use netstack::protocol::{Accepted, Bind, Endpoint, Protocol};
use netstack::tcp::{build_segment, TCPChecksum, TcpHandshake, TcpState, TCP, TCP_ACK, TCP_SYN};
use netstack::udp::{UDPChecksum, UDP};

type Net = IP<Ether, fn(Ipv4Address) -> MacAddress>;
type Udp = UDP<Net>;
type Tcp = TCP<Net>;

const MAC_A: MacAddress = MacAddress(10, 12, 14, 16, 18, 20);
const MAC_B: MacAddress = MacAddress(12, 12, 14, 16, 18, 20);
const IP_A: Ipv4Address = Ipv4Address(192, 16, 16, 16);
const IP_B: Ipv4Address = Ipv4Address(190, 16, 16, 16);

fn translate(address: Ipv4Address) -> MacAddress {
    if address == IP_A {
        MAC_A
    } else if address == IP_B {
        MAC_B
    } else {
        panic!("unknown address")
    }
}

fn network() -> Net {
    IP { inner_protocol: Ether, address_translator: translate as fn(Ipv4Address) -> MacAddress }
}

fn udp() -> Udp {
    UDP { inner_protocol: network() }
}

fn tcp() -> Tcp {
    TCP { inner_protocol: network() }
}

fn at(address: Ipv4Address, port: u16) -> Endpoint<Ipv4Address> {
    Endpoint { address, port }
}

#[test]
fn udp_checksum_matches_the_reference_vector() {
    // 192.168.0.1:12345 -> 192.168.0.199:54321 carrying "test" sums to 0x9178.
    let datagram = [0x30, 0x39, 0xd4, 0x31, 0x00, 0x0c, 0x00, 0x00, b't', b'e', b's', b't'];
    let checksum = <Udp as UDPChecksum<Net>>::calculate_checksum(
        &datagram,
        Ipv4Address(192, 168, 0, 1),
        Ipv4Address(192, 168, 0, 199),
    );
    assert_eq!(checksum, 0x9178);
}

#[test]
fn udp_datagram_layout() {
    let u = udp();
    let a = u.connect(at(IP_A, 12345), at(IP_B, 80), ());
    assert!(a.cached_payload.is_none());
    let frame = Udp::send(&a, b"test");
    assert_eq!(frame.len(), 14 + 20 + 8 + 4 + 8);
    let datagram = &frame[34..46];
    assert_eq!(&datagram[..6], &[0x30, 0x39, 0x00, 0x50, 0x00, 0x0c]);
    assert_eq!(&datagram[8..], b"test");
    // The checksum is the one computed over the datagram with a zero checksum field.
    let mut unsummed = datagram.to_vec();
    unsummed[6] = 0;
    unsummed[7] = 0;
    let expected = <Udp as UDPChecksum<Net>>::calculate_checksum(&unsummed, IP_A, IP_B);
    assert_eq!(u16::from_be_bytes([datagram[6], datagram[7]]), expected);
    assert_ne!(expected, 0);
}

#[test]
fn udp_round_trip_is_exact() {
    let u = udp();
    let a = u.connect(at(IP_A, 4000), at(IP_B, 80), ());
    let b = u.connect(at(IP_B, 80), at(IP_A, 4000), ());
    let frame = Udp::send(&a, &[1, 2, 3, 4, 5]);
    assert!(Udp::receivable(&b, &frame));
    let mut buffer = Vec::new();
    assert!(Udp::receive(&b, &frame, &mut buffer));
    assert_eq!(buffer, vec![1, 2, 3, 4, 5]);
}

#[test]
fn udp_drops_other_ports() {
    let u = udp();
    let a = u.connect(at(IP_A, 4000), at(IP_B, 80), ());
    let wrong_local = u.connect(at(IP_B, 81), at(IP_A, 4000), ());
    let wrong_remote = u.connect(at(IP_B, 80), at(IP_A, 4001), ());
    let frame = Udp::send(&a, &[1]);
    let mut buffer = Vec::new();
    assert!(!Udp::receive(&wrong_local, &frame, &mut buffer));
    assert!(!Udp::receive(&wrong_remote, &frame, &mut buffer));
    assert!(buffer.is_empty());
}

#[test]
fn udp_send_limits() {
    assert!(Udp::can_send(65507));
    assert!(!Udp::can_send(65508));
}

#[test]
fn udp_server_opens_on_the_first_datagram() {
    let u = udp();
    let mut server = u.bind(at(IP_B, 80));
    let client = u.connect(at(IP_A, 4000), at(IP_B, 80), ());
    let frame = Udp::send(&client, b"hello");
    assert!(u.next_well_formed(&server, &frame));
    let mut connection = match u.next(&mut server, &frame) {
        Accepted::Connected(connection) => connection,
        _ => panic!("no connection"),
    };
    assert_eq!(connection.source_port, 80);
    assert_eq!(connection.destination_port, 4000);
    assert_eq!(connection.source_address, IP_B);
    assert_eq!(connection.destination_address, IP_A);
    let mut buffer = Vec::new();
    assert!(Udp::receive_pending(&mut connection, &mut buffer));
    assert_eq!(buffer, b"hello".to_vec());
    assert!(!Udp::receive_pending(&mut connection, &mut buffer));
    assert_eq!(buffer, b"hello".to_vec());
    // The opened connection answers the client.
    let reply = Udp::send(&connection, b"world");
    let mut answer = Vec::new();
    assert!(Udp::receive(&client, &reply, &mut answer));
    assert_eq!(answer, b"world".to_vec());
}

#[test]
fn udp_server_ignores_other_ports() {
    let u = udp();
    let mut server = u.bind(at(IP_B, 80));
    let client = u.connect(at(IP_A, 4000), at(IP_B, 81), ());
    let frame = Udp::send(&client, b"hello");
    assert!(matches!(u.next(&mut server, &frame), Accepted::Waiting));
}

#[test]
fn tcp_syn_segment_layout() {
    let t = tcp();
    let mut client = t.connect(at(IP_A, 80), at(IP_B, 80), ());
    assert_eq!(client.state, TcpState::SynPending);
    let frame = Tcp::syn_frame(&mut client);
    assert_eq!(client.state, TcpState::SynSent);
    let segment = &frame[34..54];
    assert_eq!(
        segment,
        &[0, 80, 0, 80, 0, 0, 0, 0, 0, 0, 0, 0, 0, TCP_SYN, 0, 0, 0, 0, 0, 0]
    );
    // It goes in an IPv4 packet of protocol 6.
    assert_eq!(frame[14 + 9], 6);
}

#[test]
fn tcp_handshake_opens_a_connection() {
    let t = tcp();
    let mut server = t.bind(at(IP_B, 80));
    let mut client = t.connect(at(IP_A, 80), at(IP_B, 80), ());

    let syn = Tcp::syn_frame(&mut client);
    assert!(t.next_well_formed(&server, &syn));
    let syn_ack = match t.next(&mut server, &syn) {
        Accepted::Reply(frame) => frame,
        _ => panic!("no reply"),
    };
    assert!(matches!(server.handshake, TcpHandshake::SynReceived { sender_port: 80, .. }));
    // The SYN-ACK acknowledges sequence number 0 with 1.
    assert_eq!(&syn_ack[34 + 8..34 + 12], &[0, 0, 0, 1]);
    assert_eq!(syn_ack[34 + 13], 0b10010);

    assert!(Tcp::syn_ack_acceptable(&client, &syn_ack));
    let ack = Tcp::complete(&mut client, &syn_ack).expect("ack");
    assert_eq!(client.state, TcpState::Established);
    assert_eq!(ack[34 + 13], TCP_ACK);

    assert!(t.next_well_formed(&server, &ack));
    let connection = match t.next(&mut server, &ack) {
        Accepted::Connected(connection) => connection,
        _ => panic!("no connection"),
    };
    assert!(matches!(server.handshake, TcpHandshake::Listening));
    assert_eq!(connection.state, TcpState::Established);
    assert_eq!(connection.source_port, 80);
    assert_eq!(connection.destination_port, 80);
    assert_eq!(connection.source_address, IP_B);
    assert_eq!(connection.destination_address, IP_A);
}

#[test]
fn tcp_server_waits_for_a_syn_to_its_port() {
    let t = tcp();
    let mut server = t.bind(at(IP_B, 80));
    let mut elsewhere = t.connect(at(IP_A, 1234), at(IP_B, 81), ());
    assert!(matches!(t.next(&mut server, &Tcp::syn_frame(&mut elsewhere)), Accepted::Waiting));
    assert!(matches!(server.handshake, TcpHandshake::Listening));
    // A segment without SYN is ignored too.
    let client = t.connect(at(IP_A, 1234), at(IP_B, 80), ());
    let net = network();
    let ip = net.connect(IP_A, IP_B, netstack::ipv4::IPConnectionConfig { protocol: 6 });
    let plain = Net::send(&ip, &build_segment(1234, 80, 0, 0, TCP_ACK));
    assert!(matches!(t.next(&mut server, &plain), Accepted::Waiting));
    assert!(matches!(server.handshake, TcpHandshake::Listening));
    assert_eq!(client.state, TcpState::SynPending);
}

#[test]
fn tcp_server_drops_a_bad_ack() {
    let t = tcp();
    let mut server = t.bind(at(IP_B, 80));
    let mut client = t.connect(at(IP_A, 1234), at(IP_B, 80), ());
    assert!(matches!(t.next(&mut server, &Tcp::syn_frame(&mut client)), Accepted::Reply(_)));
    // An ACK of the wrong number sends the server back to listening.
    let net = network();
    let ip = net.connect(IP_A, IP_B, netstack::ipv4::IPConnectionConfig { protocol: 6 });
    let bad = Net::send(&ip, &build_segment(1234, 80, 0, 7, TCP_ACK));
    assert!(matches!(t.next(&mut server, &bad), Accepted::Waiting));
    assert!(matches!(server.handshake, TcpHandshake::Listening));
}

#[test]
fn tcp_server_keeps_waiting_for_frames_of_other_connections() {
    let t = tcp();
    let mut server = t.bind(at(IP_B, 80));
    let mut client = t.connect(at(IP_A, 1234), at(IP_B, 80), ());
    assert!(matches!(t.next(&mut server, &Tcp::syn_frame(&mut client)), Accepted::Reply(_)));
    // The server's own SYN-ACK is not for its connection back to the client.
    let net = network();
    let ip = net.connect(IP_B, IP_A, netstack::ipv4::IPConnectionConfig { protocol: 6 });
    let own = Net::send(&ip, &build_segment(80, 1234, 0, 1, TCP_ACK));
    assert!(matches!(t.next(&mut server, &own), Accepted::Waiting));
    assert!(matches!(server.handshake, TcpHandshake::SynReceived { .. }));
}

#[test]
fn tcp_client_rejects_a_reply_without_syn_ack() {
    let t = tcp();
    let client = t.connect(at(IP_A, 1234), at(IP_B, 80), ());
    let net = network();
    let ip = net.connect(IP_B, IP_A, netstack::ipv4::IPConnectionConfig { protocol: 6 });
    let only_ack = Net::send(&ip, &build_segment(80, 1234, 0, 1, TCP_ACK));
    assert!(!Tcp::syn_ack_acceptable(&client, &only_ack));
    let full = Net::send(&ip, &build_segment(80, 1234, u32::MAX, 1, 0b10010));
    assert!(!Tcp::syn_ack_acceptable(&client, &full));
}

#[test]
fn tcp_carries_no_data() {
    assert!(!Tcp::can_send(0));
    let t = tcp();
    let mut client = t.connect(at(IP_A, 1234), at(IP_B, 80), ());
    let syn = Tcp::syn_frame(&mut client);
    assert!(!Tcp::receivable(&client, &syn));
}

#[test]
fn tcp_checksum_matches_the_reference_vector() {
    let segment = [
        0xc1, 0x67, 0x23, 0x28, 0x90, 0x37, 0xd2, 0xb8, 0x94, 0x4b, 0xb2, 0x76, 0x80, 0x18, 0x0f,
        0xaf, 0x00, 0x00, 0x00, 0x00, 0x01, 0x01, 0x08, 0x0a, 0x2c, 0x57, 0xcd, 0xa5, 0x02, 0xa0,
        0x41, 0x92, 0x74, 0x65, 0x73, 0x74,
    ];
    let checksum = <Tcp as TCPChecksum<Net>>::calculate_checksum(
        &segment,
        Ipv4Address(192, 168, 2, 1),
        Ipv4Address(192, 168, 111, 51),
    );
    assert_eq!(checksum, 0xc031);
}

#[test]
fn tcp_ack_segment_layout() {
    let segment = build_segment(80, 1234, 0, 1, TCP_ACK);
    assert_eq!(segment, vec![0, 80, 4, 210, 0, 0, 0, 0, 0, 0, 0, 1, 0, 16, 0, 0, 0, 0, 0, 0]);
}

#[test]
fn two_nodes_on_one_medium_make_a_connection() {
    // Every frame reaches every reader, the sender's own frames included.
    let client_stack = tcp();
    let server_stack = tcp();
    let mut server = server_stack.bind(at(IP_B, 80));
    let mut client = client_stack.connect(at(IP_A, 80), at(IP_B, 80), ());

    let syn = Tcp::syn_frame(&mut client);
    // The client reads its own SYN first: nothing comes of it.
    assert!(Tcp::syn_ack_acceptable(&client, &syn));
    assert!(Tcp::complete(&mut client, &syn).is_none());
    assert_eq!(client.state, TcpState::SynSent);

    let syn_ack = match server_stack.next(&mut server, &syn) {
        Accepted::Reply(frame) => frame,
        _ => panic!("no reply"),
    };
    // The server reads its own SYN-ACK: it keeps waiting for the ACK.
    assert!(server_stack.next_well_formed(&server, &syn_ack));
    assert!(matches!(server_stack.next(&mut server, &syn_ack), Accepted::Waiting));

    let ack = Tcp::complete(&mut client, &syn_ack).expect("ack");
    assert_eq!(client.state, TcpState::Established);
    // The client's connection below does not take back its own ACK.
    let mut seen = Vec::new();
    assert!(!Net::receive(&client.connection, &ack, &mut seen));

    match server_stack.next(&mut server, &ack) {
        Accepted::Connected(connection) => {
            assert_eq!(connection.destination_port, client.source_port);
            assert_eq!(connection.destination_address, client.source_address);
        }
        _ => panic!("no connection"),
    }
}

#[test]
fn tcp_replies_are_as_long_as_what_they_answer() {
    let t = tcp();
    let net = network();
    let config = netstack::ipv4::IPConnectionConfig { protocol: 6 };

    // A 24-byte SYN (with four option bytes) gets a 24-byte SYN-ACK, zero past the header fields.
    let mut server = t.bind(at(IP_B, 80));
    let mut syn = build_segment(1234, 80, 41, 0, TCP_SYN);
    syn[12] = 0x60;
    syn.extend_from_slice(&[2, 4, 5, 180]);
    let from_client = net.connect(IP_A, IP_B, config);
    let syn_ack = match t.next(&mut server, &Net::send(&from_client, &syn)) {
        Accepted::Reply(frame) => frame,
        _ => panic!("no reply"),
    };
    let from_server = net.connect(IP_B, IP_A, config);
    let mut segment = Vec::new();
    let client_side = net.connect(IP_A, IP_B, config);
    assert!(Net::receive(&client_side, &syn_ack, &mut segment));
    assert_eq!(segment, vec![0, 80, 4, 210, 0, 0, 0, 0, 0, 0, 0, 42, 0, 0b10010, 0, 0, 0, 0, 0, 0, 0, 0, 0, 0]);

    // A 24-byte SYN-ACK gets a 24-byte ACK.
    let mut client = t.connect(at(IP_A, 1234), at(IP_B, 80), ());
    let _syn = Tcp::syn_frame(&mut client);
    let mut reply = build_segment(80, 1234, 9, 1, 0b10010);
    reply.extend_from_slice(&[7, 7, 7, 7]);
    let frame = Net::send(&from_server, &reply);
    assert!(Tcp::syn_ack_acceptable(&client, &frame));
    let ack = Tcp::complete(&mut client, &frame).expect("ack");
    let server_side = net.connect(IP_B, IP_A, config);
    let mut received = Vec::new();
    assert!(Net::receive(&server_side, &ack, &mut received));
    assert_eq!(received, vec![4, 210, 0, 80, 0, 0, 0, 0, 0, 0, 0, 10, 0, TCP_ACK, 0, 0, 0, 0, 0, 0, 0, 0, 0, 0]);
}

#[test]
fn udp_checksum_field_checks_out_on_the_sent_datagram() {
    let u = udp();
    let a = u.connect(at(IP_A, 4000), at(IP_B, 80), ());
    let datagram = Udp::datagram(&a, b"payload");
    let recomputed = <Udp as UDPChecksum<Net>>::calculate_checksum(&datagram, IP_A, IP_B);
    assert_eq!(u16::from_be_bytes([datagram[6], datagram[7]]), recomputed);
}
