//! The network layer: IPv4 packets over a link layer.
//!
//! A packet is a 20-byte header (version 4, header length 5 words, total
//! length, next-level protocol, header checksum, source, destination) and
//! the payload. The link-layer address of an IPv4 address comes from the
//! layer's address translator.
use vstd::prelude::*;
use crate::address::{Ipv4Address, MacAddress};
use crate::bytes::{push_bytes, push_u16, read_u16, slice_range, u16_at, u16_bytes, with_u16_at, zeros, lemma_u16_round_trip};
use crate::ether::{ETHER_TYPE_IPV4, Ether, EtherConnectionConfig};
use crate::protocol::{Listener, Protocol, SupportedConfiguration};

verus! {

/// Length of the header this layer writes.
pub const IPV4_HEADER_LEN: usize = 20;

/// The largest value of the total-length field.
pub const IPV4_MAX_TOTAL_LEN: usize = 65535;

/// The next-level protocol number of TCP.
pub const PROTOCOL_TCP: u8 = 6;

/// The next-level protocol number of UDP.
pub const PROTOCOL_UDP: u8 = 17;

/// Names the header checksum that `pnet_packet::ipv4::checksum` computes of
/// the packet whose bytes are `packet`.
pub uninterp spec fn ipv4_header_checksum(packet: Seq<u8>) -> u16;

/// Calls `pnet_packet::ipv4::checksum` on the packet whose bytes are `packet`.
/// The contract claims that the result is a function of those bytes and, as
/// the function's documentation says, that the checksum field (bytes 10 and
/// 11) counts as zero: whatever it holds, the result is the same. The
/// arithmetic of the checksum is not stated.
#[verifier::external_body]
fn ipv4_checksum_of(packet: &[u8]) -> (checksum: u16)
    requires
        packet.len() >= 20,
    ensures
        checksum == ipv4_header_checksum(packet@),
        forall|field: u16|
            #[trigger] ipv4_header_checksum(ipv4_with_checksum(packet@, field)) == checksum,
{
    pnet_packet::ipv4::checksum(&pnet_packet::ipv4::Ipv4Packet::new(packet).unwrap())
}

/// The configuration of a network-layer connection: which protocol it carries.
#[derive(Debug, Clone, Copy)]
pub struct IPConnectionConfig {
    pub protocol: u8,
}

/// A network-layer connection between two IPv4 addresses.
pub struct IPConnection<P: Protocol> {
    pub connection: P::Connection,
    pub source_ip: Ipv4Address,
    pub destination_ip: Ipv4Address,
    pub config: IPConnectionConfig,
}

/// A network-layer listener: packets of one protocol addressed to one address.
pub struct IPListenConnection<P: Listener> {
    pub source_address: Ipv4Address,
    pub config: IPConnectionConfig,
    pub inner_connection: P::ListenConnection,
}

/// The network layer over the link layer `P`; `address_translator` gives the
/// link-layer address of an IPv4 address.
pub struct IP<P, F> {
    pub inner_protocol: P,
    pub address_translator: F,
}

/// The packet before its checksum is filled in (the checksum field is zero).
pub open spec fn ipv4_unsummed(
    source: Ipv4Address,
    destination: Ipv4Address,
    protocol: u8,
    payload: Seq<u8>,
) -> Seq<u8> {
    seq![0x45u8, 0u8] + u16_bytes((payload.len() + 20) as u16) + seq![
        0u8,
        0u8,
        0u8,
        0u8,
        0u8,
        protocol,
        0u8,
        0u8,
    ] + source.spec_bytes() + destination.spec_bytes() + payload
}

/// The packet from `source` to `destination` carrying `payload` of `protocol`.
pub open spec fn ipv4_packet(
    source: Ipv4Address,
    destination: Ipv4Address,
    protocol: u8,
    payload: Seq<u8>,
) -> Seq<u8> {
    let u = ipv4_unsummed(source, destination, protocol, payload);
    ipv4_with_checksum(u, ipv4_header_checksum(u))
}

/// The packet with `checksum` in its checksum field (bytes 10 and 11).
pub open spec fn ipv4_with_checksum(packet: Seq<u8>, checksum: u16) -> Seq<u8> {
    with_u16_at(packet, 10, checksum)
}

/// The header-length field, in 4-byte words.
pub open spec fn ipv4_header_length(packet: Seq<u8>) -> u8 {
    packet[0] % 16
}

/// The total-length field.
pub open spec fn ipv4_total_length(packet: Seq<u8>) -> u16 {
    u16_at(packet, 2)
}

/// The next-level protocol field.
pub open spec fn ipv4_protocol(packet: Seq<u8>) -> u8 {
    packet[9]
}

/// The source address field.
pub open spec fn ipv4_source(packet: Seq<u8>) -> Ipv4Address {
    Ipv4Address::spec_at(packet, 12)
}

/// The destination address field.
pub open spec fn ipv4_destination(packet: Seq<u8>) -> Ipv4Address {
    Ipv4Address::spec_at(packet, 16)
}

/// Where the payload starts: after the header as long as the header-length
/// field says, and never before byte 20.
pub open spec fn ipv4_payload_start(packet: Seq<u8>) -> int {
    let header = ipv4_header_length(packet) * 4;
    if header > 20 {
        header as int
    } else {
        20
    }
}

/// The payload: from its start, as many bytes as the total length leaves
/// after the header, cut short at the end of the bytes at hand.
pub open spec fn ipv4_payload(packet: Seq<u8>) -> Seq<u8> {
    let start = ipv4_payload_start(packet);
    let header = ipv4_header_length(packet) * 4;
    let length = if ipv4_total_length(packet) >= header {
        ipv4_total_length(packet) - header
    } else {
        0
    };
    let end = if start + length < packet.len() {
        start + length
    } else {
        packet.len() as int
    };
    if packet.len() <= start {
        Seq::empty()
    } else {
        packet.subrange(start, end)
    }
}

/// The payload of a packet, read from its bytes: it starts after the header
/// as long as the header-length nibble (low half of byte 0, in 4-byte words)
/// says, never before byte 20, and runs for the total length (bytes 2..4)
/// minus that header length, cut short at the end of the bytes at hand.
/// With a 5-word header and a total length within the bytes, it is exactly
/// bytes 20 up to the total length; trailing bytes are never part of it.
pub proof fn lemma_payload_bounds(packet: Seq<u8>)
    requires
        packet.len() >= 20,
    ensures
        ({
            let header = (packet[0] % 16) * 4;
            let start = if header > 20 { header as int } else { 20int };
            let total = packet[2] * 256 + packet[3];
            let length = if total >= header { total - header } else { 0int };
            let end = if start + length < packet.len() { start + length } else { packet.len() as int };
            &&& ipv4_payload(packet) == if packet.len() <= start {
                Seq::<u8>::empty()
            } else {
                packet.subrange(start, end)
            }
            &&& packet[0] % 16 == 5 && 20 <= total <= packet.len() ==> ipv4_payload(packet)
                == packet.subrange(20, total)
        }),
{
}

/// The fields of a built packet read back as they were written, whatever
/// bytes follow it, and its payload is exactly the payload it was built with.
pub proof fn lemma_packet_fields(
    source: Ipv4Address,
    destination: Ipv4Address,
    protocol: u8,
    payload: Seq<u8>,
    rest: Seq<u8>,
)
    requires
        payload.len() + 20 <= IPV4_MAX_TOTAL_LEN,
    ensures
        ({
            let p = ipv4_packet(source, destination, protocol, payload) + rest;
            &&& ipv4_packet(source, destination, protocol, payload).len() == payload.len() + 20
            &&& p.len() >= 20
            &&& ipv4_source(p) == source
            &&& ipv4_destination(p) == destination
            &&& ipv4_protocol(p) == protocol
            &&& ipv4_header_length(p) == 5
            &&& ipv4_total_length(p) == payload.len() + 20
            &&& ipv4_payload(p) == payload
        }),
{
    let u = ipv4_unsummed(source, destination, protocol, payload);
    let q = ipv4_packet(source, destination, protocol, payload);
    let p = q + rest;
    assert(u.len() == payload.len() + 20);
    assert(q.len() == payload.len() + 20);
    assert(p[0] == 0x45u8);
    assert(p.subrange(2, 4) == u16_bytes((payload.len() + 20) as u16));
    lemma_u16_round_trip((payload.len() + 20) as u16, p, 2);
    assert(p[9] == protocol);
    assert(p.subrange(12, 16) == source.spec_bytes());
    assert(p.subrange(16, 20) == destination.spec_bytes());
    source.lemma_round_trip(p, 12);
    destination.lemma_round_trip(p, 16);
    assert(0x45u8 % 16 == 5);
    if p.len() > 20 {
        assert(p.subrange(20, 20 + payload.len() as int) == payload);
    } else {
        assert(payload.len() == 0);
    }
}

/// Builds the packet from `source` to `destination` carrying `payload`,
/// with a zero checksum field.
pub fn build_unsummed_packet(source: Ipv4Address, destination: Ipv4Address, protocol: u8, payload: &[u8]) -> (packet: Vec<u8>)
    requires
        payload.len() + 20 <= IPV4_MAX_TOTAL_LEN,
    ensures
        packet@ == ipv4_unsummed(source, destination, protocol, payload@),
{
    let mut packet: Vec<u8> = Vec::new();
    packet.push(0x45u8);
    packet.push(0u8);
    push_u16(&mut packet, (payload.len() + 20) as u16);
    packet.push(0u8);
    packet.push(0u8);
    packet.push(0u8);
    packet.push(0u8);
    packet.push(0u8);
    packet.push(protocol);
    packet.push(0u8);
    packet.push(0u8);
    source.push_to(&mut packet);
    destination.push_to(&mut packet);
    push_bytes(&mut packet, payload);
    packet
}

/// Writes `checksum` into the checksum field of `packet`.
pub fn fill_checksum(packet: &mut Vec<u8>, checksum: u16)
    requires
        old(packet).len() >= 12,
    ensures
        final(packet)@ == ipv4_with_checksum(old(packet)@, checksum),
{
    packet.set(10, (checksum / 256) as u8);
    packet.set(11, (checksum % 256) as u8);
    assert(packet@ == ipv4_with_checksum(old(packet)@, checksum));
}

/// Builds the packet from `source` to `destination` carrying `payload`.
pub fn build_packet(source: Ipv4Address, destination: Ipv4Address, protocol: u8, payload: &[u8]) -> (packet: Vec<u8>)
    requires
        payload.len() + 20 <= IPV4_MAX_TOTAL_LEN,
    ensures
        packet@ == ipv4_packet(source, destination, protocol, payload@),
        ipv4_header_checksum(packet@) == u16_at(packet@, 10),
{
    let mut packet = build_unsummed_packet(source, destination, protocol, payload);
    let ghost unsummed = packet@;
    let checksum = ipv4_checksum_of(packet.as_slice());
    fill_checksum(&mut packet, checksum);
    proof {
        assert(ipv4_header_checksum(ipv4_with_checksum(unsummed, checksum)) == checksum);
        assert(packet@.subrange(10, 12) == u16_bytes(checksum));
        lemma_u16_round_trip(checksum, packet@, 10);
    }
    packet
}

/// The payload of a received packet.
pub fn packet_payload(packet: &[u8]) -> (payload: Vec<u8>)
    requires
        packet.len() >= 20,
    ensures
        payload@ == ipv4_payload(packet@),
{
    let header: usize = ((packet[0] % 16) as usize) * 4;
    let start: usize = if header > 20 {
        header
    } else {
        20
    };
    let total = read_u16(packet, 2) as usize;
    let length: usize = if total >= header {
        total - header
    } else {
        0
    };
    if packet.len() <= start {
        Vec::new()
    } else {
        let end: usize = if start + length < packet.len() {
            start + length
        } else {
            packet.len()
        };
        slice_range(packet, start, end)
    }
}

impl<P: Protocol + SupportedConfiguration<IP<P, F>>, F: Fn(Ipv4Address) -> P::Address> Protocol for IP<P, F> {
    type Address = Ipv4Address;
    type Connection = IPConnection<P>;
    type ConnectionConfig = IPConnectionConfig;

    open spec fn spec_can_connect(&self, source: Ipv4Address, destination: Ipv4Address) -> bool {
        &&& call_requires(self.address_translator, (source,))
        &&& call_requires(self.address_translator, (destination,))
        &&& forall|s: P::Address, d: P::Address|
            #![trigger call_ensures(self.address_translator, (source,), s), call_ensures(self.address_translator, (destination,), d)]
            call_ensures(self.address_translator, (source,), s) && call_ensures(
                self.address_translator,
                (destination,),
                d,
            ) ==> self.inner_protocol.spec_can_connect(s, d)
    }

    open spec fn spec_connects(
        &self,
        source: Ipv4Address,
        destination: Ipv4Address,
        config: IPConnectionConfig,
        connection: IPConnection<P>,
    ) -> bool {
        &&& connection.source_ip == source
        &&& connection.destination_ip == destination
        &&& connection.config == config
        &&& exists|s: P::Address, d: P::Address|
            #![trigger call_ensures(self.address_translator, (source,), s), call_ensures(self.address_translator, (destination,), d)]
            call_ensures(self.address_translator, (source,), s) && call_ensures(
                self.address_translator,
                (destination,),
                d,
            ) && self.inner_protocol.spec_connects(
                s,
                d,
                <P as SupportedConfiguration<IP<P, F>>>::spec_get_config(),
                connection.connection,
            )
    }

    open spec fn spec_source(connection: IPConnection<P>) -> Ipv4Address {
        connection.source_ip
    }

    open spec fn spec_can_send(length: nat) -> bool {
        length + 20 <= IPV4_MAX_TOTAL_LEN && P::spec_can_send(length + 20)
    }

    open spec fn spec_send(connection: IPConnection<P>, data: Seq<u8>) -> Seq<u8> {
        P::spec_send(
            connection.connection,
            ipv4_packet(connection.source_ip, connection.destination_ip, connection.config.protocol, data),
        )
    }

    open spec fn spec_receivable(connection: IPConnection<P>, frame: Seq<u8>) -> bool {
        &&& P::spec_receivable(connection.connection, frame)
        &&& P::spec_receive(connection.connection, frame) matches Some(packet) ==> packet.len() >= 20
    }

    open spec fn spec_receive(connection: IPConnection<P>, frame: Seq<u8>) -> Option<Seq<u8>> {
        match P::spec_receive(connection.connection, frame) {
            Some(packet) => if ipv4_source(packet) == connection.destination_ip && ipv4_destination(
                packet,
            ) == connection.source_ip && connection.config.protocol == ipv4_protocol(packet) {
                Some(ipv4_payload(packet))
            } else {
                None
            },
            None => None,
        }
    }

    open spec fn spec_pending(connection: IPConnection<P>) -> Option<Seq<u8>> {
        None
    }

    open spec fn spec_drained(connection: IPConnection<P>) -> IPConnection<P> {
        connection
    }

    open spec fn spec_padding() -> nat {
        0
    }

    open spec fn spec_peers(a: IPConnection<P>, b: IPConnection<P>) -> bool {
        &&& a.source_ip == b.destination_ip
        &&& a.destination_ip == b.source_ip
        &&& a.config == b.config
        &&& P::spec_peers(a.connection, b.connection)
    }

    fn connect(
        &self,
        source: Ipv4Address,
        destination: Ipv4Address,
        connection_config: IPConnectionConfig,
    ) -> (connection: IPConnection<P>) {
        let s = (self.address_translator)(source);
        let d = (self.address_translator)(destination);
        let inner = self.inner_protocol.connect(s, d, P::get_config());
        IPConnection {
            connection: inner,
            source_ip: source,
            destination_ip: destination,
            config: connection_config,
        }
    }

    fn can_send(length: usize) -> (ok: bool) {
        length <= IPV4_MAX_TOTAL_LEN - 20 && P::can_send(length + 20)
    }

    fn send(connection: &IPConnection<P>, data: &[u8]) -> (frame: Vec<u8>)
        ensures
            ({
                let packet = ipv4_packet(
                    connection.source_ip,
                    connection.destination_ip,
                    connection.config.protocol,
                    data@,
                );
                ipv4_header_checksum(packet) == u16_at(packet, 10)
            }),
    {
        let packet = build_packet(connection.source_ip, connection.destination_ip, connection.config.protocol, data);
        P::send(&connection.connection, packet.as_slice())
    }

    fn receivable(connection: &IPConnection<P>, frame: &[u8]) -> (ok: bool) {
        if !P::receivable(&connection.connection, frame) {
            return false;
        }
        let mut packet: Vec<u8> = Vec::new();
        if P::receive(&connection.connection, frame, &mut packet) {
            packet.len() >= 20
        } else {
            true
        }
    }

    fn receive(connection: &IPConnection<P>, frame: &[u8], buffer: &mut Vec<u8>) -> (delivered: bool)
        ensures
            delivered ==> (P::spec_receive(connection.connection, frame@) matches Some(packet)
                && packet.subrange(12, 16) == connection.destination_ip.spec_bytes() && packet.subrange(
                16,
                20,
            ) == connection.source_ip.spec_bytes() && packet[9] == connection.config.protocol),
    {
        proof {
            Self::lemma_receive_takes_only_its_packets(*connection, frame@);
        }
        let mut packet: Vec<u8> = Vec::new();
        if !P::receive(&connection.connection, frame, &mut packet) {
            return false;
        }
        let source = Ipv4Address::read(packet.as_slice(), 12);
        let destination = Ipv4Address::read(packet.as_slice(), 16);
        if source == connection.destination_ip && destination == connection.source_ip
            && connection.config.protocol == packet[9] {
            let payload = packet_payload(packet.as_slice());
            push_bytes(buffer, payload.as_slice());
            true
        } else {
            false
        }
    }

    fn receive_pending(connection: &mut IPConnection<P>, buffer: &mut Vec<u8>) -> (delivered: bool) {
        false
    }

    proof fn lemma_send_receive(a: IPConnection<P>, b: IPConnection<P>, data: Seq<u8>) {
        let packet = ipv4_packet(a.source_ip, a.destination_ip, a.config.protocol, data);
        lemma_packet_fields(a.source_ip, a.destination_ip, a.config.protocol, data, zeros(P::spec_padding()));
        P::lemma_send_receive(a.connection, b.connection, packet);
    }
}

impl<P: Listener + SupportedConfiguration<IP<P, F>>, F: Fn(Ipv4Address) -> P::Address> Listener for IP<P, F> {
    type ListenConnection = IPListenConnection<P>;

    open spec fn spec_can_listen(&self, address: Ipv4Address) -> bool {
        &&& call_requires(self.address_translator, (address,))
        &&& forall|a: P::Address|
            #[trigger] call_ensures(self.address_translator, (address,), a)
                ==> self.inner_protocol.spec_can_listen(a)
    }

    open spec fn spec_listens(
        &self,
        address: Ipv4Address,
        config: IPConnectionConfig,
        listen_connection: IPListenConnection<P>,
    ) -> bool {
        &&& listen_connection.source_address == address
        &&& listen_connection.config == config
        &&& exists|a: P::Address|
            #[trigger] call_ensures(self.address_translator, (address,), a)
                && self.inner_protocol.spec_listens(
                a,
                <P as SupportedConfiguration<IP<P, F>>>::spec_get_config(),
                listen_connection.inner_connection,
            )
    }

    open spec fn spec_next_receivable(listen_connection: IPListenConnection<P>, frame: Seq<u8>) -> bool {
        &&& P::spec_next_receivable(listen_connection.inner_connection, frame)
        &&& P::spec_next(listen_connection.inner_connection, frame) matches Some((sender, packet))
            ==> packet.len() >= 20
    }

    open spec fn spec_next(listen_connection: IPListenConnection<P>, frame: Seq<u8>) -> Option<
        (Ipv4Address, Seq<u8>),
    > {
        match P::spec_next(listen_connection.inner_connection, frame) {
            Some((sender, packet)) => if ipv4_destination(packet) == listen_connection.source_address
                && listen_connection.config.protocol == ipv4_protocol(packet) {
                Some((ipv4_source(packet), ipv4_payload(packet)))
            } else {
                None
            },
            None => None,
        }
    }

    open spec fn spec_hears(listen_connection: IPListenConnection<P>, connection: IPConnection<P>) -> bool {
        &&& listen_connection.source_address == connection.destination_ip
        &&& listen_connection.config == connection.config
        &&& P::spec_hears(listen_connection.inner_connection, connection.connection)
    }

    fn listen(&self, address: Ipv4Address, config: IPConnectionConfig) -> (listen_connection:
        IPListenConnection<P>) {
        let a = (self.address_translator)(address);
        IPListenConnection {
            source_address: address,
            config,
            inner_connection: self.inner_protocol.listen(a, P::get_config()),
        }
    }

    fn next_receivable(connection: &IPListenConnection<P>, frame: &[u8]) -> (ok: bool) {
        if !P::next_receivable(&connection.inner_connection, frame) {
            return false;
        }
        let mut packet: Vec<u8> = Vec::new();
        match P::next(&connection.inner_connection, frame, &mut packet) {
            Some(_) => packet.len() >= 20,
            None => true,
        }
    }

    fn next(connection: &IPListenConnection<P>, frame: &[u8], buffer: &mut Vec<u8>) -> (sender:
        Option<Ipv4Address>)
        ensures
            sender is Some ==> (P::spec_next(connection.inner_connection, frame@) matches Some(
                (link_sender, packet),
            ) && packet.subrange(16, 20) == connection.source_address.spec_bytes() && packet[9]
                == connection.config.protocol),
    {
        proof {
            Self::lemma_next_hears_only_its_packets(*connection, frame@);
        }
        let mut packet: Vec<u8> = Vec::new();
        match P::next(&connection.inner_connection, frame, &mut packet) {
            None => None,
            Some(_) => {
                let destination = Ipv4Address::read(packet.as_slice(), 16);
                if destination == connection.source_address && connection.config.protocol
                    == packet[9] {
                    let payload = packet_payload(packet.as_slice());
                    push_bytes(buffer, payload.as_slice());
                    Some(Ipv4Address::read(packet.as_slice(), 12))
                } else {
                    None
                }
            },
        }
    }

    proof fn lemma_send_next(listen_connection: IPListenConnection<P>, connection: IPConnection<P>, data: Seq<u8>) {
        let packet = ipv4_packet(connection.source_ip, connection.destination_ip, connection.config.protocol, data);
        lemma_packet_fields(connection.source_ip, connection.destination_ip, connection.config.protocol, data, zeros(P::spec_padding()));
        P::lemma_send_next(listen_connection.inner_connection, connection.connection, packet);
    }
}

impl<P: Protocol + SupportedConfiguration<IP<P, F>>, F: Fn(Ipv4Address) -> P::Address> IP<P, F> {
    /// What a connection sends is what the link below sends for one packet:
    /// version 4 with a 5-word header (0x45), a zero byte, the total length
    /// (header and data, big-endian), five zero bytes, the protocol, the
    /// checksum of the packet taken with its checksum field zero, the
    /// connection's address, the peer's address, then the data.
    pub proof fn lemma_send_layout(connection: IPConnection<P>, data: Seq<u8>)
        requires
            data.len() + 20 <= IPV4_MAX_TOTAL_LEN,
        ensures
            exists|packet: Seq<u8>|
                #![trigger P::spec_send(connection.connection, packet)]
                {
                    let total = (data.len() + 20) as int;
                    &&& Self::spec_send(connection, data) == P::spec_send(connection.connection, packet)
                    &&& packet.len() == total
                    &&& packet[0] == 0x45u8
                    &&& packet[1] == 0u8
                    &&& packet.subrange(2, 4) == seq![(total / 256) as u8, (total % 256) as u8]
                    &&& packet.subrange(4, 9) == seq![0u8, 0u8, 0u8, 0u8, 0u8]
                    &&& packet[9] == connection.config.protocol
                    &&& packet.subrange(10, 12) == u16_bytes(
                        ipv4_header_checksum(packet.subrange(0, 10) + seq![0u8, 0u8] + packet.skip(12)),
                    )
                    &&& packet.subrange(12, 16) == connection.source_ip.spec_bytes()
                    &&& packet.subrange(16, 20) == connection.destination_ip.spec_bytes()
                    &&& packet.skip(20) == data
                },
    {
        let u = ipv4_unsummed(connection.source_ip, connection.destination_ip, connection.config.protocol, data);
        let packet = ipv4_packet(connection.source_ip, connection.destination_ip, connection.config.protocol, data);
        assert(packet.subrange(0, 10) + seq![0u8, 0u8] + packet.skip(12) =~= u);
        assert(packet.subrange(2, 4) =~= u16_bytes((data.len() + 20) as u16));
        assert(packet.subrange(4, 9) =~= seq![0u8, 0u8, 0u8, 0u8, 0u8]);
        assert(packet.subrange(10, 12) =~= u16_bytes(ipv4_header_checksum(u)));
        assert(packet.subrange(12, 16) =~= connection.source_ip.spec_bytes());
        assert(packet.subrange(16, 20) =~= connection.destination_ip.spec_bytes());
        assert(packet.skip(20) =~= data);
        assert(Self::spec_send(connection, data) == P::spec_send(connection.connection, packet));
    }

    /// A connection takes a packet that the link below delivers exactly when,
    /// by the packet's own bytes, it comes from the peer's address (bytes
    /// 12..16), goes to the connection's address (bytes 16..20) and carries its
    /// protocol (byte 9); it then delivers the packet's payload. A packet from
    /// any other source, to any other destination, or of another protocol
    /// delivers nothing, and so does a frame the link below does not deliver.
    pub proof fn lemma_receive_takes_only_its_packets(connection: IPConnection<P>, frame: Seq<u8>)
        requires
            Self::spec_receivable(connection, frame),
        ensures
            Self::spec_receive(connection, frame) == match P::spec_receive(connection.connection, frame) {
                Some(packet) => if packet.subrange(12, 16) == connection.destination_ip.spec_bytes()
                    && packet.subrange(16, 20) == connection.source_ip.spec_bytes() && packet[9]
                    == connection.config.protocol {
                    Some(ipv4_payload(packet))
                } else {
                    None::<Seq<u8>>
                },
                None => None::<Seq<u8>>,
            },
    {
        if let Some(packet) = P::spec_receive(connection.connection, frame) {
            connection.destination_ip.lemma_at_iff(packet, 12);
            connection.source_ip.lemma_at_iff(packet, 16);
        }
    }
}

impl<P: Listener + SupportedConfiguration<IP<P, F>>, F: Fn(Ipv4Address) -> P::Address> IP<P, F> {
    /// A listener hears a packet that the listener below hands it exactly
    /// when, by the packet's own bytes, it goes to the listener's address
    /// (bytes 16..20) and carries its protocol (byte 9); it then reports the
    /// address in bytes 12..16 as the sender and hands over the payload.
    pub proof fn lemma_next_hears_only_its_packets(listen_connection: IPListenConnection<P>, frame: Seq<u8>)
        requires
            <Self as Listener>::spec_next_receivable(listen_connection, frame),
        ensures
            <Self as Listener>::spec_next(listen_connection, frame) == match P::spec_next(
                listen_connection.inner_connection,
                frame,
            ) {
                Some((sender, packet)) => if packet.subrange(16, 20)
                    == listen_connection.source_address.spec_bytes() && packet[9]
                    == listen_connection.config.protocol {
                    Some((Ipv4Address(packet[12], packet[13], packet[14], packet[15]), ipv4_payload(packet)))
                } else {
                    None::<(Ipv4Address, Seq<u8>)>
                },
                None => None::<(Ipv4Address, Seq<u8>)>,
            },
    {
        if let Some((sender, packet)) = P::spec_next(listen_connection.inner_connection, frame) {
            listen_connection.source_address.lemma_at_iff(packet, 16);
        }
    }
}

/// Over the link layer, the network layer sends at most 65515 bytes of data;
/// what one end sends its peer receives exactly, and a listener where it
/// sends hears exactly that data from its address: the link's trailer is removed.
pub proof fn lemma_round_trip_over_ether<F: Fn(Ipv4Address) -> MacAddress>(
    a: IPConnection<Ether>,
    b: IPConnection<Ether>,
    listener: IPListenConnection<Ether>,
    data: Seq<u8>,
)
    ensures
        IP::<Ether, F>::spec_hears(listener, a) && data.len() <= 65515 ==> IP::<Ether, F>::spec_next(
            listener,
            IP::<Ether, F>::spec_send(a, data),
        ) == Some((a.source_ip, data)),
        IP::<Ether, F>::spec_can_send(data.len()) <==> data.len() <= 65515,
        IP::<Ether, F>::spec_peers(a, b) && data.len() <= 65515 ==> IP::<Ether, F>::spec_receive(
            b,
            IP::<Ether, F>::spec_send(a, data),
        ) == Some(data),
{
    if IP::<Ether, F>::spec_peers(a, b) && data.len() <= 65515 {
        IP::<Ether, F>::lemma_send_receive(a, b, data);
        assert(data + zeros(0) == data);
    }
    if IP::<Ether, F>::spec_hears(listener, a) && data.len() <= 65515 {
        IP::<Ether, F>::lemma_send_next(listener, a, data);
        assert(data + zeros(0) == data);
    }
}

impl<P, F> SupportedConfiguration<IP<P, F>> for Ether {
    open spec fn spec_get_config() -> EtherConnectionConfig {
        EtherConnectionConfig { ether_type: ETHER_TYPE_IPV4 }
    }

    fn get_config() -> (config: EtherConnectionConfig) {
        EtherConnectionConfig { ether_type: ETHER_TYPE_IPV4 }
    }
}

} // verus!
