//! The datagram transport: UDP over a network layer.
//!
//! A datagram is the source port, the destination port, the length (header
//! included), the checksum, each big-endian, and the payload.
use vstd::prelude::*;
use crate::address::{Ipv4Address, MacAddress};
use crate::ether::Ether;
use crate::bytes::{bytes_from, push_bytes, push_u16, read_u16, tail, u16_at, u16_bytes, with_u16_at, zeros, lemma_u16_at_iff, lemma_u16_round_trip};
use crate::ipv4::{IP, IPConnectionConfig, PROTOCOL_UDP};
use crate::protocol::{Accepted, Bind, Endpoint, Listener, Protocol, SupportedConfiguration};

verus! {

/// Length of the datagram header.
pub const UDP_HEADER_LEN: usize = 8;

/// The largest value of the length field.
pub const UDP_MAX_LEN: usize = 65535;

/// Names the checksum that `pnet_packet::udp::ipv4_checksum` computes of the
/// datagram whose bytes are `datagram`, sent from IPv4 address `source`
/// (four octets) to `destination`.
pub uninterp spec fn udp_ipv4_checksum(datagram: Seq<u8>, source: Seq<u8>, destination: Seq<u8>) -> u16;

/// Calls `pnet_packet::udp::ipv4_checksum` on the datagram whose bytes are
/// `datagram`, with the IPv4 addresses whose octets are `source` and
/// `destination`. The contract claims that the result is a function of those
/// values and that, as the source shows (the word at index 3 is skipped), the
/// checksum field (bytes 6 and 7) does not count: whatever it holds, the
/// result is the same. The arithmetic of the checksum is not stated. The
/// length is held to 65535 bytes, the most an IPv4 packet can carry; the sum
/// inside would overflow only near 131,000 bytes.
#[verifier::external_body]
fn udp_checksum_over_ipv4(datagram: &[u8], source: [u8; 4], destination: [u8; 4]) -> (checksum: u16)
    requires
        8 <= datagram.len() <= 65535,
    ensures
        checksum == udp_ipv4_checksum(datagram@, source@, destination@),
        forall|field: u16|
            #[trigger] udp_ipv4_checksum(with_u16_at(datagram@, 6, field), source@, destination@)
                == checksum,
{
    pnet_packet::udp::ipv4_checksum(
        &pnet_packet::udp::UdpPacket::new(datagram).unwrap(),
        &source.into(),
        &destination.into(),
    )
}

/// The checksum of a datagram carried by the network layer `P`.
pub trait UDPChecksum<P: Protocol> {
    spec fn spec_calculate_checksum(datagram: Seq<u8>, source: P::Address, destination: P::Address) -> u16;

    fn calculate_checksum(datagram: &[u8], source_address: P::Address, destination_address: P::Address) -> (checksum: u16)
        requires
            8 <= datagram.len() <= 65535,
        ensures
            checksum == Self::spec_calculate_checksum(datagram@, source_address, destination_address),
            forall|field: u16|
                #[trigger] Self::spec_calculate_checksum(
                    with_u16_at(datagram@, 6, field),
                    source_address,
                    destination_address,
                ) == checksum,
    ;
}

impl<
    P: Protocol + SupportedConfiguration<IP<P, F>>,
    F: Fn(Ipv4Address) -> P::Address,
    T,
> UDPChecksum<IP<P, F>> for UDP<T> {
    open spec fn spec_calculate_checksum(datagram: Seq<u8>, source: Ipv4Address, destination: Ipv4Address) -> u16 {
        udp_ipv4_checksum(datagram, source.spec_bytes(), destination.spec_bytes())
    }

    fn calculate_checksum(datagram: &[u8], source_address: Ipv4Address, destination_address: Ipv4Address) -> (checksum: u16) {
        udp_checksum_over_ipv4(datagram, source_address.octets(), destination_address.octets())
    }
}

/// A datagram conversation. `cached_payload` is the payload of the datagram
/// that opened it on the server side, delivered before any other.
pub struct UDPConnection<P: Protocol> {
    pub cached_payload: Option<Vec<u8>>,
    pub connection: P::Connection,
    pub source_port: u16,
    pub destination_port: u16,
    pub destination_address: P::Address,
    pub source_address: P::Address,
}

/// A port bound by a server, waiting for datagrams.
pub struct UDPServerConnection<P: Listener> {
    pub source_port: u16,
    pub source_address: P::Address,
    pub inner_connection: P::ListenConnection,
}

/// The datagram transport over the network layer `P`.
pub struct UDP<P> {
    pub inner_protocol: P,
}

/// The datagram with these ports, checksum and payload.
pub open spec fn udp_datagram(source_port: u16, destination_port: u16, checksum: u16, payload: Seq<u8>) -> Seq<u8> {
    u16_bytes(source_port) + u16_bytes(destination_port) + u16_bytes((payload.len() + 8) as u16)
        + u16_bytes(checksum) + payload
}

/// The source-port field.
pub open spec fn udp_source_port(datagram: Seq<u8>) -> u16 {
    u16_at(datagram, 0)
}

/// The destination-port field.
pub open spec fn udp_destination_port(datagram: Seq<u8>) -> u16 {
    u16_at(datagram, 2)
}

/// The length field.
pub open spec fn udp_length(datagram: Seq<u8>) -> u16 {
    u16_at(datagram, 4)
}

/// The checksum field.
pub open spec fn udp_checksum_field(datagram: Seq<u8>) -> u16 {
    u16_at(datagram, 6)
}

/// Everything after the header.
pub open spec fn udp_payload(datagram: Seq<u8>) -> Seq<u8> {
    bytes_from(datagram, UDP_HEADER_LEN as int)
}

/// The fields of a built datagram read back as they were written, whatever
/// bytes follow it, and what follows the header is the payload and those bytes.
pub proof fn lemma_datagram_fields(source_port: u16, destination_port: u16, checksum: u16, payload: Seq<u8>, rest: Seq<u8>)
    requires
        payload.len() + 8 <= UDP_MAX_LEN,
    ensures
        ({
            let d = udp_datagram(source_port, destination_port, checksum, payload) + rest;
            &&& udp_datagram(source_port, destination_port, checksum, payload).len() == payload.len() + 8
            &&& d.len() >= 8
            &&& udp_source_port(d) == source_port
            &&& udp_destination_port(d) == destination_port
            &&& udp_length(d) == payload.len() + 8
            &&& udp_payload(d) == payload + rest
        }),
{
    let d = udp_datagram(source_port, destination_port, checksum, payload) + rest;
    assert(d.subrange(0, 2) == u16_bytes(source_port));
    assert(d.subrange(2, 4) == u16_bytes(destination_port));
    assert(d.subrange(4, 6) == u16_bytes((payload.len() + 8) as u16));
    lemma_u16_round_trip(source_port, d, 0);
    lemma_u16_round_trip(destination_port, d, 2);
    lemma_u16_round_trip((payload.len() + 8) as u16, d, 4);
    if d.len() > 8 {
        assert(d.skip(8) == payload + rest);
    } else {
        assert(payload + rest =~= Seq::<u8>::empty());
    }
}

/// Builds the datagram with these ports, checksum and payload.
pub fn build_datagram(source_port: u16, destination_port: u16, checksum: u16, payload: &[u8]) -> (datagram: Vec<u8>)
    requires
        payload.len() + 8 <= UDP_MAX_LEN,
    ensures
        datagram@ == udp_datagram(source_port, destination_port, checksum, payload@),
{
    let mut datagram: Vec<u8> = Vec::new();
    push_u16(&mut datagram, source_port);
    push_u16(&mut datagram, destination_port);
    push_u16(&mut datagram, (payload.len() + 8) as u16);
    push_u16(&mut datagram, checksum);
    push_bytes(&mut datagram, payload);
    datagram
}

impl<P: Protocol + SupportedConfiguration<UDP<P>>> UDP<P> where UDP<P>: UDPChecksum<P> {
    /// The datagram that `connection` sends for `data`: checksummed over the
    /// datagram with a zero checksum field.
    pub open spec fn spec_datagram(connection: UDPConnection<P>, data: Seq<u8>) -> Seq<u8> {
        let unsummed = udp_datagram(connection.source_port, connection.destination_port, 0, data);
        udp_datagram(
            connection.source_port,
            connection.destination_port,
            <UDP<P> as UDPChecksum<P>>::spec_calculate_checksum(
                unsummed,
                connection.source_address,
                connection.destination_address,
            ),
            data,
        )
    }

    /// The datagram that `connection` sends for `data`. Its checksum field
    /// holds the checksum of the datagram as it is sent.
    pub fn datagram(connection: &UDPConnection<P>, data: &[u8]) -> (datagram: Vec<u8>)
        requires
            data.len() + 8 <= UDP_MAX_LEN,
        ensures
            datagram@ == Self::spec_datagram(*connection, data@),
            <UDP<P> as UDPChecksum<P>>::spec_calculate_checksum(
                datagram@,
                connection.source_address,
                connection.destination_address,
            ) == udp_checksum_field(datagram@),
    {
        let unsummed = build_datagram(connection.source_port, connection.destination_port, 0, data);
        let checksum = <UDP<P> as UDPChecksum<P>>::calculate_checksum(
            unsummed.as_slice(),
            connection.source_address,
            connection.destination_address,
        );
        let datagram = build_datagram(connection.source_port, connection.destination_port, checksum, data);
        proof {
            assert(with_u16_at(unsummed@, 6, checksum) == datagram@);
            assert(datagram@.subrange(6, 8) == u16_bytes(checksum));
            lemma_u16_round_trip(checksum, datagram@, 6);
        }
        datagram
    }
}

impl<P: Protocol + SupportedConfiguration<UDP<P>>> Protocol for UDP<P> where UDP<P>: UDPChecksum<P> {
    type Address = Endpoint<P::Address>;
    type Connection = UDPConnection<P>;
    type ConnectionConfig = ();

    open spec fn spec_can_connect(&self, source: Endpoint<P::Address>, destination: Endpoint<P::Address>) -> bool {
        self.inner_protocol.spec_can_connect(source.address, destination.address)
    }

    open spec fn spec_connects(
        &self,
        source: Endpoint<P::Address>,
        destination: Endpoint<P::Address>,
        config: (),
        connection: UDPConnection<P>,
    ) -> bool {
        &&& connection.cached_payload is None
        &&& connection.source_port == source.port
        &&& connection.destination_port == destination.port
        &&& connection.source_address == source.address
        &&& connection.destination_address == destination.address
        &&& self.inner_protocol.spec_connects(
            source.address,
            destination.address,
            <P as SupportedConfiguration<UDP<P>>>::spec_get_config(),
            connection.connection,
        )
    }

    open spec fn spec_source(connection: UDPConnection<P>) -> Endpoint<P::Address> {
        Endpoint { address: connection.source_address, port: connection.source_port }
    }

    open spec fn spec_can_send(length: nat) -> bool {
        length + 8 <= UDP_MAX_LEN && P::spec_can_send(length + 8)
    }

    open spec fn spec_send(connection: UDPConnection<P>, data: Seq<u8>) -> Seq<u8> {
        P::spec_send(connection.connection, Self::spec_datagram(connection, data))
    }

    open spec fn spec_receivable(connection: UDPConnection<P>, frame: Seq<u8>) -> bool {
        &&& P::spec_receivable(connection.connection, frame)
        &&& P::spec_receive(connection.connection, frame) matches Some(datagram) ==> datagram.len() >= 8
    }

    open spec fn spec_receive(connection: UDPConnection<P>, frame: Seq<u8>) -> Option<Seq<u8>> {
        match P::spec_receive(connection.connection, frame) {
            Some(datagram) => if udp_source_port(datagram) == connection.destination_port
                && udp_destination_port(datagram) == connection.source_port {
                Some(udp_payload(datagram))
            } else {
                None
            },
            None => None,
        }
    }

    open spec fn spec_pending(connection: UDPConnection<P>) -> Option<Seq<u8>> {
        match connection.cached_payload {
            Some(payload) => Some(payload@),
            None => None,
        }
    }

    open spec fn spec_drained(connection: UDPConnection<P>) -> UDPConnection<P> {
        UDPConnection { cached_payload: None, ..connection }
    }

    open spec fn spec_padding() -> nat {
        P::spec_padding()
    }

    open spec fn spec_peers(a: UDPConnection<P>, b: UDPConnection<P>) -> bool {
        &&& a.source_port == b.destination_port
        &&& a.destination_port == b.source_port
        &&& P::spec_peers(a.connection, b.connection)
    }

    fn connect(
        &self,
        source: Endpoint<P::Address>,
        destination: Endpoint<P::Address>,
        connection_config: (),
    ) -> (connection: UDPConnection<P>) {
        UDPConnection {
            connection: self.inner_protocol.connect(source.address, destination.address, P::get_config()),
            source_port: source.port,
            cached_payload: None,
            destination_port: destination.port,
            destination_address: destination.address,
            source_address: source.address,
        }
    }

    fn can_send(length: usize) -> (ok: bool) {
        length <= UDP_MAX_LEN - 8 && P::can_send(length + 8)
    }

    fn send(connection: &UDPConnection<P>, data: &[u8]) -> (frame: Vec<u8>)
        ensures
            <UDP<P> as UDPChecksum<P>>::spec_calculate_checksum(
                Self::spec_datagram(*connection, data@),
                connection.source_address,
                connection.destination_address,
            ) == udp_checksum_field(Self::spec_datagram(*connection, data@)),
    {
        let datagram = Self::datagram(connection, data);
        P::send(&connection.connection, datagram.as_slice())
    }

    fn receivable(connection: &UDPConnection<P>, frame: &[u8]) -> (ok: bool) {
        if !P::receivable(&connection.connection, frame) {
            return false;
        }
        let mut datagram: Vec<u8> = Vec::new();
        if P::receive(&connection.connection, frame, &mut datagram) {
            datagram.len() >= 8
        } else {
            true
        }
    }

    fn receive(connection: &UDPConnection<P>, frame: &[u8], buffer: &mut Vec<u8>) -> (delivered: bool)
        ensures
            delivered ==> (P::spec_receive(connection.connection, frame@) matches Some(datagram)
                && datagram.subrange(0, 2) == u16_bytes(connection.destination_port)
                && datagram.subrange(2, 4) == u16_bytes(connection.source_port)),
    {
        proof {
            Self::lemma_receive_takes_only_its_datagrams(*connection, frame@);
        }
        let mut datagram: Vec<u8> = Vec::new();
        if !P::receive(&connection.connection, frame, &mut datagram) {
            return false;
        }
        if read_u16(datagram.as_slice(), 0) == connection.destination_port && read_u16(datagram.as_slice(), 2)
            == connection.source_port {
            let payload = tail(datagram.as_slice(), UDP_HEADER_LEN);
            push_bytes(buffer, payload.as_slice());
            true
        } else {
            false
        }
    }

    fn receive_pending(connection: &mut UDPConnection<P>, buffer: &mut Vec<u8>) -> (delivered: bool) {
        match connection.cached_payload.take() {
            Some(payload) => {
                push_bytes(buffer, payload.as_slice());
                true
            },
            None => false,
        }
    }

    proof fn lemma_send_receive(a: UDPConnection<P>, b: UDPConnection<P>, data: Seq<u8>) {
        let datagram = Self::spec_datagram(a, data);
        let checksum = <UDP<P> as UDPChecksum<P>>::spec_calculate_checksum(
            udp_datagram(a.source_port, a.destination_port, 0, data),
            a.source_address,
            a.destination_address,
        );
        lemma_datagram_fields(a.source_port, a.destination_port, checksum, data, zeros(P::spec_padding()));
        P::lemma_send_receive(a.connection, b.connection, datagram);
    }
}

impl<P: Listener + SupportedConfiguration<UDP<P>>> UDP<P> where UDP<P>: UDPChecksum<P> {
    /// What a datagram that `frame` brings to the bound port opens, if it opens
    /// anything: the peer's port, the peer's address, and the payload that the
    /// new connection holds.
    pub open spec fn spec_next_opens(server: UDPServerConnection<P>, frame: Seq<u8>) -> Option<
        (u16, P::Address, Seq<u8>),
    > {
        match P::spec_next(server.inner_connection, frame) {
            Some((sender, datagram)) => if udp_destination_port(datagram) == server.source_port {
                Some((udp_source_port(datagram), sender, udp_payload(datagram)))
            } else {
                None
            },
            None => None,
        }
    }

    /// A datagram that the listener below hands the server opens a connection
    /// exactly when, by the datagram's own bytes, its destination port (bytes
    /// 2..4) is the bound port; the connection then leads back to the port in
    /// bytes 0..2 at the sender's address and holds everything after the
    /// header. A datagram to any other port opens nothing.
    pub proof fn lemma_opens_only_on_its_port(server: UDPServerConnection<P>, frame: Seq<u8>)
        requires
            P::spec_next_receivable(server.inner_connection, frame),
            P::spec_next(server.inner_connection, frame) matches Some((sender, datagram))
                ==> datagram.len() >= 8,
        ensures
            Self::spec_next_opens(server, frame) == match P::spec_next(server.inner_connection, frame) {
                Some((sender, datagram)) => if datagram.subrange(2, 4) == u16_bytes(server.source_port) {
                    Some(((datagram[0] * 256 + datagram[1]) as u16, sender, datagram.skip(8)))
                } else {
                    None::<(u16, P::Address, Seq<u8>)>
                },
                None => None::<(u16, P::Address, Seq<u8>)>,
            },
    {
        if let Some((sender, datagram)) = P::spec_next(server.inner_connection, frame) {
            lemma_u16_at_iff(datagram, 2, server.source_port);
            assert(bytes_from(datagram, 8) =~= datagram.skip(8));
        }
    }

    /// A server bound where a client sends accepts the client's first
    /// datagram: the connection it opens leads back to the client's port and
    /// address and holds the data (followed by the padding of the layers below).
    pub proof fn lemma_first_datagram_opens(
        server: UDPServerConnection<P>,
        client: UDPConnection<P>,
        data: Seq<u8>,
    )
        requires
            P::spec_hears(server.inner_connection, client.connection),
            server.source_port == client.destination_port,
            Self::spec_can_send(data.len()),
        ensures
            P::spec_next_receivable(server.inner_connection, Self::spec_send(client, data)),
            Self::spec_next_opens(server, Self::spec_send(client, data)) == Some(
                (client.source_port, P::spec_source(client.connection), data + zeros(P::spec_padding())),
            ),
    {
        let datagram = Self::spec_datagram(client, data);
        let checksum = <UDP<P> as UDPChecksum<P>>::spec_calculate_checksum(
            udp_datagram(client.source_port, client.destination_port, 0, data),
            client.source_address,
            client.destination_address,
        );
        lemma_datagram_fields(client.source_port, client.destination_port, checksum, data, zeros(P::spec_padding()));
        P::lemma_send_next(server.inner_connection, client.connection, datagram);
    }
}

impl<P: Protocol + SupportedConfiguration<UDP<P>>> UDP<P> where UDP<P>: UDPChecksum<P> {
    /// A connection takes a datagram that the layer below delivers exactly
    /// when, by the datagram's own bytes, it comes from the peer's port (bytes
    /// 0..2) and goes to the connection's port (bytes 2..4); it then delivers
    /// everything after the header. A datagram between any other ports
    /// delivers nothing.
    pub proof fn lemma_receive_takes_only_its_datagrams(connection: UDPConnection<P>, frame: Seq<u8>)
        requires
            Self::spec_receivable(connection, frame),
        ensures
            Self::spec_receive(connection, frame) == match P::spec_receive(connection.connection, frame) {
                Some(datagram) => if datagram.subrange(0, 2) == u16_bytes(connection.destination_port)
                    && datagram.subrange(2, 4) == u16_bytes(connection.source_port) {
                    Some(datagram.skip(8))
                } else {
                    None::<Seq<u8>>
                },
                None => None::<Seq<u8>>,
            },
    {
        if let Some(datagram) = P::spec_receive(connection.connection, frame) {
            lemma_u16_at_iff(datagram, 0, connection.destination_port);
            lemma_u16_at_iff(datagram, 2, connection.source_port);
            assert(bytes_from(datagram, 8) =~= datagram.skip(8));
        }
    }

    /// What a connection sends is what the layer below sends for one
    /// datagram: the connection's port, the peer's port, the length (header
    /// and data), each big-endian, the checksum of the datagram taken with its
    /// checksum field zero, then the data.
    pub proof fn lemma_send_layout(connection: UDPConnection<P>, data: Seq<u8>)
        requires
            data.len() + 8 <= UDP_MAX_LEN,
        ensures
            exists|datagram: Seq<u8>|
                #![trigger P::spec_send(connection.connection, datagram)]
                {
                    let length = (data.len() + 8) as int;
                    &&& Self::spec_send(connection, data) == P::spec_send(connection.connection, datagram)
                    &&& datagram.len() == length
                    &&& datagram.subrange(0, 2) == seq![
                        (connection.source_port / 256) as u8,
                        (connection.source_port % 256) as u8,
                    ]
                    &&& datagram.subrange(2, 4) == seq![
                        (connection.destination_port / 256) as u8,
                        (connection.destination_port % 256) as u8,
                    ]
                    &&& datagram.subrange(4, 6) == seq![(length / 256) as u8, (length % 256) as u8]
                    &&& datagram.subrange(6, 8) == u16_bytes(
                        <UDP<P> as UDPChecksum<P>>::spec_calculate_checksum(
                            datagram.subrange(0, 6) + seq![0u8, 0u8] + datagram.skip(8),
                            connection.source_address,
                            connection.destination_address,
                        ),
                    )
                    &&& datagram.skip(8) == data
                },
    {
        let datagram = Self::spec_datagram(connection, data);
        let unsummed = udp_datagram(connection.source_port, connection.destination_port, 0, data);
        assert(datagram.subrange(0, 6) + seq![0u8, 0u8] + datagram.skip(8) =~= unsummed);
        assert(datagram.subrange(0, 2) =~= u16_bytes(connection.source_port));
        assert(datagram.subrange(2, 4) =~= u16_bytes(connection.destination_port));
        assert(datagram.subrange(4, 6) =~= u16_bytes((data.len() + 8) as u16));
        assert(datagram.subrange(6, 8) =~= u16_bytes(
            <UDP<P> as UDPChecksum<P>>::spec_calculate_checksum(
                unsummed,
                connection.source_address,
                connection.destination_address,
            ),
        ));
        assert(datagram.skip(8) =~= data);
        assert(Self::spec_send(connection, data) == P::spec_send(connection.connection, datagram));
    }

    /// Once delivered, the held payload is gone for good: a drained
    /// connection holds nothing, and draining it again changes nothing.
    pub proof fn lemma_drained_stays_empty(connection: UDPConnection<P>)
        ensures
            Self::spec_pending(Self::spec_drained(connection)) is None,
            Self::spec_drained(Self::spec_drained(connection)) == Self::spec_drained(connection),
    {
    }
}

/// Over the network layer on the link layer, the datagram transport sends at
/// most 65507 bytes of data, and what one end sends its peer receives exactly.
pub proof fn lemma_round_trip_over_ip<F: Fn(Ipv4Address) -> MacAddress>(
    a: UDPConnection<IP<Ether, F>>,
    b: UDPConnection<IP<Ether, F>>,
    server: UDPServerConnection<IP<Ether, F>>,
    data: Seq<u8>,
)
    ensures
        IP::<Ether, F>::spec_hears(server.inner_connection, a.connection) && server.source_port
            == a.destination_port && data.len() <= 65507 ==> UDP::<IP<Ether, F>>::spec_next_opens(
            server,
            UDP::<IP<Ether, F>>::spec_send(a, data),
        ) == Some((a.source_port, a.connection.source_ip, data)),
        UDP::<IP<Ether, F>>::spec_can_send(data.len()) <==> data.len() <= 65507,
        UDP::<IP<Ether, F>>::spec_peers(a, b) && data.len() <= 65507
            ==> UDP::<IP<Ether, F>>::spec_receive(
            b,
            UDP::<IP<Ether, F>>::spec_send(a, data),
        ) == Some(data),
{
    if UDP::<IP<Ether, F>>::spec_peers(a, b) && data.len() <= 65507 {
        UDP::<IP<Ether, F>>::lemma_send_receive(a, b, data);
        assert(data + zeros(0) == data);
    }
    if IP::<Ether, F>::spec_hears(server.inner_connection, a.connection) && server.source_port
        == a.destination_port && data.len() <= 65507 {
        UDP::<IP<Ether, F>>::lemma_first_datagram_opens(server, a, data);
        assert(data + zeros(0) == data);
    }
}

impl<P: Listener + SupportedConfiguration<UDP<P>>> Bind for UDP<P> where UDP<P>: UDPChecksum<P> {
    type ServerConnection = UDPServerConnection<P>;

    open spec fn spec_can_bind(&self, address: Endpoint<P::Address>) -> bool {
        self.inner_protocol.spec_can_listen(address.address)
    }

    open spec fn spec_binds(&self, address: Endpoint<P::Address>, server: UDPServerConnection<P>) -> bool {
        &&& server.source_port == address.port
        &&& server.source_address == address.address
        &&& self.inner_protocol.spec_listens(
            address.address,
            <P as SupportedConfiguration<UDP<P>>>::spec_get_config(),
            server.inner_connection,
        )
    }

    open spec fn spec_next_well_formed(&self, server: UDPServerConnection<P>, frame: Seq<u8>) -> bool {
        &&& P::spec_next_receivable(server.inner_connection, frame)
        &&& P::spec_next(server.inner_connection, frame) matches Some((sender, datagram))
            ==> datagram.len() >= 8
    }

    open spec fn spec_next_ready(&self, server: UDPServerConnection<P>, frame: Seq<u8>) -> bool {
        &&& self.spec_next_well_formed(server, frame)
        &&& Self::spec_next_opens(server, frame) matches Some((port, sender, payload))
            ==> self.inner_protocol.spec_can_connect(server.source_address, sender)
    }

    fn bind(&self, address: Endpoint<P::Address>) -> (server: UDPServerConnection<P>) {
        UDPServerConnection {
            source_port: address.port,
            source_address: address.address,
            inner_connection: self.inner_protocol.listen(address.address, P::get_config()),
        }
    }

    fn next_well_formed(&self, server: &UDPServerConnection<P>, frame: &[u8]) -> (ok: bool) {
        if !P::next_receivable(&server.inner_connection, frame) {
            return false;
        }
        let mut datagram: Vec<u8> = Vec::new();
        match P::next(&server.inner_connection, frame, &mut datagram) {
            Some(_) => datagram.len() >= 8,
            None => true,
        }
    }

    fn next(&self, server: &mut UDPServerConnection<P>, frame: &[u8]) -> (step: Accepted<
        UDPConnection<P>,
    >)
        ensures
            *final(server) == *old(server),
            match Self::spec_next_opens(*old(server), frame@) {
                Some((port, sender, payload)) => step matches Accepted::Connected(connection) && {
                    &&& connection.cached_payload matches Some(cached) && cached@ == payload
                    &&& connection.source_port == old(server).source_port
                    &&& connection.source_address == old(server).source_address
                    &&& connection.destination_port == port
                    &&& connection.destination_address == sender
                    &&& self.inner_protocol.spec_connects(
                        old(server).source_address,
                        sender,
                        <P as SupportedConfiguration<UDP<P>>>::spec_get_config(),
                        connection.connection,
                    )
                },
                None => step is Waiting,
            },
            step is Connected ==> (P::spec_next(old(server).inner_connection, frame@) matches Some(
                (sender, datagram),
            ) && datagram.subrange(2, 4) == u16_bytes(old(server).source_port)),
    {
        let mut datagram: Vec<u8> = Vec::new();
        match P::next(&server.inner_connection, frame, &mut datagram) {
            None => Accepted::Waiting,
            Some(sender_address) => {
                if read_u16(datagram.as_slice(), 2) == server.source_port {
                    proof {
                        lemma_u16_at_iff(datagram@, 2, server.source_port);
                    }
                    Accepted::Connected(
                        UDPConnection {
                            connection: self.inner_protocol.connect(
                                server.source_address,
                                sender_address,
                                P::get_config(),
                            ),
                            cached_payload: Some(tail(datagram.as_slice(), UDP_HEADER_LEN)),
                            source_port: server.source_port,
                            destination_port: read_u16(datagram.as_slice(), 0),
                            destination_address: sender_address,
                            source_address: server.source_address,
                        },
                    )
                } else {
                    Accepted::Waiting
                }
            },
        }
    }
}

impl<
    P: Protocol + SupportedConfiguration<IP<P, F>>,
    F: Fn(Ipv4Address) -> P::Address,
    T,
> SupportedConfiguration<UDP<T>> for IP<P, F> {
    open spec fn spec_get_config() -> IPConnectionConfig {
        IPConnectionConfig { protocol: PROTOCOL_UDP }
    }

    fn get_config() -> (config: IPConnectionConfig) {
        IPConnectionConfig { protocol: PROTOCOL_UDP }
    }
}

} // verus!
