//! The link layer: Ethernet frames on a shared medium.
//!
//! A frame is the destination address, the source address, the ether type
//! (big-endian), the payload, and eight zero bytes after the payload.
use vstd::prelude::*;
use crate::address::MacAddress;
use crate::bytes::{bytes_from, push_bytes, push_u16, push_zeros, read_u16, tail, u16_at, u16_bytes, zeros, lemma_u16_at_iff, lemma_u16_round_trip};
use crate::protocol::{Listener, Protocol};

verus! {

/// Length of the frame header: two addresses and the ether type.
pub const ETHER_HEADER_LEN: usize = 14;

/// Zero bytes that follow the payload of every frame this layer sends.
pub const ETHER_TRAILER_LEN: usize = 8;

/// The ether type that marks an IPv4 payload.
pub const ETHER_TYPE_IPV4: u16 = 0x0800;

/// The configuration of a link-layer connection: which ether type it carries.
#[derive(Debug, Clone, Copy)]
pub struct EtherConnectionConfig {
    pub ether_type: u16,
}

/// A link-layer connection between two addresses.
pub struct EtherConnection {
    pub source_mac: MacAddress,
    pub destination_mac: MacAddress,
    pub config: EtherConnectionConfig,
}

/// A link-layer listener: frames of one ether type addressed to one address.
pub struct EtherListenConnection {
    pub source_address: MacAddress,
    pub config: EtherConnectionConfig,
}

/// The link layer.
pub struct Ether;

/// The frame from `source` to `destination` carrying `payload` with this ether type.
pub open spec fn ether_frame(
    destination: MacAddress,
    source: MacAddress,
    ether_type: u16,
    payload: Seq<u8>,
) -> Seq<u8> {
    destination.spec_bytes() + source.spec_bytes() + u16_bytes(ether_type) + payload + zeros(
        ETHER_TRAILER_LEN as nat,
    )
}

/// The destination address of a frame.
pub open spec fn frame_destination(frame: Seq<u8>) -> MacAddress {
    MacAddress::spec_at(frame, 0)
}

/// The source address of a frame.
pub open spec fn frame_source(frame: Seq<u8>) -> MacAddress {
    MacAddress::spec_at(frame, 6)
}

/// The ether type of a frame.
pub open spec fn frame_ether_type(frame: Seq<u8>) -> u16 {
    u16_at(frame, 12)
}

/// Everything after the header.
pub open spec fn frame_payload(frame: Seq<u8>) -> Seq<u8> {
    bytes_from(frame, ETHER_HEADER_LEN as int)
}

/// The header fields of a built frame read back as they were written, and
/// what follows the header is the payload and the trailer.
pub proof fn lemma_frame_fields(destination: MacAddress, source: MacAddress, ether_type: u16, payload: Seq<u8>)
    ensures
        ({
            let f = ether_frame(destination, source, ether_type, payload);
            &&& f.len() == payload.len() + 22
            &&& frame_destination(f) == destination
            &&& frame_source(f) == source
            &&& frame_ether_type(f) == ether_type
            &&& frame_payload(f) == payload + zeros(ETHER_TRAILER_LEN as nat)
        }),
{
    let f = ether_frame(destination, source, ether_type, payload);
    assert(f.subrange(0, 6) == destination.spec_bytes());
    assert(f.subrange(6, 12) == source.spec_bytes());
    assert(f.subrange(12, 14) == u16_bytes(ether_type));
    destination.lemma_round_trip(f, 0);
    source.lemma_round_trip(f, 6);
    lemma_u16_round_trip(ether_type, f, 12);
    assert(f.skip(14) == payload + zeros(ETHER_TRAILER_LEN as nat));
}

/// What a connection sends is, byte for byte: the peer's address, its own
/// address, its ether type (big-endian), the data, and eight zero bytes.
pub proof fn lemma_send_layout(connection: EtherConnection, data: Seq<u8>)
    ensures
        ({
            let frame = Ether::spec_send(connection, data);
            let t = connection.config.ether_type;
            &&& frame.len() == data.len() + 22
            &&& frame.subrange(0, 6) == connection.destination_mac.spec_bytes()
            &&& frame.subrange(6, 12) == connection.source_mac.spec_bytes()
            &&& frame.subrange(12, 14) == seq![(t / 256) as u8, (t % 256) as u8]
            &&& frame.subrange(14, 14 + data.len() as int) == data
            &&& frame.skip(14 + data.len() as int) == Seq::new(8, |i: int| 0u8)
        }),
{
    let frame = Ether::spec_send(connection, data);
    assert(frame.subrange(0, 6) =~= connection.destination_mac.spec_bytes());
    assert(frame.subrange(6, 12) =~= connection.source_mac.spec_bytes());
    assert(frame.subrange(12, 14) =~= u16_bytes(connection.config.ether_type));
    assert(frame.subrange(14, 14 + data.len() as int) =~= data);
    assert(frame.skip(14 + data.len() as int) =~= Seq::new(8, |i: int| 0u8));
}

/// A connection from `x` to `y` and one from `y` to `x`, with one
/// configuration, are the two ends of one conversation.
pub proof fn lemma_connections_are_peers(
    x: MacAddress,
    y: MacAddress,
    config: EtherConnectionConfig,
    a: EtherConnection,
    b: EtherConnection,
)
    requires
        Ether.spec_connects(x, y, config, a),
        Ether.spec_connects(y, x, config, b),
    ensures
        Ether::spec_peers(a, b),
        Ether::spec_peers(b, a),
{
}

/// A connection takes a frame exactly when, by the frame's own bytes, it
/// is addressed to the connection's address (bytes 0..6), comes from the
/// peer's address (bytes 6..12) and carries the connection's ether type
/// (bytes 12..14); it then delivers everything after the header. A frame
/// for another host, from another host, or of another type delivers nothing.
pub proof fn lemma_receive_takes_only_its_frames(connection: EtherConnection, frame: Seq<u8>)
    requires
        frame.len() >= ETHER_HEADER_LEN,
    ensures
        Ether::spec_receive(connection, frame) == if frame.subrange(0, 6)
            == connection.source_mac.spec_bytes() && frame.subrange(6, 12)
            == connection.destination_mac.spec_bytes() && frame.subrange(12, 14) == u16_bytes(
            connection.config.ether_type,
        ) {
            Some(frame.skip(14))
        } else {
            None::<Seq<u8>>
        },
{
    connection.source_mac.lemma_at_iff(frame, 0);
    connection.destination_mac.lemma_at_iff(frame, 6);
    lemma_u16_at_iff(frame, 12, connection.config.ether_type);
    assert(bytes_from(frame, 14) =~= frame.skip(14));
}

/// A listener hears a frame exactly when, by the frame's own bytes, it is
/// addressed to the listener's address (bytes 0..6) and carries the
/// listener's ether type (bytes 12..14); it then reports the address in
/// bytes 6..12 as the sender and hands over everything after the header.
/// A frame of another ether type, or for another host, yields nothing.
pub proof fn lemma_next_hears_only_its_frames(listen_connection: EtherListenConnection, frame: Seq<u8>)
    requires
        frame.len() >= ETHER_HEADER_LEN,
    ensures
        Ether::spec_next(listen_connection, frame) == if frame.subrange(0, 6)
            == listen_connection.source_address.spec_bytes() && frame.subrange(12, 14) == u16_bytes(
            listen_connection.config.ether_type,
        ) {
            Some((MacAddress(frame[6], frame[7], frame[8], frame[9], frame[10], frame[11]), frame.skip(14)))
        } else {
            None::<(MacAddress, Seq<u8>)>
        },
{
    listen_connection.source_address.lemma_at_iff(frame, 0);
    lemma_u16_at_iff(frame, 12, listen_connection.config.ether_type);
    assert(bytes_from(frame, 14) =~= frame.skip(14));
}

/// Builds the frame from `source` to `destination` carrying `payload`.
pub fn build_frame(destination: MacAddress, source: MacAddress, ether_type: u16, payload: &[u8]) -> (frame: Vec<u8>)
    ensures
        frame@ == ether_frame(destination, source, ether_type, payload@),
{
    let mut frame: Vec<u8> = Vec::new();
    destination.push_to(&mut frame);
    source.push_to(&mut frame);
    push_u16(&mut frame, ether_type);
    push_bytes(&mut frame, payload);
    push_zeros(&mut frame, ETHER_TRAILER_LEN);
    frame
}

impl Protocol for Ether {
    type Address = MacAddress;
    type Connection = EtherConnection;
    type ConnectionConfig = EtherConnectionConfig;

    open spec fn spec_can_connect(&self, source: MacAddress, destination: MacAddress) -> bool {
        true
    }

    open spec fn spec_connects(
        &self,
        source: MacAddress,
        destination: MacAddress,
        config: EtherConnectionConfig,
        connection: EtherConnection,
    ) -> bool {
        &&& connection.source_mac == source
        &&& connection.destination_mac == destination
        &&& connection.config == config
    }

    open spec fn spec_source(connection: EtherConnection) -> MacAddress {
        connection.source_mac
    }

    open spec fn spec_can_send(length: nat) -> bool {
        length + 22 <= usize::MAX
    }

    open spec fn spec_send(connection: EtherConnection, data: Seq<u8>) -> Seq<u8> {
        ether_frame(connection.destination_mac, connection.source_mac, connection.config.ether_type, data)
    }

    open spec fn spec_receivable(connection: EtherConnection, frame: Seq<u8>) -> bool {
        frame.len() >= ETHER_HEADER_LEN
    }

    open spec fn spec_receive(connection: EtherConnection, frame: Seq<u8>) -> Option<Seq<u8>> {
        if frame_source(frame) == connection.destination_mac && frame_destination(frame)
            == connection.source_mac && frame_ether_type(frame) == connection.config.ether_type {
            Some(frame_payload(frame))
        } else {
            None
        }
    }

    open spec fn spec_pending(connection: EtherConnection) -> Option<Seq<u8>> {
        None
    }

    open spec fn spec_drained(connection: EtherConnection) -> EtherConnection {
        connection
    }

    open spec fn spec_padding() -> nat {
        ETHER_TRAILER_LEN as nat
    }

    open spec fn spec_peers(a: EtherConnection, b: EtherConnection) -> bool {
        &&& a.source_mac == b.destination_mac
        &&& a.destination_mac == b.source_mac
        &&& a.config == b.config
    }

    fn connect(
        &self,
        source: MacAddress,
        destination: MacAddress,
        connection_config: EtherConnectionConfig,
    ) -> (connection: EtherConnection) {
        EtherConnection {
            source_mac: source,
            destination_mac: destination,
            config: connection_config,
        }
    }

    fn can_send(length: usize) -> (ok: bool) {
        length <= usize::MAX - 22
    }

    fn send(connection: &EtherConnection, data: &[u8]) -> (frame: Vec<u8>) {
        build_frame(connection.destination_mac, connection.source_mac, connection.config.ether_type, data)
    }

    fn receivable(connection: &EtherConnection, frame: &[u8]) -> (ok: bool) {
        frame.len() >= ETHER_HEADER_LEN
    }

    fn receive(connection: &EtherConnection, frame: &[u8], buffer: &mut Vec<u8>) -> (delivered: bool)
        ensures
            delivered ==> frame@.subrange(0, 6) == connection.source_mac.spec_bytes() && frame@.subrange(6, 12)
                == connection.destination_mac.spec_bytes() && frame@.subrange(12, 14) == u16_bytes(
                connection.config.ether_type,
            ),
    {
        proof {
            lemma_receive_takes_only_its_frames(*connection, frame@);
        }
        let source = MacAddress::read(frame, 6);
        let destination = MacAddress::read(frame, 0);
        let ether_type = read_u16(frame, 12);
        if source == connection.destination_mac && destination == connection.source_mac && ether_type
            == connection.config.ether_type {
            let payload = tail(frame, ETHER_HEADER_LEN);
            push_bytes(buffer, payload.as_slice());
            true
        } else {
            false
        }
    }

    fn receive_pending(connection: &mut EtherConnection, buffer: &mut Vec<u8>) -> (delivered: bool) {
        false
    }

    proof fn lemma_send_receive(a: EtherConnection, b: EtherConnection, data: Seq<u8>) {
        lemma_frame_fields(a.destination_mac, a.source_mac, a.config.ether_type, data);
    }
}

impl Listener for Ether {
    type ListenConnection = EtherListenConnection;

    open spec fn spec_can_listen(&self, address: MacAddress) -> bool {
        true
    }

    open spec fn spec_listens(
        &self,
        address: MacAddress,
        config: EtherConnectionConfig,
        listen_connection: EtherListenConnection,
    ) -> bool {
        listen_connection.source_address == address && listen_connection.config == config
    }

    open spec fn spec_next_receivable(listen_connection: EtherListenConnection, frame: Seq<u8>) -> bool {
        frame.len() >= ETHER_HEADER_LEN
    }

    open spec fn spec_next(listen_connection: EtherListenConnection, frame: Seq<u8>) -> Option<
        (MacAddress, Seq<u8>),
    > {
        if frame_destination(frame) == listen_connection.source_address && frame_ether_type(frame)
            == listen_connection.config.ether_type {
            Some((frame_source(frame), frame_payload(frame)))
        } else {
            None
        }
    }

    open spec fn spec_hears(listen_connection: EtherListenConnection, connection: EtherConnection) -> bool {
        listen_connection.source_address == connection.destination_mac && listen_connection.config
            == connection.config
    }

    fn listen(&self, address: MacAddress, config: EtherConnectionConfig) -> (listen_connection:
        EtherListenConnection) {
        EtherListenConnection { source_address: address, config }
    }

    fn next_receivable(connection: &EtherListenConnection, frame: &[u8]) -> (ok: bool) {
        frame.len() >= ETHER_HEADER_LEN
    }

    fn next(connection: &EtherListenConnection, frame: &[u8], buffer: &mut Vec<u8>) -> (sender:
        Option<MacAddress>)
        ensures
            sender is Some ==> frame@.subrange(0, 6) == connection.source_address.spec_bytes()
                && frame@.subrange(12, 14) == u16_bytes(connection.config.ether_type),
    {
        proof {
            lemma_next_hears_only_its_frames(*connection, frame@);
        }
        let source = MacAddress::read(frame, 6);
        let destination = MacAddress::read(frame, 0);
        let ether_type = read_u16(frame, 12);
        if destination == connection.source_address && ether_type == connection.config.ether_type {
            let payload = tail(frame, ETHER_HEADER_LEN);
            push_bytes(buffer, payload.as_slice());
            Some(source)
        } else {
            None
        }
    }

    proof fn lemma_send_next(listen_connection: EtherListenConnection, connection: EtherConnection, data: Seq<u8>) {
        lemma_frame_fields(connection.destination_mac, connection.source_mac, connection.config.ether_type, data);
    }
}

} // verus!
