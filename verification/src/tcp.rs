//! The stream transport: TCP over a network layer. Of TCP this layer has the
//! three-way handshake that opens a connection; moving data over an open
//! connection is not implemented.
//!
//! A segment is the source port, the destination port, the sequence number,
//! the acknowledgement number (all big-endian), a byte holding the data
//! offset, the flags byte, and six zero bytes (window, checksum, urgent pointer).
use vstd::prelude::*;
use crate::address::Ipv4Address;
use crate::bytes::{push_u16, push_u32, push_zeros, read_u16, read_u32, u16_at, u16_bytes, with_u16_at, u32_at, u32_bytes, zeros, lemma_u16_at_iff, lemma_u32_at_iff, lemma_u16_round_trip, lemma_u32_round_trip};
use crate::ipv4::{IP, IPConnectionConfig, PROTOCOL_TCP};
use crate::protocol::{Accepted, Bind, Endpoint, Listener, Protocol, SupportedConfiguration};

verus! {

/// Length of the segments this layer writes, and the least it reads.
pub const TCP_HEADER_LEN: usize = 20;

/// The SYN flag.
pub const TCP_SYN: u8 = 0b10;

/// The ACK flag.
pub const TCP_ACK: u8 = 0b10000;

/// The flags of the server's reply to a SYN: SYN and ACK.
pub const TCP_SYN_ACK: u8 = 0b10010;

/// Names the checksum that `pnet_packet::tcp::ipv4_checksum` computes of the
/// segment whose bytes are `segment`, sent from IPv4 address `source` (four
/// octets) to `destination`.
pub uninterp spec fn tcp_ipv4_checksum(segment: Seq<u8>, source: Seq<u8>, destination: Seq<u8>) -> u16;

/// Calls `pnet_packet::tcp::ipv4_checksum` on the segment whose bytes are
/// `segment`, with the IPv4 addresses whose octets are `source` and
/// `destination`. The contract claims that the result is a function of those
/// values and that, as the source shows (the word at index 8 is skipped), the
/// checksum field (bytes 16 and 17) does not count: whatever it holds, the
/// result is the same. The arithmetic of the checksum is not stated. The
/// length is held to 65535 bytes, the most an IPv4 packet can carry; the sum
/// inside would overflow only near 131,000 bytes.
#[verifier::external_body]
fn tcp_checksum_over_ipv4(segment: &[u8], source: [u8; 4], destination: [u8; 4]) -> (checksum: u16)
    requires
        20 <= segment.len() <= 65535,
    ensures
        checksum == tcp_ipv4_checksum(segment@, source@, destination@),
        forall|field: u16|
            #[trigger] tcp_ipv4_checksum(with_u16_at(segment@, 16, field), source@, destination@)
                == checksum,
{
    pnet_packet::tcp::ipv4_checksum(
        &pnet_packet::tcp::TcpPacket::new(segment).unwrap(),
        &source.into(),
        &destination.into(),
    )
}

/// The checksum of a segment carried by the network layer `P`.
pub trait TCPChecksum<P: Protocol> {
    spec fn spec_calculate_checksum(segment: Seq<u8>, source: P::Address, destination: P::Address) -> u16;

    fn calculate_checksum(segment: &[u8], source_address: P::Address, destination_address: P::Address) -> (checksum: u16)
        requires
            20 <= segment.len() <= 65535,
        ensures
            checksum == Self::spec_calculate_checksum(segment@, source_address, destination_address),
            forall|field: u16|
                #[trigger] Self::spec_calculate_checksum(
                    with_u16_at(segment@, 16, field),
                    source_address,
                    destination_address,
                ) == checksum,
    ;
}

impl<
    P: Protocol + SupportedConfiguration<IP<P, F>>,
    F: Fn(Ipv4Address) -> P::Address,
    T,
> TCPChecksum<IP<P, F>> for TCP<T> {
    open spec fn spec_calculate_checksum(segment: Seq<u8>, source: Ipv4Address, destination: Ipv4Address) -> u16 {
        tcp_ipv4_checksum(segment, source.spec_bytes(), destination.spec_bytes())
    }

    fn calculate_checksum(segment: &[u8], source_address: Ipv4Address, destination_address: Ipv4Address) -> (checksum: u16) {
        tcp_checksum_over_ipv4(segment, source_address.octets(), destination_address.octets())
    }
}

/// Where a connection stands in the handshake that opens it.
#[derive(Debug, Clone, Copy, PartialEq, Eq, Structural)]
pub enum TcpState {
    /// The connection is made; its SYN has yet to go out (see `syn_frame`).
    SynPending,
    /// The SYN has gone out; the SYN-ACK is awaited.
    SynSent,
    /// The handshake is over.
    Established,
}

/// A stream connection.
pub struct TCPConnection<P: Protocol> {
    pub connection: P::Connection,
    pub source_port: u16,
    pub destination_port: u16,
    pub destination_address: P::Address,
    pub source_address: P::Address,
    pub state: TcpState,
}

/// Where a server stands in the handshake that opens a connection to it.
pub enum TcpHandshake<C, A> {
    /// Waiting for a SYN.
    Listening,
    /// A SYN came and the SYN-ACK went out over `connection`; the ACK is awaited.
    SynReceived { connection: C, sender_port: u16, sender_address: A },
}

/// A port bound by a server, waiting for connections.
pub struct TCPServerConnection<P: Listener> {
    pub source_port: u16,
    pub source_address: P::Address,
    pub inner_connection: P::ListenConnection,
    pub handshake: TcpHandshake<P::Connection, P::Address>,
}

/// The stream transport over the network layer `P`.
pub struct TCP<P> {
    pub inner_protocol: P,
}

/// The segment with these ports, numbers and flags and nothing else set.
pub open spec fn tcp_segment(source_port: u16, destination_port: u16, sequence: u32, acknowledgement: u32, flags: u8) -> Seq<u8> {
    u16_bytes(source_port) + u16_bytes(destination_port) + u32_bytes(sequence) + u32_bytes(
        acknowledgement,
    ) + seq![0u8, flags] + zeros(6)
}

/// The source-port field.
pub open spec fn tcp_source_port(segment: Seq<u8>) -> u16 {
    u16_at(segment, 0)
}

/// The destination-port field.
pub open spec fn tcp_destination_port(segment: Seq<u8>) -> u16 {
    u16_at(segment, 2)
}

/// The sequence-number field.
pub open spec fn tcp_sequence(segment: Seq<u8>) -> u32 {
    u32_at(segment, 4)
}

/// The acknowledgement-number field.
pub open spec fn tcp_acknowledgement(segment: Seq<u8>) -> u32 {
    u32_at(segment, 8)
}

/// The flags byte.
pub open spec fn tcp_flags(segment: Seq<u8>) -> u8 {
    segment[13]
}

/// The SYN flag is set.
pub open spec fn is_syn(segment: Seq<u8>) -> bool {
    tcp_flags(segment) & TCP_SYN != 0
}

/// The ACK flag is set.
pub open spec fn is_ack(segment: Seq<u8>) -> bool {
    tcp_flags(segment) & TCP_ACK != 0
}

/// The fields of a built segment read back as they were written, whatever bytes follow it.
pub proof fn lemma_segment_fields(source_port: u16, destination_port: u16, sequence: u32, acknowledgement: u32, flags: u8, rest: Seq<u8>)
    ensures
        ({
            let s = tcp_segment(source_port, destination_port, sequence, acknowledgement, flags) + rest;
            &&& tcp_segment(source_port, destination_port, sequence, acknowledgement, flags).len() == 20
            &&& s.len() >= 20
            &&& tcp_source_port(s) == source_port
            &&& tcp_destination_port(s) == destination_port
            &&& tcp_sequence(s) == sequence
            &&& tcp_acknowledgement(s) == acknowledgement
            &&& tcp_flags(s) == flags
        }),
{
    let s = tcp_segment(source_port, destination_port, sequence, acknowledgement, flags) + rest;
    assert(s.subrange(0, 2) == u16_bytes(source_port));
    assert(s.subrange(2, 4) == u16_bytes(destination_port));
    assert(s.subrange(4, 8) == u32_bytes(sequence));
    assert(s.subrange(8, 12) == u32_bytes(acknowledgement));
    lemma_u16_round_trip(source_port, s, 0);
    lemma_u16_round_trip(destination_port, s, 2);
    lemma_u32_round_trip(sequence, s, 4);
    lemma_u32_round_trip(acknowledgement, s, 8);
    assert(s[13] == flags);
}

/// Builds the segment with these ports, numbers and flags.
pub fn build_segment(source_port: u16, destination_port: u16, sequence: u32, acknowledgement: u32, flags: u8) -> (segment: Vec<u8>)
    ensures
        segment@ == tcp_segment(source_port, destination_port, sequence, acknowledgement, flags),
{
    let mut segment: Vec<u8> = Vec::new();
    push_u16(&mut segment, source_port);
    push_u16(&mut segment, destination_port);
    push_u32(&mut segment, sequence);
    push_u32(&mut segment, acknowledgement);
    segment.push(0u8);
    segment.push(flags);
    push_zeros(&mut segment, 6);
    segment
}

/// A reply of `length` bytes: the segment with these ports, numbers and
/// flags, then zeros up to `length`.
pub open spec fn tcp_reply(length: nat, source_port: u16, destination_port: u16, sequence: u32, acknowledgement: u32, flags: u8) -> Seq<u8> {
    tcp_segment(source_port, destination_port, sequence, acknowledgement, flags) + zeros(
        (length - 20) as nat,
    )
}

/// Builds a reply of `length` bytes: the segment with these ports, numbers
/// and flags, then zeros.
pub fn build_reply(length: usize, source_port: u16, destination_port: u16, sequence: u32, acknowledgement: u32, flags: u8) -> (segment: Vec<u8>)
    requires
        length >= 20,
    ensures
        segment@ == tcp_reply(length as nat, source_port, destination_port, sequence, acknowledgement, flags),
        segment@.len() == length,
{
    let mut segment = build_segment(source_port, destination_port, sequence, acknowledgement, flags);
    push_zeros(&mut segment, length - 20);
    segment
}

/// Whether the flags byte has the SYN flag.
pub fn has_syn(flags: u8) -> (b: bool)
    ensures
        b == (flags & TCP_SYN != 0),
{
    flags & TCP_SYN != 0
}

/// Whether the flags byte has the ACK flag.
pub fn has_ack(flags: u8) -> (b: bool)
    ensures
        b == (flags & TCP_ACK != 0),
{
    flags & TCP_ACK != 0
}

impl<P: Protocol + SupportedConfiguration<TCP<P>>> Protocol for TCP<P> where TCP<P>: TCPChecksum<P> {
    type Address = Endpoint<P::Address>;
    type Connection = TCPConnection<P>;
    type ConnectionConfig = ();

    open spec fn spec_can_connect(&self, source: Endpoint<P::Address>, destination: Endpoint<P::Address>) -> bool {
        self.inner_protocol.spec_can_connect(source.address, destination.address)
    }

    /// The connection starts with its SYN to send (see `syn_frame`).
    open spec fn spec_connects(
        &self,
        source: Endpoint<P::Address>,
        destination: Endpoint<P::Address>,
        config: (),
        connection: TCPConnection<P>,
    ) -> bool {
        &&& connection.state == TcpState::SynPending
        &&& connection.source_port == source.port
        &&& connection.destination_port == destination.port
        &&& connection.source_address == source.address
        &&& connection.destination_address == destination.address
        &&& self.inner_protocol.spec_connects(
            source.address,
            destination.address,
            <P as SupportedConfiguration<TCP<P>>>::spec_get_config(),
            connection.connection,
        )
    }

    open spec fn spec_source(connection: TCPConnection<P>) -> Endpoint<P::Address> {
        Endpoint { address: connection.source_address, port: connection.source_port }
    }

    /// Sending data is not implemented: no length can be sent.
    open spec fn spec_can_send(length: nat) -> bool {
        false
    }

    /// No frame is described, as nothing can be sent.
    open spec fn spec_send(connection: TCPConnection<P>, data: Seq<u8>) -> Seq<u8> {
        Seq::empty()
    }

    /// Receiving data is not implemented: no frame can be received.
    open spec fn spec_receivable(connection: TCPConnection<P>, frame: Seq<u8>) -> bool {
        false
    }

    open spec fn spec_receive(connection: TCPConnection<P>, frame: Seq<u8>) -> Option<Seq<u8>> {
        None
    }

    open spec fn spec_pending(connection: TCPConnection<P>) -> Option<Seq<u8>> {
        None
    }

    open spec fn spec_drained(connection: TCPConnection<P>) -> TCPConnection<P> {
        connection
    }

    open spec fn spec_padding() -> nat {
        0
    }

    open spec fn spec_peers(a: TCPConnection<P>, b: TCPConnection<P>) -> bool {
        &&& a.source_port == b.destination_port
        &&& a.destination_port == b.source_port
        &&& P::spec_peers(a.connection, b.connection)
    }

    fn connect(
        &self,
        source: Endpoint<P::Address>,
        destination: Endpoint<P::Address>,
        connection_config: (),
    ) -> (connection: TCPConnection<P>) {
        TCPConnection {
            connection: self.inner_protocol.connect(source.address, destination.address, P::get_config()),
            source_port: source.port,
            destination_port: destination.port,
            destination_address: destination.address,
            source_address: source.address,
            state: TcpState::SynPending,
        }
    }

    fn can_send(length: usize) -> (ok: bool) {
        false
    }

    fn send(connection: &TCPConnection<P>, data: &[u8]) -> (frame: Vec<u8>) {
        Vec::new()
    }

    fn receivable(connection: &TCPConnection<P>, frame: &[u8]) -> (ok: bool) {
        false
    }

    fn receive(connection: &TCPConnection<P>, frame: &[u8], buffer: &mut Vec<u8>) -> (delivered: bool) {
        false
    }

    fn receive_pending(connection: &mut TCPConnection<P>, buffer: &mut Vec<u8>) -> (delivered: bool) {
        false
    }

    proof fn lemma_send_receive(a: TCPConnection<P>, b: TCPConnection<P>, data: Seq<u8>) {
    }
}

impl<P: Protocol + SupportedConfiguration<TCP<P>>> TCP<P> where TCP<P>: TCPChecksum<P> {
    /// The frame that carries the client's SYN.
    pub open spec fn spec_syn_frame(connection: TCPConnection<P>) -> Seq<u8> {
        P::spec_send(
            connection.connection,
            tcp_segment(connection.source_port, connection.destination_port, 0, 0, TCP_SYN),
        )
    }

    /// The frames that `complete` can look at: when the connection below
    /// delivers a segment, it is a whole header with SYN and ACK set whose
    /// sequence number can be acknowledged, and an ACK of its length can be sent.
    pub open spec fn spec_syn_ack_acceptable(connection: TCPConnection<P>, frame: Seq<u8>) -> bool {
        &&& P::spec_receivable(connection.connection, frame)
        &&& P::spec_receive(connection.connection, frame) matches Some(segment) ==> {
            &&& segment.len() >= 20
            &&& is_syn(segment)
            &&& is_ack(segment)
            &&& tcp_sequence(segment) < u32::MAX
            &&& P::spec_can_send(segment.len())
        }
    }

    /// The frame that carries the client's ACK of the SYN-ACK `syn_ack`: as
    /// long as the SYN-ACK, zero but for the ports, the ACK flag and the
    /// acknowledgement of the server's sequence number.
    pub open spec fn spec_ack_frame(connection: TCPConnection<P>, syn_ack: Seq<u8>) -> Seq<u8> {
        P::spec_send(
            connection.connection,
            tcp_reply(
                syn_ack.len(),
                connection.source_port,
                connection.destination_port,
                0,
                (tcp_sequence(syn_ack) + 1) as u32,
                TCP_ACK,
            ),
        )
    }

    /// The frame that opens the handshake: a SYN with sequence number 0. The
    /// connection records that its SYN has gone out.
    pub fn syn_frame(connection: &mut TCPConnection<P>) -> (frame: Vec<u8>)
        requires
            old(connection).state == TcpState::SynPending,
            P::spec_can_send(20),
        ensures
            frame@ == Self::spec_syn_frame(*old(connection)),
            *final(connection) == (TCPConnection { state: TcpState::SynSent, ..*old(connection) }),
    {
        let segment = build_segment(connection.source_port, connection.destination_port, 0, 0, TCP_SYN);
        let frame = P::send(&connection.connection, segment.as_slice());
        connection.state = TcpState::SynSent;
        frame
    }

    /// The SYN is what the connection below sends for twenty bytes: the
    /// connection's port, the peer's port (big-endian), sequence and
    /// acknowledgement numbers 0, a zero byte, the SYN flag alone, six zeros.
    pub proof fn lemma_syn_layout(connection: TCPConnection<P>)
        ensures
            ({
                let s = connection.source_port;
                let d = connection.destination_port;
                Self::spec_syn_frame(connection) == P::spec_send(
                    connection.connection,
                    seq![
                        (s / 256) as u8,
                        (s % 256) as u8,
                        (d / 256) as u8,
                        (d % 256) as u8,
                        0u8,
                        0u8,
                        0u8,
                        0u8,
                        0u8,
                        0u8,
                        0u8,
                        0u8,
                        0u8,
                        2u8,
                        0u8,
                        0u8,
                        0u8,
                        0u8,
                        0u8,
                        0u8,
                    ],
                )
            }),
    {
        let s = connection.source_port;
        let d = connection.destination_port;
        assert(tcp_segment(s, d, 0, 0, TCP_SYN) =~= seq![
            (s / 256) as u8,
            (s % 256) as u8,
            (d / 256) as u8,
            (d % 256) as u8,
            0u8,
            0u8,
            0u8,
            0u8,
            0u8,
            0u8,
            0u8,
            0u8,
            0u8,
            2u8,
            0u8,
            0u8,
            0u8,
            0u8,
            0u8,
            0u8,
        ]);
    }

    /// The ACK answers the SYN-ACK `syn_ack` with what the connection below
    /// sends for a segment as long as the SYN-ACK: the connection's port, the
    /// peer's port, sequence number 0, the SYN-ACK's sequence number plus one
    /// (bytes 8..12), a zero byte, the ACK flag alone, and zeros after.
    pub proof fn lemma_ack_layout(connection: TCPConnection<P>, syn_ack: Seq<u8>)
        requires
            syn_ack.len() >= 20,
            u32_at(syn_ack, 4) < u32::MAX,
        ensures
            exists|reply: Seq<u8>|
                #![trigger P::spec_send(connection.connection, reply)]
                {
                    &&& Self::spec_ack_frame(connection, syn_ack) == P::spec_send(connection.connection, reply)
                    &&& reply.len() == syn_ack.len()
                    &&& reply.subrange(0, 2) == u16_bytes(connection.source_port)
                    &&& reply.subrange(2, 4) == u16_bytes(connection.destination_port)
                    &&& reply.subrange(4, 8) == seq![0u8, 0u8, 0u8, 0u8]
                    &&& reply.subrange(8, 12) == u32_bytes((u32_at(syn_ack, 4) + 1) as u32)
                    &&& reply[12] == 0u8
                    &&& reply[13] == 0x10u8
                    &&& reply.skip(14) == Seq::new((syn_ack.len() - 14) as nat, |i: int| 0u8)
                },
    {
        let reply = tcp_reply(
            syn_ack.len(),
            connection.source_port,
            connection.destination_port,
            0,
            (u32_at(syn_ack, 4) + 1) as u32,
            TCP_ACK,
        );
        assert(reply.subrange(0, 2) =~= u16_bytes(connection.source_port));
        assert(reply.subrange(2, 4) =~= u16_bytes(connection.destination_port));
        assert(reply.subrange(4, 8) =~= seq![0u8, 0u8, 0u8, 0u8]);
        assert(reply.subrange(8, 12) =~= u32_bytes((u32_at(syn_ack, 4) + 1) as u32));
        assert(reply.skip(14) =~= Seq::new((syn_ack.len() - 14) as nat, |i: int| 0u8));
        assert(Self::spec_ack_frame(connection, syn_ack) == P::spec_send(connection.connection, reply));
    }

    /// Whether `complete` can look at `frame`.
    pub fn syn_ack_acceptable(connection: &TCPConnection<P>, frame: &[u8]) -> (ok: bool)
        ensures
            ok == Self::spec_syn_ack_acceptable(*connection, frame@),
    {
        if !P::receivable(&connection.connection, frame) {
            return false;
        }
        let mut segment: Vec<u8> = Vec::new();
        if P::receive(&connection.connection, frame, &mut segment) {
            segment.len() >= 20 && has_syn(segment[13]) && has_ack(segment[13]) && read_u32(
                segment.as_slice(),
                4,
            ) < u32::MAX && P::can_send(segment.len())
        } else {
            true
        }
    }

    /// Takes one frame while the SYN-ACK is awaited. When the connection below
    /// delivers the SYN-ACK, the connection is established and the frame that
    /// carries the ACK is returned; otherwise nothing changes.
    pub fn complete(connection: &mut TCPConnection<P>, frame: &[u8]) -> (ack: Option<Vec<u8>>)
        requires
            old(connection).state == TcpState::SynSent,
            Self::spec_syn_ack_acceptable(*old(connection), frame@),
        ensures
            match P::spec_receive(old(connection).connection, frame@) {
                Some(segment) => {
                    &&& ack matches Some(f) && f@ == Self::spec_ack_frame(*old(connection), segment)
                    &&& *final(connection) == (TCPConnection { state: TcpState::Established, ..*old(connection) })
                },
                None => ack is None && *final(connection) == *old(connection),
            },
    {
        let mut segment: Vec<u8> = Vec::new();
        if !P::receive(&connection.connection, frame, &mut segment) {
            return None;
        }
        let server_sequence = read_u32(segment.as_slice(), 4);
        let reply = build_reply(
            segment.len(),
            connection.source_port,
            connection.destination_port,
            0,
            server_sequence + 1,
            TCP_ACK,
        );
        let ack = P::send(&connection.connection, reply.as_slice());
        connection.state = TcpState::Established;
        Some(ack)
    }
}

impl<P: Listener + SupportedConfiguration<TCP<P>>> TCP<P> where TCP<P>: TCPChecksum<P> {
    /// What a listening server makes of `frame`: when it brings a SYN to the
    /// bound port, the sender's address and the SYN segment.
    pub open spec fn spec_opening(server: TCPServerConnection<P>, frame: Seq<u8>) -> Option<(P::Address, Seq<u8>)> {
        match P::spec_next(server.inner_connection, frame) {
            Some((sender, segment)) => if is_syn(segment) && tcp_destination_port(segment)
                == server.source_port {
                Some((sender, segment))
            } else {
                None
            },
            None => None,
        }
    }

    /// The SYN-ACK answers the SYN `syn` with what the connection below sends
    /// for a segment as long as the SYN: the bound port, the SYN's source port
    /// (its bytes 0..2), sequence number 0, the SYN's sequence number plus one
    /// (bytes 8..12), a zero byte, the SYN and ACK flags, and zeros after.
    pub proof fn lemma_syn_ack_layout(server: TCPServerConnection<P>, connection: P::Connection, syn: Seq<u8>)
        requires
            syn.len() >= 20,
            u32_at(syn, 4) < u32::MAX,
        ensures
            exists|reply: Seq<u8>|
                #![trigger P::spec_send(connection, reply)]
                {
                    &&& Self::spec_syn_ack_frame(server, connection, syn) == P::spec_send(connection, reply)
                    &&& reply.len() == syn.len()
                    &&& reply.subrange(0, 2) == u16_bytes(server.source_port)
                    &&& reply.subrange(2, 4) == syn.subrange(0, 2)
                    &&& reply.subrange(4, 8) == seq![0u8, 0u8, 0u8, 0u8]
                    &&& reply.subrange(8, 12) == u32_bytes((u32_at(syn, 4) + 1) as u32)
                    &&& reply[12] == 0u8
                    &&& reply[13] == 0x12u8
                    &&& reply.skip(14) == Seq::new((syn.len() - 14) as nat, |i: int| 0u8)
                },
    {
        let reply = tcp_reply(
            syn.len(),
            server.source_port,
            u16_at(syn, 0),
            0,
            (u32_at(syn, 4) + 1) as u32,
            TCP_SYN_ACK,
        );
        lemma_u16_at_iff(syn, 0, u16_at(syn, 0));
        assert(reply.subrange(0, 2) =~= u16_bytes(server.source_port));
        assert(reply.subrange(2, 4) =~= u16_bytes(u16_at(syn, 0)));
        assert(reply.subrange(4, 8) =~= seq![0u8, 0u8, 0u8, 0u8]);
        assert(reply.subrange(8, 12) =~= u32_bytes((u32_at(syn, 4) + 1) as u32));
        assert(reply.skip(14) =~= Seq::new((syn.len() - 14) as nat, |i: int| 0u8));
        assert(Self::spec_syn_ack_frame(server, connection, syn) == P::spec_send(connection, reply));
    }

    /// A segment completes the handshake exactly when, by its own bytes, its
    /// flags (byte 13) have ACK set, its destination port (bytes 2..4) is the
    /// bound port and its acknowledgement (bytes 8..12) is 1. An ACK to any
    /// other port, or of any other number, completes nothing.
    pub proof fn lemma_completes_only_on_its_port(server: TCPServerConnection<P>, segment: Seq<u8>)
        requires
            segment.len() >= 20,
        ensures
            Self::spec_completes(server, segment) == (segment[13] & TCP_ACK != 0 && segment.subrange(2, 4)
                == u16_bytes(server.source_port) && segment.subrange(8, 12) == u32_bytes(1)),
    {
        lemma_u16_at_iff(segment, 2, server.source_port);
        lemma_u32_at_iff(segment, 8, 1);
    }

    /// A frame that the listener below hands a listening server opens a
    /// handshake exactly when the segment it carries has SYN set (byte 13)
    /// and, by its own bytes, is addressed to the bound port (bytes 2..4).
    pub proof fn lemma_opens_only_on_its_port(server: TCPServerConnection<P>, frame: Seq<u8>)
        requires
            P::spec_next(server.inner_connection, frame) matches Some((sender, segment))
                ==> segment.len() >= 20,
        ensures
            Self::spec_opening(server, frame) == match P::spec_next(server.inner_connection, frame) {
                Some((sender, segment)) => if segment[13] & TCP_SYN != 0 && segment.subrange(2, 4)
                    == u16_bytes(server.source_port) {
                    Some((sender, segment))
                } else {
                    None::<(P::Address, Seq<u8>)>
                },
                None => None::<(P::Address, Seq<u8>)>,
            },
    {
        if let Some((sender, segment)) = P::spec_next(server.inner_connection, frame) {
            lemma_u16_at_iff(segment, 2, server.source_port);
        }
    }

    /// The segment completes the handshake at the server: ACK set, addressed
    /// to the bound port, acknowledging sequence number 0.
    pub open spec fn spec_completes(server: TCPServerConnection<P>, segment: Seq<u8>) -> bool {
        &&& is_ack(segment)
        &&& tcp_destination_port(segment) == server.source_port
        &&& tcp_acknowledgement(segment) == 1
    }

    /// The frame of the server's SYN-ACK to the SYN `syn`: as long as the SYN,
    /// zero but for the ports, the SYN and ACK flags and the acknowledgement
    /// of the client's sequence number.
    pub open spec fn spec_syn_ack_frame(server: TCPServerConnection<P>, connection: P::Connection, syn: Seq<u8>) -> Seq<u8> {
        P::spec_send(
            connection,
            tcp_reply(
                syn.len(),
                server.source_port,
                tcp_source_port(syn),
                0,
                (tcp_sequence(syn) + 1) as u32,
                TCP_SYN_ACK,
            ),
        )
    }
}

impl<P: Listener + SupportedConfiguration<TCP<P>>> TCP<P> where TCP<P>: TCPChecksum<P> {
    /// The three-way handshake goes through between a client and a server
    /// bound where the client sends: the server takes the client's SYN as an
    /// opening from the client's address and port; the client accepts the
    /// SYN-ACK that the server sends back over a connection that is the peer of
    /// the client's; and the client's ACK then completes the handshake at the server.
    pub proof fn lemma_handshake(
        self,
        server: TCPServerConnection<P>,
        client: TCPConnection<P>,
        server_connection: P::Connection,
    )
        requires
            server.handshake is Listening,
            P::spec_hears(server.inner_connection, client.connection),
            server.source_port == client.destination_port,
            P::spec_can_send(20),
            P::spec_can_send(20 + P::spec_padding()),
            P::spec_can_send(20 + 2 * P::spec_padding()),
            P::spec_peers(server_connection, client.connection),
            P::spec_peers(client.connection, server_connection),
        ensures
            self.spec_next_well_formed(server, Self::spec_syn_frame(client)),
            Self::spec_opening(server, Self::spec_syn_frame(client)) == Some(
                (
                    P::spec_source(client.connection),
                    tcp_segment(client.source_port, client.destination_port, 0, 0, TCP_SYN) + zeros(
                        P::spec_padding(),
                    ),
                ),
            ),
            ({
                let syn = tcp_segment(client.source_port, client.destination_port, 0, 0, TCP_SYN)
                    + zeros(P::spec_padding());
                let syn_ack = Self::spec_syn_ack_frame(server, server_connection, syn);
                let waiting = TCPServerConnection::<P> {
                    handshake: TcpHandshake::SynReceived {
                        connection: server_connection,
                        sender_port: client.source_port,
                        sender_address: P::spec_source(client.connection),
                    },
                    ..server
                };
                &&& Self::spec_syn_ack_acceptable(client, syn_ack)
                &&& P::spec_receive(client.connection, syn_ack) matches Some(segment) && {
                    &&& tcp_sequence(segment) == 0
                    &&& self.spec_next_well_formed(waiting, Self::spec_ack_frame(client, segment))
                    &&& P::spec_receive(server_connection, Self::spec_ack_frame(client, segment))
                        matches Some(ack) && Self::spec_completes(waiting, ack)
                }
            }),
    {
        let pad = P::spec_padding();
        let syn = tcp_segment(client.source_port, client.destination_port, 0, 0, TCP_SYN);
        lemma_segment_fields(client.source_port, client.destination_port, 0, 0, TCP_SYN, zeros(pad));
        P::lemma_send_next(server.inner_connection, client.connection, syn);
        assert(TCP_SYN & TCP_SYN != 0) by (bit_vector);
        let syn_rx = syn + zeros(pad);

        let syn_ack_head = tcp_segment(server.source_port, client.source_port, 0, 1, TCP_SYN_ACK);
        let syn_ack = tcp_reply(syn_rx.len(), server.source_port, client.source_port, 0, 1, TCP_SYN_ACK);
        assert(syn_ack == syn_ack_head + zeros(pad));
        P::lemma_send_receive(server_connection, client.connection, syn_ack);
        assert(syn_ack + zeros(pad) == syn_ack_head + (zeros(pad) + zeros(pad)));
        lemma_segment_fields(server.source_port, client.source_port, 0, 1, TCP_SYN_ACK, zeros(pad) + zeros(pad));
        assert(TCP_SYN_ACK & TCP_SYN != 0 && TCP_SYN_ACK & TCP_ACK != 0) by (bit_vector);
        let syn_ack_rx = syn_ack + zeros(pad);
        assert(syn_ack_rx.len() == 20 + 2 * pad);

        let ack_head = tcp_segment(client.source_port, client.destination_port, 0, 1, TCP_ACK);
        let ack = tcp_reply(syn_ack_rx.len(), client.source_port, client.destination_port, 0, 1, TCP_ACK);
        assert(ack == ack_head + zeros(2 * pad));
        P::lemma_send_receive(client.connection, server_connection, ack);
        assert(ack + zeros(pad) == ack_head + (zeros(2 * pad) + zeros(pad)));
        lemma_segment_fields(client.source_port, client.destination_port, 0, 1, TCP_ACK, zeros(2 * pad) + zeros(pad));
        assert(TCP_ACK & TCP_ACK != 0) by (bit_vector);
    }
}

impl<P: Listener + SupportedConfiguration<TCP<P>>> Bind for TCP<P> where TCP<P>: TCPChecksum<P> {
    type ServerConnection = TCPServerConnection<P>;

    open spec fn spec_can_bind(&self, address: Endpoint<P::Address>) -> bool {
        self.inner_protocol.spec_can_listen(address.address)
    }

    open spec fn spec_binds(&self, address: Endpoint<P::Address>, server: TCPServerConnection<P>) -> bool {
        &&& server.source_port == address.port
        &&& server.source_address == address.address
        &&& server.handshake is Listening
        &&& self.inner_protocol.spec_listens(
            address.address,
            <P as SupportedConfiguration<TCP<P>>>::spec_get_config(),
            server.inner_connection,
        )
    }

    open spec fn spec_next_well_formed(&self, server: TCPServerConnection<P>, frame: Seq<u8>) -> bool {
        match server.handshake {
            TcpHandshake::Listening => {
                &&& P::spec_next_receivable(server.inner_connection, frame)
                &&& P::spec_next(server.inner_connection, frame) matches Some((sender, segment)) ==> {
                    &&& segment.len() >= 20
                    &&& is_syn(segment) && tcp_destination_port(segment) == server.source_port
                        ==> tcp_sequence(segment) < u32::MAX && P::spec_can_send(segment.len())
                }
            },
            TcpHandshake::SynReceived { connection, sender_port, sender_address } => {
                &&& P::spec_receivable(connection, frame)
                &&& P::spec_receive(connection, frame) matches Some(segment) ==> segment.len() >= 20
            },
        }
    }

    open spec fn spec_next_ready(&self, server: TCPServerConnection<P>, frame: Seq<u8>) -> bool {
        &&& self.spec_next_well_formed(server, frame)
        &&& server.handshake is Listening ==> (Self::spec_opening(server, frame) matches Some(
            (sender, syn),
        ) ==> self.inner_protocol.spec_can_connect(server.source_address, sender))
    }

    fn bind(&self, address: Endpoint<P::Address>) -> (server: TCPServerConnection<P>) {
        TCPServerConnection {
            source_port: address.port,
            source_address: address.address,
            inner_connection: self.inner_protocol.listen(address.address, P::get_config()),
            handshake: TcpHandshake::Listening,
        }
    }

    fn next_well_formed(&self, server: &TCPServerConnection<P>, frame: &[u8]) -> (ok: bool) {
        match &server.handshake {
            TcpHandshake::Listening => {
                if !P::next_receivable(&server.inner_connection, frame) {
                    return false;
                }
                let mut segment: Vec<u8> = Vec::new();
                match P::next(&server.inner_connection, frame, &mut segment) {
                    None => true,
                    Some(_) => {
                        if segment.len() < 20 {
                            false
                        } else if has_syn(segment[13]) && read_u16(segment.as_slice(), 2)
                            == server.source_port {
                            read_u32(segment.as_slice(), 4) < u32::MAX && P::can_send(segment.len())
                        } else {
                            true
                        }
                    },
                }
            },
            TcpHandshake::SynReceived { connection, sender_port, sender_address } => {
                if !P::receivable(connection, frame) {
                    return false;
                }
                let mut segment: Vec<u8> = Vec::new();
                if P::receive(connection, frame, &mut segment) {
                    segment.len() >= 20
                } else {
                    true
                }
            },
        }
    }

    fn next(&self, server: &mut TCPServerConnection<P>, frame: &[u8]) -> (step: Accepted<
        TCPConnection<P>,
    >)
        ensures
            final(server).source_port == old(server).source_port,
            final(server).source_address == old(server).source_address,
            final(server).inner_connection == old(server).inner_connection,
            match old(server).handshake {
                TcpHandshake::Listening => match Self::spec_opening(*old(server), frame@) {
                    Some((sender, syn)) => {
                        &&& final(server).handshake matches TcpHandshake::SynReceived {
                            connection,
                            sender_port: port,
                            sender_address,
                        }
                        &&& port == tcp_source_port(syn)
                        &&& sender_address == sender
                        &&& self.inner_protocol.spec_connects(
                            old(server).source_address,
                            sender,
                            <P as SupportedConfiguration<TCP<P>>>::spec_get_config(),
                            connection,
                        )
                        &&& step matches Accepted::Reply(reply) && reply@ == Self::spec_syn_ack_frame(
                            *old(server),
                            connection,
                            syn,
                        )
                    },
                    None => step is Waiting && final(server).handshake == old(server).handshake,
                },
                TcpHandshake::SynReceived { connection, sender_port, sender_address } => match P::spec_receive(
                    connection,
                    frame@,
                ) {
                    Some(segment) => {
                        &&& final(server).handshake is Listening
                        &&& if Self::spec_completes(*old(server), segment) {
                            step matches Accepted::Connected(c) && c == (TCPConnection::<P> {
                                connection,
                                source_port: old(server).source_port,
                                destination_port: sender_port,
                                destination_address: sender_address,
                                source_address: old(server).source_address,
                                state: TcpState::Established,
                            })
                        } else {
                            step is Waiting
                        }
                    },
                    None => step is Waiting && final(server).handshake == old(server).handshake,
                },
            },
            step is Reply ==> (old(server).handshake is Listening && (P::spec_next(
                old(server).inner_connection,
                frame@,
            ) matches Some((sender, syn)) && syn[13] & TCP_SYN != 0 && syn.subrange(2, 4) == u16_bytes(
                old(server).source_port,
            ))),
            step is Connected ==> (old(server).handshake matches TcpHandshake::SynReceived {
                connection,
                ..
            } && (P::spec_receive(connection, frame@) matches Some(segment) && segment[13] & TCP_ACK
                != 0 && segment.subrange(2, 4) == u16_bytes(old(server).source_port)
                && segment.subrange(8, 12) == u32_bytes(1))),
    {
        let mut handshake = TcpHandshake::Listening;
        std::mem::swap(&mut handshake, &mut server.handshake);
        match handshake {
            TcpHandshake::Listening => {
                let mut segment: Vec<u8> = Vec::new();
                match P::next(&server.inner_connection, frame, &mut segment) {
                    None => Accepted::Waiting,
                    Some(sender_address) => {
                        let flags = segment[13];
                        let destination_port = read_u16(segment.as_slice(), 2);
                        if !has_syn(flags) || destination_port != server.source_port {
                            return Accepted::Waiting;
                        }
                        proof {
                            lemma_u16_at_iff(segment@, 2, server.source_port);
                        }
                        let sender_port = read_u16(segment.as_slice(), 0);
                        let sender_sequence = read_u32(segment.as_slice(), 4);
                        let reply = build_reply(
                            segment.len(),
                            server.source_port,
                            sender_port,
                            0,
                            sender_sequence + 1,
                            TCP_SYN_ACK,
                        );
                        let connection = self.inner_protocol.connect(
                            server.source_address,
                            sender_address,
                            P::get_config(),
                        );
                        let frame_out = P::send(&connection, reply.as_slice());
                        server.handshake = TcpHandshake::SynReceived { connection, sender_port, sender_address };
                        Accepted::Reply(frame_out)
                    },
                }
            },
            TcpHandshake::SynReceived { connection, sender_port, sender_address } => {
                let mut segment: Vec<u8> = Vec::new();
                if !P::receive(&connection, frame, &mut segment) {
                    server.handshake = TcpHandshake::SynReceived { connection, sender_port, sender_address };
                    return Accepted::Waiting;
                }
                let destination_port = read_u16(segment.as_slice(), 2);
                let acknowledgement = read_u32(segment.as_slice(), 8);
                if !has_ack(segment[13]) || destination_port != server.source_port || acknowledgement != 1 {
                    return Accepted::Waiting;
                }
                proof {
                    lemma_u16_at_iff(segment@, 2, server.source_port);
                    lemma_u32_at_iff(segment@, 8, 1);
                }
                Accepted::Connected(
                    TCPConnection {
                        connection,
                        source_port: server.source_port,
                        destination_port: sender_port,
                        destination_address: sender_address,
                        source_address: server.source_address,
                        state: TcpState::Established,
                    },
                )
            },
        }
    }
}

impl<
    P: Protocol + SupportedConfiguration<IP<P, F>>,
    F: Fn(Ipv4Address) -> P::Address,
    T,
> SupportedConfiguration<TCP<T>> for IP<P, F> {
    open spec fn spec_get_config() -> IPConnectionConfig {
        IPConnectionConfig { protocol: PROTOCOL_TCP }
    }

    fn get_config() -> (config: IPConnectionConfig) {
        IPConnectionConfig { protocol: PROTOCOL_TCP }
    }
}

} // verus!
