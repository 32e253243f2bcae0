//! The three traits that every layer of the stack implements.
//!
//! Each layer is written without doing any transport itself: sending turns
//! data into the frame that goes onto the wire, and receiving looks at one
//! frame that came off the wire and says what, if anything, it delivers.
//! Whoever moves frames drives these functions.
use vstd::prelude::*;
use crate::bytes::zeros;

verus! {

/// An address of an upper layer: the address of the layer below and a port.
#[derive(Copy)]
pub struct Endpoint<A> {
    pub address: A,
    pub port: u16,
}

impl<A: Copy> Clone for Endpoint<A> {
    fn clone(&self) -> (copy: Self)
        ensures
            copy == *self,
    {
        *self
    }
}

/// What a server makes of one frame while it waits for a connection.
pub enum Accepted<C> {
    /// Nothing to do; keep waiting.
    Waiting,
    /// Transmit this frame and keep waiting.
    Reply(Vec<u8>),
    /// A connection has been made.
    Connected(C),
}

/// A layer that connects two addresses and carries data between them.
pub trait Protocol: Sized {
    type Address: Copy;
    type Connection;
    type ConnectionConfig;

    /// The endpoints for which `connect` may be asked.
    spec fn spec_can_connect(&self, source: Self::Address, destination: Self::Address) -> bool;

    /// `connection` is what `connect` gives for these arguments.
    spec fn spec_connects(
        &self,
        source: Self::Address,
        destination: Self::Address,
        config: Self::ConnectionConfig,
        connection: Self::Connection,
    ) -> bool;

    /// The local address of a connection.
    spec fn spec_source(connection: Self::Connection) -> Self::Address;

    /// Whether data of this length can be sent.
    spec fn spec_can_send(length: nat) -> bool;

    /// The frame that sending `data` on `connection` puts on the wire.
    spec fn spec_send(connection: Self::Connection, data: Seq<u8>) -> Seq<u8>;

    /// The frames that `receive` can look at.
    spec fn spec_receivable(connection: Self::Connection, frame: Seq<u8>) -> bool;

    /// What `connection` delivers of `frame`: `None` when the frame is not for it.
    spec fn spec_receive(connection: Self::Connection, frame: Seq<u8>) -> Option<Seq<u8>>;

    /// Data that the connection holds and delivers before any frame.
    spec fn spec_pending(connection: Self::Connection) -> Option<Seq<u8>>;

    /// The connection once its pending data has been delivered.
    spec fn spec_drained(connection: Self::Connection) -> Self::Connection;

    /// How many zero bytes follow the data that this layer delivers of a frame it sent.
    spec fn spec_padding() -> nat;

    /// `a` and `b` are the two ends of one conversation.
    spec fn spec_peers(a: Self::Connection, b: Self::Connection) -> bool;

    /// Makes the connection from `source` to `destination`.
    fn connect(
        &self,
        source: Self::Address,
        destination: Self::Address,
        connection_config: Self::ConnectionConfig,
    ) -> (connection: Self::Connection)
        requires
            self.spec_can_connect(source, destination),
        ensures
            self.spec_connects(source, destination, connection_config, connection),
    ;

    /// Whether data of `length` bytes can be sent.
    fn can_send(length: usize) -> (ok: bool)
        ensures
            ok == Self::spec_can_send(length as nat),
    ;

    /// The frame that carries `data` over `connection`.
    fn send(connection: &Self::Connection, data: &[u8]) -> (frame: Vec<u8>)
        requires
            Self::spec_can_send(data.len() as nat),
        ensures
            frame@ == Self::spec_send(*connection, data@),
    ;

    /// Whether `receive` can look at `frame`.
    fn receivable(connection: &Self::Connection, frame: &[u8]) -> (ok: bool)
        ensures
            ok == Self::spec_receivable(*connection, frame@),
    ;

    /// Appends to `buffer` what `connection` delivers of `frame`, and says whether it delivered.
    fn receive(connection: &Self::Connection, frame: &[u8], buffer: &mut Vec<u8>) -> (delivered: bool)
        requires
            Self::spec_receivable(*connection, frame@),
        ensures
            match Self::spec_receive(*connection, frame@) {
                Some(data) => delivered && final(buffer)@ == old(buffer)@ + data,
                None => !delivered && final(buffer)@ == old(buffer)@,
            },
    ;

    /// Appends to `buffer` the data that the connection holds, if any, and says whether it did.
    fn receive_pending(connection: &mut Self::Connection, buffer: &mut Vec<u8>) -> (delivered: bool)
        ensures
            match Self::spec_pending(*old(connection)) {
                Some(data) => delivered && final(buffer)@ == old(buffer)@ + data,
                None => !delivered && final(buffer)@ == old(buffer)@,
            },
            *final(connection) == Self::spec_drained(*old(connection)),
            Self::spec_pending(*final(connection)) is None,
    ;

    /// What one end sends, the other end receives: the data, then this layer's padding.
    proof fn lemma_send_receive(a: Self::Connection, b: Self::Connection, data: Seq<u8>)
        requires
            Self::spec_peers(a, b),
            Self::spec_can_send(data.len()),
        ensures
            Self::spec_receivable(b, Self::spec_send(a, data)),
            Self::spec_receive(b, Self::spec_send(a, data)) == Some(
                data + zeros(Self::spec_padding()),
            ),
    ;
}

/// A layer on which a server waits for whoever sends to its address.
pub trait Listener: Protocol {
    type ListenConnection;

    /// The addresses at which `listen` may be asked to wait.
    spec fn spec_can_listen(&self, address: Self::Address) -> bool;

    /// `listen_connection` is what `listen` gives for these arguments.
    spec fn spec_listens(
        &self,
        address: Self::Address,
        config: Self::ConnectionConfig,
        listen_connection: Self::ListenConnection,
    ) -> bool;

    /// The frames that `next` can look at.
    spec fn spec_next_receivable(listen_connection: Self::ListenConnection, frame: Seq<u8>) -> bool;

    /// The sender and the data that `frame` brings to the listener, if it is for it.
    spec fn spec_next(listen_connection: Self::ListenConnection, frame: Seq<u8>) -> Option<
        (Self::Address, Seq<u8>),
    >;

    /// The listener waits where `connection` sends.
    spec fn spec_hears(listen_connection: Self::ListenConnection, connection: Self::Connection) -> bool;

    /// Starts waiting at `address`.
    fn listen(&self, address: Self::Address, config: Self::ConnectionConfig) -> (listen_connection:
        Self::ListenConnection)
        requires
            self.spec_can_listen(address),
        ensures
            self.spec_listens(address, config, listen_connection),
    ;

    /// Whether `next` can look at `frame`.
    fn next_receivable(connection: &Self::ListenConnection, frame: &[u8]) -> (ok: bool)
        ensures
            ok == Self::spec_next_receivable(*connection, frame@),
    ;

    /// Appends to `buffer` the data that `frame` brings to the listener and returns its sender.
    fn next(connection: &Self::ListenConnection, frame: &[u8], buffer: &mut Vec<u8>) -> (sender:
        Option<Self::Address>)
        requires
            Self::spec_next_receivable(*connection, frame@),
        ensures
            match Self::spec_next(*connection, frame@) {
                Some((address, data)) => sender == Some(address) && final(buffer)@ == old(buffer)@
                    + data,
                None => sender is None && final(buffer)@ == old(buffer)@,
            },
    ;

    /// A listener hears what is sent to it, with the sender's address.
    proof fn lemma_send_next(listen_connection: Self::ListenConnection, connection: Self::Connection, data: Seq<u8>)
        requires
            Self::spec_hears(listen_connection, connection),
            Self::spec_can_send(data.len()),
        ensures
            Self::spec_next_receivable(listen_connection, Self::spec_send(connection, data)),
            Self::spec_next(listen_connection, Self::spec_send(connection, data)) == Some(
                (Self::spec_source(connection), data + zeros(Self::spec_padding())),
            ),
    ;
}

/// A layer on which a server binds an address and accepts connections there.
pub trait Bind: Protocol {
    type ServerConnection;

    /// The addresses that `bind` may be asked for.
    spec fn spec_can_bind(&self, address: Self::Address) -> bool;

    /// `server` is what `bind` gives for `address`.
    spec fn spec_binds(&self, address: Self::Address, server: Self::ServerConnection) -> bool;

    /// The frames that `next` can look at, as far as their bytes decide.
    spec fn spec_next_well_formed(&self, server: Self::ServerConnection, frame: Seq<u8>) -> bool;

    /// The frames on which `next` can be asked: well formed, and any connection
    /// that they open can be made.
    spec fn spec_next_ready(&self, server: Self::ServerConnection, frame: Seq<u8>) -> bool;

    /// Binds `address`.
    fn bind(&self, address: Self::Address) -> (server: Self::ServerConnection)
        requires
            self.spec_can_bind(address),
        ensures
            self.spec_binds(address, server),
    ;

    /// Whether `frame` is well formed for `next`.
    fn next_well_formed(&self, server: &Self::ServerConnection, frame: &[u8]) -> (ok: bool)
        ensures
            ok == self.spec_next_well_formed(*server, frame@),
    ;

    /// Takes one frame that reached the server and says what comes of it.
    fn next(&self, server: &mut Self::ServerConnection, frame: &[u8]) -> (step: Accepted<
        Self::Connection,
    >)
        requires
            self.spec_next_ready(*old(server), frame@),
    ;
}

/// The configuration that a layer asks of the layer `P` above it.
pub trait SupportedConfiguration<P>: Protocol {
    spec fn spec_get_config() -> Self::ConnectionConfig;

    fn get_config() -> (config: Self::ConnectionConfig)
        ensures
            config == Self::spec_get_config(),
    ;
}

} // verus!
