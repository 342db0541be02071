//! Communication with the lorri daemon.
//!
//! We provide a fixed number of `CommunicationType`s that are sent
//! between the lorri daemon and lorri clients wishing to connect to it.

use crate::error::{ExitAs, ExitErrorType};
use crate::project::ProjectFile;
use crate::socket::path::SocketPath;
use crate::socket::read_writer::{ReadWriter, Timeout};
use std::marker::PhantomData;
use tokio::net::UnixStream;
use vstd::prelude::*;

verus! {

/// Enum of all communication modes the lorri daemon supports.
#[derive(Debug, Clone, Copy, PartialEq, Eq)]
pub enum CommunicationType {
    /// Return some information about the running daemon
    DaemonInfo,
    /// Ping the daemon from a project to tell it to watch & evaluate
    Ping,
    /// Stream events that happen in the daemon to the client, as they happen.
    StreamEvents,
}

/// Binds a client request type to a server response.
///
/// For example, the handler for `Ping` has the response type `()`,
/// because the server does not reply to pings.
pub trait Handler {
    /// The response returned to the client for the given request type.
    type Resp;

    /// The `CommunicationType` that corresponds to these types.
    spec fn comm_type() -> CommunicationType;

    /// The `CommunicationType` that corresponds to these types.
    fn communication_type() -> (c: CommunicationType)
        ensures
            c == Self::comm_type(),
    ;
}

/// Message sent by the client to ask the server about some status info
#[derive(Debug)]
pub struct DaemonInfo {}

impl Handler for DaemonInfo {
    type Resp = ();

    open spec fn comm_type() -> CommunicationType {
        CommunicationType::DaemonInfo
    }

    fn communication_type() -> (c: CommunicationType) {
        CommunicationType::DaemonInfo
    }
}

/// In which cases a ping will trigger a rebuild
#[derive(Debug, Clone, Copy, PartialEq, Eq)]
pub enum Rebuild {
    /// Only if the nix_file is not yet watched
    OnlyIfNotYetWatching,
    /// Always
    Always,
}

/// Message sent by the client to ask the server to start
/// watching `project_file`. See `CommunicationType::Ping`.
#[derive(Debug)]
pub struct Ping {
    /// The nix file to watch and build on changes.
    pub project_file: ProjectFile,
    /// When/whether to start the build.
    pub rebuild: Rebuild,
}

impl Handler for Ping {
    type Resp = ();

    open spec fn comm_type() -> CommunicationType {
        CommunicationType::Ping
    }

    fn communication_type() -> (c: CommunicationType) {
        CommunicationType::Ping
    }
}

/// Stream events to the client, as they happen.
#[derive(Debug)]
pub struct StreamEvents {}

impl Handler for StreamEvents {
    type Resp = crate::build_loop::Event;

    open spec fn comm_type() -> CommunicationType {
        CommunicationType::StreamEvents
    }

    fn communication_type() -> (c: CommunicationType) {
        CommunicationType::StreamEvents
    }
}

/// If a connection on the socket is attempted and the first
/// message is of a `ConnectionType`, the listener returns
/// this message as an ack.
#[derive(Debug)]
pub struct ConnectionAccepted();

/// Errors in `accept()`ing a new connection.
#[derive(Debug)]
pub enum AcceptError {
    /// something went wrong in the `accept()` syscall (with its message).
    Accept(String),
    /// The client’s message could not be decoded (with the read/write error's message).
    Message(String),
}

/// Error when talking to the listener.
#[derive(Debug)]
pub enum Error {
    /// Not connected to the listener socket.
    NotConnected,
    /// Read error or write error (with its message).
    Message(String),
}

impl ExitAs for Error {
    open spec fn exit_kind(&self) -> ExitErrorType {
        match self {
            // This should really never happen.
            Error::NotConnected => ExitErrorType::Panic,
            Error::Message(_) => ExitErrorType::Temporary,
        }
    }

    fn exit_as(&self) -> (t: ExitErrorType) {
        match self {
            Error::NotConnected => ExitErrorType::Panic,
            Error::Message(_) => ExitErrorType::Temporary,
        }
    }
}

/// Error when initializing connection with the listener.
#[derive(Debug)]
pub enum InitError {
    /// `connect()` syscall failed (with its message).
    SocketConnect(SocketPath, String),
    /// Handshake failed (write `ConnectionType`, read `ConnectionAccepted`), with the
    /// read/write error's message.
    ServerHandshake(String),
}

impl ExitAs for InitError {
    open spec fn exit_kind(&self) -> ExitErrorType {
        match self {
            InitError::SocketConnect(_, _) => ExitErrorType::Temporary,
            InitError::ServerHandshake(_) => ExitErrorType::Temporary,
        }
    }

    fn exit_as(&self) -> (t: ExitErrorType) {
        match self {
            InitError::SocketConnect(_, _) => ExitErrorType::Temporary,
            InitError::ServerHandshake(_) => ExitErrorType::Temporary,
        }
    }
}

/// Standing connection to the client.
/// The `communication_type` determines which handler has to answer it.
pub struct Connection {
    /// The kind of communication the client requested us to talk to it.
    pub communication_type: CommunicationType,
    /// socket
    pub socket: UnixStream,
}

/// React to a DaemonInfo message
pub fn daemon_info(socket: UnixStream) -> (r: ReadWriter<DaemonInfo, ()>)
    ensures
        r.socket_view() == Some(socket),
{
    ReadWriter::new(socket)
}

/// React to a ping message
pub fn ping(socket: UnixStream) -> (r: ReadWriter<Ping, ()>)
    ensures
        r.socket_view() == Some(socket),
{
    ReadWriter::new(socket)
}

/// Stream events to the client as they happen
pub fn stream_events(socket: UnixStream) -> (r: ReadWriter<StreamEvents, crate::build_loop::Event>)
    ensures
        r.socket_view() == Some(socket),
{
    ReadWriter::new(socket)
}

/// A `Client` that can talk to a listener.
///
/// `R` is the type of messages this client reads.
/// `W` is the type of messages this client writes.
pub struct Client<R, W> {
    /// Type of interaction with the listener.
    comm_type: CommunicationType,
    /// Connected socket.
    socket: Option<UnixStream>,
    /// Timeout for reads/writes.
    timeout: Timeout,
    read_type: PhantomData<R>,
    write_type: PhantomData<W>,
}

/// Create a Client for a given `Handler` type: it announces the handler's communication
/// type and is not connected yet.
pub fn new<T: Handler>(timeout: Timeout) -> (r: Client<T::Resp, T>)
    ensures
        r.comm_type_view() == T::comm_type(),
        r.socket_view() is None,
        r.timeout_view() == timeout,
{
    Client::bake(timeout, T::communication_type())
}

impl<R, W> Client<R, W> {
    /// The communication type the client announces.
    pub closed spec fn comm_type_view(&self) -> CommunicationType {
        self.comm_type
    }

    /// The socket, once connected.
    pub closed spec fn socket_view(&self) -> Option<UnixStream> {
        self.socket
    }

    /// The timeout of reads and writes.
    pub closed spec fn timeout_view(&self) -> Timeout {
        self.timeout
    }

    /// “Bake” a Client, aka set its communication type (and message type arguments).
    pub fn bake(timeout: Timeout, comm_type: CommunicationType) -> (r: Client<R, W>)
        ensures
            r.comm_type_view() == comm_type,
            r.socket_view() is None,
            r.timeout_view() == timeout,
    {
        Client { comm_type, socket: None, timeout, read_type: PhantomData, write_type: PhantomData }
    }

    /// The communication type the client announces in the handshake.
    pub fn comm_type(&self) -> (r: CommunicationType)
        ensures
            r == self.comm_type_view(),
    {
        self.comm_type
    }

    /// The client, connected over `socket`.
    pub fn connected(self, socket: UnixStream) -> (r: Client<R, W>)
        ensures
            r.comm_type_view() == self.comm_type_view(),
            r.socket_view() == Some(socket),
            r.timeout_view() == self.timeout_view(),
    {
        Client { comm_type: self.comm_type, socket: Some(socket), timeout: self.timeout, read_type: PhantomData, write_type: PhantomData }
    }

    /// The socket to talk over and the timeout, or `NotConnected` when the client was
    /// never connected.
    pub fn into_socket(self) -> (r: Result<(UnixStream, Timeout), Error>)
        ensures
            match self.socket_view() {
                Some(s) => r matches Ok(p) && p.0 == s && p.1 == self.timeout_view(),
                None => r matches Err(Error::NotConnected),
            },
    {
        match self.socket {
            Some(s) => Ok((s, self.timeout)),
            None => Err(Error::NotConnected),
        }
    }
}

} // verus!
