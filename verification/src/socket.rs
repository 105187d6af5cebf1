//! Addresses and transports, as plain values: the library computes what has
//! to be sent where, the caller owns the socket.

use vstd::prelude::*;
use crate::error::BrowserError;

verus! {

/// An IP address, held as its bits in network order: `127.0.0.1` is
/// `V4(0x7F00_0001)`.
#[derive(Debug, Clone, Copy, PartialEq, Eq, Structural)]
pub enum IpAddress {
    V4(u32),
    V6(u128),
}

impl IpAddress {
    /// Whether this is an IPv4 address.
    pub fn is_ipv4(&self) -> (v4: bool)
        ensures
            v4 == (*self is V4),
    {
        match self {
            IpAddress::V4(_) => true,
            IpAddress::V6(_) => false,
        }
    }

    /// The unspecified address (all bits zero) of the same family.
    pub open spec fn spec_unspecified(self) -> IpAddress {
        match self {
            IpAddress::V4(_) => IpAddress::V4(0),
            IpAddress::V6(_) => IpAddress::V6(0),
        }
    }

    /// The unspecified address (all bits zero) of the same family: where a
    /// socket that talks to `self` is bound.
    pub fn unspecified(&self) -> (local: IpAddress)
        ensures
            local == self.spec_unspecified(),
    {
        match self {
            IpAddress::V4(_) => IpAddress::V4(0),
            IpAddress::V6(_) => IpAddress::V6(0),
        }
    }
}

/// An IP address with a UDP port.
#[derive(Debug, Clone, Copy, PartialEq, Eq, Structural)]
pub struct SocketAddress {
    pub ip: IpAddress,
    pub port: u16,
}

/// What the transport has to do for one operation: bind a socket to
/// `local`, enable broadcast on it where `broadcast` is set, connect it to
/// `remote` where `connect` is set, send `request` to `remote`, and receive
/// into a buffer of `receive_capacity` bytes.
#[derive(Debug, Clone, PartialEq, Eq)]
pub struct Exchange {
    pub local: SocketAddress,
    pub remote: SocketAddress,
    pub broadcast: bool,
    pub connect: bool,
    pub request: Vec<u8>,
    pub receive_capacity: usize,
}

/// Where a socket that talks to `remote_addr` is bound: the unspecified
/// address of the same family, and a port that the system picks.
pub open spec fn local_endpoint(remote_addr: IpAddress) -> SocketAddress {
    SocketAddress { ip: remote_addr.spec_unspecified(), port: 0 }
}

/// Where requests to `remote_addr` go: the port of the browser service.
pub open spec fn browser_endpoint(remote_addr: IpAddress) -> SocketAddress {
    SocketAddress { ip: remote_addr, port: crate::BROWSER_PORT }
}

/// An exchange with one host: the socket is connected to the browser
/// service of `remote_addr`, so that only its answer is received.
pub open spec fn is_unicast(plan: Exchange, remote_addr: IpAddress) -> bool {
    &&& plan.local == local_endpoint(remote_addr)
    &&& plan.remote == browser_endpoint(remote_addr)
    &&& plan.connect
    &&& !plan.broadcast
}

/// An exchange with every host that a broadcast or multicast address
/// reaches: the socket is enabled for broadcast and left unconnected, so that
/// answers from any origin are received.
pub open spec fn is_broadcast(plan: Exchange, broadcast_addr: IpAddress) -> bool {
    &&& plan.local == local_endpoint(broadcast_addr)
    &&& plan.remote == browser_endpoint(broadcast_addr)
    &&& !plan.connect
    &&& plan.broadcast
}

/// The steps of an exchange at which its socket can fail.
#[derive(Debug, Clone, Copy, PartialEq, Eq, Structural)]
pub enum SocketStep {
    EnableBroadcast,
    Connect,
    Send,
    Receive,
}

/// The error of the exchange `plan` whose socket failed at `step` with
/// `cause`: a failure to connect or to send names the peer.
pub open spec fn socket_failure<SFError, SError>(
    plan: Exchange,
    step: SocketStep,
    cause: SError,
) -> BrowserError<SFError, SError> {
    match step {
        SocketStep::EnableBroadcast => BrowserError::SetBroadcastFailed(cause),
        SocketStep::Connect => BrowserError::ConnectFailed(plan.remote, cause),
        SocketStep::Send => BrowserError::SendFailed(plan.remote, cause),
        SocketStep::Receive => BrowserError::ReceiveFailed(cause),
    }
}

impl Exchange {
    /// The exchange with the browser service of the host `remote_addr`.
    pub fn unicast(remote_addr: IpAddress, request: Vec<u8>, receive_capacity: usize) -> (plan:
        Exchange)
        ensures
            is_unicast(plan, remote_addr),
            plan.request == request,
            plan.receive_capacity == receive_capacity,
    {
        Exchange {
            local: SocketAddress { ip: remote_addr.unspecified(), port: 0 },
            remote: SocketAddress { ip: remote_addr, port: crate::BROWSER_PORT },
            broadcast: false,
            connect: true,
            request,
            receive_capacity,
        }
    }

    /// The exchange with the browser services that the broadcast or
    /// multicast address `broadcast_addr` reaches.
    pub fn broadcast(broadcast_addr: IpAddress, request: Vec<u8>, receive_capacity: usize) -> (plan:
        Exchange)
        ensures
            is_broadcast(plan, broadcast_addr),
            plan.request == request,
            plan.receive_capacity == receive_capacity,
    {
        Exchange {
            local: SocketAddress { ip: broadcast_addr.unspecified(), port: 0 },
            remote: SocketAddress { ip: broadcast_addr, port: crate::BROWSER_PORT },
            broadcast: true,
            connect: false,
            request,
            receive_capacity,
        }
    }

    /// The error of this exchange when its socket failed at `step` with
    /// `cause`.
    pub fn socket_failed<SFError, SError>(&self, step: SocketStep, cause: SError) -> (error:
        BrowserError<SFError, SError>)
        ensures
            error == socket_failure::<SFError, SError>(*self, step, cause),
    {
        match step {
            SocketStep::EnableBroadcast => BrowserError::SetBroadcastFailed(cause),
            SocketStep::Connect => BrowserError::ConnectFailed(self.remote, cause),
            SocketStep::Send => BrowserError::SendFailed(self.remote, cause),
            SocketStep::Receive => BrowserError::ReceiveFailed(cause),
        }
    }
}

/// Names the Tokio runtime as the transport of a query.
#[derive(Debug, Clone, Copy, PartialEq, Eq, Structural)]
pub struct TokioSocketFactory;

impl TokioSocketFactory {
    pub fn new() -> (factory: TokioSocketFactory)
        ensures
            factory == TokioSocketFactory,
    {
        TokioSocketFactory
    }
}

/// Names the async-std runtime as the transport of a query.
#[derive(Debug, Clone, Copy, PartialEq, Eq, Structural)]
pub struct AsyncStdSocketFactory;

impl AsyncStdSocketFactory {
    pub fn new() -> (factory: AsyncStdSocketFactory)
        ensures
            factory == AsyncStdSocketFactory,
    {
        AsyncStdSocketFactory
    }
}

} // verus!
