//! Discovery of SQL Server instances with the SQL Server Resolution Protocol.
//!
//! A client asks the browser service of a host, over UDP, where the instances
//! of the host listen: for one instance by name, for the dedicated
//! administrator connection of an instance, or for all instances of the host.
//! Sent to a broadcast or multicast address, the last request is answered by
//! every host of a network.
//!
//! This library holds the protocol and touches no socket. For each operation
//! it plans the exchange (where to bind, whom to ask, what to send, how much
//! to receive) and then reads the datagram that came back: it checks the
//! frame, decodes the text and parses the records, and tells every failure
//! apart down to the field. Sending and receiving is left to the caller.
//!
//! Every function is verified against a contract. The contracts are stated
//! over the bytes of a datagram and over views of the values that hold text;
//! `record` gives the grammar of a record and what follows from it.

use vstd::prelude::*;

pub mod browse;
pub mod browse_host;
pub mod browse_instance;
pub mod browse_instance_dac;
pub mod error;
pub mod info;
pub mod record;
pub mod socket;
pub mod text;
pub mod wire;

pub use crate::browse::{network_query, InstanceBacklog};
pub use crate::browse_host::{host_query, read_host_response, InstanceIterator};
pub use crate::browse_instance::{instance_query, read_instance_response};
pub use crate::browse_instance_dac::{dac_query, read_dac_response};
pub use crate::error::{
    BrowserError, BrowserProtocolError, BrowserProtocolField, BrowserProtocolToken,
};
pub use crate::info::{
    AdspInfo, BvInfo, DacInfo, InstanceInfo, NamedPipeInfo, RpcInfo, SpxInfo, TcpInfo, ViaAddress,
    ViaInfo,
};
pub use crate::socket::{
    AsyncStdSocketFactory, Exchange, IpAddress, SocketAddress, SocketStep, TokioSocketFactory,
};

verus! {

/// Longest instance name, in bytes, that a request may carry.
pub const MAX_INSTANCE_NAME_LEN: usize = 32;

/// UDP port on which the browser service listens.
pub const BROWSER_PORT: u16 = 1434;

} // verus!
