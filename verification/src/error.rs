//! What can go wrong: transport failures, a name that is too long, and
//! responses that break the protocol, each told apart down to the field.

use vstd::prelude::*;
use vstd::string::*;
use crate::socket::SocketAddress;
use crate::text::{append_decimal, append_hex_digits, decimal_text, hex_text};

verus! {

/// The fields of an instance record.
#[derive(Debug, PartialEq, Eq, Copy, Clone, Structural)]
pub enum BrowserProtocolField {
    ServerName,
    InstanceName,
    IsClustered,
    Version,
    NamedPipeName,
    TcpPort,
    ViaMachineName,
    RpcComputerName,
    SpxServiceName,
    AppleTalkObjectName,
    BvItemName,
    BvGroupName,
    BvOrgName,
}

impl BrowserProtocolField {
    /// The name of the field, as it is written in this library.
    pub open spec fn spec_name(self) -> Seq<char> {
        match self {
            BrowserProtocolField::ServerName => "ServerName"@,
            BrowserProtocolField::InstanceName => "InstanceName"@,
            BrowserProtocolField::IsClustered => "IsClustered"@,
            BrowserProtocolField::Version => "Version"@,
            BrowserProtocolField::NamedPipeName => "NamedPipeName"@,
            BrowserProtocolField::TcpPort => "TcpPort"@,
            BrowserProtocolField::ViaMachineName => "ViaMachineName"@,
            BrowserProtocolField::RpcComputerName => "RpcComputerName"@,
            BrowserProtocolField::SpxServiceName => "SpxServiceName"@,
            BrowserProtocolField::AppleTalkObjectName => "AppleTalkObjectName"@,
            BrowserProtocolField::BvItemName => "BvItemName"@,
            BrowserProtocolField::BvGroupName => "BvGroupName"@,
            BrowserProtocolField::BvOrgName => "BvOrgName"@,
        }
    }

    /// The name of the field.
    pub fn name(&self) -> (name: &'static str)
        ensures
            name@ == self.spec_name(),
    {
        match self {
            BrowserProtocolField::ServerName => "ServerName",
            BrowserProtocolField::InstanceName => "InstanceName",
            BrowserProtocolField::IsClustered => "IsClustered",
            BrowserProtocolField::Version => "Version",
            BrowserProtocolField::NamedPipeName => "NamedPipeName",
            BrowserProtocolField::TcpPort => "TcpPort",
            BrowserProtocolField::ViaMachineName => "ViaMachineName",
            BrowserProtocolField::RpcComputerName => "RpcComputerName",
            BrowserProtocolField::SpxServiceName => "SpxServiceName",
            BrowserProtocolField::AppleTalkObjectName => "AppleTalkObjectName",
            BrowserProtocolField::BvItemName => "BvItemName",
            BrowserProtocolField::BvGroupName => "BvGroupName",
            BrowserProtocolField::BvOrgName => "BvOrgName",
        }
    }
}

/// A piece of a response: what was expected at some place, or what was
/// found there.
#[derive(Debug, Clone, PartialEq, Eq)]
pub enum BrowserProtocolToken {
    /// The end of the datagram.
    EndOfMessage,
    /// A piece of text.
    Literal(String),
    /// The message identifier in the header.
    MessageIdentifier(u8),
    /// The message length in the header.
    MessageLength,
    /// The version byte of a DAC response.
    DacVersion(u8),
    /// The port of a DAC response.
    DacPort,
    /// The key that opens a field.
    Identifier(BrowserProtocolField),
    /// The value of a field.
    ValueOf(BrowserProtocolField),
    /// A decimal TCP port.
    TcpPort,
    /// The parameters of a VIA endpoint.
    ViaParameters,
    /// The key of an endpoint, or the empty token that ends a record.
    EndpointIdentifierOrSemicolon,
}

/// A `BrowserProtocolToken` with its text as a sequence of characters.
pub enum BrowserProtocolTokenView {
    EndOfMessage,
    Literal(Seq<char>),
    MessageIdentifier(u8),
    MessageLength,
    DacVersion(u8),
    DacPort,
    Identifier(BrowserProtocolField),
    ValueOf(BrowserProtocolField),
    TcpPort,
    ViaParameters,
    EndpointIdentifierOrSemicolon,
}

impl View for BrowserProtocolToken {
    type V = BrowserProtocolTokenView;

    open spec fn view(&self) -> BrowserProtocolTokenView {
        match self {
            BrowserProtocolToken::EndOfMessage => BrowserProtocolTokenView::EndOfMessage,
            BrowserProtocolToken::Literal(text) => BrowserProtocolTokenView::Literal(text@),
            BrowserProtocolToken::MessageIdentifier(id) => {
                BrowserProtocolTokenView::MessageIdentifier(*id)
            },
            BrowserProtocolToken::MessageLength => BrowserProtocolTokenView::MessageLength,
            BrowserProtocolToken::DacVersion(version) => {
                BrowserProtocolTokenView::DacVersion(*version)
            },
            BrowserProtocolToken::DacPort => BrowserProtocolTokenView::DacPort,
            BrowserProtocolToken::Identifier(field) => BrowserProtocolTokenView::Identifier(*field),
            BrowserProtocolToken::ValueOf(field) => BrowserProtocolTokenView::ValueOf(*field),
            BrowserProtocolToken::TcpPort => BrowserProtocolTokenView::TcpPort,
            BrowserProtocolToken::ViaParameters => BrowserProtocolTokenView::ViaParameters,
            BrowserProtocolToken::EndpointIdentifierOrSemicolon => {
                BrowserProtocolTokenView::EndpointIdentifierOrSemicolon
            },
        }
    }
}

impl BrowserProtocolTokenView {
    /// How the token reads in a message to a person.
    pub open spec fn message(self) -> Seq<char> {
        match self {
            BrowserProtocolTokenView::EndOfMessage => "end of message"@,
            BrowserProtocolTokenView::Literal(text) => "'"@ + text + "'"@,
            BrowserProtocolTokenView::MessageIdentifier(id) => "message identifier "@ + hex_text(
                id as nat,
            ),
            BrowserProtocolTokenView::MessageLength => "message length"@,
            BrowserProtocolTokenView::DacVersion(version) => "dac version "@ + decimal_text(
                version as nat,
            ),
            BrowserProtocolTokenView::DacPort => "dac port"@,
            BrowserProtocolTokenView::Identifier(field) => "identifier for field "@
                + field.spec_name(),
            BrowserProtocolTokenView::ValueOf(field) => "value for field "@ + field.spec_name(),
            BrowserProtocolTokenView::TcpPort => "tcp port"@,
            BrowserProtocolTokenView::ViaParameters => "via parameters"@,
            BrowserProtocolTokenView::EndpointIdentifierOrSemicolon => {
                "endpoint identifier or semicolon"@
            },
        }
    }
}

impl BrowserProtocolToken {
    /// The token as it reads in a message to a person.
    pub fn to_string(&self) -> (text: String)
        ensures
            text@ == self@.message(),
    {
        match self {
            BrowserProtocolToken::EndOfMessage => "end of message".to_owned(),
            BrowserProtocolToken::Literal(literal) => {
                let mut text = "'".to_owned();
                text.append(literal.as_str());
                text.append("'");
                text
            },
            BrowserProtocolToken::MessageIdentifier(id) => {
                let mut text = "message identifier ".to_owned();
                text.append("0x");
                append_hex_digits(&mut text, *id as usize);
                text
            },
            BrowserProtocolToken::MessageLength => "message length".to_owned(),
            BrowserProtocolToken::DacVersion(version) => {
                let mut text = "dac version ".to_owned();
                append_decimal(&mut text, *version as usize);
                text
            },
            BrowserProtocolToken::DacPort => "dac port".to_owned(),
            BrowserProtocolToken::Identifier(field) => {
                let mut text = "identifier for field ".to_owned();
                text.append(field.name());
                text
            },
            BrowserProtocolToken::ValueOf(field) => {
                let mut text = "value for field ".to_owned();
                text.append(field.name());
                text
            },
            BrowserProtocolToken::TcpPort => "tcp port".to_owned(),
            BrowserProtocolToken::ViaParameters => "via parameters".to_owned(),
            BrowserProtocolToken::EndpointIdentifierOrSemicolon => {
                "endpoint identifier or semicolon".to_owned()
            },
        }
    }
}

/// A response that breaks the protocol.
#[derive(Debug, Clone, PartialEq, Eq)]
pub enum BrowserProtocolError {
    /// Something else stood where `expected` had to stand.
    UnexpectedToken {
        expected: BrowserProtocolToken,
        found: BrowserProtocolToken,
    },
    /// The length that the header declares is not the length received. Both
    /// are in bytes and count the whole datagram.
    LengthMismatch {
        datagram: usize,
        header: usize,
    },
    /// The payload is not UTF-8 text.
    InvalidUtf8,
    /// Bytes follow the record; they are handed back.
    ExtraneousData(Vec<u8>),
}

/// A `BrowserProtocolError` over the views of its parts.
pub enum BrowserProtocolErrorView {
    UnexpectedToken {
        expected: BrowserProtocolTokenView,
        found: BrowserProtocolTokenView,
    },
    LengthMismatch {
        datagram: int,
        header: int,
    },
    InvalidUtf8,
    ExtraneousData(Seq<u8>),
}

impl View for BrowserProtocolError {
    type V = BrowserProtocolErrorView;

    open spec fn view(&self) -> BrowserProtocolErrorView {
        match self {
            BrowserProtocolError::UnexpectedToken { expected, found } => {
                BrowserProtocolErrorView::UnexpectedToken { expected: expected@, found: found@ }
            },
            BrowserProtocolError::LengthMismatch { datagram, header } => {
                BrowserProtocolErrorView::LengthMismatch {
                    datagram: *datagram as int,
                    header: *header as int,
                }
            },
            BrowserProtocolError::InvalidUtf8 => BrowserProtocolErrorView::InvalidUtf8,
            BrowserProtocolError::ExtraneousData(tail) => {
                BrowserProtocolErrorView::ExtraneousData(tail@)
            },
        }
    }
}

impl BrowserProtocolErrorView {
    /// How the error reads in a message to a person.
    pub open spec fn message(self) -> Seq<char> {
        match self {
            BrowserProtocolErrorView::UnexpectedToken { expected, found } => "expected "@
                + expected.message() + ", but found "@ + found.message(),
            BrowserProtocolErrorView::LengthMismatch {
                datagram,
                header,
            } => "mismatch between datagram size "@ + decimal_text(datagram as nat)
                + " bytes and size specified in header "@ + decimal_text(header as nat)
                + " bytes"@,
            BrowserProtocolErrorView::InvalidUtf8 => "invalid utf-8 sequence"@,
            BrowserProtocolErrorView::ExtraneousData(tail) => decimal_text(tail.len())
                + " unexpected trailing bytes"@,
        }
    }
}

impl BrowserProtocolError {
    /// The error as it reads in a message to a person.
    pub fn to_string(&self) -> (text: String)
        ensures
            text@ == self@.message(),
    {
        match self {
            BrowserProtocolError::UnexpectedToken { expected, found } => {
                let mut text = "expected ".to_owned();
                text.append(expected.to_string().as_str());
                text.append(", but found ");
                text.append(found.to_string().as_str());
                text
            },
            BrowserProtocolError::LengthMismatch { datagram, header } => {
                let mut text = "mismatch between datagram size ".to_owned();
                append_decimal(&mut text, *datagram);
                text.append(" bytes and size specified in header ");
                append_decimal(&mut text, *header);
                text.append(" bytes");
                text
            },
            BrowserProtocolError::InvalidUtf8 => "invalid utf-8 sequence".to_owned(),
            BrowserProtocolError::ExtraneousData(tail) => {
                let mut text = String::new();
                append_decimal(&mut text, tail.len());
                text.append(" unexpected trailing bytes");
                text
            },
        }
    }
}

/// The error that reports `found` where `expected` had to stand.
pub open spec fn unexpected(
    expected: BrowserProtocolTokenView,
    found: BrowserProtocolTokenView,
) -> BrowserProtocolErrorView {
    BrowserProtocolErrorView::UnexpectedToken { expected, found }
}

/// The error of an operation: the transport failed at some step, the
/// instance name is too long to be sent, or the response breaks the protocol.
/// `SFError` is what binding fails with, `SError` what a socket fails with.
#[derive(Debug, Clone, PartialEq, Eq)]
pub enum BrowserError<SFError, SError> {
    /// Binding the local socket failed.
    BindFailed(SFError),
    /// Enabling broadcast on the socket failed.
    SetBroadcastFailed(SError),
    /// Sending the request to the given peer failed.
    SendFailed(SocketAddress, SError),
    /// Connecting the socket to the given peer failed.
    ConnectFailed(SocketAddress, SError),
    /// Receiving a datagram failed.
    ReceiveFailed(SError),
    /// The instance name is longer than `MAX_INSTANCE_NAME_LEN` bytes.
    InstanceNameTooLong,
    /// The peer answered, and the answer breaks the protocol.
    ProtocolError(BrowserProtocolError),
}

} // verus!
