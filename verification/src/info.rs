//! What a browser service tells about an instance, and the parser of the
//! text record that carries it.

use vstd::prelude::*;
use vstd::string::*;
use vstd::utf8::*;
use crate::error::{
    BrowserProtocolError, BrowserProtocolErrorView, BrowserProtocolField, BrowserProtocolToken,
};
use crate::record::{
    after_token, endpoint_step, has_token, header_error_from, identifier_error,
    lemma_endpoint_step_advances, parse_endpoints, parse_record, parse_via, token_bytes,
    token_start, value_error, via_addresses, EndpointStep,
};
use crate::socket::IpAddress;
use crate::text::{
    find_byte, find_delimiter, is_keyword, lemma_ascii_byte_boundaries, lemma_find_delimiter,
    lemma_text_of_str, read_port, slice_text, text_of, COLON, COMMA, SEMICOLON,
};

verus! {

/// One instance of the server, as its host describes it.
#[derive(Debug, Clone, PartialEq, Eq)]
pub struct InstanceInfo {
    /// The address that the description came from.
    pub addr: IpAddress,
    /// The name of the server.
    pub server_name: String,
    /// The name of the instance.
    pub instance_name: String,
    pub is_clustered: bool,
    /// The version of the instance, as digits and dots.
    pub version: String,
    pub np_info: Option<NamedPipeInfo>,
    pub tcp_info: Option<TcpInfo>,
    pub via_info: Option<ViaInfo>,
    pub rpc_info: Option<RpcInfo>,
    pub spx_info: Option<SpxInfo>,
    pub adsp_info: Option<AdspInfo>,
    pub bv_info: Option<BvInfo>,
}

/// A named pipe endpoint.
#[derive(Debug, Clone, PartialEq, Eq)]
pub struct NamedPipeInfo {
    /// The name of the pipe.
    pub name: String,
}

/// A TCP endpoint.
#[derive(Debug, Clone, Copy, PartialEq, Eq, Structural)]
pub struct TcpInfo {
    /// The port on which the instance listens.
    pub port: u16,
}

/// A Virtual Interface Architecture endpoint.
#[derive(Debug, Clone, PartialEq, Eq)]
pub struct ViaInfo {
    /// The NetBIOS name of the machine.
    pub machine_name: String,
    /// The addresses of the endpoint, in the order of the record.
    pub addresses: Vec<ViaAddress>,
}

/// A network interface card and a port on it.
#[derive(Debug, Clone, PartialEq, Eq)]
pub struct ViaAddress {
    /// The identifier of the network interface card.
    pub nic: String,
    /// The port, as the record spells it.
    pub port: String,
}

/// An RPC endpoint.
#[derive(Debug, Clone, PartialEq, Eq)]
pub struct RpcInfo {
    /// The name of the computer to connect to.
    pub computer_name: String,
}

/// An SPX endpoint.
#[derive(Debug, Clone, PartialEq, Eq)]
pub struct SpxInfo {
    /// The SPX service name of the server.
    pub service_name: String,
}

/// An AppleTalk endpoint.
#[derive(Debug, Clone, PartialEq, Eq)]
pub struct AdspInfo {
    /// The AppleTalk service object name.
    pub object_name: String,
}

/// A Banyan VINES endpoint.
#[derive(Debug, Clone, PartialEq, Eq)]
pub struct BvInfo {
    pub item_name: String,
    pub group_name: String,
    pub org_name: String,
}

/// The endpoint of the dedicated administrator connection of an instance.
#[derive(Debug, Clone, Copy, PartialEq, Eq, Structural)]
pub struct DacInfo {
    pub port: u16,
}

/// A `NamedPipeInfo` with its text as a sequence of characters.
pub struct NamedPipeInfoView {
    pub name: Seq<char>,
}

/// A `ViaAddress` with its texts as sequences of characters.
pub struct ViaAddressView {
    pub nic: Seq<char>,
    pub port: Seq<char>,
}

/// A `ViaInfo` over the views of its parts.
pub struct ViaInfoView {
    pub machine_name: Seq<char>,
    pub addresses: Seq<ViaAddressView>,
}

/// An `RpcInfo` with its text as a sequence of characters.
pub struct RpcInfoView {
    pub computer_name: Seq<char>,
}

/// An `SpxInfo` with its text as a sequence of characters.
pub struct SpxInfoView {
    pub service_name: Seq<char>,
}

/// An `AdspInfo` with its text as a sequence of characters.
pub struct AdspInfoView {
    pub object_name: Seq<char>,
}

/// A `BvInfo` with its texts as sequences of characters.
pub struct BvInfoView {
    pub item_name: Seq<char>,
    pub group_name: Seq<char>,
    pub org_name: Seq<char>,
}

/// An `InstanceInfo` over the views of its parts. An endpoint is present
/// exactly where the record of the instance holds a section for it.
pub struct InstanceInfoView {
    pub addr: IpAddress,
    pub server_name: Seq<char>,
    pub instance_name: Seq<char>,
    pub is_clustered: bool,
    pub version: Seq<char>,
    pub np_info: Option<NamedPipeInfoView>,
    pub tcp_info: Option<TcpInfo>,
    pub via_info: Option<ViaInfoView>,
    pub rpc_info: Option<RpcInfoView>,
    pub spx_info: Option<SpxInfoView>,
    pub adsp_info: Option<AdspInfoView>,
    pub bv_info: Option<BvInfoView>,
}

impl View for NamedPipeInfo {
    type V = NamedPipeInfoView;

    open spec fn view(&self) -> NamedPipeInfoView {
        NamedPipeInfoView { name: self.name@ }
    }
}

impl View for ViaAddress {
    type V = ViaAddressView;

    open spec fn view(&self) -> ViaAddressView {
        ViaAddressView { nic: self.nic@, port: self.port@ }
    }
}

/// The views of a sequence of addresses, one for one.
pub open spec fn via_addresses_view(addresses: Seq<ViaAddress>) -> Seq<ViaAddressView> {
    Seq::new(addresses.len(), |i: int| addresses[i]@)
}

impl View for ViaInfo {
    type V = ViaInfoView;

    open spec fn view(&self) -> ViaInfoView {
        ViaInfoView {
            machine_name: self.machine_name@,
            addresses: via_addresses_view(self.addresses@),
        }
    }
}

impl View for RpcInfo {
    type V = RpcInfoView;

    open spec fn view(&self) -> RpcInfoView {
        RpcInfoView { computer_name: self.computer_name@ }
    }
}

impl View for SpxInfo {
    type V = SpxInfoView;

    open spec fn view(&self) -> SpxInfoView {
        SpxInfoView { service_name: self.service_name@ }
    }
}

impl View for AdspInfo {
    type V = AdspInfoView;

    open spec fn view(&self) -> AdspInfoView {
        AdspInfoView { object_name: self.object_name@ }
    }
}

impl View for BvInfo {
    type V = BvInfoView;

    open spec fn view(&self) -> BvInfoView {
        BvInfoView {
            item_name: self.item_name@,
            group_name: self.group_name@,
            org_name: self.org_name@,
        }
    }
}

/// The view of what an optional field holds.
pub open spec fn option_view<T: View>(field: Option<T>) -> Option<T::V> {
    match field {
        Some(value) => Some(value@),
        None => None,
    }
}

impl View for InstanceInfo {
    type V = InstanceInfoView;

    open spec fn view(&self) -> InstanceInfoView {
        InstanceInfoView {
            addr: self.addr,
            server_name: self.server_name@,
            instance_name: self.instance_name@,
            is_clustered: self.is_clustered,
            version: self.version@,
            np_info: option_view(self.np_info),
            tcp_info: self.tcp_info,
            via_info: option_view(self.via_info),
            rpc_info: option_view(self.rpc_info),
            spx_info: option_view(self.spx_info),
            adsp_info: option_view(self.adsp_info),
            bv_info: option_view(self.bv_info),
        }
    }
}

/// Splits a text at each `;` and counts the bytes it has handed out.
pub struct SplitIteratorWithPosition<'a> {
    text: &'a str,
    position: usize,
}

impl<'a> SplitIteratorWithPosition<'a> {
    #[verifier::type_invariant]
    spec fn well_formed(&self) -> bool {
        &&& self.text.spec_bytes().len() < usize::MAX
        &&& self.position <= self.text.spec_bytes().len() + 1
        &&& self.position <= self.text.spec_bytes().len() ==> is_char_boundary(
            self.text.spec_bytes(),
            self.position as int,
        )
    }

    /// The bytes of the text that is split.
    pub closed spec fn bytes(&self) -> Seq<u8> {
        self.text.spec_bytes()
    }

    /// The cursor: where the next token starts.
    pub closed spec fn position(&self) -> int {
        self.position as int
    }

    /// Starts at the first byte of `text`, which is held to be shorter than
    /// `usize::MAX` bytes: the cursor ends one byte behind the text.
    pub fn new(text: &'a str) -> (tokens: SplitIteratorWithPosition<'a>)
        requires
            text.spec_bytes().len() < usize::MAX,
        ensures
            tokens.bytes() == text.spec_bytes(),
            tokens.position() == 0,
    {
        proof {
            lemma_text_of_str(text);
            is_char_boundary_start_end_of_seq(text.spec_bytes());
        }
        SplitIteratorWithPosition { text, position: 0 }
    }

    /// The number of bytes consumed so far, delimiters included.
    pub fn string_position(&self) -> (position: usize)
        ensures
            position == self.position(),
    {
        self.position
    }

    /// The next token, if one is left; the cursor moves behind its delimiter.
    pub fn next(&mut self) -> (token: Option<&'a str>)
        ensures
            final(self).bytes() == old(self).bytes(),
            match token {
                Some(text) => {
                    &&& has_token(old(self).bytes(), old(self).position())
                    &&& text.spec_bytes() == token_bytes(old(self).bytes(), old(self).position())
                    &&& text@ == text_of(token_bytes(old(self).bytes(), old(self).position()))
                    &&& final(self).position() == after_token(
                        old(self).bytes(),
                        old(self).position(),
                    )
                },
                None => {
                    &&& !has_token(old(self).bytes(), old(self).position())
                    &&& final(self).position() == old(self).position()
                },
            },
    {
        proof {
            use_type_invariant(&*self);
            lemma_text_of_str(self.text);
        }
        let bytes = self.text.as_bytes();
        if self.position > bytes.len() {
            return None;
        }
        let start = self.position;
        let end = find_byte(bytes, start, SEMICOLON, SEMICOLON);
        proof {
            lemma_find_delimiter(bytes@, start as int, SEMICOLON, SEMICOLON);
            if end < bytes@.len() {
                lemma_ascii_byte_boundaries(bytes@, end as int);
            } else {
                is_char_boundary_start_end_of_seq(bytes@);
            }
        }
        let token = slice_text(self.text, start, end);
        self.position = end + 1;
        Some(token)
    }
}

/// Reads the parameters of a VIA endpoint.
pub fn read_via(params: &str) -> (via: Option<ViaInfo>)
    ensures
        option_view(via) == parse_via(params.spec_bytes()),
{
    let bytes = params.as_bytes();
    proof {
        lemma_text_of_str(params);
        is_char_boundary_start_end_of_seq(bytes@);
    }
    let comma = find_byte(bytes, 0, COMMA, COMMA);
    if comma >= bytes.len() {
        return None;
    }
    proof {
        lemma_find_delimiter(bytes@, 0, COMMA, COMMA);
        lemma_ascii_byte_boundaries(bytes@, comma as int);
    }
    let machine_name = slice_text(params, 0, comma);
    let mut addresses: Vec<ViaAddress> = Vec::new();
    let mut cursor: usize = comma + 1;
    assert(via_addresses_view(addresses@) =~= Seq::empty());
    loop
        invariant_except_break
            via_addresses(bytes@, comma + 1, Seq::empty()) == via_addresses(
                bytes@,
                cursor as int,
                via_addresses_view(addresses@),
            ),
        invariant
            bytes@ == params.spec_bytes(),
            valid_utf8(bytes@),
            comma < bytes@.len(),
            comma == find_delimiter(bytes@, 0, COMMA, COMMA),
            0 <= cursor <= bytes@.len(),
            is_char_boundary(bytes@, cursor as int),
        ensures
            via_addresses(bytes@, comma + 1, Seq::empty()) == Some(
                via_addresses_view(addresses@),
            ),
        decreases bytes@.len() - cursor,
    {
        let nic_end = find_byte(bytes, cursor, COMMA, COLON);
        if nic_end >= bytes.len() {
            return None;
        }
        let port_start = nic_end + 1;
        let port_end = find_byte(bytes, port_start, COMMA, COLON);
        proof {
            lemma_find_delimiter(bytes@, cursor as int, COMMA, COLON);
            lemma_find_delimiter(bytes@, port_start as int, COMMA, COLON);
            lemma_ascii_byte_boundaries(bytes@, nic_end as int);
            if port_end < bytes@.len() {
                lemma_ascii_byte_boundaries(bytes@, port_end as int);
            } else {
                is_char_boundary_start_end_of_seq(bytes@);
            }
        }
        let nic = slice_text(params, cursor, nic_end);
        let port = slice_text(params, port_start, port_end);
        let address = ViaAddress { nic: nic.to_owned(), port: port.to_owned() };
        let ghost before = via_addresses_view(addresses@);
        addresses.push(address);
        assert(via_addresses_view(addresses@) =~= before.push(address@));
        assert(via_addresses(bytes@, cursor as int, before) == via_addresses(
            bytes@,
            port_end + 1,
            via_addresses_view(addresses@),
        ));
        if port_end >= bytes.len() {
            break ;
        }
        cursor = port_end + 1;
    }
    Some(ViaInfo { machine_name: machine_name.to_owned(), addresses })
}

/// The outcome of parsing a record, over views.
pub open spec fn parsed_view(result: Result<(InstanceInfo, usize), BrowserProtocolError>) -> Result<
    (InstanceInfoView, int),
    BrowserProtocolErrorView,
> {
    match result {
        Ok((info, consumed)) => Ok((info@, consumed as int)),
        Err(error) => Err(error@),
    }
}

/// Reads the key `identifier` of `field`.
fn expect_next<'a>(
    tokens: &mut SplitIteratorWithPosition<'a>,
    identifier: &str,
    field: BrowserProtocolField,
) -> (result: Result<(), BrowserProtocolError>)
    ensures
        final(tokens).bytes() == old(tokens).bytes(),
        match result {
            Ok(_) => {
                &&& identifier_error(
                    old(tokens).bytes(),
                    old(tokens).position(),
                    identifier.spec_bytes(),
                    field,
                ) is None
                &&& final(tokens).position() == after_token(
                    old(tokens).bytes(),
                    old(tokens).position(),
                )
            },
            Err(error) => identifier_error(
                old(tokens).bytes(),
                old(tokens).position(),
                identifier.spec_bytes(),
                field,
            ) == Some(error@),
        },
{
    match tokens.next() {
        None => Err(
            BrowserProtocolError::UnexpectedToken {
                expected: BrowserProtocolToken::Identifier(field),
                found: BrowserProtocolToken::EndOfMessage,
            },
        ),
        Some(token) => {
            if is_keyword(token, identifier) {
                Ok(())
            } else {
                Err(
                    BrowserProtocolError::UnexpectedToken {
                        expected: BrowserProtocolToken::Identifier(field),
                        found: BrowserProtocolToken::Literal(token.to_owned()),
                    },
                )
            }
        },
    }
}

/// Reads the value of `field`.
fn consume_next<'a>(
    tokens: &mut SplitIteratorWithPosition<'a>,
    field: BrowserProtocolField,
) -> (result: Result<&'a str, BrowserProtocolError>)
    ensures
        final(tokens).bytes() == old(tokens).bytes(),
        match result {
            Ok(value) => {
                &&& value_error(old(tokens).bytes(), old(tokens).position(), field) is None
                &&& value.spec_bytes() == token_bytes(old(tokens).bytes(), old(tokens).position())
                &&& value@ == text_of(token_bytes(old(tokens).bytes(), old(tokens).position()))
                &&& final(tokens).position() == after_token(
                    old(tokens).bytes(),
                    old(tokens).position(),
                )
            },
            Err(error) => value_error(old(tokens).bytes(), old(tokens).position(), field) == Some(
                error@,
            ),
        },
{
    match tokens.next() {
        None => Err(
            BrowserProtocolError::UnexpectedToken {
                expected: BrowserProtocolToken::ValueOf(field),
                found: BrowserProtocolToken::EndOfMessage,
            },
        ),
        Some(token) => Ok(token),
    }
}

/// Reads one endpoint section into `info`, or the empty token that ends the
/// record; tells whether a section was read.
fn read_endpoint<'a>(
    tokens: &mut SplitIteratorWithPosition<'a>,
    info: &mut InstanceInfo,
) -> (result: Result<bool, BrowserProtocolError>)
    ensures
        final(tokens).bytes() == old(tokens).bytes(),
        match endpoint_step(old(tokens).bytes(), old(tokens).position(), old(info)@) {
            EndpointStep::Section(known, next) => {
                &&& result == Ok::<bool, BrowserProtocolError>(true)
                &&& final(info)@ == known
                &&& final(tokens).position() == next
            },
            EndpointStep::End(consumed) => {
                &&& result == Ok::<bool, BrowserProtocolError>(false)
                &&& final(info)@ == old(info)@
                &&& final(tokens).position() == consumed
            },
            EndpointStep::Malformed(error) => result matches Err(found) && found@ == error,
        },
{
    let key = match tokens.next() {
        Some(key) => key,
        None => {
            return Err(
                BrowserProtocolError::UnexpectedToken {
                    expected: BrowserProtocolToken::EndpointIdentifierOrSemicolon,
                    found: BrowserProtocolToken::EndOfMessage,
                },
            );
        },
    };
    if is_keyword(key, "np") {
        let name = consume_next(tokens, BrowserProtocolField::NamedPipeName)?;
        info.np_info = Some(NamedPipeInfo { name: name.to_owned() });
    } else if is_keyword(key, "tcp") {
        let text = consume_next(tokens, BrowserProtocolField::TcpPort)?;
        match read_port(text.as_bytes()) {
            Some(port) => {
                info.tcp_info = Some(TcpInfo { port });
            },
            None => {
                return Err(
                    BrowserProtocolError::UnexpectedToken {
                        expected: BrowserProtocolToken::TcpPort,
                        found: BrowserProtocolToken::Literal(text.to_owned()),
                    },
                );
            },
        }
    } else if is_keyword(key, "via") {
        let parameters = consume_next(tokens, BrowserProtocolField::ViaMachineName)?;
        match read_via(parameters) {
            Some(via) => {
                info.via_info = Some(via);
            },
            None => {
                return Err(
                    BrowserProtocolError::UnexpectedToken {
                        expected: BrowserProtocolToken::ViaParameters,
                        found: BrowserProtocolToken::Literal(parameters.to_owned()),
                    },
                );
            },
        }
    } else if is_keyword(key, "rpc") {
        let name = consume_next(tokens, BrowserProtocolField::RpcComputerName)?;
        info.rpc_info = Some(RpcInfo { computer_name: name.to_owned() });
    } else if is_keyword(key, "spx") {
        let name = consume_next(tokens, BrowserProtocolField::SpxServiceName)?;
        info.spx_info = Some(SpxInfo { service_name: name.to_owned() });
    } else if is_keyword(key, "adsp") {
        let name = consume_next(tokens, BrowserProtocolField::AppleTalkObjectName)?;
        info.adsp_info = Some(AdspInfo { object_name: name.to_owned() });
    } else if is_keyword(key, "bv") {
        let item = consume_next(tokens, BrowserProtocolField::BvItemName)?;
        let group = consume_next(tokens, BrowserProtocolField::BvGroupName)?;
        let org = consume_next(tokens, BrowserProtocolField::BvOrgName)?;
        info.bv_info = Some(
            BvInfo {
                item_name: item.to_owned(),
                group_name: group.to_owned(),
                org_name: org.to_owned(),
            },
        );
    } else if key.as_bytes().len() == 0 {
        return Ok(false);
    } else {
        return Err(
            BrowserProtocolError::UnexpectedToken {
                expected: BrowserProtocolToken::EndpointIdentifierOrSemicolon,
                found: BrowserProtocolToken::Literal(key.to_owned()),
            },
        );
    }
    Ok(true)
}

/// Parses the record of one instance from the start of `string`.
///
/// Returns what the record says of the instance, stamped with `addr`, and the
/// number of bytes that the record takes: where a second record follows, it
/// starts at that offset. The text is held to be shorter than `usize::MAX`
/// bytes, so that this number can be counted.
pub fn parse_instance_info(addr: IpAddress, string: &str) -> (result: Result<
    (InstanceInfo, usize),
    BrowserProtocolError,
>)
    requires
        string.spec_bytes().len() < usize::MAX,
    ensures
        parsed_view(result) == parse_record(addr, string.spec_bytes()),
{
    let ghost bytes = string.spec_bytes();
    let mut tokens = SplitIteratorWithPosition::new(string);
    proof {
        reveal_with_fuel(header_error_from, 9);
        reveal_with_fuel(token_start, 9);
    }
    expect_next(&mut tokens, "ServerName", BrowserProtocolField::ServerName)?;
    let server_name = consume_next(&mut tokens, BrowserProtocolField::ServerName)?;
    expect_next(&mut tokens, "InstanceName", BrowserProtocolField::InstanceName)?;
    let instance_name = consume_next(&mut tokens, BrowserProtocolField::InstanceName)?;
    expect_next(&mut tokens, "IsClustered", BrowserProtocolField::IsClustered)?;
    let clustered = consume_next(&mut tokens, BrowserProtocolField::IsClustered)?;
    let is_clustered = if is_keyword(clustered, "Yes") {
        true
    } else if is_keyword(clustered, "No") {
        false
    } else {
        return Err(
            BrowserProtocolError::UnexpectedToken {
                expected: BrowserProtocolToken::ValueOf(BrowserProtocolField::IsClustered),
                found: BrowserProtocolToken::Literal(clustered.to_owned()),
            },
        );
    };
    expect_next(&mut tokens, "Version", BrowserProtocolField::Version)?;
    let version = consume_next(&mut tokens, BrowserProtocolField::Version)?;
    let mut info = InstanceInfo {
        addr,
        server_name: server_name.to_owned(),
        instance_name: instance_name.to_owned(),
        is_clustered,
        version: version.to_owned(),
        np_info: None,
        tcp_info: None,
        via_info: None,
        rpc_info: None,
        spx_info: None,
        adsp_info: None,
        bv_info: None,
    };
    let mut more = true;
    while more
        invariant
            bytes == string.spec_bytes(),
            tokens.bytes() == bytes,
            more ==> parse_record(addr, bytes) == parse_endpoints(bytes, tokens.position(), info@),
            !more ==> parse_record(addr, bytes) == Ok::<
                (InstanceInfoView, int),
                BrowserProtocolErrorView,
            >((info@, tokens.position())),
        decreases
            if more {
                bytes.len() + 2 - tokens.position()
            } else {
                0
            },
    {
        proof {
            lemma_endpoint_step_advances(bytes, tokens.position(), info@);
        }
        more = read_endpoint(&mut tokens, &mut info)?;
    }
    let consumed = tokens.string_position();
    Ok((info, consumed))
}

} // verus!
