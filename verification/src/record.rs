//! The grammar of an instance record, and what holds of every text that is
//! parsed by it.
//!
//! A record is text that `;` cuts into tokens. Its header is the keys
//! `ServerName`, `InstanceName`, `IsClustered` and `Version`, each followed by
//! its value; behind the header stand endpoint sections, each a key followed
//! by its value; an empty token ends the record.

use vstd::prelude::*;
use vstd::string::*;
use vstd::utf8::is_ascii_chars_encode_utf8;
use crate::error::{
    unexpected, BrowserProtocolErrorView, BrowserProtocolField, BrowserProtocolTokenView,
};
use crate::info::{
    AdspInfoView, BvInfoView, InstanceInfoView, NamedPipeInfoView, RpcInfoView, SpxInfoView,
    TcpInfo, ViaAddressView, ViaInfoView,
};
use crate::socket::IpAddress;
use crate::text::{
    find_delimiter, lemma_find_delimiter, lemma_find_delimiter_advances,
    lemma_find_delimiter_in_prefix, parse_port, text_of, COLON, COMMA, SEMICOLON,
};

verus! {

/// Where the token that starts at `cursor` ends: at the next `;`, or at the
/// end of the text.
pub open spec fn token_end(bytes: Seq<u8>, cursor: int) -> int {
    find_delimiter(bytes, cursor, SEMICOLON, SEMICOLON)
}

/// Whether a token starts at `cursor`. One starts at every place up to the
/// end of the text: after a final `;` stands an empty token.
pub open spec fn has_token(bytes: Seq<u8>, cursor: int) -> bool {
    0 <= cursor <= bytes.len()
}

/// The bytes of the token that starts at `cursor`.
pub open spec fn token_bytes(bytes: Seq<u8>, cursor: int) -> Seq<u8> {
    bytes.subrange(cursor, token_end(bytes, cursor))
}

/// The cursor after the token that starts at `cursor`: the bytes of the
/// token and one more for its delimiter have been consumed.
pub open spec fn after_token(bytes: Seq<u8>, cursor: int) -> int {
    token_end(bytes, cursor) + 1
}

/// The cursor at which the token with the given index starts, counted from
/// the start of the text.
pub open spec fn token_start(bytes: Seq<u8>, index: nat) -> int
    decreases index,
{
    if index == 0 {
        0
    } else {
        after_token(bytes, token_start(bytes, (index - 1) as nat))
    }
}

/// The bytes of the token with the given index.
pub open spec fn nth_token(bytes: Seq<u8>, index: nat) -> Seq<u8> {
    token_bytes(bytes, token_start(bytes, index))
}

/// The error, if any, of reading the key `keyword` of `field` at `cursor`.
pub open spec fn identifier_error(
    bytes: Seq<u8>,
    cursor: int,
    keyword: Seq<u8>,
    field: BrowserProtocolField,
) -> Option<BrowserProtocolErrorView> {
    if !has_token(bytes, cursor) {
        Some(
            unexpected(
                BrowserProtocolTokenView::Identifier(field),
                BrowserProtocolTokenView::EndOfMessage,
            ),
        )
    } else if token_bytes(bytes, cursor) != keyword {
        Some(
            unexpected(
                BrowserProtocolTokenView::Identifier(field),
                BrowserProtocolTokenView::Literal(text_of(token_bytes(bytes, cursor))),
            ),
        )
    } else {
        None
    }
}

/// The error, if any, of reading the value of `field` at `cursor`: any token
/// is a value, so only the end of the text is an error.
pub open spec fn value_error(bytes: Seq<u8>, cursor: int, field: BrowserProtocolField) -> Option<
    BrowserProtocolErrorView,
> {
    if !has_token(bytes, cursor) {
        Some(
            unexpected(
                BrowserProtocolTokenView::ValueOf(field),
                BrowserProtocolTokenView::EndOfMessage,
            ),
        )
    } else {
        None
    }
}

/// The error, if any, of reading the value of `IsClustered` at `cursor`: it
/// is `Yes` or `No`.
pub open spec fn clustered_error(bytes: Seq<u8>, cursor: int) -> Option<BrowserProtocolErrorView> {
    let token = token_bytes(bytes, cursor);
    if !has_token(bytes, cursor) {
        value_error(bytes, cursor, BrowserProtocolField::IsClustered)
    } else if token != "Yes".spec_bytes() && token != "No".spec_bytes() {
        Some(
            unexpected(
                BrowserProtocolTokenView::ValueOf(BrowserProtocolField::IsClustered),
                BrowserProtocolTokenView::Literal(text_of(token)),
            ),
        )
    } else {
        None
    }
}

/// The first of two errors in reading order.
pub open spec fn first_error(
    first: Option<BrowserProtocolErrorView>,
    second: Option<BrowserProtocolErrorView>,
) -> Option<BrowserProtocolErrorView> {
    if first is Some {
        first
    } else {
        second
    }
}

/// The error, if any, of the header token with the given index. The header
/// of a record is the keys `ServerName`, `InstanceName`, `IsClustered` and
/// `Version` in this order, each followed by its value: eight tokens.
pub open spec fn header_token_error(bytes: Seq<u8>, index: nat) -> Option<
    BrowserProtocolErrorView,
> {
    let cursor = token_start(bytes, index);
    if index == 0 {
        identifier_error(bytes, cursor, "ServerName".spec_bytes(), BrowserProtocolField::ServerName)
    } else if index == 1 {
        value_error(bytes, cursor, BrowserProtocolField::ServerName)
    } else if index == 2 {
        identifier_error(
            bytes,
            cursor,
            "InstanceName".spec_bytes(),
            BrowserProtocolField::InstanceName,
        )
    } else if index == 3 {
        value_error(bytes, cursor, BrowserProtocolField::InstanceName)
    } else if index == 4 {
        identifier_error(
            bytes,
            cursor,
            "IsClustered".spec_bytes(),
            BrowserProtocolField::IsClustered,
        )
    } else if index == 5 {
        clustered_error(bytes, cursor)
    } else if index == 6 {
        identifier_error(bytes, cursor, "Version".spec_bytes(), BrowserProtocolField::Version)
    } else {
        value_error(bytes, cursor, BrowserProtocolField::Version)
    }
}

/// The token that the header of a record asks for at the given index.
pub open spec fn expected_header_token(index: nat) -> BrowserProtocolTokenView {
    let field = if index < 2 {
        BrowserProtocolField::ServerName
    } else if index < 4 {
        BrowserProtocolField::InstanceName
    } else if index < 6 {
        BrowserProtocolField::IsClustered
    } else {
        BrowserProtocolField::Version
    };
    if index % 2 == 0 {
        BrowserProtocolTokenView::Identifier(field)
    } else {
        BrowserProtocolTokenView::ValueOf(field)
    }
}

/// The first error, if any, among the header tokens from `index` on.
pub open spec fn header_error_from(bytes: Seq<u8>, index: nat) -> Option<BrowserProtocolErrorView>
    decreases 8 - index,
{
    if index >= 8 {
        None
    } else {
        first_error(header_token_error(bytes, index), header_error_from(bytes, index + 1))
    }
}

/// The first error, if any, in the header of a record.
pub open spec fn header_error(bytes: Seq<u8>) -> Option<BrowserProtocolErrorView> {
    header_error_from(bytes, 0)
}

/// What the first eight tokens of a record say of the instance at `addr`;
/// no endpoint is known yet.
pub open spec fn record_header(addr: IpAddress, bytes: Seq<u8>) -> InstanceInfoView {
    InstanceInfoView {
        addr,
        server_name: text_of(nth_token(bytes, 1)),
        instance_name: text_of(nth_token(bytes, 3)),
        is_clustered: nth_token(bytes, 5) == "Yes".spec_bytes(),
        version: text_of(nth_token(bytes, 7)),
        np_info: None,
        tcp_info: None,
        via_info: None,
        rpc_info: None,
        spx_info: None,
        adsp_info: None,
        bv_info: None,
    }
}

/// The addresses that the parameters of a VIA endpoint list from `cursor`
/// on, behind those in `found`. Each address is a NIC and a port, and each of
/// the two ends at the next `,` or `:`. `None` where a NIC has no port.
pub open spec fn via_addresses(
    params: Seq<u8>,
    cursor: int,
    found: Seq<ViaAddressView>,
) -> Option<Seq<ViaAddressView>>
    decreases params.len() + 1 - cursor,
    via via_addresses_decreases
{
    let nic_end = find_delimiter(params, cursor, COMMA, COLON);
    let port_start = nic_end + 1;
    let port_end = find_delimiter(params, port_start, COMMA, COLON);
    if !(0 <= cursor <= params.len()) {
        Some(found)
    } else if port_start > params.len() {
        None
    } else {
        via_addresses(
            params,
            port_end + 1,
            found.push(
                ViaAddressView {
                    nic: text_of(params.subrange(cursor, nic_end)),
                    port: text_of(params.subrange(port_start, port_end)),
                },
            ),
        )
    }
}

#[via_fn]
proof fn via_addresses_decreases(params: Seq<u8>, cursor: int, found: Seq<ViaAddressView>) {
    let nic_end = find_delimiter(params, cursor, COMMA, COLON);
    if 0 <= cursor <= params.len() {
        lemma_find_delimiter(params, cursor, COMMA, COLON);
        if nic_end + 1 <= params.len() {
            lemma_find_delimiter(params, nic_end + 1, COMMA, COLON);
        }
    }
}

/// What the parameters of a VIA endpoint say: the machine name up to the
/// first `,`, then one address or more. `None` where the `,` is missing or a
/// NIC has no port.
pub open spec fn parse_via(params: Seq<u8>) -> Option<ViaInfoView> {
    let comma = find_delimiter(params, 0, COMMA, COMMA);
    if comma >= params.len() {
        None
    } else {
        match via_addresses(params, comma + 1, Seq::empty()) {
            Some(addresses) => Some(
                ViaInfoView { machine_name: text_of(params.subrange(0, comma)), addresses },
            ),
            None => None,
        }
    }
}

/// What reading at one place behind the header of a record leads to.
pub enum EndpointStep {
    /// An endpoint section was read: what is known now, and the cursor
    /// behind the section.
    Section(InstanceInfoView, int),
    /// The empty token that ends the record was read: the cursor behind it.
    End(int),
    /// The record is malformed here.
    Malformed(BrowserProtocolErrorView),
}

/// Reads at `cursor` one endpoint section, which it adds to `found`, or the
/// empty token that ends the record. A section is a key and its value (three
/// values for `bv`); a section that comes again replaces the earlier one.
/// The error names the value that is missing or malformed, or the token that
/// is neither a key nor empty.
pub open spec fn endpoint_step(
    bytes: Seq<u8>,
    cursor: int,
    found: InstanceInfoView,
) -> EndpointStep {
    let key = token_bytes(bytes, cursor);
    let value_start = after_token(bytes, cursor);
    let value = token_bytes(bytes, value_start);
    let next = after_token(bytes, value_start);
    if !has_token(bytes, cursor) {
        EndpointStep::Malformed(
            unexpected(
                BrowserProtocolTokenView::EndpointIdentifierOrSemicolon,
                BrowserProtocolTokenView::EndOfMessage,
            ),
        )
    } else if key == "np".spec_bytes() {
        match value_error(bytes, value_start, BrowserProtocolField::NamedPipeName) {
            Some(error) => EndpointStep::Malformed(error),
            None => EndpointStep::Section(
                InstanceInfoView {
                    np_info: Some(NamedPipeInfoView { name: text_of(value) }),
                    ..found
                },
                next,
            ),
        }
    } else if key == "tcp".spec_bytes() {
        match value_error(bytes, value_start, BrowserProtocolField::TcpPort) {
            Some(error) => EndpointStep::Malformed(error),
            None => match parse_port(value) {
                Some(port) => EndpointStep::Section(
                    InstanceInfoView { tcp_info: Some(TcpInfo { port }), ..found },
                    next,
                ),
                None => EndpointStep::Malformed(
                    unexpected(
                        BrowserProtocolTokenView::TcpPort,
                        BrowserProtocolTokenView::Literal(text_of(value)),
                    ),
                ),
            },
        }
    } else if key == "via".spec_bytes() {
        match value_error(bytes, value_start, BrowserProtocolField::ViaMachineName) {
            Some(error) => EndpointStep::Malformed(error),
            None => match parse_via(value) {
                Some(via) => EndpointStep::Section(
                    InstanceInfoView { via_info: Some(via), ..found },
                    next,
                ),
                None => EndpointStep::Malformed(
                    unexpected(
                        BrowserProtocolTokenView::ViaParameters,
                        BrowserProtocolTokenView::Literal(text_of(value)),
                    ),
                ),
            },
        }
    } else if key == "rpc".spec_bytes() {
        match value_error(bytes, value_start, BrowserProtocolField::RpcComputerName) {
            Some(error) => EndpointStep::Malformed(error),
            None => EndpointStep::Section(
                InstanceInfoView {
                    rpc_info: Some(RpcInfoView { computer_name: text_of(value) }),
                    ..found
                },
                next,
            ),
        }
    } else if key == "spx".spec_bytes() {
        match value_error(bytes, value_start, BrowserProtocolField::SpxServiceName) {
            Some(error) => EndpointStep::Malformed(error),
            None => EndpointStep::Section(
                InstanceInfoView {
                    spx_info: Some(SpxInfoView { service_name: text_of(value) }),
                    ..found
                },
                next,
            ),
        }
    } else if key == "adsp".spec_bytes() {
        match value_error(bytes, value_start, BrowserProtocolField::AppleTalkObjectName) {
            Some(error) => EndpointStep::Malformed(error),
            None => EndpointStep::Section(
                InstanceInfoView {
                    adsp_info: Some(AdspInfoView { object_name: text_of(value) }),
                    ..found
                },
                next,
            ),
        }
    } else if key == "bv".spec_bytes() {
        let group_start = next;
        let org_start = after_token(bytes, group_start);
        match first_error(
            value_error(bytes, value_start, BrowserProtocolField::BvItemName),
            first_error(
                value_error(bytes, group_start, BrowserProtocolField::BvGroupName),
                value_error(bytes, org_start, BrowserProtocolField::BvOrgName),
            ),
        ) {
            Some(error) => EndpointStep::Malformed(error),
            None => EndpointStep::Section(
                InstanceInfoView {
                    bv_info: Some(
                        BvInfoView {
                            item_name: text_of(value),
                            group_name: text_of(token_bytes(bytes, group_start)),
                            org_name: text_of(token_bytes(bytes, org_start)),
                        },
                    ),
                    ..found
                },
                after_token(bytes, org_start),
            ),
        }
    } else if key.len() == 0 {
        EndpointStep::End(value_start)
    } else {
        EndpointStep::Malformed(
            unexpected(
                BrowserProtocolTokenView::EndpointIdentifierOrSemicolon,
                BrowserProtocolTokenView::Literal(text_of(key)),
            ),
        )
    }
}

/// What the endpoint sections from `cursor` on add to `found`, and the cursor
/// behind the empty token that ends the record.
pub open spec fn parse_endpoints(bytes: Seq<u8>, cursor: int, found: InstanceInfoView) -> Result<
    (InstanceInfoView, int),
    BrowserProtocolErrorView,
>
    decreases bytes.len() + 1 - cursor,
    via parse_endpoints_decreases
{
    match endpoint_step(bytes, cursor, found) {
        EndpointStep::Section(known, next) => parse_endpoints(bytes, next, known),
        EndpointStep::End(consumed) => Ok((found, consumed)),
        EndpointStep::Malformed(error) => Err(error),
    }
}

/// Every step but a malformed one moves the cursor forward, and none moves
/// it further than one byte behind the text.
pub proof fn lemma_endpoint_step_advances(bytes: Seq<u8>, cursor: int, found: InstanceInfoView)
    ensures
        match endpoint_step(bytes, cursor, found) {
            EndpointStep::Section(_, next) => cursor < next <= bytes.len() + 1,
            EndpointStep::End(consumed) => cursor < consumed <= bytes.len() + 1,
            EndpointStep::Malformed(_) => true,
        },
{
    let value_start = after_token(bytes, cursor);
    let group_start = after_token(bytes, value_start);
    let org_start = after_token(bytes, group_start);
    if has_token(bytes, cursor) {
        lemma_find_delimiter(bytes, cursor, SEMICOLON, SEMICOLON);
        if has_token(bytes, value_start) {
            lemma_find_delimiter(bytes, value_start, SEMICOLON, SEMICOLON);
            if has_token(bytes, group_start) {
                lemma_find_delimiter(bytes, group_start, SEMICOLON, SEMICOLON);
                if has_token(bytes, org_start) {
                    lemma_find_delimiter(bytes, org_start, SEMICOLON, SEMICOLON);
                }
            }
        }
    }
}

#[via_fn]
proof fn parse_endpoints_decreases(bytes: Seq<u8>, cursor: int, found: InstanceInfoView) {
    lemma_endpoint_step_advances(bytes, cursor, found);
}

/// What the text of one instance record says of the instance at `addr`, and
/// the number of bytes that the record takes, its delimiters included.
///
/// A record is the keys `ServerName`, `InstanceName`, `IsClustered` and
/// `Version`, each followed by its value, then any number of endpoint
/// sections, then an empty token. Every token ends at the next `;`, and each
/// token counts for its bytes and one more, for its delimiter. So a record
/// whose last token ends with the text, where no `;` follows, takes one byte
/// more than the text holds.
pub open spec fn parse_record(addr: IpAddress, bytes: Seq<u8>) -> Result<
    (InstanceInfoView, int),
    BrowserProtocolErrorView,
> {
    match header_error(bytes) {
        Some(error) => Err(error),
        None => parse_endpoints(bytes, token_start(bytes, 8), record_header(addr, bytes)),
    }
}

/// The bytes of `text` behind the first `consumed` ones: none where
/// `consumed` reaches the end of `text` or lies behind it.
pub open spec fn unparsed_tail(text: Seq<u8>, consumed: int) -> Seq<u8> {
    if 0 <= consumed < text.len() {
        text.subrange(consumed, text.len() as int)
    } else {
        Seq::empty()
    }
}

/// Endpoint sections end behind a `;`, at most one byte behind the text.
pub proof fn lemma_endpoints_end(bytes: Seq<u8>, cursor: int, found: InstanceInfoView)
    ensures
        parse_endpoints(bytes, cursor, found) matches Ok((_, consumed)) ==> {
            &&& cursor < consumed <= bytes.len() + 1
            &&& (0 < consumed <= bytes.len() ==> bytes[consumed - 1] == SEMICOLON)
        },
    decreases bytes.len() + 1 - cursor,
{
    lemma_endpoint_step_advances(bytes, cursor, found);
    match endpoint_step(bytes, cursor, found) {
        EndpointStep::Section(known, next) => {
            lemma_endpoints_end(bytes, next, known);
        },
        EndpointStep::End(consumed) => {
            lemma_find_delimiter(bytes, cursor, SEMICOLON, SEMICOLON);
        },
        EndpointStep::Malformed(_) => {},
    }
}

/// A record takes at least one byte and ends behind a `;`, at most one byte
/// behind the text: behind it a character starts, if anything.
pub proof fn lemma_record_end(addr: IpAddress, bytes: Seq<u8>)
    ensures
        parse_record(addr, bytes) matches Ok((_, consumed)) ==> {
            &&& 0 < consumed <= bytes.len() + 1
            &&& (consumed <= bytes.len() ==> bytes[consumed - 1] == SEMICOLON)
        },
{
    if header_error(bytes) is None {
        lemma_header_tokens(bytes);
        lemma_endpoints_end(bytes, token_start(bytes, 8), record_header(addr, bytes));
    }
}

/// Where the header of a record is well-formed, its eight tokens lie in the
/// text, one behind the other.
pub proof fn lemma_header_tokens(bytes: Seq<u8>)
    requires
        header_error(bytes) is None,
    ensures
        forall|index: nat|
            index < 8 ==> has_token(bytes, #[trigger] token_start(bytes, index)) && token_start(
                bytes,
                index,
            ) < token_start(bytes, index + 1) <= bytes.len() + 1,
{
    reveal_with_fuel(token_start, 9);
    reveal_with_fuel(header_error_from, 9);
    assert forall|index: nat| index < 8 implies has_token(
        bytes,
        #[trigger] token_start(bytes, index),
    ) && token_start(bytes, index) < token_start(bytes, index + 1) <= bytes.len() + 1 by {
        lemma_find_delimiter(bytes, token_start(bytes, index), SEMICOLON, SEMICOLON);
    }
}

/// Endpoint sections leave alone what the header said.
pub proof fn lemma_endpoints_keep_header(bytes: Seq<u8>, cursor: int, found: InstanceInfoView)
    ensures
        parse_endpoints(bytes, cursor, found) matches Ok((info, _)) ==> {
            &&& info.addr == found.addr
            &&& info.server_name == found.server_name
            &&& info.instance_name == found.instance_name
            &&& info.is_clustered == found.is_clustered
            &&& info.version == found.version
        },
    decreases bytes.len() + 1 - cursor,
{
    lemma_endpoint_step_advances(bytes, cursor, found);
    match endpoint_step(bytes, cursor, found) {
        EndpointStep::Section(known, next) => {
            lemma_endpoints_keep_header(bytes, next, known);
        },
        _ => {},
    }
}

/// What a record says of the server, the instance, the cluster and the
/// version is what stands in its second, fourth, sixth and eighth token, and
/// its instance is stamped with the address given.
pub proof fn lemma_record_header(addr: IpAddress, bytes: Seq<u8>)
    ensures
        parse_record(addr, bytes) matches Ok((info, _)) ==> {
            &&& info.addr == addr
            &&& info.server_name == text_of(nth_token(bytes, 1))
            &&& info.instance_name == text_of(nth_token(bytes, 3))
            &&& info.is_clustered == (nth_token(bytes, 5) == "Yes".spec_bytes())
            &&& !info.is_clustered ==> nth_token(bytes, 5) == "No".spec_bytes()
            &&& info.version == text_of(nth_token(bytes, 7))
        },
{
    reveal_with_fuel(header_error_from, 9);
    lemma_endpoints_keep_header(bytes, token_start(bytes, 8), record_header(addr, bytes));
}

/// Whether `error` reports a token of a record that is missing or wrong:
/// the key or the value of a field, a port, the parameters of a VIA
/// endpoint, or the key of an endpoint, where the text ended or another text
/// stood.
pub open spec fn names_record_token(error: BrowserProtocolErrorView) -> bool {
    &&& error matches BrowserProtocolErrorView::UnexpectedToken { expected, found }
    &&& (expected is Identifier || expected is ValueOf || expected is TcpPort
        || expected is ViaParameters || expected is EndpointIdentifierOrSemicolon)
    &&& (found is EndOfMessage || found is Literal)
}

/// An error among the endpoint sections names the token that is missing or
/// wrong.
pub proof fn lemma_endpoints_error_names_token(bytes: Seq<u8>, cursor: int, found: InstanceInfoView)
    ensures
        parse_endpoints(bytes, cursor, found) matches Err(error) ==> names_record_token(error),
    decreases bytes.len() + 1 - cursor,
{
    lemma_endpoint_step_advances(bytes, cursor, found);
    match endpoint_step(bytes, cursor, found) {
        EndpointStep::Section(known, next) => {
            lemma_endpoints_error_names_token(bytes, next, known);
        },
        _ => {},
    }
}

/// A text that is no record is never refused in general terms: the error of
/// `parse_record` always names the token that is missing or wrong. It is no
/// mismatch of lengths, no failure to decode, no data left over.
pub proof fn lemma_record_error_names_token(addr: IpAddress, bytes: Seq<u8>)
    ensures
        parse_record(addr, bytes) matches Err(error) ==> names_record_token(error),
{
    reveal_with_fuel(header_error_from, 9);
    lemma_endpoints_error_names_token(bytes, token_start(bytes, 8), record_header(addr, bytes));
}

/// A text that ends where the header asks for a token is refused with that
/// token: where the header tokens before `index` are in order and the text
/// ends before the token `index` starts, the error says that the token which
/// the header asks for at `index` was expected and the end of the message
/// found.
pub proof fn lemma_missing_header_token(addr: IpAddress, bytes: Seq<u8>, index: nat)
    requires
        index < 8,
        forall|before: nat| before < index ==> header_token_error(bytes, before) is None,
        !has_token(bytes, token_start(bytes, index)),
    ensures
        parse_record(addr, bytes) == Err::<(InstanceInfoView, int), BrowserProtocolErrorView>(
            unexpected(expected_header_token(index), BrowserProtocolTokenView::EndOfMessage),
        ),
{
    reveal_with_fuel(header_error_from, 9);
    assert(header_token_error(bytes, index) == Some(
        unexpected(expected_header_token(index), BrowserProtocolTokenView::EndOfMessage),
    ));
    assert forall|before: nat| before < index implies header_error_from(bytes, before)
        == header_error_from(bytes, index) by {
        lemma_header_errors_skip(bytes, before, index);
    }
}

/// Header tokens that are in order do not decide the error of the header.
proof fn lemma_header_errors_skip(bytes: Seq<u8>, from: nat, to: nat)
    requires
        from <= to <= 8,
        forall|before: nat| from <= before < to ==> header_token_error(bytes, before) is None,
    ensures
        header_error_from(bytes, from) == header_error_from(bytes, to),
    decreases to - from,
{
    if from < to {
        lemma_header_errors_skip(bytes, from + 1, to);
    }
}

/// The field whose value follows the key `key` of an endpoint section.
pub open spec fn endpoint_value_field(key: Seq<u8>) -> Option<BrowserProtocolField> {
    if key == "np".spec_bytes() {
        Some(BrowserProtocolField::NamedPipeName)
    } else if key == "tcp".spec_bytes() {
        Some(BrowserProtocolField::TcpPort)
    } else if key == "via".spec_bytes() {
        Some(BrowserProtocolField::ViaMachineName)
    } else if key == "rpc".spec_bytes() {
        Some(BrowserProtocolField::RpcComputerName)
    } else if key == "spx".spec_bytes() {
        Some(BrowserProtocolField::SpxServiceName)
    } else if key == "adsp".spec_bytes() {
        Some(BrowserProtocolField::AppleTalkObjectName)
    } else if key == "bv".spec_bytes() {
        Some(BrowserProtocolField::BvItemName)
    } else {
        None
    }
}

/// A text that ends behind the key of an endpoint section is refused with
/// the value of that section: the error says that the value of the field
/// which follows the key was expected and the end of the message found.
pub proof fn lemma_missing_endpoint_value(bytes: Seq<u8>, cursor: int, found: InstanceInfoView)
    requires
        has_token(bytes, cursor),
        endpoint_value_field(token_bytes(bytes, cursor)) is Some,
        !has_token(bytes, after_token(bytes, cursor)),
    ensures
        parse_endpoints(bytes, cursor, found) == Err::<
            (InstanceInfoView, int),
            BrowserProtocolErrorView,
        >(
            unexpected(
                BrowserProtocolTokenView::ValueOf(
                    endpoint_value_field(token_bytes(bytes, cursor))->0,
                ),
                BrowserProtocolTokenView::EndOfMessage,
            ),
        ),
{
}

/// A token that ends before `prefix` does is the same token in a text that
/// goes on behind `prefix`.
pub proof fn lemma_token_in_prefix(prefix: Seq<u8>, rest: Seq<u8>, cursor: int)
    requires
        has_token(prefix, cursor),
        token_end(prefix, cursor) < prefix.len(),
    ensures
        has_token(prefix + rest, cursor),
        token_end(prefix + rest, cursor) == token_end(prefix, cursor),
        token_bytes(prefix + rest, cursor) == token_bytes(prefix, cursor),
        after_token(prefix + rest, cursor) == after_token(prefix, cursor),
{
    lemma_find_delimiter(prefix, cursor, SEMICOLON, SEMICOLON);
    lemma_find_delimiter_in_prefix(prefix, rest, cursor, SEMICOLON, SEMICOLON);
}

/// Endpoint sections that end inside `prefix` are read alike in a text that
/// goes on behind `prefix`.
pub proof fn lemma_endpoints_in_prefix(
    prefix: Seq<u8>,
    rest: Seq<u8>,
    cursor: int,
    found: InstanceInfoView,
)
    requires
        parse_endpoints(prefix, cursor, found) matches Ok((_, consumed)) && consumed
            <= prefix.len(),
    ensures
        parse_endpoints(prefix + rest, cursor, found) == parse_endpoints(prefix, cursor, found),
    decreases prefix.len() + 1 - cursor,
{
    let value_start = after_token(prefix, cursor);
    let group_start = after_token(prefix, value_start);
    let org_start = after_token(prefix, group_start);
    lemma_endpoint_step_advances(prefix, cursor, found);
    lemma_find_delimiter(prefix, cursor, SEMICOLON, SEMICOLON);
    match endpoint_step(prefix, cursor, found) {
        EndpointStep::Section(known, next) => {
            lemma_endpoints_end(prefix, next, known);
            lemma_find_delimiter(prefix, value_start, SEMICOLON, SEMICOLON);
            lemma_token_in_prefix(prefix, rest, cursor);
            lemma_token_in_prefix(prefix, rest, value_start);
            lemma_find_delimiter_advances(prefix, group_start, SEMICOLON, SEMICOLON);
            lemma_find_delimiter_advances(prefix, org_start, SEMICOLON, SEMICOLON);
            if next != group_start {
                lemma_find_delimiter(prefix, group_start, SEMICOLON, SEMICOLON);
                lemma_find_delimiter(prefix, org_start, SEMICOLON, SEMICOLON);
                lemma_token_in_prefix(prefix, rest, group_start);
                lemma_token_in_prefix(prefix, rest, org_start);
            }
            assert(endpoint_step(prefix + rest, cursor, found) == endpoint_step(
                prefix,
                cursor,
                found,
            ));
            lemma_endpoints_in_prefix(prefix, rest, next, known);
        },
        EndpointStep::End(consumed) => {
            lemma_token_in_prefix(prefix, rest, cursor);
        },
        EndpointStep::Malformed(_) => {},
    }
}

/// What stands behind a record does not change what the record says: a
/// record that ends inside `record` is parsed alike, to the same instance and
/// the same number of bytes, from a text that goes on with `rest`.
pub proof fn lemma_record_ignores_what_follows(addr: IpAddress, record: Seq<u8>, rest: Seq<u8>)
    requires
        parse_record(addr, record) matches Ok((_, consumed)) && consumed <= record.len(),
    ensures
        parse_record(addr, record + rest) == parse_record(addr, record),
{
    lemma_header_tokens(record);
    lemma_endpoints_end(record, token_start(record, 8), record_header(addr, record));
    reveal_with_fuel(token_start, 9);
    reveal_with_fuel(header_error_from, 9);
    lemma_token_in_prefix(record, rest, token_start(record, 0));
    lemma_token_in_prefix(record, rest, token_start(record, 1));
    lemma_token_in_prefix(record, rest, token_start(record, 2));
    lemma_token_in_prefix(record, rest, token_start(record, 3));
    lemma_token_in_prefix(record, rest, token_start(record, 4));
    lemma_token_in_prefix(record, rest, token_start(record, 5));
    lemma_token_in_prefix(record, rest, token_start(record, 6));
    lemma_token_in_prefix(record, rest, token_start(record, 7));
    lemma_endpoints_in_prefix(record, rest, token_start(record, 8), record_header(addr, record));
}

/// The cursor behind the endpoint section that starts at `cursor`; `None`
/// where no section starts there.
pub open spec fn section_end(bytes: Seq<u8>, cursor: int) -> Option<int> {
    match endpoint_step(bytes, cursor, arbitrary()) {
        EndpointStep::Section(_, next) => Some(next),
        _ => None,
    }
}

/// Whether a section with the key `key` stands among the endpoint sections
/// that start at `cursor` and behind it.
pub open spec fn has_section(bytes: Seq<u8>, cursor: int, key: Seq<u8>) -> bool
    decreases bytes.len() + 1 - cursor,
    via has_section_decreases
{
    match section_end(bytes, cursor) {
        Some(next) => token_bytes(bytes, cursor) == key || has_section(bytes, next, key),
        None => false,
    }
}

#[via_fn]
proof fn has_section_decreases(bytes: Seq<u8>, cursor: int, key: Seq<u8>) {
    lemma_endpoint_step_advances(bytes, cursor, arbitrary());
}

/// Whether a section with the key `key` stands among the endpoint sections
/// of a record.
pub open spec fn record_has_section(bytes: Seq<u8>, key: Seq<u8>) -> bool {
    has_section(bytes, token_start(bytes, 8), key)
}

/// The keys of the endpoint sections start with different letters, and
/// none of them is empty.
pub proof fn lemma_endpoint_keys_differ()
    ensures
        "np".spec_bytes().len() > 0 && "np".spec_bytes()[0] == 0x6E,
        "tcp".spec_bytes().len() > 0 && "tcp".spec_bytes()[0] == 0x74,
        "via".spec_bytes().len() > 0 && "via".spec_bytes()[0] == 0x76,
        "rpc".spec_bytes().len() > 0 && "rpc".spec_bytes()[0] == 0x72,
        "spx".spec_bytes().len() > 0 && "spx".spec_bytes()[0] == 0x73,
        "adsp".spec_bytes().len() > 0 && "adsp".spec_bytes()[0] == 0x61,
        "bv".spec_bytes().len() > 0 && "bv".spec_bytes()[0] == 0x62,
{
    reveal_strlit("np");
    reveal_strlit("tcp");
    reveal_strlit("via");
    reveal_strlit("rpc");
    reveal_strlit("spx");
    reveal_strlit("adsp");
    reveal_strlit("bv");
    is_ascii_chars_encode_utf8("np"@);
    is_ascii_chars_encode_utf8("tcp"@);
    is_ascii_chars_encode_utf8("via"@);
    is_ascii_chars_encode_utf8("rpc"@);
    is_ascii_chars_encode_utf8("spx"@);
    is_ascii_chars_encode_utf8("adsp"@);
    is_ascii_chars_encode_utf8("bv"@);
}

/// Whether the endpoints that are known in `info` are those that were known
/// in `found` and those for which a section stands at `cursor` or behind it.
pub open spec fn endpoints_are_sections(
    bytes: Seq<u8>,
    cursor: int,
    found: InstanceInfoView,
    info: InstanceInfoView,
) -> bool {
    &&& info.np_info is Some <==> found.np_info is Some || has_section(
        bytes,
        cursor,
        "np".spec_bytes(),
    )
    &&& info.tcp_info is Some <==> found.tcp_info is Some || has_section(
        bytes,
        cursor,
        "tcp".spec_bytes(),
    )
    &&& info.via_info is Some <==> found.via_info is Some || has_section(
        bytes,
        cursor,
        "via".spec_bytes(),
    )
    &&& info.rpc_info is Some <==> found.rpc_info is Some || has_section(
        bytes,
        cursor,
        "rpc".spec_bytes(),
    )
    &&& info.spx_info is Some <==> found.spx_info is Some || has_section(
        bytes,
        cursor,
        "spx".spec_bytes(),
    )
    &&& info.adsp_info is Some <==> found.adsp_info is Some || has_section(
        bytes,
        cursor,
        "adsp".spec_bytes(),
    )
    &&& info.bv_info is Some <==> found.bv_info is Some || has_section(
        bytes,
        cursor,
        "bv".spec_bytes(),
    )
}

/// Reading endpoint sections makes known the endpoints for which a section
/// stands in the text, and no others.
pub proof fn lemma_endpoints_are_sections(bytes: Seq<u8>, cursor: int, found: InstanceInfoView)
    ensures
        parse_endpoints(bytes, cursor, found) matches Ok((info, _)) ==> endpoints_are_sections(
            bytes,
            cursor,
            found,
            info,
        ),
    decreases bytes.len() + 1 - cursor,
{
    lemma_endpoint_keys_differ();
    lemma_endpoint_step_advances(bytes, cursor, found);
    match endpoint_step(bytes, cursor, found) {
        EndpointStep::Section(known, next) => {
            lemma_endpoints_are_sections(bytes, next, known);
        },
        EndpointStep::End(_) => {
        },
        EndpointStep::Malformed(_) => {},
    }
}

/// An endpoint of an instance is known exactly where the record of the
/// instance holds a section for it.
pub proof fn lemma_record_endpoints(addr: IpAddress, bytes: Seq<u8>)
    ensures
        parse_record(addr, bytes) matches Ok((info, _)) ==> {
            &&& info.np_info is Some <==> record_has_section(bytes, "np".spec_bytes())
            &&& info.tcp_info is Some <==> record_has_section(bytes, "tcp".spec_bytes())
            &&& info.via_info is Some <==> record_has_section(bytes, "via".spec_bytes())
            &&& info.rpc_info is Some <==> record_has_section(bytes, "rpc".spec_bytes())
            &&& info.spx_info is Some <==> record_has_section(bytes, "spx".spec_bytes())
            &&& info.adsp_info is Some <==> record_has_section(bytes, "adsp".spec_bytes())
            &&& info.bv_info is Some <==> record_has_section(bytes, "bv".spec_bytes())
        },
{
    lemma_endpoints_are_sections(bytes, token_start(bytes, 8), record_header(addr, bytes));
}

} // verus!
