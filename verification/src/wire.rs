//! The frames of the protocol: the message identifiers, the requests, and
//! the header that every response starts with.

use vstd::prelude::*;
use vstd::slice::slice_subrange;
use crate::error::{
    unexpected, BrowserProtocolError, BrowserProtocolErrorView, BrowserProtocolToken,
    BrowserProtocolTokenView,
};

verus! {

/// Asks every browser service that hears it for all its instances.
pub const CLNT_BCAST_EX: u8 = 0x02;

/// Asks one host for one instance.
pub const CLNT_UCAST_INST: u8 = 0x04;

/// Asks one host for the dedicated administrator connection of an instance.
pub const CLNT_UCAST_DAC: u8 = 0x0F;

/// Starts every response.
pub const SVR_RESP: u8 = 0x05;

/// The version of the query for a dedicated administrator connection that
/// this library speaks.
pub const DAC_VERSION: u8 = 0x01;

/// Bytes before the payload of a response: the identifier and the length.
pub const HEADER_LEN: usize = 3;

/// The request for the instance called `name`: the identifier, then the
/// name, and nothing behind it.
pub open spec fn instance_request(name: Seq<u8>) -> Seq<u8> {
    seq![CLNT_UCAST_INST] + name
}

/// The request for the dedicated administrator connection of the instance
/// called `name`: the identifier, the version, then the name.
pub open spec fn dac_request(name: Seq<u8>) -> Seq<u8> {
    seq![CLNT_UCAST_DAC, DAC_VERSION] + name
}

/// The request for all instances: the identifier alone.
pub open spec fn enumeration_request() -> Seq<u8> {
    seq![CLNT_BCAST_EX]
}

/// Encodes the request for the instance called `name`.
pub fn encode_instance_request(name: &[u8]) -> (request: Vec<u8>)
    ensures
        request@ == instance_request(name@),
{
    let mut request: Vec<u8> = Vec::new();
    request.push(CLNT_UCAST_INST);
    request.extend_from_slice(name);
    request
}

/// Encodes the request for the dedicated administrator connection of the
/// instance called `name`.
pub fn encode_dac_request(name: &[u8]) -> (request: Vec<u8>)
    ensures
        request@ == dac_request(name@),
{
    let mut request: Vec<u8> = Vec::new();
    request.push(CLNT_UCAST_DAC);
    request.push(DAC_VERSION);
    request.extend_from_slice(name);
    request
}

/// Encodes the request for all instances.
pub fn encode_enumeration_request() -> (request: Vec<u8>)
    ensures
        request@ == enumeration_request(),
{
    let mut request: Vec<u8> = Vec::new();
    request.push(CLNT_BCAST_EX);
    request
}

/// The 16-bit number that two bytes spell, the low byte first.
pub open spec fn little_endian(low: u8, high: u8) -> int {
    low + 256 * high
}

/// Reads a 16-bit number, the low byte first.
pub(crate) fn read_little_endian(low: u8, high: u8) -> (value: u16)
    ensures
        value == little_endian(low, high),
{
    low as u16 + 256 * (high as u16)
}

/// The length that the header of `datagram` declares.
pub open spec fn declared_length(datagram: Seq<u8>) -> int
    recommends
        datagram.len() >= 3,
{
    little_endian(datagram[1], datagram[2])
}

/// The error, if any, in the first three bytes of a response: the
/// identifier `SVR_RESP`, then two bytes of length.
pub open spec fn frame_header_error(datagram: Seq<u8>) -> Option<BrowserProtocolErrorView> {
    if datagram.len() < 1 {
        Some(
            unexpected(
                BrowserProtocolTokenView::MessageIdentifier(SVR_RESP),
                BrowserProtocolTokenView::EndOfMessage,
            ),
        )
    } else if datagram[0] != SVR_RESP {
        Some(
            unexpected(
                BrowserProtocolTokenView::MessageIdentifier(SVR_RESP),
                BrowserProtocolTokenView::MessageIdentifier(datagram[0]),
            ),
        )
    } else if datagram.len() < 3 {
        Some(
            unexpected(
                BrowserProtocolTokenView::MessageLength,
                BrowserProtocolTokenView::EndOfMessage,
            ),
        )
    } else {
        None
    }
}

/// The error, if any, in the frame of a response that carries a payload: the
/// length that the header declares counts the payload alone. A mismatch is
/// reported with both lengths counting the whole datagram.
pub open spec fn payload_frame_error(datagram: Seq<u8>) -> Option<BrowserProtocolErrorView> {
    if frame_header_error(datagram) is Some {
        frame_header_error(datagram)
    } else if declared_length(datagram) != datagram.len() - 3 {
        Some(
            BrowserProtocolErrorView::LengthMismatch {
                datagram: datagram.len() as int,
                header: declared_length(datagram) + 3,
            },
        )
    } else {
        None
    }
}

/// The payload of a response: what follows the header.
pub open spec fn payload_of(datagram: Seq<u8>) -> Seq<u8> {
    datagram.subrange(3, datagram.len() as int)
}

/// A response that ends inside its header is refused with the field that it
/// lacks: the identifier where nothing was received, else the length.
pub proof fn lemma_truncated_frame_header(datagram: Seq<u8>)
    requires
        datagram.len() < HEADER_LEN,
        datagram.len() > 0 ==> datagram[0] == SVR_RESP,
    ensures
        frame_header_error(datagram) == Some(
            unexpected(
                if datagram.len() == 0 {
                    BrowserProtocolTokenView::MessageIdentifier(SVR_RESP)
                } else {
                    BrowserProtocolTokenView::MessageLength
                },
                BrowserProtocolTokenView::EndOfMessage,
            ),
        ),
{
}

/// A response that carries a payload is refused for its length exactly
/// where its header is in order and the length that it declares is not the
/// length of its payload. The error then holds the length received and the
/// length that the header stands for, header included.
pub proof fn lemma_payload_length_mismatch(datagram: Seq<u8>)
    ensures
        (payload_frame_error(datagram) matches Some(error) && error is LengthMismatch) <==> (
        frame_header_error(datagram) is None && declared_length(datagram) != payload_of(
            datagram,
        ).len()),
        payload_frame_error(datagram) matches Some(
            BrowserProtocolErrorView::LengthMismatch { datagram: received, header },
        ) ==> received == datagram.len() && header == declared_length(datagram) + HEADER_LEN,
{
}

/// Checks the first three bytes of a response and reads the length that they
/// declare.
pub fn read_frame_header(datagram: &[u8]) -> (result: Result<u16, BrowserProtocolError>)
    ensures
        match result {
            Ok(declared) => frame_header_error(datagram@) is None && declared == declared_length(
                datagram@,
            ),
            Err(error) => frame_header_error(datagram@) == Some(error@),
        },
{
    if datagram.len() < 1 {
        return Err(
            BrowserProtocolError::UnexpectedToken {
                expected: BrowserProtocolToken::MessageIdentifier(SVR_RESP),
                found: BrowserProtocolToken::EndOfMessage,
            },
        );
    }
    if datagram[0] != SVR_RESP {
        return Err(
            BrowserProtocolError::UnexpectedToken {
                expected: BrowserProtocolToken::MessageIdentifier(SVR_RESP),
                found: BrowserProtocolToken::MessageIdentifier(datagram[0]),
            },
        );
    }
    if datagram.len() < 3 {
        return Err(
            BrowserProtocolError::UnexpectedToken {
                expected: BrowserProtocolToken::MessageLength,
                found: BrowserProtocolToken::EndOfMessage,
            },
        );
    }
    Ok(read_little_endian(datagram[1], datagram[2]))
}

/// Checks the frame of a response that carries a payload, and hands out the
/// payload.
pub fn read_payload_frame<'a>(datagram: &'a [u8]) -> (result: Result<
    &'a [u8],
    BrowserProtocolError,
>)
    ensures
        match result {
            Ok(payload) => payload_frame_error(datagram@) is None && payload@ == payload_of(
                datagram@,
            ),
            Err(error) => payload_frame_error(datagram@) == Some(error@),
        },
{
    let declared = read_frame_header(datagram)?;
    if declared as usize != datagram.len() - HEADER_LEN {
        return Err(
            BrowserProtocolError::LengthMismatch {
                datagram: datagram.len(),
                header: declared as usize + HEADER_LEN,
            },
        );
    }
    Ok(slice_subrange(datagram, HEADER_LEN, datagram.len()))
}

} // verus!
