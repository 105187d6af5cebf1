//! The query for the dedicated administrator connection of an instance.

use vstd::prelude::*;
use vstd::string::*;
use crate::error::{
    unexpected, BrowserError, BrowserProtocolError, BrowserProtocolErrorView,
    BrowserProtocolToken, BrowserProtocolTokenView,
};
use crate::info::DacInfo;
use crate::socket::{is_unicast, Exchange, IpAddress};
use crate::wire::{
    dac_request, declared_length, encode_dac_request, frame_header_error, little_endian,
    read_frame_header, read_little_endian, DAC_VERSION, SVR_RESP,
};
use crate::MAX_INSTANCE_NAME_LEN;

verus! {

/// The length of a response: header, version and port.
pub const DAC_RESPONSE_LEN: usize = 6;

/// Plans the query for the dedicated administrator connection of the
/// instance `instance_name` of the host `remote_addr`. A name of more than
/// `MAX_INSTANCE_NAME_LEN` bytes is refused, and nothing is to be sent.
pub fn dac_query<SFError, SError>(remote_addr: IpAddress, instance_name: &str) -> (result: Result<
    Exchange,
    BrowserError<SFError, SError>,
>)
    ensures
        instance_name.spec_bytes().len() > MAX_INSTANCE_NAME_LEN ==> result matches Err(
            BrowserError::InstanceNameTooLong,
        ),
        instance_name.spec_bytes().len() <= MAX_INSTANCE_NAME_LEN ==> {
            &&& result matches Ok(plan)
            &&& is_unicast(plan, remote_addr)
            &&& plan.request@ == dac_request(instance_name.spec_bytes())
            &&& plan.receive_capacity == DAC_RESPONSE_LEN
        },
{
    let name = instance_name.as_bytes();
    if name.len() > MAX_INSTANCE_NAME_LEN {
        return Err(BrowserError::InstanceNameTooLong);
    }
    let request = encode_dac_request(name);
    Ok(Exchange::unicast(remote_addr, request, DAC_RESPONSE_LEN))
}

/// What the response `datagram` to a query for a dedicated administrator
/// connection says. The fields are checked in their order: identifier,
/// length, version, port; a datagram that ends early is reported with the
/// first field that it lacks. The length that the header declares counts
/// the whole response, which has `DAC_RESPONSE_LEN` bytes; bytes behind
/// those are not read.
pub open spec fn dac_response(datagram: Seq<u8>) -> Result<DacInfo, BrowserProtocolErrorView> {
    match frame_header_error(datagram) {
        Some(error) => Err(error),
        None => if declared_length(datagram) != DAC_RESPONSE_LEN {
            Err(
                BrowserProtocolErrorView::LengthMismatch {
                    datagram: datagram.len() as int,
                    header: declared_length(datagram),
                },
            )
        } else if datagram.len() < 4 {
            Err(
                unexpected(
                    BrowserProtocolTokenView::DacVersion(DAC_VERSION),
                    BrowserProtocolTokenView::EndOfMessage,
                ),
            )
        } else if datagram[3] != DAC_VERSION {
            Err(
                unexpected(
                    BrowserProtocolTokenView::DacVersion(DAC_VERSION),
                    BrowserProtocolTokenView::DacVersion(datagram[3]),
                ),
            )
        } else if datagram.len() < 6 {
            Err(
                unexpected(
                    BrowserProtocolTokenView::DacPort,
                    BrowserProtocolTokenView::EndOfMessage,
                ),
            )
        } else {
            Ok(DacInfo { port: little_endian(datagram[4], datagram[5]) as u16 })
        },
    }
}

/// The field of a response in which the byte at `offset` lies.
pub open spec fn dac_field_at(offset: int) -> BrowserProtocolTokenView {
    if offset < 1 {
        BrowserProtocolTokenView::MessageIdentifier(SVR_RESP)
    } else if offset < 3 {
        BrowserProtocolTokenView::MessageLength
    } else if offset < 4 {
        BrowserProtocolTokenView::DacVersion(DAC_VERSION)
    } else {
        BrowserProtocolTokenView::DacPort
    }
}

/// A response that is cut short is refused with the field that it lacks:
/// of a well-formed response, the first `length` bytes alone are refused with
/// the field in which the first missing byte lies, expected where the
/// message ends.
pub proof fn lemma_truncated_dac_response(response: Seq<u8>, length: int)
    requires
        dac_response(response) is Ok,
        0 <= length < DAC_RESPONSE_LEN,
    ensures
        dac_response(response.subrange(0, length)) == Err::<DacInfo, BrowserProtocolErrorView>(
            unexpected(dac_field_at(length), BrowserProtocolTokenView::EndOfMessage),
        ),
{
}

/// The response to a query for a dedicated administrator connection is
/// refused for its length exactly where its header is in order and the length
/// that it declares is not `DAC_RESPONSE_LEN`. The error then holds the
/// length received and the length declared.
pub proof fn lemma_dac_length_mismatch(datagram: Seq<u8>)
    ensures
        (dac_response(datagram) matches Err(error) && error is LengthMismatch) <==> (
        frame_header_error(datagram) is None && declared_length(datagram) != DAC_RESPONSE_LEN),
        dac_response(datagram) matches Err(
            BrowserProtocolErrorView::LengthMismatch { datagram: received, header },
        ) ==> received == datagram.len() && header == declared_length(datagram),
{
}

/// The outcome of reading a response, over views.
pub open spec fn dac_view(result: Result<DacInfo, BrowserProtocolError>) -> Result<
    DacInfo,
    BrowserProtocolErrorView,
> {
    match result {
        Ok(info) => Ok(info),
        Err(error) => Err(error@),
    }
}

/// Reads the response to a query for a dedicated administrator connection.
pub fn read_dac_response(datagram: &[u8]) -> (result: Result<DacInfo, BrowserProtocolError>)
    ensures
        dac_view(result) == dac_response(datagram@),
{
    let declared = read_frame_header(datagram)?;
    if declared as usize != DAC_RESPONSE_LEN {
        return Err(
            BrowserProtocolError::LengthMismatch {
                datagram: datagram.len(),
                header: declared as usize,
            },
        );
    }
    if datagram.len() < 4 {
        return Err(
            BrowserProtocolError::UnexpectedToken {
                expected: BrowserProtocolToken::DacVersion(DAC_VERSION),
                found: BrowserProtocolToken::EndOfMessage,
            },
        );
    }
    if datagram[3] != DAC_VERSION {
        return Err(
            BrowserProtocolError::UnexpectedToken {
                expected: BrowserProtocolToken::DacVersion(DAC_VERSION),
                found: BrowserProtocolToken::DacVersion(datagram[3]),
            },
        );
    }
    if datagram.len() < 6 {
        return Err(
            BrowserProtocolError::UnexpectedToken {
                expected: BrowserProtocolToken::DacPort,
                found: BrowserProtocolToken::EndOfMessage,
            },
        );
    }
    Ok(DacInfo { port: read_little_endian(datagram[4], datagram[5]) })
}

} // verus!
