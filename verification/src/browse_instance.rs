//! The query for one instance of one host.

use vstd::prelude::*;
use vstd::string::*;
use vstd::slice::{slice_subrange, slice_to_vec};
use vstd::utf8::valid_utf8;
use crate::error::{BrowserError, BrowserProtocolError, BrowserProtocolErrorView};
use crate::info::{parse_instance_info, InstanceInfo, InstanceInfoView};
use crate::record::{lemma_record_error_names_token, parse_record, unparsed_tail};
use crate::socket::{is_unicast, Exchange, IpAddress};
use crate::text::text_from_utf8;
use crate::wire::{
    declared_length, encode_instance_request, frame_header_error, instance_request,
    lemma_payload_length_mismatch, payload_frame_error, payload_of, read_payload_frame,
    HEADER_LEN,
};
use crate::MAX_INSTANCE_NAME_LEN;

verus! {

/// Longest payload of the response to a query for one instance.
pub const MAX_INSTANCE_PAYLOAD_LEN: usize = 1024;

/// Plans the query for the instance `instance_name` of the host
/// `remote_addr`. A name of more than `MAX_INSTANCE_NAME_LEN` bytes is
/// refused, and nothing is to be sent.
pub fn instance_query<SFError, SError>(remote_addr: IpAddress, instance_name: &str) -> (result:
    Result<Exchange, BrowserError<SFError, SError>>)
    ensures
        instance_name.spec_bytes().len() > MAX_INSTANCE_NAME_LEN ==> result matches Err(
            BrowserError::InstanceNameTooLong,
        ),
        instance_name.spec_bytes().len() <= MAX_INSTANCE_NAME_LEN ==> {
            &&& result matches Ok(plan)
            &&& is_unicast(plan, remote_addr)
            &&& plan.request@ == instance_request(instance_name.spec_bytes())
            &&& plan.receive_capacity == HEADER_LEN + MAX_INSTANCE_PAYLOAD_LEN
        },
{
    let name = instance_name.as_bytes();
    if name.len() > MAX_INSTANCE_NAME_LEN {
        return Err(BrowserError::InstanceNameTooLong);
    }
    let request = encode_instance_request(name);
    Ok(Exchange::unicast(remote_addr, request, HEADER_LEN + MAX_INSTANCE_PAYLOAD_LEN))
}

/// What the response `datagram` to a query for one instance says of the
/// instance at `addr`: the frame is checked, the payload is read as UTF-8
/// text, and the text is one record that takes the whole payload.
pub open spec fn instance_response(addr: IpAddress, datagram: Seq<u8>) -> Result<
    InstanceInfoView,
    BrowserProtocolErrorView,
> {
    let payload = payload_of(datagram);
    match payload_frame_error(datagram) {
        Some(error) => Err(error),
        None => if !valid_utf8(payload) {
            Err(BrowserProtocolErrorView::InvalidUtf8)
        } else {
            match parse_record(addr, payload) {
                Err(error) => Err(error),
                Ok((info, consumed)) => if consumed == payload.len() {
                    Ok(info)
                } else {
                    Err(BrowserProtocolErrorView::ExtraneousData(unparsed_tail(payload, consumed)))
                },
            }
        },
    }
}

/// The response to a query for one instance is refused for its length
/// exactly where its header is in order and the length that it declares is
/// not the length of its payload.
pub proof fn lemma_instance_length_mismatch(addr: IpAddress, datagram: Seq<u8>)
    ensures
        (instance_response(addr, datagram) matches Err(error) && error is LengthMismatch) <==> (
        frame_header_error(datagram) is None && declared_length(datagram) != payload_of(
            datagram,
        ).len()),
{
    lemma_payload_length_mismatch(datagram);
    lemma_record_error_names_token(addr, payload_of(datagram));
}

/// The outcome of reading a response, over views.
pub open spec fn instance_view(result: Result<InstanceInfo, BrowserProtocolError>) -> Result<
    InstanceInfoView,
    BrowserProtocolErrorView,
> {
    match result {
        Ok(info) => Ok(info@),
        Err(error) => Err(error@),
    }
}

/// Copies what a parser that consumed `consumed` bytes of `payload` has not
/// read.
pub(crate) fn copy_unparsed_tail(payload: &[u8], consumed: usize) -> (tail: Vec<u8>)
    ensures
        tail@ == unparsed_tail(payload@, consumed as int),
{
    if consumed < payload.len() {
        slice_to_vec(slice_subrange(payload, consumed, payload.len()))
    } else {
        Vec::new()
    }
}

/// Reads the response to a query for one instance of the host `addr`.
pub fn read_instance_response(addr: IpAddress, datagram: &[u8]) -> (result: Result<
    InstanceInfo,
    BrowserProtocolError,
>)
    ensures
        instance_view(result) == instance_response(addr, datagram@),
{
    let payload = read_payload_frame(datagram)?;
    let text = match text_from_utf8(payload) {
        Some(text) => text,
        None => {
            return Err(BrowserProtocolError::InvalidUtf8);
        },
    };
    let (info, consumed) = parse_instance_info(addr, text)?;
    if consumed != payload.len() {
        return Err(BrowserProtocolError::ExtraneousData(copy_unparsed_tail(payload, consumed)));
    }
    Ok(info)
}

} // verus!
