//! The enumeration of the instances of one host.

use std::collections::VecDeque;
use vstd::prelude::*;
use vstd::string::*;
use vstd::utf8::*;
use crate::browse_instance::instance_response;
use crate::error::{BrowserProtocolError, BrowserProtocolErrorView};
use crate::info::{parse_instance_info, InstanceInfo, InstanceInfoView};
use crate::record::{
    lemma_record_end, lemma_record_error_names_token, lemma_record_ignores_what_follows,
    names_record_token, parse_record, unparsed_tail,
};
use crate::socket::{is_unicast, Exchange, IpAddress};
use crate::text::{lemma_ascii_byte_boundaries, lemma_text_of_str, text_from_utf8};
use crate::wire::{
    declared_length, encode_enumeration_request, enumeration_request, frame_header_error,
    lemma_payload_length_mismatch, payload_frame_error, payload_of, read_payload_frame,
    HEADER_LEN,
};

verus! {

/// Longest payload of the response to an enumeration.
pub const MAX_ENUMERATION_PAYLOAD_LEN: usize = 65535;

/// Plans the enumeration of the instances of the host `remote_addr`.
pub fn host_query(remote_addr: IpAddress) -> (plan: Exchange)
    ensures
        is_unicast(plan, remote_addr),
        plan.request@ == enumeration_request(),
        plan.receive_capacity == HEADER_LEN + MAX_ENUMERATION_PAYLOAD_LEN,
{
    let request = encode_enumeration_request();
    Exchange::unicast(remote_addr, request, HEADER_LEN + MAX_ENUMERATION_PAYLOAD_LEN)
}

/// The views of a sequence of instances, one for one.
pub open spec fn instances_view(instances: Seq<InstanceInfo>) -> Seq<InstanceInfoView> {
    Seq::new(instances.len(), |i: int| instances[i]@)
}

/// The records that `text` holds one behind the other, behind those in
/// `found`: each record starts where the one before it ends, until nothing is
/// left of the text. One malformed record fails them all.
pub open spec fn parse_records(
    addr: IpAddress,
    text: Seq<u8>,
    found: Seq<InstanceInfoView>,
) -> Result<Seq<InstanceInfoView>, BrowserProtocolErrorView>
    decreases text.len(),
    via parse_records_decreases
{
    if text.len() == 0 {
        Ok(found)
    } else {
        match parse_record(addr, text) {
            Ok((info, consumed)) => parse_records(
                addr,
                unparsed_tail(text, consumed),
                found.push(info),
            ),
            Err(error) => Err(error),
        }
    }
}

#[via_fn]
proof fn parse_records_decreases(addr: IpAddress, text: Seq<u8>, found: Seq<InstanceInfoView>) {
    lemma_record_end(addr, text);
}

/// Records that follow a record are parsed behind it: where `record` is a
/// record from its first to its last byte, the records of a text that goes
/// on with `rest` are the instance of `record`, then those of `rest`.
pub proof fn lemma_records_behind_record(
    addr: IpAddress,
    record: Seq<u8>,
    rest: Seq<u8>,
    found: Seq<InstanceInfoView>,
)
    requires
        parse_record(addr, record) matches Ok((_, consumed)) && consumed == record.len(),
    ensures
        parse_records(addr, record + rest, found) == parse_records(
            addr,
            rest,
            found.push(parse_record(addr, record)->Ok_0.0),
        ),
{
    lemma_record_end(addr, record);
    lemma_record_ignores_what_follows(addr, record, rest);
    assert(unparsed_tail(record + rest, record.len() as int) =~= rest);
}

/// Two records back to back are parsed into two instances in their order:
/// the first parse consumes the first record, the second parse starts where
/// the first one ended and consumes the second record.
pub proof fn lemma_two_records_back_to_back(addr: IpAddress, first: Seq<u8>, second: Seq<u8>)
    requires
        parse_record(addr, first) matches Ok((_, consumed)) && consumed == first.len(),
        parse_record(addr, second) matches Ok((_, consumed)) && consumed == second.len(),
    ensures
        parse_record(addr, first + second) == parse_record(addr, first),
        unparsed_tail(first + second, first.len() as int) == second,
        parse_records(addr, first + second, Seq::empty()) == Ok::<
            Seq<InstanceInfoView>,
            BrowserProtocolErrorView,
        >(seq![parse_record(addr, first)->Ok_0.0, parse_record(addr, second)->Ok_0.0]),
{
    let one = parse_record(addr, first)->Ok_0.0;
    let two = parse_record(addr, second)->Ok_0.0;
    lemma_record_end(addr, first);
    lemma_record_end(addr, second);
    lemma_record_ignores_what_follows(addr, first, second);
    lemma_records_behind_record(addr, first, second, Seq::empty());
    lemma_records_behind_record(addr, second, Seq::empty(), seq![one]);
    assert(seq![one].push(two) =~= seq![one, two]);
}

/// The outcome of parsing records, over views.
pub open spec fn records_view(result: Result<Vec<InstanceInfo>, BrowserProtocolError>) -> Result<
    Seq<InstanceInfoView>,
    BrowserProtocolErrorView,
> {
    match result {
        Ok(instances) => Ok(instances_view(instances@)),
        Err(error) => Err(error@),
    }
}

/// Parses all the records that `text` holds one behind the other, each
/// stamped with `addr`.
pub fn parse_instances(addr: IpAddress, text: &str) -> (result: Result<
    Vec<InstanceInfo>,
    BrowserProtocolError,
>)
    requires
        text.spec_bytes().len() < usize::MAX,
    ensures
        records_view(result) == parse_records(addr, text.spec_bytes(), Seq::empty()),
{
    let mut instances: Vec<InstanceInfo> = Vec::new();
    let mut rest: &str = text;
    assert(instances_view(instances@) =~= Seq::empty());
    while rest.as_bytes().len() > 0
        invariant
            rest.spec_bytes().len() < usize::MAX,
            parse_records(addr, text.spec_bytes(), Seq::empty()) == parse_records(
                addr,
                rest.spec_bytes(),
                instances_view(instances@),
            ),
        decreases rest.spec_bytes().len(),
    {
        let ghost bytes = rest.spec_bytes();
        let ghost before = instances_view(instances@);
        let (info, consumed) = parse_instance_info(addr, rest)?;
        instances.push(info);
        assert(instances_view(instances@) =~= before.push(info@));
        let length = rest.as_bytes().len();
        let cut = if consumed < length {
            consumed
        } else {
            length
        };
        proof {
            lemma_record_end(addr, bytes);
            lemma_text_of_str(rest);
            if consumed < length {
                lemma_ascii_byte_boundaries(bytes, consumed - 1);
            } else {
                is_char_boundary_start_end_of_seq(bytes);
            }
        }
        let (_, tail) = rest.split_at(cut);
        rest = tail;
    }
    Ok(instances)
}

/// What the response `datagram` to an enumeration says of the instances at
/// `addr`: the frame is checked, the payload is read as UTF-8 text, and the
/// text is parsed into records, all of them or none.
pub open spec fn host_response(addr: IpAddress, datagram: Seq<u8>) -> Result<
    Seq<InstanceInfoView>,
    BrowserProtocolErrorView,
> {
    match payload_frame_error(datagram) {
        Some(error) => Err(error),
        None => if !valid_utf8(payload_of(datagram)) {
            Err(BrowserProtocolErrorView::InvalidUtf8)
        } else {
            parse_records(addr, payload_of(datagram), Seq::empty())
        },
    }
}

/// An error among the records of a text names the token that is missing or
/// wrong.
pub proof fn lemma_records_error_names_token(
    addr: IpAddress,
    text: Seq<u8>,
    found: Seq<InstanceInfoView>,
)
    ensures
        parse_records(addr, text, found) matches Err(error) ==> names_record_token(error),
    decreases text.len(),
{
    if text.len() > 0 {
        lemma_record_end(addr, text);
        lemma_record_error_names_token(addr, text);
        match parse_record(addr, text) {
            Ok((info, consumed)) => {
                lemma_records_error_names_token(
                    addr,
                    unparsed_tail(text, consumed),
                    found.push(info),
                );
            },
            Err(_) => {},
        }
    }
}

/// The response to an enumeration is refused for its length exactly where
/// its header is in order and the length that it declares is not the length
/// of its payload.
pub proof fn lemma_enumeration_length_mismatch(addr: IpAddress, datagram: Seq<u8>)
    ensures
        (host_response(addr, datagram) matches Err(error) && error is LengthMismatch) <==> (
        frame_header_error(datagram) is None && declared_length(datagram) != payload_of(
            datagram,
        ).len()),
{
    lemma_payload_length_mismatch(datagram);
    lemma_records_error_names_token(addr, payload_of(datagram), Seq::empty());
}

/// A response that answers a query for one instance is, read as an
/// enumeration, the list of that one instance.
pub proof fn lemma_instance_response_enumerates(addr: IpAddress, datagram: Seq<u8>)
    requires
        instance_response(addr, datagram) is Ok,
    ensures
        host_response(addr, datagram) == Ok::<Seq<InstanceInfoView>, BrowserProtocolErrorView>(
            seq![instance_response(addr, datagram)->Ok_0],
        ),
{
    let payload = payload_of(datagram);
    lemma_record_end(addr, payload);
    assert(payload =~= payload + Seq::<u8>::empty());
    lemma_records_behind_record(addr, payload, Seq::empty(), Seq::empty());
}

/// Reads the response to an enumeration into the instances that it lists,
/// each stamped with `addr`.
pub fn read_enumeration_response(addr: IpAddress, datagram: &[u8]) -> (result: Result<
    Vec<InstanceInfo>,
    BrowserProtocolError,
>)
    ensures
        records_view(result) == host_response(addr, datagram@),
{
    let payload = read_payload_frame(datagram)?;
    match text_from_utf8(payload) {
        Some(text) => parse_instances(addr, text),
        None => Err(BrowserProtocolError::InvalidUtf8),
    }
}

/// Moves `instances` into a queue, keeping their order.
pub(crate) fn into_queue(instances: Vec<InstanceInfo>) -> (queue: VecDeque<InstanceInfo>)
    ensures
        queue@ == instances@,
{
    let mut source = instances;
    let mut queue: VecDeque<InstanceInfo> = VecDeque::new();
    while source.len() > 0
        invariant
            source@ + queue@ == instances@,
        decreases source@.len(),
    {
        if let Some(last) = source.pop() {
            queue.push_front(last);
        }
        assert(source@ + queue@ =~= instances@);
    }
    queue
}

/// The instances of one host, all parsed, in the order of the response.
#[derive(Debug, Clone, PartialEq, Eq)]
pub struct InstanceIterator {
    instances: VecDeque<InstanceInfo>,
}

impl View for InstanceIterator {
    type V = Seq<InstanceInfoView>;

    /// The instances that are left, the next one first.
    closed spec fn view(&self) -> Seq<InstanceInfoView> {
        instances_view(self.instances@)
    }
}

impl InstanceIterator {
    /// Hands out `instances` in their order.
    pub fn new(instances: Vec<InstanceInfo>) -> (iterator: InstanceIterator)
        ensures
            iterator@ == instances_view(instances@),
    {
        InstanceIterator { instances: into_queue(instances) }
    }

    /// The number of instances that are left.
    pub fn len(&self) -> (left: usize)
        ensures
            left == self@.len(),
    {
        self.instances.len()
    }

    /// The next instance, while one is left.
    pub fn next(&mut self) -> (instance: Option<InstanceInfo>)
        ensures
            match instance {
                Some(info) => old(self)@.len() > 0 && info@ == old(self)@[0] && final(self)@
                    == old(self)@.drop_first(),
                None => old(self)@.len() == 0 && final(self)@ == old(self)@,
            },
    {
        let instance = self.instances.pop_front();
        assert(instances_view(self.instances@) =~= if instance is Some {
            instances_view(old(self).instances@).drop_first()
        } else {
            instances_view(old(self).instances@)
        });
        instance
    }
}

/// Reads the response to the enumeration of the host `addr`.
pub fn read_host_response(addr: IpAddress, datagram: &[u8]) -> (result: Result<
    InstanceIterator,
    BrowserProtocolError,
>)
    ensures
        match result {
            Ok(iterator) => host_response(addr, datagram@) == Ok::<
                Seq<InstanceInfoView>,
                BrowserProtocolErrorView,
            >(iterator@),
            Err(error) => host_response(addr, datagram@) == Err::<
                Seq<InstanceInfoView>,
                BrowserProtocolErrorView,
            >(error@),
        },
{
    let instances = read_enumeration_response(addr, datagram)?;
    Ok(InstanceIterator::new(instances))
}

} // verus!
