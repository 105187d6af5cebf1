//! The enumeration of the instances of a network: one request to a
//! broadcast or multicast address, answered by any number of hosts over time.

use std::collections::VecDeque;
use vstd::prelude::*;
use crate::browse_host::{
    host_response, instances_view, into_queue, read_enumeration_response,
    MAX_ENUMERATION_PAYLOAD_LEN,
};
use crate::error::{BrowserProtocolError, BrowserProtocolErrorView};
use crate::info::{InstanceInfo, InstanceInfoView};
use crate::socket::{is_broadcast, Exchange, IpAddress};
use crate::wire::{encode_enumeration_request, enumeration_request, HEADER_LEN};

verus! {

/// Plans the enumeration of the instances that the broadcast or multicast
/// address `broadcast_addr` reaches.
pub fn network_query(broadcast_addr: IpAddress) -> (plan: Exchange)
    ensures
        is_broadcast(plan, broadcast_addr),
        plan.request@ == enumeration_request(),
        plan.receive_capacity == HEADER_LEN + MAX_ENUMERATION_PAYLOAD_LEN,
{
    let request = encode_enumeration_request();
    Exchange::broadcast(broadcast_addr, request, HEADER_LEN + MAX_ENUMERATION_PAYLOAD_LEN)
}

/// The instances that an enumeration of a network has received and not yet
/// handed out.
///
/// The enumeration goes on for as long as its caller pulls: `next` hands out
/// the oldest instance, or tells that a datagram has to be received, which
/// `receive` then takes. A malformed datagram ends the enumeration: `receive`
/// consumes the backlog and gives none back.
#[derive(Debug, Clone, PartialEq, Eq)]
pub struct InstanceBacklog {
    instances: VecDeque<InstanceInfo>,
}

impl View for InstanceBacklog {
    type V = Seq<InstanceInfoView>;

    /// The instances that wait, the oldest first.
    closed spec fn view(&self) -> Seq<InstanceInfoView> {
        instances_view(self.instances@)
    }
}

impl InstanceBacklog {
    /// The backlog of an enumeration that has received nothing yet.
    pub fn new() -> (backlog: InstanceBacklog)
        ensures
            backlog@ == Seq::<InstanceInfoView>::empty(),
    {
        let backlog = InstanceBacklog { instances: VecDeque::new() };
        backlog
    }

    /// The oldest instance that waits. `None` says that none waits: the next
    /// datagram has to be received.
    pub fn next(&mut self) -> (instance: Option<InstanceInfo>)
        ensures
            match instance {
                Some(info) => old(self)@.len() > 0 && info@ == old(self)@[0] && final(self)@
                    == old(self)@.drop_first(),
                None => old(self)@.len() == 0 && final(self)@ == old(self)@,
            },
    {
        let instance = self.instances.pop_front();
        assert(instances_view(self.instances@) =~= if instance is Some {
            instances_view(old(self).instances@).drop_first()
        } else {
            instances_view(old(self).instances@)
        });
        instance
    }

    /// Takes a datagram that came from `origin`: the instances that it
    /// lists, each stamped with `origin`, wait behind those that waited
    /// before. A malformed datagram ends the enumeration with its error.
    pub fn receive(self, origin: IpAddress, datagram: &[u8]) -> (result: Result<
        InstanceBacklog,
        BrowserProtocolError,
    >)
        ensures
            match result {
                Ok(backlog) => host_response(origin, datagram@) matches Ok(listed) && backlog@
                    == self@ + listed,
                Err(error) => host_response(origin, datagram@) == Err::<
                    Seq<InstanceInfoView>,
                    BrowserProtocolErrorView,
                >(error@),
            },
    {
        let listed = read_enumeration_response(origin, datagram)?;
        let mut arrived = into_queue(listed);
        let mut instances = self.instances;
        instances.append(&mut arrived);
        Ok(InstanceBacklog { instances })
    }
}

} // verus!
