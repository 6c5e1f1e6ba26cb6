//! Shared reception state: the one slot through which the receive path
//! hands its results to the periodic consumer.
//!
//! The slot holds the last message received, if any, and the number of
//! messages received so far. Both change together, in one call, and are
//! read together, in one call: whoever guards the slot with a single lock
//! around each of these calls never sees one without the other.

use vstd::prelude::*;
use crate::error::LinkError;
use crate::packet::{AckPacket, ParsedMessage, MSG_TYPE_ACK};

verus! {

/// The last message of a history, if the history has one.
pub open spec fn latest(history: Seq<ParsedMessage>) -> Option<ParsedMessage> {
    if history.len() == 0 {
        None
    } else {
        Some(history.last())
    }
}

/// The last message received and the number of messages received.
pub struct SharedReceptionState {
    last_packet: Option<ParsedMessage>,
    packets_received: u32,
    history: Ghost<Seq<ParsedMessage>>,
}

impl SharedReceptionState {
    #[verifier::type_invariant]
    spec fn paired(self) -> bool {
        &&& self.packets_received == self.history@.len()
        &&& self.last_packet == latest(self.history@)
    }

    /// Every message recorded so far, oldest first.
    pub closed spec fn history(self) -> Seq<ParsedMessage> {
        self.history@
    }

    /// The state before anything was received.
    pub fn new() -> (state: SharedReceptionState)
        ensures
            state.history() == Seq::<ParsedMessage>::empty(),
    {
        SharedReceptionState { last_packet: None, packets_received: 0, history: Ghost(Seq::empty()) }
    }

    /// Stores a validated message as the last one received and counts it.
    pub fn record(&mut self, message: ParsedMessage)
        requires
            old(self).history().len() < u32::MAX,
        ensures
            final(self).history() == old(self).history().push(message),
    {
        proof {
            use_type_invariant(&*self);
        }
        *self = SharedReceptionState {
            last_packet: Some(message),
            packets_received: self.packets_received + 1,
            history: Ghost(self.history@.push(message)),
        };
    }

    /// Copies out the last message received and the number of messages
    /// received: the two belong to the same history.
    pub fn snapshot(&self) -> (pair: (Option<ParsedMessage>, u32))
        ensures
            pair.0 == latest(self.history()),
            pair.1 == self.history().len(),
    {
        proof {
            use_type_invariant(self);
        }
        (self.last_packet, self.packets_received)
    }

    /// The last message received, if any.
    pub fn last_packet(&self) -> (message: Option<ParsedMessage>)
        ensures
            message == latest(self.history()),
    {
        proof {
            use_type_invariant(self);
        }
        self.last_packet
    }

    /// The number of messages received.
    pub fn packets_received(&self) -> (count: u32)
        ensures
            count == self.history().len(),
    {
        proof {
            use_type_invariant(self);
        }
        self.packets_received
    }

    /// Acts on the outcome of one frame. A message is recorded and an
    /// acceptance of its packet is handed back to be sent; a discarded frame
    /// changes nothing and is not answered.
    pub fn publish(&mut self, outcome: &Result<ParsedMessage, LinkError>) -> (reply: Option<
        AckPacket,
    >)
        requires
            outcome is Ok ==> old(self).history().len() < u32::MAX,
        ensures
            match *outcome {
                Ok(message) => final(self).history() == old(self).history().push(message) && reply
                    == Some(AckPacket::answer(message.sensor_data.packet_num, true)),
                Err(_) => final(self).history() == old(self).history() && reply is None,
            },
    {
        match outcome {
            Ok(message) => {
                self.record(*message);
                Some(AckPacket::new(message.sensor_data.packet_num, true))
            },
            Err(_) => None,
        }
    }
}

} // verus!
