//! The subscription variant of a request: one topic the client wants events
//! for.
use vstd::prelude::*;

verus! {

use crate::request::{EventType, Header, MessagePurpose, MessageType, Request};

/// The body of a subscription request.
#[derive(Clone, Debug, PartialEq, Eq)]
pub struct Body {
    pub event_name: EventType,
}

impl Body {
    pub fn new(event_name: EventType) -> (b: Body)
        ensures
            b.event_name == event_name,
    {
        Body { event_name }
    }
}

/// A full subscription request: a fresh header plus the topic.
#[derive(Clone, Debug, PartialEq, Eq)]
pub struct Subscribe {
    pub header: Header,
    pub body: Body,
}

impl Subscribe {
    pub fn new(event: EventType) -> (s: Subscribe)
        ensures
            s.body.event_name == event,
            s.header.message_purpose == MessagePurpose::Subscribe,
            s.header.message_type == Some(MessageType::CommandRequest),
            s.header.version == 1u32,
    {
        let header = Header::new(MessagePurpose::Subscribe, Some(MessageType::CommandRequest));
        let body = Body::new(event);
        Subscribe { header, body }
    }

    /// The topic this subscription asks for.
    pub fn event(&self) -> (t: EventType)
        ensures
            t == self.body.event_name,
    {
        self.body.event_name
    }
}

impl Request {
    /// A subscription request wrapped in the request envelope.
    pub fn subscribe(event: EventType) -> (r: Request)
        ensures
            r matches Request::Subscribe(s) && s.body.event_name == event
                && s.header.message_purpose == MessagePurpose::Subscribe && s.header.message_type
                == Some(MessageType::CommandRequest) && s.header.version == 1u32,
    {
        Request::Subscribe(Subscribe::new(event))
    }
}

} // verus!
