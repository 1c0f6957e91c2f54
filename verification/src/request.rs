//! The request envelope spoken to the engine: headers, purposes, and the
//! closed set of subscribable event topics.
pub mod command;
pub mod subscribe;

use vstd::prelude::*;

verus! {

use crate::text::str_eq;

/// How many event topics exist; `subscribers` tables are indexed by
/// [`EventType::index`], which is always below this bound.
pub const TOPIC_COUNT: usize = 1;

#[derive(Clone, Copy, PartialEq, Eq, Structural, Debug)]
pub enum MessagePurpose {
    Event,
    Subscribe,
    CommandRequest,
    CommandResponse,
}

#[derive(Clone, Copy, PartialEq, Eq, Structural, Debug)]
pub enum MessageType {
    CommandRequest,
}

/// The closed set of event topics a client may subscribe to.
#[derive(Clone, Copy, PartialEq, Eq, Structural, Debug, Hash)]
pub enum EventType {
    PlayerMessage,
}

impl EventType {
    /// The dense index of a topic; every topic's index is below
    /// [`TOPIC_COUNT`].
    pub open spec fn index_spec(self) -> int {
        match self {
            EventType::PlayerMessage => 0,
        }
    }

    pub proof fn lemma_index_bounds(self)
        ensures
            0 <= self.index_spec() < TOPIC_COUNT as int,
    {
    }

    pub fn index(self) -> (i: usize)
        ensures
            i as int == self.index_spec(),
            i < TOPIC_COUNT,
    {
        match self {
            EventType::PlayerMessage => 0,
        }
    }

    /// The wire name of a topic, as it appears in `eventName` fields.
    pub open spec fn name_spec(self) -> Seq<char> {
        match self {
            EventType::PlayerMessage => "PlayerMessage"@,
        }
    }

    pub fn name(self) -> (r: &'static str)
        ensures
            r@ == self.name_spec(),
    {
        match self {
            EventType::PlayerMessage => "PlayerMessage",
        }
    }

    /// Maps a wire name back to its topic; `None` exactly when the name
    /// matches no known topic.
    pub fn parse_topic(s: &str) -> (r: Option<EventType>)
        ensures
            match r {
                Some(t) => t.name_spec() == s@,
                None => forall|t: EventType| t.name_spec() != s@,
            },
    {
        if str_eq(s, "PlayerMessage") {
            Some(EventType::PlayerMessage)
        } else {
            assert forall|t: EventType| t.name_spec() != s@ by {
                match t {
                    EventType::PlayerMessage => {},
                }
            }
            None
        }
    }

    /// Every topic, in index order.
    pub fn all() -> (r: Vec<EventType>)
        ensures
            r@.len() == TOPIC_COUNT as int,
            forall|i: int| 0 <= i < r@.len() ==> r@[i].index_spec() == i,
    {
        let mut r: Vec<EventType> = Vec::new();
        r.push(EventType::PlayerMessage);
        r
    }
}

/// The envelope header carried by every request and every upstream message;
/// `request_id` is the sole correlation key between a command and its
/// response.
#[derive(Clone, Debug, PartialEq, Eq)]
pub struct Header {
    pub request_id: u128,
    pub message_purpose: MessagePurpose,
    pub message_type: Option<MessageType>,
    pub version: u32,
}

/// Relies on uuid::Uuid::new_v4 and uuid::Uuid::as_u128: draws a fresh
/// random identifier. Nothing is promised of the value.
#[verifier::external_body]
fn fresh_request_id() -> u128 {
    uuid::Uuid::new_v4().as_u128()
}

impl Header {
    /// A fresh header at protocol version 1 with a randomly drawn
    /// `request_id`.
    pub fn new(message_purpose: MessagePurpose, message_type: Option<MessageType>) -> (h: Header)
        ensures
            h.message_purpose == message_purpose,
            h.message_type == message_type,
            h.version == 1u32,
    {
        Header {
            request_id: fresh_request_id(),
            message_purpose,
            message_type,
            version: 1,
        }
    }
}

/// The purpose named by a wire `messagePurpose` value.
pub open spec fn purpose_of_name(s: Seq<char>) -> Option<MessagePurpose> {
    if s == "event"@ {
        Some(MessagePurpose::Event)
    } else if s == "subscribe"@ {
        Some(MessagePurpose::Subscribe)
    } else if s == "CommandRequest"@ {
        Some(MessagePurpose::CommandRequest)
    } else if s == "commandResponse"@ {
        Some(MessagePurpose::CommandResponse)
    } else {
        None
    }
}

/// Maps a wire `messagePurpose` value to the purpose it names; `None`
/// exactly when the value names none.
pub fn parse_purpose(s: &str) -> (r: Option<MessagePurpose>)
    ensures
        r == purpose_of_name(s@),
{
    if str_eq(s, "event") {
        Some(MessagePurpose::Event)
    } else if str_eq(s, "subscribe") {
        Some(MessagePurpose::Subscribe)
    } else if str_eq(s, "CommandRequest") {
        Some(MessagePurpose::CommandRequest)
    } else if str_eq(s, "commandResponse") {
        Some(MessagePurpose::CommandResponse)
    } else {
        None
    }
}

/// What parsing a header object's JSON text yields, over the named results
/// of the JSON reader: a header exactly when the text has a canonical
/// `requestId`, a known `messagePurpose`, a numeric `version`, and either no
/// `messageType` or the one known value.
pub open spec fn parse_header_spec(s: Seq<char>) -> Option<Header> {
    match crate::jsonwire::str_field_of(s, "requestId"@) {
        None => None,
        Some(rid) => if exists|v: u128| rid == crate::ident::uuid_str_spec(v) {
            let request_id = choose|v: u128| rid == crate::ident::uuid_str_spec(v);
            match crate::jsonwire::str_field_of(s, "messagePurpose"@) {
                None => None,
                Some(p) => match purpose_of_name(p) {
                    None => None,
                    Some(message_purpose) => match crate::jsonwire::u32_field_of(
                        s,
                        "version"@,
                    ) {
                        None => None,
                        Some(version) => match crate::jsonwire::str_field_of(
                            s,
                            "messageType"@,
                        ) {
                            None => Some(
                                Header { request_id, message_purpose, message_type: None, version },
                            ),
                            Some(t) => if t == "CommandRequest"@ {
                                Some(
                                    Header {
                                        request_id,
                                        message_purpose,
                                        message_type: Some(MessageType::CommandRequest),
                                        version,
                                    },
                                )
                            } else {
                                None
                            },
                        },
                    },
                },
            }
        } else {
            None
        },
    }
}

/// The one way reading a header off wire text can fail.
#[derive(Clone, Copy, PartialEq, Eq, Structural, Debug)]
pub enum HeaderError {
    Malformed,
}

impl Header {
    /// Reads a header from the JSON text of a header object, field by field;
    /// fails exactly when [`parse_header_spec`] yields nothing.
    pub fn parse(s: &str) -> (r: Result<Header, HeaderError>)
        ensures
            match r {
                Ok(h) => parse_header_spec(s@) == Some(h),
                Err(_) => parse_header_spec(s@) is None,
            },
    {
        let rid_s = match crate::jsonwire::json_str_field(s, "requestId") {
            Some(x) => x,
            None => {
                return Err(HeaderError::Malformed);
            },
        };
        let request_id = match crate::ident::uuid_from_str(rid_s.as_str()) {
            Some(v) => v,
            None => {
                return Err(HeaderError::Malformed);
            },
        };
        proof {
            let v0 = choose|v: u128| rid_s@ == crate::ident::uuid_str_spec(v);
            crate::ident::lemma_uuid_text_injective(v0, request_id);
        }
        let p_s = match crate::jsonwire::json_str_field(s, "messagePurpose") {
            Some(x) => x,
            None => {
                return Err(HeaderError::Malformed);
            },
        };
        let message_purpose = match parse_purpose(p_s.as_str()) {
            Some(x) => x,
            None => {
                return Err(HeaderError::Malformed);
            },
        };
        let version = match crate::jsonwire::json_u32_field(s, "version") {
            Some(x) => x,
            None => {
                return Err(HeaderError::Malformed);
            },
        };
        let message_type = match crate::jsonwire::json_str_field(s, "messageType") {
            None => None,
            Some(t) => {
                if str_eq(t.as_str(), "CommandRequest") {
                    Some(MessageType::CommandRequest)
                } else {
                    return Err(HeaderError::Malformed);
                }
            },
        };
        Ok(Header { request_id, message_purpose, message_type, version })
    }
}

/// A client request: either a subscription to one topic or one command.
#[derive(Clone, Debug, PartialEq, Eq)]
pub enum Request {
    Subscribe(subscribe::Subscribe),
    Command(command::CommandRequest),
}

impl Request {
    /// The header of either variant.
    pub open spec fn header_spec(self) -> Header {
        match self {
            Request::Subscribe(s) => s.header,
            Request::Command(c) => c.header,
        }
    }

    pub fn header(&self) -> (h: &Header)
        ensures
            *h == self.header_spec(),
    {
        match self {
            Request::Subscribe(s) => &s.header,
            Request::Command(c) => &c.header,
        }
    }
}

} // verus!
