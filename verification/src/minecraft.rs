//! Classification of upstream frames: each text frame is either an event
//! notification for a known topic or a generic command response, and either
//! way its correlation identifier can be recovered from the embedded header.
use vstd::prelude::*;

verus! {

use crate::jsonwire::{json_object_field, json_str_field, object_field_of, str_field_of};
use crate::request::{parse_header_spec, EventType, Header};

/// The `messagePurpose` of a frame's embedded header, as the JSON reader
/// yields it.
pub open spec fn upstream_purpose(s: Seq<char>) -> Option<Seq<char>> {
    match object_field_of(s, "header"@) {
        None => None,
        Some(h) => str_field_of(h, "messagePurpose"@),
    }
}

/// The `eventName` of a frame's embedded header, as the JSON reader yields
/// it.
pub open spec fn upstream_event_name(s: Seq<char>) -> Option<Seq<char>> {
    match object_field_of(s, "header"@) {
        None => None,
        Some(h) => str_field_of(h, "eventName"@),
    }
}

/// Why a text frame failed classification. Each is per-frame and
/// recoverable: the reader logs it and goes on with the next frame.
#[derive(Clone, Copy, PartialEq, Eq, Structural, Debug)]
pub enum ClassifyError {
    /// The frame is not JSON, has no header, or its header names no purpose.
    MissingPurpose,
    /// An event frame without an `eventName`.
    MissingEventName,
    /// An event frame naming a topic outside the known set.
    UnknownTopic,
}

/// Why a classified frame's correlation identifier could not be recovered.
#[derive(Clone, Copy, PartialEq, Eq, Structural, Debug)]
pub enum FrameIdError {
    /// The frame has no header object.
    MissingHeader,
    /// The header object does not parse as a header.
    MalformedHeader,
}

/// A classified upstream frame: an event notification carrying its topic, or
/// a generic response. Either way the frame's full text rides along
/// verbatim.
#[derive(Clone, Debug, PartialEq, Eq)]
pub enum MinecraftMessage {
    Subscription { event: EventType, content: String },
    Generic(String),
}

impl MinecraftMessage {
    /// The frame text either variant carries.
    pub open spec fn content_spec(self) -> Seq<char> {
        match self {
            MinecraftMessage::Subscription { event: _, content } => content@,
            MinecraftMessage::Generic(content) => content@,
        }
    }

    pub fn content(&self) -> (r: &str)
        ensures
            r@ == self.content_spec(),
    {
        match self {
            MinecraftMessage::Subscription { event: _, content } => content.as_str(),
            MinecraftMessage::Generic(content) => content.as_str(),
        }
    }

    /// Classifies one upstream text frame. A frame whose header's purpose is
    /// `event` must name a known topic and becomes a subscription
    /// notification; a frame with any other purpose is a generic response
    /// verbatim; each error comes exactly when its condition holds.
    pub fn classify(content: String) -> (r: Result<MinecraftMessage, ClassifyError>)
        ensures
            match r {
                Ok(m) => match m {
                    MinecraftMessage::Subscription { event, content: c } => {
                        &&& c == content
                        &&& upstream_purpose(content@) == Some("event"@)
                        &&& upstream_event_name(content@) == Some(event.name_spec())
                    },
                    MinecraftMessage::Generic(c) => {
                        &&& c == content
                        &&& upstream_purpose(content@) matches Some(p) && p != "event"@
                    },
                },
                Err(e) => match e {
                    ClassifyError::MissingPurpose => upstream_purpose(content@) is None,
                    ClassifyError::MissingEventName => upstream_purpose(content@) == Some("event"@)
                        && upstream_event_name(content@) is None,
                    ClassifyError::UnknownTopic => upstream_purpose(content@) == Some("event"@)
                        && (upstream_event_name(content@) matches Some(n) && forall|t: EventType|
                            t.name_spec() != n),
                },
            },
    {
        let header = match json_object_field(content.as_str(), "header") {
            Some(h) => h,
            None => {
                return Err(ClassifyError::MissingPurpose);
            },
        };
        let purpose = match json_str_field(header.as_str(), "messagePurpose") {
            Some(p) => p,
            None => {
                return Err(ClassifyError::MissingPurpose);
            },
        };
        if crate::text::str_eq(purpose.as_str(), "event") {
            let name = match json_str_field(header.as_str(), "eventName") {
                Some(n) => n,
                None => {
                    return Err(ClassifyError::MissingEventName);
                },
            };
            match EventType::parse_topic(name.as_str()) {
                Some(event) => Ok(MinecraftMessage::Subscription { event, content }),
                None => Err(ClassifyError::UnknownTopic),
            }
        } else {
            Ok(MinecraftMessage::Generic(content))
        }
    }

    /// Recovers the correlation identifier from the frame's embedded header;
    /// fails exactly when the frame has no header object or the header does
    /// not parse.
    pub fn uuid(&self) -> (r: Result<u128, FrameIdError>)
        ensures
            match r {
                Ok(v) => object_field_of(self.content_spec(), "header"@) matches Some(h)
                    && (parse_header_spec(h) matches Some(hd) && hd.request_id == v),
                Err(e) => match e {
                    FrameIdError::MissingHeader => object_field_of(
                        self.content_spec(),
                        "header"@,
                    ) is None,
                    FrameIdError::MalformedHeader => object_field_of(
                        self.content_spec(),
                        "header"@,
                    ) matches Some(h) && parse_header_spec(h) is None,
                },
            },
    {
        let header = match json_object_field(self.content(), "header") {
            Some(h) => h,
            None => {
                return Err(FrameIdError::MissingHeader);
            },
        };
        match Header::parse(header.as_str()) {
            Ok(h) => Ok(h.request_id),
            Err(_) => Err(FrameIdError::MalformedHeader),
        }
    }
}

} // verus!
