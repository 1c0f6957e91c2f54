//! The command variant of a request: one command line sent on behalf of an
//! origin.
use vstd::prelude::*;

verus! {

use crate::request::{Header, MessagePurpose, MessageType, Request};

/// Who a command is issued as; the wire only knows players.
#[derive(Clone, Copy, PartialEq, Eq, Structural, Debug)]
pub enum Origin {
    Player,
}

impl Origin {
    /// The wire name of an origin, as it appears in `origin.type` fields.
    pub open spec fn name_spec(self) -> Seq<char> {
        match self {
            Origin::Player => "player"@,
        }
    }

    pub fn name(self) -> (r: &'static str)
        ensures
            r@ == self.name_spec(),
    {
        match self {
            Origin::Player => "player",
        }
    }
}

/// The body of a command request.
#[derive(Clone, Debug, PartialEq, Eq)]
pub struct Body {
    pub command_line: String,
    pub origin: Origin,
}

impl Body {
    pub fn new(command: String, origin: Origin) -> (b: Body)
        ensures
            b.command_line == command,
            b.origin == origin,
    {
        Body { command_line: command, origin }
    }
}

/// A full command request: body plus a fresh header.
#[derive(Clone, Debug, PartialEq, Eq)]
pub struct CommandRequest {
    pub body: Body,
    pub header: Header,
}

impl CommandRequest {
    pub fn new(command: String, origin: Origin) -> (c: CommandRequest)
        ensures
            c.body.command_line == command,
            c.body.origin == origin,
            c.header.message_purpose == MessagePurpose::CommandRequest,
            c.header.message_type == Some(MessageType::CommandRequest),
            c.header.version == 1u32,
    {
        let header = Header::new(
            MessagePurpose::CommandRequest,
            Some(MessageType::CommandRequest),
        );
        let body = Body::new(command, origin);
        CommandRequest { body, header }
    }
}

impl Request {
    /// A command request wrapped in the request envelope.
    pub fn command(command: String, origin: Origin) -> (r: Request)
        ensures
            r matches Request::Command(c) && c.body.command_line == command && c.body.origin
                == origin && c.header.message_purpose == MessagePurpose::CommandRequest
                && c.header.message_type == Some(MessageType::CommandRequest) && c.header.version
                == 1u32,
    {
        Request::Command(CommandRequest::new(command, origin))
    }
}

} // verus!
