//! The upstream JSON text form of a request, built and specified character
//! by character: escaping, decimal numbers, and the fixed envelope around
//! them.
use vstd::prelude::*;

verus! {

use vstd::string::StrSliceExecFns;
use crate::ident::{hex_digit, hex_digit_char, uuid_str_spec, uuid_to_string};
use crate::request::{Header, MessagePurpose, MessageType, Request};
use crate::text::push_char;

/// How one character is written inside a JSON string literal: the two
/// JSON metacharacters and the control characters are escaped, everything
/// else stands as it is.
pub open spec fn esc_char(c: char) -> Seq<char> {
    if c == '"' {
        seq!['\\', '"']
    } else if c == '\\' {
        seq!['\\', '\\']
    } else if c == '\u{8}' {
        seq!['\\', 'b']
    } else if c == '\t' {
        seq!['\\', 't']
    } else if c == '\n' {
        seq!['\\', 'n']
    } else if c == '\u{c}' {
        seq!['\\', 'f']
    } else if c == '\r' {
        seq!['\\', 'r']
    } else if (c as u32) < 0x20 {
        seq!['\\', 'u', '0', '0', hex_digit(((c as u32) / 16) as int), hex_digit(
            ((c as u32) % 16) as int,
        )]
    } else {
        seq![c]
    }
}

/// A whole string escaped for a JSON string literal.
pub open spec fn escape_json(s: Seq<char>) -> Seq<char>
    decreases s.len(),
{
    if s.len() == 0 {
        Seq::empty()
    } else {
        escape_json(s.drop_last()) + esc_char(s.last())
    }
}

/// Escapes a string for use inside a JSON string literal.
pub fn escape_json_str(s: &str) -> (r: String)
    ensures
        r@ == escape_json(s@),
{
    let n = s.unicode_len();
    let mut out = String::new();
    let mut i: usize = 0;
    proof {
        assert(escape_json(s@.subrange(0, 0)) =~= Seq::<char>::empty());
    }
    while i < n
        invariant
            0 <= i <= n,
            n as int == s@.len(),
            out@ == escape_json(s@.subrange(0, i as int)),
        decreases n - i,
    {
        let c = s.get_char(i);
        proof {
            assert(s@.subrange(0, i as int + 1).drop_last() =~= s@.subrange(0, i as int));
            assert(s@.subrange(0, i as int + 1).last() == s@[i as int]);
        }
        if c == '"' {
            push_char(&mut out, '\\');
            push_char(&mut out, '"');
        } else if c == '\\' {
            push_char(&mut out, '\\');
            push_char(&mut out, '\\');
        } else if c == '\u{8}' {
            push_char(&mut out, '\\');
            push_char(&mut out, 'b');
        } else if c == '\t' {
            push_char(&mut out, '\\');
            push_char(&mut out, 't');
        } else if c == '\n' {
            push_char(&mut out, '\\');
            push_char(&mut out, 'n');
        } else if c == '\u{c}' {
            push_char(&mut out, '\\');
            push_char(&mut out, 'f');
        } else if c == '\r' {
            push_char(&mut out, '\\');
            push_char(&mut out, 'r');
        } else if (c as u32) < 0x20 {
            let u = c as u32;
            push_char(&mut out, '\\');
            push_char(&mut out, 'u');
            push_char(&mut out, '0');
            push_char(&mut out, '0');
            push_char(&mut out, hex_digit_char((u / 16) as u8));
            push_char(&mut out, hex_digit_char((u % 16) as u8));
        } else {
            push_char(&mut out, c);
        }
        proof {
            assert(out@ =~= escape_json(s@.subrange(0, i as int + 1)));
        }
        i = i + 1;
    }
    proof {
        assert(s@.subrange(0, n as int) =~= s@);
    }
    out
}

/// The decimal digit character for a value below 10.
pub open spec fn dec_digit(n: int) -> char {
    hex_digit(if 0 <= n < 10 {
        n
    } else {
        0
    })
}

/// The decimal text of a number, without leading zeroes.
pub open spec fn dec_str(n: nat) -> Seq<char>
    decreases n,
{
    if n < 10 {
        seq![dec_digit(n as int)]
    } else {
        dec_str(n / 10) + seq![dec_digit((n % 10) as int)]
    }
}

/// Formats a number in decimal.
pub fn dec_u32_string(n: u32) -> (r: String)
    ensures
        r@ == dec_str(n as nat),
{
    let mut tmp: Vec<char> = Vec::new();
    let ghost mut suffix: Seq<char> = Seq::empty();
    let mut m = n;
    proof {
        assert(dec_str(n as nat) =~= dec_str(m as nat) + suffix);
    }
    loop
        invariant_except_break
            dec_str(n as nat) == dec_str(m as nat) + suffix,
        invariant
            tmp@.len() == suffix.len(),
            forall|j: int| 0 <= j < tmp@.len() ==> tmp@[j] == suffix[suffix.len() - 1 - j],
        ensures
            dec_str(n as nat) == suffix,
        decreases m,
    {
        let d = (m % 10) as u8;
        let c = hex_digit_char(d);
        proof {
            if m >= 10 {
                assert(dec_str(m as nat) == dec_str((m as nat) / 10) + seq![dec_digit(
                    ((m as nat) % 10) as int,
                )]);
                assert(dec_str(m as nat) + suffix =~= dec_str((m as nat) / 10) + (seq![c]
                    + suffix));
            } else {
                assert(dec_str(m as nat) =~= seq![c]);
                assert(dec_str(m as nat) + suffix =~= seq![c] + suffix);
            }
        }
        tmp.push(c);
        proof {
            suffix = seq![c] + suffix;
        }
        if m < 10 {
            proof {
                assert(dec_str(n as nat) =~= suffix);
            }
            break;
        }
        m = m / 10;
    }
    proof {
        assert(dec_str(n as nat) =~= suffix);
    }
    let k = tmp.len();
    let mut out = String::new();
    let mut j: usize = 0;
    while j < k
        invariant
            0 <= j <= k,
            tmp@.len() == k as int,
            suffix.len() == k as int,
            out@ == suffix.subrange(0, j as int),
            forall|x: int| 0 <= x < k ==> tmp@[x] == suffix[k - 1 - x],
        decreases k - j,
    {
        push_char(&mut out, tmp[k - 1 - j]);
        proof {
            assert(suffix.subrange(0, j as int + 1) =~= suffix.subrange(0, j as int).push(
                suffix[j as int],
            ));
        }
        j = j + 1;
    }
    proof {
        assert(suffix.subrange(0, k as int) =~= suffix);
    }
    out
}

/// The wire name of a purpose, as it appears in `messagePurpose` fields.
pub open spec fn purpose_name_spec(p: MessagePurpose) -> Seq<char> {
    match p {
        MessagePurpose::Event => "event"@,
        MessagePurpose::Subscribe => "subscribe"@,
        MessagePurpose::CommandRequest => "CommandRequest"@,
        MessagePurpose::CommandResponse => "commandResponse"@,
    }
}

/// The wire name of a purpose.
pub fn purpose_name(p: MessagePurpose) -> (r: &'static str)
    ensures
        r@ == purpose_name_spec(p),
{
    match p {
        MessagePurpose::Event => "event",
        MessagePurpose::Subscribe => "subscribe",
        MessagePurpose::CommandRequest => "CommandRequest",
        MessagePurpose::CommandResponse => "commandResponse",
    }
}

/// The JSON text of a header object.
pub open spec fn json_of_header(h: Header) -> Seq<char> {
    "{\"requestId\":\""@ + uuid_str_spec(h.request_id) + "\",\"messagePurpose\":\""@
        + purpose_name_spec(h.message_purpose) + "\",\"messageType\":"@ + (match h.message_type {
        None => "null"@,
        Some(MessageType::CommandRequest) => "\"CommandRequest\""@,
    }) + ",\"version\":"@ + dec_str(h.version as nat) + "}"@
}

/// Writes a header as a JSON object.
pub fn header_json(h: &Header) -> (r: String)
    ensures
        r@ == json_of_header(*h),
{
    let mut out = String::from_str("{\"requestId\":\"");
    out.append(uuid_to_string(h.request_id).as_str());
    out.append("\",\"messagePurpose\":\"");
    out.append(purpose_name(h.message_purpose));
    out.append("\",\"messageType\":");
    match h.message_type {
        None => out.append("null"),
        Some(MessageType::CommandRequest) => out.append("\"CommandRequest\""),
    }
    out.append(",\"version\":");
    out.append(dec_u32_string(h.version).as_str());
    out.append("}");
    proof {
        assert(out@ =~= json_of_header(*h));
    }
    out
}

/// The JSON text of a whole request: a command's body comes first, then its
/// header; a subscription's header comes first, then its body.
pub open spec fn json_of_request(r: Request) -> Seq<char> {
    match r {
        Request::Command(c) => "{\"body\":{\"commandLine\":\""@ + escape_json(
            c.body.command_line@,
        ) + "\",\"origin\":{\"type\":\""@ + c.body.origin.name_spec() + "\"}},\"header\":"@
            + json_of_header(c.header) + "}"@,
        Request::Subscribe(s) => "{\"header\":"@ + json_of_header(s.header)
            + ",\"body\":{\"eventName\":\""@ + s.body.event_name.name_spec() + "\"}}"@,
    }
}

/// The pretty JSON text of a header object, indented one level deep.
pub open spec fn json_pretty_of_header(h: Header) -> Seq<char> {
    "{\n    \"requestId\": \""@ + uuid_str_spec(h.request_id) + "\",\n    \"messagePurpose\": \""@
        + purpose_name_spec(h.message_purpose) + "\",\n    \"messageType\": "@ + (
    match h.message_type {
        None => "null"@,
        Some(MessageType::CommandRequest) => "\"CommandRequest\""@,
    }) + ",\n    \"version\": "@ + dec_str(h.version as nat) + "\n  }"@
}

/// Writes a header as a pretty JSON object, indented one level deep.
pub fn header_json_pretty(h: &Header) -> (r: String)
    ensures
        r@ == json_pretty_of_header(*h),
{
    let mut out = String::from_str("{\n    \"requestId\": \"");
    out.append(uuid_to_string(h.request_id).as_str());
    out.append("\",\n    \"messagePurpose\": \"");
    out.append(purpose_name(h.message_purpose));
    out.append("\",\n    \"messageType\": ");
    match h.message_type {
        None => out.append("null"),
        Some(MessageType::CommandRequest) => out.append("\"CommandRequest\""),
    }
    out.append(",\n    \"version\": ");
    out.append(dec_u32_string(h.version).as_str());
    out.append("\n  }");
    proof {
        assert(out@ =~= json_pretty_of_header(*h));
    }
    out
}

/// The pretty JSON text of a whole request: one field per line, two spaces
/// of indent per level.
pub open spec fn json_pretty_of_request(r: Request) -> Seq<char> {
    match r {
        Request::Command(c) => "{\n  \"body\": {\n    \"commandLine\": \""@ + escape_json(
            c.body.command_line@,
        ) + "\",\n    \"origin\": {\n      \"type\": \""@ + c.body.origin.name_spec()
            + "\"\n    }\n  },\n  \"header\": "@ + json_pretty_of_header(c.header) + "\n}"@,
        Request::Subscribe(s) => "{\n  \"header\": "@ + json_pretty_of_header(s.header)
            + ",\n  \"body\": {\n    \"eventName\": \""@ + s.body.event_name.name_spec()
            + "\"\n  }\n}"@,
    }
}

impl Request {
    /// The request as pretty upstream JSON text, exactly
    /// [`json_pretty_of_request`].
    pub fn to_json_pretty(&self) -> (r: String)
        ensures
            r@ == json_pretty_of_request(*self),
    {
        match self {
            Request::Command(c) => {
                let mut out = String::from_str("{\n  \"body\": {\n    \"commandLine\": \"");
                out.append(escape_json_str(c.body.command_line.as_str()).as_str());
                out.append("\",\n    \"origin\": {\n      \"type\": \"");
                out.append(c.body.origin.name());
                out.append("\"\n    }\n  },\n  \"header\": ");
                out.append(header_json_pretty(&c.header).as_str());
                out.append("\n}");
                proof {
                    assert(out@ =~= json_pretty_of_request(*self));
                }
                out
            },
            Request::Subscribe(s) => {
                let mut out = String::from_str("{\n  \"header\": ");
                out.append(header_json_pretty(&s.header).as_str());
                out.append(",\n  \"body\": {\n    \"eventName\": \"");
                out.append(s.body.event_name.name());
                out.append("\"\n  }\n}");
                proof {
                    assert(out@ =~= json_pretty_of_request(*self));
                }
                out
            },
        }
    }

    /// The request as upstream JSON text, exactly [`json_of_request`].
    pub fn to_json(&self) -> (r: String)
        ensures
            r@ == json_of_request(*self),
    {
        match self {
            Request::Command(c) => {
                let mut out = String::from_str("{\"body\":{\"commandLine\":\"");
                out.append(escape_json_str(c.body.command_line.as_str()).as_str());
                out.append("\",\"origin\":{\"type\":\"");
                out.append(c.body.origin.name());
                out.append("\"}},\"header\":");
                out.append(header_json(&c.header).as_str());
                out.append("}");
                proof {
                    assert(out@ =~= json_of_request(*self));
                }
                out
            },
            Request::Subscribe(s) => {
                let mut out = String::from_str("{\"header\":");
                out.append(header_json(&s.header).as_str());
                out.append(",\"body\":{\"eventName\":\"");
                out.append(s.body.event_name.name());
                out.append("\"}}");
                proof {
                    assert(out@ =~= json_of_request(*self));
                }
                out
            },
        }
    }
}

} // verus!
