//! The downstream wire codec: a length-implicit binary encoding of one
//! request, framed by the connection itself (the client half-closes after
//! writing, the server reads to end of stream). Fixed-width fields come
//! first; the command text, the one variable-width field, runs to the end of
//! the buffer.
//!
//! Layout: one variant tag byte; 16 bytes of request identifier, big endian;
//! one purpose tag; one optional-type tag; 4 bytes of version, big endian;
//! then for a subscription exactly one topic tag byte, and for a command one
//! origin tag byte followed by the command text in UTF-8.
use vstd::prelude::*;

verus! {

use vstd::string::StringSliceAdditionalSpecFns;
use vstd::string::StrSliceExecFns;
use vstd::utf8::{decode_utf8, encode_utf8, encode_utf8_decode_utf8, decode_utf8_encode_utf8,
    encode_utf8_valid_utf8, valid_utf8};
use crate::request::{subscribe, command, EventType, Header, MessagePurpose, MessageType,
    Request};
use crate::text::bytes_to_string;

/// The last `k` base-256 digits of `n`, most significant first.
pub open spec fn be_bytes(n: nat, k: nat) -> Seq<u8>
    decreases k,
{
    if k == 0 {
        Seq::empty()
    } else {
        be_bytes(n / 256, (k - 1) as nat) + seq![(n % 256) as u8]
    }
}

/// The value of a big-endian byte sequence.
pub open spec fn bytes_val(b: Seq<u8>) -> nat
    decreases b.len(),
{
    if b.len() == 0 {
        0nat
    } else {
        bytes_val(b.drop_last()) * 256 + b.last() as nat
    }
}

pub open spec fn pow256(k: nat) -> nat
    decreases k,
{
    if k == 0 {
        1nat
    } else {
        256 * pow256((k - 1) as nat)
    }
}

pub open spec fn purpose_tag(p: MessagePurpose) -> u8 {
    match p {
        MessagePurpose::Event => 0,
        MessagePurpose::Subscribe => 1,
        MessagePurpose::CommandRequest => 2,
        MessagePurpose::CommandResponse => 3,
    }
}

pub open spec fn mtype_tag(t: Option<MessageType>) -> u8 {
    match t {
        None => 0,
        Some(MessageType::CommandRequest) => 1,
    }
}

/// The 22 fixed header bytes.
pub open spec fn header_bytes(h: Header) -> Seq<u8> {
    be_bytes(h.request_id as nat, 16) + seq![purpose_tag(h.message_purpose)]
        + seq![mtype_tag(h.message_type)] + be_bytes(h.version as nat, 4)
}

/// The full encoding of a request.
pub open spec fn encodes(r: Request) -> Seq<u8> {
    match r {
        Request::Subscribe(s) => seq![0u8] + header_bytes(s.header) + seq![
            s.body.event_name.index_spec() as u8,
        ],
        Request::Command(c) => seq![1u8] + header_bytes(c.header) + seq![0u8] + encode_utf8(
            c.body.command_line@,
        ),
    }
}

proof fn lemma_be_bytes_len(n: nat, k: nat)
    ensures
        be_bytes(n, k).len() == k,
    decreases k,
{
    if k > 0 {
        lemma_be_bytes_len(n / 256, (k - 1) as nat);
    }
}

proof fn lemma_pow256_monotone(k1: nat, k2: nat)
    requires
        k1 <= k2,
    ensures
        pow256(k1) <= pow256(k2),
    decreases k2,
{
    if k1 < k2 && k2 > 0 {
        lemma_pow256_monotone(k1, (k2 - 1) as nat);
        assert(pow256((k2 - 1) as nat) <= 256 * pow256((k2 - 1) as nat)) by (nonlinear_arith);
    }
}

proof fn lemma_pow256_16()
    ensures
        pow256(16) == 0x100000000000000000000000000000000,
        pow256(4) == 0x100000000,
{
    reveal_with_fuel(pow256, 17);
}

proof fn lemma_bytes_val_bound(b: Seq<u8>)
    ensures
        bytes_val(b) < pow256(b.len() as nat),
    decreases b.len(),
{
    if b.len() > 0 {
        lemma_bytes_val_bound(b.drop_last());
        assert(bytes_val(b.drop_last()) * 256 + b.last() < 256 * pow256(
            (b.len() - 1) as nat,
        )) by (nonlinear_arith)
            requires
                bytes_val(b.drop_last()) < pow256((b.len() - 1) as nat),
                b.last() < 256,
        ;
    }
}

/// Re-encoding the value of a byte sequence gives back that sequence.
proof fn lemma_be_bytes_of_val(b: Seq<u8>)
    ensures
        be_bytes(bytes_val(b), b.len() as nat) == b,
    decreases b.len(),
{
    if b.len() > 0 {
        let front = b.drop_last();
        lemma_be_bytes_of_val(front);
        let v = bytes_val(b);
        let vf = bytes_val(front);
        assert(v == vf * 256 + b.last());
        assert(v % 256 == b.last() && v / 256 == vf) by (nonlinear_arith)
            requires
                v == vf * 256 + (b.last() as nat),
                b.last() < 256,
        ;
        assert(be_bytes(v, b.len() as nat) =~= b);
    }
}

/// The value of the encoding of `n` is `n` again, for `n` in range.
proof fn lemma_val_of_be_bytes(n: nat, k: nat)
    requires
        n < pow256(k),
    ensures
        bytes_val(be_bytes(n, k)) == n,
    decreases k,
{
    if k > 0 {
        let front = n / 256;
        assert(front < pow256((k - 1) as nat)) by (nonlinear_arith)
            requires
                n < pow256(k),
                pow256(k) == 256 * pow256((k - 1) as nat),
                front == n / 256,
        ;
        lemma_val_of_be_bytes(front, (k - 1) as nat);
        let d = be_bytes(n, k);
        lemma_be_bytes_len(front, (k - 1) as nat);
        assert(d.drop_last() =~= be_bytes(front, (k - 1) as nat));
        assert((n / 256) * 256 + n % 256 == n) by (nonlinear_arith);
    }
}

/// The shape every encoding shares: its length, and what stands at each
/// fixed position.
proof fn lemma_encodes_shape(r: Request)
    ensures
        encodes(r).len() >= 24,
        encodes(r)[0] == 0 || encodes(r)[0] == 1,
        (encodes(r)[0] == 0) == (r is Subscribe),
        encodes(r).subrange(1, 17) == be_bytes(r.header_spec().request_id as nat, 16),
        encodes(r)[17] == purpose_tag(r.header_spec().message_purpose),
        encodes(r)[18] == mtype_tag(r.header_spec().message_type),
        encodes(r).subrange(19, 23) == be_bytes(r.header_spec().version as nat, 4),
        r matches Request::Subscribe(s) ==> encodes(r).len() == 24 && encodes(r)[23]
            == s.body.event_name.index_spec() as u8,
        r matches Request::Command(c) ==> encodes(r)[23] == 0 && encodes(r).subrange(
            24,
            encodes(r).len() as int,
        ) == encode_utf8(c.body.command_line@),
{
    let e = encodes(r);
    match r {
        Request::Subscribe(s) => {
            lemma_be_bytes_len(s.header.request_id as nat, 16);
            lemma_be_bytes_len(s.header.version as nat, 4);
            assert(e.subrange(1, 17) =~= be_bytes(s.header.request_id as nat, 16));
            assert(e.subrange(19, 23) =~= be_bytes(s.header.version as nat, 4));
        },
        Request::Command(c) => {
            lemma_be_bytes_len(c.header.request_id as nat, 16);
            lemma_be_bytes_len(c.header.version as nat, 4);
            assert(e.subrange(1, 17) =~= be_bytes(c.header.request_id as nat, 16));
            assert(e.subrange(19, 23) =~= be_bytes(c.header.version as nat, 4));
            assert(e.subrange(24, e.len() as int) =~= encode_utf8(c.body.command_line@));
        },
    }
}

/// Appends the `k`-byte big-endian form of `n` to `out`.
fn push_be_bytes(out: &mut Vec<u8>, n: u128, k: usize)
    requires
        k <= 16,
        (n as nat) < pow256(k as nat),
    ensures
        final(out)@ == old(out)@ + be_bytes(n as nat, k as nat),
{
    let mut tmp: Vec<u8> = Vec::new();
    let ghost mut suffix: Seq<u8> = Seq::empty();
    let mut m = n;
    let mut i: usize = 0;
    proof {
        assert(be_bytes(n as nat, k as nat) =~= be_bytes(m as nat, k as nat) + suffix);
    }
    while i < k
        invariant
            0 <= i <= k,
            suffix.len() == i as int,
            tmp@.len() == i as int,
            be_bytes(n as nat, k as nat) == be_bytes(m as nat, (k - i) as nat) + suffix,
            forall|j: int| 0 <= j < i ==> tmp@[j] == suffix[i - 1 - j],
        decreases k - i,
    {
        let b = (m % 256) as u8;
        proof {
            assert(be_bytes(m as nat, (k - i) as nat) == be_bytes(
                (m as nat) / 256,
                (k - i - 1) as nat,
            ) + seq![(((m as nat) % 256)) as u8]);
            assert(be_bytes(m as nat, (k - i) as nat) + suffix =~= be_bytes(
                (m as nat) / 256,
                (k - i - 1) as nat,
            ) + (seq![b] + suffix));
        }
        tmp.push(b);
        proof {
            suffix = seq![b] + suffix;
        }
        m = m / 256;
        i = i + 1;
    }
    proof {
        assert(be_bytes(m as nat, 0) =~= Seq::empty());
        assert(be_bytes(n as nat, k as nat) =~= suffix);
    }
    let mut j: usize = 0;
    while j < k
        invariant
            0 <= j <= k,
            tmp@.len() == k as int,
            suffix.len() == k as int,
            out@.len() == old(out)@.len() + j as int,
            out@ == old(out)@ + suffix.subrange(0, j as int),
            forall|x: int| 0 <= x < k ==> tmp@[x] == suffix[k - 1 - x],
        decreases k - j,
    {
        out.push(tmp[k - 1 - j]);
        proof {
            assert(old(out)@ + suffix.subrange(0, j as int + 1) =~= (old(out)@ + suffix.subrange(
                0,
                j as int,
            )).push(suffix[j as int]));
        }
        j = j + 1;
    }
    proof {
        assert(suffix.subrange(0, k as int) =~= suffix);
    }
}

/// Reads a `k`-byte big-endian value.
fn read_be_bytes(data: &[u8], from: usize, k: usize) -> (v: u128)
    requires
        k <= 16,
        from + k <= data@.len(),
    ensures
        v as nat == bytes_val(data@.subrange(from as int, (from + k) as int)),
        (v as nat) < pow256(k as nat),
{
    let n = data.len();
    let mut v: u128 = 0;
    let mut i: usize = 0;
    proof {
        assert(data@.subrange(from as int, from as int) =~= Seq::<u8>::empty());
        lemma_pow256_16();
    }
    while i < k
        invariant
            0 <= i <= k <= 16,
            from + k <= n,
            n == data@.len(),
            v as nat == bytes_val(data@.subrange(from as int, (from + i) as int)),
            (v as nat) < pow256(i as nat),
            pow256(16) == 0x100000000000000000000000000000000,
        decreases k - i,
    {
        let ghost pre = data@.subrange(from as int, (from + i) as int);
        let ghost cur = data@.subrange(from as int, (from + i + 1) as int);
        proof {
            assert(cur.drop_last() =~= pre);
            assert(cur.last() == data@[(from + i) as int]);
            lemma_pow256_monotone((i + 1) as nat, 16);
            assert((v as nat) * 256 + 255 < pow256((i + 1) as nat)) by (nonlinear_arith)
                requires
                    (v as nat) < pow256(i as nat),
                    pow256((i + 1) as nat) == 256 * pow256(i as nat),
            ;
        }
        let b = data[from + i];
        v = v * 256 + (b as u128);
        i = i + 1;
    }
    v
}

/// Why a byte buffer is not the encoding of any request. Decode failures are
/// fatal to the one connection that sent the bytes, and to nothing else.
#[derive(Clone, Copy, PartialEq, Eq, Structural, Debug)]
pub enum DecodeError {
    TooShort,
    BadTag,
    BadPurpose,
    BadMessageType,
    BadTopic,
    BadOrigin,
    TrailingBytes,
    BadUtf8,
}

/// Encodes a request for the downstream wire.
pub fn encode_request(r: &Request) -> (out: Vec<u8>)
    ensures
        out@ == encodes(*r),
{
    let mut out: Vec<u8> = Vec::new();
    proof {
        lemma_pow256_16();
    }
    match r {
        Request::Subscribe(s) => {
            out.push(0u8);
            push_be_bytes(&mut out, s.header.request_id, 16);
            out.push(purpose_tag_of(s.header.message_purpose));
            out.push(mtype_tag_of(&s.header.message_type));
            push_be_bytes(&mut out, s.header.version as u128, 4);
            out.push(s.body.event_name.index() as u8);
            proof {
                assert(out@ =~= encodes(*r));
            }
        },
        Request::Command(c) => {
            out.push(1u8);
            push_be_bytes(&mut out, c.header.request_id, 16);
            out.push(purpose_tag_of(c.header.message_purpose));
            out.push(mtype_tag_of(&c.header.message_type));
            push_be_bytes(&mut out, c.header.version as u128, 4);
            out.push(0u8);
            let mut text = c.body.command_line.as_str().as_bytes_vec();
            out.append(&mut text);
            proof {
                assert(out@ =~= encodes(*r));
            }
        },
    }
    out
}

/// The wire tag of a purpose.
pub fn purpose_tag_of(p: MessagePurpose) -> (t: u8)
    ensures
        t == purpose_tag(p),
{
    match p {
        MessagePurpose::Event => 0,
        MessagePurpose::Subscribe => 1,
        MessagePurpose::CommandRequest => 2,
        MessagePurpose::CommandResponse => 3,
    }
}

/// The wire tag of an optional message type.
pub fn mtype_tag_of(t: &Option<MessageType>) -> (r: u8)
    ensures
        r == mtype_tag(*t),
{
    match t {
        None => 0,
        Some(MessageType::CommandRequest) => 1,
    }
}

/// Decodes one request off the downstream wire: succeeds exactly on the
/// buffers that are the encoding of a request, and returns that request.
pub fn decode_request(data: &[u8]) -> (r: Result<Request, DecodeError>)
    ensures
        match r {
            Ok(req) => encodes(req) == data@,
            Err(_) => forall|req: Request| encodes(req) != data@,
        },
{
    if data.len() < 24 {
        proof {
            assert forall|req: Request| encodes(req) != data@ by {
                lemma_encodes_shape(req);
            }
        }
        return Err(DecodeError::TooShort);
    }
    let tag = data[0];
    if tag > 1 {
        proof {
            assert forall|req: Request| encodes(req) != data@ by {
                lemma_encodes_shape(req);
            }
        }
        return Err(DecodeError::BadTag);
    }
    let request_id = read_be_bytes(data, 1, 16);
    let purpose_byte = data[17];
    let message_purpose = if purpose_byte == 0 {
        MessagePurpose::Event
    } else if purpose_byte == 1 {
        MessagePurpose::Subscribe
    } else if purpose_byte == 2 {
        MessagePurpose::CommandRequest
    } else if purpose_byte == 3 {
        MessagePurpose::CommandResponse
    } else {
        proof {
            assert forall|req: Request| encodes(req) != data@ by {
                lemma_encodes_shape(req);
                assert(encodes(req)[17] < 4);
            }
        }
        return Err(DecodeError::BadPurpose);
    };
    let mtype_byte = data[18];
    let message_type = if mtype_byte == 0 {
        None
    } else if mtype_byte == 1 {
        Some(MessageType::CommandRequest)
    } else {
        proof {
            assert forall|req: Request| encodes(req) != data@ by {
                lemma_encodes_shape(req);
                assert(encodes(req)[18] < 2);
            }
        }
        return Err(DecodeError::BadMessageType);
    };
    let version_v = read_be_bytes(data, 19, 4);
    proof {
        lemma_pow256_16();
    }
    let version = version_v as u32;
    let header = Header { request_id, message_purpose, message_type, version };
    proof {
        lemma_bytes_val_bound(data@.subrange(1, 17));
        lemma_be_bytes_of_val(data@.subrange(1, 17));
        lemma_be_bytes_of_val(data@.subrange(19, 23));
        assert(header_bytes(header) =~= data@.subrange(1, 23));
    }
    if tag == 0 {
        if data.len() != 24 {
            proof {
                assert forall|req: Request| encodes(req) != data@ by {
                    lemma_encodes_shape(req);
                    if req is Subscribe {
                        assert(encodes(req).len() == 24);
                    } else {
                        assert(encodes(req)[0] == 1);
                    }
                }
            }
            return Err(DecodeError::TrailingBytes);
        }
        let topic_byte = data[23];
        if topic_byte != 0 {
            proof {
                assert forall|req: Request| encodes(req) != data@ by {
                    lemma_encodes_shape(req);
                    match req {
                        Request::Subscribe(s) => {
                            assert(s.body.event_name.index_spec() == 0) by {
                                match s.body.event_name {
                                    EventType::PlayerMessage => {},
                                }
                            }
                            assert(encodes(req)[23] == 0);
                        },
                        Request::Command(_) => {
                            assert(encodes(req)[0] == 1);
                        },
                    }
                }
            }
            return Err(DecodeError::BadTopic);
        }
        let event_name = EventType::PlayerMessage;
        let req = Request::Subscribe(
            subscribe::Subscribe { header, body: subscribe::Body { event_name } },
        );
        proof {
            assert(encodes(req) =~= data@);
        }
        Ok(req)
    } else {
        let origin_byte = data[23];
        if origin_byte != 0 {
            proof {
                assert forall|req: Request| encodes(req) != data@ by {
                    lemma_encodes_shape(req);
                    if req is Command {
                        assert(encodes(req)[23] == 0);
                    } else {
                        assert(encodes(req)[0] == 0);
                    }
                }
            }
            return Err(DecodeError::BadOrigin);
        }
        let mut text_bytes: Vec<u8> = Vec::new();
        let mut i: usize = 24;
        while i < data.len()
            invariant
                24 <= i <= data@.len(),
                text_bytes@ == data@.subrange(24, i as int),
            decreases data@.len() - i,
        {
            text_bytes.push(data[i]);
            proof {
                assert(data@.subrange(24, i as int + 1) =~= data@.subrange(24, i as int).push(
                    data@[i as int],
                ));
            }
            i = i + 1;
        }
        proof {
            assert(text_bytes@ =~= data@.subrange(24, data@.len() as int));
        }
        let command_line = match bytes_to_string(text_bytes) {
            Some(s) => s,
            None => {
                proof {
                    assert forall|req: Request| encodes(req) != data@ by {
                        lemma_encodes_shape(req);
                        match req {
                            Request::Command(c) => {
                                encode_utf8_valid_utf8(c.body.command_line@);
                                if encodes(req) == data@ {
                                    assert(encode_utf8(c.body.command_line@) == data@.subrange(
                                        24,
                                        data@.len() as int,
                                    ));
                                    assert(valid_utf8(data@.subrange(24, data@.len() as int)));
                                }
                            },
                            Request::Subscribe(_) => {
                                assert(encodes(req)[0] == 0);
                            },
                        }
                    }
                }
                return Err(DecodeError::BadUtf8);
            },
        };
        proof {
            decode_utf8_encode_utf8(data@.subrange(24, data@.len() as int));
        }
        let req = Request::Command(
            command::CommandRequest {
                body: command::Body { command_line, origin: command::Origin::Player },
                header,
            },
        );
        proof {
            assert(encodes(req) =~= data@);
        }
        Ok(req)
    }
}

/// Law: the wire encoding is injective — two requests with the same
/// encoding agree on every field the wire carries, so decoding an encoding
/// always recovers the encoded request. (With [`encode_request`] and
/// [`decode_request`]'s contracts this is the round trip.)
pub proof fn lemma_encodes_injective(r1: Request, r2: Request)
    requires
        encodes(r1) == encodes(r2),
    ensures
        r1.header_spec() == r2.header_spec(),
        r1 matches Request::Subscribe(s1) ==> (r2 matches Request::Subscribe(s2) && s1.body
            == s2.body),
        r1 matches Request::Command(c1) ==> (r2 matches Request::Command(c2)
            && c1.body.command_line@ == c2.body.command_line@ && c1.body.origin == c2.body.origin),
{
    lemma_encodes_shape(r1);
    lemma_encodes_shape(r2);
    lemma_pow256_16();
    let h1 = r1.header_spec();
    let h2 = r2.header_spec();
    lemma_val_of_be_bytes(h1.request_id as nat, 16);
    lemma_val_of_be_bytes(h2.request_id as nat, 16);
    lemma_val_of_be_bytes(h1.version as nat, 4);
    lemma_val_of_be_bytes(h2.version as nat, 4);
    assert(h1.request_id == h2.request_id);
    assert(h1.version == h2.version);
    assert(purpose_tag(h1.message_purpose) == purpose_tag(h2.message_purpose));
    assert(h1.message_purpose == h2.message_purpose);
    assert(h1.message_type == h2.message_type);
    match r1 {
        Request::Subscribe(s1) => {
            let s2 = r2->Subscribe_0;
            assert(s1.body.event_name == s2.body.event_name) by {
                match s1.body.event_name {
                    EventType::PlayerMessage => {
                        match s2.body.event_name {
                            EventType::PlayerMessage => {},
                        }
                    },
                }
            }
        },
        Request::Command(c1) => {
            let c2 = r2->Command_0;
            let b1 = encode_utf8(c1.body.command_line@);
            let b2 = encode_utf8(c2.body.command_line@);
            assert(b1 == b2);
            encode_utf8_decode_utf8(c1.body.command_line@);
            encode_utf8_decode_utf8(c2.body.command_line@);
        },
    }
}

} // verus!
