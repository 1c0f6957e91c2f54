//! The wire layer end to end: binary codec round trips, JSON text output,
//! identifier text, and upstream frame classification.
use wssrock::codec::{decode_request, encode_request, DecodeError};
use wssrock::ident::{uuid_from_str, uuid_to_string};
use wssrock::json_out::{dec_u32_string, escape_json_str};
use wssrock::minecraft::{ClassifyError, MinecraftMessage};
use wssrock::request::command::{Body, CommandRequest, Origin};
use wssrock::request::subscribe::Subscribe;
use wssrock::request::{EventType, Header, HeaderError, MessagePurpose, MessageType, Request};

fn fixed_header(purpose: MessagePurpose, mtype: Option<MessageType>) -> Header {
    Header {
        request_id: 0x00112233445566778899aabbccddeeffu128,
        message_purpose: purpose,
        message_type: mtype,
        version: 1,
    }
}

#[test]
fn command_round_trip() {
    let request = Request::command(String::from("say hi"), Origin::Player);
    let bytes = encode_request(&request);
    let decoded = decode_request(bytes.as_slice()).expect("own encoding must decode");
    match (&request, &decoded) {
        (Request::Command(sent), Request::Command(got)) => {
            assert_eq!(got.body.command_line, "say hi");
            assert_eq!(got.body.origin, Origin::Player);
            assert_eq!(got.header.request_id, sent.header.request_id);
            assert_eq!(got.header.message_purpose, MessagePurpose::CommandRequest);
            assert_eq!(got.header.message_type, Some(MessageType::CommandRequest));
            assert_eq!(got.header.version, 1);
        }
        _ => panic!("variant changed in round trip"),
    }
}

#[test]
fn subscribe_round_trip() {
    let request = Request::subscribe(EventType::PlayerMessage);
    let bytes = encode_request(&request);
    let decoded = decode_request(bytes.as_slice()).expect("own encoding must decode");
    match (&request, &decoded) {
        (Request::Subscribe(sent), Request::Subscribe(got)) => {
            assert_eq!(got.body.event_name, EventType::PlayerMessage);
            assert_eq!(got.header.request_id, sent.header.request_id);
        }
        _ => panic!("variant changed in round trip"),
    }
}

#[test]
fn command_round_trip_non_ascii_text() {
    let request = Request::command(String::from("say \"héllo\"\n\u{1}"), Origin::Player);
    let bytes = encode_request(&request);
    let decoded = decode_request(bytes.as_slice()).expect("own encoding must decode");
    match decoded {
        Request::Command(got) => assert_eq!(got.body.command_line, "say \"héllo\"\n\u{1}"),
        _ => panic!("variant changed in round trip"),
    }
}

#[test]
fn decode_rejects_bad_buffers() {
    assert_eq!(decode_request(&[0u8; 4]), Err(DecodeError::TooShort));
    let mut bad_tag = vec![9u8];
    bad_tag.extend_from_slice(&[0u8; 23]);
    assert_eq!(decode_request(bad_tag.as_slice()), Err(DecodeError::BadTag));
    let mut bad_purpose = vec![0u8; 24];
    bad_purpose[17] = 200;
    assert_eq!(
        decode_request(bad_purpose.as_slice()),
        Err(DecodeError::BadPurpose)
    );
    let mut bad_mtype = vec![0u8; 24];
    bad_mtype[18] = 7;
    assert_eq!(
        decode_request(bad_mtype.as_slice()),
        Err(DecodeError::BadMessageType)
    );
    let trailing = vec![0u8; 25];
    assert_eq!(
        decode_request(trailing.as_slice()),
        Err(DecodeError::TrailingBytes)
    );
    let mut bad_topic = vec![0u8; 24];
    bad_topic[23] = 3;
    assert_eq!(decode_request(bad_topic.as_slice()), Err(DecodeError::BadTopic));
    let mut bad_origin = vec![1u8; 24];
    bad_origin[17] = 2;
    bad_origin[18] = 1;
    assert_eq!(
        decode_request(bad_origin.as_slice()),
        Err(DecodeError::BadOrigin)
    );
    let mut bad_utf8 = vec![1u8];
    bad_utf8.extend_from_slice(&[0u8; 22]);
    bad_utf8.push(0);
    bad_utf8.push(0xff);
    assert_eq!(decode_request(bad_utf8.as_slice()), Err(DecodeError::BadUtf8));
}

#[test]
fn uuid_text_round_trip() {
    let id = 0x00112233445566778899aabbccddeeffu128;
    let text = uuid_to_string(id);
    assert_eq!(text, "00112233-4455-6677-8899-aabbccddeeff");
    assert_eq!(uuid_from_str(&text), Some(id));
    assert_eq!(uuid_to_string(0), "00000000-0000-0000-0000-000000000000");
    assert_eq!(uuid_to_string(u128::MAX), "ffffffff-ffff-ffff-ffff-ffffffffffff");
}

#[test]
fn uuid_text_rejects_non_canonical() {
    assert_eq!(uuid_from_str("00112233-4455-6677-8899-aabbccddeeff "), None);
    assert_eq!(uuid_from_str("00112233-4455-6677-8899-AABBCCDDEEFF"), None);
    assert_eq!(uuid_from_str("001122334455-6677-8899-aabbccddeeff"), None);
    assert_eq!(uuid_from_str(""), None);
}

#[test]
fn decimal_text_exact() {
    assert_eq!(dec_u32_string(0), "0");
    assert_eq!(dec_u32_string(1), "1");
    assert_eq!(dec_u32_string(4294967295), "4294967295");
}

#[test]
fn escape_json_exact() {
    assert_eq!(escape_json_str("say hi"), "say hi");
    assert_eq!(
        escape_json_str("a\"b\\c\nd\te\r\u{8}\u{c}\u{1}\u{1f}é"),
        "a\\\"b\\\\c\\nd\\te\\r\\b\\f\\u0001\\u001fé"
    );
}

#[test]
fn command_json_exact() {
    let request = Request::Command(CommandRequest {
        body: Body::new(String::from("say hi"), Origin::Player),
        header: fixed_header(
            MessagePurpose::CommandRequest,
            Some(MessageType::CommandRequest),
        ),
    });
    assert_eq!(
        request.to_json(),
        "{\"body\":{\"commandLine\":\"say hi\",\"origin\":{\"type\":\"player\"}},\
         \"header\":{\"requestId\":\"00112233-4455-6677-8899-aabbccddeeff\",\
         \"messagePurpose\":\"CommandRequest\",\"messageType\":\"CommandRequest\",\
         \"version\":1}}"
    );
}

#[test]
fn subscribe_json_exact() {
    let request = Request::Subscribe(Subscribe {
        header: fixed_header(MessagePurpose::Subscribe, Some(MessageType::CommandRequest)),
        body: wssrock::request::subscribe::Body::new(EventType::PlayerMessage),
    });
    assert_eq!(
        request.to_json(),
        "{\"header\":{\"requestId\":\"00112233-4455-6677-8899-aabbccddeeff\",\
         \"messagePurpose\":\"subscribe\",\"messageType\":\"CommandRequest\",\"version\":1},\
         \"body\":{\"eventName\":\"PlayerMessage\"}}"
    );
}

#[test]
fn pretty_json_exact() {
    let request = Request::Command(CommandRequest {
        body: Body::new(String::from("say hi"), Origin::Player),
        header: fixed_header(
            MessagePurpose::CommandRequest,
            Some(MessageType::CommandRequest),
        ),
    });
    let expected = "{\n  \"body\": {\n    \"commandLine\": \"say hi\",\n    \"origin\": {\n      \
                    \"type\": \"player\"\n    }\n  },\n  \"header\": {\n    \
                    \"requestId\": \"00112233-4455-6677-8899-aabbccddeeff\",\n    \
                    \"messagePurpose\": \"CommandRequest\",\n    \
                    \"messageType\": \"CommandRequest\",\n    \"version\": 1\n  }\n}";
    assert_eq!(request.to_json_pretty(), expected);
}

#[test]
fn header_parse_reads_fields_back() {
    let header = fixed_header(MessagePurpose::CommandRequest, Some(MessageType::CommandRequest));
    let text = wssrock::json_out::header_json(&header);
    let parsed = Header::parse(&text).expect("own header text must parse");
    assert_eq!(parsed, header);
}

#[test]
fn header_parse_without_message_type() {
    let text = "{\"requestId\":\"00112233-4455-6677-8899-aabbccddeeff\",\
                \"messagePurpose\":\"commandResponse\",\"version\":1}";
    let parsed = Header::parse(text).expect("response header must parse");
    assert_eq!(parsed.request_id, 0x00112233445566778899aabbccddeeffu128);
    assert_eq!(parsed.message_purpose, MessagePurpose::CommandResponse);
    assert_eq!(parsed.message_type, None);
    assert_eq!(parsed.version, 1);
}

#[test]
fn header_parse_rejects_malformed() {
    assert_eq!(Header::parse("not json"), Err(HeaderError::Malformed));
    assert_eq!(Header::parse("{}"), Err(HeaderError::Malformed));
    let bad_uuid = "{\"requestId\":\"XYZ\",\"messagePurpose\":\"event\",\"version\":1}";
    assert_eq!(Header::parse(bad_uuid), Err(HeaderError::Malformed));
    let bad_purpose = "{\"requestId\":\"00112233-4455-6677-8899-aabbccddeeff\",\
                       \"messagePurpose\":\"nonsense\",\"version\":1}";
    assert_eq!(Header::parse(bad_purpose), Err(HeaderError::Malformed));
    let no_version = "{\"requestId\":\"00112233-4455-6677-8899-aabbccddeeff\",\
                      \"messagePurpose\":\"event\"}";
    assert_eq!(Header::parse(no_version), Err(HeaderError::Malformed));
}

fn event_frame(name: &str) -> String {
    format!(
        "{{\"header\":{{\"requestId\":\"00112233-4455-6677-8899-aabbccddeeff\",\
         \"messagePurpose\":\"event\",\"eventName\":\"{}\",\"version\":1}},\"body\":{{}}}}",
        name
    )
}

#[test]
fn classify_event_frame() {
    let frame = event_frame("PlayerMessage");
    match MinecraftMessage::classify(frame.clone()) {
        Ok(MinecraftMessage::Subscription { event, content }) => {
            assert_eq!(event, EventType::PlayerMessage);
            assert_eq!(content, frame);
        }
        other => panic!("event frame misclassified: {:?}", other),
    }
}

#[test]
fn classify_generic_frame() {
    let frame = String::from(
        "{\"header\":{\"requestId\":\"00112233-4455-6677-8899-aabbccddeeff\",\
         \"messagePurpose\":\"commandResponse\",\"version\":1},\"body\":{}}",
    );
    match MinecraftMessage::classify(frame.clone()) {
        Ok(MinecraftMessage::Generic(content)) => assert_eq!(content, frame),
        other => panic!("response frame misclassified: {:?}", other),
    }
}

#[test]
fn classify_unknown_topic_then_next_frame() {
    let unknown = event_frame("NoSuchTopic");
    assert_eq!(
        MinecraftMessage::classify(unknown),
        Err(ClassifyError::UnknownTopic)
    );
    // The reader survives a bad frame: the next valid one still classifies.
    let next = event_frame("PlayerMessage");
    assert!(MinecraftMessage::classify(next).is_ok());
}

#[test]
fn classify_missing_fields() {
    assert_eq!(
        MinecraftMessage::classify(String::from("not json")),
        Err(ClassifyError::MissingPurpose)
    );
    assert_eq!(
        MinecraftMessage::classify(String::from("{\"body\":{}}")),
        Err(ClassifyError::MissingPurpose)
    );
    let no_name = String::from(
        "{\"header\":{\"requestId\":\"00112233-4455-6677-8899-aabbccddeeff\",\
         \"messagePurpose\":\"event\",\"version\":1}}",
    );
    assert_eq!(
        MinecraftMessage::classify(no_name),
        Err(ClassifyError::MissingEventName)
    );
}

#[test]
fn frame_uuid_recovered() {
    let frame = MinecraftMessage::Generic(String::from(
        "{\"header\":{\"requestId\":\"00112233-4455-6677-8899-aabbccddeeff\",\
         \"messagePurpose\":\"commandResponse\",\"version\":1},\"body\":{}}",
    ));
    assert_eq!(frame.uuid(), Ok(0x00112233445566778899aabbccddeeffu128));
    let no_header = MinecraftMessage::Generic(String::from("{\"body\":{}}"));
    assert!(no_header.uuid().is_err());
}

#[test]
fn topic_names_round_trip() {
    assert_eq!(EventType::PlayerMessage.name(), "PlayerMessage");
    assert_eq!(EventType::parse_topic("PlayerMessage"), Some(EventType::PlayerMessage));
    assert_eq!(EventType::parse_topic("playermessage"), None);
    assert_eq!(EventType::all(), vec![EventType::PlayerMessage]);
}

#[test]
fn fresh_request_ids_fill_header() {
    let request = Request::command(String::from("say hi"), Origin::Player);
    // The generated identifier formats to canonical text and parses back.
    let id = request.header().request_id;
    assert_eq!(uuid_from_str(&uuid_to_string(id)), Some(id));
}

#[test]
fn default_addresses() {
    assert_eq!(wssrock::default_wss_port(), "127.0.0.1:9988");
    assert_eq!(wssrock::default_client_port(), "127.0.0.1:9989");
}
