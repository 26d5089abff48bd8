use gossip_glomers::echo;
use gossip_glomers::json::Json;
use gossip_glomers::state;
use gossip_glomers::wire::{
    decode_message, decode_response, encode_message, encode_response, read_message,
    read_response, write_line, DecodeError,
};
use gossip_glomers::{
    ErrorBody, ErrorMessageType, InitBody, Message, MessageBody, MessageType, Response,
    ResponseBody, ResponseType,
};

fn value_of(text: &str) -> serde_json::Value {
    serde_json::from_str::<serde_json::Value>(text).unwrap()
}

#[test]
fn lib_test_init_deserialize() {
    let request = r#"{
        "src": "n1",
        "dest": "n2",
        "body": {
            "type": "init",
            "msg_id": 1,
            "node_id": "n3",
            "node_ids": ["n1", "n2", "n3"]
        }
    }"#;

    assert_eq!(
        read_message::<MessageType>(request).unwrap(),
        Message {
            dst: "n2".to_string(),
            src: "n1".to_string(),
            body: MessageBody {
                msg_id: Some(1),
                kind: MessageType::Init(InitBody {
                    node_id: "n3".to_string(),
                    node_ids: vec!["n1".to_string(), "n2".to_string(), "n3".to_string()]
                })
            }
        }
    );
}

#[test]
fn main_test_init_deserialize() {
    let request = r#"{
        "src": "n1",
        "dest": "n2",
        "body": {
            "type": "init",
            "msg_id": 1,
            "node_id": "n3",
            "node_ids": ["n1", "n2", "n3"]
        }
    }"#;

    assert_eq!(
        read_message::<state::MessageType>(request).unwrap(),
        Message {
            dst: "n2".to_string(),
            src: "n1".to_string(),
            body: MessageBody {
                msg_id: Some(1),
                kind: state::MessageType::Init(InitBody {
                    node_id: "n3".to_string(),
                    node_ids: vec!["n1".to_string(), "n2".to_string(), "n3".to_string()]
                })
            }
        }
    );
}

#[test]
fn echo_test_echo_deserialize() {
    let request = r#"{
        "src": "n1",
        "dest": "n2",
        "body": {
            "type": "echo",
            "msg_id": 1,
            "echo": "foo"
        }
    }"#;

    assert_eq!(
        read_message::<echo::MessageType>(request).unwrap(),
        Message {
            dst: "n2".to_string(),
            src: "n1".to_string(),
            body: MessageBody {
                msg_id: Some(1),
                kind: echo::MessageType::Echo(echo::EchoBody {
                    echo: "foo".to_string(),
                })
            },
        }
    );
}

#[test]
fn main_test_echo_deserialize() {
    let request = r#"{
        "src": "n1",
        "dest": "n2",
        "body": {
            "type": "echo",
            "msg_id": 1,
            "echo": "foo"
        }
    }"#;

    assert_eq!(
        read_message::<state::MessageType>(request).unwrap(),
        Message {
            dst: "n2".to_string(),
            src: "n1".to_string(),
            body: MessageBody {
                msg_id: Some(1),
                kind: state::MessageType::Echo(echo::EchoBody {
                    echo: "foo".to_string()
                })
            }
        }
    );
}

#[test]
fn echo_test_echo_ok_serialize() {
    assert_eq!(
        value_of(
            encode_response(&Response {
                src: "n1".to_string(),
                dst: "n2".to_string(),
                body: ResponseBody {
                    msg_id: Some(1),
                    in_reply_to: Some(1),
                    kind: echo::ResponseType::EchoOk(echo::EchoOkBody {
                        echo: "hello".to_string(),
                    })
                }
            })
            .render()
            .as_str()
        ),
        value_of(
            r#"{
                    "src": "n1",
                    "dest": "n2",
                    "body": {
                        "type": "echo_ok",
                        "echo": "hello",
                        "msg_id": 1,
                        "in_reply_to": 1
                    }
                }"#
        )
    );
}

#[test]
fn main_test_echo_ok_serialize() {
    assert_eq!(
        value_of(
            encode_response(&Response {
                src: "n1".to_string(),
                dst: "n2".to_string(),
                body: ResponseBody {
                    msg_id: Some(1),
                    in_reply_to: Some(1),
                    kind: state::ResponseType::EchoOk(echo::EchoOkBody {
                        echo: "hello".to_string(),
                    })
                }
            })
            .render()
            .as_str()
        ),
        value_of(
            r#"{
                    "src": "n1",
                    "dest": "n2",
                    "body": {
                        "type": "echo_ok",
                        "echo": "hello",
                        "msg_id": 1,
                        "in_reply_to": 1
                    }
                }"#
        )
    );
}

#[test]
fn parse_builds_the_tree_of_a_text() {
    let doc = Json::parse(r#"{"a": [1, -2, "x", null, true], "b": {"c": 18446744073709551615}}"#)
        .unwrap();
    assert_eq!(
        doc,
        Json::Object(vec![
            (
                "a".to_string(),
                Json::List(vec![
                    Json::Number(1),
                    Json::Negative(-2),
                    Json::Text("x".to_string()),
                    Json::Null,
                    Json::Bool(true),
                ])
            ),
            (
                "b".to_string(),
                Json::Object(vec![("c".to_string(), Json::Number(u64::MAX))])
            ),
        ])
    );
}

#[test]
fn parse_keeps_the_text_of_a_fraction() {
    assert_eq!(Json::parse("1.5").unwrap(), Json::Fraction("1.5".to_string()));
    assert_eq!(Json::Fraction("1.5".to_string()).render(), "1.5");
    assert_eq!(Json::Fraction("no number".to_string()).render(), "null");
}

#[test]
fn parse_refuses_what_is_not_json() {
    assert_eq!(Json::parse(""), None);
    assert_eq!(Json::parse("{"), None);
    assert_eq!(Json::parse("{} {}"), None);
    assert_eq!(Json::parse("nil"), None);
}

#[test]
fn parse_keeps_the_later_of_two_members_under_one_key() {
    let doc = Json::parse(r#"{"a": 1, "a": 2}"#).unwrap();
    assert_eq!(doc.get("a"), Some(&Json::Number(2)));
}

#[test]
fn get_gives_the_last_member_under_a_key() {
    let doc = Json::Object(vec![
        ("a".to_string(), Json::Number(1)),
        ("b".to_string(), Json::Number(2)),
        ("a".to_string(), Json::Number(3)),
    ]);
    assert_eq!(doc.get("a"), Some(&Json::Number(3)));
    assert_eq!(doc.get("b"), Some(&Json::Number(2)));
    assert_eq!(doc.get("c"), None);
    assert_eq!(Json::Number(1).get("a"), None);
}

#[test]
fn render_writes_compact_text() {
    let doc = Json::Object(vec![
        ("b".to_string(), Json::List(vec![Json::Number(1), Json::Null])),
        ("a".to_string(), Json::Text("x\ny".to_string())),
    ]);
    assert_eq!(doc.render(), r#"{"a":"x\ny","b":[1,null]}"#);
}

#[test]
fn write_line_ends_with_the_only_line_break() {
    let response = Response {
        src: "n1".to_string(),
        dst: "c1".to_string(),
        body: ResponseBody {
            kind: echo::ResponseType::EchoOk(echo::EchoOkBody { echo: "two\nlines".to_string() }),
            msg_id: Some(1),
            in_reply_to: Some(7),
        },
    };
    let line = write_line(&encode_response(&response));
    assert!(line.ends_with('\n'));
    assert_eq!(line.matches('\n').count(), 1);
    assert_eq!(
        read_response::<echo::ResponseType>(line.as_str()).unwrap(),
        response
    );
}

#[test]
fn absent_identifiers_are_left_out() {
    let response = Response {
        src: "n1".to_string(),
        dst: "c1".to_string(),
        body: ResponseBody { kind: ResponseType::InitOk, msg_id: None, in_reply_to: Some(1) },
    };
    assert_eq!(
        encode_response(&response).render(),
        r#"{"body":{"in_reply_to":1,"type":"init_ok"},"dest":"c1","src":"n1"}"#
    );
}

#[test]
fn identifier_may_be_absent_or_null() {
    let absent = r#"{"src":"c1","dest":"n1","body":{"type":"echo","echo":"x"}}"#;
    let null = r#"{"src":"c1","dest":"n1","body":{"type":"echo","echo":"x","msg_id":null}}"#;
    assert_eq!(read_message::<echo::MessageType>(absent).unwrap().body.msg_id, None);
    assert_eq!(read_message::<echo::MessageType>(null).unwrap().body.msg_id, None);
}

#[test]
fn members_that_no_kind_uses_are_passed_over() {
    let line = r#"{"src":"c1","dest":"n1","id":9,"body":{"type":"echo","echo":"x","more":[1]}}"#;
    assert_eq!(
        read_message::<echo::MessageType>(line).unwrap().body.kind,
        echo::MessageType::Echo(echo::EchoBody { echo: "x".to_string() })
    );
}

#[test]
fn malformed_lines_are_told_apart_from_unknown_shapes() {
    assert_eq!(read_message::<echo::MessageType>("{oops"), Err(DecodeError::Syntax));
    assert_eq!(read_message::<echo::MessageType>("[1,2]"), Err(DecodeError::Shape));
    // an unknown kind
    assert_eq!(
        read_message::<echo::MessageType>(r#"{"src":"a","dest":"b","body":{"type":"read"}}"#),
        Err(DecodeError::Shape)
    );
    // a required member is missing
    assert_eq!(
        read_message::<echo::MessageType>(r#"{"src":"a","dest":"b","body":{"type":"echo"}}"#),
        Err(DecodeError::Shape)
    );
    // an identifier that is no unsigned integer
    assert_eq!(
        read_message::<echo::MessageType>(
            r#"{"src":"a","dest":"b","body":{"type":"echo","echo":"x","msg_id":-1}}"#
        ),
        Err(DecodeError::Shape)
    );
    assert_eq!(
        read_message::<echo::MessageType>(
            r#"{"src":"a","dest":"b","body":{"type":"echo","echo":"x","msg_id":1.0}}"#
        ),
        Err(DecodeError::Shape)
    );
    // no destination
    assert_eq!(
        read_message::<echo::MessageType>(r#"{"src":"a","body":{"type":"echo","echo":"x"}}"#),
        Err(DecodeError::Shape)
    );
}

#[test]
fn init_round_trip() {
    let message = Message {
        src: "c0".to_string(),
        dst: "n1".to_string(),
        body: MessageBody {
            kind: MessageType::Init(InitBody {
                node_id: "n1".to_string(),
                node_ids: vec!["n1".to_string(), "n2".to_string()],
            }),
            msg_id: Some(1),
        },
    };
    assert_eq!(decode_message::<MessageType>(&encode_message(&message)), Some(message));
}

#[test]
fn round_trip_through_text_ignores_the_order_of_keys() {
    let message = Message {
        src: "c0".to_string(),
        dst: "n1".to_string(),
        body: MessageBody {
            kind: echo::MessageType::Echo(echo::EchoBody { echo: "\"quoted\" \u{e9}".to_string() }),
            msg_id: None,
        },
    };
    let line = write_line(&encode_message(&message));
    assert_eq!(read_message::<echo::MessageType>(line.as_str()), Ok(message));
    let reordered = r#"{"body":{"echo":"x","msg_id":3,"type":"echo"},"dest":"n1","src":"c0"}"#;
    let decoded = read_message::<echo::MessageType>(reordered).unwrap();
    assert_eq!(
        value_of(encode_message(&decoded).render().as_str()),
        value_of(reordered)
    );
}

#[test]
fn error_response_round_trip() {
    let line = r#"{"src":"seq-kv","dest":"n1","body":{"type":"error","in_reply_to":4,"code":22,"text":"current value 13 is not 10"}}"#;
    let response = read_response::<ErrorMessageType>(line).unwrap();
    assert_eq!(
        response,
        Response {
            src: "seq-kv".to_string(),
            dst: "n1".to_string(),
            body: ResponseBody {
                kind: ErrorMessageType::Error(ErrorBody {
                    code: 22,
                    text: "current value 13 is not 10".to_string()
                }),
                msg_id: None,
                in_reply_to: Some(4),
            },
        }
    );
    assert_eq!(
        decode_response::<ErrorMessageType>(&encode_response(&response)),
        Some(response)
    );
}
