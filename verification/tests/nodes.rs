use gossip_glomers::broadcast;
use gossip_glomers::broadcast::{BroadcastBody, BroadcastNode, SeenValues, TopologyBody};
use gossip_glomers::echo;
use gossip_glomers::echo::EchoNode;
use gossip_glomers::runtime::{RunError, Runtime};
use gossip_glomers::state;
use gossip_glomers::state::{State, UninitializedState};
use gossip_glomers::unique_ids;
use gossip_glomers::unique_ids::UniqueIDNode;
use gossip_glomers::wire::DecodeError;
use gossip_glomers::{
    InitBody, JSONLFormatter, Message, MessageBody, Node, NodeError, Outbound, Response,
    ResponseBody,
};

fn init_body(node_id: &str, node_ids: &[&str]) -> InitBody {
    InitBody {
        node_id: node_id.to_string(),
        node_ids: node_ids.iter().map(|n| n.to_string()).collect(),
    }
}

fn request<T>(src: &str, dst: &str, kind: T, msg_id: Option<u64>) -> Message<T> {
    Message { src: src.to_string(), dst: dst.to_string(), body: MessageBody { kind, msg_id } }
}

fn reply<S, T>(src: &str, dst: &str, kind: T, msg_id: u64, to: Option<u64>) -> Outbound<S, T> {
    Outbound::Reply(Response {
        src: src.to_string(),
        dst: dst.to_string(),
        body: ResponseBody { kind, msg_id: Some(msg_id), in_reply_to: to },
    })
}

fn value_of(text: &str) -> serde_json::Value {
    serde_json::from_str::<serde_json::Value>(text).unwrap()
}

#[test]
fn echo_answers_with_the_same_text_and_the_next_identifier() {
    let mut node = EchoNode::init(init_body("n1", &["n1", "n2"]));
    assert_eq!(node.msg_id, 1);
    let ask = |text: &str, id| {
        request("c1", "n1", echo::MessageType::Echo(echo::EchoBody { echo: text.to_string() }), id)
    };
    let ok = |text: &str| echo::ResponseType::EchoOk(echo::EchoOkBody { echo: text.to_string() });
    assert_eq!(
        node.handle(ask("Please echo 35", Some(7))),
        Ok(vec![reply("n1", "c1", ok("Please echo 35"), 1, Some(7))])
    );
    assert_eq!(node.handle(ask("", None)), Ok(vec![reply("n1", "c1", ok(""), 2, None)]));
    assert_eq!(node.msg_id, 3);
}

#[test]
fn echo_stops_when_the_identifiers_run_out() {
    let mut node = EchoNode { msg_id: u64::MAX, node_id: "n1".to_string() };
    let ask = request(
        "c1",
        "n1",
        echo::MessageType::Echo(echo::EchoBody { echo: "x".to_string() }),
        Some(1),
    );
    assert_eq!(node.handle(ask), Err(NodeError::IdentifiersExhausted));
    assert_eq!(node, EchoNode { msg_id: u64::MAX, node_id: "n1".to_string() });
}

#[test]
fn generate_answers_with_the_identifier_given() {
    let mut node = UniqueIDNode::init(init_body("n1", &["n1"]));
    let out = node.on_message(
        request("c1", "n1", unique_ids::MessageType::Generate, Some(2)),
        "0190b5a4-0000-7000-8000-000000000000".to_string(),
    );
    assert_eq!(
        out,
        Ok(vec![reply(
            "n1",
            "c1",
            unique_ids::ResponseType::GenerateOk(unique_ids::GenerateOkBody {
                id: "0190b5a4-0000-7000-8000-000000000000".to_string()
            }),
            1,
            Some(2)
        )])
    );
    assert_eq!(node.msg_id, 2);
}

fn drawn_id(out: Result<Vec<Outbound<unique_ids::MessageType, unique_ids::ResponseType>>, NodeError>) -> String {
    match out.unwrap().pop().unwrap() {
        Outbound::Reply(r) => match r.body.kind {
            unique_ids::ResponseType::GenerateOk(body) => body.id,
        },
        Outbound::Request(_) => panic!("a request where a response was due"),
    }
}

#[test]
fn generate_draws_distinct_ordered_identifiers() {
    let mut node = UniqueIDNode::init(init_body("n1", &["n1"]));
    let first = drawn_id(node.handle(request("c1", "n1", unique_ids::MessageType::Generate, Some(1))));
    let second = drawn_id(node.handle(request("c1", "n1", unique_ids::MessageType::Generate, Some(2))));
    assert_eq!(first.len(), 36);
    assert_eq!(second.len(), 36);
    assert_ne!(first, second);
    assert!(first < second);
    assert_eq!(first.as_bytes()[14], b'7');
    assert_eq!(node.msg_id, 3);
}

fn broadcast_of(value: u64) -> broadcast::MessageType {
    broadcast::MessageType::Broadcast(BroadcastBody { message: value })
}

fn forward(src: &str, dst: &str, value: u64) -> Outbound<broadcast::MessageType, broadcast::ResponseType> {
    Outbound::Request(request(src, dst, broadcast_of(value), None))
}

#[test]
fn broadcast_node_starts_with_every_other_member_for_a_neighbour() {
    let node = BroadcastNode::init(init_body("n2", &["n1", "n2", "n3", "n2"]));
    assert_eq!(node.msg_id, 1);
    assert_eq!(node.neighbours, vec!["n1".to_string(), "n3".to_string()]);
    assert_eq!(node.messages.values(), Vec::<u64>::new());
}

#[test]
fn broadcast_twice_goes_on_once_and_is_read_once() {
    let mut node = BroadcastNode::init(init_body("n1", &["n1", "n2", "n3"]));
    assert_eq!(
        node.handle(request("c1", "n1", broadcast_of(42), Some(10))),
        Ok(vec![
            forward("n1", "n2", 42),
            forward("n1", "n3", 42),
            reply("n1", "c1", broadcast::ResponseType::BroadcastOk, 1, Some(10)),
        ])
    );
    // the same value again: acknowledged, and sent on to nobody
    assert_eq!(
        node.handle(request("c2", "n1", broadcast_of(42), Some(11))),
        Ok(vec![reply("n1", "c2", broadcast::ResponseType::BroadcastOk, 2, Some(11))])
    );
    // and without an identifier: nothing at all
    assert_eq!(node.handle(request("n2", "n1", broadcast_of(42), None)), Ok(vec![]));
    assert_eq!(node.msg_id, 3);
    assert_eq!(
        node.handle(request("c1", "n1", broadcast::MessageType::Read, Some(12))),
        Ok(vec![reply(
            "n1",
            "c1",
            broadcast::ResponseType::ReadOk(broadcast::ReadOkBody { messages: vec![42] }),
            3,
            Some(12)
        )])
    );
}

#[test]
fn topology_replaces_the_neighbours_and_a_peer_broadcast_goes_to_them() {
    let mut node = BroadcastNode::init(init_body("n1", &["n1", "n2", "n3"]));
    let topology = broadcast::MessageType::Topology(TopologyBody {
        topology: vec![
            ("n1".to_string(), vec!["n2".to_string()]),
            ("n2".to_string(), vec!["n1".to_string(), "n3".to_string()]),
        ],
    });
    assert_eq!(
        node.handle(request("c1", "n1", topology, Some(1))),
        Ok(vec![reply("n1", "c1", broadcast::ResponseType::TopologyOk, 1, Some(1))])
    );
    assert_eq!(node.neighbours, vec!["n2".to_string()]);
    // from n2, with no identifier: one forward, to the only neighbour, and
    // no acknowledgement; the node sends nothing to itself
    assert_eq!(
        node.handle(request("n2", "n1", broadcast_of(42), None)),
        Ok(vec![forward("n1", "n2", 42)])
    );
    assert_eq!(node.msg_id, 2);
    assert_eq!(node.messages.values(), vec![42]);
}

#[test]
fn topology_without_this_node_keeps_the_neighbours() {
    let mut node = BroadcastNode::init(init_body("n1", &["n1", "n2"]));
    let topology = broadcast::MessageType::Topology(TopologyBody {
        topology: vec![("n2".to_string(), vec!["n1".to_string()])],
    });
    assert_eq!(
        node.handle(request("c1", "n1", topology, None)),
        Ok(vec![reply("n1", "c1", broadcast::ResponseType::TopologyOk, 1, None)])
    );
    assert_eq!(node.neighbours, vec!["n2".to_string()]);
}

#[test]
fn broadcast_without_identifier_needs_no_identifier() {
    let mut node = BroadcastNode::init(init_body("n1", &["n1", "n2"]));
    node.msg_id = u64::MAX;
    assert_eq!(
        node.handle(request("n2", "n1", broadcast_of(5), None)),
        Ok(vec![forward("n1", "n2", 5)])
    );
    assert_eq!(
        node.handle(request("c1", "n1", broadcast_of(6), Some(1))),
        Err(NodeError::IdentifiersExhausted)
    );
    assert_eq!(node.messages.values(), vec![5]);
    assert_eq!(
        node.handle(request("c1", "n1", broadcast::MessageType::Read, Some(1))),
        Err(NodeError::IdentifiersExhausted)
    );
}

#[test]
fn seen_values_keep_the_order_of_arrival() {
    let mut seen = SeenValues::new();
    assert!(seen.insert(3));
    assert!(seen.insert(1));
    assert!(!seen.insert(3));
    assert!(seen.insert(2));
    assert_eq!(seen.values(), vec![3, 1, 2]);
}

#[test]
fn topology_round_trip() {
    let line = r#"{"src":"c1","dest":"n1","body":{"type":"topology","msg_id":1,"topology":{"n1":["n2","n3"],"n2":["n1"],"n3":[]}}}"#;
    let message = gossip_glomers::wire::read_message::<broadcast::MessageType>(line).unwrap();
    assert_eq!(
        message.body.kind,
        broadcast::MessageType::Topology(TopologyBody {
            topology: vec![
                ("n1".to_string(), vec!["n2".to_string(), "n3".to_string()]),
                ("n2".to_string(), vec!["n1".to_string()]),
                ("n3".to_string(), vec![]),
            ]
        })
    );
    let again = gossip_glomers::wire::encode_message(&message).render();
    assert_eq!(value_of(again.as_str()), value_of(line));
}

#[test]
fn state_machine_starts_uninitialized_at_identifier_one() {
    assert_eq!(State::new(), State::Uninitialized(UninitializedState { msg_id: 1 }));
}

#[test]
fn uninitialized_state_initializes() {
    let mut state = UninitializedState { msg_id: 1 };
    let node = state.init(
        "n1".to_string(),
        vec!["n1".to_string(), "n2".to_string(), "n3".to_string()],
    );
    assert_eq!(state, UninitializedState { msg_id: 1 });
    assert_eq!(node.msg_id, 1);
    assert_eq!(node.node_id, "n1");
    assert_eq!(node.node_ids, vec!["n1".to_string(), "n2".to_string(), "n3".to_string()]);
    assert_eq!(node.neighbours, vec!["n2".to_string(), "n3".to_string()]);
    assert_eq!(node.messages.values(), Vec::<u64>::new());
}

#[test]
fn state_machine_has_one_legal_transition() {
    let early = request(
        "c1",
        "n1",
        state::MessageType::Echo(echo::EchoBody { echo: "x".to_string() }),
        Some(1),
    );
    let (state, out) = State::new().advance(early, String::new());
    assert_eq!(out, Err(NodeError::NotInitialized));
    assert_eq!(state, State::new());

    let init = request("c1", "n1", state::MessageType::Init(init_body("n1", &["n1", "n2"])), Some(1));
    let (state, out) = state.advance(init, String::new());
    assert_eq!(
        out,
        Ok(vec![Outbound::Reply(Response {
            src: "n1".to_string(),
            dst: "c1".to_string(),
            body: ResponseBody {
                kind: state::ResponseType::InitOk,
                msg_id: None,
                in_reply_to: Some(1)
            },
        })])
    );
    assert!(matches!(state, State::Initialized(_)));

    let again = request("c1", "n1", state::MessageType::Init(init_body("n1", &["n1"])), Some(2));
    let (state, out) = state.advance(again, String::new());
    assert_eq!(out, Err(NodeError::AlreadyInitialized));

    let echo = request(
        "c1",
        "n1",
        state::MessageType::Echo(echo::EchoBody { echo: "x".to_string() }),
        Some(3),
    );
    let (state, out) = state.advance(echo, String::new());
    assert_eq!(
        out,
        Ok(vec![reply(
            "n1",
            "c1",
            state::ResponseType::EchoOk(echo::EchoOkBody { echo: "x".to_string() }),
            1,
            Some(3)
        )])
    );

    let (state, out) = state.handle(request("c1", "n1", state::MessageType::Generate, Some(4)));
    match out.unwrap().pop().unwrap() {
        Outbound::Reply(r) => {
            assert_eq!(r.body.msg_id, Some(2));
            assert_eq!(r.body.in_reply_to, Some(4));
            match r.body.kind {
                state::ResponseType::GenerateOk(body) => assert_eq!(body.id.len(), 36),
                _ => panic!("another kind than generate_ok"),
            }
        }
        Outbound::Request(_) => panic!("a request where a response was due"),
    }

    let (state, out) = state.advance(
        request("n2", "n1", state::MessageType::Broadcast(BroadcastBody { message: 9 }), None),
        String::new(),
    );
    assert_eq!(
        out,
        Ok(vec![Outbound::Request(request(
            "n1",
            "n2",
            state::MessageType::Broadcast(BroadcastBody { message: 9 }),
            None
        ))])
    );
    let (_, out) = state.advance(request("c1", "n1", state::MessageType::Read, Some(5)), String::new());
    assert_eq!(
        out,
        Ok(vec![reply(
            "n1",
            "c1",
            state::ResponseType::ReadOk(broadcast::ReadOkBody { messages: vec![9] }),
            3,
            Some(5)
        )])
    );
}

#[test]
fn runtime_shakes_hands_and_dispatches() {
    let mut runtime: Runtime<EchoNode> = Runtime::new();
    let early = r#"{"src":"c1","dest":"n1","body":{"type":"echo","msg_id":1,"echo":"x"}}"#;
    assert_eq!(runtime.receive::<echo::MessageType>(early), Err(RunError::NotInitialized));
    assert_eq!(
        runtime.receive::<echo::MessageType>(r#"{"src":"c1","dest":"n1","body":{"type":"read"}}"#),
        Err(RunError::Decode(DecodeError::Shape))
    );
    assert_eq!(runtime, Runtime::Uninitialized);

    let init = r#"{"src":"c0","dest":"n1","body":{"type":"init","msg_id":1,"node_id":"n1","node_ids":["n1","n2"]}}"#;
    let out = runtime.receive::<echo::MessageType>(init).unwrap();
    assert_eq!(out.len(), 1);
    assert!(out[0].ends_with('\n'));
    assert_eq!(
        value_of(out[0].as_str()),
        value_of(r#"{"src":"n1","dest":"c0","body":{"type":"init_ok","in_reply_to":1}}"#)
    );
    assert_eq!(runtime, Runtime::Initialized(EchoNode { msg_id: 1, node_id: "n1".to_string() }));

    let out = runtime.receive::<echo::MessageType>(early).unwrap();
    assert_eq!(out.len(), 1);
    assert_eq!(
        value_of(out[0].as_str()),
        value_of(
            r#"{"src":"n1","dest":"c1","body":{"type":"echo_ok","msg_id":1,"in_reply_to":1,"echo":"x"}}"#
        )
    );

    // a second initialization is a violation of the protocol
    assert_eq!(runtime.receive::<echo::MessageType>(init), Err(RunError::AlreadyInitialized));
    assert_eq!(
        runtime.receive::<echo::MessageType>(r#"{"src":"c1","dest":"n1","body":{"type":"read"}}"#),
        Err(RunError::Decode(DecodeError::Shape))
    );
    assert_eq!(
        runtime.receive::<echo::MessageType>("not json"),
        Err(RunError::Decode(DecodeError::Syntax))
    );
    assert_eq!(runtime, Runtime::Initialized(EchoNode { msg_id: 2, node_id: "n1".to_string() }));
}

#[test]
fn runtime_reports_what_the_node_reports() {
    let mut runtime = Runtime::Initialized(EchoNode { msg_id: u64::MAX, node_id: "n1".to_string() });
    let line = r#"{"src":"c1","dest":"n1","body":{"type":"echo","msg_id":1,"echo":"x"}}"#;
    assert_eq!(
        runtime.receive::<echo::MessageType>(line),
        Err(RunError::Node(NodeError::IdentifiersExhausted))
    );
}

#[test]
fn runtime_writes_one_line_for_each_envelope() {
    let mut runtime: Runtime<BroadcastNode> = Runtime::new();
    let init = r#"{"src":"c0","dest":"n1","body":{"type":"init","msg_id":1,"node_id":"n1","node_ids":["n1","n2","n3"]}}"#;
    runtime.receive::<broadcast::MessageType>(init).unwrap();
    let line = r#"{"src":"c1","dest":"n1","body":{"type":"broadcast","msg_id":4,"message":1000}}"#;
    let out = runtime.receive::<broadcast::MessageType>(line).unwrap();
    assert_eq!(out.len(), 3);
    assert_eq!(
        value_of(out[0].as_str()),
        value_of(r#"{"src":"n1","dest":"n2","body":{"type":"broadcast","message":1000}}"#)
    );
    assert_eq!(
        value_of(out[1].as_str()),
        value_of(r#"{"src":"n1","dest":"n3","body":{"type":"broadcast","message":1000}}"#)
    );
    assert_eq!(
        value_of(out[2].as_str()),
        value_of(r#"{"src":"n1","dest":"c1","body":{"type":"broadcast_ok","msg_id":1,"in_reply_to":4}}"#)
    );
    let read = r#"{"src":"c1","dest":"n1","body":{"type":"read","msg_id":5}}"#;
    let out = runtime.receive::<broadcast::MessageType>(read).unwrap();
    assert_eq!(
        value_of(out[0].as_str()),
        value_of(
            r#"{"src":"n1","dest":"c1","body":{"type":"read_ok","msg_id":2,"in_reply_to":5,"messages":[1000]}}"#
        )
    );
}

#[test]
fn formatter_breaks_the_line_after_an_outermost_object() {
    let mut formatter = JSONLFormatter::default();
    assert_eq!(formatter.depth, 0);
    assert_eq!(formatter.begin_object(), b"{".to_vec());
    assert_eq!(formatter.begin_object(), b"{".to_vec());
    assert_eq!(formatter.depth, 2);
    assert_eq!(formatter.end_object(), b"}".to_vec());
    assert_eq!(formatter.end_object(), b"}\n".to_vec());
    assert_eq!(formatter.depth, 0);
}

#[test]
fn run_takes_a_whole_input() {
    let input = vec![
        r#"{"src":"c0","dest":"n1","body":{"type":"init","msg_id":1,"node_id":"n1","node_ids":["n1"]}}"#.to_string(),
        r#"{"src":"c1","dest":"n1","body":{"type":"echo","msg_id":2,"echo":"a"}}"#.to_string(),
        r#"{"src":"c1","dest":"n1","body":{"type":"echo","msg_id":3,"echo":"b"}}"#.to_string(),
    ];
    let (out, end) = gossip_glomers::runtime::run::<EchoNode, echo::MessageType>(&input);
    assert_eq!(end, Ok(()));
    assert_eq!(out.len(), 3);
    assert_eq!(
        value_of(out[0].as_str()),
        value_of(r#"{"src":"n1","dest":"c0","body":{"type":"init_ok","in_reply_to":1}}"#)
    );
    assert_eq!(
        value_of(out[2].as_str()),
        value_of(
            r#"{"src":"n1","dest":"c1","body":{"type":"echo_ok","msg_id":2,"in_reply_to":3,"echo":"b"}}"#
        )
    );
}

#[test]
fn run_stops_at_the_first_line_it_cannot_take() {
    let input = vec![
        r#"{"src":"c0","dest":"n1","body":{"type":"init","msg_id":1,"node_id":"n1","node_ids":["n1"]}}"#.to_string(),
        r#"{"src":"c1","dest":"n1","body":{"type":"echo","msg_id":2,"echo":"a"}}"#.to_string(),
        r#"{"src":"c0","dest":"n1","body":{"type":"init","msg_id":1,"node_id":"n1","node_ids":["n1"]}}"#.to_string(),
        r#"{"src":"c1","dest":"n1","body":{"type":"echo","msg_id":3,"echo":"b"}}"#.to_string(),
    ];
    let (out, end) = gossip_glomers::runtime::run::<EchoNode, echo::MessageType>(&input);
    assert_eq!(end, Err(RunError::AlreadyInitialized));
    assert_eq!(out.len(), 2);
    let (out, end) = gossip_glomers::runtime::run::<EchoNode, echo::MessageType>(&vec![]);
    assert_eq!(end, Ok(()));
    assert_eq!(out.len(), 0);
    let (out, end) = gossip_glomers::runtime::run::<EchoNode, echo::MessageType>(&vec!["".to_string()]);
    assert_eq!(end, Err(RunError::Decode(DecodeError::Syntax)));
    assert_eq!(out.len(), 0);
}

#[test]
fn handshake_reads_the_initialization_and_acknowledges_it() {
    let init = r#"{"src":"c0","dest":"n3","body":{"type":"init","msg_id":7,"node_id":"n3","node_ids":["n1","n2","n3"]}}"#;
    let (body, reply) = gossip_glomers::runtime::shake_hands(init).unwrap();
    assert_eq!(body, init_body("n3", &["n1", "n2", "n3"]));
    assert_eq!(reply, "{\"body\":{\"in_reply_to\":7,\"type\":\"init_ok\"},\"dest\":\"c0\",\"src\":\"n3\"}\n");
    assert_eq!(
        gossip_glomers::runtime::shake_hands(r#"{"src":"c0","dest":"n3","body":{"type":"init","node_id":"n3"}}"#),
        Err(DecodeError::Shape)
    );
    assert_eq!(gossip_glomers::runtime::shake_hands(""), Err(DecodeError::Syntax));
}

#[test]
fn outbound_envelopes_become_lines_in_order() {
    let out: Vec<Outbound<broadcast::MessageType, broadcast::ResponseType>> = vec![
        forward("n1", "n2", 3),
        reply("n1", "c1", broadcast::ResponseType::BroadcastOk, 4, None),
    ];
    assert_eq!(
        gossip_glomers::runtime::write_lines(&out),
        vec![
            "{\"body\":{\"message\":3,\"type\":\"broadcast\"},\"dest\":\"n2\",\"src\":\"n1\"}\n".to_string(),
            "{\"body\":{\"msg_id\":4,\"type\":\"broadcast_ok\"},\"dest\":\"c1\",\"src\":\"n1\"}\n".to_string(),
        ]
    );
    assert_eq!(
        gossip_glomers::encode_outbound(&out[0]).render(),
        r#"{"body":{"message":3,"type":"broadcast"},"dest":"n2","src":"n1"}"#
    );
}
