use gossip_glomers::conflict::{current_value, parse_decimal, revealed_value};
use gossip_glomers::g_counter;
use gossip_glomers::g_counter::{
    decode_inbound, AddBody, GrowOnlyCounterNode, Inbound, ReadOkBody, ReadRequest, WriteRequest,
};
use gossip_glomers::gossip;
use gossip_glomers::gossip::{GossipBody, GossipCounterNode};
use gossip_glomers::json::Json;
use gossip_glomers::kv;
use gossip_glomers::kv::{CompareAndSwapBody, ReadBody, Sequential};
use gossip_glomers::wire::{encode_message, read_message, read_response};
use gossip_glomers::{
    ErrorBody, ErrorMessageType, InitBody, Message, MessageBody, Node, NodeError, Outbound,
    Response, ResponseBody, Service,
};

type Sent = Outbound<kv::MessageType<u64>, g_counter::ResponseType>;

fn init_body(node_id: &str, node_ids: &[&str]) -> InitBody {
    InitBody {
        node_id: node_id.to_string(),
        node_ids: node_ids.iter().map(|n| n.to_string()).collect(),
    }
}

fn request<T>(src: &str, dst: &str, kind: T, msg_id: Option<u64>) -> Message<T> {
    Message { src: src.to_string(), dst: dst.to_string(), body: MessageBody { kind, msg_id } }
}

fn add(delta: u64, msg_id: u64) -> Message<g_counter::MessageType> {
    request("c1", "n1", g_counter::MessageType::Add(AddBody { delta }), Some(msg_id))
}

fn read(msg_id: u64) -> Message<g_counter::MessageType> {
    request("c1", "n1", g_counter::MessageType::Read, Some(msg_id))
}

fn swap(node: &str, from: u64, to: u64, msg_id: u64) -> Sent {
    Outbound::Request(request(
        node,
        "seq-kv",
        kv::MessageType::CompareAndSwap(CompareAndSwapBody {
            key: "counter".to_string(),
            from,
            to,
            create_if_not_exists: from == 0,
        }),
        Some(msg_id),
    ))
}

fn answer(node: &str, dst: &str, kind: g_counter::ResponseType, msg_id: u64, to: Option<u64>) -> Sent {
    Outbound::Reply(Response {
        src: node.to_string(),
        dst: dst.to_string(),
        body: ResponseBody { kind, msg_id: Some(msg_id), in_reply_to: to },
    })
}

fn from_service(node: &str, kind: kv::ResponseType, to: u64) -> Service {
    Service::KeyValue(Response {
        src: "seq-kv".to_string(),
        dst: node.to_string(),
        body: ResponseBody { kind, msg_id: None, in_reply_to: Some(to) },
    })
}

fn failure(src: &str, code: u64, text: &str, to: u64) -> Response<ErrorMessageType> {
    Response {
        src: src.to_string(),
        dst: "n1".to_string(),
        body: ResponseBody {
            kind: ErrorMessageType::Error(ErrorBody { code, text: text.to_string() }),
            msg_id: None,
            in_reply_to: Some(to),
        },
    }
}

/// The sequential key-value service, for one key.
struct Store {
    value: Option<u64>,
}

impl Store {
    /// Applies every swap among the envelopes and gives what the service
    /// answers; the other envelopes are handed back as the clients' mail.
    fn serve(&mut self, sent: Vec<Sent>, mail: &mut Vec<Response<g_counter::ResponseType>>) -> Vec<Inbound> {
        let mut answers = Vec::new();
        for envelope in sent {
            match envelope {
                Outbound::Reply(r) => mail.push(r),
                Outbound::Request(m) => {
                    let id = m.body.msg_id.unwrap();
                    let body = match m.body.kind {
                        kv::MessageType::CompareAndSwap(body) => body,
                        _ => panic!("no compare-and-swap"),
                    };
                    assert_eq!(m.dst, "seq-kv");
                    assert_eq!(body.key, "counter");
                    let answer = match self.value {
                        None if body.create_if_not_exists => {
                            self.value = Some(body.to);
                            Inbound::Service(from_service(&m.src, kv::ResponseType::CompareAndSwapOk, id))
                        }
                        None => Inbound::Error(failure("seq-kv", 20, "key does not exist", id)),
                        Some(v) if v == body.from => {
                            self.value = Some(body.to);
                            Inbound::Service(from_service(&m.src, kv::ResponseType::CompareAndSwapOk, id))
                        }
                        Some(v) => Inbound::Error(failure(
                            "seq-kv",
                            22,
                            format!("current value {} is not {}", v, body.from).as_str(),
                            id,
                        )),
                    };
                    answers.push(answer);
                }
            }
        }
        answers
    }
}

/// Delivers answers to a node until nothing is in flight.
fn settle(
    node: &mut GrowOnlyCounterNode,
    store: &mut Store,
    sent: Vec<Sent>,
    mail: &mut Vec<Response<g_counter::ResponseType>>,
) {
    let mut answers = store.serve(sent, mail);
    while let Some(answer) = answers.pop() {
        let sent = node.receive(answer).unwrap();
        answers.extend(store.serve(sent, mail));
    }
}

#[test]
fn decimal_numbers_are_read_exactly() {
    assert_eq!(parse_decimal("0"), Some(0));
    assert_eq!(parse_decimal("13"), Some(13));
    assert_eq!(parse_decimal("007"), Some(7));
    assert_eq!(parse_decimal("18446744073709551615"), Some(u64::MAX));
    assert_eq!(parse_decimal("18446744073709551616"), None);
    assert_eq!(parse_decimal("99999999999999999999999"), None);
    assert_eq!(parse_decimal(""), None);
    assert_eq!(parse_decimal("12a"), None);
    assert_eq!(parse_decimal("+5"), None);
    assert_eq!(parse_decimal("-5"), None);
    assert_eq!(parse_decimal(" 5"), None);
    assert_eq!(parse_decimal("\u{663}"), None);
    assert_eq!(revealed_value(Some("41".to_string())), Some(41));
    assert_eq!(revealed_value(None), None);
}

#[test]
fn the_stored_value_is_read_out_of_the_text() {
    assert_eq!(current_value("current value 13 is not 10"), Some(13));
    assert_eq!(current_value("error: current value 0 is not 7, try again"), Some(0));
    assert_eq!(current_value("current value 13 is not ten"), None);
    assert_eq!(current_value("current value  is not 10"), None);
    assert_eq!(current_value("current value 99999999999999999999 is not 10"), None);
    assert_eq!(current_value("key does not exist"), None);
    assert_eq!(current_value(""), None);
}

#[test]
fn client_builds_requests_to_the_service() {
    let client = Sequential::new("n1".to_string());
    assert_eq!(client.node_id, "n1");
    assert_eq!(
        client.read::<u64>("counter"),
        request("n1", "seq-kv", kv::MessageType::Read(ReadBody { key: "counter".to_string() }), None)
    );
    let swap = client.compare_and_swap::<u64>("counter", 3, 8, false);
    assert_eq!(
        swap,
        request(
            "n1",
            "seq-kv",
            kv::MessageType::CompareAndSwap(CompareAndSwapBody {
                key: "counter".to_string(),
                from: 3,
                to: 8,
                create_if_not_exists: false
            }),
            None
        )
    );
    assert_eq!(
        encode_message(&swap).render(),
        r#"{"body":{"create_if_not_exists":false,"from":3,"key":"counter","to":8,"type":"cas"},"dest":"seq-kv","src":"n1"}"#
    );
    assert_eq!(
        Json::parse(encode_message(&client.read::<u64>("k")).render().as_str()).unwrap(),
        Json::parse(r#"{"src":"n1","dest":"seq-kv","body":{"type":"read","key":"k"}}"#).unwrap()
    );
}

#[test]
fn service_responses_are_read() {
    let ok = r#"{"src":"seq-kv","dest":"n1","body":{"type":"cas_ok","in_reply_to":3}}"#;
    assert_eq!(
        read_response::<kv::ResponseType>(ok).unwrap().body,
        ResponseBody { kind: kv::ResponseType::CompareAndSwapOk, msg_id: None, in_reply_to: Some(3) }
    );
    let value = r#"{"src":"seq-kv","dest":"n1","body":{"type":"read_ok","in_reply_to":3,"value":17}}"#;
    assert_eq!(
        read_response::<kv::ResponseType>(value).unwrap().body.kind,
        kv::ResponseType::ReadOk(kv::ReadOkBody { value: Some(17) })
    );
    let nothing = r#"{"src":"seq-kv","dest":"n1","body":{"type":"read_ok","in_reply_to":3}}"#;
    assert_eq!(
        read_response::<kv::ResponseType>(nothing).unwrap().body.kind,
        kv::ResponseType::ReadOk(kv::ReadOkBody { value: None })
    );
    let text = r#"{"src":"seq-kv","dest":"n1","body":{"type":"read_ok","in_reply_to":3,"value":"17"}}"#;
    assert!(read_response::<kv::ResponseType>(text).is_err());
    let written = r#"{"src":"seq-kv","dest":"n1","body":{"type":"write_ok","in_reply_to":3}}"#;
    assert_eq!(
        read_response::<kv::ResponseType>(written).unwrap().body.kind,
        kv::ResponseType::WriteOk
    );
}

#[test]
fn inbound_envelopes_are_told_apart() {
    let parse = |text: &str| decode_inbound(&Json::parse(text).unwrap());
    assert_eq!(
        parse(r#"{"src":"c1","dest":"n1","body":{"type":"add","msg_id":1,"delta":5}}"#),
        Some(Inbound::Request(add(5, 1)))
    );
    assert_eq!(
        parse(r#"{"src":"c1","dest":"n1","body":{"type":"read","msg_id":2}}"#),
        Some(Inbound::Request(read(2)))
    );
    assert_eq!(
        parse(r#"{"src":"seq-kv","dest":"n1","body":{"type":"cas_ok","in_reply_to":3}}"#),
        Some(Inbound::Service(from_service("n1", kv::ResponseType::CompareAndSwapOk, 3)))
    );
    assert_eq!(
        parse(r#"{"src":"seq-kv","dest":"n1","body":{"type":"error","in_reply_to":3,"code":20,"text":"key does not exist"}}"#),
        Some(Inbound::Error(failure("seq-kv", 20, "key does not exist", 3)))
    );
    assert_eq!(
        parse(r#"{"src":"seq-kv","dest":"n1","body":{"type":"add","delta":1}}"#),
        None
    );
    assert_eq!(parse(r#"{"src":"c1","dest":"n1","body":{"type":"cas_ok"}}"#), None);
}

#[test]
fn add_of_nothing_is_acknowledged_at_once() {
    // init n1 among n1 and n2; add 5; add 0; read once the swap has resolved
    let mut node = GrowOnlyCounterNode::init(init_body("n1", &["n1", "n2"]));
    let mut store = Store { value: None };
    let mut mail = Vec::new();

    let sent = node.handle(add(5, 1)).unwrap();
    assert_eq!(sent, vec![swap("n1", 0, 5, 1)]);

    // no request to the service for a delta of 0
    assert_eq!(
        node.handle(add(0, 2)),
        Ok(vec![answer("n1", "c1", g_counter::ResponseType::AddOk, 2, Some(2))])
    );

    settle(&mut node, &mut store, sent, &mut mail);
    assert_eq!(store.value, Some(5));
    assert_eq!(
        mail,
        vec![Response {
            src: "n1".to_string(),
            dst: "c1".to_string(),
            body: ResponseBody {
                kind: g_counter::ResponseType::AddOk,
                msg_id: Some(3),
                in_reply_to: Some(1)
            }
        }]
    );

    mail.clear();
    let sent = node.handle(read(3)).unwrap();
    settle(&mut node, &mut store, sent, &mut mail);
    assert_eq!(mail.len(), 1);
    assert_eq!(mail[0].body.kind, g_counter::ResponseType::ReadOk(ReadOkBody { value: 5 }));
    assert_eq!(mail[0].body.in_reply_to, Some(3));
    assert_eq!(mail[0].dst, "c1");
    assert!(node.reads.is_empty());
    assert!(node.writes.is_empty());
    assert_eq!(store.value, Some(5));
}

#[test]
fn concurrent_adds_both_apply() {
    // the store holds 10, and both nodes know it
    let mut a = GrowOnlyCounterNode::init(init_body("n1", &["n1", "n2"]));
    let mut b = GrowOnlyCounterNode::init(init_body("n2", &["n1", "n2"]));
    a.last_read = 10;
    b.last_read = 10;
    let mut store = Store { value: Some(10) };
    let mut mail = Vec::new();

    let from_a = a.handle(add(3, 1)).unwrap();
    let from_b = b.handle(request("c2", "n2", g_counter::MessageType::Add(AddBody { delta: 4 }), Some(1))).unwrap();
    assert_eq!(from_a, vec![swap("n1", 10, 13, 1)]);
    assert_eq!(from_b, vec![swap("n2", 10, 14, 1)]);

    // the swap of a applies first
    let mut to_a = store.serve(from_a, &mut mail);
    assert_eq!(store.value, Some(13));
    let mut to_b = store.serve(from_b, &mut mail);
    assert_eq!(store.value, Some(13));
    assert_eq!(to_b, vec![Inbound::Error(failure("seq-kv", 22, "current value 13 is not 10", 1))]);

    let retried = b.receive(to_b.pop().unwrap()).unwrap();
    assert_eq!(retried, vec![swap("n2", 13, 17, 2)]);
    assert_eq!(b.last_read, 13);
    settle(&mut b, &mut store, retried, &mut mail);
    settle(&mut a, &mut store, vec![], &mut mail);
    assert_eq!(a.receive(to_a.pop().unwrap()).unwrap().len(), 1);
    assert_eq!(store.value, Some(17));
    assert_eq!(mail.len(), 1);
    assert_eq!(mail[0].dst, "c2");
    assert_eq!(mail[0].body.kind, g_counter::ResponseType::AddOk);
}

#[test]
fn counter_converges_to_the_sum_of_all_deltas() {
    let mut nodes = vec![
        GrowOnlyCounterNode::init(init_body("n1", &["n1", "n2", "n3"])),
        GrowOnlyCounterNode::init(init_body("n2", &["n1", "n2", "n3"])),
        GrowOnlyCounterNode::init(init_body("n3", &["n1", "n2", "n3"])),
    ];
    let mut store = Store { value: None };
    let mut mail = Vec::new();
    let deltas = [5u64, 0, 7, 1, 9, 0, 2, 30, 4];
    // every add is sent before any answer comes back
    let mut in_flight: Vec<(usize, Vec<Sent>)> = Vec::new();
    for (i, delta) in deltas.iter().enumerate() {
        let which = i % 3;
        in_flight.push((which, nodes[which].handle(add(*delta, i as u64)).unwrap()));
    }
    // the answers come back in the opposite order
    while let Some((which, sent)) = in_flight.pop() {
        settle(&mut nodes[which], &mut store, sent, &mut mail);
    }
    assert_eq!(store.value, Some(58));
    assert_eq!(mail.len(), deltas.len());
    for node in nodes.iter_mut() {
        mail.clear();
        let sent = node.handle(read(100)).unwrap();
        settle(node, &mut store, sent, &mut mail);
        assert_eq!(mail.len(), 1);
        assert_eq!(mail[0].body.kind, g_counter::ResponseType::ReadOk(ReadOkBody { value: 58 }));
        assert!(node.reads.is_empty() && node.writes.is_empty());
    }
}

#[test]
fn missing_key_answers_a_read_with_zero_and_retries_an_add() {
    let mut node = GrowOnlyCounterNode::init(init_body("n1", &["n1"]));
    node.last_read = 4;
    let sent = node.handle(read(1)).unwrap();
    assert_eq!(sent, vec![swap("n1", 4, 4, 1)]);
    assert_eq!(
        node.on_error(failure("seq-kv", 20, "key does not exist", 1)),
        Ok(vec![answer(
            "n1",
            "c1",
            g_counter::ResponseType::ReadOk(ReadOkBody { value: 0 }),
            2,
            Some(1)
        )])
    );
    assert!(node.reads.is_empty());

    let sent = node.handle(add(6, 2)).unwrap();
    assert_eq!(sent, vec![swap("n1", 4, 10, 3)]);
    assert_eq!(
        node.on_error(failure("seq-kv", 20, "key does not exist", 3)),
        Ok(vec![swap("n1", 0, 6, 4)])
    );
    assert_eq!(node.last_read, 0);
    assert_eq!(node.writes.len(), 1);
    assert_eq!(
        node.writes.get(&4),
        Some(&WriteRequest { src: "c1".to_string(), msg_id: Some(2), delta: 6 })
    );
}

#[test]
fn failed_read_adopts_the_value_and_tries_again() {
    let mut node = GrowOnlyCounterNode::init(init_body("n1", &["n1"]));
    let sent = node.handle(read(9)).unwrap();
    assert_eq!(sent, vec![swap("n1", 0, 0, 1)]);
    assert_eq!(
        node.on_error(failure("seq-kv", 22, "current value 8 is not 0", 1)),
        Ok(vec![swap("n1", 8, 8, 2)])
    );
    assert_eq!(node.last_read, 8);
    assert_eq!(node.reads.get(&1), None);
    assert_eq!(node.reads.get(&2), Some(&ReadRequest { src: "c1".to_string(), msg_id: Some(9) }));
    assert_eq!(
        node.on_service(from_service("n1", kv::ResponseType::CompareAndSwapOk, 2)),
        Ok(vec![answer(
            "n1",
            "c1",
            g_counter::ResponseType::ReadOk(ReadOkBody { value: 8 }),
            3,
            Some(9)
        )])
    );
}

#[test]
fn text_that_reveals_nothing_is_a_plain_retry() {
    let mut node = GrowOnlyCounterNode::init(init_body("n1", &["n1"]));
    node.last_read = 2;
    node.handle(add(3, 1)).unwrap();
    assert_eq!(
        node.on_error(failure("seq-kv", 22, "precondition failed", 1)),
        Ok(vec![swap("n1", 2, 5, 2)])
    );
    assert_eq!(node.last_read, 2);
    // the value given as an argument is the one adopted
    assert_eq!(
        node.resolve_error(failure("seq-kv", 22, "current value 1 is not 2", 2), Some(40)),
        Ok(vec![swap("n1", 40, 43, 3)])
    );
}

#[test]
fn errors_of_others_and_unknown_answers_change_nothing() {
    let mut node = GrowOnlyCounterNode::init(init_body("n1", &["n1"]));
    node.handle(add(3, 1)).unwrap();
    assert_eq!(node.on_error(failure("n2", 22, "current value 9 is not 0", 1)), Ok(vec![]));
    assert_eq!(node.on_error(failure("seq-kv", 13, "current value 9 is not 0", 1)), Ok(vec![]));
    assert_eq!(node.on_error(failure("seq-kv", 22, "current value 9 is not 0", 77)), Ok(vec![]));
    assert_eq!(node.on_service(from_service("n1", kv::ResponseType::CompareAndSwapOk, 77)), Ok(vec![]));
    assert_eq!(node.on_service(from_service("n1", kv::ResponseType::WriteOk, 1)), Ok(vec![]));
    assert_eq!(node.last_read, 0);
    assert_eq!(node.msg_id, 2);
    assert_eq!(node.writes.len(), 1);
}

#[test]
fn value_read_by_the_service_raises_the_cache() {
    let mut node = GrowOnlyCounterNode::init(init_body("n1", &["n1"]));
    node.last_read = 5;
    node.handle(read(4)).unwrap();
    let value = |v| kv::ResponseType::ReadOk(kv::ReadOkBody { value: v });
    assert_eq!(node.on_service(from_service("n1", value(Some(3)), 70)), Ok(vec![]));
    assert_eq!(node.last_read, 5);
    assert_eq!(
        node.on_service(from_service("n1", value(Some(9)), 1)),
        Ok(vec![answer(
            "n1",
            "c1",
            g_counter::ResponseType::ReadOk(ReadOkBody { value: 9 }),
            2,
            Some(4)
        )])
    );
    assert_eq!(node.last_read, 9);
    assert_eq!(node.on_service(from_service("n1", value(None), 1)), Ok(vec![]));
    assert_eq!(node.last_read, 9);
}

#[test]
fn counter_reports_overflow_and_exhaustion() {
    let mut node = GrowOnlyCounterNode::init(init_body("n1", &["n1"]));
    node.last_read = u64::MAX - 1;
    assert_eq!(node.handle(add(2, 1)), Err(NodeError::CounterOverflow));
    assert_eq!(node.handle(add(1, 1)), Ok(vec![swap("n1", u64::MAX - 1, u64::MAX, 1)]));
    assert_eq!(
        node.on_error(failure("seq-kv", 22, "current value 18446744073709551615 is not 1", 1)),
        Err(NodeError::CounterOverflow)
    );
    assert_eq!(node.last_read, u64::MAX - 1);
    assert_eq!(node.writes.len(), 1);
    node.msg_id = u64::MAX;
    assert_eq!(node.handle(read(1)), Err(NodeError::IdentifiersExhausted));
    assert_eq!(node.handle(add(0, 1)), Err(NodeError::IdentifiersExhausted));
    assert_eq!(
        node.on_service(from_service("n1", kv::ResponseType::CompareAndSwapOk, 1)),
        Err(NodeError::IdentifiersExhausted)
    );
    assert!(node.reads.is_empty());
}

type Told = Outbound<gossip::MessageType, g_counter::ResponseType>;

fn tell(src: &str, dst: &str, counters: &[(&str, u64)]) -> Told {
    Outbound::Request(request(src, dst, gossip_of(counters), None))
}

fn gossip_of(counters: &[(&str, u64)]) -> gossip::MessageType {
    gossip::MessageType::Gossip(GossipBody {
        counters: counters.iter().map(|(n, v)| (n.to_string(), *v)).collect(),
    })
}

fn told(node: &str, dst: &str, kind: g_counter::ResponseType, msg_id: u64, to: Option<u64>) -> Told {
    Outbound::Reply(Response {
        src: node.to_string(),
        dst: dst.to_string(),
        body: ResponseBody { kind, msg_id: Some(msg_id), in_reply_to: to },
    })
}

#[test]
fn gossip_counter_adds_reads_and_merges() {
    let mut node = GossipCounterNode::init(init_body("n1", &["n1", "n2", "n3"]), 1000);
    assert_eq!(node.peers, vec!["n2".to_string(), "n3".to_string()]);
    let add = |delta| request("c1", "n1", gossip::MessageType::Add(AddBody { delta }), Some(1));
    let read = || request("c1", "n1", gossip::MessageType::Read, Some(2));
    assert_eq!(
        node.handle(add(5), 1001),
        Ok(vec![told("n1", "c1", g_counter::ResponseType::AddOk, 1, Some(1))])
    );
    assert_eq!(
        node.handle(add(2), 1002),
        Ok(vec![told("n1", "c1", g_counter::ResponseType::AddOk, 2, Some(1))])
    );
    assert_eq!(node.known(&"n1".to_string()), 7);
    assert_eq!(
        node.handle(request("n2", "n1", gossip_of(&[("n2", 4), ("n1", 3), ("n3", 1)]), None), 1003),
        Ok(vec![])
    );
    assert_eq!(node.msg_id, 3);
    assert_eq!(node.known(&"n1".to_string()), 7);
    assert_eq!(node.known(&"n2".to_string()), 4);
    assert_eq!(node.known(&"n3".to_string()), 1);
    assert_eq!(node.known(&"n4".to_string()), 0);
    assert_eq!(node.total(), Some(12));
    assert_eq!(
        node.handle(read(), 1004),
        Ok(vec![told(
            "n1",
            "c1",
            g_counter::ResponseType::ReadOk(ReadOkBody { value: 12 }),
            3,
            Some(2)
        )])
    );
}

#[test]
fn merges_never_lower_a_coordinate() {
    let mut node = GossipCounterNode::init(init_body("n1", &["n1", "n2"]), 0);
    node.merge(&vec![("n2".to_string(), 9), ("n3".to_string(), 2)]);
    node.merge(&vec![("n2".to_string(), 4), ("n3".to_string(), 2), ("n2".to_string(), 1)]);
    node.merge(&vec![]);
    assert_eq!(node.counters, vec![("n2".to_string(), 9), ("n3".to_string(), 2)]);
    node.merge(&vec![("n3".to_string(), 3), ("n4".to_string(), 0)]);
    assert_eq!(
        node.counters,
        vec![("n2".to_string(), 9), ("n3".to_string(), 3), ("n4".to_string(), 0)]
    );
    node.raise(&"n2".to_string(), 8);
    assert_eq!(node.known(&"n2".to_string()), 9);
    node.raise(&"n2".to_string(), 10);
    assert_eq!(node.known(&"n2".to_string()), 10);
}

#[test]
fn gossip_goes_out_when_the_interval_has_passed() {
    let mut node = GossipCounterNode::init(init_body("n1", &["n1", "n2", "n3"]), 1000);
    let add = |delta| request("c1", "n1", gossip::MessageType::Add(AddBody { delta }), None);
    assert_eq!(
        node.handle(add(1), 1499),
        Ok(vec![told("n1", "c1", g_counter::ResponseType::AddOk, 1, None)])
    );
    assert_eq!(node.last_gossip, 1000);
    assert_eq!(
        node.handle(add(2), 1500),
        Ok(vec![
            told("n1", "c1", g_counter::ResponseType::AddOk, 2, None),
            tell("n1", "n2", &[("n1", 3)]),
            tell("n1", "n3", &[("n1", 3)]),
        ])
    );
    assert_eq!(node.last_gossip, 1500);
    // a clock that runs backwards starts no gossip
    assert_eq!(node.handle(request("n2", "n1", gossip_of(&[("n2", 1)]), None), 900), Ok(vec![]));
    assert_eq!(
        node.handle(request("n2", "n1", gossip_of(&[("n2", 2)]), None), 2000),
        Ok(vec![tell("n1", "n2", &[("n1", 3), ("n2", 2)]), tell("n1", "n3", &[("n1", 3), ("n2", 2)])])
    );
    assert_eq!(node.msg_id, 3);
}

#[test]
fn gossip_counter_reports_overflow_and_exhaustion() {
    let mut node = GossipCounterNode::init(init_body("n1", &["n1", "n2"]), 0);
    node.merge(&vec![("n1".to_string(), u64::MAX), ("n2".to_string(), 1)]);
    assert_eq!(node.total(), None);
    assert_eq!(
        node.handle(request("c1", "n1", gossip::MessageType::Read, Some(1)), 1),
        Err(NodeError::CounterOverflow)
    );
    assert_eq!(
        node.handle(request("c1", "n1", gossip::MessageType::Add(AddBody { delta: 1 }), Some(1)), 1),
        Err(NodeError::CounterOverflow)
    );
    node.msg_id = u64::MAX;
    assert_eq!(
        node.handle(request("c1", "n1", gossip::MessageType::Add(AddBody { delta: 0 }), Some(1)), 1),
        Err(NodeError::IdentifiersExhausted)
    );
    assert_eq!(node.handle(request("n2", "n1", gossip_of(&[("n2", 2)]), None), 1), Ok(vec![]));
    assert_eq!(node.known(&"n2".to_string()), 2);
}

#[test]
fn gossip_round_trip() {
    let line = r#"{"src":"n2","dest":"n1","body":{"type":"gossip","counters":{"n1":3,"n2":4}}}"#;
    let message = read_message::<gossip::MessageType>(line).unwrap();
    assert_eq!(message, request("n2", "n1", gossip_of(&[("n1", 3), ("n2", 4)]), None));
    assert_eq!(
        Json::parse(encode_message(&message).render().as_str()),
        Json::parse(line)
    );
    let bad = r#"{"src":"n2","dest":"n1","body":{"type":"gossip","counters":{"n1":-3}}}"#;
    assert!(read_message::<gossip::MessageType>(bad).is_err());
}

#[test]
fn counter_node_starts_with_nothing_known() {
    let node = GrowOnlyCounterNode::init(init_body("n1", &["n1", "n2"]));
    assert_eq!(node.msg_id, 1);
    assert_eq!(node.node_id, "n1");
    assert_eq!(node.kv, Sequential::new("n1".to_string()));
    assert_eq!(node.last_read, 0);
    assert!(node.reads.is_empty());
    assert!(node.writes.is_empty());
}
