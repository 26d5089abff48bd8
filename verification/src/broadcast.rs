//! The flood-broadcast node: each value it has not seen yet goes on to every
//! neighbour, once.

use crate::json::{fields_model, lemma_fields_model, lemma_fields_model_push, Json, JsonModel};
use crate::wire::{
    copy_texts, decode_numbers, decode_texts, encode_numbers, encode_texts, get_number, get_text,
 same_text, lemma_member_found, lemma_number_list_reads_back, lemma_text_list_reads_back,
    list_numbers, list_texts, number_field, number_list, put, tag, tagged, text_list, Payload,
};
use crate::{
    answer, has_next, names, views, InitBody, InitBodyView, Message, MessageBody,
    MessageBodyView, MessageID, MessageView, Node, NodeError, Outbound, OutboundView, Response,
    ResponseBody,
};
use std::collections::HashSet;
use vstd::prelude::*;

verus! {

broadcast use vstd::std_specs::hash::group_hash_axioms;

/// A value to spread.
#[derive(Debug, PartialEq)]
pub struct BroadcastBody {
    pub message: u64,
}

impl View for BroadcastBody {
    type V = BroadcastBody;

    open spec fn view(&self) -> BroadcastBody {
        *self
    }
}

/// For each node, the nodes it shall forward to.
#[derive(Debug, PartialEq)]
pub struct TopologyBody {
    pub topology: Vec<(String, Vec<String>)>,
}

/// The value of a [`TopologyBody`].
pub struct TopologyBodyView {
    pub topology: Seq<(Seq<char>, Seq<Seq<char>>)>,
}

/// The entries of a topology, as plain sequences.
pub open spec fn topology_model(entries: Seq<(String, Vec<String>)>) -> Seq<
    (Seq<char>, Seq<Seq<char>>),
> {
    Seq::new(entries.len(), |i: int| (entries[i].0@, names(entries[i].1@)))
}

impl View for TopologyBody {
    type V = TopologyBodyView;

    open spec fn view(&self) -> TopologyBodyView {
        TopologyBodyView { topology: topology_model(self.topology@) }
    }
}

/// The requests of a broadcast node.
#[derive(Debug, PartialEq)]
pub enum MessageType {
    Broadcast(BroadcastBody),
    Read,
    Topology(TopologyBody),
}

/// The value of a [`MessageType`].
pub enum MessageTypeView {
    Broadcast(BroadcastBody),
    Read,
    Topology(TopologyBodyView),
}

impl View for MessageType {
    type V = MessageTypeView;

    open spec fn view(&self) -> MessageTypeView {
        match self {
            MessageType::Broadcast(body) => MessageTypeView::Broadcast(*body),
            MessageType::Read => MessageTypeView::Read,
            MessageType::Topology(body) => MessageTypeView::Topology(body@),
        }
    }
}

/// The values seen so far.
#[derive(Debug, PartialEq)]
pub struct ReadOkBody {
    pub messages: Vec<u64>,
}

/// The value of a [`ReadOkBody`].
pub struct ReadOkBodyView {
    pub messages: Seq<u64>,
}

impl View for ReadOkBody {
    type V = ReadOkBodyView;

    open spec fn view(&self) -> ReadOkBodyView {
        ReadOkBodyView { messages: self.messages@ }
    }
}

/// The responses of a broadcast node.
#[derive(Debug, PartialEq)]
pub enum ResponseType {
    BroadcastOk,
    ReadOk(ReadOkBody),
    TopologyOk,
}

/// The value of a [`ResponseType`].
pub enum ResponseTypeView {
    BroadcastOk,
    ReadOk(ReadOkBodyView),
    TopologyOk,
}

impl View for ResponseType {
    type V = ResponseTypeView;

    open spec fn view(&self) -> ResponseTypeView {
        match self {
            ResponseType::BroadcastOk => ResponseTypeView::BroadcastOk,
            ResponseType::ReadOk(body) => ResponseTypeView::ReadOk(body@),
            ResponseType::TopologyOk => ResponseTypeView::TopologyOk,
        }
    }
}

/// The lengths of the names that a broadcast node reads and writes.
pub proof fn lemma_broadcast_names()
    ensures
        "type"@.len() == 4,
        "message"@.len() == 7,
        "messages"@.len() == 8,
        "topology"@.len() == 8,
        "broadcast"@.len() == 9,
        "read"@.len() == 4,
        "broadcast_ok"@.len() == 12,
        "read_ok"@.len() == 7,
        "topology_ok"@.len() == 11,
        "msg_id"@.len() == 6,
        "in_reply_to"@.len() == 11,
        "type"@[0] == 't',
        "read"@[0] == 'r',
{
    reveal_strlit("type");
    reveal_strlit("message");
    reveal_strlit("messages");
    reveal_strlit("topology");
    reveal_strlit("broadcast");
    reveal_strlit("read");
    reveal_strlit("broadcast_ok");
    reveal_strlit("read_ok");
    reveal_strlit("topology_ok");
    reveal_strlit("msg_id");
    reveal_strlit("in_reply_to");
}

/// The object that writes a topology: one member for each entry.
pub open spec fn topology_document(entries: Seq<(Seq<char>, Seq<Seq<char>>)>) -> JsonModel {
    JsonModel::Object(Seq::new(entries.len(), |i: int| (entries[i].0, text_list(entries[i].1))))
}

/// The topology that a document holds: an object, each member of which is a
/// list of texts.
pub open spec fn document_topology(doc: JsonModel) -> Option<Seq<(Seq<char>, Seq<Seq<char>>)>> {
    match doc {
        JsonModel::Object(fields) => if forall|i: int|
            0 <= i < fields.len() ==> list_texts(fields[i].1) is Some {
            Some(Seq::new(fields.len(), |i: int| (fields[i].0, list_texts(fields[i].1)->0)))
        } else {
            None
        },
        _ => None,
    }
}

/// A topology reads back from its document.
pub proof fn lemma_topology_reads_back(entries: Seq<(Seq<char>, Seq<Seq<char>>)>)
    ensures
        document_topology(topology_document(entries)) == Some(entries),
{
    let fields = topology_document(entries)->Object_0;
    assert forall|i: int| 0 <= i < fields.len() implies list_texts(fields[i].1) == Some(
        entries[i].1,
    ) by {
        lemma_text_list_reads_back(entries[i].1);
    }
    assert(Seq::new(fields.len(), |i: int| (fields[i].0, list_texts(fields[i].1)->0))
        =~= entries);
}

pub(crate) fn encode_topology(entries: &Vec<(String, Vec<String>)>) -> (doc: Json)
    ensures
        doc@ == topology_document(topology_model(entries@)),
{
    let mut fields: Vec<(String, Json)> = Vec::new();
    let mut i: usize = 0;
    assert(fields_model(fields@) =~= Seq::empty());
    while i < entries.len()
        invariant
            i <= entries@.len(),
            fields_model(fields@) =~= Seq::new(
                i as nat,
                |k: int| (entries@[k].0@, text_list(names(entries@[k].1@))),
            ),
        decreases entries@.len() - i,
    {
        let key = entries[i].0.clone();
        let value = encode_texts(&entries[i].1);
        proof {
            lemma_fields_model_push(fields@, key, value);
        }
        fields.push((key, value));
        i += 1;
    }
    assert(fields_model(fields@) =~= topology_document(topology_model(entries@))->Object_0);
    Json::Object(fields)
}

fn decode_topology(doc: &Json) -> (r: Option<Vec<(String, Vec<String>)>>)
    ensures
        match r {
            Some(entries) => document_topology(doc@) == Some(topology_model(entries@)),
            None => document_topology(doc@) is None,
        },
{
    match doc {
        Json::Object(fields) => {
            let mut entries: Vec<(String, Vec<String>)> = Vec::new();
            let mut i: usize = 0;
            let ghost model = fields_model(fields@);
            proof {
                lemma_fields_model(fields@);
            }
            while i < fields.len()
                invariant
                    i <= fields@.len(),
                    doc@ == JsonModel::Object(model),
                    model.len() == fields@.len(),
                    forall|k: int|
                        0 <= k < fields@.len() ==> model[k] == (fields@[k].0@, fields@[k].1@),
                    entries@.len() == i,
                    forall|k: int|
                        0 <= k < i ==> model[k].0 == entries@[k].0@ && list_texts(model[k].1)
                            == Some(names(entries@[k].1@)),
                decreases fields@.len() - i,
            {
                match decode_texts(&fields[i].1) {
                    Some(list) => {
                        entries.push((fields[i].0.clone(), list));
                    },
                    None => {
                        assert(list_texts(model[i as int].1) is None);
                        return None;
                    },
                }
                i += 1;
            }
            assert(Seq::new(model.len(), |k: int| (model[k].0, list_texts(model[k].1)->0))
                =~= topology_model(entries@));
            Some(entries)
        },
        _ => None,
    }
}

impl Payload for MessageType {
    open spec fn members(kind: MessageTypeView) -> Seq<(Seq<char>, JsonModel)> {
        match kind {
            MessageTypeView::Broadcast(body) => seq![
                ("type"@, JsonModel::Text("broadcast"@)),
                ("message"@, JsonModel::Number(body.message)),
            ],
            MessageTypeView::Read => seq![("type"@, JsonModel::Text("read"@))],
            MessageTypeView::Topology(body) => seq![
                ("type"@, JsonModel::Text("topology"@)),
                ("topology"@, topology_document(body.topology)),
            ],
        }
    }

    open spec fn parse(body: JsonModel) -> Option<MessageTypeView> {
        match tag(body) {
            Some(name) => if name == "broadcast"@ {
                match number_field(body, "message"@) {
                    Some(message) => Some(MessageTypeView::Broadcast(BroadcastBody { message })),
                    None => None,
                }
            } else if name == "read"@ {
                Some(MessageTypeView::Read)
            } else if name == "topology"@ {
                match body.field("topology"@) {
                    Some(doc) => match document_topology(doc) {
                        Some(topology) => Some(
                            MessageTypeView::Topology(TopologyBodyView { topology }),
                        ),
                        None => None,
                    },
                    None => None,
                }
            } else {
                None
            },
            None => None,
        }
    }

    proof fn lemma_parse_members(kind: MessageTypeView, behind: Seq<(Seq<char>, JsonModel)>) {
        lemma_broadcast_names();
        let members = Self::members(kind);
        lemma_member_found(members, behind, "type"@, 0);
        match kind {
            MessageTypeView::Broadcast(body) => {
                lemma_member_found(members, behind, "message"@, 1);
            },
            MessageTypeView::Read => {},
            MessageTypeView::Topology(body) => {
                lemma_member_found(members, behind, "topology"@, 1);
                lemma_topology_reads_back(body.topology);
            },
        }
    }

    fn encode(&self) -> (r: Vec<(String, Json)>) {
        match self {
            MessageType::Broadcast(body) => {
                let mut members = tagged("broadcast");
                put(&mut members, "message", Json::Number(body.message));
                assert(fields_model(members@) =~= Self::members(self@));
                members
            },
            MessageType::Read => tagged("read"),
            MessageType::Topology(body) => {
                let mut members = tagged("topology");
                put(&mut members, "topology", encode_topology(&body.topology));
                assert(fields_model(members@) =~= Self::members(self@));
                members
            },
        }
    }

    fn decode(body: &Json) -> (r: Option<Self>) {
        let name = match get_text(body, "type") {
            Some(s) => s,
            None => {
                return None;
            },
        };
        if same_text(&name, "broadcast") {
            match get_number(body, "message") {
                Some(message) => Some(MessageType::Broadcast(BroadcastBody { message })),
                None => None,
            }
        } else if same_text(&name, "read") {
            Some(MessageType::Read)
        } else if same_text(&name, "topology") {
            match body.get("topology") {
                Some(doc) => match decode_topology(doc) {
                    Some(topology) => Some(MessageType::Topology(TopologyBody { topology })),
                    None => None,
                },
                None => None,
            }
        } else {
            None
        }
    }
}

impl Payload for ResponseType {
    open spec fn members(kind: ResponseTypeView) -> Seq<(Seq<char>, JsonModel)> {
        match kind {
            ResponseTypeView::BroadcastOk => seq![("type"@, JsonModel::Text("broadcast_ok"@))],
            ResponseTypeView::ReadOk(body) => seq![
                ("type"@, JsonModel::Text("read_ok"@)),
                ("messages"@, number_list(body.messages)),
            ],
            ResponseTypeView::TopologyOk => seq![("type"@, JsonModel::Text("topology_ok"@))],
        }
    }

    open spec fn parse(body: JsonModel) -> Option<ResponseTypeView> {
        match tag(body) {
            Some(name) => if name == "broadcast_ok"@ {
                Some(ResponseTypeView::BroadcastOk)
            } else if name == "read_ok"@ {
                match body.field("messages"@) {
                    Some(doc) => match list_numbers(doc) {
                        Some(messages) => Some(
                            ResponseTypeView::ReadOk(ReadOkBodyView { messages }),
                        ),
                        None => None,
                    },
                    None => None,
                }
            } else if name == "topology_ok"@ {
                Some(ResponseTypeView::TopologyOk)
            } else {
                None
            },
            None => None,
        }
    }

    proof fn lemma_parse_members(kind: ResponseTypeView, behind: Seq<(Seq<char>, JsonModel)>) {
        lemma_broadcast_names();
        let members = Self::members(kind);
        lemma_member_found(members, behind, "type"@, 0);
        match kind {
            ResponseTypeView::ReadOk(body) => {
                lemma_member_found(members, behind, "messages"@, 1);
                lemma_number_list_reads_back(body.messages);
            },
            _ => {},
        }
    }

    fn encode(&self) -> (r: Vec<(String, Json)>) {
        match self {
            ResponseType::BroadcastOk => tagged("broadcast_ok"),
            ResponseType::ReadOk(body) => {
                let mut members = tagged("read_ok");
                put(&mut members, "messages", encode_numbers(&body.messages));
                assert(fields_model(members@) =~= Self::members(self@));
                members
            },
            ResponseType::TopologyOk => tagged("topology_ok"),
        }
    }

    fn decode(body: &Json) -> (r: Option<Self>) {
        let name = match get_text(body, "type") {
            Some(s) => s,
            None => {
                return None;
            },
        };
        if same_text(&name, "broadcast_ok") {
            Some(ResponseType::BroadcastOk)
        } else if same_text(&name, "read_ok") {
            match body.get("messages") {
                Some(doc) => match decode_numbers(doc) {
                    Some(messages) => Some(ResponseType::ReadOk(ReadOkBody { messages })),
                    None => None,
                },
                None => None,
            }
        } else if same_text(&name, "topology_ok") {
            Some(ResponseType::TopologyOk)
        } else {
            None
        }
    }
}

/// The values a node has seen: a set for the test of membership, and the
/// values in the order in which they came.
#[derive(Debug, PartialEq)]
pub struct SeenValues {
    members: HashSet<u64>,
    listed: Vec<u64>,
}

impl View for SeenValues {
    type V = Seq<u64>;

    /// The values in the order in which they were first seen.
    closed spec fn view(&self) -> Seq<u64> {
        self.listed@
    }
}

impl SeenValues {
    #[verifier::type_invariant]
    spec fn wf(self) -> bool {
        &&& self.listed@.no_duplicates()
        &&& self.listed@.to_set() == self.members@
    }

    /// The empty set.
    pub fn new() -> (seen: Self)
        ensures
            seen@ == Seq::<u64>::empty(),
    {
        let members: HashSet<u64> = HashSet::new();
        let listed: Vec<u64> = Vec::new();
        assert(listed@.to_set() =~= members@);
        SeenValues { members, listed }
    }

    /// Adds a value; tells whether it was new.
    pub fn insert(&mut self, value: u64) -> (fresh: bool)
        ensures
            fresh == !old(self)@.contains(value),
            final(self)@ == inserted(old(self)@, value),
            final(self)@.no_duplicates(),
    {
        proof {
            use_type_invariant(&*self);
        }
        let mut taken = SeenValues::new();
        std::mem::swap(&mut taken, self);
        let SeenValues { mut members, mut listed } = taken;
        let ghost before = listed@;
        let fresh = members.insert(value);
        if fresh {
            listed.push(value);
            proof {
                assert(!before.contains(value)) by {
                    if before.contains(value) {
                        assert(before.to_set().contains(value));
                    }
                }
                assert forall|v: u64| listed@.to_set().contains(v) implies before.to_set().insert(
                    value,
                ).contains(v) by {
                    let k = choose|k: int| 0 <= k < listed@.len() && listed@[k] == v;
                    if k < before.len() {
                        assert(before[k] == v);
                    }
                }
                assert forall|v: u64| before.to_set().insert(value).contains(
                    v,
                ) implies listed@.to_set().contains(v) by {
                    if v == value {
                        assert(listed@[before.len() as int] == v);
                    } else {
                        let k = choose|k: int| 0 <= k < before.len() && before[k] == v;
                        assert(listed@[k] == v);
                    }
                }
                assert(listed@.to_set() =~= before.to_set().insert(value));
            }
        } else {
            proof {
                assert(before.to_set().contains(value));
                assert(before.to_set().insert(value) =~= before.to_set());
            }
        }
        *self = SeenValues { members, listed };
        fresh
    }

    /// The values, in the order in which they were first seen.
    pub fn values(&self) -> (r: Vec<u64>)
        ensures
            r@ == self@,
            r@.no_duplicates(),
    {
        proof {
            use_type_invariant(self);
        }
        let mut copy: Vec<u64> = Vec::new();
        let mut i: usize = 0;
        while i < self.listed.len()
            invariant
                i <= self.listed@.len(),
                copy@ == self.listed@.take(i as int),
            decreases self.listed@.len() - i,
        {
            copy.push(self.listed[i]);
            assert(copy@ =~= self.listed@.take(i + 1));
            i += 1;
        }
        assert(self.listed@.take(self.listed@.len() as int) =~= self.listed@);
        copy
    }
}

/// The values after one more was seen: unchanged where it was there already,
/// else with the value at the end.
pub open spec fn inserted(seen: Seq<u64>, value: u64) -> Seq<u64> {
    if seen.contains(value) {
        seen
    } else {
        seen.push(value)
    }
}

/// A node that floods values to its neighbours.
#[derive(Debug, PartialEq)]
pub struct BroadcastNode {
    pub msg_id: MessageID,
    pub node_id: String,
    pub neighbours: Vec<String>,
    pub messages: SeenValues,
}

/// The value of a [`BroadcastNode`].
pub struct BroadcastNodeView {
    pub msg_id: MessageID,
    pub node_id: Seq<char>,
    pub neighbours: Seq<Seq<char>>,
    pub messages: Seq<u64>,
}

impl View for BroadcastNode {
    type V = BroadcastNodeView;

    open spec fn view(&self) -> BroadcastNodeView {
        BroadcastNodeView {
            msg_id: self.msg_id,
            node_id: self.node_id@,
            neighbours: names(self.neighbours@),
            messages: self.messages@,
        }
    }
}

/// The other members of a cluster: its names without every occurrence of
/// `node_id`, in order.
pub open spec fn others(node_ids: Seq<Seq<char>>, node_id: Seq<char>) -> Seq<Seq<char>>
    decreases node_ids.len(),
{
    if node_ids.len() == 0 {
        Seq::empty()
    } else if node_ids.last() == node_id {
        others(node_ids.drop_last(), node_id)
    } else {
        others(node_ids.drop_last(), node_id).push(node_ids.last())
    }
}

/// Copies the names that differ from `node_id`.
pub fn peers(node_ids: &Vec<String>, node_id: &String) -> (r: Vec<String>)
    ensures
        names(r@) == others(names(node_ids@), node_id@),
{
    let mut rest: Vec<String> = Vec::new();
    let mut i: usize = 0;
    let ghost all = names(node_ids@);
    while i < node_ids.len()
        invariant
            i <= node_ids@.len(),
            all == names(node_ids@),
            names(rest@) =~= others(all.take(i as int), node_id@),
        decreases node_ids@.len() - i,
    {
        proof {
            assert(all.take(i + 1).drop_last() =~= all.take(i as int));
            assert(all.take(i + 1).last() == node_ids@[i as int]@);
        }
        if node_ids[i] != *node_id {
            rest.push(node_ids[i].clone());
        }
        i += 1;
    }
    assert(all.take(all.len() as int) =~= all);
    rest
}

/// The forwards of a value: one request for each neighbour, in order, from
/// the node, with no identifier.
pub open spec fn forwards(node_id: Seq<char>, neighbours: Seq<Seq<char>>, value: u64) -> Seq<
    OutboundView<MessageTypeView, ResponseTypeView>,
> {
    Seq::new(
        neighbours.len(),
        |i: int|
            OutboundView::Request(
                MessageView {
                    src: node_id,
                    dst: neighbours[i],
                    body: MessageBodyView {
                        kind: MessageTypeView::Broadcast(BroadcastBody { message: value }),
                        msg_id: None,
                    },
                },
            ),
    )
}

/// The neighbours that a topology gives to `node_id`: those of the last entry
/// under that name.
pub open spec fn neighbours_in(
    topology: Seq<(Seq<char>, Seq<Seq<char>>)>,
    node_id: Seq<char>,
) -> Option<Seq<Seq<char>>>
    decreases topology.len(),
{
    if topology.len() == 0 {
        None
    } else if topology.last().0 == node_id {
        Some(topology.last().1)
    } else {
        neighbours_in(topology.drop_last(), node_id)
    }
}

/// The acknowledgement of a broadcast: a response under the node's
/// identifier where the broadcast carries one of its own, else nothing.
pub open spec fn acknowledgement(
    before: BroadcastNodeView,
    message: MessageView<MessageTypeView>,
) -> Seq<OutboundView<MessageTypeView, ResponseTypeView>> {
    if message.body.msg_id is Some {
        seq![
            OutboundView::Reply(
                answer(before.node_id, before.msg_id, message, ResponseTypeView::BroadcastOk),
            ),
        ]
    } else {
        Seq::empty()
    }
}

/// The node after a request, and what it sent.
///
/// A broadcast of a value not seen before adds it and goes on to every
/// neighbour; a broadcast is acknowledged only where it carries an identifier.
/// A read is answered with the values seen, a topology replaces the
/// neighbours where it names this node and is acknowledged. Each response
/// takes the node's next identifier; where one is due and none is left, the
/// result is the error and nothing changes.
pub open spec fn step(before: BroadcastNodeView, message: MessageView<MessageTypeView>) -> (
    BroadcastNodeView,
    Result<Seq<OutboundView<MessageTypeView, ResponseTypeView>>, NodeError>,
) {
    let replies = !(message.body.kind is Broadcast && message.body.msg_id is None);
    if replies && !has_next(before.msg_id) {
        (before, Err(NodeError::IdentifiersExhausted))
    } else {
        let next_id = if replies {
            (before.msg_id + 1) as u64
        } else {
            before.msg_id
        };
        match message.body.kind {
            MessageTypeView::Broadcast(body) => {
                let sent = if before.messages.contains(body.message) {
                    Seq::empty()
                } else {
                    forwards(before.node_id, before.neighbours, body.message)
                };
                (
                    BroadcastNodeView {
                        msg_id: next_id,
                        messages: inserted(before.messages, body.message),
                        ..before
                    },
                    Ok(sent + acknowledgement(before, message)),
                )
            },
            MessageTypeView::Read => (
                BroadcastNodeView { msg_id: next_id, ..before },
                Ok(
                    seq![
                        OutboundView::Reply(
                            answer(
                                before.node_id,
                                before.msg_id,
                                message,
                                ResponseTypeView::ReadOk(
                                    ReadOkBodyView { messages: before.messages },
                                ),
                            ),
                        ),
                    ],
                ),
            ),
            MessageTypeView::Topology(body) => (
                BroadcastNodeView {
                    msg_id: next_id,
                    neighbours: match neighbours_in(body.topology, before.node_id) {
                        Some(neighbours) => neighbours,
                        None => before.neighbours,
                    },
                    ..before
                },
                Ok(
                    seq![
                        OutboundView::Reply(
                            answer(
                                before.node_id,
                                before.msg_id,
                                message,
                                ResponseTypeView::TopologyOk,
                            ),
                        ),
                    ],
                ),
            ),
        }
    }
}

/// Looks a node up in a topology.
pub(crate) fn find_neighbours(topology: &Vec<(String, Vec<String>)>, node_id: &String) -> (r: Option<
    Vec<String>,
>)
    ensures
        match r {
            Some(found) => neighbours_in(topology_model(topology@), node_id@) == Some(
                names(found@),
            ),
            None => neighbours_in(topology_model(topology@), node_id@) is None,
        },
{
    let ghost model = topology_model(topology@);
    let mut i: usize = topology.len();
    assert(model.take(i as int) =~= model);
    while i > 0
        invariant
            i <= topology@.len(),
            model == topology_model(topology@),
            neighbours_in(model, node_id@) == neighbours_in(model.take(i as int), node_id@),
        decreases i,
    {
        i -= 1;
        assert(model.take(i + 1).drop_last() =~= model.take(i as int));
        if topology[i].0 == *node_id {
            return Some(copy_texts(&topology[i].1));
        }
    }
    None
}

impl BroadcastNode {
    /// The requests that carry `value` to each neighbour.
    fn forward(&self, value: u64) -> (out: Vec<Outbound<MessageType, ResponseType>>)
        ensures
            views(out@) == forwards(self@.node_id, self@.neighbours, value),
    {
        let mut out: Vec<Outbound<MessageType, ResponseType>> = Vec::new();
        let mut i: usize = 0;
        while i < self.neighbours.len()
            invariant
                i <= self.neighbours@.len(),
                out@.len() == i,
                views(out@) =~= forwards(self@.node_id, self@.neighbours, value).take(i as int),
            decreases self.neighbours@.len() - i,
        {
            let ghost old_out = out@;
            out.push(
                Outbound::Request(
                    Message {
                        src: self.node_id.clone(),
                        dst: self.neighbours[i].clone(),
                        body: MessageBody {
                            kind: MessageType::Broadcast(BroadcastBody { message: value }),
                            msg_id: None,
                        },
                    },
                ),
            );
            proof {
                let all = forwards(self@.node_id, self@.neighbours, value);
                assert(out@[i as int]@ == all[i as int]);
                assert forall|k: int| 0 <= k < i implies views(out@)[k] == all[k] by {
                    assert(out@[k] == old_out[k]);
                    assert(views(old_out)[k] == all.take(i as int)[k]);
                }
            }
            i += 1;
        }
        assert(views(out@) =~= forwards(self@.node_id, self@.neighbours, value));
        out
    }

    /// The response to `message` with the given kind, under the node's
    /// current identifier.
    fn reply(&self, src: String, in_reply_to: Option<MessageID>, kind: ResponseType) -> (out:
        Outbound<MessageType, ResponseType>)
        ensures
            out@ == OutboundView::<MessageTypeView, ResponseTypeView>::Reply(
                crate::ResponseView {
                    src: self@.node_id,
                    dst: src@,
                    body: crate::ResponseBodyView {
                        kind: kind@,
                        msg_id: Some(self.msg_id),
                        in_reply_to,
                    },
                },
            ),
    {
        Outbound::Reply(
            Response {
                src: self.node_id.clone(),
                dst: src,
                body: ResponseBody { kind, msg_id: Some(self.msg_id), in_reply_to },
            },
        )
    }
}

impl Node<MessageType> for BroadcastNode {
    type Sent = MessageType;

    type Reply = ResponseType;

    /// The first identifier is 1, the neighbours are all other members, and
    /// nothing has been seen.
    open spec fn started(message: InitBodyView) -> BroadcastNodeView {
        BroadcastNodeView {
            msg_id: 1,
            node_id: message.node_id,
            neighbours: others(message.node_ids, message.node_id),
            messages: Seq::empty(),
        }
    }

    open spec fn handles(
        before: BroadcastNodeView,
        message: MessageView<MessageTypeView>,
        after: BroadcastNodeView,
        out: Result<Seq<OutboundView<MessageTypeView, ResponseTypeView>>, NodeError>,
    ) -> bool {
        &&& (after, out) == step(before, message)
        &&& after.messages.no_duplicates()
    }

    fn init(message: InitBody) -> (node: Self) {
        let neighbours = peers(&message.node_ids, &message.node_id);
        Self { msg_id: 1, node_id: message.node_id, neighbours, messages: SeenValues::new() }
    }

    fn handle(&mut self, message: Message<MessageType>) -> (r: Result<
        Vec<Outbound<MessageType, ResponseType>>,
        NodeError,
    >) {
        let replies = match &message.body.kind {
            MessageType::Broadcast(_) => message.body.msg_id.is_some(),
            _ => true,
        };
        proof {
            use_type_invariant(&self.messages);
        }
        if replies && self.msg_id == u64::MAX {
            return Err(NodeError::IdentifiersExhausted);
        }
        let ghost expected = step(old(self)@, message@);
        match message.body.kind {
            MessageType::Broadcast(body) => {
                let fresh = self.messages.insert(body.message);
                let mut out = if fresh {
                    self.forward(body.message)
                } else {
                    Vec::new()
                };
                if replies {
                    let ack = self.reply(message.src, message.body.msg_id, ResponseType::BroadcastOk);
                    out.push(ack);
                    self.msg_id += 1;
                }
                assert(views(out@) =~= expected.1->Ok_0);
                Ok(out)
            },
            MessageType::Read => {
                let body = ReadOkBody { messages: self.messages.values() };
                let mut out: Vec<Outbound<MessageType, ResponseType>> = Vec::new();
                out.push(self.reply(message.src, message.body.msg_id, ResponseType::ReadOk(body)));
                self.msg_id += 1;
                assert(views(out@) =~= expected.1->Ok_0);
                Ok(out)
            },
            MessageType::Topology(body) => {
                let mut out: Vec<Outbound<MessageType, ResponseType>> = Vec::new();
                out.push(self.reply(message.src, message.body.msg_id, ResponseType::TopologyOk));
                if let Some(neighbours) = find_neighbours(&body.topology, &self.node_id) {
                    self.neighbours = neighbours;
                }
                self.msg_id += 1;
                assert(views(out@) =~= expected.1->Ok_0);
                Ok(out)
            },
        }
    }
}

/// Whether `value` stands at exactly one place of `values`.
pub open spec fn occurs_once(values: Seq<u64>, value: u64) -> bool {
    exists|i: int|
        0 <= i < values.len() && values[i] == value && forall|j: int|
            0 <= j < values.len() && values[j] == value ==> j == i
}

/// Seeing a value keeps the values distinct and holds it exactly once.
pub proof fn lemma_inserted_once(seen: Seq<u64>, value: u64)
    requires
        seen.no_duplicates(),
    ensures
        inserted(seen, value).no_duplicates(),
        occurs_once(inserted(seen, value), value),
        inserted(inserted(seen, value), value) == inserted(seen, value),
{
    let after = inserted(seen, value);
    if seen.contains(value) {
        let i = choose|i: int| 0 <= i < seen.len() && seen[i] == value;
        assert(0 <= i < after.len() && after[i] == value);
    } else {
        assert(after[seen.len() as int] == value);
        assert(after.contains(value));
    }
}

/// Every response takes the node's next identifier, and the identifier goes
/// up by one for each; what goes on to the neighbours carries none. A
/// request is answered at most once, last of all that it sends; an error
/// sends nothing and changes nothing.
pub proof fn lemma_identifiers_are_consumed(
    before: BroadcastNodeView,
    message: MessageView<MessageTypeView>,
)
    ensures
        ({
            let (after, out) = step(before, message);
            match out {
                Ok(sent) => {
                    &&& forall|i: int|
                        0 <= i < sent.len() ==> match #[trigger] sent[i] {
                            OutboundView::Request(m) => m.body.msg_id is None,
                            OutboundView::Reply(r) => i == sent.len() - 1 && r.body.msg_id
                                == Some(before.msg_id) && after.msg_id == before.msg_id + 1,
                        }
                    &&& after.msg_id == before.msg_id || (after.msg_id == before.msg_id + 1
                        && sent.len() > 0 && sent.last() is Reply)
                },
                Err(_) => after == before,
            }
        }),
{
}

/// What a node has seen it never forgets, and it never sees a value twice:
/// no request takes a value out of the values seen or lists one again.
pub proof fn lemma_seen_values_grow(
    before: BroadcastNodeView,
    message: MessageView<MessageTypeView>,
    value: u64,
)
    requires
        before.messages.no_duplicates(),
    ensures
        step(before, message).0.messages.no_duplicates(),
        before.messages.contains(value) ==> step(before, message).0.messages.contains(value),
        before.messages.len() <= step(before, message).0.messages.len(),
{
    if message.body.kind is Broadcast {
        let seen = message.body.kind->Broadcast_0.message;
        lemma_inserted_once(before.messages, seen);
        if before.messages.contains(value) {
            let i = choose|i: int| 0 <= i < before.messages.len() && before.messages[i] == value;
            assert(inserted(before.messages, seen)[i] == value);
        }
    }
}

/// Delivering one value twice is delivering it once: where both broadcasts
/// are handled, the first goes on to every neighbour exactly where the value
/// is new, the second goes on to nobody, and a read that follows lists the
/// value exactly once.
pub proof fn lemma_redelivery(
    before: BroadcastNodeView,
    first: MessageView<MessageTypeView>,
    second: MessageView<MessageTypeView>,
    read: MessageView<MessageTypeView>,
)
    requires
        before.messages.no_duplicates(),
        first.body.kind is Broadcast,
        second.body.kind == first.body.kind,
        read.body.kind is Read,
        step(before, first).1 is Ok,
        step(step(before, first).0, second).1 is Ok,
        step(step(step(before, first).0, second).0, read).1 is Ok,
    ensures
        ({
            let value = first.body.kind->Broadcast_0.message;
            let (middle, out_first) = step(before, first);
            let (after, out_second) = step(middle, second);
            let (last, out_read) = step(after, read);
            &&& out_first->Ok_0.take(
                out_first->Ok_0.len() - acknowledgement(before, first).len(),
            ) == if before.messages.contains(value) {
                Seq::empty()
            } else {
                forwards(before.node_id, before.neighbours, value)
            }
            &&& out_second->Ok_0 == acknowledgement(middle, second)
            &&& forall|i: int|
                0 <= i < out_second->Ok_0.len() ==> (#[trigger] out_second->Ok_0[i]) is Reply
            &&& after.messages == middle.messages
            &&& out_read->Ok_0.len() == 1
            &&& out_read->Ok_0[0] is Reply
            &&& out_read->Ok_0[0]->Reply_0.body.kind == ResponseTypeView::ReadOk(
                ReadOkBodyView { messages: after.messages },
            )
            &&& occurs_once(after.messages, value)
        }),
{
    let value = first.body.kind->Broadcast_0.message;
    lemma_inserted_once(before.messages, value);
    let (middle, out_first) = step(before, first);
    let sent = if before.messages.contains(value) {
        Seq::empty()
    } else {
        forwards(before.node_id, before.neighbours, value)
    };
    assert(out_first->Ok_0 == sent + acknowledgement(before, first));
    assert((sent + acknowledgement(before, first)).take(sent.len() as int) =~= sent);
    assert(middle.messages.contains(value));
    let (after, out_second) = step(middle, second);
    assert(out_second->Ok_0 =~= acknowledgement(middle, second));
}

} // verus!
