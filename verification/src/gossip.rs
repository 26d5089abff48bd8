//! The counter that lives in the nodes themselves: each node owns one
//! coordinate of a vector, and the nodes tell one another what they know.

use crate::broadcast::{others, peers};
use crate::g_counter::{AddBody, ReadOkBody, ResponseType};
use crate::json::{fields_model, lemma_fields_model, lemma_fields_model_push, Json, JsonModel};
use crate::wire::{
    get_number, get_text, lemma_member_found, number_field, put, same_text, tag, tagged, Payload,
};
use crate::{
    answer, emitted, has_next, names, views, InitBody, InitBodyView, Message, MessageBody,
    MessageBodyView, MessageID, MessageView, NodeError, Outbound, OutboundView, Response,
    ResponseBody,
};
use vstd::prelude::*;

verus! {

/// What a node tells its peers: every coordinate it knows.
#[derive(Debug, PartialEq)]
pub struct GossipBody {
    pub counters: Vec<(String, u64)>,
}

/// The value of a [`GossipBody`].
pub struct GossipBodyView {
    pub counters: Seq<(Seq<char>, u64)>,
}

/// The coordinates of a vector, as plain values.
pub open spec fn counters_model(counters: Seq<(String, u64)>) -> Seq<(Seq<char>, u64)> {
    Seq::new(counters.len(), |i: int| (counters[i].0@, counters[i].1))
}

impl View for GossipBody {
    type V = GossipBodyView;

    open spec fn view(&self) -> GossipBodyView {
        GossipBodyView { counters: counters_model(self.counters@) }
    }
}

/// The requests of a gossip counter.
#[derive(Debug, PartialEq)]
pub enum MessageType {
    Add(AddBody),
    Read,
    Gossip(GossipBody),
}

/// The value of a [`MessageType`].
pub enum MessageTypeView {
    Add(AddBody),
    Read,
    Gossip(GossipBodyView),
}

impl View for MessageType {
    type V = MessageTypeView;

    open spec fn view(&self) -> MessageTypeView {
        match self {
            MessageType::Add(body) => MessageTypeView::Add(*body),
            MessageType::Read => MessageTypeView::Read,
            MessageType::Gossip(body) => MessageTypeView::Gossip(body@),
        }
    }
}

/// The lengths of the names that a gossip counter reads and writes.
pub proof fn lemma_gossip_names()
    ensures
        "type"@.len() == 4,
        "delta"@.len() == 5,
        "counters"@.len() == 8,
        "add"@.len() == 3,
        "read"@.len() == 4,
        "gossip"@.len() == 6,
        "msg_id"@.len() == 6,
        "in_reply_to"@.len() == 11,
{
    reveal_strlit("type");
    reveal_strlit("delta");
    reveal_strlit("counters");
    reveal_strlit("add");
    reveal_strlit("read");
    reveal_strlit("gossip");
    reveal_strlit("msg_id");
    reveal_strlit("in_reply_to");
}

/// The object that writes a vector: one member for each coordinate.
pub open spec fn counters_document(counters: Seq<(Seq<char>, u64)>) -> JsonModel {
    JsonModel::Object(
        Seq::new(counters.len(), |i: int| (counters[i].0, JsonModel::Number(counters[i].1))),
    )
}

/// The vector that a document holds: an object, each member of which is an
/// unsigned integer.
pub open spec fn document_counters(doc: JsonModel) -> Option<Seq<(Seq<char>, u64)>> {
    match doc {
        JsonModel::Object(fields) => if forall|i: int|
            0 <= i < fields.len() ==> fields[i].1 is Number {
            Some(Seq::new(fields.len(), |i: int| (fields[i].0, fields[i].1->Number_0)))
        } else {
            None
        },
        _ => None,
    }
}

/// A vector reads back from its document.
pub proof fn lemma_counters_read_back(counters: Seq<(Seq<char>, u64)>)
    ensures
        document_counters(counters_document(counters)) == Some(counters),
{
    let fields = counters_document(counters)->Object_0;
    assert(Seq::new(fields.len(), |i: int| (fields[i].0, fields[i].1->Number_0)) =~= counters);
}

fn encode_counters(counters: &Vec<(String, u64)>) -> (doc: Json)
    ensures
        doc@ == counters_document(counters_model(counters@)),
{
    let mut fields: Vec<(String, Json)> = Vec::new();
    let mut i: usize = 0;
    assert(fields_model(fields@) =~= Seq::empty());
    while i < counters.len()
        invariant
            i <= counters@.len(),
            fields_model(fields@) =~= Seq::new(
                i as nat,
                |k: int| (counters@[k].0@, JsonModel::Number(counters@[k].1)),
            ),
        decreases counters@.len() - i,
    {
        let key = counters[i].0.clone();
        let value = Json::Number(counters[i].1);
        proof {
            lemma_fields_model_push(fields@, key, value);
        }
        fields.push((key, value));
        i += 1;
    }
    assert(fields_model(fields@) =~= counters_document(counters_model(counters@))->Object_0);
    Json::Object(fields)
}

fn decode_counters(doc: &Json) -> (r: Option<Vec<(String, u64)>>)
    ensures
        match r {
            Some(counters) => document_counters(doc@) == Some(counters_model(counters@)),
            None => document_counters(doc@) is None,
        },
{
    match doc {
        Json::Object(fields) => {
            let mut counters: Vec<(String, u64)> = Vec::new();
            let mut i: usize = 0;
            let ghost model = fields_model(fields@);
            proof {
                lemma_fields_model(fields@);
            }
            while i < fields.len()
                invariant
                    i <= fields@.len(),
                    doc@ == JsonModel::Object(model),
                    model.len() == fields@.len(),
                    forall|k: int|
                        0 <= k < fields@.len() ==> model[k] == (fields@[k].0@, fields@[k].1@),
                    counters@.len() == i,
                    forall|k: int|
                        0 <= k < i ==> model[k] == (
                            counters@[k].0@,
                            JsonModel::Number(counters@[k].1),
                        ),
                decreases fields@.len() - i,
            {
                match &fields[i].1 {
                    Json::Number(n) => {
                        counters.push((fields[i].0.clone(), *n));
                    },
                    _ => {
                        assert(!(model[i as int].1 is Number));
                        return None;
                    },
                }
                i += 1;
            }
            assert(Seq::new(model.len(), |k: int| (model[k].0, model[k].1->Number_0))
                =~= counters_model(counters@));
            Some(counters)
        },
        _ => None,
    }
}

impl Payload for MessageType {
    open spec fn members(kind: MessageTypeView) -> Seq<(Seq<char>, JsonModel)> {
        match kind {
            MessageTypeView::Add(body) => seq![
                ("type"@, JsonModel::Text("add"@)),
                ("delta"@, JsonModel::Number(body.delta)),
            ],
            MessageTypeView::Read => seq![("type"@, JsonModel::Text("read"@))],
            MessageTypeView::Gossip(body) => seq![
                ("type"@, JsonModel::Text("gossip"@)),
                ("counters"@, counters_document(body.counters)),
            ],
        }
    }

    open spec fn parse(body: JsonModel) -> Option<MessageTypeView> {
        match tag(body) {
            Some(name) => if name == "add"@ {
                match number_field(body, "delta"@) {
                    Some(delta) => Some(MessageTypeView::Add(AddBody { delta })),
                    None => None,
                }
            } else if name == "read"@ {
                Some(MessageTypeView::Read)
            } else if name == "gossip"@ {
                match body.field("counters"@) {
                    Some(doc) => match document_counters(doc) {
                        Some(counters) => Some(MessageTypeView::Gossip(GossipBodyView { counters })),
                        None => None,
                    },
                    None => None,
                }
            } else {
                None
            },
            None => None,
        }
    }

    proof fn lemma_parse_members(kind: MessageTypeView, behind: Seq<(Seq<char>, JsonModel)>) {
        lemma_gossip_names();
        let members = Self::members(kind);
        lemma_member_found(members, behind, "type"@, 0);
        match kind {
            MessageTypeView::Add(body) => {
                lemma_member_found(members, behind, "delta"@, 1);
            },
            MessageTypeView::Read => {},
            MessageTypeView::Gossip(body) => {
                lemma_member_found(members, behind, "counters"@, 1);
                lemma_counters_read_back(body.counters);
            },
        }
    }

    fn encode(&self) -> (r: Vec<(String, Json)>) {
        match self {
            MessageType::Add(body) => {
                let mut members = tagged("add");
                put(&mut members, "delta", Json::Number(body.delta));
                assert(fields_model(members@) =~= Self::members(self@));
                members
            },
            MessageType::Read => tagged("read"),
            MessageType::Gossip(body) => {
                let mut members = tagged("gossip");
                put(&mut members, "counters", encode_counters(&body.counters));
                assert(fields_model(members@) =~= Self::members(self@));
                members
            },
        }
    }

    fn decode(body: &Json) -> (r: Option<Self>) {
        let name = match get_text(body, "type") {
            Some(s) => s,
            None => {
                return None;
            },
        };
        if same_text(&name, "add") {
            match get_number(body, "delta") {
                Some(delta) => Some(MessageType::Add(AddBody { delta })),
                None => None,
            }
        } else if same_text(&name, "read") {
            Some(MessageType::Read)
        } else if same_text(&name, "gossip") {
            match body.get("counters") {
                Some(doc) => match decode_counters(doc) {
                    Some(counters) => Some(MessageType::Gossip(GossipBody { counters })),
                    None => None,
                },
                None => None,
            }
        } else {
            None
        }
    }
}

/// Where the coordinate of `name` stands in a vector: at the last entry
/// under that name.
pub open spec fn position(counters: Seq<(Seq<char>, u64)>, name: Seq<char>) -> Option<int>
    decreases counters.len(),
{
    if counters.len() == 0 {
        None
    } else if counters.last().0 == name {
        Some(counters.len() - 1)
    } else {
        position(counters.drop_last(), name)
    }
}

/// What a vector knows of `name`: its coordinate, or 0 where it has none.
pub open spec fn coordinate(counters: Seq<(Seq<char>, u64)>, name: Seq<char>) -> u64 {
    match position(counters, name) {
        Some(i) => counters[i].1,
        None => 0,
    }
}

/// The vector with the coordinate of `name` raised to `value` where it was
/// lower.
pub open spec fn raised(counters: Seq<(Seq<char>, u64)>, name: Seq<char>, value: u64) -> Seq<
    (Seq<char>, u64),
> {
    match position(counters, name) {
        Some(i) => if counters[i].1 < value {
            counters.update(i, (name, value))
        } else {
            counters
        },
        None => counters.push((name, value)),
    }
}

/// The vector after a merge: every coordinate that comes in raises the one
/// known, in order.
pub open spec fn merged(counters: Seq<(Seq<char>, u64)>, incoming: Seq<(Seq<char>, u64)>) -> Seq<
    (Seq<char>, u64),
>
    decreases incoming.len(),
{
    if incoming.len() == 0 {
        counters
    } else {
        raised(merged(counters, incoming.drop_last()), incoming.last().0, incoming.last().1)
    }
}

/// The vector with `delta` more at the coordinate of `name`.
pub open spec fn bumped(counters: Seq<(Seq<char>, u64)>, name: Seq<char>, delta: u64) -> Seq<
    (Seq<char>, u64),
> {
    match position(counters, name) {
        Some(i) => counters.update(i, (name, (counters[i].1 + delta) as u64)),
        None => counters.push((name, delta)),
    }
}

/// The sum of all coordinates.
pub open spec fn sum(counters: Seq<(Seq<char>, u64)>) -> nat
    decreases counters.len(),
{
    if counters.len() == 0 {
        0
    } else {
        sum(counters.drop_last()) + counters.last().1 as nat
    }
}

/// Where a coordinate stands, if anywhere: it is the last entry under its
/// name.
pub proof fn lemma_position(counters: Seq<(Seq<char>, u64)>, name: Seq<char>)
    ensures
        match position(counters, name) {
            Some(i) => 0 <= i < counters.len() && counters[i].0 == name && forall|j: int|
                i < j < counters.len() ==> (#[trigger] counters[j]).0 != name,
            None => forall|j: int| 0 <= j < counters.len() ==> (#[trigger] counters[j]).0 != name,
        },
    decreases counters.len(),
{
    if counters.len() > 0 {
        let rest = counters.drop_last();
        lemma_position(rest, name);
        assert forall|j: int| 0 <= j < rest.len() implies rest[j] == counters[j] by {}
        if counters.last().0 != name {
            match position(rest, name) {
                Some(i) => {
                    assert forall|j: int| i < j < counters.len() implies (#[trigger] counters[j]).0
                        != name by {
                        if j < rest.len() {
                            assert(rest[j] == counters[j]);
                        }
                    }
                },
                None => {
                    assert forall|j: int| 0 <= j < counters.len() implies (#[trigger] counters[j]).0
                        != name by {
                        if j < rest.len() {
                            assert(rest[j] == counters[j]);
                        }
                    }
                },
            }
        }
    }
}

/// The place of a coordinate depends on the names alone.
pub proof fn lemma_position_by_names(
    a: Seq<(Seq<char>, u64)>,
    b: Seq<(Seq<char>, u64)>,
    name: Seq<char>,
)
    requires
        a.len() == b.len(),
        forall|j: int| 0 <= j < a.len() ==> a[j].0 == b[j].0,
    ensures
        position(a, name) == position(b, name),
    decreases a.len(),
{
    if a.len() > 0 {
        lemma_position_by_names(a.drop_last(), b.drop_last(), name);
    }
}

/// Raising one coordinate gives it the larger of the two values and leaves
/// every other as it was.
pub proof fn lemma_raised(
    counters: Seq<(Seq<char>, u64)>,
    name: Seq<char>,
    value: u64,
    other: Seq<char>,
)
    ensures
        coordinate(raised(counters, name, value), other) == if other == name {
            if coordinate(counters, name) < value {
                value
            } else {
                coordinate(counters, name)
            }
        } else {
            coordinate(counters, other)
        },
{
    lemma_position(counters, name);
    lemma_position(counters, other);
    let after = raised(counters, name, value);
    match position(counters, name) {
        Some(i) => {
            if counters[i].1 < value {
                lemma_position_by_names(counters, after, other);
            }
        },
        None => {
            assert(after.drop_last() =~= counters);
        },
    }
}

/// A merge never lowers a coordinate.
pub proof fn lemma_merge_never_lowers(
    counters: Seq<(Seq<char>, u64)>,
    incoming: Seq<(Seq<char>, u64)>,
    name: Seq<char>,
)
    ensures
        coordinate(merged(counters, incoming), name) >= coordinate(counters, name),
    decreases incoming.len(),
{
    if incoming.len() > 0 {
        lemma_merge_never_lowers(counters, incoming.drop_last(), name);
        lemma_raised(
            merged(counters, incoming.drop_last()),
            incoming.last().0,
            incoming.last().1,
            name,
        );
    }
}

/// The vector after a run of merges, in order.
pub open spec fn merged_all(
    counters: Seq<(Seq<char>, u64)>,
    gossips: Seq<Seq<(Seq<char>, u64)>>,
) -> Seq<(Seq<char>, u64)>
    decreases gossips.len(),
{
    if gossips.len() == 0 {
        counters
    } else {
        merged(merged_all(counters, gossips.drop_last()), gossips.last())
    }
}

/// No run of merges, however long, lowers a coordinate.
pub proof fn lemma_merges_never_lower(
    counters: Seq<(Seq<char>, u64)>,
    gossips: Seq<Seq<(Seq<char>, u64)>>,
    name: Seq<char>,
)
    ensures
        coordinate(merged_all(counters, gossips), name) >= coordinate(counters, name),
    decreases gossips.len(),
{
    if gossips.len() > 0 {
        lemma_merges_never_lower(counters, gossips.drop_last(), name);
        lemma_merge_never_lowers(merged_all(counters, gossips.drop_last()), gossips.last(), name);
    }
}

/// Adding to one coordinate raises it by the delta and leaves every other
/// as it was.
pub proof fn lemma_bumped(
    counters: Seq<(Seq<char>, u64)>,
    name: Seq<char>,
    delta: u64,
    other: Seq<char>,
)
    requires
        coordinate(counters, name) + delta <= u64::MAX,
    ensures
        coordinate(bumped(counters, name, delta), other) == if other == name {
            (coordinate(counters, name) + delta) as u64
        } else {
            coordinate(counters, other)
        },
{
    lemma_position(counters, name);
    lemma_position(counters, other);
    let after = bumped(counters, name, delta);
    match position(counters, name) {
        Some(i) => {
            lemma_position_by_names(counters, after, other);
        },
        None => {
            assert(after.drop_last() =~= counters);
        },
    }
}

/// A node of the gossip counter.
#[derive(Debug, PartialEq)]
pub struct GossipCounterNode {
    pub msg_id: MessageID,
    pub node_id: String,
    /// The other members of the cluster.
    pub peers: Vec<String>,
    /// What the node knows of every member's running sum.
    pub counters: Vec<(String, u64)>,
    /// The time of the last gossip, in milliseconds.
    pub last_gossip: u64,
}

/// The value of a [`GossipCounterNode`].
pub struct GossipCounterNodeView {
    pub msg_id: MessageID,
    pub node_id: Seq<char>,
    pub peers: Seq<Seq<char>>,
    pub counters: Seq<(Seq<char>, u64)>,
    pub last_gossip: u64,
}

impl View for GossipCounterNode {
    type V = GossipCounterNodeView;

    open spec fn view(&self) -> GossipCounterNodeView {
        GossipCounterNodeView {
            msg_id: self.msg_id,
            node_id: self.node_id@,
            peers: names(self.peers@),
            counters: counters_model(self.counters@),
            last_gossip: self.last_gossip,
        }
    }
}

/// What a gossip counter sends: gossip to peers and responses to clients.
pub type Sent = Outbound<MessageType, ResponseType>;

/// The value of a [`Sent`].
pub type SentView = OutboundView<MessageTypeView, ResponseType>;

/// The time between two gossips, in milliseconds.
pub const GOSSIP_INTERVAL: u64 = 500;

/// Whether a gossip is due at `now`: the interval has passed since the last.
pub open spec fn due(last_gossip: u64, now: u64) -> bool {
    now - last_gossip >= GOSSIP_INTERVAL
}

/// The gossip of a vector: one request for each peer, in order, with no
/// identifier.
pub open spec fn gossip(
    node_id: Seq<char>,
    peers: Seq<Seq<char>>,
    counters: Seq<(Seq<char>, u64)>,
) -> Seq<SentView> {
    Seq::new(
        peers.len(),
        |i: int|
            OutboundView::Request(
                MessageView {
                    src: node_id,
                    dst: peers[i],
                    body: MessageBodyView {
                        kind: MessageTypeView::Gossip(GossipBodyView { counters }),
                        msg_id: None,
                    },
                },
            ),
    )
}

/// The node as the handshake leaves it at the time `now`: the first
/// identifier is 1, the peers are all other members, nothing is counted
/// yet, and the interval to the first gossip starts.
pub open spec fn started(message: InitBodyView, now: u64) -> GossipCounterNodeView {
    GossipCounterNodeView {
        msg_id: 1,
        node_id: message.node_id,
        peers: others(message.node_ids, message.node_id),
        counters: Seq::empty(),
        last_gossip: now,
    }
}

/// The node after a message that came at the time `now`, and what it sent.
///
/// An add raises the node's own coordinate and is acknowledged; a read is
/// answered with the sum of all coordinates; a gossip is merged and not
/// answered. After that, where a gossip is due, the whole vector goes to
/// every peer and the interval starts anew. Where a response is due and no
/// identifier is left, or a sum does not fit in 64 bits, the result is the
/// error and nothing changes.
pub open spec fn step(
    before: GossipCounterNodeView,
    message: MessageView<MessageTypeView>,
    now: u64,
) -> (GossipCounterNodeView, Result<Seq<SentView>, NodeError>) {
    let replies = !(message.body.kind is Gossip);
    if replies && !has_next(before.msg_id) {
        (before, Err(NodeError::IdentifiersExhausted))
    } else if message.body.kind is Add && coordinate(before.counters, before.node_id)
        + message.body.kind->Add_0.delta > u64::MAX {
        (before, Err(NodeError::CounterOverflow))
    } else if message.body.kind is Read && sum(before.counters) > u64::MAX {
        (before, Err(NodeError::CounterOverflow))
    } else {
        let counters = match message.body.kind {
            MessageTypeView::Add(body) => bumped(before.counters, before.node_id, body.delta),
            MessageTypeView::Read => before.counters,
            MessageTypeView::Gossip(body) => merged(before.counters, body.counters),
        };
        let answered = match message.body.kind {
            MessageTypeView::Add(body) => seq![
                OutboundView::Reply(
                    answer(before.node_id, before.msg_id, message, ResponseType::AddOk),
                ),
            ],
            MessageTypeView::Read => seq![
                OutboundView::Reply(
                    answer(
                        before.node_id,
                        before.msg_id,
                        message,
                        ResponseType::ReadOk(ReadOkBody { value: sum(before.counters) as u64 }),
                    ),
                ),
            ],
            MessageTypeView::Gossip(body) => Seq::empty(),
        };
        let flush = due(before.last_gossip, now);
        (
            GossipCounterNodeView {
                msg_id: if replies {
                    (before.msg_id + 1) as u64
                } else {
                    before.msg_id
                },
                counters,
                last_gossip: if flush {
                    now
                } else {
                    before.last_gossip
                },
                ..before
            },
            Ok(
                if flush {
                    answered + gossip(before.node_id, before.peers, counters)
                } else {
                    answered
                },
            ),
        )
    }
}

/// No message lowers a coordinate.
pub proof fn lemma_step_never_lowers(
    before: GossipCounterNodeView,
    message: MessageView<MessageTypeView>,
    now: u64,
    name: Seq<char>,
)
    ensures
        coordinate(step(before, message, now).0.counters, name) >= coordinate(
            before.counters,
            name,
        ),
{
    match message.body.kind {
        MessageTypeView::Add(body) => {
            if coordinate(before.counters, before.node_id) + body.delta <= u64::MAX {
                lemma_bumped(before.counters, before.node_id, body.delta, name);
            }
        },
        MessageTypeView::Read => {},
        MessageTypeView::Gossip(body) => {
            lemma_merge_never_lowers(before.counters, body.counters, name);
        },
    }
}

/// The sum of a beginning of a vector is at most the sum of the whole.
pub proof fn lemma_sum_grows(counters: Seq<(Seq<char>, u64)>, k: int)
    requires
        0 <= k <= counters.len(),
    ensures
        sum(counters.take(k)) <= sum(counters),
    decreases counters.len() - k,
{
    if k == counters.len() {
        assert(counters.take(k) =~= counters);
    } else {
        lemma_sum_grows(counters, k + 1);
        assert(counters.take(k + 1).drop_last() =~= counters.take(k));
    }
}

/// Looks for the coordinate of `name`.
fn find(counters: &Vec<(String, u64)>, name: &String) -> (r: Option<usize>)
    ensures
        match r {
            Some(i) => position(counters_model(counters@), name@) == Some(i as int) && i
                < counters@.len(),
            None => position(counters_model(counters@), name@) is None,
        },
{
    let ghost model = counters_model(counters@);
    let mut i: usize = counters.len();
    assert(model.take(i as int) =~= model);
    while i > 0
        invariant
            i <= counters@.len(),
            model == counters_model(counters@),
            position(model, name@) == position(model.take(i as int), name@),
        decreases i,
    {
        i -= 1;
        assert(model.take(i + 1).drop_last() =~= model.take(i as int));
        if counters[i].0 == *name {
            return Some(i);
        }
    }
    None
}

/// Copies a vector.
fn copy_counters(counters: &Vec<(String, u64)>) -> (r: Vec<(String, u64)>)
    ensures
        counters_model(r@) == counters_model(counters@),
{
    let mut copy: Vec<(String, u64)> = Vec::new();
    let mut i: usize = 0;
    while i < counters.len()
        invariant
            i <= counters@.len(),
            copy@ == counters@.take(i as int),
        decreases counters@.len() - i,
    {
        copy.push((counters[i].0.clone(), counters[i].1));
        assert(copy@ =~= counters@.take(i + 1));
        i += 1;
    }
    assert(counters@.take(counters@.len() as int) =~= counters@);
    copy
}

impl GossipCounterNode {
    /// The node as the handshake leaves it at the time `now`.
    pub fn init(message: InitBody, now: u64) -> (node: Self)
        ensures
            node@ == started(message@, now),
    {
        let peers = peers(&message.node_ids, &message.node_id);
        let node = Self {
            msg_id: 1,
            node_id: message.node_id,
            peers,
            counters: Vec::new(),
            last_gossip: now,
        };
        assert(node@.counters =~= Seq::empty());
        node
    }

    /// What the node knows of `name`.
    pub fn known(&self, name: &String) -> (value: u64)
        ensures
            value == coordinate(self@.counters, name@),
    {
        match find(&self.counters, name) {
            Some(i) => self.counters[i].1,
            None => 0,
        }
    }

    /// The sum of all coordinates, where it fits in 64 bits.
    pub fn total(&self) -> (r: Option<u64>)
        ensures
            match r {
                Some(value) => value == sum(self@.counters),
                None => sum(self@.counters) > u64::MAX,
            },
    {
        let ghost model = self@.counters;
        let mut value: u64 = 0;
        let mut i: usize = 0;
        while i < self.counters.len()
            invariant
                i <= self.counters@.len(),
                model == counters_model(self.counters@),
                value == sum(model.take(i as int)),
            decreases self.counters@.len() - i,
        {
            proof {
                assert(model.take(i + 1).drop_last() =~= model.take(i as int));
                lemma_sum_grows(model, i + 1);
            }
            if self.counters[i].1 > u64::MAX - value {
                return None;
            }
            value = value + self.counters[i].1;
            i += 1;
        }
        assert(model.take(model.len() as int) =~= model);
        Some(value)
    }

    /// Raises the coordinate of `name` to `value` where it is lower.
    pub fn raise(&mut self, name: &String, value: u64)
        ensures
            final(self)@ == (GossipCounterNodeView {
                counters: raised(old(self)@.counters, name@, value),
                ..old(self)@
            }),
    {
        match find(&self.counters, name) {
            Some(i) => {
                if self.counters[i].1 < value {
                    self.counters.set(i, (name.clone(), value));
                    assert(self@.counters =~= raised(old(self)@.counters, name@, value));
                }
            },
            None => {
                self.counters.push((name.clone(), value));
                assert(self@.counters =~= raised(old(self)@.counters, name@, value));
            },
        }
    }

    /// Merges the coordinates that a peer sent.
    pub fn merge(&mut self, incoming: &Vec<(String, u64)>)
        ensures
            final(self)@ == (GossipCounterNodeView {
                counters: merged(old(self)@.counters, counters_model(incoming@)),
                ..old(self)@
            }),
    {
        let ghost all = counters_model(incoming@);
        let mut i: usize = 0;
        while i < incoming.len()
            invariant
                i <= incoming@.len(),
                all == counters_model(incoming@),
                self@ == (GossipCounterNodeView {
                    counters: merged(old(self)@.counters, all.take(i as int)),
                    ..old(self)@
                }),
            decreases incoming@.len() - i,
        {
            proof {
                assert(all.take(i + 1).drop_last() =~= all.take(i as int));
            }
            self.raise(&incoming[i].0, incoming[i].1);
            i += 1;
        }
        assert(all.take(all.len() as int) =~= all);
    }

    /// The gossip of the node's vector to every peer.
    fn flush(&self) -> (out: Vec<Sent>)
        ensures
            views(out@) == gossip(self@.node_id, self@.peers, self@.counters),
    {
        let mut out: Vec<Sent> = Vec::new();
        let mut i: usize = 0;
        while i < self.peers.len()
            invariant
                i <= self.peers@.len(),
                out@.len() == i,
                views(out@) =~= gossip(self@.node_id, self@.peers, self@.counters).take(i as int),
            decreases self.peers@.len() - i,
        {
            let ghost old_out = out@;
            out.push(
                Outbound::Request(
                    Message {
                        src: self.node_id.clone(),
                        dst: self.peers[i].clone(),
                        body: MessageBody {
                            kind: MessageType::Gossip(
                                GossipBody { counters: copy_counters(&self.counters) },
                            ),
                            msg_id: None,
                        },
                    },
                ),
            );
            proof {
                let all = gossip(self@.node_id, self@.peers, self@.counters);
                assert(out@[i as int]@ == all[i as int]);
                assert forall|k: int| 0 <= k < i implies views(out@)[k] == all[k] by {
                    assert(out@[k] == old_out[k]);
                    assert(views(old_out)[k] == all.take(i as int)[k]);
                }
            }
            i += 1;
        }
        assert(views(out@) =~= gossip(self@.node_id, self@.peers, self@.counters));
        out
    }

    /// Handles a message that came at the time `now`, in milliseconds.
    pub fn handle(&mut self, message: Message<MessageType>, now: u64) -> (r: Result<
        Vec<Sent>,
        NodeError,
    >)
        ensures
            (final(self)@, emitted(r)) == step(old(self)@, message@, now),
    {
        let ghost expected = step(old(self)@, message@, now);
        let mut out: Vec<Sent> = Vec::new();
        match message.body.kind {
            MessageType::Add(body) => {
                if self.msg_id == u64::MAX {
                    return Err(NodeError::IdentifiersExhausted);
                }
                match find(&self.counters, &self.node_id) {
                    Some(i) => {
                        if body.delta > u64::MAX - self.counters[i].1 {
                            return Err(NodeError::CounterOverflow);
                        }
                        let raised = self.counters[i].1 + body.delta;
                        self.counters.set(i, (self.node_id.clone(), raised));
                    },
                    None => {
                        self.counters.push((self.node_id.clone(), body.delta));
                    },
                }
                assert(self@.counters =~= expected.0.counters);
                let reply = Response {
                    src: self.node_id.clone(),
                    dst: message.src,
                    body: ResponseBody {
                        kind: ResponseType::AddOk,
                        msg_id: Some(self.msg_id),
                        in_reply_to: message.body.msg_id,
                    },
                };
                out.push(Outbound::Reply(reply));
                self.msg_id += 1;
            },
            MessageType::Read => {
                if self.msg_id == u64::MAX {
                    return Err(NodeError::IdentifiersExhausted);
                }
                let value = match self.total() {
                    Some(value) => value,
                    None => {
                        return Err(NodeError::CounterOverflow);
                    },
                };
                let reply = Response {
                    src: self.node_id.clone(),
                    dst: message.src,
                    body: ResponseBody {
                        kind: ResponseType::ReadOk(ReadOkBody { value }),
                        msg_id: Some(self.msg_id),
                        in_reply_to: message.body.msg_id,
                    },
                };
                out.push(Outbound::Reply(reply));
                self.msg_id += 1;
            },
            MessageType::Gossip(body) => {
                self.merge(&body.counters);
            },
        }
        let ghost answered = views(out@);
        if now >= self.last_gossip && now - self.last_gossip >= GOSSIP_INTERVAL {
            let mut flushed = self.flush();
            let ghost sent = views(flushed@);
            out.append(&mut flushed);
            self.last_gossip = now;
            assert(views(out@) =~= answered + sent);
        }
        assert(views(out@) =~= expected.1->Ok_0);
        Ok(out)
    }
}

} // verus!
