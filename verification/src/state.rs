//! The node that speaks every baseline protocol at once: the handshake, echo,
//! identifiers and broadcast, as one state machine of two states.

use crate::broadcast::{
    encode_topology, find_neighbours, inserted, lemma_broadcast_names,
    neighbours_in, others, peers, BroadcastBody, ReadOkBody, ReadOkBodyView,
    SeenValues, TopologyBody, TopologyBodyView,
};
use crate::echo::{encode_echo, lemma_echo_names, EchoBody, EchoBodyView, EchoOkBody};
use crate::json::{fields_model, Json, JsonModel};
use crate::unique_ids::{fresh_id, lemma_generate_names, GenerateOkBody, GenerateOkBodyView};
use crate::wire::{
    encode_numbers, encode_texts, lemma_member_found, put, tagged, Payload,
};
use crate::{
    answer, emitted, has_next, lemma_handshake_names, names, views, InitBody, InitBodyView,
    Message, MessageBody, MessageBodyView, MessageID, MessageView, NodeError, Outbound,
    OutboundView, Response, ResponseBody, ResponseBodyView, ResponseView,
};
use vstd::prelude::*;

verus! {

/// Every request that the node takes.
#[derive(Debug, PartialEq)]
pub enum MessageType {
    Echo(EchoBody),
    Init(InitBody),
    Generate,
    Broadcast(BroadcastBody),
    Read,
    Topology(TopologyBody),
}

/// The value of a [`MessageType`].
pub enum MessageTypeView {
    Echo(EchoBodyView),
    Init(InitBodyView),
    Generate,
    Broadcast(BroadcastBody),
    Read,
    Topology(TopologyBodyView),
}

impl View for MessageType {
    type V = MessageTypeView;

    open spec fn view(&self) -> MessageTypeView {
        match self {
            MessageType::Echo(body) => MessageTypeView::Echo(body@),
            MessageType::Init(body) => MessageTypeView::Init(body@),
            MessageType::Generate => MessageTypeView::Generate,
            MessageType::Broadcast(body) => MessageTypeView::Broadcast(*body),
            MessageType::Read => MessageTypeView::Read,
            MessageType::Topology(body) => MessageTypeView::Topology(body@),
        }
    }
}

/// Every response that the node gives.
#[derive(Debug, PartialEq)]
pub enum ResponseType {
    EchoOk(EchoOkBody),
    InitOk,
    GenerateOk(GenerateOkBody),
    BroadcastOk,
    ReadOk(ReadOkBody),
    TopologyOk,
}

/// The value of a [`ResponseType`].
pub enum ResponseTypeView {
    EchoOk(EchoBodyView),
    InitOk,
    GenerateOk(GenerateOkBodyView),
    BroadcastOk,
    ReadOk(ReadOkBodyView),
    TopologyOk,
}

impl View for ResponseType {
    type V = ResponseTypeView;

    open spec fn view(&self) -> ResponseTypeView {
        match self {
            ResponseType::EchoOk(body) => ResponseTypeView::EchoOk(body@),
            ResponseType::InitOk => ResponseTypeView::InitOk,
            ResponseType::GenerateOk(body) => ResponseTypeView::GenerateOk(body@),
            ResponseType::BroadcastOk => ResponseTypeView::BroadcastOk,
            ResponseType::ReadOk(body) => ResponseTypeView::ReadOk(body@),
            ResponseType::TopologyOk => ResponseTypeView::TopologyOk,
        }
    }
}

/// The first letters of the tags that share a length.
pub proof fn lemma_tags()
    ensures
        "echo"@[0] == 'e',
        "init"@[0] == 'i',
        "init"@.len() == 4,
        "read"@[0] == 'r',
        "generate"@[0] == 'g',
        "topology"@[0] == 't',
        "echo_ok"@[0] == 'e',
        "init_ok"@[0] == 'i',
        "init_ok"@.len() == 7,
        "read_ok"@[0] == 'r',
        "generate_ok"@[0] == 'g',
        "topology_ok"@[0] == 't',
{
    reveal_strlit("echo");
    reveal_strlit("init");
    reveal_strlit("read");
    reveal_strlit("generate");
    reveal_strlit("topology");
    reveal_strlit("echo_ok");
    reveal_strlit("init_ok");
    reveal_strlit("read_ok");
    reveal_strlit("generate_ok");
    reveal_strlit("topology_ok");
}

impl Payload for MessageType {
    /// Each kind is written as the node of its protocol writes it.
    open spec fn members(kind: MessageTypeView) -> Seq<(Seq<char>, JsonModel)> {
        match kind {
            MessageTypeView::Echo(body) => crate::echo::MessageType::members(
                crate::echo::MessageTypeView::Echo(body),
            ),
            MessageTypeView::Init(body) => crate::MessageType::members(
                crate::MessageTypeView::Init(body),
            ),
            MessageTypeView::Generate => crate::unique_ids::MessageType::members(
                crate::unique_ids::MessageType::Generate,
            ),
            MessageTypeView::Broadcast(body) => crate::broadcast::MessageType::members(
                crate::broadcast::MessageTypeView::Broadcast(body),
            ),
            MessageTypeView::Read => crate::broadcast::MessageType::members(
                crate::broadcast::MessageTypeView::Read,
            ),
            MessageTypeView::Topology(body) => crate::broadcast::MessageType::members(
                crate::broadcast::MessageTypeView::Topology(body),
            ),
        }
    }

    /// A body is read as the first of the protocols that reads it.
    open spec fn parse(body: JsonModel) -> Option<MessageTypeView> {
        match crate::echo::MessageType::parse(body) {
            Some(kind) => Some(MessageTypeView::Echo(kind->Echo_0)),
            None => match crate::MessageType::parse(body) {
                Some(kind) => Some(MessageTypeView::Init(kind->Init_0)),
                None => match crate::unique_ids::MessageType::parse(body) {
                    Some(kind) => Some(MessageTypeView::Generate),
                    None => match crate::broadcast::MessageType::parse(body) {
                        Some(crate::broadcast::MessageTypeView::Broadcast(b)) => Some(
                            MessageTypeView::Broadcast(b),
                        ),
                        Some(crate::broadcast::MessageTypeView::Read) => Some(
                            MessageTypeView::Read,
                        ),
                        Some(crate::broadcast::MessageTypeView::Topology(t)) => Some(
                            MessageTypeView::Topology(t),
                        ),
                        None => None,
                    },
                },
            },
        }
    }

    proof fn lemma_parse_members(kind: MessageTypeView, behind: Seq<(Seq<char>, JsonModel)>) {
        lemma_tags();
        lemma_echo_names();
        lemma_handshake_names();
        lemma_generate_names();
        lemma_broadcast_names();
        let members = Self::members(kind);
        lemma_member_found(members, behind, "type"@, 0);
        match kind {
            MessageTypeView::Echo(body) => {
                crate::echo::MessageType::lemma_parse_members(
                    crate::echo::MessageTypeView::Echo(body),
                    behind,
                );
            },
            MessageTypeView::Init(body) => {
                crate::MessageType::lemma_parse_members(crate::MessageTypeView::Init(body), behind);
            },
            MessageTypeView::Generate => {
                crate::unique_ids::MessageType::lemma_parse_members(
                    crate::unique_ids::MessageType::Generate,
                    behind,
                );
            },
            MessageTypeView::Broadcast(body) => {
                crate::broadcast::MessageType::lemma_parse_members(
                    crate::broadcast::MessageTypeView::Broadcast(body),
                    behind,
                );
            },
            MessageTypeView::Read => {
                crate::broadcast::MessageType::lemma_parse_members(
                    crate::broadcast::MessageTypeView::Read,
                    behind,
                );
            },
            MessageTypeView::Topology(body) => {
                crate::broadcast::MessageType::lemma_parse_members(
                    crate::broadcast::MessageTypeView::Topology(body),
                    behind,
                );
            },
        }
    }

    fn encode(&self) -> (r: Vec<(String, Json)>) {
        match self {
            MessageType::Echo(body) => encode_echo("echo", &body.echo),
            MessageType::Init(body) => {
                let mut members = tagged("init");
                put(&mut members, "node_id", Json::Text(body.node_id.clone()));
                put(&mut members, "node_ids", encode_texts(&body.node_ids));
                assert(fields_model(members@) =~= Self::members(self@));
                members
            },
            MessageType::Generate => tagged("generate"),
            MessageType::Broadcast(body) => {
                let mut members = tagged("broadcast");
                put(&mut members, "message", Json::Number(body.message));
                assert(fields_model(members@) =~= Self::members(self@));
                members
            },
            MessageType::Read => tagged("read"),
            MessageType::Topology(body) => {
                let mut members = tagged("topology");
                put(&mut members, "topology", encode_topology(&body.topology));
                assert(fields_model(members@) =~= Self::members(self@));
                members
            },
        }
    }

    fn decode(body: &Json) -> (r: Option<Self>) {
        if let Some(crate::echo::MessageType::Echo(b)) = crate::echo::MessageType::decode(body) {
            return Some(MessageType::Echo(b));
        }
        if let Some(crate::MessageType::Init(b)) = crate::MessageType::decode(body) {
            return Some(MessageType::Init(b));
        }
        if let Some(_) = crate::unique_ids::MessageType::decode(body) {
            return Some(MessageType::Generate);
        }
        match crate::broadcast::MessageType::decode(body) {
            Some(crate::broadcast::MessageType::Broadcast(b)) => Some(MessageType::Broadcast(b)),
            Some(crate::broadcast::MessageType::Read) => Some(MessageType::Read),
            Some(crate::broadcast::MessageType::Topology(t)) => Some(MessageType::Topology(t)),
            None => None,
        }
    }
}

impl Payload for ResponseType {
    /// Each kind is written as the node of its protocol writes it.
    open spec fn members(kind: ResponseTypeView) -> Seq<(Seq<char>, JsonModel)> {
        match kind {
            ResponseTypeView::EchoOk(body) => crate::echo::ResponseType::members(
                crate::echo::ResponseTypeView::EchoOk(body),
            ),
            ResponseTypeView::InitOk => crate::ResponseType::members(crate::ResponseType::InitOk),
            ResponseTypeView::GenerateOk(body) => crate::unique_ids::ResponseType::members(
                crate::unique_ids::ResponseTypeView::GenerateOk(body),
            ),
            ResponseTypeView::BroadcastOk => crate::broadcast::ResponseType::members(
                crate::broadcast::ResponseTypeView::BroadcastOk,
            ),
            ResponseTypeView::ReadOk(body) => crate::broadcast::ResponseType::members(
                crate::broadcast::ResponseTypeView::ReadOk(body),
            ),
            ResponseTypeView::TopologyOk => crate::broadcast::ResponseType::members(
                crate::broadcast::ResponseTypeView::TopologyOk,
            ),
        }
    }

    /// A body is read as the first of the protocols that reads it.
    open spec fn parse(body: JsonModel) -> Option<ResponseTypeView> {
        match crate::echo::ResponseType::parse(body) {
            Some(kind) => Some(ResponseTypeView::EchoOk(kind->EchoOk_0)),
            None => match crate::ResponseType::parse(body) {
                Some(kind) => Some(ResponseTypeView::InitOk),
                None => match crate::unique_ids::ResponseType::parse(body) {
                    Some(kind) => Some(ResponseTypeView::GenerateOk(kind->GenerateOk_0)),
                    None => match crate::broadcast::ResponseType::parse(body) {
                        Some(crate::broadcast::ResponseTypeView::BroadcastOk) => Some(
                            ResponseTypeView::BroadcastOk,
                        ),
                        Some(crate::broadcast::ResponseTypeView::ReadOk(b)) => Some(
                            ResponseTypeView::ReadOk(b),
                        ),
                        Some(crate::broadcast::ResponseTypeView::TopologyOk) => Some(
                            ResponseTypeView::TopologyOk,
                        ),
                        None => None,
                    },
                },
            },
        }
    }

    proof fn lemma_parse_members(kind: ResponseTypeView, behind: Seq<(Seq<char>, JsonModel)>) {
        lemma_tags();
        lemma_echo_names();
        lemma_handshake_names();
        lemma_generate_names();
        lemma_broadcast_names();
        let members = Self::members(kind);
        lemma_member_found(members, behind, "type"@, 0);
        match kind {
            ResponseTypeView::EchoOk(body) => {
                crate::echo::ResponseType::lemma_parse_members(
                    crate::echo::ResponseTypeView::EchoOk(body),
                    behind,
                );
            },
            ResponseTypeView::InitOk => {
                crate::ResponseType::lemma_parse_members(crate::ResponseType::InitOk, behind);
            },
            ResponseTypeView::GenerateOk(body) => {
                crate::unique_ids::ResponseType::lemma_parse_members(
                    crate::unique_ids::ResponseTypeView::GenerateOk(body),
                    behind,
                );
            },
            ResponseTypeView::BroadcastOk => {
                crate::broadcast::ResponseType::lemma_parse_members(
                    crate::broadcast::ResponseTypeView::BroadcastOk,
                    behind,
                );
            },
            ResponseTypeView::ReadOk(body) => {
                crate::broadcast::ResponseType::lemma_parse_members(
                    crate::broadcast::ResponseTypeView::ReadOk(body),
                    behind,
                );
            },
            ResponseTypeView::TopologyOk => {
                crate::broadcast::ResponseType::lemma_parse_members(
                    crate::broadcast::ResponseTypeView::TopologyOk,
                    behind,
                );
            },
        }
    }

    fn encode(&self) -> (r: Vec<(String, Json)>) {
        match self {
            ResponseType::EchoOk(body) => encode_echo("echo_ok", &body.echo),
            ResponseType::InitOk => tagged("init_ok"),
            ResponseType::GenerateOk(body) => {
                let mut members = tagged("generate_ok");
                put(&mut members, "id", Json::Text(body.id.clone()));
                assert(fields_model(members@) =~= Self::members(self@));
                members
            },
            ResponseType::BroadcastOk => tagged("broadcast_ok"),
            ResponseType::ReadOk(body) => {
                let mut members = tagged("read_ok");
                put(&mut members, "messages", encode_numbers(&body.messages));
                assert(fields_model(members@) =~= Self::members(self@));
                members
            },
            ResponseType::TopologyOk => tagged("topology_ok"),
        }
    }

    fn decode(body: &Json) -> (r: Option<Self>) {
        if let Some(crate::echo::ResponseType::EchoOk(b)) = crate::echo::ResponseType::decode(body) {
            return Some(ResponseType::EchoOk(b));
        }
        if let Some(_) = crate::ResponseType::decode(body) {
            return Some(ResponseType::InitOk);
        }
        if let Some(crate::unique_ids::ResponseType::GenerateOk(b)) =
            crate::unique_ids::ResponseType::decode(body) {
            return Some(ResponseType::GenerateOk(b));
        }
        match crate::broadcast::ResponseType::decode(body) {
            Some(crate::broadcast::ResponseType::BroadcastOk) => Some(ResponseType::BroadcastOk),
            Some(crate::broadcast::ResponseType::ReadOk(b)) => Some(ResponseType::ReadOk(b)),
            Some(crate::broadcast::ResponseType::TopologyOk) => Some(ResponseType::TopologyOk),
            None => None,
        }
    }
}

/// A node after the handshake.
#[derive(Debug, PartialEq)]
pub struct InitializedState {
    pub msg_id: MessageID,
    pub node_id: String,
    pub node_ids: Vec<String>,
    pub neighbours: Vec<String>,
    pub messages: SeenValues,
}

/// The value of a [`InitializedState`].
pub struct InitializedStateView {
    pub msg_id: MessageID,
    pub node_id: Seq<char>,
    pub node_ids: Seq<Seq<char>>,
    pub neighbours: Seq<Seq<char>>,
    pub messages: Seq<u64>,
}

impl View for InitializedState {
    type V = InitializedStateView;

    open spec fn view(&self) -> InitializedStateView {
        InitializedStateView {
            msg_id: self.msg_id,
            node_id: self.node_id@,
            node_ids: names(self.node_ids@),
            neighbours: names(self.neighbours@),
            messages: self.messages@,
        }
    }
}

/// A node before the handshake.
#[derive(Debug, PartialEq)]
pub struct UninitializedState {
    pub msg_id: MessageID,
}

impl UninitializedState {
    /// The node that the handshake makes of this one: it keeps the
    /// identifier, has every other member for a neighbour and has seen
    /// nothing.
    pub fn init(&mut self, node_id: String, node_ids: Vec<String>) -> (state: InitializedState)
        ensures
            *final(self) == *old(self),
            state@ == initialized(old(self).msg_id, node_id@, names(node_ids@)),
    {
        let neighbours = peers(&node_ids, &node_id);
        InitializedState {
            msg_id: self.msg_id,
            node_id,
            neighbours,
            node_ids,
            messages: SeenValues::new(),
        }
    }
}

/// The state that the handshake leads to.
pub open spec fn initialized(
    msg_id: MessageID,
    node_id: Seq<char>,
    node_ids: Seq<Seq<char>>,
) -> InitializedStateView {
    InitializedStateView {
        msg_id,
        node_id,
        node_ids,
        neighbours: others(node_ids, node_id),
        messages: Seq::empty(),
    }
}

/// The two states of a node.
#[derive(Debug, PartialEq)]
pub enum State {
    Initialized(InitializedState),
    Uninitialized(UninitializedState),
}

/// The value of a [`State`].
pub enum StateView {
    Initialized(InitializedStateView),
    Uninitialized(UninitializedState),
}

impl View for State {
    type V = StateView;

    open spec fn view(&self) -> StateView {
        match self {
            State::Initialized(state) => StateView::Initialized(state@),
            State::Uninitialized(state) => StateView::Uninitialized(*state),
        }
    }
}

/// What the node sends: broadcasts to neighbours and responses.
pub type Sent = Outbound<MessageType, ResponseType>;

/// The value of a [`Sent`].
pub type SentView = OutboundView<MessageTypeView, ResponseTypeView>;

/// The forwards of a value: one request for each neighbour, in order, with
/// no identifier.
pub open spec fn forwards(node_id: Seq<char>, neighbours: Seq<Seq<char>>, value: u64) -> Seq<
    SentView,
> {
    Seq::new(
        neighbours.len(),
        |i: int|
            OutboundView::Request(
                MessageView {
                    src: node_id,
                    dst: neighbours[i],
                    body: MessageBodyView {
                        kind: MessageTypeView::Broadcast(BroadcastBody { message: value }),
                        msg_id: None,
                    },
                },
            ),
    )
}

/// The one response of kind `kind` to `message`, under the node's next
/// identifier.
pub open spec fn one_reply(
    before: InitializedStateView,
    message: MessageView<MessageTypeView>,
    kind: ResponseTypeView,
) -> Seq<SentView> {
    seq![OutboundView::Reply(answer(before.node_id, before.msg_id, message, kind))]
}

/// An initialized node after a request, and what it sent; `id` is the
/// identifier to hand out, should the request ask for one.
///
/// Every response takes the node's next identifier. A broadcast is
/// acknowledged only where it carries an identifier of its own, and goes on
/// to every neighbour where its value is new. A second initialization is an
/// error; so is a response that is due when no identifier is left. An error
/// changes nothing.
pub open spec fn served(
    before: InitializedStateView,
    message: MessageView<MessageTypeView>,
    id: Seq<char>,
) -> (InitializedStateView, Result<Seq<SentView>, NodeError>) {
    let replies = !(message.body.kind is Broadcast && message.body.msg_id is None);
    if message.body.kind is Init {
        (before, Err(NodeError::AlreadyInitialized))
    } else if replies && !has_next(before.msg_id) {
        (before, Err(NodeError::IdentifiersExhausted))
    } else {
        let next_id = if replies {
            (before.msg_id + 1) as u64
        } else {
            before.msg_id
        };
        let after = InitializedStateView { msg_id: next_id, ..before };
        match message.body.kind {
            MessageTypeView::Echo(body) => (
                after,
                Ok(one_reply(before, message, ResponseTypeView::EchoOk(body))),
            ),
            MessageTypeView::Generate => (
                after,
                Ok(
                    one_reply(
                        before,
                        message,
                        ResponseTypeView::GenerateOk(GenerateOkBodyView { id }),
                    ),
                ),
            ),
            MessageTypeView::Broadcast(body) => (
                InitializedStateView { messages: inserted(before.messages, body.message), ..after },
                Ok(
                    (if before.messages.contains(body.message) {
                        Seq::empty()
                    } else {
                        forwards(before.node_id, before.neighbours, body.message)
                    }) + (if replies {
                        one_reply(before, message, ResponseTypeView::BroadcastOk)
                    } else {
                        Seq::empty()
                    }),
                ),
            ),
            MessageTypeView::Read => (
                after,
                Ok(
                    one_reply(
                        before,
                        message,
                        ResponseTypeView::ReadOk(ReadOkBodyView { messages: before.messages }),
                    ),
                ),
            ),
            MessageTypeView::Topology(body) => (
                InitializedStateView {
                    neighbours: match neighbours_in(body.topology, before.node_id) {
                        Some(neighbours) => neighbours,
                        None => before.neighbours,
                    },
                    ..after
                },
                Ok(one_reply(before, message, ResponseTypeView::TopologyOk)),
            ),
            MessageTypeView::Init(_) => (before, Err(NodeError::AlreadyInitialized)),
        }
    }
}

/// The acknowledgement of the handshake: from the new node to the sender,
/// with no identifier of its own.
pub open spec fn welcome(node_id: Seq<char>, message: MessageView<MessageTypeView>) -> SentView {
    OutboundView::Reply(
        ResponseView {
            src: node_id,
            dst: message.src,
            body: ResponseBodyView {
                kind: ResponseTypeView::InitOk,
                msg_id: None,
                in_reply_to: message.body.msg_id,
            },
        },
    )
}

/// The state machine: a node that is not initialized takes an
/// initialization and nothing else; an initialized node serves every other
/// request.
pub open spec fn advanced(
    before: StateView,
    message: MessageView<MessageTypeView>,
    id: Seq<char>,
) -> (StateView, Result<Seq<SentView>, NodeError>) {
    match before {
        StateView::Uninitialized(state) => match message.body.kind {
            MessageTypeView::Init(body) => (
                StateView::Initialized(initialized(state.msg_id, body.node_id, body.node_ids)),
                Ok(seq![welcome(body.node_id, message)]),
            ),
            _ => (before, Err(NodeError::NotInitialized)),
        },
        StateView::Initialized(state) => {
            let (after, out) = served(state, message, id);
            (StateView::Initialized(after), out)
        },
    }
}

impl InitializedState {
    fn forward(&self, value: u64) -> (out: Vec<Sent>)
        ensures
            views(out@) == forwards(self@.node_id, self@.neighbours, value),
    {
        let mut out: Vec<Sent> = Vec::new();
        let mut i: usize = 0;
        while i < self.neighbours.len()
            invariant
                i <= self.neighbours@.len(),
                out@.len() == i,
                views(out@) =~= forwards(self@.node_id, self@.neighbours, value).take(i as int),
            decreases self.neighbours@.len() - i,
        {
            let ghost old_out = out@;
            out.push(
                Outbound::Request(
                    Message {
                        src: self.node_id.clone(),
                        dst: self.neighbours[i].clone(),
                        body: MessageBody {
                            kind: MessageType::Broadcast(BroadcastBody { message: value }),
                            msg_id: None,
                        },
                    },
                ),
            );
            proof {
                let all = forwards(self@.node_id, self@.neighbours, value);
                assert(out@[i as int]@ == all[i as int]);
                assert forall|k: int| 0 <= k < i implies views(out@)[k] == all[k] by {
                    assert(out@[k] == old_out[k]);
                    assert(views(old_out)[k] == all.take(i as int)[k]);
                }
            }
            i += 1;
        }
        assert(views(out@) =~= forwards(self@.node_id, self@.neighbours, value));
        out
    }

    fn reply(&self, dst: String, in_reply_to: Option<MessageID>, kind: ResponseType) -> (out: Sent)
        ensures
            out@ == OutboundView::<MessageTypeView, ResponseTypeView>::Reply(
                ResponseView {
                    src: self@.node_id,
                    dst: dst@,
                    body: ResponseBodyView { kind: kind@, msg_id: Some(self.msg_id), in_reply_to },
                },
            ),
    {
        Outbound::Reply(
            Response {
                src: self.node_id.clone(),
                dst,
                body: ResponseBody { kind, msg_id: Some(self.msg_id), in_reply_to },
            },
        )
    }

    /// Serves one request; `id` is the identifier to hand out, should the
    /// request ask for one.
    pub fn serve(&mut self, message: Message<MessageType>, id: String) -> (r: Result<
        Vec<Sent>,
        NodeError,
    >)
        ensures
            (final(self)@, emitted(r)) == served(old(self)@, message@, id@),
    {
        let replies = match &message.body.kind {
            MessageType::Broadcast(_) => message.body.msg_id.is_some(),
            _ => true,
        };
        if let MessageType::Init(_) = &message.body.kind {
            return Err(NodeError::AlreadyInitialized);
        }
        if replies && self.msg_id == u64::MAX {
            return Err(NodeError::IdentifiersExhausted);
        }
        let ghost expected = served(old(self)@, message@, id@);
        let mut out: Vec<Sent> = Vec::new();
        match message.body.kind {
            MessageType::Echo(body) => {
                let kind = ResponseType::EchoOk(EchoOkBody { echo: body.echo });
                out.push(self.reply(message.src, message.body.msg_id, kind));
            },
            MessageType::Generate => {
                let kind = ResponseType::GenerateOk(GenerateOkBody { id });
                out.push(self.reply(message.src, message.body.msg_id, kind));
            },
            MessageType::Broadcast(body) => {
                if self.messages.insert(body.message) {
                    out = self.forward(body.message);
                }
                if replies {
                    out.push(self.reply(message.src, message.body.msg_id, ResponseType::BroadcastOk));
                }
            },
            MessageType::Read => {
                let kind = ResponseType::ReadOk(ReadOkBody { messages: self.messages.values() });
                out.push(self.reply(message.src, message.body.msg_id, kind));
            },
            MessageType::Topology(body) => {
                out.push(self.reply(message.src, message.body.msg_id, ResponseType::TopologyOk));
                if let Some(neighbours) = find_neighbours(&body.topology, &self.node_id) {
                    self.neighbours = neighbours;
                }
            },
            MessageType::Init(_) => {},
        }
        if replies {
            self.msg_id += 1;
        }
        assert(views(out@) =~= expected.1->Ok_0);
        Ok(out)
    }
}

impl State {
    /// A node before the handshake; its first identifier will be 1.
    pub fn new() -> (state: Self)
        ensures
            state == State::Uninitialized(UninitializedState { msg_id: 1 }),
    {
        State::Uninitialized(UninitializedState { msg_id: 1 })
    }

    /// Takes one request; `id` is the identifier to hand out, should the
    /// request ask for one.
    pub fn advance(self, message: Message<MessageType>, id: String) -> (r: (
        State,
        Result<Vec<Sent>, NodeError>,
    ))
        ensures
            (r.0@, emitted(r.1)) == advanced(self@, message@, id@),
    {
        match self {
            State::Uninitialized(mut state) => match message.body.kind {
                MessageType::Init(body) => {
                    let ghost expected = advanced(self@, message@, id@);
                    let next = state.init(body.node_id, body.node_ids);
                    let reply = Response {
                        src: next.node_id.clone(),
                        dst: message.src,
                        body: ResponseBody {
                            kind: ResponseType::InitOk,
                            msg_id: None,
                            in_reply_to: message.body.msg_id,
                        },
                    };
                    let mut out: Vec<Sent> = Vec::new();
                    out.push(Outbound::Reply(reply));
                    assert(views(out@) =~= expected.1->Ok_0);
                    (State::Initialized(next), Ok(out))
                },
                _ => (State::Uninitialized(state), Err(NodeError::NotInitialized)),
            },
            State::Initialized(mut state) => {
                let r = state.serve(message, id);
                (State::Initialized(state), r)
            },
        }
    }

    /// Takes one request, and draws a fresh identifier where the request
    /// asks for one: the outcome is that of `advance` with some identifier.
    pub fn handle(self, message: Message<MessageType>) -> (r: (State, Result<Vec<Sent>, NodeError>))
        ensures
            exists|id: Seq<char>| (r.0@, emitted(r.1)) == #[trigger] advanced(self@, message@, id),
    {
        let id = match &message.body.kind {
            MessageType::Generate => fresh_id(),
            _ => String::new(),
        };
        let ghost chosen = id@;
        let r = self.advance(message, id);
        assert((r.0@, emitted(r.1)) == advanced(self@, message@, chosen));
        r
    }
}

} // verus!
