//! The unique-identifier node: every request is answered with a fresh
//! identifier.

use crate::json::{fields_model, Json, JsonModel};
use crate::wire::{get_text, same_text, lemma_member_found, put, tag, tagged, text_field, Payload};
use crate::{
    answer, has_next, views, InitBody, InitBodyView, Message, MessageID, MessageView, Node,
    NodeError, Outbound, OutboundView, Response, ResponseBody,
};
use vstd::prelude::*;

verus! {

/// The requests of the node.
#[derive(Debug, PartialEq)]
pub enum MessageType {
    Generate,
}

impl View for MessageType {
    type V = MessageType;

    open spec fn view(&self) -> MessageType {
        *self
    }
}

/// An identifier, in its hyphenated text form.
#[derive(Debug, PartialEq)]
pub struct GenerateOkBody {
    pub id: String,
}

/// The value of a [`GenerateOkBody`].
pub struct GenerateOkBodyView {
    pub id: Seq<char>,
}

impl View for GenerateOkBody {
    type V = GenerateOkBodyView;

    open spec fn view(&self) -> GenerateOkBodyView {
        GenerateOkBodyView { id: self.id@ }
    }
}

/// The responses of the node.
#[derive(Debug, PartialEq)]
pub enum ResponseType {
    GenerateOk(GenerateOkBody),
}

/// The value of a [`ResponseType`].
pub enum ResponseTypeView {
    GenerateOk(GenerateOkBodyView),
}

impl View for ResponseType {
    type V = ResponseTypeView;

    open spec fn view(&self) -> ResponseTypeView {
        match self {
            ResponseType::GenerateOk(body) => ResponseTypeView::GenerateOk(body@),
        }
    }
}

/// The lengths of the names that the node writes.
pub proof fn lemma_generate_names()
    ensures
        "type"@.len() == 4,
        "id"@.len() == 2,
        "generate"@.len() == 8,
        "generate_ok"@.len() == 11,
        "msg_id"@.len() == 6,
        "in_reply_to"@.len() == 11,
{
    reveal_strlit("type");
    reveal_strlit("id");
    reveal_strlit("generate");
    reveal_strlit("generate_ok");
    reveal_strlit("msg_id");
    reveal_strlit("in_reply_to");
}

impl Payload for MessageType {
    open spec fn members(kind: MessageType) -> Seq<(Seq<char>, JsonModel)> {
        seq![("type"@, JsonModel::Text("generate"@))]
    }

    open spec fn parse(body: JsonModel) -> Option<MessageType> {
        if tag(body) == Some("generate"@) {
            Some(MessageType::Generate)
        } else {
            None
        }
    }

    proof fn lemma_parse_members(kind: MessageType, behind: Seq<(Seq<char>, JsonModel)>) {
        lemma_generate_names();
        lemma_member_found(Self::members(kind), behind, "type"@, 0);
    }

    fn encode(&self) -> (r: Vec<(String, Json)>) {
        tagged("generate")
    }

    fn decode(body: &Json) -> (r: Option<Self>) {
        match get_text(body, "type") {
            Some(name) => if same_text(&name, "generate") {
                Some(MessageType::Generate)
            } else {
                None
            },
            None => None,
        }
    }
}

impl Payload for ResponseType {
    open spec fn members(kind: ResponseTypeView) -> Seq<(Seq<char>, JsonModel)> {
        seq![
            ("type"@, JsonModel::Text("generate_ok"@)),
            ("id"@, JsonModel::Text(kind->GenerateOk_0.id)),
        ]
    }

    open spec fn parse(body: JsonModel) -> Option<ResponseTypeView> {
        match (tag(body), text_field(body, "id"@)) {
            (Some(name), Some(id)) => if name == "generate_ok"@ {
                Some(ResponseTypeView::GenerateOk(GenerateOkBodyView { id }))
            } else {
                None
            },
            _ => None,
        }
    }

    proof fn lemma_parse_members(kind: ResponseTypeView, behind: Seq<(Seq<char>, JsonModel)>) {
        lemma_generate_names();
        lemma_member_found(Self::members(kind), behind, "type"@, 0);
        lemma_member_found(Self::members(kind), behind, "id"@, 1);
    }

    fn encode(&self) -> (r: Vec<(String, Json)>) {
        match self {
            ResponseType::GenerateOk(body) => {
                let mut members = tagged("generate_ok");
                put(&mut members, "id", Json::Text(body.id.clone()));
                assert(fields_model(members@) =~= Self::members(self@));
                members
            },
        }
    }

    fn decode(body: &Json) -> (r: Option<Self>) {
        let name = match get_text(body, "type") {
            Some(s) => s,
            None => {
                return None;
            },
        };
        let id = match get_text(body, "id") {
            Some(s) => s,
            None => {
                return None;
            },
        };
        if same_text(&name, "generate_ok") {
            Some(ResponseType::GenerateOk(GenerateOkBody { id }))
        } else {
            None
        }
    }
}

/// Draws a version 7 identifier with `uuid::Uuid::now_v7` and writes it with
/// its `Display`, the hyphenated lower-case form. The identifier depends on
/// the clock and on chance, so the contract states only the length of that
/// form: 32 digits and 4 hyphens.
#[verifier::external_body]
pub(crate) fn fresh_id() -> (id: String)
    ensures
        id@.len() == 36,
{
    uuid::Uuid::now_v7().to_string()
}

/// A node that hands out identifiers.
#[derive(Debug, PartialEq)]
pub struct UniqueIDNode {
    pub msg_id: MessageID,
    pub node_id: String,
}

/// The value of a [`UniqueIDNode`].
pub struct UniqueIDNodeView {
    pub msg_id: MessageID,
    pub node_id: Seq<char>,
}

impl View for UniqueIDNode {
    type V = UniqueIDNodeView;

    open spec fn view(&self) -> UniqueIDNodeView {
        UniqueIDNodeView { msg_id: self.msg_id, node_id: self.node_id@ }
    }
}

/// The node after a request that was answered with `id`, and what it sent:
/// one response, to the sender, under the node's next identifier; the error,
/// and no change, once the identifiers have run out.
pub open spec fn handed_out(
    before: UniqueIDNodeView,
    message: MessageView<MessageType>,
    id: Seq<char>,
) -> (UniqueIDNodeView, Result<Seq<OutboundView<MessageType, ResponseTypeView>>, NodeError>) {
    if has_next(before.msg_id) {
        (
            UniqueIDNodeView { msg_id: (before.msg_id + 1) as u64, ..before },
            Ok(
                seq![
                    OutboundView::Reply(
                        answer(
                            before.node_id,
                            before.msg_id,
                            message,
                            ResponseTypeView::GenerateOk(GenerateOkBodyView { id }),
                        ),
                    ),
                ],
            ),
        )
    } else {
        (before, Err(NodeError::IdentifiersExhausted))
    }
}

impl UniqueIDNode {
    /// Answers a request with the identifier `id`.
    pub fn on_message(&mut self, message: Message<MessageType>, id: String) -> (r: Result<
        Vec<Outbound<MessageType, ResponseType>>,
        NodeError,
    >)
        ensures
            (final(self)@, crate::emitted(r)) == handed_out(old(self)@, message@, id@),
    {
        if self.msg_id == u64::MAX {
            return Err(NodeError::IdentifiersExhausted);
        }
        let reply = Response {
            src: self.node_id.clone(),
            dst: message.src,
            body: ResponseBody {
                kind: ResponseType::GenerateOk(GenerateOkBody { id }),
                msg_id: Some(self.msg_id),
                in_reply_to: message.body.msg_id,
            },
        };
        self.msg_id += 1;
        let mut out: Vec<Outbound<MessageType, ResponseType>> = Vec::new();
        out.push(Outbound::Reply(reply));
        assert(views(out@) =~= handed_out(old(self)@, message@, id@).1->Ok_0);
        Ok(out)
    }
}

impl Node<MessageType> for UniqueIDNode {
    type Sent = MessageType;

    type Reply = ResponseType;

    open spec fn started(message: InitBodyView) -> UniqueIDNodeView {
        UniqueIDNodeView { msg_id: 1, node_id: message.node_id }
    }

    /// The request is answered with some identifier of 36 characters.
    open spec fn handles(
        before: UniqueIDNodeView,
        message: MessageView<MessageType>,
        after: UniqueIDNodeView,
        out: Result<Seq<OutboundView<MessageType, ResponseTypeView>>, NodeError>,
    ) -> bool {
        exists|id: Seq<char>|
            id.len() == 36 && (after, out) == #[trigger] handed_out(before, message, id)
    }

    fn init(message: InitBody) -> (node: Self) {
        Self { msg_id: 1, node_id: message.node_id }
    }

    fn handle(&mut self, message: Message<MessageType>) -> (r: Result<
        Vec<Outbound<MessageType, ResponseType>>,
        NodeError,
    >) {
        let id = fresh_id();
        let ghost chosen = id@;
        let r = self.on_message(message, id);
        assert((self@, crate::emitted(r)) == handed_out(old(self)@, message@, chosen));
        r
    }
}

} // verus!
