//! The echo node: every request comes back to its sender.

use crate::json::{fields_model, Json, JsonModel};
use crate::wire::{get_text, same_text, lemma_member_found, put, tag, tagged, text_field, Payload};
use crate::{
    answer, has_next, views, InitBody, InitBodyView, Message, MessageID, MessageView, Node,
    NodeError, Outbound, OutboundView, Response, ResponseBody,
};
use vstd::prelude::*;

verus! {

/// A text to send back.
#[derive(Debug, PartialEq)]
pub struct EchoBody {
    pub echo: String,
}

/// The value of a [`EchoBody`].
pub struct EchoBodyView {
    pub echo: Seq<char>,
}

impl View for EchoBody {
    type V = EchoBodyView;

    open spec fn view(&self) -> EchoBodyView {
        EchoBodyView { echo: self.echo@ }
    }
}

/// The requests of an echo node.
#[derive(Debug, PartialEq)]
pub enum MessageType {
    Echo(EchoBody),
}

/// The value of a [`MessageType`].
pub enum MessageTypeView {
    Echo(EchoBodyView),
}

impl View for MessageType {
    type V = MessageTypeView;

    open spec fn view(&self) -> MessageTypeView {
        match self {
            MessageType::Echo(body) => MessageTypeView::Echo(body@),
        }
    }
}

/// The text that was sent.
#[derive(Debug, PartialEq)]
pub struct EchoOkBody {
    pub echo: String,
}

impl View for EchoOkBody {
    type V = EchoBodyView;

    open spec fn view(&self) -> EchoBodyView {
        EchoBodyView { echo: self.echo@ }
    }
}

/// The responses of an echo node.
#[derive(Debug, PartialEq)]
pub enum ResponseType {
    EchoOk(EchoOkBody),
}

/// The value of a [`ResponseType`].
pub enum ResponseTypeView {
    EchoOk(EchoBodyView),
}

impl View for ResponseType {
    type V = ResponseTypeView;

    open spec fn view(&self) -> ResponseTypeView {
        match self {
            ResponseType::EchoOk(body) => ResponseTypeView::EchoOk(body@),
        }
    }
}

/// The lengths and first letters of the names that an echo writes.
pub proof fn lemma_echo_names()
    ensures
        "type"@.len() == 4,
        "type"@[0] == 't',
        "echo"@.len() == 4,
        "echo"@[0] == 'e',
        "echo_ok"@.len() == 7,
        "msg_id"@.len() == 6,
        "in_reply_to"@.len() == 11,
{
    reveal_strlit("type");
    reveal_strlit("echo");
    reveal_strlit("echo_ok");
    reveal_strlit("msg_id");
    reveal_strlit("in_reply_to");
}

/// The members of a body that carries a tag and the echoed text.
pub open spec fn echo_members(name: Seq<char>, echo: Seq<char>) -> Seq<(Seq<char>, JsonModel)> {
    seq![("type"@, JsonModel::Text(name)), ("echo"@, JsonModel::Text(echo))]
}

/// The echoed text of a body with the tag `name`.
pub open spec fn echo_of(body: JsonModel, name: Seq<char>) -> Option<Seq<char>> {
    match (tag(body), text_field(body, "echo"@)) {
        (Some(t), Some(echo)) => if t == name {
            Some(echo)
        } else {
            None
        },
        _ => None,
    }
}

proof fn lemma_echo_reads_back(
    name: Seq<char>,
    echo: Seq<char>,
    behind: Seq<(Seq<char>, JsonModel)>,
)
    requires
        forall|i: int| 0 <= i < behind.len() ==> crate::wire::is_header_key(#[trigger] behind[i].0),
    ensures
        forall|i: int|
            0 <= i < echo_members(name, echo).len() ==> !crate::wire::is_header_key(
                #[trigger] echo_members(name, echo)[i].0,
            ),
        echo_of(JsonModel::Object(echo_members(name, echo) + behind), name) == Some(echo),
{
    lemma_echo_names();
    lemma_member_found(echo_members(name, echo), behind, "type"@, 0);
    lemma_member_found(echo_members(name, echo), behind, "echo"@, 1);
}

pub(crate) fn encode_echo(name: &str, echo: &String) -> (r: Vec<(String, Json)>)
    ensures
        fields_model(r@) == echo_members(name@, echo@),
{
    let mut members = tagged(name);
    put(&mut members, "echo", Json::Text(echo.clone()));
    assert(fields_model(members@) =~= echo_members(name@, echo@));
    members
}

pub(crate) fn decode_echo(body: &Json, name: &str) -> (r: Option<String>)
    ensures
        match r {
            Some(echo) => echo_of(body@, name@) == Some(echo@),
            None => echo_of(body@, name@) is None,
        },
{
    let t = match get_text(body, "type") {
        Some(t) => t,
        None => {
            return None;
        },
    };
    let echo = match get_text(body, "echo") {
        Some(e) => e,
        None => {
            return None;
        },
    };
    if same_text(&t, name) {
        Some(echo)
    } else {
        None
    }
}

impl Payload for MessageType {
    open spec fn members(kind: MessageTypeView) -> Seq<(Seq<char>, JsonModel)> {
        echo_members("echo"@, kind->Echo_0.echo)
    }

    open spec fn parse(body: JsonModel) -> Option<MessageTypeView> {
        match echo_of(body, "echo"@) {
            Some(echo) => Some(MessageTypeView::Echo(EchoBodyView { echo })),
            None => None,
        }
    }

    proof fn lemma_parse_members(kind: MessageTypeView, behind: Seq<(Seq<char>, JsonModel)>) {
        lemma_echo_reads_back("echo"@, kind->Echo_0.echo, behind);
    }

    fn encode(&self) -> (r: Vec<(String, Json)>) {
        match self {
            MessageType::Echo(body) => encode_echo("echo", &body.echo),
        }
    }

    fn decode(body: &Json) -> (r: Option<Self>) {
        match decode_echo(body, "echo") {
            Some(echo) => Some(MessageType::Echo(EchoBody { echo })),
            None => None,
        }
    }
}

impl Payload for ResponseType {
    open spec fn members(kind: ResponseTypeView) -> Seq<(Seq<char>, JsonModel)> {
        echo_members("echo_ok"@, kind->EchoOk_0.echo)
    }

    open spec fn parse(body: JsonModel) -> Option<ResponseTypeView> {
        match echo_of(body, "echo_ok"@) {
            Some(echo) => Some(ResponseTypeView::EchoOk(EchoBodyView { echo })),
            None => None,
        }
    }

    proof fn lemma_parse_members(kind: ResponseTypeView, behind: Seq<(Seq<char>, JsonModel)>) {
        lemma_echo_reads_back("echo_ok"@, kind->EchoOk_0.echo, behind);
    }

    fn encode(&self) -> (r: Vec<(String, Json)>) {
        match self {
            ResponseType::EchoOk(body) => encode_echo("echo_ok", &body.echo),
        }
    }

    fn decode(body: &Json) -> (r: Option<Self>) {
        match decode_echo(body, "echo_ok") {
            Some(echo) => Some(ResponseType::EchoOk(EchoOkBody { echo })),
            None => None,
        }
    }
}

/// A node that answers each request with the text it was sent.
#[derive(Debug, PartialEq)]
pub struct EchoNode {
    pub msg_id: MessageID,
    pub node_id: String,
}

/// The value of a [`EchoNode`].
pub struct EchoNodeView {
    pub msg_id: MessageID,
    pub node_id: Seq<char>,
}

impl View for EchoNode {
    type V = EchoNodeView;

    open spec fn view(&self) -> EchoNodeView {
        EchoNodeView { msg_id: self.msg_id, node_id: self.node_id@ }
    }
}

impl Node<MessageType> for EchoNode {
    type Sent = MessageType;

    type Reply = ResponseType;

    open spec fn started(message: InitBodyView) -> EchoNodeView {
        EchoNodeView { msg_id: 1, node_id: message.node_id }
    }

    /// One response per request, to its sender, with the same text, under the
    /// node's next identifier; the error, and no change, once the identifiers
    /// have run out.
    open spec fn handles(
        before: EchoNodeView,
        message: MessageView<MessageTypeView>,
        after: EchoNodeView,
        out: Result<Seq<OutboundView<MessageTypeView, ResponseTypeView>>, NodeError>,
    ) -> bool {
        if has_next(before.msg_id) {
            &&& after == EchoNodeView { msg_id: (before.msg_id + 1) as u64, ..before }
            &&& out == Ok::<Seq<OutboundView<MessageTypeView, ResponseTypeView>>, NodeError>(
                seq![
                    OutboundView::Reply(
                        answer(
                            before.node_id,
                            before.msg_id,
                            message,
                            ResponseTypeView::EchoOk(message.body.kind->Echo_0),
                        ),
                    ),
                ],
            )
        } else {
            &&& after == before
            &&& out == Err::<Seq<OutboundView<MessageTypeView, ResponseTypeView>>, NodeError>(
                NodeError::IdentifiersExhausted,
            )
        }
    }

    fn init(message: InitBody) -> (node: Self) {
        Self { msg_id: 1, node_id: message.node_id }
    }

    fn handle(&mut self, message: Message<MessageType>) -> (r: Result<
        Vec<Outbound<MessageType, ResponseType>>,
        NodeError,
    >) {
        if self.msg_id == u64::MAX {
            return Err(NodeError::IdentifiersExhausted);
        }
        match message.body.kind {
            MessageType::Echo(body) => {
                let reply = Response {
                    src: self.node_id.clone(),
                    dst: message.src,
                    body: ResponseBody {
                        kind: ResponseType::EchoOk(EchoOkBody { echo: body.echo }),
                        msg_id: Some(self.msg_id),
                        in_reply_to: message.body.msg_id,
                    },
                };
                self.msg_id += 1;
                let mut out: Vec<Outbound<MessageType, ResponseType>> = Vec::new();
                out.push(Outbound::Reply(reply));
                assert(views(out@) =~= seq![
                    OutboundView::Reply(
                        answer(
                            old(self)@.node_id,
                            old(self)@.msg_id,
                            message@,
                            ResponseTypeView::EchoOk(message@.body.kind->Echo_0),
                        ),
                    ),
                ]);
                Ok(out)
            },
        }
    }
}

} // verus!
