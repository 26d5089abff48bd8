//! Node logic for a cluster whose members exchange line-delimited JSON
//! envelopes: the envelope codec, the request/reply runtime, and the
//! broadcast and counter strategies built on them.

pub mod broadcast;
pub mod conflict;
pub mod echo;
pub mod g_counter;
pub mod gossip;
pub mod json;
pub mod kv;
pub mod runtime;
pub mod state;
pub mod unique_ids;
pub mod wire;

use crate::json::{fields_model, Json, JsonModel};
use crate::wire::{
    decode_texts, encode_message, encode_response, encode_texts, get_number, get_text, same_text,
    lemma_member_found, lemma_text_list_reads_back, list_texts, message_document, number_field,
    put, response_document, tag, tagged, text_field, text_list, Payload,
};
use vstd::prelude::*;

verus! {

/// A node's local message identifier.
pub type MessageID = u64;

/// The names of a cluster's members, as plain sequences.
pub open spec fn names(ids: Seq<String>) -> Seq<Seq<char>> {
    Seq::new(ids.len(), |i: int| ids[i]@)
}

/// What an initialization request carries: this node's identifier and those
/// of all participants.
#[derive(Debug, PartialEq)]
pub struct InitBody {
    pub node_id: String,
    pub node_ids: Vec<String>,
}

/// The value of a [`InitBody`].
pub struct InitBodyView {
    pub node_id: Seq<char>,
    pub node_ids: Seq<Seq<char>>,
}

impl View for InitBody {
    type V = InitBodyView;

    open spec fn view(&self) -> InitBodyView {
        InitBodyView { node_id: self.node_id@, node_ids: names(self.node_ids@) }
    }
}

/// The requests of the handshake.
#[derive(Debug, PartialEq)]
pub enum MessageType {
    Init(InitBody),
}

/// The value of a [`MessageType`].
pub enum MessageTypeView {
    Init(InitBodyView),
}

impl View for MessageType {
    type V = MessageTypeView;

    open spec fn view(&self) -> MessageTypeView {
        match self {
            MessageType::Init(body) => MessageTypeView::Init(body@),
        }
    }
}

/// The lengths and first letters of the names that the handshake writes.
pub proof fn lemma_handshake_names()
    ensures
        "type"@.len() == 4,
        "type"@[0] == 't',
        "node_id"@.len() == 7,
        "node_ids"@.len() == 8,
        "msg_id"@.len() == 6,
        "in_reply_to"@.len() == 11,
{
    reveal_strlit("type");
    reveal_strlit("node_id");
    reveal_strlit("node_ids");
    reveal_strlit("msg_id");
    reveal_strlit("in_reply_to");
}

impl Payload for MessageType {
    open spec fn members(kind: MessageTypeView) -> Seq<(Seq<char>, JsonModel)> {
        match kind {
            MessageTypeView::Init(body) => seq![
                ("type"@, JsonModel::Text("init"@)),
                ("node_id"@, JsonModel::Text(body.node_id)),
                ("node_ids"@, text_list(body.node_ids)),
            ],
        }
    }

    open spec fn parse(body: JsonModel) -> Option<MessageTypeView> {
        match (tag(body), text_field(body, "node_id"@), body.field("node_ids"@)) {
            (Some(name), Some(node_id), Some(list)) => match list_texts(list) {
                Some(node_ids) => if name == "init"@ {
                    Some(MessageTypeView::Init(InitBodyView { node_id, node_ids }))
                } else {
                    None
                },
                None => None,
            },
            _ => None,
        }
    }

    proof fn lemma_parse_members(kind: MessageTypeView, behind: Seq<(Seq<char>, JsonModel)>) {
        lemma_handshake_names();
        let members = Self::members(kind);
        lemma_member_found(members, behind, "type"@, 0);
        lemma_member_found(members, behind, "node_id"@, 1);
        lemma_member_found(members, behind, "node_ids"@, 2);
        lemma_text_list_reads_back(kind->Init_0.node_ids);
    }

    fn encode(&self) -> (r: Vec<(String, Json)>) {
        match self {
            MessageType::Init(body) => {
                let mut members = tagged("init");
                put(&mut members, "node_id", Json::Text(body.node_id.clone()));
                put(&mut members, "node_ids", encode_texts(&body.node_ids));
                assert(fields_model(members@) =~= Self::members(self@));
                members
            },
        }
    }

    fn decode(body: &Json) -> (r: Option<Self>) {
        let name = match get_text(body, "type") {
            Some(s) => s,
            None => {
                return None;
            },
        };
        let node_id = match get_text(body, "node_id") {
            Some(s) => s,
            None => {
                return None;
            },
        };
        let list = match body.get("node_ids") {
            Some(l) => l,
            None => {
                return None;
            },
        };
        let node_ids = match decode_texts(list) {
            Some(ids) => ids,
            None => {
                return None;
            },
        };
        if same_text(&name, "init") {
            Some(MessageType::Init(InitBody { node_id, node_ids }))
        } else {
            None
        }
    }
}

/// The responses of the handshake.
#[derive(Debug, PartialEq)]
pub enum ResponseType {
    InitOk,
}

impl View for ResponseType {
    type V = ResponseType;

    open spec fn view(&self) -> ResponseType {
        *self
    }
}

impl Payload for ResponseType {
    open spec fn members(kind: ResponseType) -> Seq<(Seq<char>, JsonModel)> {
        seq![("type"@, JsonModel::Text("init_ok"@))]
    }

    open spec fn parse(body: JsonModel) -> Option<ResponseType> {
        if tag(body) == Some("init_ok"@) {
            Some(ResponseType::InitOk)
        } else {
            None
        }
    }

    proof fn lemma_parse_members(kind: ResponseType, behind: Seq<(Seq<char>, JsonModel)>) {
        lemma_handshake_names();
        lemma_member_found(Self::members(kind), behind, "type"@, 0);
    }

    fn encode(&self) -> (r: Vec<(String, Json)>) {
        tagged("init_ok")
    }

    fn decode(body: &Json) -> (r: Option<Self>) {
        match get_text(body, "type") {
            Some(name) => if same_text(&name, "init_ok") {
                Some(ResponseType::InitOk)
            } else {
                None
            },
            None => None,
        }
    }
}

/// The body of a request: its kind and, where a reply is expected, its
/// identifier.
#[derive(Debug, PartialEq)]
pub struct MessageBody<Type> {
    pub kind: Type,
    pub msg_id: Option<MessageID>,
}

/// The value of a [`MessageBody`].
pub struct MessageBodyView<Kind> {
    pub kind: Kind,
    pub msg_id: Option<MessageID>,
}

impl<Type: View> View for MessageBody<Type> {
    type V = MessageBodyView<Type::V>;

    open spec fn view(&self) -> MessageBodyView<Type::V> {
        MessageBodyView { kind: self.kind@, msg_id: self.msg_id }
    }
}

/// An envelope that carries a request.
#[derive(Debug, PartialEq)]
pub struct Message<Type> {
    pub src: String,
    pub dst: String,
    pub body: MessageBody<Type>,
}

/// The value of a [`Message`].
pub struct MessageView<Kind> {
    pub src: Seq<char>,
    pub dst: Seq<char>,
    pub body: MessageBodyView<Kind>,
}

impl<Type: View> View for Message<Type> {
    type V = MessageView<Type::V>;

    open spec fn view(&self) -> MessageView<Type::V> {
        MessageView { src: self.src@, dst: self.dst@, body: self.body@ }
    }
}

/// The body of a response: its kind, its own identifier and that of the
/// request it answers.
#[derive(Debug, PartialEq)]
pub struct ResponseBody<Type> {
    pub kind: Type,
    pub msg_id: Option<MessageID>,
    pub in_reply_to: Option<MessageID>,
}

/// The value of a [`ResponseBody`].
pub struct ResponseBodyView<Kind> {
    pub kind: Kind,
    pub msg_id: Option<MessageID>,
    pub in_reply_to: Option<MessageID>,
}

impl<Type: View> View for ResponseBody<Type> {
    type V = ResponseBodyView<Type::V>;

    open spec fn view(&self) -> ResponseBodyView<Type::V> {
        ResponseBodyView { kind: self.kind@, msg_id: self.msg_id, in_reply_to: self.in_reply_to }
    }
}

/// An envelope that carries a response.
#[derive(Debug, PartialEq)]
pub struct Response<Type> {
    pub src: String,
    pub dst: String,
    pub body: ResponseBody<Type>,
}

/// The value of a [`Response`].
pub struct ResponseView<Kind> {
    pub src: Seq<char>,
    pub dst: Seq<char>,
    pub body: ResponseBodyView<Kind>,
}

impl<Type: View> View for Response<Type> {
    type V = ResponseView<Type::V>;

    open spec fn view(&self) -> ResponseView<Type::V> {
        ResponseView { src: self.src@, dst: self.dst@, body: self.body@ }
    }
}

/// What an error response carries: a code and a text for people.
#[derive(Debug, PartialEq)]
pub struct ErrorBody {
    pub code: u64,
    pub text: String,
}

/// The value of a [`ErrorBody`].
pub struct ErrorBodyView {
    pub code: u64,
    pub text: Seq<char>,
}

impl View for ErrorBody {
    type V = ErrorBodyView;

    open spec fn view(&self) -> ErrorBodyView {
        ErrorBodyView { code: self.code, text: self.text@ }
    }
}

/// The one kind of an error response.
#[derive(Debug, PartialEq)]
pub enum ErrorMessageType {
    Error(ErrorBody),
}

/// The value of a [`ErrorMessageType`].
pub enum ErrorMessageTypeView {
    Error(ErrorBodyView),
}

impl View for ErrorMessageType {
    type V = ErrorMessageTypeView;

    open spec fn view(&self) -> ErrorMessageTypeView {
        match self {
            ErrorMessageType::Error(body) => ErrorMessageTypeView::Error(body@),
        }
    }
}

/// The lengths and first letters of the names that an error writes.
pub proof fn lemma_error_names()
    ensures
        "type"@.len() == 4,
        "type"@[0] == 't',
        "code"@.len() == 4,
        "code"@[0] == 'c',
        "text"@.len() == 4,
        "text"@[0] == 't',
        "text"@[1] == 'e',
        "type"@[1] == 'y',
        "error"@.len() == 5,
        "msg_id"@.len() == 6,
        "in_reply_to"@.len() == 11,
{
    reveal_strlit("type");
    reveal_strlit("code");
    reveal_strlit("text");
    reveal_strlit("error");
    reveal_strlit("msg_id");
    reveal_strlit("in_reply_to");
}

impl Payload for ErrorMessageType {
    open spec fn members(kind: ErrorMessageTypeView) -> Seq<(Seq<char>, JsonModel)> {
        seq![
            ("type"@, JsonModel::Text("error"@)),
            ("code"@, JsonModel::Number(kind->Error_0.code)),
            ("text"@, JsonModel::Text(kind->Error_0.text)),
        ]
    }

    open spec fn parse(body: JsonModel) -> Option<ErrorMessageTypeView> {
        match (tag(body), number_field(body, "code"@), text_field(body, "text"@)) {
            (Some(name), Some(code), Some(text)) => if name == "error"@ {
                Some(ErrorMessageTypeView::Error(ErrorBodyView { code, text }))
            } else {
                None
            },
            _ => None,
        }
    }

    proof fn lemma_parse_members(kind: ErrorMessageTypeView, behind: Seq<(Seq<char>, JsonModel)>) {
        lemma_error_names();
        let members = Self::members(kind);
        lemma_member_found(members, behind, "type"@, 0);
        lemma_member_found(members, behind, "code"@, 1);
        lemma_member_found(members, behind, "text"@, 2);
    }

    fn encode(&self) -> (r: Vec<(String, Json)>) {
        match self {
            ErrorMessageType::Error(body) => {
                let mut members = tagged("error");
                put(&mut members, "code", Json::Number(body.code));
                put(&mut members, "text", Json::Text(body.text.clone()));
                assert(fields_model(members@) =~= Self::members(self@));
                members
            },
        }
    }

    fn decode(body: &Json) -> (r: Option<Self>) {
        let name = match get_text(body, "type") {
            Some(s) => s,
            None => {
                return None;
            },
        };
        let code = match get_number(body, "code") {
            Some(n) => n,
            None => {
                return None;
            },
        };
        let text = match get_text(body, "text") {
            Some(s) => s,
            None => {
                return None;
            },
        };
        if same_text(&name, "error") {
            Some(ErrorMessageType::Error(ErrorBody { code, text }))
        } else {
            None
        }
    }
}

/// A response from one of the services that a node may call.
#[derive(Debug, PartialEq)]
pub enum Service {
    KeyValue(Response<crate::kv::ResponseType>),
}

/// Tells where the objects of a stream of JSON begin and end, so that every
/// outermost object is followed by a line break and no other is.
#[derive(Debug, PartialEq)]
pub struct JSONLFormatter {
    pub depth: usize,
}

impl Default for JSONLFormatter {
    fn default() -> (formatter: Self)
        ensures
            formatter.depth == 0,
    {
        JSONLFormatter { depth: 0 }
    }
}

impl JSONLFormatter {
    /// Goes one object deeper; the bytes to write are the opening brace.
    pub fn begin_object(&mut self) -> (bytes: Vec<u8>)
        requires
            old(self).depth < usize::MAX,
        ensures
            final(self).depth == old(self).depth + 1,
            bytes@ == seq![0x7bu8],
    {
        self.depth += 1;
        let mut bytes: Vec<u8> = Vec::new();
        bytes.push(0x7b);
        assert(bytes@ =~= seq![0x7bu8]);
        bytes
    }

    /// Leaves one object; the bytes to write are the closing brace and,
    /// where the object was an outermost one, a line break.
    pub fn end_object(&mut self) -> (bytes: Vec<u8>)
        requires
            old(self).depth > 0,
        ensures
            final(self).depth == old(self).depth - 1,
            bytes@ == if final(self).depth == 0 {
                seq![0x7du8, 0x0au8]
            } else {
                seq![0x7du8]
            },
    {
        self.depth -= 1;
        let mut bytes: Vec<u8> = Vec::new();
        bytes.push(0x7d);
        if self.depth == 0 {
            bytes.push(0x0a);
            assert(bytes@ =~= seq![0x7du8, 0x0au8]);
        } else {
            assert(bytes@ =~= seq![0x7du8]);
        }
        bytes
    }
}

/// An envelope on its way out: a request to a peer or a service, or a
/// response to a requester.
#[derive(Debug, PartialEq)]
pub enum Outbound<Sent, Reply> {
    Request(Message<Sent>),
    Reply(Response<Reply>),
}

/// The value of a [`Outbound`].
pub enum OutboundView<Sent, Reply> {
    Request(MessageView<Sent>),
    Reply(ResponseView<Reply>),
}

impl<Sent: View, Reply: View> View for Outbound<Sent, Reply> {
    type V = OutboundView<Sent::V, Reply::V>;

    open spec fn view(&self) -> OutboundView<Sent::V, Reply::V> {
        match self {
            Outbound::Request(m) => OutboundView::Request(m@),
            Outbound::Reply(r) => OutboundView::Reply(r@),
        }
    }
}

/// The document of an outbound envelope.
pub open spec fn outbound_document<Sent: Payload, Reply: Payload>(
    out: OutboundView<Sent::V, Reply::V>,
) -> JsonModel {
    match out {
        OutboundView::Request(m) => message_document::<Sent>(m),
        OutboundView::Reply(r) => response_document::<Reply>(r),
    }
}

/// Writes an outbound envelope as a document.
pub fn encode_outbound<Sent: Payload, Reply: Payload>(out: &Outbound<Sent, Reply>) -> (doc: Json)
    ensures
        doc@ == outbound_document::<Sent, Reply>(out@),
{
    match out {
        Outbound::Request(m) => encode_message(m),
        Outbound::Reply(r) => encode_response(r),
    }
}

/// The values of a sequence of items, in order.
pub open spec fn views<T: View>(items: Seq<T>) -> Seq<T::V> {
    Seq::new(items.len(), |i: int| items[i]@)
}

/// Why a node could not handle a message.
#[derive(Debug, PartialEq, Eq, Clone, Copy)]
pub enum NodeError {
    /// The next message identifier would not fit in 64 bits.
    IdentifiersExhausted,
    /// The counter would not fit in 64 bits.
    CounterOverflow,
    /// A request came before the node was initialized.
    NotInitialized,
    /// A second initialization came.
    AlreadyInitialized,
}

/// What handling a message gave: the envelopes to send, by their values, or
/// the error.
pub open spec fn emitted<Sent: View, Reply: View>(
    r: Result<Vec<Outbound<Sent, Reply>>, NodeError>,
) -> Result<Seq<OutboundView<Sent::V, Reply::V>>, NodeError> {
    match r {
        Ok(out) => Ok(views(out@)),
        Err(e) => Err(e),
    }
}

/// The next identifier after `id`, where there is one.
pub open spec fn has_next(id: MessageID) -> bool {
    id < u64::MAX
}

/// The response that a node `node_id` gives to `request`, under its own
/// identifier `msg_id`.
pub open spec fn answer<Asked, Kind>(
    node_id: Seq<char>,
    msg_id: MessageID,
    request: MessageView<Asked>,
    kind: Kind,
) -> ResponseView<Kind> {
    ResponseView {
        src: node_id,
        dst: request.src,
        body: ResponseBodyView { kind, msg_id: Some(msg_id), in_reply_to: request.body.msg_id },
    }
}

/// Node-specific logic: what a node is after the handshake, and what it does
/// with each request.
pub trait Node<Type: View>: View + Sized {
    /// The kinds of the requests that the node sends.
    type Sent: View;

    /// The kinds of its responses.
    type Reply: View;

    /// The node as the handshake leaves it.
    spec fn started(message: InitBodyView) -> Self::V;

    /// Whether handling `message` may take the node from `before` to `after`
    /// with the outcome `out`.
    spec fn handles(
        before: Self::V,
        message: MessageView<Type::V>,
        after: Self::V,
        out: Result<Seq<OutboundView<<Self::Sent as View>::V, <Self::Reply as View>::V>>, NodeError>,
    ) -> bool;

    fn init(message: InitBody) -> (node: Self)
        ensures
            node@ == Self::started(message@),
    ;

    fn handle(&mut self, message: Message<Type>) -> (r: Result<
        Vec<Outbound<Self::Sent, Self::Reply>>,
        NodeError,
    >)
        ensures
            Self::handles(old(self)@, message@, final(self)@, emitted(r)),
    ;
}

} // verus!
