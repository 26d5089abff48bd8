//! The counter that lives in the sequential key-value service: every add is
//! a compare-and-swap, tried again from the stored value until it applies.

use crate::conflict::{conflict_pattern, current_value, first_capture, revealed};
use crate::json::{fields_model, Json, JsonModel};
use crate::kv;
use crate::kv::{service_name, Sequential};
use crate::wire::{
    decode_message, decode_response, document_message, document_response, get_number, get_text,
 same_text, lemma_member_found, number_field, put, tag, tagged, text_field, Payload,
};
use crate::{
    emitted, has_next, views, ErrorMessageType, ErrorMessageTypeView, InitBody,
    InitBodyView, Message, MessageBodyView, MessageID, MessageView, Node, NodeError, Outbound,
    OutboundView, Response, ResponseBody, ResponseBodyView, ResponseView, Service,
};
use std::collections::HashMap;
use vstd::prelude::*;

verus! {

broadcast use vstd::std_specs::hash::group_hash_axioms;

/// The key under which the counter is stored.
pub open spec fn counter_key() -> Seq<char> {
    "counter"@
}

/// A read that waits for the service.
#[derive(Debug, PartialEq)]
pub struct ReadRequest {
    pub src: String,
    pub msg_id: Option<MessageID>,
}

/// The value of a [`ReadRequest`].
pub struct ReadRequestView {
    pub src: Seq<char>,
    pub msg_id: Option<MessageID>,
}

impl View for ReadRequest {
    type V = ReadRequestView;

    open spec fn view(&self) -> ReadRequestView {
        ReadRequestView { src: self.src@, msg_id: self.msg_id }
    }
}

/// An add that waits for the service.
#[derive(Debug, PartialEq)]
pub struct WriteRequest {
    pub src: String,
    pub msg_id: Option<MessageID>,
    pub delta: u64,
}

/// The value of a [`WriteRequest`].
pub struct WriteRequestView {
    pub src: Seq<char>,
    pub msg_id: Option<MessageID>,
    pub delta: u64,
}

impl View for WriteRequest {
    type V = WriteRequestView;

    open spec fn view(&self) -> WriteRequestView {
        WriteRequestView { src: self.src@, msg_id: self.msg_id, delta: self.delta }
    }
}

/// An amount to add to the counter.
#[derive(Debug, PartialEq)]
pub struct AddBody {
    pub delta: u64,
}

impl View for AddBody {
    type V = AddBody;

    open spec fn view(&self) -> AddBody {
        *self
    }
}

/// The value of the counter.
#[derive(Debug, PartialEq)]
pub struct ReadOkBody {
    pub value: u64,
}

impl View for ReadOkBody {
    type V = ReadOkBody;

    open spec fn view(&self) -> ReadOkBody {
        *self
    }
}

/// The responses of a counter node.
#[derive(Debug, PartialEq)]
pub enum ResponseType {
    AddOk,
    ReadOk(ReadOkBody),
}

impl View for ResponseType {
    type V = ResponseType;

    open spec fn view(&self) -> ResponseType {
        *self
    }
}

/// The requests of a counter node.
#[derive(Debug, PartialEq)]
pub enum MessageType {
    Add(AddBody),
    Read,
}

impl View for MessageType {
    type V = MessageType;

    open spec fn view(&self) -> MessageType {
        *self
    }
}

/// The lengths and first letters of the names that a counter reads and writes.
pub proof fn lemma_counter_names()
    ensures
        "type"@.len() == 4,
        "delta"@.len() == 5,
        "value"@.len() == 5,
        "add"@.len() == 3,
        "read"@.len() == 4,
        "add_ok"@.len() == 6,
        "read_ok"@.len() == 7,
        "msg_id"@.len() == 6,
        "in_reply_to"@.len() == 11,
{
    reveal_strlit("type");
    reveal_strlit("delta");
    reveal_strlit("value");
    reveal_strlit("add");
    reveal_strlit("read");
    reveal_strlit("add_ok");
    reveal_strlit("read_ok");
    reveal_strlit("msg_id");
    reveal_strlit("in_reply_to");
}

impl Payload for MessageType {
    open spec fn members(kind: MessageType) -> Seq<(Seq<char>, JsonModel)> {
        match kind {
            MessageType::Add(body) => seq![
                ("type"@, JsonModel::Text("add"@)),
                ("delta"@, JsonModel::Number(body.delta)),
            ],
            MessageType::Read => seq![("type"@, JsonModel::Text("read"@))],
        }
    }

    open spec fn parse(body: JsonModel) -> Option<MessageType> {
        match tag(body) {
            Some(name) => if name == "add"@ {
                match number_field(body, "delta"@) {
                    Some(delta) => Some(MessageType::Add(AddBody { delta })),
                    None => None,
                }
            } else if name == "read"@ {
                Some(MessageType::Read)
            } else {
                None
            },
            None => None,
        }
    }

    proof fn lemma_parse_members(kind: MessageType, behind: Seq<(Seq<char>, JsonModel)>) {
        lemma_counter_names();
        let members = Self::members(kind);
        lemma_member_found(members, behind, "type"@, 0);
        if kind is Add {
            lemma_member_found(members, behind, "delta"@, 1);
        }
    }

    fn encode(&self) -> (r: Vec<(String, Json)>) {
        match self {
            MessageType::Add(body) => {
                let mut members = tagged("add");
                put(&mut members, "delta", Json::Number(body.delta));
                assert(fields_model(members@) =~= Self::members(self@));
                members
            },
            MessageType::Read => tagged("read"),
        }
    }

    fn decode(body: &Json) -> (r: Option<Self>) {
        let name = match get_text(body, "type") {
            Some(s) => s,
            None => {
                return None;
            },
        };
        if same_text(&name, "add") {
            match get_number(body, "delta") {
                Some(delta) => Some(MessageType::Add(AddBody { delta })),
                None => None,
            }
        } else if same_text(&name, "read") {
            Some(MessageType::Read)
        } else {
            None
        }
    }
}

impl Payload for ResponseType {
    open spec fn members(kind: ResponseType) -> Seq<(Seq<char>, JsonModel)> {
        match kind {
            ResponseType::AddOk => seq![("type"@, JsonModel::Text("add_ok"@))],
            ResponseType::ReadOk(body) => seq![
                ("type"@, JsonModel::Text("read_ok"@)),
                ("value"@, JsonModel::Number(body.value)),
            ],
        }
    }

    open spec fn parse(body: JsonModel) -> Option<ResponseType> {
        match tag(body) {
            Some(name) => if name == "add_ok"@ {
                Some(ResponseType::AddOk)
            } else if name == "read_ok"@ {
                match number_field(body, "value"@) {
                    Some(value) => Some(ResponseType::ReadOk(ReadOkBody { value })),
                    None => None,
                }
            } else {
                None
            },
            None => None,
        }
    }

    proof fn lemma_parse_members(kind: ResponseType, behind: Seq<(Seq<char>, JsonModel)>) {
        lemma_counter_names();
        let members = Self::members(kind);
        lemma_member_found(members, behind, "type"@, 0);
        if kind is ReadOk {
            lemma_member_found(members, behind, "value"@, 1);
        }
    }

    fn encode(&self) -> (r: Vec<(String, Json)>) {
        match self {
            ResponseType::AddOk => tagged("add_ok"),
            ResponseType::ReadOk(body) => {
                let mut members = tagged("read_ok");
                put(&mut members, "value", Json::Number(body.value));
                assert(fields_model(members@) =~= Self::members(self@));
                members
            },
        }
    }

    fn decode(body: &Json) -> (r: Option<Self>) {
        let name = match get_text(body, "type") {
            Some(s) => s,
            None => {
                return None;
            },
        };
        if same_text(&name, "add_ok") {
            Some(ResponseType::AddOk)
        } else if same_text(&name, "read_ok") {
            match get_number(body, "value") {
                Some(value) => Some(ResponseType::ReadOk(ReadOkBody { value })),
                None => None,
            }
        } else {
            None
        }
    }
}

/// A node that keeps one counter in the key-value service.
#[derive(Debug, PartialEq)]
pub struct GrowOnlyCounterNode {
    pub msg_id: MessageID,
    pub node_id: String,
    pub reads: HashMap<MessageID, ReadRequest>,
    pub writes: HashMap<MessageID, WriteRequest>,
    pub last_read: u64,
    pub kv: Sequential,
}

/// The value of a [`GrowOnlyCounterNode`].
pub struct GrowOnlyCounterNodeView {
    pub msg_id: MessageID,
    pub node_id: Seq<char>,
    /// The reads in flight, by the identifier of the swap that stands for each.
    pub reads: Map<MessageID, ReadRequestView>,
    /// The adds in flight, by the identifier of their newest swap.
    pub writes: Map<MessageID, WriteRequestView>,
    /// The last value the service is known to have held.
    pub last_read: u64,
    /// The name under which the node calls the service.
    pub client: Seq<char>,
}

impl View for GrowOnlyCounterNode {
    type V = GrowOnlyCounterNodeView;

    open spec fn view(&self) -> GrowOnlyCounterNodeView {
        GrowOnlyCounterNodeView {
            msg_id: self.msg_id,
            node_id: self.node_id@,
            reads: self.reads@.map_values(|r: ReadRequest| r@),
            writes: self.writes@.map_values(|w: WriteRequest| w@),
            last_read: self.last_read,
            client: self.kv@,
        }
    }
}

/// What a counter node sends: swaps to the service and responses to clients.
pub type Sent = Outbound<kv::MessageType<u64>, ResponseType>;

/// The value of a [`Sent`].
pub type SentView = OutboundView<kv::MessageTypeView<u64>, ResponseType>;

/// The swap of the counter from `cached` to `to`, under the node's next
/// identifier; the key may be created where nothing is known to be stored.
pub open spec fn swap(before: GrowOnlyCounterNodeView, cached: u64, to: u64) -> SentView {
    OutboundView::Request(
        MessageView {
            src: before.client,
            dst: service_name(),
            body: MessageBodyView {
                kind: kv::MessageTypeView::CompareAndSwap(
                    kv::CompareAndSwapBodyView {
                        key: counter_key(),
                        from: cached,
                        to,
                        create_if_not_exists: cached == 0,
                    },
                ),
                msg_id: Some(before.msg_id),
            },
        },
    )
}

/// The response of kind `kind` to the client `dst`, under the node's next
/// identifier.
pub open spec fn reply(
    before: GrowOnlyCounterNodeView,
    dst: Seq<char>,
    in_reply_to: Option<MessageID>,
    kind: ResponseType,
) -> SentView {
    OutboundView::Reply(
        ResponseView {
            src: before.node_id,
            dst,
            body: ResponseBodyView { kind, msg_id: Some(before.msg_id), in_reply_to },
        },
    )
}

/// The identifier after the node's next one.
pub open spec fn next(before: GrowOnlyCounterNodeView) -> MessageID {
    (before.msg_id + 1) as u64
}

/// The node after a client's request, and what it sent.
///
/// An add of nothing is acknowledged at once. Any other add, and every read,
/// is noted under the node's next identifier and becomes a swap from the
/// cached value: to the cached value and the delta for an add, to itself
/// for a read. Where no identifier is left, or the sum does not fit in 64
/// bits, the result is the error and nothing changes.
pub open spec fn after_request(before: GrowOnlyCounterNodeView, message: MessageView<MessageType>) -> (
    GrowOnlyCounterNodeView,
    Result<Seq<SentView>, NodeError>,
) {
    if !has_next(before.msg_id) {
        (before, Err(NodeError::IdentifiersExhausted))
    } else {
        match message.body.kind {
            MessageType::Add(body) => if body.delta == 0 {
                (
                    GrowOnlyCounterNodeView { msg_id: next(before), ..before },
                    Ok(seq![reply(before, message.src, message.body.msg_id, ResponseType::AddOk)]),
                )
            } else if before.last_read + body.delta > u64::MAX {
                (before, Err(NodeError::CounterOverflow))
            } else {
                (
                    GrowOnlyCounterNodeView {
                        msg_id: next(before),
                        writes: before.writes.insert(
                            before.msg_id,
                            WriteRequestView {
                                src: message.src,
                                msg_id: message.body.msg_id,
                                delta: body.delta,
                            },
                        ),
                        ..before
                    },
                    Ok(
                        seq![
                            swap(
                                before,
                                before.last_read,
                                (before.last_read + body.delta) as u64,
                            ),
                        ],
                    ),
                )
            },
            MessageType::Read => (
                GrowOnlyCounterNodeView {
                    msg_id: next(before),
                    reads: before.reads.insert(
                        before.msg_id,
                        ReadRequestView { src: message.src, msg_id: message.body.msg_id },
                    ),
                    ..before
                },
                Ok(seq![swap(before, before.last_read, before.last_read)]),
            ),
        }
    }
}

/// The identifier that a response answers, where a request waits under it.
pub open spec fn waiting<V>(table: Map<MessageID, V>, in_reply_to: Option<MessageID>) -> Option<
    MessageID,
> {
    match in_reply_to {
        Some(id) => if table.contains_key(id) {
            Some(id)
        } else {
            None
        },
        None => None,
    }
}

/// The node after a response of the service, and what it sent.
///
/// A successful swap answers the add that waits under its identifier, or
/// else the read, the latter with the cached value. A value that the service
/// read raises the cache and answers the read that waits for it. The request
/// that was answered waits no longer. Where a response is due and no
/// identifier is left, the result is the error and nothing changes.
pub open spec fn after_service(
    before: GrowOnlyCounterNodeView,
    response: ResponseView<kv::ResponseType>,
) -> (GrowOnlyCounterNodeView, Result<Seq<SentView>, NodeError>) {
    match response.body.kind {
        kv::ResponseType::ReadOk(body) => {
            let value = match body.value {
                Some(v) => v,
                None => 0,
            };
            let cached = if value >= before.last_read {
                value
            } else {
                before.last_read
            };
            match waiting(before.reads, response.body.in_reply_to) {
                Some(id) => if !has_next(before.msg_id) {
                    (before, Err(NodeError::IdentifiersExhausted))
                } else {
                    (
                        GrowOnlyCounterNodeView {
                            msg_id: next(before),
                            reads: before.reads.remove(id),
                            last_read: cached,
                            ..before
                        },
                        Ok(
                            seq![
                                reply(
                                    before,
                                    before.reads[id].src,
                                    before.reads[id].msg_id,
                                    ResponseType::ReadOk(ReadOkBody { value }),
                                ),
                            ],
                        ),
                    )
                },
                None => (GrowOnlyCounterNodeView { last_read: cached, ..before }, Ok(Seq::empty())),
            }
        },
        kv::ResponseType::CompareAndSwapOk => match waiting(
            before.writes,
            response.body.in_reply_to,
        ) {
            Some(id) => if !has_next(before.msg_id) {
                (before, Err(NodeError::IdentifiersExhausted))
            } else {
                (
                    GrowOnlyCounterNodeView {
                        msg_id: next(before),
                        writes: before.writes.remove(id),
                        ..before
                    },
                    Ok(
                        seq![
                            reply(
                                before,
                                before.writes[id].src,
                                before.writes[id].msg_id,
                                ResponseType::AddOk,
                            ),
                        ],
                    ),
                )
            },
            None => match waiting(before.reads, response.body.in_reply_to) {
                Some(id) => if !has_next(before.msg_id) {
                    (before, Err(NodeError::IdentifiersExhausted))
                } else {
                    (
                        GrowOnlyCounterNodeView {
                            msg_id: next(before),
                            reads: before.reads.remove(id),
                            ..before
                        },
                        Ok(
                            seq![
                                reply(
                                    before,
                                    before.reads[id].src,
                                    before.reads[id].msg_id,
                                    ResponseType::ReadOk(ReadOkBody { value: before.last_read }),
                                ),
                            ],
                        ),
                    )
                },
                None => (before, Ok(Seq::empty())),
            },
        },
        kv::ResponseType::WriteOk => (before, Ok(Seq::empty())),
    }
}

/// The code of a key that does not exist.
pub const KEY_DOES_NOT_EXIST: u64 = 20;

/// The code of a compare-and-swap whose precondition failed.
pub const PRECONDITION_FAILED: u64 = 22;

/// The node after an error response, and what it sent; `revealed` is the
/// stored value that the text of the error shows, if it shows one.
///
/// Only errors of the service count. A failed precondition adopts the value
/// revealed, if any, and tries the swap that waits under the identifier
/// again from the cached value, under the node's next identifier. A missing
/// key answers the read that waits with 0; for an add it sets the cache to 0
/// and tries again, the key to be created. Where no identifier is left, or
/// the sum does not fit in 64 bits, the result is the error and nothing
/// changes.
pub open spec fn after_error(
    before: GrowOnlyCounterNodeView,
    response: ResponseView<ErrorMessageTypeView>,
    revealed: Option<u64>,
) -> (GrowOnlyCounterNodeView, Result<Seq<SentView>, NodeError>) {
    let code = response.body.kind->Error_0.code;
    let read = waiting(before.reads, response.body.in_reply_to);
    let write = waiting(before.writes, response.body.in_reply_to);
    if response.src != service_name() || (code != KEY_DOES_NOT_EXIST && code
        != PRECONDITION_FAILED) || (read is None && write is None) {
        (before, Ok(Seq::empty()))
    } else if !has_next(before.msg_id) {
        (before, Err(NodeError::IdentifiersExhausted))
    } else if code == KEY_DOES_NOT_EXIST {
        match read {
            Some(id) => (
                GrowOnlyCounterNodeView {
                    msg_id: next(before),
                    reads: before.reads.remove(id),
                    ..before
                },
                Ok(
                    seq![
                        reply(
                            before,
                            before.reads[id].src,
                            before.reads[id].msg_id,
                            ResponseType::ReadOk(ReadOkBody { value: 0 }),
                        ),
                    ],
                ),
            ),
            None => {
                let id = write->0;
                (
                    GrowOnlyCounterNodeView {
                        msg_id: next(before),
                        writes: before.writes.remove(id).insert(before.msg_id, before.writes[id]),
                        last_read: 0,
                        ..before
                    },
                    Ok(seq![swap(before, 0, before.writes[id].delta)]),
                )
            },
        }
    } else {
        let cached = match revealed {
            Some(value) => value,
            None => before.last_read,
        };
        match write {
            Some(id) => if cached + before.writes[id].delta > u64::MAX {
                (before, Err(NodeError::CounterOverflow))
            } else {
                (
                    GrowOnlyCounterNodeView {
                        msg_id: next(before),
                        writes: before.writes.remove(id).insert(before.msg_id, before.writes[id]),
                        last_read: cached,
                        ..before
                    },
                    Ok(seq![swap(before, cached, (cached + before.writes[id].delta) as u64)]),
                )
            },
            None => {
                let id = read->0;
                (
                    GrowOnlyCounterNodeView {
                        msg_id: next(before),
                        reads: before.reads.remove(id).insert(before.msg_id, before.reads[id]),
                        last_read: cached,
                        ..before
                    },
                    Ok(seq![swap(before, cached, cached)]),
                )
            },
        }
    }
}

impl GrowOnlyCounterNode {
    fn reply_to(&self, dst: String, in_reply_to: Option<MessageID>, kind: ResponseType) -> (out:
        Sent)
        ensures
            out@ == reply(self@, dst@, in_reply_to, kind),
    {
        Outbound::Reply(
            Response {
                src: self.node_id.clone(),
                dst,
                body: ResponseBody { kind, msg_id: Some(self.msg_id), in_reply_to },
            },
        )
    }

    fn swap_from(&self, cached: u64, to: u64) -> (out: Sent)
        ensures
            out@ == swap(self@, cached, to),
    {
        let mut request = self.kv.compare_and_swap::<u64>("counter", cached, to, cached == 0);
        request.body.msg_id = Some(self.msg_id);
        Outbound::Request(request)
    }

    /// The identifier that a response answers, where a read waits under it.
    fn waiting_read(&self, in_reply_to: Option<MessageID>) -> (r: Option<MessageID>)
        ensures
            r == waiting(self@.reads, in_reply_to),
    {
        match in_reply_to {
            Some(id) => if self.reads.contains_key(&id) {
                Some(id)
            } else {
                None
            },
            None => None,
        }
    }

    /// The identifier that a response answers, where an add waits under it.
    fn waiting_write(&self, in_reply_to: Option<MessageID>) -> (r: Option<MessageID>)
        ensures
            r == waiting(self@.writes, in_reply_to),
    {
        match in_reply_to {
            Some(id) => if self.writes.contains_key(&id) {
                Some(id)
            } else {
                None
            },
            None => None,
        }
    }

    /// Handles a client's request.
    pub fn on_message(&mut self, message: Message<MessageType>) -> (r: Result<Vec<Sent>, NodeError>)
        ensures
            (final(self)@, emitted(r)) == after_request(old(self)@, message@),
    {
        if self.msg_id == u64::MAX {
            return Err(NodeError::IdentifiersExhausted);
        }
        let mut out: Vec<Sent> = Vec::new();
        match message.body.kind {
            MessageType::Add(body) => {
                if body.delta == 0 {
                    out.push(self.reply_to(message.src, message.body.msg_id, ResponseType::AddOk));
                } else {
                    if body.delta > u64::MAX - self.last_read {
                        return Err(NodeError::CounterOverflow);
                    }
                    out.push(self.swap_from(self.last_read, self.last_read + body.delta));
                    self.writes.insert(
                        self.msg_id,
                        WriteRequest {
                            src: message.src,
                            msg_id: message.body.msg_id,
                            delta: body.delta,
                        },
                    );
                }
            },
            MessageType::Read => {
                out.push(self.swap_from(self.last_read, self.last_read));
                self.reads.insert(
                    self.msg_id,
                    ReadRequest { src: message.src, msg_id: message.body.msg_id },
                );
            },
        }
        self.msg_id += 1;
        proof {
            let expected = after_request(old(self)@, message@);
            assert(views(out@) =~= expected.1->Ok_0);
            assert(self@.reads =~= expected.0.reads);
            assert(self@.writes =~= expected.0.writes);
        }
        Ok(out)
    }

    /// Handles a response of a service.
    pub fn on_service(&mut self, service: Service) -> (r: Result<Vec<Sent>, NodeError>)
        ensures
            (final(self)@, emitted(r)) == after_service(old(self)@, service->KeyValue_0@),
    {
        let ghost expected = after_service(old(self)@, service->KeyValue_0@);
        let mut out: Vec<Sent> = Vec::new();
        match service {
            Service::KeyValue(message) => match message.body.kind {
                kv::ResponseType::ReadOk(body) => {
                    let value = match body.value {
                        Some(v) => v,
                        None => 0,
                    };
                    match self.waiting_read(message.body.in_reply_to) {
                        Some(id) => {
                            if self.msg_id == u64::MAX {
                                return Err(NodeError::IdentifiersExhausted);
                            }
                            match self.reads.remove(&id) {
                                Some(request) => {
                                    let kind = ResponseType::ReadOk(ReadOkBody { value });
                                    out.push(self.reply_to(request.src, request.msg_id, kind));
                                },
                                None => {},
                            }
                            self.msg_id += 1;
                        },
                        None => {},
                    }
                    if value >= self.last_read {
                        self.last_read = value;
                    }
                },
                kv::ResponseType::CompareAndSwapOk => {
                    match self.waiting_write(message.body.in_reply_to) {
                        Some(id) => {
                            if self.msg_id == u64::MAX {
                                return Err(NodeError::IdentifiersExhausted);
                            }
                            match self.writes.remove(&id) {
                                Some(request) => {
                                    out.push(
                                        self.reply_to(
                                            request.src,
                                            request.msg_id,
                                            ResponseType::AddOk,
                                        ),
                                    );
                                },
                                None => {},
                            }
                            self.msg_id += 1;
                        },
                        None => match self.waiting_read(message.body.in_reply_to) {
                            Some(id) => {
                                if self.msg_id == u64::MAX {
                                    return Err(NodeError::IdentifiersExhausted);
                                }
                                match self.reads.remove(&id) {
                                    Some(request) => {
                                        let kind = ResponseType::ReadOk(
                                            ReadOkBody { value: self.last_read },
                                        );
                                        out.push(self.reply_to(request.src, request.msg_id, kind));
                                    },
                                    None => {},
                                }
                                self.msg_id += 1;
                            },
                            None => {},
                        },
                    }
                },
                kv::ResponseType::WriteOk => {},
            },
        }
        proof {
            assert(views(out@) =~= expected.1->Ok_0);
            assert(self@.reads =~= expected.0.reads);
            assert(self@.writes =~= expected.0.writes);
        }
        Ok(out)
    }

    /// Handles an error response, given the stored value that its text
    /// reveals.
    pub fn resolve_error(
        &mut self,
        message: Response<ErrorMessageType>,
        revealed: Option<u64>,
    ) -> (r: Result<Vec<Sent>, NodeError>)
        ensures
            (final(self)@, emitted(r)) == after_error(old(self)@, message@, revealed),
    {
        let ghost expected = after_error(old(self)@, message@, revealed);
        let mut out: Vec<Sent> = Vec::new();
        let code = match &message.body.kind {
            ErrorMessageType::Error(body) => body.code,
        };
        let read = self.waiting_read(message.body.in_reply_to);
        let write = self.waiting_write(message.body.in_reply_to);
        if !same_text(&message.src, "seq-kv") || (code != KEY_DOES_NOT_EXIST && code
            != PRECONDITION_FAILED) || (read.is_none() && write.is_none()) {
            assert(views(out@) =~= expected.1->Ok_0);
            return Ok(out);
        }
        if self.msg_id == u64::MAX {
            return Err(NodeError::IdentifiersExhausted);
        }
        if code == KEY_DOES_NOT_EXIST {
            match read {
                Some(id) => {
                    match self.reads.remove(&id) {
                        Some(request) => {
                            let kind = ResponseType::ReadOk(ReadOkBody { value: 0 });
                            out.push(self.reply_to(request.src, request.msg_id, kind));
                        },
                        None => {},
                    }
                },
                None => match write {
                    Some(id) => {
                        match self.writes.remove(&id) {
                            Some(request) => {
                                self.last_read = 0;
                                out.push(self.swap_from(0, request.delta));
                                self.writes.insert(self.msg_id, request);
                            },
                            None => {},
                        }
                    },
                    None => {},
                },
            }
        } else {
            let cached = match revealed {
                Some(value) => value,
                None => self.last_read,
            };
            match write {
                Some(id) => {
                    let fits = match self.writes.get(&id) {
                        Some(request) => request.delta <= u64::MAX - cached,
                        None => true,
                    };
                    if !fits {
                        return Err(NodeError::CounterOverflow);
                    }
                    match self.writes.remove(&id) {
                        Some(request) => {
                            self.last_read = cached;
                            out.push(self.swap_from(cached, cached + request.delta));
                            self.writes.insert(self.msg_id, request);
                        },
                        None => {},
                    }
                },
                None => match read {
                    Some(id) => {
                        match self.reads.remove(&id) {
                            Some(request) => {
                                self.last_read = cached;
                                out.push(self.swap_from(cached, cached));
                                self.reads.insert(self.msg_id, request);
                            },
                            None => {},
                        }
                    },
                    None => {},
                },
            }
        }
        self.msg_id += 1;
        proof {
            assert(views(out@) =~= expected.1->Ok_0);
            assert(self@.reads =~= expected.0.reads);
            assert(self@.writes =~= expected.0.writes);
        }
        Ok(out)
    }

    /// Handles an error response: the stored value is read out of its text.
    pub fn on_error(&mut self, message: Response<ErrorMessageType>) -> (r: Result<
        Vec<Sent>,
        NodeError,
    >)
        ensures
            (final(self)@, emitted(r)) == after_error(
                old(self)@,
                message@,
                revealed(first_capture(conflict_pattern(), message@.body.kind->Error_0.text)),
            ),
    {
        let revealed = match &message.body.kind {
            ErrorMessageType::Error(body) => current_value(body.text.as_str()),
        };
        self.resolve_error(message, revealed)
    }
}

impl Node<MessageType> for GrowOnlyCounterNode {
    type Sent = kv::MessageType<u64>;

    type Reply = ResponseType;

    /// The first identifier is 1, nothing waits, and nothing is known to be
    /// stored.
    open spec fn started(message: InitBodyView) -> GrowOnlyCounterNodeView {
        GrowOnlyCounterNodeView {
            msg_id: 1,
            node_id: message.node_id,
            reads: Map::empty(),
            writes: Map::empty(),
            last_read: 0,
            client: message.node_id,
        }
    }

    open spec fn handles(
        before: GrowOnlyCounterNodeView,
        message: MessageView<MessageType>,
        after: GrowOnlyCounterNodeView,
        out: Result<Seq<SentView>, NodeError>,
    ) -> bool {
        (after, out) == after_request(before, message)
    }

    fn init(message: InitBody) -> (node: Self) {
        let node = Self {
            msg_id: 1,
            node_id: message.node_id.clone(),
            kv: Sequential::new(message.node_id),
            last_read: 0,
            reads: HashMap::new(),
            writes: HashMap::new(),
        };
        assert(node@.reads =~= Map::empty());
        assert(node@.writes =~= Map::empty());
        node
    }

    fn handle(&mut self, message: Message<MessageType>) -> (r: Result<Vec<Sent>, NodeError>) {
        self.on_message(message)
    }
}

/// The three sorts of envelope that reach a counter node.
#[derive(Debug, PartialEq)]
pub enum Inbound {
    /// A client's request.
    Request(Message<MessageType>),
    /// A response of the key-value service.
    Service(Service),
    /// An error response.
    Error(Response<ErrorMessageType>),
}

/// The value of a [`Inbound`].
pub enum InboundView {
    Request(MessageView<MessageType>),
    Service(ResponseView<kv::ResponseType>),
    Error(ResponseView<ErrorMessageTypeView>),
}

impl View for Inbound {
    type V = InboundView;

    open spec fn view(&self) -> InboundView {
        match self {
            Inbound::Request(m) => InboundView::Request(m@),
            Inbound::Service(s) => InboundView::Service(s->KeyValue_0@),
            Inbound::Error(e) => InboundView::Error(e@),
        }
    }
}

/// What a document is to a counter node: an error response where it reads as
/// one; else, from the service, one of its responses; else a client's
/// request.
pub open spec fn document_inbound(doc: JsonModel) -> Option<InboundView> {
    match document_response::<ErrorMessageType>(doc) {
        Some(e) => Some(InboundView::Error(e)),
        None => if text_field(doc, "src"@) == Some(service_name()) {
            match document_response::<kv::ResponseType>(doc) {
                Some(r) => Some(InboundView::Service(r)),
                None => None,
            }
        } else {
            match document_message::<MessageType>(doc) {
                Some(m) => Some(InboundView::Request(m)),
                None => None,
            }
        },
    }
}

/// Reads an inbound envelope from a document.
pub fn decode_inbound(doc: &Json) -> (r: Option<Inbound>)
    ensures
        match r {
            Some(inbound) => document_inbound(doc@) == Some(inbound@),
            None => document_inbound(doc@) is None,
        },
{
    match decode_response::<ErrorMessageType>(doc) {
        Some(e) => Some(Inbound::Error(e)),
        None => {
            let from_service = match get_text(doc, "src") {
                Some(src) => same_text(&src, "seq-kv"),
                None => false,
            };
            if from_service {
                match decode_response::<kv::ResponseType>(doc) {
                    Some(r) => Some(Inbound::Service(Service::KeyValue(r))),
                    None => None,
                }
            } else {
                match decode_message::<MessageType>(doc) {
                    Some(m) => Some(Inbound::Request(m)),
                    None => None,
                }
            }
        },
    }
}

/// The node after any inbound envelope, and what it sent.
pub open spec fn after_inbound(before: GrowOnlyCounterNodeView, inbound: InboundView) -> (
    GrowOnlyCounterNodeView,
    Result<Seq<SentView>, NodeError>,
) {
    match inbound {
        InboundView::Request(m) => after_request(before, m),
        InboundView::Service(r) => after_service(before, r),
        InboundView::Error(e) => after_error(
            before,
            e,
            revealed(first_capture(conflict_pattern(), e.body.kind->Error_0.text)),
        ),
    }
}

impl GrowOnlyCounterNode {
    /// Handles any inbound envelope.
    pub fn receive(&mut self, inbound: Inbound) -> (r: Result<Vec<Sent>, NodeError>)
        ensures
            (final(self)@, emitted(r)) == after_inbound(old(self)@, inbound@),
    {
        match inbound {
            Inbound::Request(m) => self.on_message(m),
            Inbound::Service(s) => self.on_service(s),
            Inbound::Error(e) => self.on_error(e),
        }
    }
}

/// Whether the requests that wait are in order: each waits under an
/// identifier that the node has used already, and under no identifier wait
/// both a read and an add. Identifiers only grow, so none is used twice.
pub open spec fn in_order(state: GrowOnlyCounterNodeView) -> bool {
    &&& forall|id: MessageID| #[trigger] state.reads.contains_key(id) ==> id < state.msg_id
    &&& forall|id: MessageID| #[trigger] state.writes.contains_key(id) ==> id < state.msg_id
    &&& forall|id: MessageID|
        !(#[trigger] state.reads.contains_key(id) && #[trigger] state.writes.contains_key(id))
}

/// The requests that wait are in order at the start and stay so whatever
/// comes in, and the node's identifier never goes back.
pub proof fn lemma_stays_in_order(
    before: GrowOnlyCounterNodeView,
    inbound: InboundView,
    init: InitBodyView,
)
    requires
        in_order(before),
    ensures
        in_order(GrowOnlyCounterNode::started(init)),
        in_order(after_inbound(before, inbound).0),
        after_inbound(before, inbound).0.msg_id >= before.msg_id,
{
}

/// The body of the swap that tries to add `delta` on top of `cached`.
pub open spec fn attempt(cached: u64, delta: u64) -> kv::CompareAndSwapBodyView<u64> {
    kv::CompareAndSwapBodyView {
        key: counter_key(),
        from: cached,
        to: (cached + delta) as u64,
        create_if_not_exists: cached == 0,
    }
}

/// The sum of some deltas.
pub open spec fn total(deltas: Seq<u64>) -> nat
    decreases deltas.len(),
{
    if deltas.len() == 0 {
        0
    } else {
        total(deltas.drop_last()) + deltas.last() as nat
    }
}

/// Taking one delta out takes it off the sum.
pub proof fn lemma_total_remove(deltas: Seq<u64>, i: int)
    requires
        0 <= i < deltas.len(),
    ensures
        total(deltas.remove(i)) + deltas[i] == total(deltas),
    decreases deltas.len(),
{
    if i == deltas.len() - 1 {
        assert(deltas.remove(i) =~= deltas.drop_last());
    } else {
        lemma_total_remove(deltas.drop_last(), i);
        assert(deltas.remove(i).drop_last() =~= deltas.drop_last().remove(i));
        assert(deltas.remove(i).last() == deltas.last());
    }
}

/// One try of one of the adds that wait: which of them, and the value that
/// its node believes to be stored.
pub struct Try {
    pub which: int,
    pub cached: u64,
}

/// The store and the adds that still wait, after one try. A try that the
/// service accepts takes its add out; any other changes nothing.
pub open spec fn after_try(stored: Option<u64>, pending: Seq<u64>, t: Try) -> (
    Option<u64>,
    Seq<u64>,
) {
    if 0 <= t.which < pending.len() && t.cached + pending[t.which] <= u64::MAX {
        let (next, outcome) = kv::serve_swap(stored, attempt(t.cached, pending[t.which]));
        if outcome is Swapped {
            (next, pending.remove(t.which))
        } else {
            (stored, pending)
        }
    } else {
        (stored, pending)
    }
}

/// The store and the adds that still wait, after a run of tries in order.
pub open spec fn after_tries(stored: Option<u64>, pending: Seq<u64>, tries: Seq<Try>) -> (
    Option<u64>,
    Seq<u64>,
)
    decreases tries.len(),
{
    if tries.len() == 0 {
        (stored, pending)
    } else {
        let (s, p) = after_tries(stored, pending, tries.drop_last());
        after_try(s, p, tries.last())
    }
}

/// A swap that adds `delta` on top of what its node believes to be stored
/// either fails and leaves the store as it was, or raises what the key
/// stands for by exactly `delta`.
pub proof fn lemma_attempt_adds(stored: Option<u64>, cached: u64, delta: u64)
    requires
        cached + delta <= u64::MAX,
    ensures
        ({
            let (next, outcome) = kv::serve_swap(stored, attempt(cached, delta));
            if outcome is Swapped {
                kv::held(next) == kv::held(stored) + delta
            } else {
                next == stored
            }
        }),
{
}

/// Whatever the order of the tries and however many of them fail, what the
/// key stands for and the adds that still wait sum to the same: once no add
/// waits, the key stands for what it stood for at first and every delta.
pub proof fn lemma_counter_converges(stored: Option<u64>, pending: Seq<u64>, tries: Seq<Try>)
    ensures
        ({
            let (last, left) = after_tries(stored, pending, tries);
            &&& kv::held(last) + total(left) == kv::held(stored) + total(pending)
            &&& left.len() == 0 ==> kv::held(last) == kv::held(stored) + total(pending)
        }),
    decreases tries.len(),
{
    if tries.len() > 0 {
        lemma_counter_converges(stored, pending, tries.drop_last());
        let (s, p) = after_tries(stored, pending, tries.drop_last());
        let t = tries.last();
        if 0 <= t.which < p.len() && t.cached + p[t.which] <= u64::MAX {
            lemma_attempt_adds(s, t.cached, p[t.which]);
            lemma_total_remove(p, t.which);
        }
    }
}

/// The swap that a node sends for an add is a try of that add on top of the
/// node's cached value, and the swap that it sends after a failed
/// precondition is a try of the same add on top of the value revealed.
pub proof fn lemma_node_tries(
    before: GrowOnlyCounterNodeView,
    add: MessageView<MessageType>,
    failure: ResponseView<ErrorMessageTypeView>,
    value: u64,
)
    requires
        add.body.kind is Add,
        add.body.kind->Add_0.delta > 0,
        after_request(before, add).1 is Ok,
        failure.src == service_name(),
        failure.body.kind->Error_0.code == PRECONDITION_FAILED,
        failure.body.in_reply_to == Some(before.msg_id),
        after_error(after_request(before, add).0, failure, Some(value)).1 is Ok,
    ensures
        ({
            let delta = add.body.kind->Add_0.delta;
            let (waits, first) = after_request(before, add);
            let (retried, second) = after_error(waits, failure, Some(value));
            &&& first->Ok_0 == seq![swap(before, before.last_read, (before.last_read + delta) as u64)]
            &&& first->Ok_0[0]->Request_0.body.kind == kv::MessageTypeView::CompareAndSwap(
                attempt(before.last_read, delta),
            )
            &&& second->Ok_0.len() == 1
            &&& second->Ok_0[0] is Request
            &&& second->Ok_0[0]->Request_0.body.kind == kv::MessageTypeView::CompareAndSwap(
                attempt(value, delta),
            )
            &&& retried.last_read == value
            &&& retried.writes.contains_key(waits.msg_id)
            &&& retried.writes[waits.msg_id] == waits.writes[before.msg_id]
        }),
{
}

/// What an envelope carries as its own identifier.
pub open spec fn identifier(envelope: SentView) -> Option<MessageID> {
    match envelope {
        OutboundView::Request(m) => m.body.msg_id,
        OutboundView::Reply(r) => r.body.msg_id,
    }
}

/// Every envelope that a node sends takes the node's next identifier, and
/// the identifier goes up by one for each: at most one envelope goes out at
/// a time, and an error sends nothing and changes nothing.
pub proof fn lemma_identifiers_are_consumed(before: GrowOnlyCounterNodeView, inbound: InboundView)
    ensures
        ({
            let (after, out) = after_inbound(before, inbound);
            match out {
                Ok(sent) => {
                    &&& sent.len() <= 1
                    &&& after.msg_id == before.msg_id + sent.len()
                    &&& sent.len() == 1 ==> identifier(sent[0]) == Some(before.msg_id)
                },
                Err(_) => after == before,
            }
        }),
{
}

/// Every request that a node sends is a try: a swap of the counter, under
/// the identifier that the node had next, on top of the value that the node
/// caches afterwards, by the delta of the add that now waits under that
/// identifier, or by nothing for the read that waits there.
pub proof fn lemma_every_swap_is_a_try(
    before: GrowOnlyCounterNodeView,
    inbound: InboundView,
    i: int,
)
    requires
        in_order(before),
        after_inbound(before, inbound).1 is Ok,
        0 <= i < after_inbound(before, inbound).1->Ok_0.len(),
        after_inbound(before, inbound).1->Ok_0[i] is Request,
    ensures
        ({
            let (after, out) = after_inbound(before, inbound);
            let request = out->Ok_0[i]->Request_0;
            let delta = if after.writes.contains_key(before.msg_id) {
                after.writes[before.msg_id].delta
            } else {
                0
            };
            &&& request.src == before.client
            &&& request.dst == service_name()
            &&& request.body.msg_id == Some(before.msg_id)
            &&& after.writes.contains_key(before.msg_id) || after.reads.contains_key(before.msg_id)
            &&& after.last_read + delta <= u64::MAX
            &&& request.body.kind == kv::MessageTypeView::CompareAndSwap(
                attempt(after.last_read, delta),
            )
        }),
{
}

/// A read is answered with what the key stands for: the swap that the node
/// sends for it goes from the cached value to itself, the service accepts it
/// only where that value is stored, and on its success the reader is told
/// the cached value.
pub proof fn lemma_read_confirms(
    before: GrowOnlyCounterNodeView,
    read: MessageView<MessageType>,
    stored: Option<u64>,
    success: ResponseView<kv::ResponseType>,
)
    requires
        read.body.kind is Read,
        has_next(before.msg_id),
        has_next(next(before)),
        !before.writes.contains_key(before.msg_id),
        success.body.kind is CompareAndSwapOk,
        success.body.in_reply_to == Some(before.msg_id),
        kv::serve_swap(stored, attempt(before.last_read, 0)).1 is Swapped,
    ensures
        ({
            let (waits, sent) = after_request(before, read);
            let (last, answered) = after_service(waits, success);
            &&& sent->Ok_0 == seq![swap(before, before.last_read, before.last_read)]
            &&& sent->Ok_0[0]->Request_0.body.kind == kv::MessageTypeView::CompareAndSwap(
                attempt(before.last_read, 0),
            )
            &&& kv::held(kv::serve_swap(stored, attempt(before.last_read, 0)).0) == kv::held(stored)
            &&& answered->Ok_0 == seq![
                reply(
                    waits,
                    read.src,
                    read.body.msg_id,
                    ResponseType::ReadOk(ReadOkBody { value: before.last_read }),
                ),
            ]
            &&& before.last_read == kv::held(stored)
        }),
{
}

} // verus!
