//! The requests and responses of the sequential key-value service.

use crate::json::{fields_model, Json, JsonModel};
use crate::wire::{
    bool_field, get_bool, get_number, get_optional, get_text, same_text, lemma_lookup_absent_member,
    lemma_member_found, number_field, optional_member, optional_number, put, put_optional, tag,
    tagged, text_field, Payload,
};
use crate::{Message, MessageBody};
use vstd::prelude::*;

verus! {

/// A read of one key.
#[derive(Debug, PartialEq)]
pub struct ReadBody {
    pub key: String,
}

/// The value of a [`ReadBody`].
pub struct ReadBodyView {
    pub key: Seq<char>,
}

impl View for ReadBody {
    type V = ReadBodyView;

    open spec fn view(&self) -> ReadBodyView {
        ReadBodyView { key: self.key@ }
    }
}

/// A compare-and-swap of one key: `to` is stored where the key holds `from`,
/// or where it is missing and may be created.
#[derive(Debug, PartialEq)]
pub struct CompareAndSwapBody<T> {
    pub key: String,
    pub from: T,
    pub to: T,
    pub create_if_not_exists: bool,
}

/// The value of a [`CompareAndSwapBody`].
pub struct CompareAndSwapBodyView<T> {
    pub key: Seq<char>,
    pub from: T,
    pub to: T,
    pub create_if_not_exists: bool,
}

impl<T: View> View for CompareAndSwapBody<T> {
    type V = CompareAndSwapBodyView<T::V>;

    open spec fn view(&self) -> CompareAndSwapBodyView<T::V> {
        CompareAndSwapBodyView {
            key: self.key@,
            from: self.from@,
            to: self.to@,
            create_if_not_exists: self.create_if_not_exists,
        }
    }
}

/// The requests that the service takes.
#[derive(Debug, PartialEq)]
pub enum MessageType<T> {
    Read(ReadBody),
    Write,
    CompareAndSwap(CompareAndSwapBody<T>),
}

/// The value of a [`MessageType`].
pub enum MessageTypeView<T> {
    Read(ReadBodyView),
    Write,
    CompareAndSwap(CompareAndSwapBodyView<T>),
}

impl<T: View> View for MessageType<T> {
    type V = MessageTypeView<T::V>;

    open spec fn view(&self) -> MessageTypeView<T::V> {
        match self {
            MessageType::Read(body) => MessageTypeView::Read(body@),
            MessageType::Write => MessageTypeView::Write,
            MessageType::CompareAndSwap(body) => MessageTypeView::CompareAndSwap(body@),
        }
    }
}

/// What a read found: the number under the key, or nothing.
#[derive(Debug, PartialEq)]
pub struct ReadOkBody {
    pub value: Option<u64>,
}

impl View for ReadOkBody {
    type V = ReadOkBody;

    open spec fn view(&self) -> ReadOkBody {
        *self
    }
}

/// The responses that the service gives.
#[derive(Debug, PartialEq)]
pub enum ResponseType {
    ReadOk(ReadOkBody),
    WriteOk,
    CompareAndSwapOk,
}

impl View for ResponseType {
    type V = ResponseType;

    open spec fn view(&self) -> ResponseType {
        *self
    }
}

/// The lengths and first letters of the names that the service reads and
/// writes.
pub proof fn lemma_service_names()
    ensures
        "type"@.len() == 4,
        "type"@[0] == 't',
        "key"@.len() == 3,
        "from"@.len() == 4,
        "from"@[0] == 'f',
        "to"@.len() == 2,
        "create_if_not_exists"@.len() == 20,
        "value"@.len() == 5,
        "read"@.len() == 4,
        "write"@.len() == 5,
        "cas"@.len() == 3,
        "read_ok"@.len() == 7,
        "write_ok"@.len() == 8,
        "cas_ok"@.len() == 6,
        "msg_id"@.len() == 6,
        "msg_id"@[0] == 'm',
        "cas_ok"@[0] == 'c',
        "in_reply_to"@.len() == 11,
{
    reveal_strlit("type");
    reveal_strlit("key");
    reveal_strlit("from");
    reveal_strlit("to");
    reveal_strlit("create_if_not_exists");
    reveal_strlit("value");
    reveal_strlit("read");
    reveal_strlit("write");
    reveal_strlit("cas");
    reveal_strlit("read_ok");
    reveal_strlit("write_ok");
    reveal_strlit("cas_ok");
    reveal_strlit("msg_id");
    reveal_strlit("in_reply_to");
}

impl Payload for MessageType<u64> {
    open spec fn members(kind: MessageTypeView<u64>) -> Seq<(Seq<char>, JsonModel)> {
        match kind {
            MessageTypeView::Read(body) => seq![
                ("type"@, JsonModel::Text("read"@)),
                ("key"@, JsonModel::Text(body.key)),
            ],
            MessageTypeView::Write => seq![("type"@, JsonModel::Text("write"@))],
            MessageTypeView::CompareAndSwap(body) => seq![
                ("type"@, JsonModel::Text("cas"@)),
                ("key"@, JsonModel::Text(body.key)),
                ("from"@, JsonModel::Number(body.from)),
                ("to"@, JsonModel::Number(body.to)),
                ("create_if_not_exists"@, JsonModel::Bool(body.create_if_not_exists)),
            ],
        }
    }

    open spec fn parse(body: JsonModel) -> Option<MessageTypeView<u64>> {
        match tag(body) {
            Some(name) => if name == "read"@ {
                match text_field(body, "key"@) {
                    Some(key) => Some(MessageTypeView::Read(ReadBodyView { key })),
                    None => None,
                }
            } else if name == "write"@ {
                Some(MessageTypeView::Write)
            } else if name == "cas"@ {
                match (
                    text_field(body, "key"@),
                    number_field(body, "from"@),
                    number_field(body, "to"@),
                    bool_field(body, "create_if_not_exists"@),
                ) {
                    (Some(key), Some(from), Some(to), Some(create_if_not_exists)) => Some(
                        MessageTypeView::CompareAndSwap(
                            CompareAndSwapBodyView { key, from, to, create_if_not_exists },
                        ),
                    ),
                    _ => None,
                }
            } else {
                None
            },
            None => None,
        }
    }

    proof fn lemma_parse_members(kind: MessageTypeView<u64>, behind: Seq<(Seq<char>, JsonModel)>) {
        lemma_service_names();
        let members = Self::members(kind);
        lemma_member_found(members, behind, "type"@, 0);
        match kind {
            MessageTypeView::Read(body) => {
                lemma_member_found(members, behind, "key"@, 1);
            },
            MessageTypeView::Write => {},
            MessageTypeView::CompareAndSwap(body) => {
                lemma_member_found(members, behind, "key"@, 1);
                lemma_member_found(members, behind, "from"@, 2);
                lemma_member_found(members, behind, "to"@, 3);
                lemma_member_found(members, behind, "create_if_not_exists"@, 4);
            },
        }
    }

    fn encode(&self) -> (r: Vec<(String, Json)>) {
        match self {
            MessageType::Read(body) => {
                let mut members = tagged("read");
                put(&mut members, "key", Json::Text(body.key.clone()));
                assert(fields_model(members@) =~= Self::members(self@));
                members
            },
            MessageType::Write => tagged("write"),
            MessageType::CompareAndSwap(body) => {
                let mut members = tagged("cas");
                put(&mut members, "key", Json::Text(body.key.clone()));
                put(&mut members, "from", Json::Number(body.from));
                put(&mut members, "to", Json::Number(body.to));
                put(&mut members, "create_if_not_exists", Json::Bool(body.create_if_not_exists));
                assert(fields_model(members@) =~= Self::members(self@));
                members
            },
        }
    }

    fn decode(body: &Json) -> (r: Option<Self>) {
        let name = match get_text(body, "type") {
            Some(s) => s,
            None => {
                return None;
            },
        };
        if same_text(&name, "read") {
            match get_text(body, "key") {
                Some(key) => Some(MessageType::Read(ReadBody { key })),
                None => None,
            }
        } else if same_text(&name, "write") {
            Some(MessageType::Write)
        } else if same_text(&name, "cas") {
            match (
                get_text(body, "key"),
                get_number(body, "from"),
                get_number(body, "to"),
                get_bool(body, "create_if_not_exists"),
            ) {
                (Some(key), Some(from), Some(to), Some(create_if_not_exists)) => Some(
                    MessageType::CompareAndSwap(
                        CompareAndSwapBody { key, from, to, create_if_not_exists },
                    ),
                ),
                _ => None,
            }
        } else {
            None
        }
    }
}

impl Payload for ResponseType {
    open spec fn members(kind: ResponseType) -> Seq<(Seq<char>, JsonModel)> {
        match kind {
            ResponseType::ReadOk(body) => seq![("type"@, JsonModel::Text("read_ok"@))]
                + optional_member("value"@, body.value),
            ResponseType::WriteOk => seq![("type"@, JsonModel::Text("write_ok"@))],
            ResponseType::CompareAndSwapOk => seq![("type"@, JsonModel::Text("cas_ok"@))],
        }
    }

    open spec fn parse(body: JsonModel) -> Option<ResponseType> {
        match tag(body) {
            Some(name) => if name == "read_ok"@ {
                match optional_number(body, "value"@) {
                    Some(value) => Some(ResponseType::ReadOk(ReadOkBody { value })),
                    None => None,
                }
            } else if name == "write_ok"@ {
                Some(ResponseType::WriteOk)
            } else if name == "cas_ok"@ {
                Some(ResponseType::CompareAndSwapOk)
            } else {
                None
            },
            None => None,
        }
    }

    proof fn lemma_parse_members(kind: ResponseType, behind: Seq<(Seq<char>, JsonModel)>) {
        lemma_service_names();
        let members = Self::members(kind);
        lemma_member_found(members, behind, "type"@, 0);
        match kind {
            ResponseType::ReadOk(body) => {
                if body.value is Some {
                    lemma_member_found(members, behind, "value"@, 1);
                } else {
                    lemma_lookup_absent_member(members, behind, "value"@);
                }
            },
            _ => {},
        }
    }

    fn encode(&self) -> (r: Vec<(String, Json)>) {
        match self {
            ResponseType::ReadOk(body) => {
                let mut members = tagged("read_ok");
                put_optional(&mut members, "value", body.value);
                members
            },
            ResponseType::WriteOk => tagged("write_ok"),
            ResponseType::CompareAndSwapOk => tagged("cas_ok"),
        }
    }

    fn decode(body: &Json) -> (r: Option<Self>) {
        let name = match get_text(body, "type") {
            Some(s) => s,
            None => {
                return None;
            },
        };
        if same_text(&name, "read_ok") {
            match get_optional(body, "value") {
                Some(value) => Some(ResponseType::ReadOk(ReadOkBody { value })),
                None => None,
            }
        } else if same_text(&name, "write_ok") {
            Some(ResponseType::WriteOk)
        } else if same_text(&name, "cas_ok") {
            Some(ResponseType::CompareAndSwapOk)
        } else {
            None
        }
    }
}

/// What the service answers to a compare-and-swap.
pub enum SwapOutcome {
    /// The new value is stored.
    Swapped,
    /// The key does not exist, and was not to be created.
    Missing,
    /// The key holds another value than the one expected: this one.
    Conflict(u64),
}

/// The service's rule for a compare-and-swap on one key: what is stored
/// afterwards, and the answer.
pub open spec fn serve_swap(stored: Option<u64>, swap: CompareAndSwapBodyView<u64>) -> (
    Option<u64>,
    SwapOutcome,
) {
    match stored {
        None => if swap.create_if_not_exists {
            (Some(swap.to), SwapOutcome::Swapped)
        } else {
            (None, SwapOutcome::Missing)
        },
        Some(value) => if value == swap.from {
            (Some(swap.to), SwapOutcome::Swapped)
        } else {
            (stored, SwapOutcome::Conflict(value))
        },
    }
}

/// The number that a key stands for: what it holds, or 0 while it is missing.
pub open spec fn held(stored: Option<u64>) -> nat {
    match stored {
        Some(value) => value as nat,
        None => 0,
    }
}

/// The name under which the service is reached.
pub open spec fn service_name() -> Seq<char> {
    "seq-kv"@
}

/// A client of the sequential key-value service, on behalf of one node.
#[derive(Debug, PartialEq)]
pub struct Sequential {
    pub node_id: String,
}

impl View for Sequential {
    type V = Seq<char>;

    open spec fn view(&self) -> Seq<char> {
        self.node_id@
    }
}

impl Sequential {
    /// A client for the node `node_id`.
    pub fn new(node_id: String) -> (client: Self)
        ensures
            client.node_id == node_id,
    {
        Self { node_id }
    }

    /// The request that reads `key`: from the node to the service, with no
    /// identifier yet.
    pub fn read<T>(&self, key: &str) -> (request: Message<MessageType<T>>)
        ensures
            request.src@ == self@,
            request.dst@ == service_name(),
            request.body.msg_id is None,
            request.body.kind matches MessageType::Read(body) && body.key@ == key@,
    {
        Message::<MessageType<T>> {
            src: self.node_id.clone(),
            dst: "seq-kv".to_owned(),
            body: MessageBody::<MessageType<T>> {
                kind: MessageType::Read(ReadBody { key: key.to_owned() }),
                msg_id: None,
            },
        }
    }

    /// The request that swaps `key` from `from` to `to`: from the node to the
    /// service, with no identifier yet.
    pub fn compare_and_swap<T>(
        &self,
        key: &str,
        from: T,
        to: T,
        create_if_not_exists: bool,
    ) -> (request: Message<MessageType<T>>)
        ensures
            request.src@ == self@,
            request.dst@ == service_name(),
            request.body.msg_id is None,
            request.body.kind matches MessageType::CompareAndSwap(body) && body.key@ == key@
                && body.from == from && body.to == to && body.create_if_not_exists
                == create_if_not_exists,
    {
        Message::<MessageType<T>> {
            src: self.node_id.clone(),
            dst: "seq-kv".to_owned(),
            body: MessageBody::<MessageType<T>> {
                kind: MessageType::CompareAndSwap(
                    CompareAndSwapBody::<T> { key: key.to_owned(), from, to, create_if_not_exists },
                ),
                msg_id: None,
            },
        }
    }
}

} // verus!
