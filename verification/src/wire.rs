//! The envelope codec: envelopes to JSON documents and lines, and back.

use crate::json::{
    fields_model, json_of_text, lemma_fields_model_push, lemma_list_model,
    lemma_list_model_push, lemma_lookup_absent, lemma_lookup_behind, lemma_lookup_found,
    list_model, text_of_json, Json, JsonModel,
};
use crate::{
    Message, MessageBody, MessageBodyView, MessageID, MessageView, Response, ResponseBody,
    ResponseBodyView, ResponseView,
};
use vstd::prelude::*;

verus! {

/// The two members of a body that belong to the envelope, not to a kind.
pub open spec fn is_header_key(key: Seq<char>) -> bool {
    key == "msg_id"@ || key == "in_reply_to"@
}

/// A set of message kinds that can stand in the body of an envelope.
///
/// A kind is written as members of the body, the `type` tag among them, and
/// read back from a body whatever else the body holds.
pub trait Payload: View + Sized {
    /// The members that encode a kind.
    spec fn members(kind: Self::V) -> Seq<(Seq<char>, JsonModel)>;

    /// The kind that a body encodes, if it encodes one of this set.
    spec fn parse(body: JsonModel) -> Option<Self::V>;

    /// No kind uses a member that belongs to the envelope, and a kind is read
    /// back from its members whatever envelope members stand behind them.
    proof fn lemma_parse_members(kind: Self::V, behind: Seq<(Seq<char>, JsonModel)>)
        requires
            forall|i: int| 0 <= i < behind.len() ==> is_header_key(#[trigger] behind[i].0),
        ensures
            forall|i: int|
                0 <= i < Self::members(kind).len() ==> !is_header_key(
                    #[trigger] Self::members(kind)[i].0,
                ),
            Self::parse(JsonModel::Object(Self::members(kind) + behind)) == Some(kind),
    ;

    /// Writes the kind as body members.
    fn encode(&self) -> (r: Vec<(String, Json)>)
        ensures
            fields_model(r@) == Self::members(self@),
    ;

    /// Reads a kind from a body.
    fn decode(body: &Json) -> (r: Option<Self>)
        ensures
            match r {
                Some(kind) => Self::parse(body@) == Some(kind@),
                None => Self::parse(body@) is None,
            },
    ;
}

/// An optional number in a body: absent or `null` is none, an unsigned
/// integer is that number, anything else does not read.
pub open spec fn optional_number(body: JsonModel, key: Seq<char>) -> Option<Option<MessageID>> {
    match body.field(key) {
        None => Some(None),
        Some(JsonModel::Null) => Some(None),
        Some(JsonModel::Number(n)) => Some(Some(n)),
        Some(_) => None,
    }
}

/// The member that writes an optional number: none where there is none.
pub open spec fn optional_member(key: Seq<char>, id: Option<MessageID>) -> Seq<(Seq<char>, JsonModel)> {
    match id {
        Some(n) => seq![(key, JsonModel::Number(n))],
        None => Seq::empty(),
    }
}

/// The document of a request envelope.
pub open spec fn message_document<K: Payload>(m: MessageView<K::V>) -> JsonModel {
    JsonModel::Object(
        seq![
            ("src"@, JsonModel::Text(m.src)),
            ("dest"@, JsonModel::Text(m.dst)),
            (
                "body"@,
                JsonModel::Object(K::members(m.body.kind) + optional_member("msg_id"@, m.body.msg_id)),
            ),
        ],
    )
}

/// The request envelope that a document holds, if it holds one.
pub open spec fn document_message<K: Payload>(doc: JsonModel) -> Option<MessageView<K::V>> {
    match (doc.field("src"@), doc.field("dest"@), doc.field("body"@)) {
        (Some(JsonModel::Text(src)), Some(JsonModel::Text(dst)), Some(body)) => {
            match (K::parse(body), optional_number(body, "msg_id"@)) {
                (Some(kind), Some(msg_id)) => Some(
                    MessageView { src, dst, body: MessageBodyView { kind, msg_id } },
                ),
                _ => None,
            }
        },
        _ => None,
    }
}

/// The document of a response envelope.
pub open spec fn response_document<K: Payload>(r: ResponseView<K::V>) -> JsonModel {
    JsonModel::Object(
        seq![
            ("src"@, JsonModel::Text(r.src)),
            ("dest"@, JsonModel::Text(r.dst)),
            (
                "body"@,
                JsonModel::Object(
                    K::members(r.body.kind) + optional_member("msg_id"@, r.body.msg_id) + optional_member(
                        "in_reply_to"@,
                        r.body.in_reply_to,
                    ),
                ),
            ),
        ],
    )
}

/// The response envelope that a document holds, if it holds one.
pub open spec fn document_response<K: Payload>(doc: JsonModel) -> Option<ResponseView<K::V>> {
    match (doc.field("src"@), doc.field("dest"@), doc.field("body"@)) {
        (Some(JsonModel::Text(src)), Some(JsonModel::Text(dst)), Some(body)) => {
            match (
                K::parse(body),
                optional_number(body, "msg_id"@),
                optional_number(body, "in_reply_to"@),
            ) {
                (Some(kind), Some(msg_id), Some(in_reply_to)) => Some(
                    ResponseView {
                        src,
                        dst,
                        body: ResponseBodyView { kind, msg_id, in_reply_to },
                    },
                ),
                _ => None,
            }
        },
        _ => None,
    }
}

/// The names of the envelope's members differ from one another.
pub proof fn lemma_envelope_keys()
    ensures
        "src"@ != "dest"@,
        "src"@ != "body"@,
        "dest"@ != "body"@,
        "msg_id"@ != "in_reply_to"@,
        "msg_id"@.len() == 6,
        "in_reply_to"@.len() == 11,
{
    reveal_strlit("src");
    reveal_strlit("dest");
    reveal_strlit("body");
    reveal_strlit("msg_id");
    reveal_strlit("in_reply_to");
    assert("src"@.len() == 3);
    assert("msg_id"@.len() == 6);
    assert("in_reply_to"@.len() == 11);
    assert("dest"@.len() == 4);
    assert("dest"@[0] == 'd');
    assert("body"@[0] == 'b');
}

/// Reading an optional identifier from a body that holds the members of a kind
/// and then the envelope's own members gives back what was written.
proof fn lemma_ids_read_back<K: Payload>(
    kind: K::V,
    msg_id: Option<MessageID>,
    in_reply_to: Option<MessageID>,
)
    ensures
        optional_number(
            JsonModel::Object(
                K::members(kind) + optional_member("msg_id"@, msg_id) + optional_member(
                    "in_reply_to"@,
                    in_reply_to,
                ),
            ),
            "msg_id"@,
        ) == Some(msg_id),
        optional_number(
            JsonModel::Object(
                K::members(kind) + optional_member("msg_id"@, msg_id) + optional_member(
                    "in_reply_to"@,
                    in_reply_to,
                ),
            ),
            "in_reply_to"@,
        ) == Some(in_reply_to),
{
    lemma_envelope_keys();
    K::lemma_parse_members(kind, Seq::empty());
    let members = K::members(kind);
    let first = optional_member("msg_id"@, msg_id);
    let second = optional_member("in_reply_to"@, in_reply_to);
    let all = members + first + second;
    // msg_id
    lemma_lookup_behind(members + first, second, "msg_id"@);
    if msg_id is Some {
        lemma_lookup_found(members + first, "msg_id"@, members.len() as int);
    } else {
        assert(members + first =~= members);
        lemma_lookup_absent(members, "msg_id"@);
    }
    // in_reply_to
    if in_reply_to is Some {
        lemma_lookup_found(all, "in_reply_to"@, all.len() - 1);
    } else {
        assert(all =~= members + first);
        assert forall|j: int| 0 <= j < (members + first).len() implies (members + first)[j].0
            != "in_reply_to"@ by {
            if j < members.len() {
                assert((members + first)[j] == members[j]);
            }
        }
        lemma_lookup_absent(members + first, "in_reply_to"@);
    }
}

/// Decoding the document of a request envelope gives the envelope back.
pub proof fn lemma_message_round_trip<K: Payload>(m: MessageView<K::V>)
    ensures
        document_message::<K>(message_document::<K>(m)) == Some(m),
{
    lemma_envelope_keys();
    let body = JsonModel::Object(K::members(m.body.kind) + optional_member("msg_id"@, m.body.msg_id));
    let fields = seq![
        ("src"@, JsonModel::Text(m.src)),
        ("dest"@, JsonModel::Text(m.dst)),
        ("body"@, body),
    ];
    lemma_lookup_found(fields, "src"@, 0);
    lemma_lookup_found(fields, "dest"@, 1);
    lemma_lookup_found(fields, "body"@, 2);
    let behind = optional_member("msg_id"@, m.body.msg_id);
    K::lemma_parse_members(m.body.kind, behind);
    lemma_ids_read_back::<K>(m.body.kind, m.body.msg_id, None);
    assert(K::members(m.body.kind) + behind + optional_member("in_reply_to"@, None) =~= K::members(
        m.body.kind,
    ) + behind);
}

/// Decoding and encoding again gives an equal envelope: whatever envelope a
/// document holds, the document written for that envelope holds the same,
/// whatever the order of the members was and whatever else the first
/// document held.
pub proof fn lemma_message_reencoded<K: Payload>(doc: JsonModel)
    requires
        document_message::<K>(doc) is Some,
    ensures
        document_message::<K>(message_document::<K>(document_message::<K>(doc)->0))
            == document_message::<K>(doc),
{
    lemma_message_round_trip::<K>(document_message::<K>(doc)->0);
}

/// The same of a response envelope.
pub proof fn lemma_response_reencoded<K: Payload>(doc: JsonModel)
    requires
        document_response::<K>(doc) is Some,
    ensures
        document_response::<K>(response_document::<K>(document_response::<K>(doc)->0))
            == document_response::<K>(doc),
{
    lemma_response_round_trip::<K>(document_response::<K>(doc)->0);
}

/// Decoding the document of a response envelope gives the envelope back.
pub proof fn lemma_response_round_trip<K: Payload>(r: ResponseView<K::V>)
    ensures
        document_response::<K>(response_document::<K>(r)) == Some(r),
{
    lemma_envelope_keys();
    let members = K::members(r.body.kind);
    let behind = optional_member("msg_id"@, r.body.msg_id) + optional_member("in_reply_to"@, r.body.in_reply_to);
    let body = JsonModel::Object(
        members + optional_member("msg_id"@, r.body.msg_id) + optional_member("in_reply_to"@, r.body.in_reply_to),
    );
    let fields = seq![
        ("src"@, JsonModel::Text(r.src)),
        ("dest"@, JsonModel::Text(r.dst)),
        ("body"@, body),
    ];
    lemma_lookup_found(fields, "src"@, 0);
    lemma_lookup_found(fields, "dest"@, 1);
    lemma_lookup_found(fields, "body"@, 2);
    assert(members + behind =~= members + optional_member("msg_id"@, r.body.msg_id) + optional_member(
        "in_reply_to"@,
        r.body.in_reply_to,
    ));
    K::lemma_parse_members(r.body.kind, behind);
    lemma_ids_read_back::<K>(r.body.kind, r.body.msg_id, r.body.in_reply_to);
}

/// A member of a kind, followed by members of the envelope only, is found
/// where the kind has it.
pub proof fn lemma_member_found(
    members: Seq<(Seq<char>, JsonModel)>,
    behind: Seq<(Seq<char>, JsonModel)>,
    key: Seq<char>,
    i: int,
)
    requires
        0 <= i < members.len(),
        members[i].0 == key,
        forall|j: int| i < j < members.len() ==> members[j].0 != key,
        forall|j: int| 0 <= j < behind.len() ==> is_header_key(#[trigger] behind[j].0),
        !is_header_key(key),
    ensures
        JsonModel::Object(members + behind).field(key) == Some(members[i].1),
{
    lemma_lookup_behind(members, behind, key);
    lemma_lookup_found(members, key, i);
}

/// A name that neither a kind nor the envelope uses gives nothing.
pub proof fn lemma_lookup_absent_member(
    members: Seq<(Seq<char>, JsonModel)>,
    behind: Seq<(Seq<char>, JsonModel)>,
    key: Seq<char>,
)
    requires
        forall|j: int| 0 <= j < members.len() ==> members[j].0 != key,
        forall|j: int| 0 <= j < behind.len() ==> is_header_key(#[trigger] behind[j].0),
        !is_header_key(key),
    ensures
        JsonModel::Object(members + behind).field(key) is None,
{
    lemma_lookup_behind(members, behind, key);
    lemma_lookup_absent(members, key);
}

/// The tag of a body: the text under `type`.
pub open spec fn tag(body: JsonModel) -> Option<Seq<char>> {
    text_field(body, "type"@)
}

/// Whether a text is the given literal.
pub fn same_text(text: &String, literal: &str) -> (r: bool)
    ensures
        r == (text@ == literal@),
{
    let other = literal.to_owned();
    *text == other
}

/// A body of one member: the tag.
pub fn tagged(name: &str) -> (r: Vec<(String, Json)>)
    ensures
        fields_model(r@) == seq![("type"@, JsonModel::Text(name@))],
{
    let mut body: Vec<(String, Json)> = Vec::new();
    put(&mut body, "type", Json::Text(name.to_owned()));
    assert(fields_model(body@) =~= seq![("type"@, JsonModel::Text(name@))]) by {
        assert(fields_model(Seq::<(String, Json)>::empty()) =~= Seq::empty());
    }
    body
}

/// Adds a member to a body.
pub fn put(body: &mut Vec<(String, Json)>, key: &str, value: Json)
    ensures
        fields_model(final(body)@) == fields_model(old(body)@).push((key@, value@)),
{
    let name = key.to_owned();
    proof {
        lemma_fields_model_push(body@, name, value);
    }
    body.push((name, value));
}

/// The list that writes a sequence of texts.
pub open spec fn text_list(texts: Seq<Seq<char>>) -> JsonModel {
    JsonModel::List(Seq::new(texts.len(), |i: int| JsonModel::Text(texts[i])))
}

/// The texts that a document lists, if it is a list of texts.
pub open spec fn list_texts(doc: JsonModel) -> Option<Seq<Seq<char>>> {
    match doc {
        JsonModel::List(items) => if forall|i: int| 0 <= i < items.len() ==> items[i] is Text {
            Some(Seq::new(items.len(), |i: int| items[i]->Text_0))
        } else {
            None
        },
        _ => None,
    }
}

/// The list that writes a sequence of unsigned integers.
pub open spec fn number_list(numbers: Seq<u64>) -> JsonModel {
    JsonModel::List(Seq::new(numbers.len(), |i: int| JsonModel::Number(numbers[i])))
}

/// The unsigned integers that a document lists, if it is a list of them.
pub open spec fn list_numbers(doc: JsonModel) -> Option<Seq<u64>> {
    match doc {
        JsonModel::List(items) => if forall|i: int| 0 <= i < items.len() ==> items[i] is Number {
            Some(Seq::new(items.len(), |i: int| items[i]->Number_0))
        } else {
            None
        },
        _ => None,
    }
}

/// A list of texts reads back as those texts.
pub proof fn lemma_text_list_reads_back(texts: Seq<Seq<char>>)
    ensures
        list_texts(text_list(texts)) == Some(texts),
{
    let items = text_list(texts)->List_0;
    assert(Seq::new(items.len(), |i: int| items[i]->Text_0) =~= texts);
}

/// A list of unsigned integers reads back as those integers.
pub proof fn lemma_number_list_reads_back(numbers: Seq<u64>)
    ensures
        list_numbers(number_list(numbers)) == Some(numbers),
{
    let items = number_list(numbers)->List_0;
    assert(Seq::new(items.len(), |i: int| items[i]->Number_0) =~= numbers);
}

/// Writes texts as a list.
pub fn encode_texts(texts: &Vec<String>) -> (doc: Json)
    ensures
        doc@ == text_list(crate::names(texts@)),
{
    let mut items: Vec<Json> = Vec::new();
    let mut i: usize = 0;
    while i < texts.len()
        invariant
            i <= texts@.len(),
            list_model(items@) =~= Seq::new(i as nat, |k: int| JsonModel::Text(texts@[k]@)),
        decreases texts@.len() - i,
    {
        proof {
            lemma_list_model_push(items@, Json::Text(texts@[i as int]));
        }
        items.push(Json::Text(texts[i].clone()));
        i += 1;
    }
    assert(list_model(items@) =~= text_list(crate::names(texts@))->List_0);
    Json::List(items)
}

/// Reads a list of texts.
pub fn decode_texts(doc: &Json) -> (r: Option<Vec<String>>)
    ensures
        match r {
            Some(texts) => list_texts(doc@) == Some(crate::names(texts@)),
            None => list_texts(doc@) is None,
        },
{
    match doc {
        Json::List(items) => {
            let mut texts: Vec<String> = Vec::new();
            let mut i: usize = 0;
            proof {
                lemma_list_model(items@);
            }
            while i < items.len()
                invariant
                    i <= items@.len(),
                    doc@ == JsonModel::List(list_model(items@)),
                    list_model(items@).len() == items@.len(),
                    forall|k: int| 0 <= k < items@.len() ==> list_model(items@)[k] == items@[k]@,
                    texts@.len() == i,
                    forall|k: int| 0 <= k < i ==> list_model(items@)[k] == JsonModel::Text(texts@[k]@),
                decreases items@.len() - i,
            {
                match &items[i] {
                    Json::Text(s) => {
                        texts.push(s.clone());
                    },
                    _ => {
                        assert(!(list_model(items@)[i as int] is Text));
                        return None;
                    },
                }
                i += 1;
            }
            assert(Seq::new(items@.len(), |k: int| list_model(items@)[k]->Text_0) =~= crate::names(
                texts@,
            ));
            Some(texts)
        },
        _ => None,
    }
}

/// Writes unsigned integers as a list.
pub fn encode_numbers(numbers: &Vec<u64>) -> (doc: Json)
    ensures
        doc@ == number_list(numbers@),
{
    let mut items: Vec<Json> = Vec::new();
    let mut i: usize = 0;
    while i < numbers.len()
        invariant
            i <= numbers@.len(),
            list_model(items@) =~= Seq::new(i as nat, |k: int| JsonModel::Number(numbers@[k])),
        decreases numbers@.len() - i,
    {
        proof {
            lemma_list_model_push(items@, Json::Number(numbers@[i as int]));
        }
        items.push(Json::Number(numbers[i]));
        i += 1;
    }
    assert(list_model(items@) =~= number_list(numbers@)->List_0);
    Json::List(items)
}

/// Reads a list of unsigned integers.
pub fn decode_numbers(doc: &Json) -> (r: Option<Vec<u64>>)
    ensures
        match r {
            Some(numbers) => list_numbers(doc@) == Some(numbers@),
            None => list_numbers(doc@) is None,
        },
{
    match doc {
        Json::List(items) => {
            let mut numbers: Vec<u64> = Vec::new();
            let mut i: usize = 0;
            proof {
                lemma_list_model(items@);
            }
            while i < items.len()
                invariant
                    i <= items@.len(),
                    doc@ == JsonModel::List(list_model(items@)),
                    list_model(items@).len() == items@.len(),
                    forall|k: int| 0 <= k < items@.len() ==> list_model(items@)[k] == items@[k]@,
                    numbers@.len() == i,
                    forall|k: int|
                        0 <= k < i ==> list_model(items@)[k] == JsonModel::Number(numbers@[k]),
                decreases items@.len() - i,
            {
                match &items[i] {
                    Json::Number(n) => {
                        numbers.push(*n);
                    },
                    _ => {
                        assert(!(list_model(items@)[i as int] is Number));
                        return None;
                    },
                }
                i += 1;
            }
            assert(Seq::new(items@.len(), |k: int| list_model(items@)[k]->Number_0) =~= numbers@);
            Some(numbers)
        },
        _ => None,
    }
}

/// Copies a list of texts.
pub fn copy_texts(texts: &Vec<String>) -> (r: Vec<String>)
    ensures
        r@ == texts@,
{
    let mut copy: Vec<String> = Vec::new();
    let mut i: usize = 0;
    while i < texts.len()
        invariant
            i <= texts@.len(),
            copy@ == texts@.take(i as int),
        decreases texts@.len() - i,
    {
        copy.push(texts[i].clone());
        assert(copy@ =~= texts@.take(i + 1));
        i += 1;
    }
    assert(texts@.take(texts@.len() as int) =~= texts@);
    copy
}

/// The text under `key`, where the document is an object that holds one there.
pub open spec fn text_field(doc: JsonModel, key: Seq<char>) -> Option<Seq<char>> {
    match doc.field(key) {
        Some(JsonModel::Text(s)) => Some(s),
        _ => None,
    }
}

/// The unsigned integer under `key`, where the document is an object that
/// holds one there.
pub open spec fn number_field(doc: JsonModel, key: Seq<char>) -> Option<u64> {
    match doc.field(key) {
        Some(JsonModel::Number(n)) => Some(n),
        _ => None,
    }
}

/// Reads the text under `key`.
pub fn get_text(doc: &Json, key: &str) -> (r: Option<String>)
    ensures
        match r {
            Some(s) => text_field(doc@, key@) == Some(s@),
            None => text_field(doc@, key@) is None,
        },
{
    match doc.get(key) {
        Some(Json::Text(s)) => Some(s.clone()),
        _ => None,
    }
}

/// Reads the unsigned integer under `key`.
pub fn get_number(doc: &Json, key: &str) -> (r: Option<u64>)
    ensures
        r == number_field(doc@, key@),
{
    match doc.get(key) {
        Some(Json::Number(n)) => Some(*n),
        _ => None,
    }
}

/// The truth value under `key`, where the document is an object that holds
/// one there.
pub open spec fn bool_field(doc: JsonModel, key: Seq<char>) -> Option<bool> {
    match doc.field(key) {
        Some(JsonModel::Bool(b)) => Some(b),
        _ => None,
    }
}

/// Reads the truth value under `key`.
pub fn get_bool(doc: &Json, key: &str) -> (r: Option<bool>)
    ensures
        r == bool_field(doc@, key@),
{
    match doc.get(key) {
        Some(Json::Bool(b)) => Some(*b),
        _ => None,
    }
}

/// Reads the optional number under `key`.
pub fn get_optional(body: &Json, key: &str) -> (r: Option<Option<MessageID>>)
    ensures
        r == optional_number(body@, key@),
{
    match body.get(key) {
        None => Some(None),
        Some(Json::Null) => Some(None),
        Some(Json::Number(n)) => Some(Some(*n)),
        Some(_) => None,
    }
}

/// Adds the member of an optional number to a body.
pub fn put_optional(body: &mut Vec<(String, Json)>, key: &str, id: Option<MessageID>)
    ensures
        fields_model(final(body)@) == fields_model(old(body)@) + optional_member(key@, id),
{
    match id {
        Some(n) => {
            let name = key.to_owned();
            proof {
                lemma_fields_model_push(body@, name, Json::Number(n));
            }
            body.push((name, Json::Number(n)));
            assert(fields_model(old(body)@).push((key@, JsonModel::Number(n))) =~= fields_model(
                old(body)@,
            ) + optional_member(key@, id));
        },
        None => {
            assert(fields_model(old(body)@) + optional_member(key@, id) =~= fields_model(old(body)@));
        },
    }
}

/// Builds the object of an envelope from its three members.
fn envelope(src: &String, dst: &String, body: Vec<(String, Json)>) -> (doc: Json)
    ensures
        doc@ == JsonModel::Object(
            seq![
                ("src"@, JsonModel::Text(src@)),
                ("dest"@, JsonModel::Text(dst@)),
                ("body"@, JsonModel::Object(fields_model(body@))),
            ],
        ),
{
    let mut fields: Vec<(String, Json)> = Vec::new();
    let k0 = "src".to_owned();
    let k1 = "dest".to_owned();
    let k2 = "body".to_owned();
    let v0 = Json::Text(src.clone());
    let v1 = Json::Text(dst.clone());
    let v2 = Json::Object(body);
    proof {
        lemma_fields_model_push(fields@, k0, v0);
        lemma_fields_model_push(fields@.push((k0, v0)), k1, v1);
        lemma_fields_model_push(fields@.push((k0, v0)).push((k1, v1)), k2, v2);
    }
    fields.push((k0, v0));
    fields.push((k1, v1));
    fields.push((k2, v2));
    assert(fields_model(fields@) =~= seq![
        ("src"@, JsonModel::Text(src@)),
        ("dest"@, JsonModel::Text(dst@)),
        ("body"@, JsonModel::Object(fields_model(body@))),
    ]);
    Json::Object(fields)
}

/// Writes a request envelope as a document.
pub fn encode_message<K: Payload>(m: &Message<K>) -> (doc: Json)
    ensures
        doc@ == message_document::<K>(m@),
{
    let mut body = m.body.kind.encode();
    put_optional(&mut body, "msg_id", m.body.msg_id);
    envelope(&m.src, &m.dst, body)
}

/// Reads a request envelope from a document; `None` where the document is
/// not an envelope of these kinds.
pub fn decode_message<K: Payload>(doc: &Json) -> (r: Option<Message<K>>)
    ensures
        match r {
            Some(m) => document_message::<K>(doc@) == Some(m@),
            None => document_message::<K>(doc@) is None,
        },
{
    let src = match get_text(doc, "src") {
        Some(s) => s,
        None => {
            return None;
        },
    };
    let dst = match get_text(doc, "dest") {
        Some(s) => s,
        None => {
            return None;
        },
    };
    let body = match doc.get("body") {
        Some(b) => b,
        None => {
            return None;
        },
    };
    let kind = match K::decode(body) {
        Some(k) => k,
        None => {
            return None;
        },
    };
    let msg_id = match get_optional(body, "msg_id") {
        Some(id) => id,
        None => {
            return None;
        },
    };
    Some(Message { src, dst, body: MessageBody { kind, msg_id } })
}

/// Writes a response envelope as a document.
pub fn encode_response<K: Payload>(r: &Response<K>) -> (doc: Json)
    ensures
        doc@ == response_document::<K>(r@),
{
    let mut body = r.body.kind.encode();
    put_optional(&mut body, "msg_id", r.body.msg_id);
    put_optional(&mut body, "in_reply_to", r.body.in_reply_to);
    envelope(&r.src, &r.dst, body)
}

/// Reads a response envelope from a document; `None` where the document is
/// not an envelope of these kinds.
pub fn decode_response<K: Payload>(doc: &Json) -> (r: Option<Response<K>>)
    ensures
        match r {
            Some(m) => document_response::<K>(doc@) == Some(m@),
            None => document_response::<K>(doc@) is None,
        },
{
    let src = match get_text(doc, "src") {
        Some(s) => s,
        None => {
            return None;
        },
    };
    let dst = match get_text(doc, "dest") {
        Some(s) => s,
        None => {
            return None;
        },
    };
    let body = match doc.get("body") {
        Some(b) => b,
        None => {
            return None;
        },
    };
    let kind = match K::decode(body) {
        Some(k) => k,
        None => {
            return None;
        },
    };
    let msg_id = match get_optional(body, "msg_id") {
        Some(id) => id,
        None => {
            return None;
        },
    };
    let in_reply_to = match get_optional(body, "in_reply_to") {
        Some(id) => id,
        None => {
            return None;
        },
    };
    Some(Response { src, dst, body: ResponseBody { kind, msg_id, in_reply_to } })
}

/// The line that carries a document: its compact text and a line break.
pub open spec fn line_of(doc: JsonModel) -> Seq<char> {
    text_of_json(doc).push('\n')
}

/// Writes a document as one line: no line break but the one that ends it.
pub fn write_line(doc: &Json) -> (line: String)
    ensures
        line@ == line_of(doc@),
        line@.last() == '\n',
        !line@.drop_last().contains('\n'),
{
    let text = doc.render();
    let line = text.concat("\n");
    proof {
        reveal_strlit("\n");
        assert("\n"@ =~= seq!['\n']);
        assert(line@ =~= text@.push('\n'));
        assert(line@.drop_last() =~= text@);
    }
    line
}

/// Why a line could not be read.
#[derive(Debug, PartialEq, Eq, Clone, Copy)]
pub enum DecodeError {
    /// The line is not a JSON document.
    Syntax,
    /// The document is not an envelope of a kind known here.
    Shape,
}

/// What a line holds as a request envelope.
pub open spec fn line_message<K: Payload>(line: Seq<char>) -> Result<MessageView<K::V>, DecodeError> {
    match json_of_text(line) {
        None => Err(DecodeError::Syntax),
        Some(doc) => match document_message::<K>(doc) {
            None => Err(DecodeError::Shape),
            Some(m) => Ok(m),
        },
    }
}

/// What a line holds as a response envelope.
pub open spec fn line_response<K: Payload>(line: Seq<char>) -> Result<
    ResponseView<K::V>,
    DecodeError,
> {
    match json_of_text(line) {
        None => Err(DecodeError::Syntax),
        Some(doc) => match document_response::<K>(doc) {
            None => Err(DecodeError::Shape),
            Some(m) => Ok(m),
        },
    }
}

/// Reads a request envelope from a line.
pub fn read_message<K: Payload>(line: &str) -> (r: Result<Message<K>, DecodeError>)
    ensures
        match r {
            Ok(m) => line_message::<K>(line@) == Ok::<MessageView<K::V>, DecodeError>(m@),
            Err(e) => line_message::<K>(line@) == Err::<MessageView<K::V>, DecodeError>(e),
        },
{
    match Json::parse(line) {
        None => Err(DecodeError::Syntax),
        Some(doc) => match decode_message::<K>(&doc) {
            None => Err(DecodeError::Shape),
            Some(m) => Ok(m),
        },
    }
}

/// Reads a response envelope from a line.
pub fn read_response<K: Payload>(line: &str) -> (r: Result<Response<K>, DecodeError>)
    ensures
        match r {
            Ok(m) => line_response::<K>(line@) == Ok::<ResponseView<K::V>, DecodeError>(m@),
            Err(e) => line_response::<K>(line@) == Err::<ResponseView<K::V>, DecodeError>(e),
        },
{
    match Json::parse(line) {
        None => Err(DecodeError::Syntax),
        Some(doc) => match decode_response::<K>(&doc) {
            None => Err(DecodeError::Shape),
            Some(m) => Ok(m),
        },
    }
}

} // verus!
