//! The protocol runtime: the handshake, and the dispatch of every later line
//! to the node.

use crate::wire::{
    line_message, line_of, read_message, response_document, write_line, DecodeError, Payload,
};
use crate::{
    encode_outbound, outbound_document, InitBody, MessageType, MessageTypeView,
    MessageView, Node, NodeError, Outbound, OutboundView, Response, ResponseBody,
    ResponseBodyView, ResponseType, ResponseView,
};
use vstd::prelude::*;

verus! {

/// Why the runtime stopped.
#[derive(Debug, PartialEq, Eq, Clone, Copy)]
pub enum RunError {
    /// A line could not be read as an envelope of a kind that is valid in
    /// the runtime's state.
    Decode(DecodeError),
    /// The node could not handle a request.
    Node(NodeError),
    /// A request of the node's kinds came before the handshake.
    NotInitialized,
    /// An initialization came after the handshake.
    AlreadyInitialized,
}

/// The runtime's two states: before the handshake, and after it with the
/// node that it made.
#[derive(Debug, PartialEq)]
pub enum Runtime<N> {
    Uninitialized,
    Initialized(N),
}

/// The value of a [`Runtime`].
pub enum RuntimeView<V> {
    Uninitialized,
    Initialized(V),
}

impl<N: View> View for Runtime<N> {
    type V = RuntimeView<N::V>;

    open spec fn view(&self) -> RuntimeView<N::V> {
        match self {
            Runtime::Uninitialized => RuntimeView::Uninitialized,
            Runtime::Initialized(node) => RuntimeView::Initialized(node@),
        }
    }
}

/// The acknowledgement of an initialization: from the new node to the
/// sender, with no identifier of its own.
pub open spec fn init_ok(message: MessageView<MessageTypeView>) -> ResponseView<ResponseType> {
    ResponseView {
        src: message.body.kind->Init_0.node_id,
        dst: message.src,
        body: ResponseBodyView {
            kind: ResponseType::InitOk,
            msg_id: None,
            in_reply_to: message.body.msg_id,
        },
    }
}

/// The lines that carry some outbound envelopes, in order.
pub open spec fn lines_of<Sent: Payload, Reply: Payload>(
    out: Seq<OutboundView<Sent::V, Reply::V>>,
) -> Seq<Seq<char>> {
    Seq::new(out.len(), |i: int| line_of(outbound_document::<Sent, Reply>(out[i])))
}

/// The texts of some lines.
pub open spec fn texts(lines: Seq<String>) -> Seq<Seq<char>> {
    Seq::new(lines.len(), |i: int| lines[i]@)
}

/// What the runtime's answer to a line is, by its value.
pub open spec fn written(r: Result<Vec<String>, RunError>) -> Result<Seq<Seq<char>>, RunError> {
    match r {
        Ok(lines) => Ok(texts(lines@)),
        Err(e) => Err(e),
    }
}

/// What the runtime writes for what a node sends, and the error where the
/// node gives one.
pub open spec fn dispatched<Sent: Payload, Reply: Payload>(
    sent: Result<Seq<OutboundView<Sent::V, Reply::V>>, NodeError>,
) -> Result<Seq<Seq<char>>, RunError> {
    match sent {
        Ok(envelopes) => Ok(lines_of::<Sent, Reply>(envelopes)),
        Err(e) => Err(RunError::Node(e)),
    }
}

/// The error of a line that does not read as the state asks, with the
/// failure `e`: the violation of the protocol where the line reads as an
/// envelope of the `Other` kinds, else the failure itself.
pub open spec fn refusal<Other: Payload>(
    line: Seq<char>,
    e: DecodeError,
    violation: RunError,
) -> RunError {
    if line_message::<Other>(line) is Ok {
        violation
    } else {
        RunError::Decode(e)
    }
}

/// Whether a line may take the runtime from `before` to `after` with the
/// outcome `out`.
///
/// Before the handshake the line must be an initialization: the node
/// starts, and the one line written is the acknowledgement. After it, the
/// line must be a request of the node's kinds, and the node handles it: the
/// lines written are those of the envelopes it sends. A line that does not
/// read as the state asks is an error and leaves the runtime as it was: a
/// request before the handshake and an initialization after it are told
/// apart from lines that read as neither.
pub open spec fn receives<Type: Payload, N: Node<Type>>(
    before: RuntimeView<N::V>,
    line: Seq<char>,
    after: RuntimeView<N::V>,
    out: Result<Seq<Seq<char>>, RunError>,
) -> bool where N::Sent: Payload, N::Reply: Payload {
    match before {
        RuntimeView::Uninitialized => match line_message::<MessageType>(line) {
            Ok(message) => {
                &&& after == RuntimeView::Initialized(N::started(message.body.kind->Init_0))
                &&& out == Ok::<Seq<Seq<char>>, RunError>(
                    seq![line_of(response_document::<ResponseType>(init_ok(message)))],
                )
            },
            Err(e) => after == before && out == Err::<Seq<Seq<char>>, RunError>(
                refusal::<Type>(line, e, RunError::NotInitialized),
            ),
        },
        RuntimeView::Initialized(node) => match line_message::<Type>(line) {
            Ok(message) => exists|
                sent: Result<Seq<OutboundView<<N::Sent as View>::V, <N::Reply as View>::V>>, NodeError>,
            |
                {
                    &&& after is Initialized
                    &&& N::handles(node, message, after->Initialized_0, sent)
                    &&& out == #[trigger] dispatched::<N::Sent, N::Reply>(sent)
                },
            Err(e) => after == before && out == Err::<Seq<Seq<char>>, RunError>(
                refusal::<MessageType>(line, e, RunError::AlreadyInitialized),
            ),
        },
    }
}

/// The handshake: reads an initialization from a line and gives what it
/// carries, with the line that acknowledges it.
pub fn shake_hands(line: &str) -> (r: Result<(InitBody, String), DecodeError>)
    ensures
        match r {
            Ok((init, reply)) => {
                &&& line_message::<MessageType>(line@) is Ok
                &&& init@ == line_message::<MessageType>(line@)->Ok_0.body.kind->Init_0
                &&& reply@ == line_of(
                    response_document::<ResponseType>(
                        init_ok(line_message::<MessageType>(line@)->Ok_0),
                    ),
                )
            },
            Err(e) => line_message::<MessageType>(line@) == Err::<
                MessageView<MessageTypeView>,
                DecodeError,
            >(e),
        },
{
    match read_message::<MessageType>(line) {
        Ok(message) => match message.body.kind {
            MessageType::Init(body) => {
                let reply = Response {
                    src: body.node_id.clone(),
                    dst: message.src,
                    body: ResponseBody {
                        kind: ResponseType::InitOk,
                        msg_id: None,
                        in_reply_to: message.body.msg_id,
                    },
                };
                let doc = crate::wire::encode_response(&reply);
                Ok((body, write_line(&doc)))
            },
        },
        Err(e) => Err(e),
    }
}

/// Writes outbound envelopes as lines.
pub fn write_lines<Sent: Payload, Reply: Payload>(out: &Vec<Outbound<Sent, Reply>>) -> (lines: Vec<
    String,
>)
    ensures
        texts(lines@) == lines_of::<Sent, Reply>(crate::views(out@)),
{
    let mut lines: Vec<String> = Vec::new();
    let mut i: usize = 0;
    while i < out.len()
        invariant
            i <= out@.len(),
            lines@.len() == i,
            forall|k: int|
                0 <= k < i ==> lines@[k]@ == line_of(outbound_document::<Sent, Reply>(out@[k]@)),
        decreases out@.len() - i,
    {
        let doc = encode_outbound(&out[i]);
        lines.push(write_line(&doc));
        i += 1;
    }
    assert(texts(lines@) =~= lines_of::<Sent, Reply>(crate::views(out@)));
    lines
}

impl<N> Runtime<N> {
    /// The runtime before the handshake.
    pub fn new() -> (runtime: Self)
        ensures
            runtime == Runtime::<N>::Uninitialized,
    {
        Runtime::Uninitialized
    }

    /// Takes one line of input and gives the lines to write.
    pub fn receive<Type: Payload>(&mut self, line: &str) -> (r: Result<Vec<String>, RunError>) where
        N: Node<Type>,
        N::Sent: Payload,
        N::Reply: Payload,

        ensures
            receives::<Type, N>(old(self)@, line@, final(self)@, written(r)),
    {
        let mut current = Runtime::Uninitialized;
        std::mem::swap(self, &mut current);
        match current {
            Runtime::Uninitialized => match shake_hands(line) {
                Ok((init, reply)) => {
                    let mut lines: Vec<String> = Vec::new();
                    lines.push(reply);
                    assert(texts(lines@) =~= seq![reply@]);
                    *self = Runtime::Initialized(N::init(init));
                    let r = Ok(lines);
                    assert(receives::<Type, N>(old(self)@, line@, self@, written(r)));
                    r
                },
                Err(e) => {
                    let r = Err(
                        match read_message::<Type>(line) {
                            Ok(_) => RunError::NotInitialized,
                            Err(_) => RunError::Decode(e),
                        },
                    );
                    assert(receives::<Type, N>(old(self)@, line@, self@, written(r)));
                    r
                },
            },
            Runtime::Initialized(mut node) => match read_message::<Type>(line) {
                Ok(message) => {
                    let ghost before = node@;
                    let ghost asked = message@;
                    let sent = node.handle(message);
                    *self = Runtime::Initialized(node);
                    let ghost outcome = crate::emitted(sent);
                    let r = match sent {
                        Ok(envelopes) => Ok(write_lines(&envelopes)),
                        Err(e) => Err(RunError::Node(e)),
                    };
                    assert(written(r) == dispatched::<N::Sent, N::Reply>(outcome));
                    assert(receives::<Type, N>(old(self)@, line@, self@, written(r)));
                    r
                },
                Err(e) => {
                    *self = Runtime::Initialized(node);
                    let r = Err(
                        match read_message::<MessageType>(line) {
                            Ok(_) => RunError::AlreadyInitialized,
                            Err(_) => RunError::Decode(e),
                        },
                    );
                    assert(receives::<Type, N>(old(self)@, line@, self@, written(r)));
                    r
                },
            },
        }
    }
}

/// Whether a line that was not refused took the runtime from `before` to
/// `state` and added `last` to what was written `earlier`, which made `out`.
pub open spec fn went_on<Type: Payload, N: Node<Type>>(
    before: RuntimeView<N::V>,
    line: Seq<char>,
    state: RuntimeView<N::V>,
    earlier: Seq<Seq<char>>,
    last: Seq<Seq<char>>,
    out: Seq<Seq<char>>,
) -> bool where N::Sent: Payload, N::Reply: Payload {
    &&& receives::<Type, N>(before, line, state, Ok(last))
    &&& out == earlier + last
}

/// Whether the runtime, taken from its first state through all of `lines`
/// with none of them refused, ends in `state` and has written `out`.
pub open spec fn ran<Type: Payload, N: Node<Type>>(
    lines: Seq<Seq<char>>,
    state: RuntimeView<N::V>,
    out: Seq<Seq<char>>,
) -> bool where N::Sent: Payload, N::Reply: Payload
    decreases lines.len(),
{
    if lines.len() == 0 {
        state is Uninitialized && out.len() == 0
    } else {
        exists|before: RuntimeView<N::V>, earlier: Seq<Seq<char>>, last: Seq<Seq<char>>|
            ran::<Type, N>(lines.drop_last(), before, earlier) && #[trigger] went_on::<Type, N>(
                before,
                lines.last(),
                state,
                earlier,
                last,
                out,
            )
    }
}

/// Whether the runtime took the first `k` of `lines`, wrote `out`, and
/// refused the next with the error `e`.
pub open spec fn stopped<Type: Payload, N: Node<Type>>(
    lines: Seq<Seq<char>>,
    k: int,
    state: RuntimeView<N::V>,
    after: RuntimeView<N::V>,
    out: Seq<Seq<char>>,
    e: RunError,
) -> bool where N::Sent: Payload, N::Reply: Payload {
    &&& 0 <= k < lines.len()
    &&& ran::<Type, N>(lines.take(k), state, out)
    &&& receives::<Type, N>(state, lines[k], after, Err(e))
}

/// Runs a node on a whole input, line by line, from the handshake on: gives
/// the lines written, and the error of the first line that was refused, at
/// which the run stops.
pub fn run<N, Type>(input: &Vec<String>) -> (r: (Vec<String>, Result<(), RunError>)) where
    Type: Payload,
    N: Node<Type>,
    N::Sent: Payload,
    N::Reply: Payload,

    ensures
        r.1 is Ok ==> exists|state: RuntimeView<N::V>| #[trigger]
            ran::<Type, N>(texts(input@), state, texts(r.0@)),
        r.1 is Err ==> exists|k: int, state: RuntimeView<N::V>, after: RuntimeView<N::V>| #[trigger]
            stopped::<Type, N>(texts(input@), k, state, after, texts(r.0@), r.1->Err_0),
{
    let mut runtime: Runtime<N> = Runtime::new();
    let mut out: Vec<String> = Vec::new();
    let mut i: usize = 0;
    let ghost lines = texts(input@);
    assert(texts(out@) =~= Seq::<Seq<char>>::empty());
    while i < input.len()
        invariant
            i <= input@.len(),
            lines == texts(input@),
            ran::<Type, N>(lines.take(i as int), runtime@, texts(out@)),
        decreases input@.len() - i,
    {
        let ghost before = runtime@;
        let ghost earlier = texts(out@);
        match runtime.receive::<Type>(input[i].as_str()) {
            Ok(mut written) => {
                let ghost last = texts(written@);
                out.append(&mut written);
                proof {
                    assert(texts(out@) =~= earlier + last);
                    let so_far = lines.take(i + 1);
                    assert(so_far.drop_last() =~= lines.take(i as int));
                    assert(so_far.last() == input@[i as int]@);
                    assert(went_on::<Type, N>(
                        before,
                        so_far.last(),
                        runtime@,
                        earlier,
                        last,
                        texts(out@),
                    ));
                }
            },
            Err(e) => {
                let r = (out, Err(e));
                assert(stopped::<Type, N>(
                    texts(input@),
                    i as int,
                    before,
                    runtime@,
                    texts(r.0@),
                    r.1->Err_0,
                ));
                return r;
            },
        }
        i += 1;
    }
    assert(lines.take(lines.len() as int) =~= lines);
    let r = (out, Ok(()));
    assert(ran::<Type, N>(texts(input@), runtime@, texts(r.0@)));
    r
}

} // verus!
