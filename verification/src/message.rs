//! The wire envelope model: message variants, sender/recipient addressing,
//! and their mathematical views.
//!
//! An envelope is one routed message unit.  `to` empty means broadcast;
//! `from` equal to [`SERVER_ID`] means the server itself authored the
//! envelope.  Envelopes are immutable once constructed.

use vstd::prelude::*;

verus! {

/// Identity the server uses in the `from` field of envelopes it authors.
pub const SERVER_ID: u128 = 0;

/// Greeting payload: the server version and the identity assigned to the
/// newly accepted connection.
#[derive(Clone, Debug, PartialEq, Eq)]
pub struct Connect {
    pub version: u32,
    pub id: u128,
}

/// A participant became present under `name`.
#[derive(Clone, Debug, PartialEq, Eq)]
pub struct Joined {
    pub id: u128,
    pub name: String,
}

/// A participant ceased to be present under `name`.
#[derive(Clone, Debug, PartialEq, Eq)]
pub struct Left {
    pub id: u128,
    pub name: String,
}

/// An application-level relay payload; the server never interprets it.
#[derive(Clone, Debug, PartialEq, Eq)]
pub struct SyncReq {
    pub request_id: String,
    pub words: Vec<String>,
}

/// The kind of a protocol error reported back to the offending client.
#[derive(Clone, Copy, Debug, PartialEq, Eq, Structural)]
pub enum ErrMsgKind {
    NameUnavailable,
    MissingName,
    InvalidCommand,
}

/// A structured error envelope payload.
#[derive(Clone, Debug, PartialEq, Eq)]
pub struct ErrMsg {
    pub kind: ErrMsgKind,
    pub message: String,
}

/// The closed set of message variants carried by envelopes.
#[derive(Clone, Debug, PartialEq, Eq)]
pub enum MessageContent {
    Connect(Connect),
    SetName(String),
    SetClientId(u128),
    Sync(SyncReq),
    Joined(Joined),
    Left(Left),
    Error(ErrMsg),
}

/// An envelope on its way out to one client.
#[derive(Clone, Debug, PartialEq, Eq)]
pub struct MessageFrom {
    pub from: u128,
    pub content: MessageContent,
}

/// An envelope as received from a client.
#[derive(Clone, Debug, PartialEq, Eq)]
pub struct MessageTo {
    pub to: Option<u128>,
    pub content: MessageContent,
}

/// An envelope on the broadcast bus, with both sender and recipient.
#[derive(Clone, Debug, PartialEq, Eq)]
pub struct InternalMessage {
    pub to: Option<u128>,
    pub from: u128,
    pub content: MessageContent,
}

/// Mathematical view of [`MessageContent`].
pub enum ContentView {
    Connect { version: u32, id: u128 },
    SetName(Seq<char>),
    SetClientId(u128),
    Sync { request_id: Seq<char>, words: Seq<Seq<char>> },
    Joined { id: u128, name: Seq<char> },
    Left { id: u128, name: Seq<char> },
    Error { kind: ErrMsgKind, message: Seq<char> },
}

/// Mathematical view of an outbound envelope.
pub struct MessageFromView {
    pub from: u128,
    pub content: ContentView,
}

/// Mathematical view of an inbound envelope.
pub struct MessageToView {
    pub to: Option<u128>,
    pub content: ContentView,
}

/// Mathematical view of a bus envelope.
pub struct EnvelopeView {
    pub to: Option<u128>,
    pub from: u128,
    pub content: ContentView,
}

impl View for MessageContent {
    type V = ContentView;

    open spec fn view(&self) -> ContentView {
        match self {
            MessageContent::Connect(c) => ContentView::Connect { version: c.version, id: c.id },
            MessageContent::SetName(n) => ContentView::SetName(n@),
            MessageContent::SetClientId(id) => ContentView::SetClientId(*id),
            MessageContent::Sync(s) => ContentView::Sync {
                request_id: s.request_id@,
                words: s.words.deep_view(),
            },
            MessageContent::Joined(j) => ContentView::Joined { id: j.id, name: j.name@ },
            MessageContent::Left(l) => ContentView::Left { id: l.id, name: l.name@ },
            MessageContent::Error(e) => ContentView::Error { kind: e.kind, message: e.message@ },
        }
    }
}

impl View for MessageFrom {
    type V = MessageFromView;

    open spec fn view(&self) -> MessageFromView {
        MessageFromView { from: self.from, content: self.content@ }
    }
}

impl DeepView for MessageFrom {
    type V = MessageFromView;

    open spec fn deep_view(&self) -> MessageFromView {
        self.view()
    }
}

impl View for MessageTo {
    type V = MessageToView;

    open spec fn view(&self) -> MessageToView {
        MessageToView { to: self.to, content: self.content@ }
    }
}

impl DeepView for MessageTo {
    type V = MessageToView;

    open spec fn deep_view(&self) -> MessageToView {
        self.view()
    }
}

impl View for InternalMessage {
    type V = EnvelopeView;

    open spec fn view(&self) -> EnvelopeView {
        EnvelopeView { to: self.to, from: self.from, content: self.content@ }
    }
}

impl DeepView for InternalMessage {
    type V = EnvelopeView;

    open spec fn deep_view(&self) -> EnvelopeView {
        self.view()
    }
}

/// Whether an envelope addressed `to` must be delivered to the session
/// that owns identity `own`: broadcasts reach everyone, a directly
/// addressed envelope reaches its recipient alone.
pub open spec fn spec_should_deliver(to: Option<u128>, own: u128) -> bool {
    to is None || to == Some(own)
}

/// Per-recipient filter applied by each session to every bus envelope.
pub fn should_deliver(to: &Option<u128>, own: u128) -> (r: bool)
    ensures
        r == spec_should_deliver(*to, own),
{
    match to {
        None => true,
        Some(t) => *t == own,
    }
}

/// Strip the bus-internal recipient off an envelope before it is written
/// to a client's channel: the client sees only the sender and the content.
pub fn to_outbound(msg: InternalMessage) -> (r: MessageFrom)
    ensures
        r.from == msg.from,
        r.content == msg.content,
{
    MessageFrom { from: msg.from, content: msg.content }
}

} // verus!
