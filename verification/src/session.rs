//! The per-connection session state machine and the routing rules for
//! inbound envelopes.
//!
//! A session moves `Connecting -> AwaitingName -> Active -> Closing ->
//! Closed`.  Each step function consumes one inbound occurrence and
//! returns, in order, the actions the transport loop must perform:
//! envelopes to write to the session's own channel and envelopes to
//! publish on the broadcast bus.  Every step is mirrored by a spec-level
//! step function, and the library's ordering laws are proved over runs
//! of that model.

use vstd::prelude::*;

use crate::message::{
    Connect, ContentView, EnvelopeView, ErrMsg, ErrMsgKind, InternalMessage, Joined, Left,
    MessageContent, MessageFrom, MessageFromView, MessageTo, MessageToView, SERVER_ID,
};
use crate::registry::{has_entry, name_taken_by_other, without_id, ClaimOutcome, ClientRegistry};

verus! {

/// The lifecycle phase of one connection's session.
#[derive(Clone, Copy, Debug, PartialEq, Eq, Structural)]
pub enum Phase {
    Connecting,
    AwaitingName,
    Active,
    Closing,
    Closed,
}

/// The server-side state of one client connection.
pub struct Session {
    /// The routing identity of this connection.
    pub id: u128,
    /// The server version told to the client in the greeting.
    pub version: u32,
    pub phase: Phase,
    /// The display name registered for this session; `Some` exactly from
    /// the moment the name handshake completed.
    pub name: Option<String>,
}

/// Mathematical view of a [`Session`].
pub struct SessionView {
    pub id: u128,
    pub version: u32,
    pub phase: Phase,
    pub name: Option<Seq<char>>,
}

impl View for Session {
    type V = SessionView;

    open spec fn view(&self) -> SessionView {
        SessionView {
            id: self.id,
            version: self.version,
            phase: self.phase,
            name: match self.name {
                Some(n) => Some(n@),
                None => None,
            },
        }
    }
}

/// One occurrence a session reacts to, handed in by the transport loop.
pub enum InboundEvent {
    /// A text frame that decoded to a well-formed envelope.
    Frame(MessageTo),
    /// A text frame that did not decode; carries the decoder's description.
    Malformed(String),
    /// The client sent a close frame.
    Close,
    /// A non-text frame; ignored.
    Ignored,
    /// The channel ended or failed.
    TransportClosed,
}

/// Mathematical view of an [`InboundEvent`].
pub enum EventView {
    Frame(MessageToView),
    Malformed(Seq<char>),
    Close,
    Ignored,
    TransportClosed,
}

impl View for InboundEvent {
    type V = EventView;

    open spec fn view(&self) -> EventView {
        match self {
            InboundEvent::Frame(m) => EventView::Frame(m@),
            InboundEvent::Malformed(d) => EventView::Malformed(d@),
            InboundEvent::Close => EventView::Close,
            InboundEvent::Ignored => EventView::Ignored,
            InboundEvent::TransportClosed => EventView::TransportClosed,
        }
    }
}

/// One thing the transport loop must do after a step, in order.
#[derive(Clone, Debug, PartialEq, Eq)]
pub enum Action {
    /// Write this envelope to the session's own channel.
    Send(MessageFrom),
    /// Post this envelope on the broadcast bus.
    Publish(InternalMessage),
}

/// Mathematical view of an [`Action`].
pub enum ActionView {
    Send(MessageFromView),
    Publish(EnvelopeView),
}

impl View for Action {
    type V = ActionView;

    open spec fn view(&self) -> ActionView {
        match self {
            Action::Send(m) => ActionView::Send(m@),
            Action::Publish(m) => ActionView::Publish(m@),
        }
    }
}

impl DeepView for Action {
    type V = ActionView;

    open spec fn deep_view(&self) -> ActionView {
        self.view()
    }
}

/// The greeting envelope: server version and the assigned identity.
pub open spec fn connect_greeting(id: u128, version: u32) -> MessageFromView {
    MessageFromView { from: SERVER_ID, content: ContentView::Connect { version, id } }
}

/// A presence replay line of the greeting.
pub open spec fn joined_replay(id: u128, name: Seq<char>) -> MessageFromView {
    MessageFromView { from: SERVER_ID, content: ContentView::Joined { id, name } }
}

/// A server-authored error envelope written straight to the client.
pub open spec fn server_error(kind: ErrMsgKind, message: Seq<char>) -> MessageFromView {
    MessageFromView { from: SERVER_ID, content: ContentView::Error { kind, message } }
}

/// The broadcast telling everyone that `id` is present under `name`.
pub open spec fn joined_broadcast(id: u128, name: Seq<char>) -> EnvelopeView {
    EnvelopeView {
        to: None,
        from: SERVER_ID,
        content: ContentView::Joined { id, name },
    }
}

/// The broadcast telling everyone that `id` left the name `name`.
pub open spec fn left_broadcast(id: u128, name: Seq<char>) -> EnvelopeView {
    EnvelopeView {
        to: None,
        from: SERVER_ID,
        content: ContentView::Left { id, name },
    }
}

/// A server-authored error envelope addressed privately to `id` on the bus.
pub open spec fn error_to(id: u128, kind: ErrMsgKind, message: Seq<char>) -> EnvelopeView {
    EnvelopeView {
        to: Some(id),
        from: SERVER_ID,
        content: ContentView::Error { kind, message },
    }
}

/// What one spec-level step leaves behind: the session, the registry,
/// and the actions emitted, in order.
pub struct StepResult {
    pub session: SessionView,
    pub registry: Seq<(u128, Seq<char>)>,
    pub actions: Seq<ActionView>,
}

/// The envelopes sent to a newly accepted connection: the greeting,
/// then one `Joined` per current registry entry, in registry order.
pub open spec fn greeting_spec(
    reg: Seq<(u128, Seq<char>)>,
    id: u128,
    version: u32,
) -> Seq<MessageFromView> {
    Seq::new(
        reg.len() + 1,
        |i: int|
            if i == 0 {
                connect_greeting(id, version)
            } else {
                joined_replay(reg[i - 1].0, reg[i - 1].1)
            },
    )
}

/// The handshake's answer to anything that is not an acceptable command:
/// a private `MissingName` error, and no state change.
pub open spec fn missing_name_step(s: SessionView, reg: Seq<(u128, Seq<char>)>) -> StepResult {
    StepResult {
        session: s,
        registry: reg,
        actions: seq![
            ActionView::Send(
                server_error(
                    ErrMsgKind::MissingName,
                    "User name must be set before using other commands"@,
                ),
            ),
        ],
    }
}

/// One step of the name handshake.
pub open spec fn awaiting_step_spec(
    s: SessionView,
    reg: Seq<(u128, Seq<char>)>,
    ev: EventView,
) -> StepResult {
    match ev {
        EventView::Frame(m) => {
            if m.to is None {
                match m.content {
                    ContentView::SetClientId(new_id) => StepResult {
                        session: SessionView { id: new_id, ..s },
                        registry: reg,
                        actions: Seq::empty(),
                    },
                    ContentView::SetName(n) => {
                        if name_taken_by_other(reg, s.id, n) {
                            StepResult {
                                session: s,
                                registry: reg,
                                actions: seq![
                                    ActionView::Send(
                                        server_error(
                                            ErrMsgKind::NameUnavailable,
                                            "Name is unavailable"@,
                                        ),
                                    ),
                                ],
                            }
                        } else {
                            StepResult {
                                session: SessionView { phase: Phase::Active, name: Some(n), ..s },
                                registry: without_id(reg, s.id).push((s.id, n)),
                                actions: seq![ActionView::Publish(joined_broadcast(s.id, n))],
                            }
                        }
                    },
                    _ => missing_name_step(s, reg),
                }
            } else {
                missing_name_step(s, reg)
            }
        },
        EventView::Malformed(d) => StepResult {
            session: s,
            registry: reg,
            actions: seq![
                ActionView::Send(
                    server_error(ErrMsgKind::InvalidCommand, "Invalid command: "@ + d),
                ),
            ],
        },
        EventView::Ignored => StepResult { session: s, registry: reg, actions: Seq::empty() },
        EventView::Close => StepResult {
            session: SessionView { phase: Phase::Closed, ..s },
            registry: reg,
            actions: Seq::empty(),
        },
        EventView::TransportClosed => StepResult {
            session: SessionView { phase: Phase::Closed, ..s },
            registry: reg,
            actions: Seq::empty(),
        },
    }
}

/// One step of the steady state: route an inbound occurrence.
pub open spec fn active_step_spec(
    s: SessionView,
    reg: Seq<(u128, Seq<char>)>,
    ev: EventView,
) -> StepResult {
    match ev {
        EventView::Frame(m) => {
            match m.content {
                ContentView::SetName(n) => {
                    if name_taken_by_other(reg, s.id, n) {
                        StepResult {
                            session: s,
                            registry: reg,
                            actions: seq![
                                ActionView::Publish(
                                    error_to(
                                        s.id,
                                        ErrMsgKind::NameUnavailable,
                                        "Name is unavailable"@,
                                    ),
                                ),
                            ],
                        }
                    } else {
                        StepResult {
                            session: SessionView { name: Some(n), ..s },
                            registry: without_id(reg, s.id).push((s.id, n)),
                            actions: seq![
                                ActionView::Publish(left_broadcast(s.id, s.name->Some_0)),
                                ActionView::Publish(joined_broadcast(s.id, n)),
                            ],
                        }
                    }
                },
                ContentView::Sync { .. } => StepResult {
                    session: s,
                    registry: reg,
                    actions: seq![
                        ActionView::Publish(
                            EnvelopeView { to: m.to, from: s.id, content: m.content },
                        ),
                    ],
                },
                _ => StepResult { session: s, registry: reg, actions: Seq::empty() },
            }
        },
        EventView::Malformed(_) => StepResult { session: s, registry: reg, actions: Seq::empty() },
        EventView::Ignored => StepResult { session: s, registry: reg, actions: Seq::empty() },
        EventView::Close => StepResult {
            session: SessionView { phase: Phase::Closing, ..s },
            registry: reg,
            actions: Seq::empty(),
        },
        EventView::TransportClosed => StepResult {
            session: SessionView { phase: Phase::Closing, ..s },
            registry: reg,
            actions: Seq::empty(),
        },
    }
}

/// Tear-down: release the registration, announce the departure once a
/// name had been registered, and end in `Closed`.  A session that never
/// completed the handshake leaves the registry untouched and announces
/// nothing.
pub open spec fn close_spec(s: SessionView, reg: Seq<(u128, Seq<char>)>) -> StepResult {
    match s.name {
        Some(n) => StepResult {
            session: SessionView { phase: Phase::Closed, ..s },
            registry: without_id(reg, s.id),
            actions: seq![ActionView::Publish(left_broadcast(s.id, n))],
        },
        None => StepResult {
            session: SessionView { phase: Phase::Closed, ..s },
            registry: reg,
            actions: Seq::empty(),
        },
    }
}

impl Session {
    /// A freshly accepted connection, before any envelope is exchanged.
    pub fn connect(id: u128, version: u32) -> (s: Session)
        ensures
            s@ == (SessionView {
                id,
                version,
                phase: Phase::Connecting,
                name: None::<Seq<char>>,
            }),
    {
        Session { id, version, phase: Phase::Connecting, name: None }
    }

    /// A freshly accepted connection under a freshly minted random
    /// identity, as assigned when a transport upgrade completes.
    pub fn connect_fresh(version: u32) -> (s: Session)
        ensures
            s@.version == version,
            s@.phase is Connecting,
            s@.name is None,
            (s@.id >> 76) & 0xf == 4,
    {
        Session::connect(crate::credentials::fresh_id(), version)
    }

    /// Entry into the handshake: the envelopes written to the client on
    /// acceptance (the greeting and the presence replay), and the move
    /// to `AwaitingName`.
    pub fn greeting(&mut self, registry: &ClientRegistry) -> (msgs: Vec<MessageFrom>)
        requires
            old(self)@.phase is Connecting,
        ensures
            final(self)@ == (SessionView { phase: Phase::AwaitingName, ..old(self)@ }),
            msgs.deep_view() == greeting_spec(registry@, old(self)@.id, old(self)@.version),
    {
        let mut msgs: Vec<MessageFrom> = Vec::new();
        msgs.push(MessageFrom {
            from: SERVER_ID,
            content: MessageContent::Connect(Connect { version: self.version, id: self.id }),
        });
        let entries = registry.snapshot();
        let mut i: usize = 0;
        while i < entries.len()
            invariant
                i <= entries.len(),
                entries.deep_view() == registry@,
                *self == *old(self),
                msgs.deep_view() =~= greeting_spec(registry@, old(self)@.id, old(self)@.version)
                    .subrange(0, i as int + 1),
            decreases entries.len() - i,
        {
            let e = &entries[i];
            let ghost prev = msgs.deep_view();
            msgs.push(MessageFrom {
                from: SERVER_ID,
                content: MessageContent::Joined(Joined { id: e.id, name: e.name.clone() }),
            });
            proof {
                assert(entries.deep_view()[i as int] == registry@[i as int]);
                assert(msgs.deep_view() =~= prev.push(joined_replay(e.id, e.name@)));
                assert(greeting_spec(registry@, old(self)@.id, old(self)@.version).subrange(
                    0,
                    i as int + 2,
                ) =~= greeting_spec(registry@, old(self)@.id, old(self)@.version).subrange(
                    0,
                    i as int + 1,
                ).push(joined_replay(registry@[i as int].0, registry@[i as int].1)));
            }
            i = i + 1;
        }
        proof {
            assert(msgs.deep_view() =~= greeting_spec(
                registry@,
                old(self)@.id,
                old(self)@.version,
            ));
        }
        self.phase = Phase::AwaitingName;
        msgs
    }

    /// One step of the name handshake: `SetClientId` re-keys the session,
    /// an acceptable `SetName` registers the name, enters the steady
    /// state and announces the arrival; everything else is answered with
    /// a private error, and the end of the channel closes the session
    /// without ever registering.
    pub fn awaiting_step(&mut self, registry: &mut ClientRegistry, event: InboundEvent) -> (actions:
        Vec<Action>)
        requires
            old(self)@.phase is AwaitingName,
            old(registry).wf(),
        ensures
            final(registry).wf(),
            final(self)@ == awaiting_step_spec(old(self)@, old(registry)@, event@).session,
            final(registry)@ == awaiting_step_spec(old(self)@, old(registry)@, event@).registry,
            actions.deep_view() == awaiting_step_spec(old(self)@, old(registry)@, event@).actions,
    {
        let ghost spec_r = awaiting_step_spec(old(self)@, old(registry)@, event@);
        match event {
            InboundEvent::Frame(m) => {
                let MessageTo { to, content } = m;
                match (to, content) {
                    (None, MessageContent::SetClientId(new_id)) => {
                        self.id = new_id;
                        let actions: Vec<Action> = Vec::new();
                        proof {
                            assert(actions.deep_view() =~= spec_r.actions);
                        }
                        actions
                    },
                    (None, MessageContent::SetName(n)) => {
                        match registry.try_claim(self.id, n.clone()) {
                            ClaimOutcome::NameUnavailable => {
                                let mut actions: Vec<Action> = Vec::new();
                                actions.push(Action::Send(server_error_msg(
                                    ErrMsgKind::NameUnavailable,
                                    String::from_str("Name is unavailable"),
                                )));
                                proof {
                                    assert(actions.deep_view() =~= spec_r.actions);
                                }
                                actions
                            },
                            ClaimOutcome::Accepted => {
                                self.phase = Phase::Active;
                                let mut actions: Vec<Action> = Vec::new();
                                actions.push(Action::Publish(InternalMessage {
                                    to: None,
                                    from: SERVER_ID,
                                    content: MessageContent::Joined(Joined {
                                        id: self.id,
                                        name: n.clone(),
                                    }),
                                }));
                                self.name = Some(n);
                                proof {
                                    assert(actions.deep_view() =~= spec_r.actions);
                                }
                                actions
                            },
                        }
                    },
                    (_, _) => {
                        let mut actions: Vec<Action> = Vec::new();
                        actions.push(Action::Send(server_error_msg(
                            ErrMsgKind::MissingName,
                            String::from_str("User name must be set before using other commands"),
                        )));
                        proof {
                            assert(actions.deep_view() =~= spec_r.actions);
                        }
                        actions
                    },
                }
            },
            InboundEvent::Malformed(d) => {
                let mut actions: Vec<Action> = Vec::new();
                let text = String::from_str("Invalid command: ").concat(d.as_str());
                actions.push(Action::Send(server_error_msg(ErrMsgKind::InvalidCommand, text)));
                proof {
                    assert(actions.deep_view() =~= spec_r.actions);
                }
                actions
            },
            InboundEvent::Ignored => {
                let actions: Vec<Action> = Vec::new();
                proof {
                    assert(actions.deep_view() =~= spec_r.actions);
                }
                actions
            },
            InboundEvent::Close => {
                self.phase = Phase::Closed;
                let actions: Vec<Action> = Vec::new();
                proof {
                    assert(actions.deep_view() =~= spec_r.actions);
                }
                actions
            },
            InboundEvent::TransportClosed => {
                self.phase = Phase::Closed;
                let actions: Vec<Action> = Vec::new();
                proof {
                    assert(actions.deep_view() =~= spec_r.actions);
                }
                actions
            },
        }
    }

    /// One step of the steady state: a rename is re-checked against the
    /// registry and, when accepted, announced as a leave followed by a
    /// re-join; a `Sync` envelope is republished unchanged with this
    /// session as sender; anything else is ignored; the end of the
    /// channel moves the session to `Closing`.
    pub fn active_step(&mut self, registry: &mut ClientRegistry, event: InboundEvent) -> (actions:
        Vec<Action>)
        requires
            old(self)@.phase is Active,
            old(self)@.name is Some,
            old(registry).wf(),
        ensures
            final(registry).wf(),
            final(self)@ == active_step_spec(old(self)@, old(registry)@, event@).session,
            final(registry)@ == active_step_spec(old(self)@, old(registry)@, event@).registry,
            actions.deep_view() == active_step_spec(old(self)@, old(registry)@, event@).actions,
    {
        let ghost spec_r = active_step_spec(old(self)@, old(registry)@, event@);
        match event {
            InboundEvent::Frame(m) => {
                let MessageTo { to, content } = m;
                match content {
                    MessageContent::SetName(n) => {
                        match registry.try_claim(self.id, n.clone()) {
                            ClaimOutcome::NameUnavailable => {
                                let mut actions: Vec<Action> = Vec::new();
                                actions.push(Action::Publish(InternalMessage {
                                    to: Some(self.id),
                                    from: SERVER_ID,
                                    content: MessageContent::Error(ErrMsg {
                                        kind: ErrMsgKind::NameUnavailable,
                                        message: String::from_str("Name is unavailable"),
                                    }),
                                }));
                                proof {
                                    assert(actions.deep_view() =~= spec_r.actions);
                                }
                                actions
                            },
                            ClaimOutcome::Accepted => {
                                let old_name = match &self.name {
                                    Some(x) => x.clone(),
                                    None => vstd::pervasive::unreached(),
                                };
                                self.name = Some(n.clone());
                                let mut actions: Vec<Action> = Vec::new();
                                actions.push(Action::Publish(InternalMessage {
                                    to: None,
                                    from: SERVER_ID,
                                    content: MessageContent::Left(Left {
                                        id: self.id,
                                        name: old_name,
                                    }),
                                }));
                                actions.push(Action::Publish(InternalMessage {
                                    to: None,
                                    from: SERVER_ID,
                                    content: MessageContent::Joined(Joined {
                                        id: self.id,
                                        name: n,
                                    }),
                                }));
                                proof {
                                    assert(actions.deep_view() =~= spec_r.actions);
                                }
                                actions
                            },
                        }
                    },
                    MessageContent::Sync(s) => {
                        let mut actions: Vec<Action> = Vec::new();
                        actions.push(Action::Publish(InternalMessage {
                            to,
                            from: self.id,
                            content: MessageContent::Sync(s),
                        }));
                        proof {
                            assert(actions.deep_view() =~= spec_r.actions);
                        }
                        actions
                    },
                    _ => {
                        let actions: Vec<Action> = Vec::new();
                        proof {
                            assert(actions.deep_view() =~= spec_r.actions);
                        }
                        actions
                    },
                }
            },
            InboundEvent::Malformed(_) => {
                let actions: Vec<Action> = Vec::new();
                proof {
                    assert(actions.deep_view() =~= spec_r.actions);
                }
                actions
            },
            InboundEvent::Ignored => {
                let actions: Vec<Action> = Vec::new();
                proof {
                    assert(actions.deep_view() =~= spec_r.actions);
                }
                actions
            },
            InboundEvent::Close => {
                self.phase = Phase::Closing;
                let actions: Vec<Action> = Vec::new();
                proof {
                    assert(actions.deep_view() =~= spec_r.actions);
                }
                actions
            },
            InboundEvent::TransportClosed => {
                self.phase = Phase::Closing;
                let actions: Vec<Action> = Vec::new();
                proof {
                    assert(actions.deep_view() =~= spec_r.actions);
                }
                actions
            },
        }
    }

    /// Tear the session down: release the registry entry and announce
    /// the departure exactly when the handshake had completed.  Safe to
    /// call in any phase, also on abnormal termination.
    pub fn close(&mut self, registry: &mut ClientRegistry) -> (actions: Vec<Action>)
        requires
            old(registry).wf(),
        ensures
            final(registry).wf(),
            final(self)@ == close_spec(old(self)@, old(registry)@).session,
            final(registry)@ == close_spec(old(self)@, old(registry)@).registry,
            actions.deep_view() == close_spec(old(self)@, old(registry)@).actions,
    {
        let ghost spec_r = close_spec(self@, registry@);
        self.phase = Phase::Closed;
        let mut actions: Vec<Action> = Vec::new();
        match &self.name {
            Some(n) => {
                registry.release(self.id);
                actions.push(Action::Publish(InternalMessage {
                    to: None,
                    from: SERVER_ID,
                    content: MessageContent::Left(Left { id: self.id, name: n.clone() }),
                }));
                proof {
                    assert(actions.deep_view() =~= spec_r.actions);
                }
            },
            None => {
                proof {
                    assert(actions.deep_view() =~= spec_r.actions);
                }
            },
        }
        actions
    }
}

/// Build a server-authored error envelope for the session's own channel.
fn server_error_msg(kind: ErrMsgKind, message: String) -> (r: MessageFrom)
    ensures
        r@ == server_error(kind, message@),
{
    MessageFrom { from: SERVER_ID, content: MessageContent::Error(ErrMsg { kind, message }) }
}

/// The session's phase/name agreement: in the steady state a name is
/// always registered, and before the handshake completes there is none.
/// Established at connection time, kept by every step.
pub open spec fn session_inv(s: SessionView) -> bool {
    &&& s.phase is Active ==> s.name is Some
    &&& s.phase is AwaitingName ==> s.name is None
}

/// One spec-level step, dispatched on the session's phase.  Phases that
/// read no inbound envelopes leave everything unchanged.
pub open spec fn session_step_spec(
    s: SessionView,
    reg: Seq<(u128, Seq<char>)>,
    ev: EventView,
) -> StepResult {
    match s.phase {
        Phase::AwaitingName => awaiting_step_spec(s, reg, ev),
        Phase::Active => active_step_spec(s, reg, ev),
        _ => StepResult { session: s, registry: reg, actions: Seq::empty() },
    }
}

/// A run of the model: the steps for `evs` in order, with the actions
/// they emit concatenated.
pub open spec fn run_spec(
    s: SessionView,
    reg: Seq<(u128, Seq<char>)>,
    evs: Seq<EventView>,
) -> StepResult
    decreases evs.len(),
{
    if evs.len() == 0 {
        StepResult { session: s, registry: reg, actions: Seq::empty() }
    } else {
        let first = session_step_spec(s, reg, evs[0]);
        let rest = run_spec(first.session, first.registry, evs.drop_first());
        StepResult {
            session: rest.session,
            registry: rest.registry,
            actions: first.actions + rest.actions,
        }
    }
}

/// A whole session lifetime: the steps for `evs`, then tear-down.
pub open spec fn lifecycle_spec(
    s: SessionView,
    reg: Seq<(u128, Seq<char>)>,
    evs: Seq<EventView>,
) -> StepResult {
    let mid = run_spec(s, reg, evs);
    let end = close_spec(mid.session, mid.registry);
    StepResult {
        session: end.session,
        registry: end.registry,
        actions: mid.actions + end.actions,
    }
}

/// `a` is the arrival broadcast of `id` under `n`.
pub open spec fn is_joined_publish(a: ActionView, id: u128, n: Seq<char>) -> bool {
    a == ActionView::Publish(joined_broadcast(id, n))
}

/// `a` is the departure broadcast of `id` from `n`.
pub open spec fn is_left_publish(a: ActionView, id: u128, n: Seq<char>) -> bool {
    a == ActionView::Publish(left_broadcast(id, n))
}

/// Nothing in `a` reaches the broadcast bus.
pub open spec fn no_publishes(a: Seq<ActionView>) -> bool {
    forall|k: int| 0 <= k < a.len() ==> !((#[trigger] a[k]) is Publish)
}

/// Somewhere in `a` stands the arrival broadcast of `id` under `n`.
pub open spec fn joined_published(a: Seq<ActionView>, id: u128, n: Seq<char>) -> bool {
    exists|i: int| 0 <= i < a.len() && is_joined_publish(#[trigger] a[i], id, n)
}

/// Every departure broadcast in `a` is strictly preceded by the matching
/// arrival broadcast.
pub open spec fn lefts_preceded_by_joins(a: Seq<ActionView>) -> bool {
    forall|j: int, id: u128, n: Seq<char>|
        0 <= j < a.len() && #[trigger] is_left_publish(a[j], id, n) ==> exists|i: int|
            0 <= i < j && is_joined_publish(#[trigger] a[i], id, n)
}

/// Appending keeps an arrival broadcast present.
proof fn lemma_joined_published_push(a: Seq<ActionView>, x: ActionView, id: u128, n: Seq<char>)
    requires
        joined_published(a, id, n),
    ensures
        joined_published(a.push(x), id, n),
{
    let i = choose|i: int| 0 <= i < a.len() && is_joined_publish(#[trigger] a[i], id, n);
    assert(a.push(x)[i] == a[i]);
}

/// Appending one action keeps the precedence law, provided the new
/// action, if it is a departure broadcast, already has its arrival in `a`.
proof fn lemma_lefts_preceded_push(a: Seq<ActionView>, x: ActionView)
    requires
        lefts_preceded_by_joins(a),
        forall|id: u128, n: Seq<char>|
            #[trigger] is_left_publish(x, id, n) ==> joined_published(a, id, n),
    ensures
        lefts_preceded_by_joins(a.push(x)),
{
    let out = a.push(x);
    assert forall|j: int, id: u128, n: Seq<char>|
        0 <= j < out.len() && #[trigger] is_left_publish(out[j], id, n) implies exists|i: int|
        0 <= i < j && is_joined_publish(#[trigger] out[i], id, n) by {
        if j < a.len() {
            assert(out[j] == a[j]);
            assert(is_left_publish(a[j], id, n));
            let i = choose|i: int| 0 <= i < j && is_joined_publish(#[trigger] a[i], id, n);
            assert(out[i] == a[i]);
        } else {
            assert(out[j] == x);
            assert(joined_published(a, id, n));
            let i = choose|i: int| 0 <= i < a.len() && is_joined_publish(#[trigger] a[i], id, n);
            assert(out[i] == a[i]);
        }
    }
}

/// Once the handshake has completed, a name stays registered for the
/// rest of the run: no step takes the session back to namelessness.
pub proof fn lemma_name_persists(
    s: SessionView,
    reg: Seq<(u128, Seq<char>)>,
    evs: Seq<EventView>,
)
    requires
        s.name is Some,
    ensures
        run_spec(s, reg, evs).session.name is Some,
    decreases evs.len(),
{
    if evs.len() > 0 {
        let first = session_step_spec(s, reg, evs[0]);
        lemma_name_persists(first.session, first.registry, evs.drop_first());
    }
}

/// A session that never completes the name handshake never publishes
/// anything, so it appears in no `Joined` or `Left` broadcast — neither
/// during its run nor when it is torn down.
pub proof fn lemma_silent_without_handshake(
    s: SessionView,
    reg: Seq<(u128, Seq<char>)>,
    evs: Seq<EventView>,
)
    requires
        session_inv(s),
        s.name is None,
        run_spec(s, reg, evs).session.name is None,
    ensures
        no_publishes(run_spec(s, reg, evs).actions),
        no_publishes(lifecycle_spec(s, reg, evs).actions),
    decreases evs.len(),
{
    let mid = run_spec(s, reg, evs);
    if evs.len() == 0 {
    } else {
        let first = session_step_spec(s, reg, evs[0]);
        if first.session.name is Some {
            lemma_name_persists(first.session, first.registry, evs.drop_first());
        }
        lemma_silent_without_handshake(first.session, first.registry, evs.drop_first());
        let rest = run_spec(first.session, first.registry, evs.drop_first());
        assert forall|k: int| 0 <= k < mid.actions.len() implies !((#[trigger] mid.actions[k])
            is Publish) by {
            if k < first.actions.len() {
                assert(mid.actions[k] == first.actions[k]);
            } else {
                assert(mid.actions[k] == rest.actions[k - first.actions.len()]);
            }
        }
    }
    let whole = lifecycle_spec(s, reg, evs);
    assert(whole.actions =~= mid.actions);
}

/// One step keeps the precedence law over the actions published so far.
proof fn lemma_step_order(
    s: SessionView,
    reg: Seq<(u128, Seq<char>)>,
    ev: EventView,
    prefix: Seq<ActionView>,
)
    requires
        session_inv(s),
        lefts_preceded_by_joins(prefix),
        s.name matches Some(n) ==> joined_published(prefix, s.id, n),
    ensures
        ({
            let r = session_step_spec(s, reg, ev);
            &&& session_inv(r.session)
            &&& lefts_preceded_by_joins(prefix + r.actions)
            &&& (r.session.name matches Some(n) ==> joined_published(
                prefix + r.actions,
                r.session.id,
                n,
            ))
        }),
{
    let r = session_step_spec(s, reg, ev);
    if r.actions.len() == 0 {
        assert(prefix + r.actions =~= prefix);
        if r.session.name is Some {
            assert(r.session.name == s.name && r.session.id == s.id);
        }
    } else if r.actions.len() == 1 {
        let x = r.actions[0];
        assert(prefix + r.actions =~= prefix.push(x));
        assert forall|id: u128, n: Seq<char>| #[trigger]
            is_left_publish(x, id, n) implies joined_published(prefix, id, n) by {
            assert(!(x == ActionView::Publish(left_broadcast(id, n))));
        }
        lemma_lefts_preceded_push(prefix, x);
        if r.session.name is Some {
            let n = r.session.name->Some_0;
            if s.name == Some(n) && s.id == r.session.id {
                lemma_joined_published_push(prefix, x, r.session.id, n);
            } else {
                assert(x == ActionView::Publish(joined_broadcast(r.session.id, n)));
                assert(prefix.push(x)[prefix.len() as int] == x);
            }
        }
    } else {
        let x = r.actions[0];
        let y = r.actions[1];
        assert(r.actions.len() == 2);
        assert(prefix + r.actions =~= prefix.push(x).push(y));
        let old_n = s.name->Some_0;
        assert(x == ActionView::Publish(left_broadcast(s.id, old_n)));
        assert forall|id: u128, n: Seq<char>| #[trigger]
            is_left_publish(x, id, n) implies joined_published(prefix, id, n) by {
            assert(id == s.id && n == old_n);
        }
        lemma_lefts_preceded_push(prefix, x);
        assert forall|id: u128, n: Seq<char>| #[trigger]
            is_left_publish(y, id, n) implies joined_published(prefix.push(x), id, n) by {
            assert(!(y == ActionView::Publish(left_broadcast(id, n))));
        }
        lemma_lefts_preceded_push(prefix.push(x), y);
        let new_n = r.session.name->Some_0;
        assert(y == ActionView::Publish(joined_broadcast(r.session.id, new_n)));
        assert(prefix.push(x).push(y)[prefix.len() as int + 1] == y);
    }
}

/// A run keeps the precedence law over the actions published so far.
proof fn lemma_run_order(
    s: SessionView,
    reg: Seq<(u128, Seq<char>)>,
    evs: Seq<EventView>,
    prefix: Seq<ActionView>,
)
    requires
        session_inv(s),
        lefts_preceded_by_joins(prefix),
        s.name matches Some(n) ==> joined_published(prefix, s.id, n),
    ensures
        ({
            let r = run_spec(s, reg, evs);
            &&& session_inv(r.session)
            &&& lefts_preceded_by_joins(prefix + r.actions)
            &&& (r.session.name matches Some(n) ==> joined_published(
                prefix + r.actions,
                r.session.id,
                n,
            ))
        }),
    decreases evs.len(),
{
    let r = run_spec(s, reg, evs);
    if evs.len() == 0 {
        assert(prefix + r.actions =~= prefix);
    } else {
        let first = session_step_spec(s, reg, evs[0]);
        lemma_step_order(s, reg, evs[0], prefix);
        let rest = run_spec(first.session, first.registry, evs.drop_first());
        lemma_run_order(first.session, first.registry, evs.drop_first(), prefix + first.actions);
        assert(prefix + r.actions =~= (prefix + first.actions) + rest.actions);
    }
}

/// Bus-order law: over a whole session lifetime started before the
/// handshake, every departure broadcast `Left{id, name}` is strictly
/// preceded by the matching arrival broadcast `Joined{id, name}`.  The
/// bus preserves publish order, so every subscriber observes the arrival
/// first.
pub proof fn lemma_joined_precedes_left(
    s: SessionView,
    reg: Seq<(u128, Seq<char>)>,
    evs: Seq<EventView>,
)
    requires
        session_inv(s),
        s.name is None,
    ensures
        lefts_preceded_by_joins(run_spec(s, reg, evs).actions),
        lefts_preceded_by_joins(lifecycle_spec(s, reg, evs).actions),
{
    let empty = Seq::<ActionView>::empty();
    lemma_run_order(s, reg, evs, empty);
    let mid = run_spec(s, reg, evs);
    assert(empty + mid.actions =~= mid.actions);
    let end = close_spec(mid.session, mid.registry);
    let whole = lifecycle_spec(s, reg, evs);
    if mid.session.name is Some {
        let n = mid.session.name->Some_0;
        let x = ActionView::Publish(left_broadcast(mid.session.id, n));
        assert forall|id: u128, nn: Seq<char>| #[trigger]
            is_left_publish(x, id, nn) implies joined_published(mid.actions, id, nn) by {
            assert(id == mid.session.id && nn == n);
        }
        lemma_lefts_preceded_push(mid.actions, x);
        assert(whole.actions =~= mid.actions.push(x));
    } else {
        assert(whole.actions =~= mid.actions);
    }
}

/// Rename law: an accepted rename publishes the departure of the old
/// name and then the arrival of the new one, in that order, and the
/// registry afterwards holds the new name, and nothing else, for that
/// identity.
pub proof fn lemma_rename_leave_then_rejoin(
    s: SessionView,
    reg: Seq<(u128, Seq<char>)>,
    m: MessageToView,
    n: Seq<char>,
)
    requires
        s.phase is Active,
        s.name is Some,
        m.content == ContentView::SetName(n),
        !name_taken_by_other(reg, s.id, n),
    ensures
        ({
            let r = active_step_spec(s, reg, EventView::Frame(m));
            &&& r.actions =~= seq![
                ActionView::Publish(left_broadcast(s.id, s.name->Some_0)),
                ActionView::Publish(joined_broadcast(s.id, n)),
            ]
            &&& r.session.name == Some(n)
            &&& has_entry(r.registry, s.id, n)
            &&& (forall|k: int|
                0 <= k < r.registry.len() && (#[trigger] r.registry[k]).0 == s.id
                    ==> r.registry[k].1 == n)
        }),
{
    let r = active_step_spec(s, reg, EventView::Frame(m));
    crate::registry::lemma_without_id_membership(reg, s.id);
    let cleared = without_id(reg, s.id);
    assert(r.registry[r.registry.len() - 1] == (s.id, n));
    assert forall|k: int|
        0 <= k < r.registry.len() && (#[trigger] r.registry[k]).0 == s.id implies r.registry[k].1
        == n by {
        if k < cleared.len() {
            assert(r.registry[k] == cleared[k]);
        } else {
            assert(r.registry[k] == (s.id, n));
        }
    }
}

/// Relay law: a `Sync` envelope is republished unchanged — the original
/// recipient, the session as sender, and the payload exactly as
/// received — and neither the session nor the registry changes.  The
/// server never reads the payload: the step is the same whatever the
/// payload holds.
pub proof fn lemma_sync_relay(s: SessionView, reg: Seq<(u128, Seq<char>)>, m: MessageToView)
    requires
        m.content is Sync,
    ensures
        ({
            let r = active_step_spec(s, reg, EventView::Frame(m));
            &&& r.session == s
            &&& r.registry == reg
            &&& r.actions =~= seq![
                ActionView::Publish(EnvelopeView { to: m.to, from: s.id, content: m.content }),
            ]
        }),
{
}

} // verus!
