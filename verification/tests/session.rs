use presence_relay::message::{
    should_deliver, to_outbound, Connect, ErrMsg, ErrMsgKind, InternalMessage, Joined, Left,
    MessageContent, MessageFrom, MessageTo, SyncReq, SERVER_ID,
};
use presence_relay::registry::ClientRegistry;
use presence_relay::session::{Action, InboundEvent, Phase, Session};

fn set_name(name: &str) -> InboundEvent {
    InboundEvent::Frame(MessageTo { to: None, content: MessageContent::SetName(name.to_string()) })
}

#[test]
fn fresh_connection_mints_a_random_identity() {
    let s = Session::connect_fresh(3);
    assert_eq!(s.phase, Phase::Connecting);
    assert_eq!(s.version, 3);
    assert_eq!(s.name, None);
    assert_eq!((s.id >> 76) & 0xf, 4);
    assert_ne!(s.id, Session::connect_fresh(3).id);
}

#[test]
fn greeting_announces_version_identity_and_presence() {
    let mut reg = ClientRegistry::new();
    let mut a = Session::connect(1, 7);
    assert_eq!(a.phase, Phase::Connecting);
    let msgs = a.greeting(&reg);
    assert_eq!(a.phase, Phase::AwaitingName);
    assert_eq!(
        msgs,
        vec![MessageFrom {
            from: SERVER_ID,
            content: MessageContent::Connect(Connect { version: 7, id: 1 }),
        }]
    );

    // a second client sees the first one replayed after its greeting
    a.awaiting_step(&mut reg, set_name("alice"));
    let mut b = Session::connect(2, 7);
    let msgs = b.greeting(&reg);
    assert_eq!(msgs.len(), 2);
    assert_eq!(
        msgs[1],
        MessageFrom {
            from: SERVER_ID,
            content: MessageContent::Joined(Joined { id: 1, name: "alice".to_string() }),
        }
    );
}

#[test]
fn join_conflict_then_success_then_departure() {
    // client A joins as "alice"; B's claim of "alice" is refused privately;
    // B then joins as "bob"; A disconnects; only "bob" stays registered.
    let mut reg = ClientRegistry::new();

    let mut a = Session::connect(1, 7);
    a.greeting(&reg);
    let actions = a.awaiting_step(&mut reg, set_name("alice"));
    assert_eq!(a.phase, Phase::Active);
    assert_eq!(
        actions,
        vec![Action::Publish(InternalMessage {
            to: None,
            from: SERVER_ID,
            content: MessageContent::Joined(Joined { id: 1, name: "alice".to_string() }),
        })]
    );

    let mut b = Session::connect(2, 7);
    b.greeting(&reg);
    let actions = b.awaiting_step(&mut reg, set_name("alice"));
    assert_eq!(b.phase, Phase::AwaitingName);
    assert_eq!(
        actions,
        vec![Action::Send(MessageFrom {
            from: SERVER_ID,
            content: MessageContent::Error(ErrMsg {
                kind: ErrMsgKind::NameUnavailable,
                message: "Name is unavailable".to_string(),
            }),
        })]
    );

    let actions = b.awaiting_step(&mut reg, set_name("bob"));
    assert_eq!(b.phase, Phase::Active);
    assert_eq!(
        actions,
        vec![Action::Publish(InternalMessage {
            to: None,
            from: SERVER_ID,
            content: MessageContent::Joined(Joined { id: 2, name: "bob".to_string() }),
        })]
    );

    let actions = a.close(&mut reg);
    assert_eq!(a.phase, Phase::Closed);
    assert_eq!(
        actions,
        vec![Action::Publish(InternalMessage {
            to: None,
            from: SERVER_ID,
            content: MessageContent::Left(Left { id: 1, name: "alice".to_string() }),
        })]
    );
    let snap = reg.snapshot();
    assert_eq!(snap.len(), 1);
    assert_eq!(snap[0].id, 2);
    assert_eq!(snap[0].name, "bob");
}

#[test]
fn handshake_answers_misuse_without_state_change() {
    let mut reg = ClientRegistry::new();
    let mut s = Session::connect(1, 7);
    s.greeting(&reg);

    // a well-formed but wrong-variant envelope: MissingName
    let actions = s.awaiting_step(
        &mut reg,
        InboundEvent::Frame(MessageTo {
            to: None,
            content: MessageContent::Sync(SyncReq { request_id: "r".to_string(), words: vec![] }),
        }),
    );
    assert_eq!(s.phase, Phase::AwaitingName);
    assert_eq!(
        actions,
        vec![Action::Send(MessageFrom {
            from: SERVER_ID,
            content: MessageContent::Error(ErrMsg {
                kind: ErrMsgKind::MissingName,
                message: "User name must be set before using other commands".to_string(),
            }),
        })]
    );

    // undecodable text: InvalidCommand, with the decoder's description
    let actions = s.awaiting_step(&mut reg, InboundEvent::Malformed("boom".to_string()));
    assert_eq!(
        actions,
        vec![Action::Send(MessageFrom {
            from: SERVER_ID,
            content: MessageContent::Error(ErrMsg {
                kind: ErrMsgKind::InvalidCommand,
                message: "Invalid command: boom".to_string(),
            }),
        })]
    );
    assert_eq!(s.phase, Phase::AwaitingName);
    assert_eq!(reg.len(), 0);
}

#[test]
fn legacy_identity_override_rekeys_the_session() {
    let mut reg = ClientRegistry::new();
    let mut s = Session::connect(1, 7);
    s.greeting(&reg);
    let actions = s.awaiting_step(
        &mut reg,
        InboundEvent::Frame(MessageTo { to: None, content: MessageContent::SetClientId(9) }),
    );
    assert!(actions.is_empty());
    assert_eq!(s.id, 9);
    s.awaiting_step(&mut reg, set_name("alice"));
    let snap = reg.snapshot();
    assert_eq!(snap[0].id, 9);
}

#[test]
fn silent_death_before_handshake_publishes_nothing() {
    let mut reg = ClientRegistry::new();
    let mut other = Session::connect(1, 7);
    other.greeting(&reg);
    other.awaiting_step(&mut reg, set_name("alice"));

    let mut s = Session::connect(2, 7);
    s.greeting(&reg);
    let actions = s.awaiting_step(&mut reg, InboundEvent::TransportClosed);
    assert_eq!(s.phase, Phase::Closed);
    assert!(actions.is_empty());
    let actions = s.close(&mut reg);
    assert!(actions.is_empty());
    assert_eq!(reg.len(), 1);
}

#[test]
fn rename_leaves_then_rejoins_in_order() {
    let mut reg = ClientRegistry::new();
    let mut s = Session::connect(1, 7);
    s.greeting(&reg);
    s.awaiting_step(&mut reg, set_name("alice"));

    let actions = s.active_step(&mut reg, set_name("alicia"));
    assert_eq!(
        actions,
        vec![
            Action::Publish(InternalMessage {
                to: None,
                from: SERVER_ID,
                content: MessageContent::Left(Left { id: 1, name: "alice".to_string() }),
            }),
            Action::Publish(InternalMessage {
                to: None,
                from: SERVER_ID,
                content: MessageContent::Joined(Joined { id: 1, name: "alicia".to_string() }),
            }),
        ]
    );
    let snap = reg.snapshot();
    assert_eq!(snap.len(), 1);
    assert_eq!(snap[0].name, "alicia");
}

#[test]
fn rename_conflict_is_reported_privately() {
    let mut reg = ClientRegistry::new();
    let mut a = Session::connect(1, 7);
    a.greeting(&reg);
    a.awaiting_step(&mut reg, set_name("alice"));
    let mut b = Session::connect(2, 7);
    b.greeting(&reg);
    b.awaiting_step(&mut reg, set_name("bob"));

    let actions = b.active_step(&mut reg, set_name("alice"));
    assert_eq!(
        actions,
        vec![Action::Publish(InternalMessage {
            to: Some(2),
            from: SERVER_ID,
            content: MessageContent::Error(ErrMsg {
                kind: ErrMsgKind::NameUnavailable,
                message: "Name is unavailable".to_string(),
            }),
        })]
    );
    // only the offender would receive it
    let env = match &actions[0] {
        Action::Publish(env) => env.clone(),
        other => panic!("expected a publish, got {:?}", other),
    };
    assert!(should_deliver(&env.to, 2));
    assert!(!should_deliver(&env.to, 1));
    assert_eq!(b.name, Some("bob".to_string()));
}

#[test]
fn sync_is_relayed_unchanged_to_its_recipient_alone() {
    // a directly-addressed Sync from bob to alice reaches alice's
    // outbound stream and never a third client's
    let mut reg = ClientRegistry::new();
    let mut alice = Session::connect(1, 7);
    alice.greeting(&reg);
    alice.awaiting_step(&mut reg, set_name("alice"));
    let mut bob = Session::connect(2, 7);
    bob.greeting(&reg);
    bob.awaiting_step(&mut reg, set_name("bob"));
    let mut carol = Session::connect(3, 7);
    carol.greeting(&reg);
    carol.awaiting_step(&mut reg, set_name("carol"));

    let payload = SyncReq { request_id: "r1".to_string(), words: vec!["fern".to_string(), "moss".to_string()] };
    let actions = bob.active_step(
        &mut reg,
        InboundEvent::Frame(MessageTo { to: Some(1), content: MessageContent::Sync(payload.clone()) }),
    );
    assert_eq!(
        actions,
        vec![Action::Publish(InternalMessage {
            to: Some(1),
            from: 2,
            content: MessageContent::Sync(payload),
        })]
    );

    let env = match actions.into_iter().next().unwrap() {
        Action::Publish(env) => env,
        other => panic!("expected a publish, got {:?}", other),
    };
    assert!(should_deliver(&env.to, 1)); // alice
    assert!(!should_deliver(&env.to, 2)); // not echoed to bob
    assert!(!should_deliver(&env.to, 3)); // never carol
    let out = to_outbound(env);
    assert_eq!(out.from, 2);
    assert_eq!(
        out.content,
        MessageContent::Sync(SyncReq {
            request_id: "r1".to_string(),
            words: vec!["fern".to_string(), "moss".to_string()],
        })
    );
}

#[test]
fn broadcasts_reach_every_session() {
    assert!(should_deliver(&None, 1));
    assert!(should_deliver(&None, 99));
    assert!(should_deliver(&Some(4), 4));
    assert!(!should_deliver(&Some(4), 5));
}

#[test]
fn active_ignores_unroutable_content() {
    let mut reg = ClientRegistry::new();
    let mut s = Session::connect(1, 7);
    s.greeting(&reg);
    s.awaiting_step(&mut reg, set_name("alice"));

    let actions = s.active_step(
        &mut reg,
        InboundEvent::Frame(MessageTo {
            to: None,
            content: MessageContent::Joined(Joined { id: 5, name: "mallory".to_string() }),
        }),
    );
    assert!(actions.is_empty());
    let actions = s.active_step(&mut reg, InboundEvent::Malformed("junk".to_string()));
    assert!(actions.is_empty());
    let actions = s.active_step(&mut reg, InboundEvent::Ignored);
    assert!(actions.is_empty());
    assert_eq!(s.phase, Phase::Active);
}

#[test]
fn close_frame_ends_the_steady_state() {
    let mut reg = ClientRegistry::new();
    let mut s = Session::connect(1, 7);
    s.greeting(&reg);
    s.awaiting_step(&mut reg, set_name("alice"));
    let actions = s.active_step(&mut reg, InboundEvent::Close);
    assert!(actions.is_empty());
    assert_eq!(s.phase, Phase::Closing);
    let actions = s.close(&mut reg);
    assert_eq!(s.phase, Phase::Closed);
    assert_eq!(actions.len(), 1);
    assert_eq!(reg.len(), 0);
}
