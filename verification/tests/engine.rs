use uclip::engine::{SUPPRESSION_TTL_MS, DEFAULT_MAX_ITEM_BYTES};
use uclip::{Action, ClipContent, DeviceId, Engine, LamportClock, Message, UpdateId};

fn text(s: &str) -> ClipContent {
    ClipContent::Text { text: s.to_string() }
}

fn dev(s: &str) -> DeviceId {
    s.parse().unwrap()
}

fn broadcast_of(actions: Vec<Action>) -> Message {
    match actions.into_iter().next().unwrap() {
        Action::Broadcast(msg) => msg,
        _ => unreachable!(),
    }
}

#[test]
fn clock_ticks_monotonically() {
    let mut clock = LamportClock::new();
    assert_eq!(clock.get(), 0);
    assert_eq!(clock.tick(), 1);
    assert_eq!(clock.tick(), 2);
    assert_eq!(clock.get(), 2);
}

#[test]
fn witness_advances_clock_past_remote_time() {
    let mut clock = LamportClock::new();
    clock.tick();

    assert_eq!(clock.witness(10), 11);
    assert_eq!(clock.get(), 11);

    assert_eq!(clock.witness(5), 12);
    assert_eq!(clock.get(), 12);
}

#[test]
fn update_id_orders_by_lamport_then_origin() {
    let dev_a = dev("11111111-1111-1111-1111-111111111111");
    let dev_b = dev("22222222-2222-2222-2222-222222222222");

    let id1 = UpdateId { lamport: 1, origin: dev_a };
    let id2 = UpdateId { lamport: 2, origin: dev_a };
    let id3 = UpdateId { lamport: 1, origin: dev_b };

    assert!(id2 > id1);
    assert!(id3 > id1);
}

#[test]
fn update_id_is_at_most_follows_the_same_order() {
    let dev_a = dev("11111111-1111-1111-1111-111111111111");
    let dev_b = dev("22222222-2222-2222-2222-222222222222");
    let id1 = UpdateId { lamport: 1, origin: dev_a };
    let id2 = UpdateId { lamport: 2, origin: dev_a };
    let id3 = UpdateId { lamport: 1, origin: dev_b };
    let id4 = UpdateId { lamport: 2, origin: dev_b };

    assert!(id1.is_at_most(&id2));
    assert!(!id2.is_at_most(&id1));
    assert!(id1.is_at_most(&id3));
    assert!(!id3.is_at_most(&id1));
    assert!(id3.is_at_most(&id2));
    assert!(id1.is_at_most(&id1));
    for (a, b) in [(id1, id2), (id2, id1), (id1, id3), (id3, id1), (id3, id2), (id2, id4), (id4, id4)] {
        assert_eq!(a.is_at_most(&b), a <= b);
    }
}

#[test]
fn on_local_change_emits_broadcast_for_new_content() {
    let dev_id = dev("11111111-1111-1111-1111-111111111111");
    let mut engine = Engine::new(dev_id);

    let content = text("hello world");
    let actions = engine.on_local_change(content.clone(), 1000);

    assert_eq!(actions.len(), 1);
    assert_eq!(engine.clock(), 1);

    match &actions[0] {
        Action::Broadcast(Message::ClipUpdate {
            origin,
            lamport,
            created_at_ms,
            content: msg_content,
            ..
        }) => {
            assert_eq!(*origin, dev_id);
            assert_eq!(*lamport, 1);
            assert_eq!(*created_at_ms, 1000);
            assert_eq!(msg_content, &content);
        }
        other => panic!("expected Action::Broadcast(ClipUpdate), got {:?}", other),
    }
}

#[test]
fn on_local_change_deduplicates_identical_content() {
    let dev_id = dev("11111111-1111-1111-1111-111111111111");
    let mut engine = Engine::new(dev_id);

    let content = text("hello");
    let actions1 = engine.on_local_change(content.clone(), 1000);
    let actions2 = engine.on_local_change(content.clone(), 1050);

    assert_eq!(actions1.len(), 1);
    assert!(actions2.is_empty());
    assert_eq!(engine.clock(), 1);
}

#[test]
fn remote_update_resolves_tie_using_higher_device_id() {
    let dev_a = dev("11111111-1111-1111-1111-111111111111");
    let dev_b = dev("22222222-2222-2222-2222-222222222222");
    let mut engine_a = Engine::new(dev_a);
    let mut engine_b = Engine::new(dev_b);

    let content_a = text("from A");
    let content_b = text("from B");

    let actions_a = engine_a.on_local_change(content_a, 1000);
    let actions_b = engine_b.on_local_change(content_b.clone(), 1000);

    let msg_b = broadcast_of(actions_b);
    let msg_a = broadcast_of(actions_a);

    let actions_on_a = engine_a.on_remote_update(dev_b, msg_b, 1050);
    assert_eq!(actions_on_a, vec![Action::ApplyToClipboard(content_b)]);

    let actions_on_b = engine_b.on_remote_update(dev_a, msg_a, 1050);
    assert!(actions_on_b.is_empty());
}

#[test]
fn remote_update_sets_echo_suppression() {
    let dev_a = dev("11111111-1111-1111-1111-111111111111");
    let dev_b = dev("22222222-2222-2222-2222-222222222222");
    let mut engine_a = Engine::new(dev_a);
    let mut engine_b = Engine::new(dev_b);

    let content_b = text("from B");
    let actions_b = engine_b.on_local_change(content_b.clone(), 1000);
    let msg_b = broadcast_of(actions_b);

    let actions = engine_a.on_remote_update(dev_b, msg_b, 1000);
    assert_eq!(actions, vec![Action::ApplyToClipboard(content_b.clone())]);

    let echo_actions = engine_a.on_local_change(content_b, 1500);
    assert!(echo_actions.is_empty());
}

#[test]
fn tick_prunes_expired_suppression_entries() {
    let dev_a = dev("11111111-1111-1111-1111-111111111111");
    let dev_b = dev("22222222-2222-2222-2222-222222222222");
    let mut engine_a = Engine::new(dev_a);
    let mut engine_b = Engine::new(dev_b);

    let content_b = text("from B");
    let actions_b = engine_b.on_local_change(content_b.clone(), 1000);
    let msg_b = broadcast_of(actions_b);

    let actions = engine_a.on_remote_update(dev_b, msg_b, 1000);
    assert_eq!(actions, vec![Action::ApplyToClipboard(content_b.clone())]);
    assert_eq!(engine_a.suppression_count(), 1);

    engine_a.tick(2500);
    assert_eq!(engine_a.suppression_count(), 1);

    let intermediate = text("intermediate");
    engine_a.on_local_change(intermediate, 2600);

    engine_a.tick(3500);
    assert_eq!(engine_a.suppression_count(), 0);

    let local_actions = engine_a.on_local_change(content_b, 3600);
    assert_eq!(local_actions.len(), 1);
}

#[test]
fn local_change_ignores_clips_exceeding_max_bytes() {
    let dev_a = dev("11111111-1111-1111-1111-111111111111");
    let mut engine = Engine::new(dev_a).with_max_item_bytes(5);

    let actions = engine.on_local_change(text("hello world"), 1000);

    assert!(actions.is_empty());
    assert_eq!(engine.clock(), 0);
}

#[test]
fn remote_update_rejects_spoofed_origin() {
    let dev_a = dev("11111111-1111-1111-1111-111111111111");
    let dev_b = dev("22222222-2222-2222-2222-222222222222");
    let dev_rouge = dev("33333333-3333-3333-3333-333333333333");

    let mut engine_a = Engine::new(dev_a);

    let spoofed_msg = Message::ClipUpdate {
        update_id: uuid::Uuid::new_v4().as_u128(),
        origin: dev_rouge,
        lamport: 1,
        created_at_ms: 1000,
        content: text("imposter"),
    };

    let actions = engine_a.on_remote_update(dev_b, spoofed_msg, 1000);

    assert!(actions.is_empty());
    assert_eq!(engine_a.clock(), 0);
}

#[test]
fn remote_update_ignores_clips_exceeding_max_bytes() {
    let dev_a = dev("11111111-1111-1111-1111-111111111111");
    let dev_b = dev("22222222-2222-2222-2222-222222222222");

    let mut engine_a = Engine::new(dev_a).with_max_item_bytes(5);

    let msg = Message::ClipUpdate {
        update_id: uuid::Uuid::new_v4().as_u128(),
        origin: dev_b,
        lamport: 1,
        created_at_ms: 1000,
        content: text("oversized clip"),
    };

    let actions = engine_a.on_remote_update(dev_b, msg, 1000);

    assert!(actions.is_empty());
    assert_eq!(engine_a.clock(), 0);
}

#[test]
fn size_limit_counts_utf8_bytes_not_characters() {
    let dev_a = dev("11111111-1111-1111-1111-111111111111");
    // "héllo" is five characters but six bytes.
    let mut engine = Engine::new(dev_a).with_max_item_bytes(5);
    assert!(engine.on_local_change(text("héllo"), 1000).is_empty());
    let mut engine = Engine::new(dev_a).with_max_item_bytes(6);
    assert_eq!(engine.on_local_change(text("héllo"), 1000).len(), 1);
}

#[test]
fn default_engine_limit_is_ten_mebibytes() {
    assert_eq!(DEFAULT_MAX_ITEM_BYTES, 10 * 1024 * 1024);
    assert_eq!(SUPPRESSION_TTL_MS, 2000);
    let dev_a = dev("11111111-1111-1111-1111-111111111111");
    let mut engine = Engine::new(dev_a);
    let big = "x".repeat(DEFAULT_MAX_ITEM_BYTES);
    assert_eq!(engine.on_local_change(text(&big), 1).len(), 1);
    let too_big = "y".repeat(DEFAULT_MAX_ITEM_BYTES + 1);
    assert!(engine.on_local_change(text(&too_big), 2).is_empty());
}

#[test]
fn older_remote_update_leaves_clock_unchanged() {
    let dev_a = dev("11111111-1111-1111-1111-111111111111");
    let dev_b = dev("22222222-2222-2222-2222-222222222222");
    let mut engine = Engine::new(dev_b);
    for i in 0..5 {
        engine.on_local_change(text(&format!("local {i}")), 100 + i);
    }
    assert_eq!(engine.clock(), 5);
    let old = Message::ClipUpdate {
        update_id: 7,
        origin: dev_a,
        lamport: 3,
        created_at_ms: 1,
        content: text("stale"),
    };
    assert!(engine.on_remote_update(dev_a, old, 200).is_empty());
    assert_eq!(engine.clock(), 5);
    assert_eq!(engine.suppression_count(), 0);
}

#[test]
fn remote_update_newer_advances_clock_past_it() {
    let dev_a = dev("11111111-1111-1111-1111-111111111111");
    let dev_b = dev("22222222-2222-2222-2222-222222222222");
    let mut engine = Engine::new(dev_b);
    let msg = Message::ClipUpdate {
        update_id: 9,
        origin: dev_a,
        lamport: 40,
        created_at_ms: 1,
        content: text("news"),
    };
    assert_eq!(engine.on_remote_update(dev_a, msg, 10), vec![Action::ApplyToClipboard(text("news"))]);
    assert_eq!(engine.clock(), 41);
    // The next local change is stamped after the remote one.
    let msg = broadcast_of(engine.on_local_change(text("reply"), 20));
    match msg {
        Message::ClipUpdate { lamport, origin, .. } => {
            assert_eq!(lamport, 42);
            assert_eq!(origin, dev_b);
        }
        _ => unreachable!(),
    }
}

#[test]
fn non_clip_messages_are_ignored_by_engine() {
    let dev_a = dev("11111111-1111-1111-1111-111111111111");
    let dev_b = dev("22222222-2222-2222-2222-222222222222");
    let mut engine = Engine::new(dev_a);
    assert!(engine.on_remote_update(dev_b, Message::Ping { nonce: 1 }, 5).is_empty());
    assert!(engine.on_remote_update(dev_b, Message::Pong { nonce: 1 }, 5).is_empty());
    assert!(engine
        .on_remote_update(dev_b, Message::Goodbye { reason: uclip::GoodbyeReason::Shutdown }, 5)
        .is_empty());
    assert_eq!(engine.clock(), 0);
}

#[test]
fn same_remote_update_twice_is_applied_once() {
    let dev_a = dev("11111111-1111-1111-1111-111111111111");
    let dev_b = dev("22222222-2222-2222-2222-222222222222");
    let mut engine = Engine::new(dev_a);
    let msg = Message::ClipUpdate {
        update_id: 1,
        origin: dev_b,
        lamport: 3,
        created_at_ms: 1,
        content: text("once"),
    };
    assert_eq!(engine.on_remote_update(dev_b, msg.clone(), 10).len(), 1);
    assert!(engine.on_remote_update(dev_b, msg, 20).is_empty());
    assert_eq!(engine.suppression_count(), 1);
    // The repeat changes nothing, the clock included.
    assert_eq!(engine.clock(), 4);
}

#[test]
fn two_updates_in_either_order_converge() {
    let dev_a = dev("11111111-1111-1111-1111-111111111111");
    let dev_b = dev("22222222-2222-2222-2222-222222222222");
    let dev_c = dev("33333333-3333-3333-3333-333333333333");
    let u1 = Message::ClipUpdate {
        update_id: 1,
        origin: dev_b,
        lamport: 4,
        created_at_ms: 1,
        content: text("from B"),
    };
    let u2 = Message::ClipUpdate {
        update_id: 2,
        origin: dev_c,
        lamport: 4,
        created_at_ms: 1,
        content: text("from C"),
    };
    let mut e1 = Engine::new(dev_a);
    let mut e2 = Engine::new(dev_a);
    e1.on_remote_update(dev_b, u1.clone(), 10);
    let last1 = e1.on_remote_update(dev_c, u2.clone(), 20);
    e2.on_remote_update(dev_c, u2, 10);
    let last2 = e2.on_remote_update(dev_b, u1, 20);
    assert_eq!(last1, vec![Action::ApplyToClipboard(text("from C"))]);
    assert!(last2.is_empty());
    // Both now hold "from C": a local copy of it is a duplicate on both.
    assert!(e1.on_local_change(text("from C"), 5000).is_empty());
    assert!(e2.on_local_change(text("from C"), 5000).is_empty());
}

#[test]
fn applied_remote_clip_is_not_broadcast_back() {
    let dev_a = dev("11111111-1111-1111-1111-111111111111");
    let dev_b = dev("22222222-2222-2222-2222-222222222222");
    let mut engine = Engine::new(dev_a);
    let msg = Message::ClipUpdate {
        update_id: 1,
        origin: dev_b,
        lamport: 1,
        created_at_ms: 1,
        content: text("remote"),
    };
    let actions = engine.on_remote_update(dev_b, msg, 100);
    assert!(actions.iter().all(|a| !matches!(a, Action::Broadcast(_))));
    // Another local clip replaces it; the remote text copied back within
    // the suppression window is still an echo.
    assert_eq!(engine.on_local_change(text("other"), 200).len(), 1);
    assert!(engine.on_local_change(text("remote"), 2099).is_empty());
    assert_eq!(engine.on_local_change(text("remote"), 2100).len(), 1);
}

#[test]
fn remote_update_that_would_overflow_is_ignored() {
    let dev_a = dev("11111111-1111-1111-1111-111111111111");
    let dev_b = dev("22222222-2222-2222-2222-222222222222");
    let mut engine = Engine::new(dev_a);
    let hostile = Message::ClipUpdate {
        update_id: 1,
        origin: dev_b,
        lamport: u64::MAX,
        created_at_ms: 1,
        content: text("hostile"),
    };
    assert!(engine.on_remote_update(dev_b, hostile, 10).is_empty());
    assert_eq!(engine.clock(), 0);
    assert_eq!(engine.suppression_count(), 0);
    let late = Message::ClipUpdate {
        update_id: 2,
        origin: dev_b,
        lamport: 1,
        created_at_ms: 1,
        content: text("late"),
    };
    assert!(engine.on_remote_update(dev_b, late, u64::MAX - 1).is_empty());
    assert_eq!(engine.clock(), 0);
    let fine = Message::ClipUpdate {
        update_id: 3,
        origin: dev_b,
        lamport: u64::MAX - 1,
        created_at_ms: 1,
        content: text("fine"),
    };
    assert_eq!(engine.on_remote_update(dev_b, fine, 10), vec![Action::ApplyToClipboard(text("fine"))]);
    assert_eq!(engine.clock(), u64::MAX);
    // With the clock at its end, nothing more can be adopted.
    let dev_f = dev("ffffffff-ffff-4fff-bfff-ffffffffffff");
    let newer = Message::ClipUpdate {
        update_id: 4,
        origin: dev_f,
        lamport: u64::MAX - 1,
        created_at_ms: 1,
        content: text("newer"),
    };
    assert!(engine.on_remote_update(dev_f, newer, 20).is_empty());
    assert_eq!(engine.clock(), u64::MAX);
    assert!(engine.on_remote_update(dev_b, Message::Ping { nonce: 3 }, 10).is_empty());
}

#[test]
fn handlers_taking_the_hash_follow_the_given_hash() {
    let dev_a = dev("11111111-1111-1111-1111-111111111111");
    let dev_b = dev("22222222-2222-2222-2222-222222222222");
    let mut engine = Engine::new(dev_a);
    let h1 = [1u8; 32];
    let h2 = [2u8; 32];
    assert_eq!(engine.on_local_change_with_hash(text("one"), h1, 10).len(), 1);
    // A different text with the same hash counts as the current content.
    assert!(engine.on_local_change_with_hash(text("two"), h1, 20).is_empty());
    assert_eq!(engine.on_local_change_with_hash(text("two"), h2, 30).len(), 1);
    assert_eq!(engine.clock(), 2);
    let msg = Message::ClipUpdate {
        update_id: 5,
        origin: dev_b,
        lamport: 9,
        created_at_ms: 1,
        content: text("remote"),
    };
    assert_eq!(
        engine.on_remote_update_with_hash(dev_b, msg, h1, 100),
        vec![Action::ApplyToClipboard(text("remote"))]
    );
    assert_eq!(engine.clock(), 10);
    assert_eq!(engine.suppression_count(), 1);
    // The suppressed hash is the one given: h1 is an echo, the text "remote"
    // with its real hash is not current and not suppressed.
    assert!(engine.on_local_change_with_hash(text("anything"), h1, 200).is_empty());
    assert_eq!(engine.on_local_change(text("remote"), 300).len(), 1);
}

#[test]
fn clock_is_at_least_the_remote_time_after_a_valid_update() {
    let dev_a = dev("11111111-1111-1111-1111-111111111111");
    let dev_b = dev("22222222-2222-2222-2222-222222222222");
    let mut engine = Engine::new(dev_b);
    for i in 0..3 {
        engine.on_local_change(text(&format!("l{i}")), i);
    }
    // Older update (lamport 2 < current 3): ignored, clock 3 >= 2.
    let older = Message::ClipUpdate {
        update_id: 1,
        origin: dev_a,
        lamport: 2,
        created_at_ms: 1,
        content: text("older"),
    };
    assert!(engine.on_remote_update(dev_a, older, 10).is_empty());
    assert!(engine.clock() >= 2);
    assert_eq!(engine.clock(), 3);
}

#[test]
fn local_broadcast_update_id_is_a_version_four_uuid() {
    let dev_a = dev("11111111-1111-1111-1111-111111111111");
    let mut engine = Engine::new(dev_a);
    match broadcast_of(engine.on_local_change(text("x"), 1)) {
        Message::ClipUpdate { update_id, .. } => {
            assert_eq!((update_id >> 76) & 0xf, 4);
            assert_eq!((update_id >> 62) & 0x3, 2);
        }
        _ => unreachable!(),
    }
}
