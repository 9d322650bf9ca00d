use neko::clock::{Civil, ClockInfo};
use neko::config::{DmScope, ResetMode, SessionConfig};
use neko::items::{Item, Role, Usage};
use neko::json::parse_json_text;
use neko::session_key::SessionKey;
use neko::store::{should_reset, snapshot_to_metas, SessionStore};

fn civil(y: i32, mo: u32, d: u32, h: u32) -> Civil {
    Civil { year: y, month: mo, day: d, hour: h, minute: 0, second: 0 }
}

fn test_config() -> SessionConfig {
    SessionConfig {
        dm_scope: DmScope::Main,
        reset_mode: ResetMode::Daily,
        reset_at_hour: 4,
        idle_minutes: None,
        max_history: 100,
        max_cached: 8,
    }
}

#[test]
fn session_keys_are_deterministic() {
    assert_eq!(SessionKey::main_dm().0, "neko:main");
    assert_eq!(SessionKey::channel_peer("telegram", "42").0, "neko:telegram:dm:42");
    assert_eq!(SessionKey::group("telegram", "g9").0, "neko:telegram:group:g9");
    assert_eq!(SessionKey::group("a", "b").to_filename(), "neko_a_group_b");
}

#[test]
fn resolve_key_honours_scope_policy() {
    let store = SessionStore::new(test_config());
    assert_eq!(store.resolve_key("telegram", "7", false, None).0, "neko:main");
    assert_eq!(store.resolve_key("telegram", "7", true, Some("g1")).0, "neko:telegram:group:g1");

    let mut per_peer = test_config();
    per_peer.dm_scope = DmScope::PerChannelPeer;
    let store2 = SessionStore::new(per_peer);
    assert_eq!(store2.resolve_key("telegram", "7", false, None).0, "neko:telegram:dm:7");
}

#[test]
fn get_or_create_reuses_by_key() {
    let mut store = SessionStore::new(test_config());
    let key = SessionKey::main_dm();
    let (id1, created1) = store.get_or_create(&key, Some("telegram"), None, 1000);
    let (id2, created2) = store.get_or_create(&key, Some("telegram"), None, 2000);
    assert!(created1);
    assert!(!created2);
    assert_eq!(id1, id2);
    assert_eq!(id1.len(), 36);
}

#[test]
fn update_history_appends_one_line_per_new_item() {
    let mut store = SessionStore::new(test_config());
    let (id, _) = store.get_or_create(&SessionKey::main_dm(), None, None, 1000);
    let history = vec![
        Item::Message { role: Role::User, content: "hi".to_string() },
        Item::Message { role: Role::Assistant, content: "hello".to_string() },
    ];
    let usage = Usage { input_tokens: 5, output_tokens: 2, total_tokens: 7 };
    let lines = store
        .update_history(&id, history, Some(usage), Some("resp_1".to_string()), 1010)
        .unwrap();
    assert_eq!(lines.len(), 2);
    assert!(lines[0].contains("\"type\":\"message\""));

    // A second turn appends only what is new.
    let (h, lrid) = store.get_history(&id).unwrap();
    assert_eq!(h.len(), 2);
    assert_eq!(lrid.as_deref(), Some("resp_1"));
    let mut h2 = h;
    h2.push(Item::Message { role: Role::User, content: "more".to_string() });
    let lines2 = store.update_history(&id, h2, None, None, 1020).unwrap();
    assert_eq!(lines2.len(), 1);

    let metas = store.list();
    assert_eq!(metas[0].turn_count, 2);
    assert_eq!(metas[0].input_tokens, 5);
    assert_eq!(metas[0].output_tokens, 2);
    assert_eq!(metas[0].updated_at, 1020);
}

#[test]
fn reset_clears_state_and_archives_transcript() {
    let mut store = SessionStore::new(test_config());
    let (id, _) = store.get_or_create(&SessionKey::main_dm(), None, None, 1000);
    let history = vec![Item::Message { role: Role::User, content: "hi".to_string() }];
    store.update_history(&id, history, None, Some("resp_1".to_string()), 1010).unwrap();

    let now = ClockInfo { ts: 2000, local: civil(1970, 1, 1, 0) };
    let action = store.reset(&id, now).unwrap();
    assert_eq!(action.from, format!("{id}.jsonl"));
    assert!(action.to.starts_with(&format!("{id}.")));
    assert!(action.to.ends_with(".jsonl"));
    assert_ne!(action.to, action.from);

    let (h, lrid) = store.get_history(&id).unwrap();
    assert_eq!(h.len(), 0);
    assert!(lrid.is_none());
    let metas = store.list();
    assert_eq!(metas[0].turn_count, 0);
    assert_eq!(metas[0].updated_at, 2000);
}

#[test]
fn reset_is_idempotent_and_check_reset_is_quiet_after() {
    let mut store = SessionStore::new(test_config());
    let (id, _) = store.get_or_create(&SessionKey::main_dm(), None, None, 1000);
    let now = ClockInfo { ts: 2000, local: civil(1970, 1, 1, 0) };
    store.reset(&id, now).unwrap();
    let first = store.list();
    store.reset(&id, now).unwrap();
    let second = store.list();
    assert_eq!(first[0].turn_count, second[0].turn_count);
    assert_eq!(first[0].updated_at, second[0].updated_at);

    // The policy does not trigger again at the same instant.
    let (triggered, action) = store.check_reset(&id, now);
    assert!(!triggered);
    assert!(action.is_none());
}

#[test]
fn daily_reset_triggers_after_reset_hour() {
    // Updated yesterday at 23:00 local, now today at 05:00 local.
    assert!(should_reset(
        ResetMode::Daily,
        4,
        None,
        1_000_000,
        900_000,
        civil(2024, 5, 2, 5),
        civil(2024, 5, 1, 23),
    ));
    // Same day: no trigger.
    assert!(!should_reset(
        ResetMode::Daily,
        4,
        None,
        1_000_000,
        990_000,
        civil(2024, 5, 2, 5),
        civil(2024, 5, 2, 1),
    ));
    // Next day but before the reset hour: no trigger.
    assert!(!should_reset(
        ResetMode::Daily,
        4,
        None,
        1_000_000,
        900_000,
        civil(2024, 5, 2, 3),
        civil(2024, 5, 1, 23),
    ));
}

#[test]
fn idle_reset_counts_minutes() {
    let now_l = civil(2024, 5, 2, 5);
    let upd_l = civil(2024, 5, 2, 4);
    assert!(should_reset(ResetMode::Idle, 4, Some(30), 10_000, 8_000, now_l, upd_l));
    assert!(!should_reset(ResetMode::Idle, 4, Some(30), 10_000, 9_000, now_l, upd_l));
    // Daily mode ignores idleness; both mode takes either.
    assert!(!should_reset(ResetMode::Daily, 4, Some(30), 10_000, 8_000, now_l, upd_l));
    assert!(should_reset(ResetMode::Both, 4, Some(30), 10_000, 8_000, now_l, upd_l));
}

#[test]
fn snapshot_text_parses_back_to_the_live_sessions() {
    let mut store = SessionStore::new(test_config());
    let (id1, _) = store.get_or_create(&SessionKey::main_dm(), Some("telegram"), None, 1000);
    let (id2, _) = store.get_or_create(
        &SessionKey::channel_peer("telegram", "7"),
        Some("telegram"),
        Some("Ada"),
        1001,
    );
    store
        .update_history(
            &id1,
            vec![Item::Message { role: Role::User, content: "hi".to_string() }],
            None,
            Some("resp_9".to_string()),
            1500,
        )
        .unwrap();

    let text = store.snapshot();
    let parsed = parse_json_text(&text).expect("snapshot parses");
    let metas = snapshot_to_metas(&parsed).expect("snapshot decodes");
    assert_eq!(metas.len(), 2);
    assert_eq!(metas[0].session_id, id1);
    assert_eq!(metas[0].key, "neko:main");
    assert_eq!(metas[0].updated_at, 1500);
    assert_eq!(metas[0].last_response_id.as_deref(), Some("resp_9"));
    assert_eq!(metas[1].session_id, id2);
    assert_eq!(metas[1].display_name.as_deref(), Some("Ada"));

    // Deletion is reflected in the next snapshot.
    store.delete(&id1).unwrap();
    let metas2 = snapshot_to_metas(&parse_json_text(&store.snapshot()).unwrap()).unwrap();
    assert_eq!(metas2.len(), 1);
    assert_eq!(metas2[0].session_id, id2);

    store.clear_all();
    let metas3 = snapshot_to_metas(&parse_json_text(&store.snapshot()).unwrap()).unwrap();
    assert_eq!(metas3.len(), 0);
}

#[test]
fn transcript_lines_parse_back() {
    let line = "{\"type\":\"message\",\"role\":\"assistant\",\"content\":\"ok\"}";
    match neko::store::parse_transcript_line(line) {
        Some(Item::Message { role: Role::Assistant, content }) => assert_eq!(content, "ok"),
        _ => panic!("expected an assistant message"),
    }
    assert!(neko::store::parse_transcript_line("not json").is_none());
}

#[test]
fn list_sorts_by_update_time_descending() {
    let mut store = SessionStore::new(test_config());
    let (id1, _) = store.get_or_create(&SessionKey::channel_peer("a", "1"), None, None, 10);
    let (_id2, _) = store.get_or_create(&SessionKey::channel_peer("a", "2"), None, None, 20);
    store
        .update_history(
            &id1,
            vec![Item::Message { role: Role::User, content: "x".to_string() }],
            None,
            None,
            99,
        )
        .unwrap();
    let metas = store.list();
    assert_eq!(metas.len(), 2);
    assert!(metas[0].updated_at >= metas[1].updated_at);
    assert_eq!(metas[0].updated_at, 99);
}

#[test]
fn check_reset_fires_under_an_idle_policy() {
    let mut config = test_config();
    config.reset_mode = ResetMode::Idle;
    config.idle_minutes = Some(10);
    let mut store = SessionStore::new(config);
    let (id, _) = store.get_or_create(&SessionKey::main_dm(), None, None, 100_000);

    // Nine minutes later: quiet.
    let soon = ClockInfo { ts: 100_000 + 9 * 60, local: civil(1970, 1, 2, 4) };
    let (triggered, action) = store.check_reset(&id, soon);
    assert!(!triggered);
    assert!(action.is_none());

    // Ten minutes later: the session is reset and the transcript archived.
    let later = ClockInfo { ts: 100_000 + 10 * 60, local: civil(1970, 1, 2, 4) };
    let (triggered, action) = store.check_reset(&id, later);
    assert!(triggered);
    let action = action.unwrap();
    assert_eq!(action.from, format!("{id}.jsonl"));
    assert!(action.to.starts_with(&format!("{id}.")));
    let metas = store.list();
    assert_eq!(metas[0].turn_count, 0);
    assert_eq!(metas[0].updated_at, 100_000 + 600);

    // An unknown id reads as no reset.
    let (triggered, _) = store.check_reset("nope", later);
    assert!(!triggered);
}

#[test]
fn list_is_a_permutation_of_the_live_sessions() {
    let mut store = SessionStore::new(test_config());
    let (a, _) = store.get_or_create(&SessionKey::channel_peer("c", "1"), None, None, 10);
    let (b, _) = store.get_or_create(&SessionKey::channel_peer("c", "2"), None, None, 30);
    let (c, _) = store.get_or_create(&SessionKey::channel_peer("c", "3"), None, None, 20);
    let metas = store.list();
    assert_eq!(metas.len(), 3);
    let mut ids: Vec<String> = metas.iter().map(|m| m.session_id.clone()).collect();
    ids.sort();
    let mut expect = vec![a, b, c];
    expect.sort();
    assert_eq!(ids, expect);
    assert_eq!(metas[0].updated_at, 30);
    assert_eq!(metas[1].updated_at, 20);
    assert_eq!(metas[2].updated_at, 10);
}

#[test]
fn loaded_sessions_keep_their_counters() {
    let mut store = SessionStore::new(test_config());
    let meta = neko::store::SessionMeta {
        session_id: "s-1".to_string(),
        key: "neko:main".to_string(),
        created_at: 50,
        updated_at: 90,
        turn_count: 7,
        input_tokens: 11,
        output_tokens: 13,
        channel: Some("stdin".to_string()),
        display_name: None,
        last_response_id: Some("resp".to_string()),
    };
    store.install_session(meta, Vec::new());
    let metas = store.list();
    assert_eq!(metas.len(), 1);
    assert_eq!(metas[0].turn_count, 7);
    assert_eq!(metas[0].updated_at, 90);
    assert_eq!(metas[0].input_tokens, 11);
    assert_eq!(metas[0].last_response_id.as_deref(), Some("resp"));
}

#[test]
fn control_characters_survive_a_line_round_trip() {
    let item = Item::Message { role: Role::User, content: "a\u{1}b\u{1f}\tc".to_string() };
    let lines = neko::store::encode_lines(&vec![item], 0);
    let back = neko::store::parse_transcript_line(&lines[0]).expect("line parses");
    match back {
        Item::Message { role: Role::User, content } => assert_eq!(content, "a\u{1}b\u{1f}\tc"),
        _ => panic!("wrong item shape"),
    }
}
