use ct_monitor::cache::{CachingLogListService, DEFAULT_CACHE_DURATION_MILLIS};
use ct_monitor::directory::{log_list_from_json, JsonNode};
use ct_monitor::directory::parse_log_list;
use ct_monitor::errors::LogListError;
use ct_monitor::types::LogState;

fn acme_directory_json() -> String {
    // One operator owning one usable log and one rejected log; the keys
    // decode to b"hello" and b"world".
    r#"{
        "is_all_logs": true,
        "version": "1.2",
        "log_list_timestamp": "1970-01-01T00:00:01Z",
        "operators": [
            {
                "name": "Acme",
                "email": ["ct@acme.example"],
                "logs": [
                    {
                        "description": "Acme log one",
                        "log_id": "L1",
                        "key": "aGVsbG8=",
                        "url": "https://l1.acme.example/",
                        "mmd": 86400,
                        "state": { "usable": { "timestamp": "2024-01-01T00:00:00Z" } }
                    },
                    {
                        "description": "Acme log two",
                        "log_id": "L2",
                        "key": "d29ybGQ=",
                        "url": "https://l2.acme.example/",
                        "mmd": 86400,
                        "state": { "rejected": { "timestamp": "2024-01-01T00:00:00Z" } }
                    }
                ],
                "tiled_logs": []
            }
        ]
    }"#
    .to_string()
}

#[test]
fn round_trip_acme_directory() {
    let list = parse_log_list(&acme_directory_json()).expect("directory must parse");
    assert!(list.is_all_logs);
    assert_eq!(list.version, "1.2");
    assert_eq!(list.log_list_timestamp, 1000);
    assert_eq!(list.operators.len(), 1);
    assert_eq!(list.operators[0].name, "Acme");
    assert_eq!(list.operators[0].email, vec!["ct@acme.example".to_string()]);

    let mut service = CachingLogListService::new(1000);
    service.apply_refresh(&list, 77);
    assert_eq!(service.cache.last_updated, 77);

    let l1 = service.get_by_id("L1").expect("the usable log is indexed");
    assert_eq!(l1.log_id, "L1");
    assert_eq!(l1.description, "Acme log one");
    assert_eq!(l1.key, b"hello".to_vec());
    assert_eq!(l1.url, "https://l1.acme.example/");
    assert_eq!(l1.mmd, 86400);
    assert!(matches!(l1.state, Some(LogState::Usable { .. })));

    let l2 = service.get_by_id("L2");
    assert!(matches!(l2, Err(LogListError::NotFound)));

    let acme_logs = service.get_all_by_operator("Acme");
    assert_eq!(acme_logs.len(), 1);
    assert_eq!(acme_logs[0].log_id, "L1");
}

#[test]
fn non_usable_states_are_never_indexed() {
    let json = r#"{
        "is_all_logs": false,
        "version": "1",
        "log_list_timestamp": "2024-06-01T00:00:00Z",
        "operators": [
            {
                "name": "Mixed",
                "email": [],
                "logs": [
                    {"description": "p", "log_id": "P", "key": "AAAA", "url": "u", "mmd": 1,
                     "state": { "pending": { "timestamp": "2024-01-01T00:00:00Z" } }},
                    {"description": "r", "log_id": "R", "key": "AAAA", "url": "u", "mmd": 1,
                     "state": { "retired": { "timestamp": "2024-01-01T00:00:00Z" } }},
                    {"description": "ro", "log_id": "RO", "key": "AAAA", "url": "u", "mmd": 1,
                     "state": { "readonly": { "timestamp": "2024-01-01T00:00:00Z",
                       "final_tree_head": { "sha256_root_hash": "AAAA", "tree_size": 5 } } }},
                    {"description": "n", "log_id": "N", "key": "AAAA", "url": "u", "mmd": 1},
                    {"description": "ok", "log_id": "OK", "key": "AAAA", "url": "u", "mmd": 1,
                     "state": { "usable": { "timestamp": "2024-01-01T00:00:00Z" } }}
                ],
                "tiled_logs": []
            }
        ]
    }"#;
    let list = parse_log_list(json).expect("directory must parse");
    let mut service = CachingLogListService::new(1000);
    service.apply_refresh(&list, 1);

    for id in ["P", "R", "RO", "N"] {
        assert!(matches!(service.get_by_id(id), Err(LogListError::NotFound)));
    }
    assert!(service.get_by_id("OK").is_ok());

    let usable = service.get_all_by_operator("Mixed");
    assert_eq!(usable.len(), 1);
    assert_eq!(usable[0].log_id, "OK");
}

#[test]
fn unknown_operator_yields_empty_list() {
    let list = parse_log_list(&acme_directory_json()).expect("directory must parse");
    let mut service = CachingLogListService::new(1000);
    service.apply_refresh(&list, 0);
    let logs = service.get_all_by_operator("Nobody");
    assert!(logs.is_empty());
}

#[test]
fn empty_cache_serves_nothing() {
    let service = CachingLogListService::default();
    assert_eq!(service.cache_duration, DEFAULT_CACHE_DURATION_MILLIS);
    assert!(matches!(service.get_by_id("L1"), Err(LogListError::NotFound)));
    assert!(service.get_all_by_operator("Acme").is_empty());
}

#[test]
fn stale_cache_refreshes_exactly_once() {
    let list = parse_log_list(&acme_directory_json()).expect("directory must parse");
    let ttl: u64 = 10_000;
    let now: u64 = 100_000;
    let mut service = CachingLogListService::new(ttl);
    service.cache.last_updated = now - (ttl + 1000);

    // Several accesses at the same instant: the first finds the cache
    // stale and refreshes, none of the others does.
    let mut fetches = 0;
    for _ in 0..3 {
        if service.needs_refresh(now) {
            fetches += 1;
            service.apply_refresh(&list, now);
        }
        let _ = service.get_by_id("L1");
    }
    assert_eq!(fetches, 1);
}

#[test]
fn fresh_cache_never_refreshes() {
    let ttl: u64 = 10_000;
    let now: u64 = 100_000;
    let mut service = CachingLogListService::new(ttl);
    service.cache.last_updated = now;
    assert!(!service.needs_refresh(now));
}

#[test]
fn clock_stepping_backwards_counts_as_stale() {
    let mut service = CachingLogListService::new(10_000);
    service.cache.last_updated = 50_000;
    assert!(service.needs_refresh(40_000));
}

#[test]
fn id_collision_last_writer_wins() {
    let json = r#"{
        "is_all_logs": false,
        "version": "1",
        "log_list_timestamp": "2024-06-01T00:00:00Z",
        "operators": [
            {
                "name": "First",
                "email": [],
                "logs": [
                    {"description": "first copy", "log_id": "DUP", "key": "AAAA", "url": "u1",
                     "mmd": 1, "state": { "usable": { "timestamp": "2024-01-01T00:00:00Z" } }}
                ],
                "tiled_logs": []
            },
            {
                "name": "Second",
                "email": [],
                "logs": [
                    {"description": "second copy", "log_id": "DUP", "key": "AAAA", "url": "u2",
                     "mmd": 1, "state": { "usable": { "timestamp": "2024-01-01T00:00:00Z" } }}
                ],
                "tiled_logs": []
            }
        ]
    }"#;
    let list = parse_log_list(json).expect("directory must parse");
    let mut service = CachingLogListService::new(1000);
    service.apply_refresh(&list, 1);
    let dup = service.get_by_id("DUP").expect("indexed");
    assert_eq!(dup.description, "second copy");
    // both operators still list their own copy
    assert_eq!(service.get_all_by_operator("First").len(), 1);
    assert_eq!(service.get_all_by_operator("First")[0].url, "u1");
    assert_eq!(service.get_all_by_operator("Second")[0].url, "u2");
}

#[test]
fn refresh_replaces_wholesale() {
    let list = parse_log_list(&acme_directory_json()).expect("directory must parse");
    let mut service = CachingLogListService::new(1000);
    service.apply_refresh(&list, 1);
    assert!(service.get_by_id("L1").is_ok());

    let empty = parse_log_list(
        r#"{"is_all_logs": false, "version": "2",
            "log_list_timestamp": "2024-06-01T00:00:00Z", "operators": []}"#,
    )
    .expect("directory must parse");
    service.apply_refresh(&empty, 2);
    assert!(matches!(service.get_by_id("L1"), Err(LogListError::NotFound)));
    assert!(service.get_all_by_operator("Acme").is_empty());
    assert_eq!(service.cache.last_updated, 2);
}

#[test]
fn malformed_payloads_are_parse_errors() {
    for bad in [
        "not json at all",
        r#"{"version": "1"}"#,
        // key is not base64
        r#"{"is_all_logs": false, "version": "1",
            "log_list_timestamp": "2024-06-01T00:00:00Z",
            "operators": [{"name": "A", "email": [], "tiled_logs": [],
              "logs": [{"description": "d", "log_id": "L", "key": "!!!", "url": "u", "mmd": 1}]}]}"#,
        // timestamp is not RFC 3339
        r#"{"is_all_logs": false, "version": "1", "log_list_timestamp": "yesterday",
            "operators": []}"#,
        // unknown state tag
        r#"{"is_all_logs": false, "version": "1",
            "log_list_timestamp": "2024-06-01T00:00:00Z",
            "operators": [{"name": "A", "email": [], "tiled_logs": [],
              "logs": [{"description": "d", "log_id": "L", "key": "AAAA", "url": "u", "mmd": 1,
                        "state": { "frozen": { "timestamp": "2024-01-01T00:00:00Z" } }}]}]}"#,
        // merge delay out of range for a 32-bit integer
        r#"{"is_all_logs": false, "version": "1",
            "log_list_timestamp": "2024-06-01T00:00:00Z",
            "operators": [{"name": "A", "email": [], "tiled_logs": [],
              "logs": [{"description": "d", "log_id": "L", "key": "AAAA", "url": "u",
                        "mmd": 4294967296}]}]}"#,
    ] {
        let r = parse_log_list(bad);
        assert!(matches!(r, Err(LogListError::ParseError(_))), "accepted: {bad}");
    }
}

#[test]
fn readonly_final_tree_head_is_decoded() {
    let json = r#"{
        "is_all_logs": false,
        "version": "1",
        "log_list_timestamp": "2024-06-01T00:00:00Z",
        "operators": [
            {
                "name": "A",
                "email": [],
                "logs": [
                    {"description": "ro", "log_id": "RO", "key": "AAAA", "url": "u", "mmd": 1,
                     "state": { "readonly": { "timestamp": "2024-01-01T00:00:00Z",
                       "final_tree_head": { "sha256_root_hash": "aGVsbG8=", "tree_size": 42 } } }}
                ],
                "tiled_logs": []
            }
        ]
    }"#;
    let list = parse_log_list(json).expect("directory must parse");
    match &list.operators[0].logs[0].state {
        Some(LogState::Readonly { final_tree_head, .. }) => {
            assert_eq!(final_tree_head.sha256_root_hash, b"hello".to_vec());
            assert_eq!(final_tree_head.tree_size, 42);
        }
        other => panic!("wrong state: {other:?}"),
    }
    assert!(!list.operators[0].logs[0].is_usable());
}

#[test]
fn tiled_logs_and_optional_fields_are_parsed() {
    let json = r#"{
        "is_all_logs": true,
        "version": "3",
        "log_list_timestamp": "2024-06-01T00:00:00Z",
        "operators": [
            {
                "name": "Tiled",
                "email": ["a@b.c", "d@e.f"],
                "logs": [
                    {"description": "d", "log_id": "L", "key": "AAAA", "url": "u", "mmd": 1,
                     "log_type": "prod",
                     "temporal_interval": {
                        "start_inclusive": "1970-01-01T00:00:02Z",
                        "end_exclusive": "1970-01-01T00:00:03Z" },
                     "state": { "usable": { "timestamp": "2024-01-01T00:00:00Z" } }}
                ],
                "tiled_logs": [
                    {"description": "t", "log_id": "T1", "key": "aGVsbG8=",
                     "submission_url": "https://sub.example/",
                     "monitoring_url": "https://mon.example/",
                     "mmd": 7,
                     "state": { "usable": { "timestamp": "2024-01-01T00:00:00Z" } }}
                ]
            }
        ]
    }"#;
    let list = parse_log_list(json).expect("directory must parse");
    let op = &list.operators[0];
    assert_eq!(op.email.len(), 2);

    let log = &op.logs[0];
    assert_eq!(log.log_type.as_deref(), Some("prod"));
    let interval = log.temporal_interval.expect("interval present");
    assert_eq!(interval.start_inclusive, 2000);
    assert_eq!(interval.end_exclusive, 3000);

    let tiled = &op.tiled_logs[0];
    assert_eq!(tiled.log_id, "T1");
    assert_eq!(tiled.key, b"hello".to_vec());
    assert_eq!(tiled.submission_url, "https://sub.example/");
    assert_eq!(tiled.monitoring_url, "https://mon.example/");
    assert_eq!(tiled.mmd, 7);
}

#[test]
fn typed_directory_is_built_from_a_json_tree() {
    // The grammar walk works on the library's own JSON tree: the same
    // directory built as a tree, without any document text.
    let log = JsonNode::Obj(vec![
        ("description".to_string(), JsonNode::Str("d".to_string())),
        ("key".to_string(), JsonNode::Str("aGVsbG8=".to_string())),
        ("log_id".to_string(), JsonNode::Str("T".to_string())),
        ("mmd".to_string(), JsonNode::Num(Some(3))),
        (
            "state".to_string(),
            JsonNode::Obj(vec![(
                "usable".to_string(),
                JsonNode::Obj(vec![(
                    "timestamp".to_string(),
                    JsonNode::Str("1970-01-01T00:00:05Z".to_string()),
                )]),
            )]),
        ),
        ("url".to_string(), JsonNode::Str("u".to_string())),
    ]);
    let operator = JsonNode::Obj(vec![
        ("email".to_string(), JsonNode::Arr(vec![])),
        ("logs".to_string(), JsonNode::Arr(vec![log])),
        ("name".to_string(), JsonNode::Str("Tree".to_string())),
        ("tiled_logs".to_string(), JsonNode::Arr(vec![])),
    ]);
    let root = JsonNode::Obj(vec![
        ("is_all_logs".to_string(), JsonNode::Bool(false)),
        (
            "log_list_timestamp".to_string(),
            JsonNode::Str("1970-01-01T00:00:09Z".to_string()),
        ),
        ("operators".to_string(), JsonNode::Arr(vec![operator])),
        ("version".to_string(), JsonNode::Str("7".to_string())),
    ]);
    let list = log_list_from_json(&root).expect("the tree has the directory shape");
    assert_eq!(list.version, "7");
    assert_eq!(list.log_list_timestamp, 9000);
    assert_eq!(list.operators[0].name, "Tree");
    assert_eq!(list.operators[0].logs[0].key, b"hello".to_vec());
    assert_eq!(list.operators[0].logs[0].mmd, 3);
    assert!(list.operators[0].logs[0].is_usable());

    // A tree missing a required field is rejected.
    let bad = JsonNode::Obj(vec![("version".to_string(), JsonNode::Str("7".to_string()))]);
    assert!(log_list_from_json(&bad).is_err());
}

#[test]
fn error_messages_carry_their_detail() {
    let e = LogListError::NetworkError("no route".to_string());
    assert_eq!(e.message(), "no route");
    let e = LogListError::ParseError("bad field".to_string());
    assert_eq!(e.message(), "bad field");
    let e = LogListError::NotFound;
    assert_eq!(e.message(), "log not found");
}
