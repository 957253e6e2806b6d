use ct_monitor::watcher::{Checkpoint, LogWatcher, PollOutcome, WatcherAction};

fn checkpoint(hash_byte: u8, tree_size: u64) -> Checkpoint {
    Checkpoint {
        sha256_root_hash: vec![hash_byte; 32],
        tree_size,
        timestamp: 1_700_000_000_000,
        signature: vec![4, 3, 0, 0, 9, 9, 9],
    }
}

fn watcher_having_seen(hash_byte: u8) -> LogWatcher<u64> {
    LogWatcher {
        log_id: "L1".to_string(),
        last_seen_root_hash: vec![hash_byte; 32],
        account: 0,
        pending: None,
    }
}

#[test]
fn change_detection_submits_once_per_change() {
    // Root hashes A, A, B, B, C: submissions only for B and for C.
    let mut w = watcher_having_seen(0xAA);
    let mut submissions: Vec<u8> = Vec::new();
    for byte in [0xAAu8, 0xAA, 0xBB, 0xBB, 0xCC] {
        let action = w.on_poll(PollOutcome::Checkpoint(checkpoint(byte, 1)));
        if action == WatcherAction::Submit {
            submissions.push(w.pending_checkpoint().unwrap().sha256_root_hash[0]);
            // the ledger acknowledges at once
            let next = w.account + 1;
            w.on_submit_success(next);
        }
    }
    assert_eq!(submissions, vec![0xBB, 0xCC]);
    assert_eq!(w.last_seen_root_hash, vec![0xCC; 32]);
    assert_eq!(w.account, 2);
}

#[test]
fn retry_until_success_preserves_state() {
    // The submission fails three times, then succeeds: four attempts for
    // the same checkpoint, progress and account unchanged until the
    // fourth succeeds.
    let n = 3;
    let mut w = watcher_having_seen(0xAA);
    let action = w.on_poll(PollOutcome::Checkpoint(checkpoint(0xBB, 7)));
    assert_eq!(action, WatcherAction::Submit);

    let mut attempts = 0;
    for _ in 0..n {
        attempts += 1;
        let action = w.on_submit_failure();
        assert_eq!(action, WatcherAction::Submit);
        assert_eq!(w.last_seen_root_hash, vec![0xAA; 32], "progress must not advance");
        assert_eq!(w.account, 0, "account state must not change");
        assert_eq!(w.pending_checkpoint().unwrap().sha256_root_hash, vec![0xBB; 32]);
        assert_eq!(w.pending_checkpoint().unwrap().tree_size, 7);
    }
    attempts += 1;
    let action = w.on_submit_success(41);
    assert_eq!(action, WatcherAction::Sleep);
    assert_eq!(attempts, n + 1);
    assert_eq!(w.last_seen_root_hash, vec![0xBB; 32]);
    assert_eq!(w.account, 41);
    assert!(w.pending_checkpoint().is_none());
}

#[test]
fn fresh_watcher_submits_first_checkpoint() {
    let mut w: LogWatcher<u64> = LogWatcher::new("L1".to_string(), 0);
    assert_eq!(w.last_seen_root_hash, vec![0u8; 32]);
    let action = w.on_poll(PollOutcome::Checkpoint(checkpoint(0xAA, 1)));
    assert_eq!(action, WatcherAction::Submit);
}

#[test]
fn hard_fetch_error_changes_nothing() {
    let mut w = watcher_having_seen(0xAA);
    let action = w.on_poll(PollOutcome::FetchError);
    assert_eq!(action, WatcherAction::Sleep);
    assert_eq!(w.last_seen_root_hash, vec![0xAA; 32]);
    assert_eq!(w.account, 0);
    assert!(w.pending_checkpoint().is_none());
}

#[test]
fn anomalous_checkpoint_is_observed_but_not_submitted() {
    let mut w = watcher_having_seen(0xAA);
    let action = w.on_poll(PollOutcome::AnomalousCheckpoint(checkpoint(0xBB, 2)));
    assert_eq!(action, WatcherAction::Sleep);
    assert_eq!(w.last_seen_root_hash, vec![0xBB; 32], "observed for visibility");
    assert!(w.pending_checkpoint().is_none(), "never submitted");
    assert_eq!(w.account, 0);

    // A later verified checkpoint with the very same hash is then not
    // submitted either: the hash is no longer a change.
    let action = w.on_poll(PollOutcome::Checkpoint(checkpoint(0xBB, 2)));
    assert_eq!(action, WatcherAction::Sleep);
}

#[test]
fn anomalous_checkpoint_with_known_hash_changes_nothing() {
    let mut w = watcher_having_seen(0xAA);
    let action = w.on_poll(PollOutcome::AnomalousCheckpoint(checkpoint(0xAA, 2)));
    assert_eq!(action, WatcherAction::Sleep);
    assert_eq!(w.last_seen_root_hash, vec![0xAA; 32]);
}

#[test]
fn signable_body_is_the_tls_tree_head_encoding() {
    let cp = Checkpoint {
        sha256_root_hash: vec![0xCD; 32],
        tree_size: 0x0102030405060708,
        timestamp: 0x1122334455667788,
        signature: vec![0, 0, 0, 0],
    };
    let body = cp.signable_body();
    let mut expected = vec![0u8, 1u8];
    expected.extend_from_slice(&[0x11, 0x22, 0x33, 0x44, 0x55, 0x66, 0x77, 0x88]);
    expected.extend_from_slice(&[0x01, 0x02, 0x03, 0x04, 0x05, 0x06, 0x07, 0x08]);
    expected.extend_from_slice(&[0xCD; 32]);
    assert_eq!(body, expected);
    assert_eq!(body.len(), 50);
}

#[test]
fn signature_body_strips_the_fixed_header() {
    let cp = Checkpoint {
        sha256_root_hash: vec![0; 32],
        tree_size: 1,
        timestamp: 2,
        signature: vec![4, 3, 0, 70, 0x30, 0x44, 0x02, 0x20],
    };
    assert_eq!(cp.signature_body(), vec![0x30, 0x44, 0x02, 0x20]);
}

#[test]
fn cloned_checkpoints_match() {
    let cp = checkpoint(0x5A, 9);
    let copy = cp.clone();
    assert_eq!(copy.sha256_root_hash, cp.sha256_root_hash);
    assert_eq!(copy.tree_size, cp.tree_size);
    assert_eq!(copy.timestamp, cp.timestamp);
    assert_eq!(copy.signature, cp.signature);
}
