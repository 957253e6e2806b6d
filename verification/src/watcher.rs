//! The per-log watcher: a state machine that detects checkpoint change
//! and advances local progress only on ledger acknowledgment.
//!
//! One watcher owns one log's progress. Polling the log and submitting
//! to the ledger happen outside the library; their outcomes are handed
//! to [`LogWatcher::on_poll`], [`LogWatcher::on_submit_failure`] and
//! [`LogWatcher::on_submit_success`], which decide every next step. The
//! account state the ledger acknowledges is carried opaquely as a type
//! parameter: the watcher never invents one, it only adopts what a
//! successful submission hands back.

use vstd::prelude::*;

use crate::types::copy_bytes;

verus! {

/// A log's signed commitment to its current state, as fetched from the
/// log: root hash (32 bytes), tree size, timestamp in milliseconds, and
/// the signature over the signable body, led by a fixed four-byte
/// header.
#[derive(Debug)]
pub struct Checkpoint {
    pub sha256_root_hash: Vec<u8>,
    pub tree_size: u64,
    pub timestamp: u64,
    pub signature: Vec<u8>,
}

/// Mathematical view of [`Checkpoint`].
pub ghost struct CheckpointV {
    pub sha256_root_hash: Seq<u8>,
    pub tree_size: u64,
    pub timestamp: u64,
    pub signature: Seq<u8>,
}

impl DeepView for Checkpoint {
    type V = CheckpointV;

    open spec fn deep_view(&self) -> CheckpointV {
        CheckpointV {
            sha256_root_hash: self.sha256_root_hash@,
            tree_size: self.tree_size,
            timestamp: self.timestamp,
            signature: self.signature@,
        }
    }
}

/// The number of leading signature bytes that carry a fixed header and
/// are stripped before the signature itself is parsed.
pub const SIGNATURE_HEADER_LEN: usize = 4;

/// The big-endian bytes of a 64-bit integer.
pub open spec fn u64_be_bytes(x: u64) -> Seq<u8> {
    seq![
        (x >> 56) as u8,
        (x >> 48) as u8,
        (x >> 40) as u8,
        (x >> 32) as u8,
        (x >> 24) as u8,
        (x >> 16) as u8,
        (x >> 8) as u8,
        x as u8,
    ]
}

/// The body a log signs for a checkpoint: version 0, signature type 1
/// (tree hash), then timestamp and tree size in big-endian and the root
/// hash.
pub open spec fn signable_body_of(c: CheckpointV) -> Seq<u8> {
    seq![0u8, 1u8] + u64_be_bytes(c.timestamp) + u64_be_bytes(c.tree_size) + c.sha256_root_hash
}

/// Appends the big-endian bytes of `x`.
fn push_u64_be(out: &mut Vec<u8>, x: u64)
    ensures
        final(out)@ == old(out)@ + u64_be_bytes(x),
{
    out.push((x >> 56) as u8);
    out.push((x >> 48) as u8);
    out.push((x >> 40) as u8);
    out.push((x >> 32) as u8);
    out.push((x >> 24) as u8);
    out.push((x >> 16) as u8);
    out.push((x >> 8) as u8);
    out.push(x as u8);
    proof {
        assert(out@ =~= old(out)@ + u64_be_bytes(x));
    }
}

/// Two byte vectors hold the same bytes.
pub fn bytes_eq(a: &Vec<u8>, b: &Vec<u8>) -> (r: bool)
    ensures
        r == (a@ == b@),
{
    if a.len() != b.len() {
        return false;
    }
    let mut i: usize = 0;
    while i < a.len()
        invariant
            i <= a.len(),
            a@.len() == b@.len(),
            forall|j: int| 0 <= j < i ==> a@[j] == b@[j],
        decreases a.len() - i,
    {
        if a[i] != b[i] {
            return false;
        }
        i += 1;
    }
    proof {
        assert(a@ =~= b@);
    }
    true
}

impl Checkpoint {
    /// The exact byte string the log signed for this checkpoint.
    pub fn signable_body(&self) -> (r: Vec<u8>)
        ensures
            r@ == signable_body_of(self.deep_view()),
    {
        let mut r: Vec<u8> = Vec::new();
        r.push(0);
        r.push(1);
        proof {
            assert(r@ =~= seq![0u8, 1u8]);
        }
        push_u64_be(&mut r, self.timestamp);
        push_u64_be(&mut r, self.tree_size);
        let mut i: usize = 0;
        let ghost prefix = r@;
        while i < self.sha256_root_hash.len()
            invariant
                i <= self.sha256_root_hash.len(),
                r@ == prefix + self.sha256_root_hash@.take(i as int),
            decreases self.sha256_root_hash.len() - i,
        {
            r.push(self.sha256_root_hash[i]);
            proof {
                assert(r@ =~= prefix + self.sha256_root_hash@.take(i as int + 1));
            }
            i += 1;
        }
        proof {
            assert(self.sha256_root_hash@.take(self.sha256_root_hash@.len() as int)
                =~= self.sha256_root_hash@);
            assert(r@ =~= signable_body_of(self.deep_view()));
        }
        r
    }

    /// The signature with its fixed four-byte header stripped: the part
    /// handed to the signature parser.
    pub fn signature_body(&self) -> (r: Vec<u8>)
        requires
            self.signature@.len() >= SIGNATURE_HEADER_LEN,
        ensures
            r@ == self.deep_view().signature.skip(SIGNATURE_HEADER_LEN as int),
    {
        let mut r: Vec<u8> = Vec::new();
        let mut i: usize = SIGNATURE_HEADER_LEN;
        while i < self.signature.len()
            invariant
                SIGNATURE_HEADER_LEN <= i <= self.signature.len(),
                r@ == self.signature@.subrange(SIGNATURE_HEADER_LEN as int, i as int),
            decreases self.signature.len() - i,
        {
            r.push(self.signature[i]);
            proof {
                assert(r@ =~= self.signature@.subrange(
                    SIGNATURE_HEADER_LEN as int,
                    i as int + 1,
                ));
            }
            i += 1;
        }
        proof {
            assert(r@ =~= self.signature@.skip(SIGNATURE_HEADER_LEN as int));
        }
        r
    }
}

impl Clone for Checkpoint {
    /// Clones preserve the view.
    fn clone(&self) -> (r: Self)
        ensures
            r.deep_view() == self.deep_view(),
    {
        Checkpoint {
            sha256_root_hash: copy_bytes(&self.sha256_root_hash),
            tree_size: self.tree_size,
            timestamp: self.timestamp,
            signature: copy_bytes(&self.signature),
        }
    }
}

/// What one poll of the log produced.
#[derive(Debug)]
pub enum PollOutcome {
    /// A checkpoint was obtained with no verification error.
    Checkpoint(Checkpoint),
    /// The fetch failed outright; transient, polling continues.
    FetchError,
    /// The fetch produced an error yet also returned a readable
    /// checkpoint; observed but never submitted.
    AnomalousCheckpoint(Checkpoint),
}

/// Mathematical view of [`PollOutcome`].
pub ghost enum PollOutcomeV {
    Checkpoint(CheckpointV),
    FetchError,
    AnomalousCheckpoint(CheckpointV),
}

impl DeepView for PollOutcome {
    type V = PollOutcomeV;

    open spec fn deep_view(&self) -> PollOutcomeV {
        match self {
            PollOutcome::Checkpoint(c) => PollOutcomeV::Checkpoint(c.deep_view()),
            PollOutcome::FetchError => PollOutcomeV::FetchError,
            PollOutcome::AnomalousCheckpoint(c) => PollOutcomeV::AnomalousCheckpoint(c.deep_view()),
        }
    }
}

/// What the caller must do next with a watcher.
#[derive(Debug, Clone, Copy, PartialEq, Eq, Structural)]
pub enum WatcherAction {
    /// Nothing is outstanding: sleep one poll interval, then poll.
    Sleep,
    /// A change was detected or a submission failed: submit the pending
    /// update (again), built by [`LogWatcher::pending_checkpoint`].
    Submit,
}

/// Per-log progress: the last root hash seen, the ledger account state
/// this watcher advances, and the checkpoint whose submission is
/// outstanding, if any. `A` is the caller's account-state type; the
/// watcher only ever adopts values the ledger acknowledged.
pub struct LogWatcher<A> {
    pub log_id: String,
    pub last_seen_root_hash: Vec<u8>,
    pub account: A,
    pub pending: Option<Checkpoint>,
}

/// Mathematical view of [`LogWatcher`].
pub ghost struct LogWatcherV<A> {
    pub log_id: Seq<char>,
    pub last_seen_root_hash: Seq<u8>,
    pub account: A,
    pub pending: Option<CheckpointV>,
}

/// One poll outcome applied to a watcher's state: a verified checkpoint
/// with a changed root hash becomes pending; an anomalous checkpoint
/// with a changed hash is recorded for observability only; everything
/// else leaves the state as it was.
pub open spec fn poll_step<A>(w: LogWatcherV<A>, o: PollOutcomeV) -> LogWatcherV<A> {
    match o {
        PollOutcomeV::Checkpoint(c) => if c.sha256_root_hash == w.last_seen_root_hash {
            w
        } else {
            LogWatcherV { pending: Some(c), ..w }
        },
        PollOutcomeV::FetchError => w,
        PollOutcomeV::AnomalousCheckpoint(c) => if c.sha256_root_hash == w.last_seen_root_hash {
            w
        } else {
            LogWatcherV { last_seen_root_hash: c.sha256_root_hash, ..w }
        },
    }
}

/// The action a poll outcome demands: submit exactly when a verified
/// checkpoint carries a changed root hash.
pub open spec fn poll_action<A>(w: LogWatcherV<A>, o: PollOutcomeV) -> WatcherAction {
    match o {
        PollOutcomeV::Checkpoint(c) => if c.sha256_root_hash == w.last_seen_root_hash {
            WatcherAction::Sleep
        } else {
            WatcherAction::Submit
        },
        PollOutcomeV::FetchError => WatcherAction::Sleep,
        PollOutcomeV::AnomalousCheckpoint(_) => WatcherAction::Sleep,
    }
}

/// A failed submission attempt changes nothing: the same update stays
/// pending, progress and account state keep their values.
pub open spec fn submit_failure_step<A>(w: LogWatcherV<A>) -> LogWatcherV<A> {
    w
}

/// An acknowledged submission advances progress: the pending
/// checkpoint's root hash becomes the last seen one, the acknowledged
/// account state is adopted, and nothing stays pending.
pub open spec fn submit_success_step<A>(w: LogWatcherV<A>, applied: A) -> LogWatcherV<A> {
    LogWatcherV {
        last_seen_root_hash: w.pending.unwrap().sha256_root_hash,
        account: applied,
        pending: None,
        ..w
    }
}

/// One full observation cycle under a ledger that acknowledges at once:
/// the watcher takes a verified checkpoint and, where that starts a
/// submission, the submission succeeds immediately with account state
/// `applied`.
pub open spec fn cycle_step<A>(w: LogWatcherV<A>, c: CheckpointV, applied: A) -> LogWatcherV<A> {
    let polled = poll_step(w, PollOutcomeV::Checkpoint(c));
    if poll_action(w, PollOutcomeV::Checkpoint(c)) == WatcherAction::Submit {
        submit_success_step(polled, applied)
    } else {
        polled
    }
}

/// The watcher after a run of observation cycles over the checkpoints
/// `cs`, each acknowledged at once with the matching account state of
/// `accs`, paired with how many submissions the run made.
pub open spec fn run_cycles<A>(w: LogWatcherV<A>, cs: Seq<CheckpointV>, accs: Seq<A>) -> (
    LogWatcherV<A>,
    nat,
)
    decreases cs.len(),
{
    if cs.len() == 0 {
        (w, 0)
    } else {
        let submitted: nat = if poll_action(w, PollOutcomeV::Checkpoint(cs.first()))
            == WatcherAction::Submit {
            1
        } else {
            0
        };
        let w1 = cycle_step(w, cs.first(), accs.first());
        let rest = run_cycles(w1, cs.drop_first(), accs.drop_first());
        (rest.0, (submitted + rest.1) as nat)
    }
}

/// How often a run of root hashes changes: one count for every hash
/// that differs from its predecessor, measured against `last` at the
/// start.
pub open spec fn count_changes(hashes: Seq<Seq<u8>>, last: Seq<u8>) -> nat
    decreases hashes.len(),
{
    if hashes.len() == 0 {
        0
    } else {
        let here: nat = if hashes.first() == last {
            0
        } else {
            1
        };
        (here + count_changes(hashes.drop_first(), hashes.first())) as nat
    }
}

/// Change detection: over any run of verified checkpoints, each
/// acknowledged as it is submitted, the watcher submits exactly once
/// per change of root hash — never for a repeated hash — and ends up
/// having seen the last hash of the run, with nothing left pending.
pub proof fn lemma_change_detection<A>(w: LogWatcherV<A>, cs: Seq<CheckpointV>, accs: Seq<A>)
    requires
        w.pending is None,
        cs.len() == accs.len(),
    ensures
        run_cycles(w, cs, accs).1 == count_changes(
            cs.map_values(|c: CheckpointV| c.sha256_root_hash),
            w.last_seen_root_hash,
        ),
        run_cycles(w, cs, accs).0.pending is None,
        run_cycles(w, cs, accs).0.last_seen_root_hash == if cs.len() == 0 {
            w.last_seen_root_hash
        } else {
            cs.last().sha256_root_hash
        },
        run_cycles(w, cs, accs).0.log_id == w.log_id,
    decreases cs.len(),
{
    let hashes = cs.map_values(|c: CheckpointV| c.sha256_root_hash);
    if cs.len() > 0 {
        let c = cs.first();
        let w1 = cycle_step(w, c, accs.first());
        assert(w1.pending is None);
        assert(w1.last_seen_root_hash == c.sha256_root_hash);
        lemma_change_detection(w1, cs.drop_first(), accs.drop_first());
        assert(cs.drop_first().map_values(|k: CheckpointV| k.sha256_root_hash)
            =~= hashes.drop_first());
        assert(hashes.first() == c.sha256_root_hash);
        if cs.len() > 1 {
            assert(cs.drop_first().last() == cs.last());
        }
    }
}

/// The watcher after `n` failed attempts of the pending submission.
pub open spec fn run_failures<A>(w: LogWatcherV<A>, n: nat) -> LogWatcherV<A>
    decreases n,
{
    if n == 0 {
        w
    } else {
        submit_failure_step(run_failures(w, (n - 1) as nat))
    }
}

/// Retry until acknowledgment: any number of failed attempts leaves the
/// watcher — its progress hash, its account state and the pending
/// update itself — exactly as it was, so the same update is retried;
/// only the success that follows advances the hash to the pending
/// checkpoint's and adopts exactly the acknowledged account state.
pub proof fn lemma_retry_until_ack<A>(w: LogWatcherV<A>, n: nat, applied: A)
    requires
        w.pending is Some,
    ensures
        run_failures(w, n) == w,
        submit_success_step(run_failures(w, n), applied) == (LogWatcherV {
            last_seen_root_hash: w.pending.unwrap().sha256_root_hash,
            account: applied,
            pending: None,
            ..w
        }),
    decreases n,
{
    if n > 0 {
        lemma_retry_until_ack(w, (n - 1) as nat, applied);
    }
}

impl<A> LogWatcher<A> {
    /// The watcher's state as a mathematical value.
    pub open spec fn model(&self) -> LogWatcherV<A> {
        LogWatcherV {
            log_id: self.log_id@,
            last_seen_root_hash: self.last_seen_root_hash@,
            account: self.account,
            pending: match self.pending {
                Some(c) => Some(c.deep_view()),
                None => None,
            },
        }
    }

    /// A fresh watcher for one log: no hash seen yet (the all-zero
    /// hash, which no log publishes), the bootstrapped account adopted,
    /// nothing pending.
    pub fn new(log_id: String, account: A) -> (r: Self)
        ensures
            r.model().log_id == log_id@,
            r.model().last_seen_root_hash == Seq::new(32, |i: int| 0u8),
            r.model().account == account,
            r.model().pending is None,
    {
        let mut zero_hash: Vec<u8> = Vec::new();
        let mut i: usize = 0;
        while i < 32
            invariant
                i <= 32,
                zero_hash@ =~= Seq::new(i as nat, |t: int| 0u8),
            decreases 32 - i,
        {
            zero_hash.push(0);
            proof {
                assert(zero_hash@ =~= Seq::new(i as nat + 1, |t: int| 0u8));
            }
            i += 1;
        }
        LogWatcher { log_id, last_seen_root_hash: zero_hash, account, pending: None }
    }

    /// Feeds one poll outcome to the watcher and returns what to do
    /// next. Only callable while no submission is outstanding.
    pub fn on_poll(&mut self, outcome: PollOutcome) -> (a: WatcherAction)
        requires
            old(self).pending is None,
        ensures
            final(self).model() == poll_step(old(self).model(), outcome.deep_view()),
            a == poll_action(old(self).model(), outcome.deep_view()),
    {
        match outcome {
            PollOutcome::Checkpoint(c) => {
                if bytes_eq(&c.sha256_root_hash, &self.last_seen_root_hash) {
                    WatcherAction::Sleep
                } else {
                    self.pending = Some(c);
                    WatcherAction::Submit
                }
            },
            PollOutcome::FetchError => WatcherAction::Sleep,
            PollOutcome::AnomalousCheckpoint(c) => {
                if !bytes_eq(&c.sha256_root_hash, &self.last_seen_root_hash) {
                    self.last_seen_root_hash = c.sha256_root_hash;
                }
                WatcherAction::Sleep
            },
        }
    }

    /// The checkpoint whose submission is outstanding, for assembling
    /// the update to submit.
    pub fn pending_checkpoint(&self) -> (r: Option<&Checkpoint>)
        ensures
            match r {
                Some(c) => self.model().pending == Some(c.deep_view()),
                None => self.model().pending is None,
            },
    {
        match &self.pending {
            Some(c) => Some(c),
            None => None,
        }
    }

    /// Records that a submission attempt failed: nothing changes, the
    /// very same update must be submitted again after a short backoff.
    pub fn on_submit_failure(&mut self) -> (a: WatcherAction)
        requires
            old(self).pending is Some,
        ensures
            final(self).model() == submit_failure_step(old(self).model()),
            a == WatcherAction::Submit,
    {
        WatcherAction::Submit
    }

    /// Records that the ledger acknowledged the pending submission:
    /// only now the last seen hash advances to the submitted one and
    /// the acknowledged account state is adopted.
    pub fn on_submit_success(&mut self, applied: A) -> (a: WatcherAction)
        requires
            old(self).pending is Some,
        ensures
            final(self).model() == submit_success_step(old(self).model(), applied),
            a == WatcherAction::Sleep,
    {
        let new_hash: Vec<u8>;
        match &self.pending {
            Some(c) => {
                new_hash = copy_bytes(&c.sha256_root_hash);
            },
            None => {
                proof {
                    assert(false);
                }
                new_hash = Vec::new();
            },
        }
        self.last_seen_root_hash = new_hash;
        self.account = applied;
        self.pending = None;
        WatcherAction::Sleep
    }
}

} // verus!
