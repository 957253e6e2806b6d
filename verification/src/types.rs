//! Data model of the log directory: operators, logs and their states.
//!
//! Timestamps are carried as milliseconds since the Unix epoch; key
//! material is carried as decoded bytes. Each type has a mathematical
//! view (`deep_view`) that the contracts of the cache and the parser
//! speak over.

use vstd::prelude::*;

verus! {

/// A commitment to the state of a log's tree: its size and root hash.
#[derive(Debug)]
pub struct TreeHead {
    pub sha256_root_hash: Vec<u8>,
    pub tree_size: i64,
}

/// Mathematical view of [`TreeHead`].
pub ghost struct TreeHeadV {
    pub sha256_root_hash: Seq<u8>,
    pub tree_size: int,
}

impl DeepView for TreeHead {
    type V = TreeHeadV;

    open spec fn deep_view(&self) -> TreeHeadV {
        TreeHeadV { sha256_root_hash: self.sha256_root_hash@, tree_size: self.tree_size as int }
    }
}

/// The published lifecycle state of a log, each variant carrying the
/// moment of the state change in milliseconds since the Unix epoch.
#[derive(Debug)]
pub enum LogState {
    Pending { timestamp: i64 },
    Usable { timestamp: i64 },
    Readonly { timestamp: i64, final_tree_head: TreeHead },
    Retired { timestamp: i64 },
    Rejected { timestamp: i64 },
}

/// Mathematical view of [`LogState`].
pub ghost enum LogStateV {
    Pending { timestamp: int },
    Usable { timestamp: int },
    Readonly { timestamp: int, final_tree_head: TreeHeadV },
    Retired { timestamp: int },
    Rejected { timestamp: int },
}

impl DeepView for LogState {
    type V = LogStateV;

    open spec fn deep_view(&self) -> LogStateV {
        match self {
            LogState::Pending { timestamp } => LogStateV::Pending { timestamp: *timestamp as int },
            LogState::Usable { timestamp } => LogStateV::Usable { timestamp: *timestamp as int },
            LogState::Readonly { timestamp, final_tree_head } => LogStateV::Readonly {
                timestamp: *timestamp as int,
                final_tree_head: final_tree_head.deep_view(),
            },
            LogState::Retired { timestamp } => LogStateV::Retired { timestamp: *timestamp as int },
            LogState::Rejected { timestamp } => LogStateV::Rejected {
                timestamp: *timestamp as int,
            },
        }
    }
}

/// The period of certificate expiry dates a log accepts, in milliseconds
/// since the Unix epoch; the start is inclusive, the end exclusive.
#[derive(Debug, Clone, Copy)]
pub struct TemporalInterval {
    pub start_inclusive: i64,
    pub end_exclusive: i64,
}

/// Mathematical view of [`TemporalInterval`].
pub ghost struct TemporalIntervalV {
    pub start_inclusive: int,
    pub end_exclusive: int,
}

impl DeepView for TemporalInterval {
    type V = TemporalIntervalV;

    open spec fn deep_view(&self) -> TemporalIntervalV {
        TemporalIntervalV {
            start_inclusive: self.start_inclusive as int,
            end_exclusive: self.end_exclusive as int,
        }
    }
}

/// One certificate log: identity, key material, endpoint and state.
#[derive(Debug)]
pub struct Log {
    pub description: String,
    pub log_id: String,
    pub key: Vec<u8>,
    pub url: String,
    pub mmd: i32,
    pub state: Option<LogState>,
    pub temporal_interval: Option<TemporalInterval>,
    pub log_type: Option<String>,
}

/// Mathematical view of [`Log`].
pub ghost struct LogV {
    pub description: Seq<char>,
    pub log_id: Seq<char>,
    pub key: Seq<u8>,
    pub url: Seq<char>,
    pub mmd: int,
    pub state: Option<LogStateV>,
    pub temporal_interval: Option<TemporalIntervalV>,
    pub log_type: Option<Seq<char>>,
}

impl LogV {
    /// A log is usable exactly when its published state says so.
    pub open spec fn is_usable(&self) -> bool {
        self.state matches Some(LogStateV::Usable { .. })
    }
}

impl DeepView for Log {
    type V = LogV;

    open spec fn deep_view(&self) -> LogV {
        LogV {
            description: self.description@,
            log_id: self.log_id@,
            key: self.key@,
            url: self.url@,
            mmd: self.mmd as int,
            state: self.state.deep_view(),
            temporal_interval: self.temporal_interval.deep_view(),
            log_type: self.log_type.deep_view(),
        }
    }
}

impl Log {
    /// A log is usable exactly when its published state says so.
    pub open spec fn spec_is_usable(&self) -> bool {
        self.deep_view().is_usable()
    }

    /// Whether this log currently accepts and serves entries suitable
    /// for monitoring.
    #[verifier::when_used_as_spec(spec_is_usable)]
    pub fn is_usable(&self) -> (r: bool)
        ensures
            r == self.spec_is_usable(),
    {
        matches!(self.state, Some(LogState::Usable { .. }))
    }
}

/// One organization running certificate logs, with the logs it owns.
#[derive(Debug)]
pub struct Operator {
    pub name: String,
    pub email: Vec<String>,
    pub logs: Vec<Log>,
    pub tiled_logs: Vec<TiledLog>,
}

/// Mathematical view of [`Operator`].
pub ghost struct OperatorV {
    pub name: Seq<char>,
    pub email: Seq<Seq<char>>,
    pub logs: Seq<LogV>,
    pub tiled_logs: Seq<TiledLogV>,
}

impl DeepView for Operator {
    type V = OperatorV;

    open spec fn deep_view(&self) -> OperatorV {
        OperatorV {
            name: self.name@,
            email: self.email.deep_view(),
            logs: self.logs.deep_view(),
            tiled_logs: self.tiled_logs.deep_view(),
        }
    }
}

/// A log served over the tile-based protocol; carried through the
/// directory but not monitored.
#[derive(Debug)]
pub struct TiledLog {
    pub description: String,
    pub log_id: String,
    pub key: Vec<u8>,
    pub submission_url: String,
    pub monitoring_url: String,
    pub mmd: i32,
    pub state: Option<LogState>,
    pub temporal_interval: Option<TemporalInterval>,
    pub log_type: Option<String>,
}

/// Mathematical view of [`TiledLog`].
pub ghost struct TiledLogV {
    pub description: Seq<char>,
    pub log_id: Seq<char>,
    pub key: Seq<u8>,
    pub submission_url: Seq<char>,
    pub monitoring_url: Seq<char>,
    pub mmd: int,
    pub state: Option<LogStateV>,
    pub temporal_interval: Option<TemporalIntervalV>,
    pub log_type: Option<Seq<char>>,
}

impl DeepView for TiledLog {
    type V = TiledLogV;

    open spec fn deep_view(&self) -> TiledLogV {
        TiledLogV {
            description: self.description@,
            log_id: self.log_id@,
            key: self.key@,
            submission_url: self.submission_url@,
            monitoring_url: self.monitoring_url@,
            mmd: self.mmd as int,
            state: self.state.deep_view(),
            temporal_interval: self.temporal_interval.deep_view(),
            log_type: self.log_type.deep_view(),
        }
    }
}

/// A versioned snapshot of the whole directory; immutable once fetched
/// and replaced wholesale on refresh.
#[derive(Debug)]
pub struct LogList {
    pub is_all_logs: bool,
    pub version: String,
    pub log_list_timestamp: i64,
    pub operators: Vec<Operator>,
}

/// Mathematical view of [`LogList`].
pub ghost struct LogListV {
    pub is_all_logs: bool,
    pub version: Seq<char>,
    pub log_list_timestamp: int,
    pub operators: Seq<OperatorV>,
}

impl DeepView for LogList {
    type V = LogListV;

    open spec fn deep_view(&self) -> LogListV {
        LogListV {
            is_all_logs: self.is_all_logs,
            version: self.version@,
            log_list_timestamp: self.log_list_timestamp as int,
            operators: self.operators.deep_view(),
        }
    }
}

/// Copies a byte vector element by element.
pub fn copy_bytes(v: &Vec<u8>) -> (r: Vec<u8>)
    ensures
        r@ == v@,
{
    let mut r: Vec<u8> = Vec::new();
    let mut i: usize = 0;
    while i < v.len()
        invariant
            i <= v.len(),
            r@ == v@.take(i as int),
        decreases v.len() - i,
    {
        r.push(v[i]);
        proof {
            assert(v@.take(i as int).push(v@[i as int]) =~= v@.take(i as int + 1));
        }
        i += 1;
    }
    proof {
        assert(v@.take(v@.len() as int) =~= v@);
    }
    r
}

impl Clone for TreeHead {
    /// Clones preserve the view.
    fn clone(&self) -> (r: Self)
        ensures
            r.deep_view() == self.deep_view(),
    {
        TreeHead { sha256_root_hash: copy_bytes(&self.sha256_root_hash), tree_size: self.tree_size }
    }
}

impl Clone for LogState {
    /// Clones preserve the view.
    fn clone(&self) -> (r: Self)
        ensures
            r.deep_view() == self.deep_view(),
    {
        match self {
            LogState::Pending { timestamp } => LogState::Pending { timestamp: *timestamp },
            LogState::Usable { timestamp } => LogState::Usable { timestamp: *timestamp },
            LogState::Readonly { timestamp, final_tree_head } => LogState::Readonly {
                timestamp: *timestamp,
                final_tree_head: final_tree_head.clone(),
            },
            LogState::Retired { timestamp } => LogState::Retired { timestamp: *timestamp },
            LogState::Rejected { timestamp } => LogState::Rejected { timestamp: *timestamp },
        }
    }
}

impl Clone for Log {
    /// Clones preserve the view.
    fn clone(&self) -> (r: Self)
        ensures
            r.deep_view() == self.deep_view(),
    {
        Log {
            description: self.description.clone(),
            log_id: self.log_id.clone(),
            key: copy_bytes(&self.key),
            url: self.url.clone(),
            mmd: self.mmd,
            state: match &self.state {
                Some(s) => Some(s.clone()),
                None => None,
            },
            temporal_interval: self.temporal_interval,
            log_type: match &self.log_type {
                Some(t) => Some(t.clone()),
                None => None,
            },
        }
    }
}

} // verus!
