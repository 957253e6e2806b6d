//! The directory cache: a wholesale-rebuilt index of usable logs with a
//! time-to-live freshness policy.
//!
//! The cache owns an ordered list of usable logs together with two
//! indices: by log id (last writer wins on a collision) and by operator
//! name. A refresh replaces all three atomically and stamps the refresh
//! time; staleness is decided against that stamp. The network fetch that
//! feeds a refresh happens outside the library: callers first ask
//! [`CachingLogListService::needs_refresh`], fetch if told to, and hand
//! the fetched directory to [`CachingLogListService::apply_refresh`].

use vstd::prelude::*;

use crate::errors::LogListError;
use crate::types::{Log, LogList, LogListV, LogV, OperatorV};

verus! {

/// The default time-to-live of a cached directory: one day, in
/// milliseconds.
pub const DEFAULT_CACHE_DURATION_MILLIS: u64 = 24 * 60 * 60 * 1000;

/// The logs of `logs` that are usable, in order.
pub open spec fn usable_logs_in(logs: Seq<LogV>) -> Seq<LogV>
    decreases logs.len(),
{
    if logs.len() == 0 {
        Seq::empty()
    } else if logs.last().is_usable() {
        usable_logs_in(logs.drop_last()).push(logs.last())
    } else {
        usable_logs_in(logs.drop_last())
    }
}

/// All usable logs of a directory, operator by operator, in order.
pub open spec fn usable_logs_of(ops: Seq<OperatorV>) -> Seq<LogV>
    decreases ops.len(),
{
    if ops.len() == 0 {
        Seq::empty()
    } else {
        usable_logs_of(ops.drop_last()) + usable_logs_in(ops.last().logs)
    }
}

/// The position of the last log in `s` carrying the id `id`.
pub open spec fn last_index_of_id(s: Seq<LogV>, id: Seq<char>) -> Option<int>
    decreases s.len(),
{
    if s.len() == 0 {
        None
    } else if s.last().log_id == id {
        Some(s.len() - 1)
    } else {
        last_index_of_id(s.drop_last(), id)
    }
}

/// The position of the last operator in `ops` named `name`.
pub open spec fn last_index_of_name(ops: Seq<OperatorV>, name: Seq<char>) -> Option<int>
    decreases ops.len(),
{
    if ops.len() == 0 {
        None
    } else if ops.last().name == name {
        Some(ops.len() - 1)
    } else {
        last_index_of_name(ops.drop_last(), name)
    }
}

/// The usable log a directory associates with `id`: the last usable log
/// of the directory carrying that id, if any.
pub open spec fn directory_log_for_id(list: LogListV, id: Seq<char>) -> Option<LogV> {
    match last_index_of_id(usable_logs_of(list.operators), id) {
        Some(i) => Some(usable_logs_of(list.operators)[i]),
        None => None,
    }
}

/// The usable logs a directory associates with an operator name: those
/// of the last operator carrying that name, or none for an unknown name.
pub open spec fn directory_operator_logs(list: LogListV, name: Seq<char>) -> Seq<LogV> {
    match last_index_of_name(list.operators, name) {
        Some(k) => usable_logs_in(list.operators[k].logs),
        None => Seq::empty(),
    }
}

/// The value the association list `entries` maps `key` to: the payload
/// of the last entry carrying `key`, so a later insertion wins.
pub open spec fn assoc_find<T>(entries: Seq<(Seq<char>, T)>, key: Seq<char>) -> Option<T>
    decreases entries.len(),
{
    if entries.len() == 0 {
        None
    } else if entries.last().0 == key {
        Some(entries.last().1)
    } else {
        assoc_find(entries.drop_last(), key)
    }
}

/// What an association list finds, it finds at one of its entries.
pub proof fn lemma_assoc_find_found<T>(entries: Seq<(Seq<char>, T)>, key: Seq<char>)
    requires
        assoc_find(entries, key) is Some,
    ensures
        exists|k: int|
            0 <= k < entries.len() && (#[trigger] entries[k]).0 == key && entries[k].1
                == assoc_find(entries, key).unwrap(),
    decreases entries.len(),
{
    if entries.last().0 == key {
        assert(entries[entries.len() - 1] == entries.last());
    } else {
        lemma_assoc_find_found(entries.drop_last(), key);
        let k = choose|k: int|
            0 <= k < entries.drop_last().len() && (#[trigger] entries.drop_last()[k]).0 == key
                && entries.drop_last()[k].1 == assoc_find(entries.drop_last(), key).unwrap();
        assert(entries[k] == entries.drop_last()[k]);
    }
}

/// Every index of `idxs` points into a list of length `n`.
pub open spec fn indices_valid(idxs: Seq<usize>, n: int) -> bool {
    forall|t: int| 0 <= t < idxs.len() ==> (#[trigger] idxs[t]) < n
}

/// The logs of `logs` selected by `idxs`, in the order of `idxs`.
pub open spec fn select_logs(logs: Seq<LogV>, idxs: Seq<usize>) -> Seq<LogV> {
    Seq::new(idxs.len(), |t: int| logs[idxs[t] as int])
}

/// The keys of an association list, in entry order.
pub open spec fn entry_keys<T>(entries: Seq<(Seq<char>, T)>) -> Seq<Seq<char>> {
    entries.map_values(|e: (Seq<char>, T)| e.0)
}

/// The names of a directory's operators, in directory order.
pub open spec fn operator_names(ops: Seq<OperatorV>) -> Seq<Seq<char>> {
    ops.map_values(|o: OperatorV| o.name)
}

/// Every entry of the id index names the log it points to.
pub open spec fn id_entries_agree(entries: Seq<(Seq<char>, usize)>, logs: Seq<LogV>) -> bool {
    forall|k: int|
        0 <= k < entries.len() ==> (#[trigger] entries[k]).1 < logs.len() && logs[entries[k].1 as int].log_id
            == entries[k].0
}

/// The id index agrees with the log list on `id`: it finds exactly the
/// position of the last log carrying `id`.
pub open spec fn id_index_matches(
    entries: Seq<(Seq<char>, usize)>,
    logs: Seq<LogV>,
    id: Seq<char>,
) -> bool {
    match (assoc_find(entries, id), last_index_of_id(logs, id)) {
        (None, None) => true,
        (Some(u), Some(n)) => u as int == n,
        _ => false,
    }
}

/// The operator index agrees with the directory on `name`: it selects
/// from `logs` exactly the usable logs of the last operator carrying
/// `name`.
pub open spec fn op_index_matches(
    entries: Seq<(Seq<char>, Seq<usize>)>,
    logs: Seq<LogV>,
    ops: Seq<OperatorV>,
    name: Seq<char>,
) -> bool {
    match (assoc_find(entries, name), last_index_of_name(ops, name)) {
        (None, None) => true,
        (Some(idxs), Some(k)) => indices_valid(idxs, logs.len() as int) && select_logs(logs, idxs)
            == usable_logs_in(ops[k].logs),
        _ => false,
    }
}

/// A found position of an id lies in range and carries the id; a miss
/// means no log carries it.
pub proof fn lemma_last_index_of_id_props(s: Seq<LogV>, id: Seq<char>)
    ensures
        match last_index_of_id(s, id) {
            Some(n) => 0 <= n < s.len() && s[n].log_id == id,
            None => forall|i: int| 0 <= i < s.len() ==> (#[trigger] s[i]).log_id != id,
        },
    decreases s.len(),
{
    if s.len() > 0 {
        lemma_last_index_of_id_props(s.drop_last(), id);
        if s.last().log_id != id {
            assert forall|i: int| 0 <= i < s.len() && last_index_of_id(s, id) is None implies (
            #[trigger] s[i]).log_id != id by {
                if i < s.len() - 1 {
                    assert(s.drop_last()[i] == s[i]);
                }
            }
        }
    }
}

/// A found position of a name lies in range and carries the name.
pub proof fn lemma_last_index_of_name_props(ops: Seq<OperatorV>, name: Seq<char>)
    ensures
        match last_index_of_name(ops, name) {
            Some(k) => 0 <= k < ops.len() && ops[k].name == name,
            None => forall|i: int| 0 <= i < ops.len() ==> (#[trigger] ops[i]).name != name,
        },
    decreases ops.len(),
{
    if ops.len() > 0 {
        lemma_last_index_of_name_props(ops.drop_last(), name);
        if ops.last().name != name {
            assert forall|i: int|
                0 <= i < ops.len() && last_index_of_name(ops, name) is None implies (
            #[trigger] ops[i]).name != name by {
                if i < ops.len() - 1 {
                    assert(ops.drop_last()[i] == ops[i]);
                }
            }
        }
    }
}

/// Selecting by indices that lie within a common prefix gives the same
/// logs from either list.
pub proof fn lemma_select_logs_extend(small: Seq<LogV>, big: Seq<LogV>, idxs: Seq<usize>)
    requires
        small.len() <= big.len(),
        forall|j: int| 0 <= j < small.len() ==> small[j] == big[j],
        indices_valid(idxs, small.len() as int),
    ensures
        select_logs(big, idxs) == select_logs(small, idxs),
{
    assert(select_logs(big, idxs) =~= select_logs(small, idxs));
}

/// The usable logs of a list are usable and drawn from the list, and
/// every usable log of the list is among them.
pub proof fn lemma_usable_logs_in_props(logs: Seq<LogV>)
    ensures
        forall|t: int|
            0 <= t < usable_logs_in(logs).len() ==> (#[trigger] usable_logs_in(logs)[t]).is_usable()
                && logs.contains(usable_logs_in(logs)[t]),
        forall|j: int|
            0 <= j < logs.len() && (#[trigger] logs[j]).is_usable() ==> usable_logs_in(
                logs,
            ).contains(logs[j]),
    decreases logs.len(),
{
    if logs.len() > 0 {
        lemma_usable_logs_in_props(logs.drop_last());
        let prefix = usable_logs_in(logs.drop_last());
        assert forall|t: int|
            0 <= t < usable_logs_in(logs).len() implies (#[trigger] usable_logs_in(
            logs,
        )[t]).is_usable() && logs.contains(usable_logs_in(logs)[t]) by {
            if t < prefix.len() {
                assert(usable_logs_in(logs)[t] == prefix[t]);
                let j = choose|j: int|
                    0 <= j < logs.drop_last().len() && logs.drop_last()[j] == prefix[t];
                assert(logs[j] == prefix[t]);
            } else {
                assert(usable_logs_in(logs)[t] == logs.last());
                assert(logs[logs.len() - 1] == logs.last());
            }
        }
        assert forall|j: int|
            0 <= j < logs.len() && (#[trigger] logs[j]).is_usable() implies usable_logs_in(
            logs,
        ).contains(logs[j]) by {
            if j < logs.len() - 1 {
                assert(logs.drop_last()[j] == logs[j]);
                let t = choose|t: int|
                    0 <= t < prefix.len() && prefix[t] == logs.drop_last()[j];
                assert(usable_logs_in(logs)[t] == logs[j]);
            } else {
                assert(logs[j] == logs.last());
                assert(usable_logs_in(logs).last() == logs.last());
            }
        }
    }
}

/// A list containing a log with `id` has a last position for `id`.
pub proof fn lemma_id_present_found(s: Seq<LogV>, id: Seq<char>)
    requires
        exists|i: int| 0 <= i < s.len() && (#[trigger] s[i]).log_id == id,
    ensures
        last_index_of_id(s, id) is Some,
    decreases s.len(),
{
    if s.last().log_id != id {
        let i = choose|i: int| 0 <= i < s.len() && (#[trigger] s[i]).log_id == id;
        assert(i < s.len() - 1);
        assert(s.drop_last()[i] == s[i]);
        lemma_id_present_found(s.drop_last(), id);
    }
}

/// Some operator of `ops` owns the log `l`.
pub open spec fn drawn_from(ops: Seq<OperatorV>, l: LogV) -> bool {
    exists|k: int| 0 <= k < ops.len() && (#[trigger] ops[k].logs).contains(l)
}

/// The usable logs of a directory are usable and drawn from its
/// operators, and every usable log of every operator is among them.
pub proof fn lemma_usable_logs_of_props(ops: Seq<OperatorV>)
    ensures
        forall|t: int|
            0 <= t < usable_logs_of(ops).len() ==> (#[trigger] usable_logs_of(
                ops,
            )[t]).is_usable(),
        forall|t: int|
            0 <= t < usable_logs_of(ops).len() ==> drawn_from(
                ops,
                #[trigger] usable_logs_of(ops)[t],
            ),
        forall|k: int, j: int|
            0 <= k < ops.len() && 0 <= j < ops[k].logs.len() && (#[trigger] ops[k].logs[j]).is_usable()
                ==> usable_logs_of(ops).contains(ops[k].logs[j]),
    decreases ops.len(),
{
    if ops.len() > 0 {
        lemma_usable_logs_of_props(ops.drop_last());
        lemma_usable_logs_in_props(ops.last().logs);
        let prefix = usable_logs_of(ops.drop_last());
        let tail = usable_logs_in(ops.last().logs);
        assert forall|t: int|
            0 <= t < usable_logs_of(ops).len() implies (#[trigger] usable_logs_of(
            ops,
        )[t]).is_usable() && drawn_from(ops, usable_logs_of(ops)[t]) by {
            if t < prefix.len() {
                assert(usable_logs_of(ops)[t] == prefix[t]);
                assert(drawn_from(ops.drop_last(), prefix[t]));
                let k = choose|k: int|
                    0 <= k < ops.drop_last().len() && (#[trigger] ops.drop_last()[k].logs).contains(
                        prefix[t],
                    );
                assert(ops[k] == ops.drop_last()[k]);
                assert((ops[k].logs).contains(usable_logs_of(ops)[t]));
            } else {
                assert(usable_logs_of(ops)[t] == tail[t - prefix.len()]);
                assert(ops[ops.len() - 1] == ops.last());
                assert((ops[ops.len() - 1].logs).contains(usable_logs_of(ops)[t]));
            }
        }
        assert forall|k: int, j: int|
            0 <= k < ops.len() && 0 <= j < ops[k].logs.len() && (
        #[trigger] ops[k].logs[j]).is_usable() implies usable_logs_of(ops).contains(
            ops[k].logs[j],
        ) by {
            if k < ops.len() - 1 {
                assert(ops.drop_last()[k] == ops[k]);
                assert(prefix.contains(ops[k].logs[j]));
                let t = choose|t: int| 0 <= t < prefix.len() && prefix[t] == ops[k].logs[j];
                assert(usable_logs_of(ops)[t] == ops[k].logs[j]);
            } else {
                assert(ops[k] == ops.last());
                assert(tail.contains(ops[k].logs[j]));
                let t = choose|t: int| 0 <= t < tail.len() && tail[t] == ops[k].logs[j];
                assert(usable_logs_of(ops)[prefix.len() + t] == ops[k].logs[j]);
            }
        }
    }
}

/// A directory indexes a log if and only if the log is usable: an id
/// lookup serves only usable logs drawn from the directory's operators,
/// the id of every usable log is served, and an operator lookup serves
/// only usable logs. Together with the contracts of `apply_refresh`,
/// `get_by_id` and `get_all_by_operator`, a refreshed cache serves a log
/// exactly when its state is usable.
pub proof fn lemma_cache_indexes_exactly_usable(list: LogListV)
    ensures
        forall|id: Seq<char>|
            (#[trigger] directory_log_for_id(list, id)) is Some ==> directory_log_for_id(
                list,
                id,
            ).unwrap().is_usable(),
        forall|id: Seq<char>|
            (#[trigger] directory_log_for_id(list, id)) is Some ==> drawn_from(
                list.operators,
                directory_log_for_id(list, id).unwrap(),
            ),
        forall|k: int, j: int|
            0 <= k < list.operators.len() && 0 <= j < list.operators[k].logs.len() && (
            #[trigger] list.operators[k].logs[j]).is_usable() ==> directory_log_for_id(
                list,
                list.operators[k].logs[j].log_id,
            ) is Some,
        forall|name: Seq<char>, t: int|
            0 <= t < directory_operator_logs(list, name).len() ==> (
            #[trigger] directory_operator_logs(list, name)[t]).is_usable(),
{
    let ops = list.operators;
    let all = usable_logs_of(ops);
    lemma_usable_logs_of_props(ops);
    assert forall|id: Seq<char>|
        (#[trigger] directory_log_for_id(list, id)) is Some implies directory_log_for_id(
        list,
        id,
    ).unwrap().is_usable() && drawn_from(ops, directory_log_for_id(list, id).unwrap()) by {
        lemma_last_index_of_id_props(all, id);
    }
    assert forall|k: int, j: int|
        0 <= k < ops.len() && 0 <= j < ops[k].logs.len() && (
    #[trigger] ops[k].logs[j]).is_usable() implies directory_log_for_id(
        list,
        ops[k].logs[j].log_id,
    ) is Some by {
        assert(all.contains(ops[k].logs[j]));
        let t = choose|t: int| 0 <= t < all.len() && all[t] == ops[k].logs[j];
        assert(all[t].log_id == ops[k].logs[j].log_id);
        lemma_id_present_found(all, ops[k].logs[j].log_id);
    }
    assert forall|name: Seq<char>, t: int|
        0 <= t < directory_operator_logs(list, name).len() implies (
    #[trigger] directory_operator_logs(list, name)[t]).is_usable() by {
        lemma_last_index_of_name_props(ops, name);
        match last_index_of_name(ops, name) {
            Some(k) => {
                lemma_usable_logs_in_props(ops[k].logs);
            },
            None => {},
        }
    }
}

/// An operator name no operator of the directory carries yields the
/// empty list, never an error.
pub proof fn lemma_unknown_operator_empty(list: LogListV, name: Seq<char>)
    requires
        forall|k: int|
            0 <= k < list.operators.len() ==> (#[trigger] list.operators[k]).name != name,
    ensures
        directory_operator_logs(list, name) == Seq::<LogV>::empty(),
{
    lemma_last_index_of_name_props(list.operators, name);
}

/// The indexed snapshot a refresh builds: the usable logs and the two
/// lookup indices, plus the time of the refresh in milliseconds since
/// the Unix epoch.
pub struct CachedLogs {
    pub logs: Vec<Log>,
    pub logs_by_id: Vec<(String, usize)>,
    pub logs_by_operator: Vec<(String, Vec<usize>)>,
    pub last_updated: u64,
}

impl CachedLogs {
    /// The views of the cached logs, in cache order.
    pub open spec fn logs_seq(&self) -> Seq<LogV> {
        self.logs.deep_view()
    }

    /// The id index as an association list over views.
    pub open spec fn id_entries(&self) -> Seq<(Seq<char>, usize)> {
        self.logs_by_id.deep_view()
    }

    /// The operator index as an association list over views.
    pub open spec fn op_entries(&self) -> Seq<(Seq<char>, Seq<usize>)> {
        self.logs_by_operator.deep_view()
    }

    /// Internal consistency: both indices point into the log list,
    /// every id entry names the log it points to, and only usable logs
    /// are held at all.
    pub open spec fn wf(&self) -> bool {
        &&& forall|k: int|
            0 <= k < self.id_entries().len() ==> (#[trigger] self.id_entries()[k]).1
                < self.logs_seq().len()
        &&& forall|k: int|
            0 <= k < self.id_entries().len() ==> self.logs_seq()[(
            #[trigger] self.id_entries()[k]).1 as int].log_id == self.id_entries()[k].0
        &&& forall|k: int|
            0 <= k < self.op_entries().len() ==> indices_valid(
                (#[trigger] self.op_entries()[k]).1,
                self.logs_seq().len() as int,
            )
        &&& forall|i: int|
            0 <= i < self.logs_seq().len() ==> (#[trigger] self.logs_seq()[i]).is_usable()
    }

    /// The log the cache maps `id` to, if any.
    pub open spec fn log_for_id(&self, id: Seq<char>) -> Option<LogV> {
        match assoc_find(self.id_entries(), id) {
            Some(i) => Some(self.logs_seq()[i as int]),
            None => None,
        }
    }

    /// The logs the cache maps an operator name to; empty for an
    /// unknown name.
    pub open spec fn operator_logs(&self, name: Seq<char>) -> Seq<LogV> {
        match assoc_find(self.op_entries(), name) {
            Some(idxs) => select_logs(self.logs_seq(), idxs),
            None => Seq::empty(),
        }
    }
}

impl Default for CachedLogs {
    /// The empty cache, stamped with the epoch so that any access finds
    /// it stale.
    fn default() -> (r: Self)
        ensures
            r.wf(),
            r.logs_seq() == Seq::<LogV>::empty(),
            r.id_entries() == Seq::<(Seq<char>, usize)>::empty(),
            r.op_entries() == Seq::<(Seq<char>, Seq<usize>)>::empty(),
            r.last_updated == 0,
    {
        let r = CachedLogs {
            logs: Vec::new(),
            logs_by_id: Vec::new(),
            logs_by_operator: Vec::new(),
            last_updated: 0,
        };
        proof {
            assert(r.logs_seq() =~= Seq::<LogV>::empty());
            assert(r.id_entries() =~= Seq::<(Seq<char>, usize)>::empty());
            assert(r.op_entries() =~= Seq::<(Seq<char>, Seq<usize>)>::empty());
        }
        r
    }
}

/// The directory cache: the indexed snapshot plus its time-to-live, in
/// milliseconds.
pub struct CachingLogListService {
    pub cache: CachedLogs,
    pub cache_duration: u64,
}

impl CachingLogListService {
    /// Internal consistency of the held snapshot.
    pub open spec fn wf(&self) -> bool {
        self.cache.wf()
    }

    /// The cached snapshot is stale at `now`: its stamp lies in the
    /// future (a clock step backwards counts as stale, as a fetch then
    /// does no harm) or at least the time-to-live has passed since it.
    pub open spec fn is_stale(&self, now: u64) -> bool {
        !(now >= self.cache.last_updated && now - self.cache.last_updated
            < self.cache_duration)
    }

    /// A fresh cache with the given time-to-live in milliseconds; its
    /// first access will find it stale.
    pub fn new(cache_duration: u64) -> (r: Self)
        ensures
            r.wf(),
            r.cache_duration == cache_duration,
            r.cache.last_updated == 0,
            r.cache.logs_seq() == Seq::<LogV>::empty(),
            forall|id: Seq<char>| #[trigger] r.cache.log_for_id(id) is None,
            forall|name: Seq<char>| #[trigger]
                r.cache.operator_logs(name) == Seq::<LogV>::empty(),
    {
        let r = CachingLogListService { cache: CachedLogs::default(), cache_duration };
        proof {
            assert forall|id: Seq<char>| #[trigger] r.cache.log_for_id(id) is None by {
                assert(assoc_find(r.cache.id_entries(), id) is None);
            }
            assert forall|name: Seq<char>| #[trigger]
                r.cache.operator_logs(name) == Seq::<LogV>::empty() by {
                assert(assoc_find(r.cache.op_entries(), name) is None);
            }
        }
        r
    }

    /// Whether an access at `now` must refresh before serving data.
    pub fn needs_refresh(&self, now: u64) -> (r: bool)
        ensures
            r == self.is_stale(now),
    {
        !(now >= self.cache.last_updated && now - self.cache.last_updated
            < self.cache_duration)
    }

    /// Replaces the held snapshot wholesale by the indices rebuilt from
    /// a freshly fetched directory, and stamps the refresh time: exactly
    /// the usable logs of the directory become indexed, by id (the last
    /// writer wins on an id collision) and by operator name.
    pub fn apply_refresh(&mut self, new_log_list: &LogList, now: u64)
        ensures
            final(self).wf(),
            final(self).cache_duration == old(self).cache_duration,
            final(self).cache.last_updated == now,
            final(self).cache.logs_seq() == usable_logs_of(new_log_list.deep_view().operators),
            forall|id: Seq<char>| #[trigger]
                final(self).cache.log_for_id(id) == directory_log_for_id(
                    new_log_list.deep_view(),
                    id,
                ),
            forall|name: Seq<char>| #[trigger]
                final(self).cache.operator_logs(name) == directory_operator_logs(
                    new_log_list.deep_view(),
                    name,
                ),
            entry_keys(final(self).cache.op_entries()) == operator_names(
                new_log_list.deep_view().operators,
            ),
    {
        let ghost ops = new_log_list.deep_view().operators;
        let mut logs: Vec<Log> = Vec::new();
        let mut logs_by_id: Vec<(String, usize)> = Vec::new();
        let mut logs_by_operator: Vec<(String, Vec<usize>)> = Vec::new();

        proof {
            assert(logs.deep_view() =~= Seq::<LogV>::empty());
            assert(logs_by_id.deep_view() =~= Seq::<(Seq<char>, usize)>::empty());
            assert(logs_by_operator.deep_view() =~= Seq::<(Seq<char>, Seq<usize>)>::empty());
            assert(ops.take(0) =~= Seq::<OperatorV>::empty());
            assert(entry_keys(logs_by_operator.deep_view()) =~= Seq::<Seq<char>>::empty());
            assert(operator_names(ops.take(0)) =~= Seq::<Seq<char>>::empty());
        }

        let mut i: usize = 0;
        while i < new_log_list.operators.len()
            invariant
                i <= new_log_list.operators.len(),
                ops == new_log_list.deep_view().operators,
                ops.len() == new_log_list.operators.len(),
                logs.deep_view() == usable_logs_of(ops.take(i as int)),
                forall|id: Seq<char>| #[trigger]
                    id_index_matches(logs_by_id.deep_view(), logs.deep_view(), id),
                forall|name: Seq<char>| #[trigger]
                    op_index_matches(
                        logs_by_operator.deep_view(),
                        logs.deep_view(),
                        ops.take(i as int),
                        name,
                    ),
                id_entries_agree(logs_by_id.deep_view(), logs.deep_view()),
                entry_keys(logs_by_operator.deep_view()) == operator_names(ops.take(i as int)),
                forall|k: int|
                    0 <= k < logs_by_operator.deep_view().len() ==> indices_valid(
                        (#[trigger] logs_by_operator.deep_view()[k]).1,
                        logs.deep_view().len() as int,
                    ),
                forall|t: int|
                    0 <= t < logs.deep_view().len() ==> (#[trigger] logs.deep_view()[t]).is_usable(),
            decreases new_log_list.operators.len() - i,
        {
            let operator = &new_log_list.operators[i];
            let ghost op = ops[i as int];
            proof {
                assert(op == new_log_list.operators@[i as int].deep_view());
            }
            let mut operator_indices: Vec<usize> = Vec::new();
            proof {
                assert(op.logs.take(0) =~= Seq::<LogV>::empty());
                assert(usable_logs_in(op.logs.take(0)) =~= Seq::<LogV>::empty());
                assert(operator_indices.deep_view() =~= Seq::<usize>::empty());
                assert(select_logs(logs.deep_view(), operator_indices.deep_view()) =~= Seq::<
                    LogV,
                >::empty());
            }
            let ghost logs_before_op = logs.deep_view();

            let mut j: usize = 0;
            while j < operator.logs.len()
                invariant
                    j <= operator.logs.len(),
                    ops == new_log_list.deep_view().operators,
                    ops.len() == new_log_list.operators.len(),
                    i < new_log_list.operators.len(),
                    operator == &new_log_list.operators@[i as int],
                    op == ops[i as int],
                    op.logs.len() == operator.logs.len(),
                    logs_before_op == usable_logs_of(ops.take(i as int)),
                    logs.deep_view() == logs_before_op + usable_logs_in(op.logs.take(j as int)),
                    indices_valid(
                        operator_indices.deep_view(),
                        logs.deep_view().len() as int,
                    ),
                    select_logs(logs.deep_view(), operator_indices.deep_view()) == usable_logs_in(
                        op.logs.take(j as int),
                    ),
                    forall|id: Seq<char>| #[trigger]
                        id_index_matches(logs_by_id.deep_view(), logs.deep_view(), id),
                    forall|name: Seq<char>| #[trigger]
                        op_index_matches(
                            logs_by_operator.deep_view(),
                            logs_before_op,
                            ops.take(i as int),
                            name,
                        ),
                    id_entries_agree(logs_by_id.deep_view(), logs.deep_view()),
                    entry_keys(logs_by_operator.deep_view()) == operator_names(
                        ops.take(i as int),
                    ),
                    forall|k: int|
                        0 <= k < logs_by_operator.deep_view().len() ==> indices_valid(
                            (#[trigger] logs_by_operator.deep_view()[k]).1,
                            logs_before_op.len() as int,
                        ),
                    forall|t: int|
                        0 <= t < logs.deep_view().len() ==> (#[trigger] logs.deep_view()[t]).is_usable(),
                decreases operator.logs.len() - j,
            {
                let log = &operator.logs[j];
                proof {
                    assert(op.logs[j as int] == operator.logs@[j as int].deep_view());
                    assert(op.logs.take(j as int + 1).last() == op.logs[j as int]);
                    assert(op.logs.take(j as int + 1).drop_last() =~= op.logs.take(j as int));
                }
                if log.is_usable() {
                    let ghost logs_old = logs.deep_view();
                    let ghost by_id_old = logs_by_id.deep_view();
                    let ghost opidx_old = operator_indices.deep_view();
                    let index = logs.len();
                    logs.push(log.clone());
                    logs_by_id.push((log.log_id.clone(), index));
                    operator_indices.push(index);
                    proof {
                        let lv = op.logs[j as int];
                        assert(logs.deep_view() =~= logs_old.push(lv));
                        assert(logs_by_id.deep_view() =~= by_id_old.push((lv.log_id, index)));
                        assert(operator_indices.deep_view() =~= opidx_old.push(index));
                        assert(logs.deep_view() =~= logs_before_op + usable_logs_in(
                            op.logs.take(j as int + 1),
                        ));
                        // the id index still matches after recording the new log
                        assert forall|id: Seq<char>| #[trigger]
                            id_index_matches(
                                logs_by_id.deep_view(),
                                logs.deep_view(),
                                id,
                            ) by {
                            assert(logs_by_id.deep_view().last() == (lv.log_id, index));
                            assert(logs_by_id.deep_view().drop_last() =~= by_id_old);
                            assert(logs.deep_view().last() == lv);
                            assert(logs.deep_view().drop_last() =~= logs_old);
                            assert(id_index_matches(by_id_old, logs_old, id));
                        }
                        // the selection of this operator's indices extends by the new log
                        assert(select_logs(logs.deep_view(), operator_indices.deep_view())
                            =~= usable_logs_in(op.logs.take(j as int + 1))) by {
                            lemma_select_logs_extend(logs_old, logs.deep_view(), opidx_old);
                            assert(select_logs(logs.deep_view(), opidx_old.push(index)) =~= select_logs(
                                logs.deep_view(),
                                opidx_old,
                            ).push(logs.deep_view()[index as int]));
                        }
                    }
                } else {
                    proof {
                        assert(usable_logs_in(op.logs.take(j as int + 1)) =~= usable_logs_in(
                            op.logs.take(j as int),
                        ));
                    }
                }
                j = j + 1;
            }
            proof {
                assert(op.logs.take(op.logs.len() as int) =~= op.logs);
            }
            let ghost by_op_old = logs_by_operator.deep_view();
            logs_by_operator.push((operator.name.clone(), operator_indices));
            proof {
                assert(ops.take(i as int + 1).last() == ops[i as int]);
                assert(ops.take(i as int + 1).drop_last() =~= ops.take(i as int));
                assert(logs_by_operator.deep_view() =~= by_op_old.push(
                    (op.name, operator_indices.deep_view()),
                ));
                assert(entry_keys(logs_by_operator.deep_view()) =~= entry_keys(by_op_old).push(
                    op.name,
                ));
                assert(operator_names(ops.take(i as int + 1)) =~= operator_names(
                    ops.take(i as int),
                ).push(op.name));
                assert(usable_logs_of(ops.take(i as int + 1)) == logs_before_op + usable_logs_in(
                    op.logs,
                ));
                // the operator index still matches over one more operator
                assert(ops.take(i as int + 1)[i as int] == op);
                assert(forall|t: int|
                    0 <= t < logs_before_op.len() ==> logs.deep_view()[t] == logs_before_op[t]);
                assert forall|name: Seq<char>| #[trigger]
                    op_index_matches(
                        logs_by_operator.deep_view(),
                        logs.deep_view(),
                        ops.take(i as int + 1),
                        name,
                    ) by {
                    assert(logs_by_operator.deep_view().last() == (
                        op.name,
                        operator_indices.deep_view(),
                    ));
                    assert(logs_by_operator.deep_view().drop_last() =~= by_op_old);
                    assert(op_index_matches(by_op_old, logs_before_op, ops.take(i as int), name));
                    if name == op.name {
                        assert(assoc_find(logs_by_operator.deep_view(), name) == Some(
                            operator_indices.deep_view(),
                        ));
                        assert(ops.take(i as int + 1).last().name == name);
                        assert(last_index_of_name(ops.take(i as int + 1), name) == Some(i as int));
                        assert(usable_logs_in(op.logs.take(op.logs.len() as int)) == usable_logs_in(
                            op.logs,
                        ));
                        assert(select_logs(logs.deep_view(), operator_indices.deep_view())
                            == usable_logs_in(ops.take(i as int + 1)[i as int].logs));
                    } else {
                        assert(assoc_find(logs_by_operator.deep_view(), name) == assoc_find(
                            by_op_old,
                            name,
                        ));
                        assert(ops.take(i as int + 1).last().name != name);
                        assert(last_index_of_name(ops.take(i as int + 1), name)
                            == last_index_of_name(ops.take(i as int), name));
                        lemma_last_index_of_name_props(ops.take(i as int), name);
                        match assoc_find(by_op_old, name) {
                            Some(idxs) => {
                                let k = last_index_of_name(ops.take(i as int), name).unwrap();
                                assert(ops.take(i as int + 1)[k] == ops.take(i as int)[k]);
                                lemma_select_logs_extend(logs_before_op, logs.deep_view(), idxs);
                            },
                            None => {},
                        }
                    }
                }
            }
            i = i + 1;
        }
        proof {
            assert(ops.take(ops.len() as int) =~= ops);
        }
        self.cache = CachedLogs { logs, logs_by_id, logs_by_operator, last_updated: now };
        proof {
            let c = self.cache;
            let list_v = new_log_list.deep_view();
            assert forall|id: Seq<char>| #[trigger]
                c.log_for_id(id) == directory_log_for_id(list_v, id) by {
                assert(id_index_matches(c.id_entries(), c.logs_seq(), id));
                lemma_last_index_of_id_props(c.logs_seq(), id);
            }
            assert forall|name: Seq<char>| #[trigger]
                c.operator_logs(name) == directory_operator_logs(list_v, name) by {
                assert(op_index_matches(c.op_entries(), c.logs_seq(), ops, name));
            }
            // well-formedness of the rebuilt snapshot
            assert(c.wf());
        }
    }

    /// Scans the id index from its end for the entry the index maps
    /// `key` to.
    fn find_id_entry(&self, key: &String) -> (r: Option<usize>)
        ensures
            match r {
                Some(idx) => assoc_find(self.cache.id_entries(), key@) == Some(idx),
                None => assoc_find(self.cache.id_entries(), key@) is None,
            },
    {
        let ghost entries = self.cache.id_entries();
        let n = self.cache.logs_by_id.len();
        let mut k = n;
        proof {
            assert(entries.take(n as int) =~= entries);
        }
        while k > 0
            invariant
                k <= n,
                n == self.cache.logs_by_id.len(),
                entries == self.cache.id_entries(),
                assoc_find(entries, key@) == assoc_find(entries.take(k as int), key@),
            decreases k,
        {
            k = k - 1;
            proof {
                assert(entries[k as int] == self.cache.logs_by_id@[k as int].deep_view());
                assert(entries.take(k as int + 1).last() == entries[k as int]);
                assert(entries.take(k as int + 1).drop_last() =~= entries.take(k as int));
            }
            if self.cache.logs_by_id[k].0 == *key {
                return Some(self.cache.logs_by_id[k].1);
            }
        }
        proof {
            assert(entries.take(0) =~= Seq::<(Seq<char>, usize)>::empty());
        }
        None
    }

    /// Looks up a usable log by id in the held snapshot. Fails with
    /// `NotFound` exactly when no usable log carries that id.
    pub fn get_by_id(&self, id: &str) -> (r: Result<Log, LogListError>)
        requires
            self.wf(),
        ensures
            match self.cache.log_for_id(id@) {
                Some(l) => r matches Ok(log) && log.deep_view() == l,
                None => r matches Err(e) && e is NotFound,
            },
            r matches Ok(log) ==> log.deep_view().is_usable() && log.deep_view().log_id == id@,
    {
        let key: String = id.to_owned();
        match self.find_id_entry(&key) {
            Some(idx) => {
                proof {
                    lemma_assoc_find_found(self.cache.id_entries(), id@);
                }
                Ok(self.cache.logs[idx].clone())
            },
            None => Err(LogListError::NotFound),
        }
    }

    /// Scans the operator index from its end for the position of the
    /// entry the index maps `key` to.
    fn find_operator_entry(&self, key: &String) -> (r: Option<usize>)
        ensures
            match r {
                Some(at) => at < self.cache.op_entries().len() && assoc_find(
                    self.cache.op_entries(),
                    key@,
                ) == Some(self.cache.op_entries()[at as int].1),
                None => assoc_find(self.cache.op_entries(), key@) is None,
            },
    {
        let ghost entries = self.cache.op_entries();
        let n = self.cache.logs_by_operator.len();
        let mut k = n;
        proof {
            assert(entries.take(n as int) =~= entries);
        }
        while k > 0
            invariant
                k <= n,
                n == self.cache.logs_by_operator.len(),
                entries == self.cache.op_entries(),
                assoc_find(entries, key@) == assoc_find(entries.take(k as int), key@),
            decreases k,
        {
            k = k - 1;
            proof {
                assert(entries[k as int] == self.cache.logs_by_operator@[k as int].deep_view());
                assert(entries.take(k as int + 1).last() == entries[k as int]);
                assert(entries.take(k as int + 1).drop_last() =~= entries.take(k as int));
            }
            if self.cache.logs_by_operator[k].0 == *key {
                return Some(k);
            }
        }
        proof {
            assert(entries.take(0) =~= Seq::<(Seq<char>, Seq<usize>)>::empty());
        }
        None
    }

    /// Returns all usable logs of the named operator held in the
    /// snapshot: the empty list, not an error, for an unknown name.
    pub fn get_all_by_operator(&self, operator: &str) -> (r: Vec<Log>)
        requires
            self.wf(),
        ensures
            r.deep_view() == self.cache.operator_logs(operator@),
            forall|t: int|
                0 <= t < r.deep_view().len() ==> (#[trigger] r.deep_view()[t]).is_usable(),
    {
        let key: String = operator.to_owned();
        let found = self.find_operator_entry(&key);
        match found {
            None => {
                let r: Vec<Log> = Vec::new();
                proof {
                    assert(r.deep_view() =~= Seq::<LogV>::empty());
                }
                r
            },
            Some(entry_at) => {
                let idxs: &Vec<usize> = &self.cache.logs_by_operator[entry_at].1;
                let ghost idxs_v = idxs.deep_view();
                proof {
                    assert(self.cache.op_entries()[entry_at as int]
                        == self.cache.logs_by_operator@[entry_at as int].deep_view());
                    assert(self.cache.op_entries()[entry_at as int].1 == idxs_v);
                    assert(indices_valid(idxs_v, self.cache.logs_seq().len() as int));
                }
                let mut out: Vec<Log> = Vec::new();
                let mut t: usize = 0;
                while t < idxs.len()
                    invariant
                        self.wf(),
                        t <= idxs.len(),
                        idxs_v == idxs.deep_view(),
                        indices_valid(idxs_v, self.cache.logs_seq().len() as int),
                        out.deep_view() =~= select_logs(self.cache.logs_seq(), idxs_v.take(t as int)),
                    decreases idxs.len() - t,
                {
                    let idx = idxs[t];
                    proof {
                        assert(idxs_v[t as int] == idxs@[t as int]);
                        assert(idxs_v[t as int] < self.cache.logs_seq().len());
                        assert(self.cache.logs_seq()[idx as int]
                            == self.cache.logs@[idx as int].deep_view());
                    }
                    out.push(self.cache.logs[idx].clone());
                    proof {
                        assert(select_logs(self.cache.logs_seq(), idxs_v.take(t as int)).push(
                            self.cache.logs_seq()[idxs_v[t as int] as int],
                        ) =~= select_logs(self.cache.logs_seq(), idxs_v.take(t as int + 1)));
                        assert(out.deep_view() =~= select_logs(
                            self.cache.logs_seq(),
                            idxs_v.take(t as int + 1),
                        ));
                    }
                    t = t + 1;
                }
                proof {
                    assert(idxs_v.take(idxs_v.len() as int) =~= idxs_v);
                    assert(self.cache.operator_logs(operator@) == select_logs(
                        self.cache.logs_seq(),
                        idxs_v,
                    ));
                }
                out
            },
        }
    }
}

/// Two racing refreshes converge: two caches rebuilt from the same
/// fetched directory serve the same answers, whichever rebuild wins
/// the final swap. The hypotheses are what `apply_refresh` ensures of
/// each cache.
pub proof fn lemma_racing_rebuilds_converge(a: CachedLogs, b: CachedLogs, list: LogListV)
    requires
        forall|id: Seq<char>| #[trigger] a.log_for_id(id) == directory_log_for_id(list, id),
        forall|id: Seq<char>| #[trigger] b.log_for_id(id) == directory_log_for_id(list, id),
        forall|name: Seq<char>| #[trigger]
            a.operator_logs(name) == directory_operator_logs(list, name),
        forall|name: Seq<char>| #[trigger]
            b.operator_logs(name) == directory_operator_logs(list, name),
    ensures
        forall|id: Seq<char>| #[trigger] a.log_for_id(id) == b.log_for_id(id),
        forall|name: Seq<char>| #[trigger] a.operator_logs(name) == b.operator_logs(name),
{
}

/// An access finding a snapshot one second older than the time-to-live
/// refreshes exactly once: the cache is stale before the refresh, and a
/// refresh stamped with the access time leaves it fresh for that same
/// access time, so no second refresh follows.
pub proof fn lemma_stale_access_refreshes_once(
    before: CachingLogListService,
    after: CachingLogListService,
    now: u64,
)
    requires
        1 <= before.cache_duration,
        before.cache_duration + 1000 <= now,
        before.cache.last_updated == now - (before.cache_duration + 1000),
        after.cache_duration == before.cache_duration,
        after.cache.last_updated == now,
    ensures
        before.is_stale(now),
        !after.is_stale(now),
{
}

/// An access at the very moment of the last refresh triggers no
/// refresh.
pub proof fn lemma_fresh_access_no_refresh(s: CachingLogListService, now: u64)
    requires
        1 <= s.cache_duration,
        s.cache.last_updated == now,
    ensures
        !s.is_stale(now),
{
}

impl Default for CachingLogListService {
    /// A cache with the default one-day time-to-live.
    fn default() -> (r: Self)
        ensures
            r.wf(),
            r.cache_duration == DEFAULT_CACHE_DURATION_MILLIS,
            r.cache.last_updated == 0,
            r.cache.logs_seq() == Seq::<LogV>::empty(),
    {
        CachingLogListService::new(DEFAULT_CACHE_DURATION_MILLIS)
    }
}

} // verus!
