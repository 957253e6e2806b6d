//! Parsing the remote directory's JSON document into the data model.
//!
//! The document text is turned into a library-owned JSON tree
//! ([`JsonNode`]) by one trusted wrapper over serde_json, whose result
//! is named (`json_doc`). Everything after that is verified: the
//! directory grammar is written once as spec functions over the tree's
//! view ([`directory_doc`] and its helpers), and the parser is proved
//! to accept a document exactly when the grammar does, returning
//! exactly the directory the grammar denotes. Field values that carry
//! an encoding (base64 key material, RFC 3339 timestamps) pass through
//! trusted decoders whose results are named too.

use vstd::prelude::*;

use crate::errors::LogListError;
use crate::types::{
    Log, LogList, LogListV, LogState, LogStateV, LogV, Operator, OperatorV, TemporalInterval,
    TemporalIntervalV, TiledLog, TiledLogV, TreeHead, TreeHeadV,
};

verus! {

#[verifier::external_type_specification]
#[verifier::external_body]
pub struct ExValue(serde_json::Value);

/// A JSON value as this library holds it: numbers carry the 64-bit
/// integer they denote, if they denote one (the directory grammar reads
/// nothing else of a number); object entries come in serde_json's key
/// order with unique keys.
#[derive(Debug)]
pub enum JsonNode {
    Null,
    Bool(bool),
    Num(Option<i64>),
    Str(String),
    Arr(Vec<JsonNode>),
    Obj(Vec<(String, JsonNode)>),
}

/// Mathematical view of [`JsonNode`].
pub ghost enum JsonNodeV {
    Null,
    Bool(bool),
    Num(Option<i64>),
    Str(Seq<char>),
    Arr(Seq<JsonNodeV>),
    Obj(Seq<(Seq<char>, JsonNodeV)>),
}

/// The views of a list of JSON values, in order.
pub open spec fn json_view_list(items: Seq<JsonNode>) -> Seq<JsonNodeV>
    decreases items,
{
    Seq::new(
        items.len(),
        |i: int|
            if 0 <= i < items.len() {
                json_view(items[i])
            } else {
                JsonNodeV::Null
            },
    )
}

/// The views of an object's entries, in order.
pub open spec fn json_view_entries(entries: Seq<(String, JsonNode)>) -> Seq<
    (Seq<char>, JsonNodeV),
>
    decreases entries,
{
    Seq::new(
        entries.len(),
        |i: int|
            if 0 <= i < entries.len() {
                (entries[i].0@, json_view(entries[i].1))
            } else {
                (Seq::empty(), JsonNodeV::Null)
            },
    )
}

/// The view of one JSON value.
pub open spec fn json_view(n: JsonNode) -> JsonNodeV
    decreases n,
{
    match n {
        JsonNode::Null => JsonNodeV::Null,
        JsonNode::Bool(b) => JsonNodeV::Bool(b),
        JsonNode::Num(x) => JsonNodeV::Num(x),
        JsonNode::Str(s) => JsonNodeV::Str(s@),
        JsonNode::Arr(items) => JsonNodeV::Arr(json_view_list(items@)),
        JsonNode::Obj(entries) => JsonNodeV::Obj(json_view_entries(entries@)),
    }
}

impl DeepView for JsonNode {
    type V = JsonNodeV;

    open spec fn deep_view(&self) -> JsonNodeV {
        json_view(*self)
    }
}

/// The JSON tree a document text denotes, if the text is JSON.
pub uninterp spec fn json_doc(text: Seq<char>) -> Option<JsonNodeV>;

/// Relies on serde_json::from_str: parses the document and mirrors the
/// resulting value tree one-for-one (through [`node_of_value`]); the
/// tree is a function of the text alone — serde_json's map keeps object
/// entries key-ordered and deduplicated, and an integer-valued number
/// is read as serde_json's as_i64 reads it.
#[verifier::external_body]
fn json_tree(text: &str) -> (r: Option<JsonNode>)
    ensures
        r.deep_view() == json_doc(text@),
{
    serde_json::from_str::<serde_json::Value>(text).ok().map(|v| node_of_value(&v))
}

/// The conversion half of [`json_tree`], split out only because the
/// mirroring is recursive: one arm per serde_json::Value variant,
/// moving the held values over. Nothing else calls it.
#[verifier::external_body]
fn node_of_value(v: &serde_json::Value) -> JsonNode {
    match v {
        serde_json::Value::Null => JsonNode::Null,
        serde_json::Value::Bool(b) => JsonNode::Bool(*b),
        serde_json::Value::Number(n) => JsonNode::Num(n.as_i64()),
        serde_json::Value::String(s) => JsonNode::Str(s.clone()),
        serde_json::Value::Array(a) => JsonNode::Arr(a.iter().map(node_of_value).collect()),
        serde_json::Value::Object(m) => JsonNode::Obj(
            m.iter().map(|(k, x)| (k.clone(), node_of_value(x))).collect(),
        ),
    }
}

/// The bytes a standard-alphabet base64 string decodes to, if it is
/// valid base64.
pub uninterp spec fn base64_decoded(s: Seq<char>) -> Option<Seq<u8>>;

/// Relies on base64's standard-alphabet engine: the decoded bytes are a
/// function of the input string alone.
#[verifier::external_body]
fn base64_decode(s: &str) -> (r: Option<Vec<u8>>)
    ensures
        r is Some <==> base64_decoded(s@) is Some,
        r matches Some(b) ==> Some(b@) == base64_decoded(s@),
{
    base64::Engine::decode(&base64::engine::general_purpose::STANDARD, s).ok()
}

/// The milliseconds since the Unix epoch an RFC 3339 timestamp denotes,
/// if the string is one.
pub uninterp spec fn rfc3339_millis(s: Seq<char>) -> Option<i64>;

/// Relies on chrono's DateTime::parse_from_rfc3339 and
/// timestamp_millis: the denoted instant is a function of the string
/// alone.
#[verifier::external_body]
fn parse_rfc3339_millis(s: &str) -> (r: Option<i64>)
    ensures
        r == rfc3339_millis(s@),
{
    chrono::DateTime::parse_from_rfc3339(s).ok().map(|d| d.timestamp_millis())
}

/// The value object entries hold under `key`, searched in entry order.
pub open spec fn entries_get(entries: Seq<(Seq<char>, JsonNodeV)>, key: Seq<char>) -> Option<
    JsonNodeV,
>
    decreases entries.len(),
{
    if entries.len() == 0 {
        None
    } else if entries[0].0 == key {
        Some(entries[0].1)
    } else {
        entries_get(entries.subrange(1, entries.len() as int), key)
    }
}

/// The value an object node holds under `key`; a non-object holds
/// nothing.
pub open spec fn node_get(n: JsonNodeV, key: Seq<char>) -> Option<JsonNodeV> {
    match n {
        JsonNodeV::Obj(entries) => entries_get(entries, key),
        _ => None,
    }
}

/// The text a string field holds.
pub open spec fn str_field(n: JsonNodeV, key: Seq<char>) -> Option<Seq<char>> {
    match node_get(n, key) {
        Some(JsonNodeV::Str(s)) => Some(s),
        _ => None,
    }
}

/// The integer an integer-valued number field holds.
pub open spec fn i64_field(n: JsonNodeV, key: Seq<char>) -> Option<i64> {
    match node_get(n, key) {
        Some(JsonNodeV::Num(Some(x))) => Some(x),
        _ => None,
    }
}

/// The instant an RFC 3339 string field denotes, in epoch milliseconds.
pub open spec fn timestamp_field(n: JsonNodeV, key: Seq<char>) -> Option<i64> {
    match str_field(n, key) {
        Some(s) => rfc3339_millis(s),
        None => None,
    }
}

/// The tree head a tree-head object denotes: a base64 root hash and an
/// integer tree size.
pub open spec fn tree_head_doc(n: JsonNodeV) -> Option<TreeHeadV> {
    match (str_field(n, "sha256_root_hash"@), i64_field(n, "tree_size"@)) {
        (Some(h), Some(ts)) => match base64_decoded(h) {
            Some(bytes) => Some(TreeHeadV { sha256_root_hash: bytes, tree_size: ts as int }),
            None => None,
        },
        _ => None,
    }
}

/// The log state a state object denotes: exactly one lowercase tag
/// among pending, usable, readonly, retired and rejected (tried in that
/// order), each carrying a timestamp, the readonly one also its final
/// tree head.
pub open spec fn state_doc(n: JsonNodeV) -> Option<LogStateV> {
    if node_get(n, "pending"@) is Some {
        match timestamp_field(node_get(n, "pending"@).unwrap(), "timestamp"@) {
            Some(t) => Some(LogStateV::Pending { timestamp: t as int }),
            None => None,
        }
    } else if node_get(n, "usable"@) is Some {
        match timestamp_field(node_get(n, "usable"@).unwrap(), "timestamp"@) {
            Some(t) => Some(LogStateV::Usable { timestamp: t as int }),
            None => None,
        }
    } else if node_get(n, "readonly"@) is Some {
        let body = node_get(n, "readonly"@).unwrap();
        match (timestamp_field(body, "timestamp"@), node_get(body, "final_tree_head"@)) {
            (Some(t), Some(th)) => match tree_head_doc(th) {
                Some(head) => Some(
                    LogStateV::Readonly { timestamp: t as int, final_tree_head: head },
                ),
                None => None,
            },
            _ => None,
        }
    } else if node_get(n, "retired"@) is Some {
        match timestamp_field(node_get(n, "retired"@).unwrap(), "timestamp"@) {
            Some(t) => Some(LogStateV::Retired { timestamp: t as int }),
            None => None,
        }
    } else if node_get(n, "rejected"@) is Some {
        match timestamp_field(node_get(n, "rejected"@).unwrap(), "timestamp"@) {
            Some(t) => Some(LogStateV::Rejected { timestamp: t as int }),
            None => None,
        }
    } else {
        None
    }
}

/// The optional state of a log entry: absent or null means none,
/// anything else must be a state object.
pub open spec fn opt_state_doc(n: JsonNodeV) -> Option<Option<LogStateV>> {
    match node_get(n, "state"@) {
        None => Some(None),
        Some(sv) => if sv is Null {
            Some(None)
        } else {
            match state_doc(sv) {
                Some(s) => Some(Some(s)),
                None => None,
            }
        },
    }
}

/// The interval a temporal-interval object denotes.
pub open spec fn interval_doc(b: JsonNodeV) -> Option<TemporalIntervalV> {
    match (timestamp_field(b, "start_inclusive"@), timestamp_field(b, "end_exclusive"@)) {
        (Some(s), Some(e)) => Some(
            TemporalIntervalV { start_inclusive: s as int, end_exclusive: e as int },
        ),
        _ => None,
    }
}

/// The optional temporal interval of a log entry.
pub open spec fn opt_interval_doc(n: JsonNodeV) -> Option<Option<TemporalIntervalV>> {
    match node_get(n, "temporal_interval"@) {
        None => Some(None),
        Some(iv) => if iv is Null {
            Some(None)
        } else {
            match interval_doc(iv) {
                Some(t) => Some(Some(t)),
                None => None,
            }
        },
    }
}

/// An optional string field: absent or null means none.
pub open spec fn opt_str_doc(n: JsonNodeV, key: Seq<char>) -> Option<Option<Seq<char>>> {
    match node_get(n, key) {
        None => Some(None),
        Some(sv) => if sv is Null {
            Some(None)
        } else {
            match sv {
                JsonNodeV::Str(s) => Some(Some(s)),
                _ => None,
            }
        },
    }
}

/// The log a log entry denotes: all required fields present, the merge
/// delay fitting a 32-bit integer, the key valid base64.
pub open spec fn log_doc(n: JsonNodeV) -> Option<LogV> {
    match (
        str_field(n, "description"@),
        str_field(n, "log_id"@),
        str_field(n, "key"@),
        str_field(n, "url"@),
        i64_field(n, "mmd"@),
    ) {
        (Some(description), Some(log_id), Some(key_b64), Some(url), Some(mmd)) => match (
            opt_state_doc(n),
            opt_interval_doc(n),
            opt_str_doc(n, "log_type"@),
        ) {
            (Some(state), Some(temporal_interval), Some(log_type)) => if -0x8000_0000 <= mmd
                <= 0x7fff_ffff {
                match base64_decoded(key_b64) {
                    Some(bytes) => Some(
                        LogV {
                            description,
                            log_id,
                            key: bytes,
                            url,
                            mmd: mmd as int,
                            state,
                            temporal_interval,
                            log_type,
                        },
                    ),
                    None => None,
                }
            } else {
                None
            },
            _ => None,
        },
        _ => None,
    }
}

/// The tiled log a tiled-log entry denotes, under the same rules as
/// [`log_doc`] with the two tile endpoints in place of one url.
pub open spec fn tiled_log_doc(n: JsonNodeV) -> Option<TiledLogV> {
    match (
        str_field(n, "description"@),
        str_field(n, "log_id"@),
        str_field(n, "key"@),
        str_field(n, "submission_url"@),
        str_field(n, "monitoring_url"@),
        i64_field(n, "mmd"@),
    ) {
        (
            Some(description),
            Some(log_id),
            Some(key_b64),
            Some(submission_url),
            Some(monitoring_url),
            Some(mmd),
        ) => match (opt_state_doc(n), opt_interval_doc(n), opt_str_doc(n, "log_type"@)) {
            (Some(state), Some(temporal_interval), Some(log_type)) => if -0x8000_0000 <= mmd
                <= 0x7fff_ffff {
                match base64_decoded(key_b64) {
                    Some(bytes) => Some(
                        TiledLogV {
                            description,
                            log_id,
                            key: bytes,
                            submission_url,
                            monitoring_url,
                            mmd: mmd as int,
                            state,
                            temporal_interval,
                            log_type,
                        },
                    ),
                    None => None,
                }
            } else {
                None
            },
            _ => None,
        },
        _ => None,
    }
}

/// The addresses an email array denotes: every element a string.
pub open spec fn emails_doc(items: Seq<JsonNodeV>) -> Option<Seq<Seq<char>>>
    decreases items.len(),
{
    if items.len() == 0 {
        Some(Seq::empty())
    } else {
        match (emails_doc(items.subrange(0, items.len() - 1)), items[items.len() - 1]) {
            (Some(s), JsonNodeV::Str(e)) => Some(s.push(e)),
            _ => None,
        }
    }
}

/// The logs a log array denotes: every element a well-formed log entry.
pub open spec fn logs_doc(items: Seq<JsonNodeV>) -> Option<Seq<LogV>>
    decreases items.len(),
{
    if items.len() == 0 {
        Some(Seq::empty())
    } else {
        match (logs_doc(items.subrange(0, items.len() - 1)), log_doc(items[items.len() - 1])) {
            (Some(s), Some(l)) => Some(s.push(l)),
            _ => None,
        }
    }
}

/// The tiled logs a tiled-log array denotes.
pub open spec fn tiled_logs_doc(items: Seq<JsonNodeV>) -> Option<Seq<TiledLogV>>
    decreases items.len(),
{
    if items.len() == 0 {
        Some(Seq::empty())
    } else {
        match (
            tiled_logs_doc(items.subrange(0, items.len() - 1)),
            tiled_log_doc(items[items.len() - 1]),
        ) {
            (Some(s), Some(t)) => Some(s.push(t)),
            _ => None,
        }
    }
}

/// The operator an operator object denotes: a name, an email array and
/// the two log arrays.
pub open spec fn operator_doc(n: JsonNodeV) -> Option<OperatorV> {
    match (
        str_field(n, "name"@),
        node_get(n, "email"@),
        node_get(n, "logs"@),
        node_get(n, "tiled_logs"@),
    ) {
        (
            Some(name),
            Some(JsonNodeV::Arr(emails)),
            Some(JsonNodeV::Arr(logs)),
            Some(JsonNodeV::Arr(tiled)),
        ) => match (emails_doc(emails), logs_doc(logs), tiled_logs_doc(tiled)) {
            (Some(email), Some(parsed_logs), Some(tiled_logs)) => Some(
                OperatorV { name, email, logs: parsed_logs, tiled_logs },
            ),
            _ => None,
        },
        _ => None,
    }
}

/// The operators an operator array denotes.
pub open spec fn operators_doc(items: Seq<JsonNodeV>) -> Option<Seq<OperatorV>>
    decreases items.len(),
{
    if items.len() == 0 {
        Some(Seq::empty())
    } else {
        match (
            operators_doc(items.subrange(0, items.len() - 1)),
            operator_doc(items[items.len() - 1]),
        ) {
            (Some(s), Some(o)) => Some(s.push(o)),
            _ => None,
        }
    }
}

/// The directory a JSON document denotes: the flag, the version, the
/// snapshot timestamp and the operator array, each of the documented
/// shape — or nothing, when the document is malformed.
pub open spec fn directory_doc(n: JsonNodeV) -> Option<LogListV> {
    match (
        node_get(n, "is_all_logs"@),
        str_field(n, "version"@),
        timestamp_field(n, "log_list_timestamp"@),
        node_get(n, "operators"@),
    ) {
        (Some(JsonNodeV::Bool(b)), Some(version), Some(ts), Some(JsonNodeV::Arr(ops))) => match
        operators_doc(ops) {
            Some(operators) => Some(
                LogListV {
                    is_all_logs: b,
                    version,
                    log_list_timestamp: ts as int,
                    operators,
                },
            ),
            None => None,
        },
        _ => None,
    }
}

/// A failed element fails its whole email array.
proof fn lemma_emails_doc_none(items: Seq<JsonNodeV>, j: int)
    requires
        0 <= j <= items.len(),
        emails_doc(items.take(j)) is None,
    ensures
        emails_doc(items) is None,
    decreases items.len() - j,
{
    if j < items.len() {
        assert(items.take(j + 1).subrange(0, j) =~= items.take(j));
        lemma_emails_doc_none(items, j + 1);
    } else {
        assert(items.take(j) =~= items);
    }
}

/// A failed element fails its whole log array.
proof fn lemma_logs_doc_none(items: Seq<JsonNodeV>, j: int)
    requires
        0 <= j <= items.len(),
        logs_doc(items.take(j)) is None,
    ensures
        logs_doc(items) is None,
    decreases items.len() - j,
{
    if j < items.len() {
        assert(items.take(j + 1).subrange(0, j) =~= items.take(j));
        lemma_logs_doc_none(items, j + 1);
    } else {
        assert(items.take(j) =~= items);
    }
}

/// A failed element fails its whole tiled-log array.
proof fn lemma_tiled_logs_doc_none(items: Seq<JsonNodeV>, j: int)
    requires
        0 <= j <= items.len(),
        tiled_logs_doc(items.take(j)) is None,
    ensures
        tiled_logs_doc(items) is None,
    decreases items.len() - j,
{
    if j < items.len() {
        assert(items.take(j + 1).subrange(0, j) =~= items.take(j));
        lemma_tiled_logs_doc_none(items, j + 1);
    } else {
        assert(items.take(j) =~= items);
    }
}

/// A failed element fails its whole operator array.
proof fn lemma_operators_doc_none(items: Seq<JsonNodeV>, j: int)
    requires
        0 <= j <= items.len(),
        operators_doc(items.take(j)) is None,
    ensures
        operators_doc(items) is None,
    decreases items.len() - j,
{
    if j < items.len() {
        assert(items.take(j + 1).subrange(0, j) =~= items.take(j));
        lemma_operators_doc_none(items, j + 1);
    } else {
        assert(items.take(j) =~= items);
    }
}

/// An operator object with a bad email array denotes no operator.
proof fn lemma_operator_doc_bad_email(n: JsonNodeV, emails: Seq<JsonNodeV>)
    requires
        node_get(n, "email"@) == Some(JsonNodeV::Arr(emails)),
        emails_doc(emails) is None,
    ensures
        operator_doc(n) is None,
{
}

/// An operator object with a bad log array denotes no operator.
proof fn lemma_operator_doc_bad_logs(n: JsonNodeV, logs: Seq<JsonNodeV>)
    requires
        node_get(n, "logs"@) == Some(JsonNodeV::Arr(logs)),
        logs_doc(logs) is None,
    ensures
        operator_doc(n) is None,
{
}

/// An operator object with a bad tiled-log array denotes no operator.
proof fn lemma_operator_doc_bad_tiled(n: JsonNodeV, tiled: Seq<JsonNodeV>)
    requires
        node_get(n, "tiled_logs"@) == Some(JsonNodeV::Arr(tiled)),
        tiled_logs_doc(tiled) is None,
    ensures
        operator_doc(n) is None,
{
}

/// A document with a bad operator array denotes no directory.
proof fn lemma_directory_doc_bad_operators(n: JsonNodeV, ops: Seq<JsonNodeV>)
    requires
        node_get(n, "operators"@) == Some(JsonNodeV::Arr(ops)),
        operators_doc(ops) is None,
    ensures
        directory_doc(n) is None,
{
}

/// Looks a key up in a JSON object node, in entry order.
fn json_get<'a>(v: &'a JsonNode, key: &str) -> (r: Option<&'a JsonNode>)
    ensures
        match r {
            Some(c) => node_get(v.deep_view(), key@) == Some(c.deep_view()),
            None => node_get(v.deep_view(), key@) is None,
        },
{
    match v {
        JsonNode::Obj(entries) => {
            let needle: String = key.to_owned();
            let ghost ev = json_view_entries(entries@);
            let n = entries.len();
            let mut k: usize = 0;
            proof {
                assert(ev.skip(0) =~= ev);
            }
            while k < n
                invariant
                    k <= n,
                    n == entries.len(),
                    needle@ == key@,
                    v matches JsonNode::Obj(e) && e == entries,
                    ev == json_view_entries(entries@),
                    entries_get(ev, key@) == entries_get(ev.skip(k as int), key@),
                decreases n - k,
            {
                proof {
                    assert(ev.skip(k as int)[0] == ev[k as int]);
                    assert(ev.skip(k as int).subrange(1, ev.skip(k as int).len() as int) =~= ev.skip(
                        k as int + 1,
                    ));
                }
                if entries[k].0 == needle {
                    return Some(&entries[k].1);
                }
                k += 1;
            }
            proof {
                assert(ev.skip(n as int) =~= Seq::<(Seq<char>, JsonNodeV)>::empty());
            }
            None
        },
        _ => None,
    }
}

/// A tree head assembled from its decoded fields: accepted exactly when
/// the root hash is valid base64.
pub fn tree_head_from_fields(hash_b64: &str, tree_size: i64) -> (r: Result<
    TreeHead,
    LogListError,
>)
    ensures
        r is Ok <==> base64_decoded(hash_b64@) is Some,
        r matches Ok(th) ==> Some(th.sha256_root_hash@) == base64_decoded(hash_b64@)
            && th.tree_size == tree_size,
        r matches Err(e) ==> e is ParseError,
{
    match base64_decode(hash_b64) {
        Some(bytes) => Ok(TreeHead { sha256_root_hash: bytes, tree_size }),
        None => Err(LogListError::ParseError("tree head root hash is not base64".to_owned())),
    }
}

/// A log assembled from its decoded fields: accepted exactly when the
/// key is valid base64 and the merge delay fits a 32-bit integer; every
/// field of the result is pinned to the arguments.
pub fn log_from_fields(
    description: String,
    log_id: String,
    key_b64: &str,
    url: String,
    mmd: i64,
    state: Option<LogState>,
    temporal_interval: Option<TemporalInterval>,
    log_type: Option<String>,
) -> (r: Result<Log, LogListError>)
    ensures
        r is Ok <==> (base64_decoded(key_b64@) is Some && -0x8000_0000 <= mmd <= 0x7fff_ffff),
        r matches Ok(log) ==> log.description@ == description@ && log.log_id@ == log_id@ && Some(
            log.key@,
        ) == base64_decoded(key_b64@) && log.url@ == url@ && log.mmd == mmd && log.state == state
            && log.temporal_interval == temporal_interval && log.log_type == log_type,
        r matches Err(e) ==> e is ParseError,
{
    if mmd < -0x8000_0000 || mmd > 0x7fff_ffff {
        return Err(LogListError::ParseError("merge delay out of range".to_owned()));
    }
    match base64_decode(key_b64) {
        Some(key) => Ok(
            Log {
                description,
                log_id,
                key,
                url,
                mmd: mmd as i32,
                state,
                temporal_interval,
                log_type,
            },
        ),
        None => Err(LogListError::ParseError("log key is not base64".to_owned())),
    }
}

/// A tiled log assembled from its decoded fields, under the same
/// acceptance rule as [`log_from_fields`].
pub fn tiled_log_from_fields(
    description: String,
    log_id: String,
    key_b64: &str,
    submission_url: String,
    monitoring_url: String,
    mmd: i64,
    state: Option<LogState>,
    temporal_interval: Option<TemporalInterval>,
    log_type: Option<String>,
) -> (r: Result<TiledLog, LogListError>)
    ensures
        r is Ok <==> (base64_decoded(key_b64@) is Some && -0x8000_0000 <= mmd <= 0x7fff_ffff),
        r matches Ok(log) ==> log.description@ == description@ && log.log_id@ == log_id@ && Some(
            log.key@,
        ) == base64_decoded(key_b64@) && log.submission_url@ == submission_url@
            && log.monitoring_url@ == monitoring_url@ && log.mmd == mmd && log.state == state
            && log.temporal_interval == temporal_interval && log.log_type == log_type,
        r matches Err(e) ==> e is ParseError,
{
    if mmd < -0x8000_0000 || mmd > 0x7fff_ffff {
        return Err(LogListError::ParseError("merge delay out of range".to_owned()));
    }
    match base64_decode(key_b64) {
        Some(key) => Ok(
            TiledLog {
                description,
                log_id,
                key,
                submission_url,
                monitoring_url,
                mmd: mmd as i32,
                state,
                temporal_interval,
                log_type,
            },
        ),
        None => Err(LogListError::ParseError("log key is not base64".to_owned())),
    }
}

/// Reads a required string field of a JSON object.
fn require_str(v: &JsonNode, key: &str) -> (r: Result<String, LogListError>)
    ensures
        r matches Ok(s) ==> str_field(v.deep_view(), key@) == Some(s@),
        r is Err ==> str_field(v.deep_view(), key@) is None,
        r matches Err(e) ==> e is ParseError,
{
    match json_get(v, key) {
        Some(JsonNode::Str(s)) => Ok(s.clone()),
        Some(_) => Err(LogListError::ParseError("expected a string field".to_owned())),
        None => Err(LogListError::ParseError("missing required field".to_owned())),
    }
}

/// Reads a required RFC 3339 timestamp field of a JSON object, as
/// milliseconds since the Unix epoch.
fn require_timestamp(v: &JsonNode, key: &str) -> (r: Result<i64, LogListError>)
    ensures
        r matches Ok(t) ==> timestamp_field(v.deep_view(), key@) == Some(t),
        r is Err ==> timestamp_field(v.deep_view(), key@) is None,
        r matches Err(e) ==> e is ParseError,
{
    let s = match require_str(v, key) {
        Ok(s) => s,
        Err(e) => {
            return Err(e);
        },
    };
    match parse_rfc3339_millis(s.as_str()) {
        Some(millis) => Ok(millis),
        None => Err(LogListError::ParseError("timestamp is not RFC 3339".to_owned())),
    }
}

/// Reads a required integer field of a JSON object.
fn require_i64(v: &JsonNode, key: &str) -> (r: Result<i64, LogListError>)
    ensures
        r matches Ok(x) ==> i64_field(v.deep_view(), key@) == Some(x),
        r is Err ==> i64_field(v.deep_view(), key@) is None,
        r matches Err(e) ==> e is ParseError,
{
    match json_get(v, key) {
        Some(JsonNode::Num(Some(x))) => Ok(*x),
        Some(_) => Err(LogListError::ParseError("expected an integer field".to_owned())),
        None => Err(LogListError::ParseError("missing required field".to_owned())),
    }
}

/// Parses a tree head object: base64 root hash and integer tree size.
fn parse_tree_head(v: &JsonNode) -> (r: Result<TreeHead, LogListError>)
    ensures
        r matches Ok(th) ==> tree_head_doc(v.deep_view()) == Some(th.deep_view()),
        r is Err ==> tree_head_doc(v.deep_view()) is None,
        r matches Err(e) ==> e is ParseError,
{
    let hash_b64 = match require_str(v, "sha256_root_hash") {
        Ok(s) => s,
        Err(e) => {
            return Err(e);
        },
    };
    let tree_size = match require_i64(v, "tree_size") {
        Ok(n) => n,
        Err(e) => {
            return Err(e);
        },
    };
    tree_head_from_fields(hash_b64.as_str(), tree_size)
}

/// Parses a log state object, trying the five tags in order.
fn parse_state(v: &JsonNode) -> (r: Result<LogState, LogListError>)
    ensures
        r matches Ok(s) ==> state_doc(v.deep_view()) == Some(s.deep_view()),
        r is Err ==> state_doc(v.deep_view()) is None,
        r matches Err(e) ==> e is ParseError,
{
    if let Some(body) = json_get(v, "pending") {
        return match require_timestamp(body, "timestamp") {
            Ok(timestamp) => Ok(LogState::Pending { timestamp }),
            Err(e) => Err(e),
        };
    }
    if let Some(body) = json_get(v, "usable") {
        return match require_timestamp(body, "timestamp") {
            Ok(timestamp) => Ok(LogState::Usable { timestamp }),
            Err(e) => Err(e),
        };
    }
    if let Some(body) = json_get(v, "readonly") {
        let timestamp = match require_timestamp(body, "timestamp") {
            Ok(t) => t,
            Err(e) => {
                return Err(e);
            },
        };
        return match json_get(body, "final_tree_head") {
            Some(th) => match parse_tree_head(th) {
                Ok(final_tree_head) => Ok(LogState::Readonly { timestamp, final_tree_head }),
                Err(e) => Err(e),
            },
            None => Err(LogListError::ParseError("missing required field".to_owned())),
        };
    }
    if let Some(body) = json_get(v, "retired") {
        return match require_timestamp(body, "timestamp") {
            Ok(timestamp) => Ok(LogState::Retired { timestamp }),
            Err(e) => Err(e),
        };
    }
    if let Some(body) = json_get(v, "rejected") {
        return match require_timestamp(body, "timestamp") {
            Ok(timestamp) => Ok(LogState::Rejected { timestamp }),
            Err(e) => Err(e),
        };
    }
    Err(LogListError::ParseError("unknown log state tag".to_owned()))
}

/// Parses the optional state field: absent or null means none.
fn parse_optional_state(v: &JsonNode) -> (r: Result<Option<LogState>, LogListError>)
    ensures
        r matches Ok(s) ==> opt_state_doc(v.deep_view()) == Some(s.deep_view()),
        r is Err ==> opt_state_doc(v.deep_view()) is None,
        r matches Err(e) ==> e is ParseError,
{
    match json_get(v, "state") {
        Some(sv) => match sv {
            JsonNode::Null => Ok(None),
            _ => match parse_state(sv) {
                Ok(s) => Ok(Some(s)),
                Err(e) => Err(e),
            },
        },
        None => Ok(None),
    }
}

/// Parses the optional temporal interval field.
fn parse_optional_interval(v: &JsonNode) -> (r: Result<
    Option<TemporalInterval>,
    LogListError,
>)
    ensures
        r matches Ok(t) ==> opt_interval_doc(v.deep_view()) == Some(t.deep_view()),
        r is Err ==> opt_interval_doc(v.deep_view()) is None,
        r matches Err(e) ==> e is ParseError,
{
    match json_get(v, "temporal_interval") {
        Some(iv) => match iv {
            JsonNode::Null => Ok(None),
            _ => {
                let start_inclusive = match require_timestamp(iv, "start_inclusive") {
                    Ok(t) => t,
                    Err(e) => {
                        return Err(e);
                    },
                };
                let end_exclusive = match require_timestamp(iv, "end_exclusive") {
                    Ok(t) => t,
                    Err(e) => {
                        return Err(e);
                    },
                };
                Ok(Some(TemporalInterval { start_inclusive, end_exclusive }))
            },
        },
        None => Ok(None),
    }
}

/// Parses an optional string field: absent or null means none.
fn parse_optional_str(v: &JsonNode, key: &str) -> (r: Result<Option<String>, LogListError>)
    ensures
        r matches Ok(t) ==> opt_str_doc(v.deep_view(), key@) == Some(t.deep_view()),
        r is Err ==> opt_str_doc(v.deep_view(), key@) is None,
        r matches Err(e) ==> e is ParseError,
{
    match json_get(v, key) {
        Some(sv) => match sv {
            JsonNode::Null => Ok(None),
            JsonNode::Str(s) => Ok(Some(s.clone())),
            _ => Err(LogListError::ParseError("expected a string field".to_owned())),
        },
        None => Ok(None),
    }
}

/// Parses one log entry of an operator.
fn parse_log(v: &JsonNode) -> (r: Result<Log, LogListError>)
    ensures
        r matches Ok(log) ==> log_doc(v.deep_view()) == Some(log.deep_view()),
        r is Err ==> log_doc(v.deep_view()) is None,
        r matches Err(e) ==> e is ParseError,
{
    let description = match require_str(v, "description") {
        Ok(s) => s,
        Err(e) => {
            return Err(e);
        },
    };
    let log_id = match require_str(v, "log_id") {
        Ok(s) => s,
        Err(e) => {
            return Err(e);
        },
    };
    let key_b64 = match require_str(v, "key") {
        Ok(s) => s,
        Err(e) => {
            return Err(e);
        },
    };
    let url = match require_str(v, "url") {
        Ok(s) => s,
        Err(e) => {
            return Err(e);
        },
    };
    let mmd = match require_i64(v, "mmd") {
        Ok(n) => n,
        Err(e) => {
            return Err(e);
        },
    };
    let state = match parse_optional_state(v) {
        Ok(s) => s,
        Err(e) => {
            return Err(e);
        },
    };
    let temporal_interval = match parse_optional_interval(v) {
        Ok(t) => t,
        Err(e) => {
            return Err(e);
        },
    };
    let log_type = match parse_optional_str(v, "log_type") {
        Ok(t) => t,
        Err(e) => {
            return Err(e);
        },
    };
    log_from_fields(
        description,
        log_id,
        key_b64.as_str(),
        url,
        mmd,
        state,
        temporal_interval,
        log_type,
    )
}

/// Parses one tiled-log entry of an operator.
fn parse_tiled_log(v: &JsonNode) -> (r: Result<TiledLog, LogListError>)
    ensures
        r matches Ok(log) ==> tiled_log_doc(v.deep_view()) == Some(log.deep_view()),
        r is Err ==> tiled_log_doc(v.deep_view()) is None,
        r matches Err(e) ==> e is ParseError,
{
    let description = match require_str(v, "description") {
        Ok(s) => s,
        Err(e) => {
            return Err(e);
        },
    };
    let log_id = match require_str(v, "log_id") {
        Ok(s) => s,
        Err(e) => {
            return Err(e);
        },
    };
    let key_b64 = match require_str(v, "key") {
        Ok(s) => s,
        Err(e) => {
            return Err(e);
        },
    };
    let submission_url = match require_str(v, "submission_url") {
        Ok(s) => s,
        Err(e) => {
            return Err(e);
        },
    };
    let monitoring_url = match require_str(v, "monitoring_url") {
        Ok(s) => s,
        Err(e) => {
            return Err(e);
        },
    };
    let mmd = match require_i64(v, "mmd") {
        Ok(n) => n,
        Err(e) => {
            return Err(e);
        },
    };
    let state = match parse_optional_state(v) {
        Ok(s) => s,
        Err(e) => {
            return Err(e);
        },
    };
    let temporal_interval = match parse_optional_interval(v) {
        Ok(t) => t,
        Err(e) => {
            return Err(e);
        },
    };
    let log_type = match parse_optional_str(v, "log_type") {
        Ok(t) => t,
        Err(e) => {
            return Err(e);
        },
    };
    tiled_log_from_fields(
        description,
        log_id,
        key_b64.as_str(),
        submission_url,
        monitoring_url,
        mmd,
        state,
        temporal_interval,
        log_type,
    )
}

/// Parses one operator: its name, contact addresses and logs.
fn parse_operator(v: &JsonNode) -> (r: Result<Operator, LogListError>)
    ensures
        r matches Ok(op) ==> operator_doc(v.deep_view()) == Some(op.deep_view()),
        r is Err ==> operator_doc(v.deep_view()) is None,
        r matches Err(e) ==> e is ParseError,
{
    let name = match require_str(v, "name") {
        Ok(s) => s,
        Err(e) => {
            return Err(e);
        },
    };
    let email_node = match json_get(v, "email") {
        Some(c) => c,
        None => {
            return Err(LogListError::ParseError("missing required field".to_owned()));
        },
    };
    let email_items: &Vec<JsonNode> = match email_node {
        JsonNode::Arr(items) => items,
        _ => {
            return Err(LogListError::ParseError("expected an array field".to_owned()));
        },
    };
    let ghost emails_v = json_view_list(email_items@);
    proof {
        assert(node_get(v.deep_view(), "email"@) == Some(JsonNodeV::Arr(emails_v)));
    }
    let mut email: Vec<String> = Vec::new();
    let mut i: usize = 0;
    proof {
        assert(emails_v.take(0) =~= Seq::<JsonNodeV>::empty());
        assert(email.deep_view() =~= Seq::<Seq<char>>::empty());
    }
    while i < email_items.len()
        invariant
            i <= email_items.len(),
            emails_v == json_view_list(email_items@),
            emails_v.len() == email_items.len(),
            node_get(v.deep_view(), "email"@) == Some(JsonNodeV::Arr(emails_v)),
            emails_doc(emails_v.take(i as int)) == Some(email.deep_view()),
        decreases email_items.len() - i,
    {
        proof {
            assert(emails_v.take(i as int + 1).subrange(0, i as int) =~= emails_v.take(i as int));
            assert(emails_v.take(i as int + 1)[i as int] == emails_v[i as int]);
        }
        match &email_items[i] {
            JsonNode::Str(s) => {
                email.push(s.clone());
                proof {
                    assert(email.deep_view() =~= emails_doc(emails_v.take(i as int)).unwrap().push(
                        s@,
                    ));
                }
            },
            _ => {
                proof {
                    assert(emails_v[i as int] == json_view(email_items@[i as int]));
                    assert(emails_doc(emails_v.take(i as int + 1)) is None);
                    lemma_emails_doc_none(emails_v, i as int + 1);
                    lemma_operator_doc_bad_email(v.deep_view(), emails_v);
                }
                return Err(LogListError::ParseError("expected a string element".to_owned()));
            },
        }
        i += 1;
    }
    proof {
        assert(emails_v.take(email_items.len() as int) =~= emails_v);
    }
    let logs_node = match json_get(v, "logs") {
        Some(c) => c,
        None => {
            return Err(LogListError::ParseError("missing required field".to_owned()));
        },
    };
    let logs_items: &Vec<JsonNode> = match logs_node {
        JsonNode::Arr(items) => items,
        _ => {
            return Err(LogListError::ParseError("expected an array field".to_owned()));
        },
    };
    let ghost logs_v = json_view_list(logs_items@);
    proof {
        assert(node_get(v.deep_view(), "logs"@) == Some(JsonNodeV::Arr(logs_v)));
    }
    let mut logs: Vec<Log> = Vec::new();
    let mut i: usize = 0;
    proof {
        assert(logs_v.take(0) =~= Seq::<JsonNodeV>::empty());
        assert(logs.deep_view() =~= Seq::<LogV>::empty());
    }
    while i < logs_items.len()
        invariant
            i <= logs_items.len(),
            logs_v == json_view_list(logs_items@),
            logs_v.len() == logs_items.len(),
            node_get(v.deep_view(), "logs"@) == Some(JsonNodeV::Arr(logs_v)),
            logs_doc(logs_v.take(i as int)) == Some(logs.deep_view()),
        decreases logs_items.len() - i,
    {
        proof {
            assert(logs_v.take(i as int + 1).subrange(0, i as int) =~= logs_v.take(i as int));
            assert(logs_v.take(i as int + 1)[i as int] == logs_v[i as int]);
        }
        match parse_log(&logs_items[i]) {
            Ok(log) => {
                let ghost pushed = logs.deep_view().push(log.deep_view());
                logs.push(log);
                proof {
                    assert(logs.deep_view() =~= pushed);
                }
            },
            Err(e) => {
                proof {
                    assert(logs_v[i as int] == json_view(logs_items@[i as int]));
                    assert(logs_doc(logs_v.take(i as int + 1)) is None);
                    lemma_logs_doc_none(logs_v, i as int + 1);
                    lemma_operator_doc_bad_logs(v.deep_view(), logs_v);
                }
                return Err(e);
            },
        }
        i += 1;
    }
    proof {
        assert(logs_v.take(logs_items.len() as int) =~= logs_v);
    }
    let tiled_node = match json_get(v, "tiled_logs") {
        Some(c) => c,
        None => {
            return Err(LogListError::ParseError("missing required field".to_owned()));
        },
    };
    let tiled_items: &Vec<JsonNode> = match tiled_node {
        JsonNode::Arr(items) => items,
        _ => {
            return Err(LogListError::ParseError("expected an array field".to_owned()));
        },
    };
    let ghost tiled_v = json_view_list(tiled_items@);
    proof {
        assert(node_get(v.deep_view(), "tiled_logs"@) == Some(JsonNodeV::Arr(tiled_v)));
    }
    let mut tiled_logs: Vec<TiledLog> = Vec::new();
    let mut i: usize = 0;
    proof {
        assert(tiled_v.take(0) =~= Seq::<JsonNodeV>::empty());
        assert(tiled_logs.deep_view() =~= Seq::<TiledLogV>::empty());
    }
    while i < tiled_items.len()
        invariant
            i <= tiled_items.len(),
            tiled_v == json_view_list(tiled_items@),
            tiled_v.len() == tiled_items.len(),
            node_get(v.deep_view(), "tiled_logs"@) == Some(JsonNodeV::Arr(tiled_v)),
            tiled_logs_doc(tiled_v.take(i as int)) == Some(tiled_logs.deep_view()),
        decreases tiled_items.len() - i,
    {
        proof {
            assert(tiled_v.take(i as int + 1).subrange(0, i as int) =~= tiled_v.take(i as int));
            assert(tiled_v.take(i as int + 1)[i as int] == tiled_v[i as int]);
        }
        match parse_tiled_log(&tiled_items[i]) {
            Ok(t) => {
                let ghost pushed = tiled_logs.deep_view().push(t.deep_view());
                tiled_logs.push(t);
                proof {
                    assert(tiled_logs.deep_view() =~= pushed);
                }
            },
            Err(e) => {
                proof {
                    assert(tiled_v[i as int] == json_view(tiled_items@[i as int]));
                    assert(tiled_logs_doc(tiled_v.take(i as int + 1)) is None);
                    lemma_tiled_logs_doc_none(tiled_v, i as int + 1);
                    lemma_operator_doc_bad_tiled(v.deep_view(), tiled_v);
                }
                return Err(e);
            },
        }
        i += 1;
    }
    proof {
        assert(tiled_v.take(tiled_items.len() as int) =~= tiled_v);
    }
    Ok(Operator { name, email, logs, tiled_logs })
}

/// Builds the typed directory from a parsed JSON document: accepted
/// exactly when the document has the documented directory shape, and
/// then equal to the directory the document denotes.
pub fn log_list_from_json(node: &JsonNode) -> (r: Result<LogList, LogListError>)
    ensures
        r is Ok <==> directory_doc(node.deep_view()) is Some,
        r matches Ok(l) ==> Some(l.deep_view()) == directory_doc(node.deep_view()),
        r matches Err(e) ==> e is ParseError,
{
    let is_all_logs = match json_get(node, "is_all_logs") {
        Some(JsonNode::Bool(b)) => *b,
        Some(_) => {
            return Err(LogListError::ParseError("expected a boolean field".to_owned()));
        },
        None => {
            return Err(LogListError::ParseError("missing required field".to_owned()));
        },
    };
    let version = match require_str(node, "version") {
        Ok(s) => s,
        Err(e) => {
            return Err(e);
        },
    };
    let log_list_timestamp = match require_timestamp(node, "log_list_timestamp") {
        Ok(t) => t,
        Err(e) => {
            return Err(e);
        },
    };
    let ops_node = match json_get(node, "operators") {
        Some(c) => c,
        None => {
            return Err(LogListError::ParseError("missing required field".to_owned()));
        },
    };
    let ops_items: &Vec<JsonNode> = match ops_node {
        JsonNode::Arr(items) => items,
        _ => {
            return Err(LogListError::ParseError("expected an array field".to_owned()));
        },
    };
    let ghost ops_v = json_view_list(ops_items@);
    proof {
        assert(node_get(node.deep_view(), "operators"@) == Some(JsonNodeV::Arr(ops_v)));
    }
    let mut operators: Vec<Operator> = Vec::new();
    let mut i: usize = 0;
    proof {
        assert(ops_v.take(0) =~= Seq::<JsonNodeV>::empty());
        assert(operators.deep_view() =~= Seq::<OperatorV>::empty());
    }
    while i < ops_items.len()
        invariant
            i <= ops_items.len(),
            ops_v == json_view_list(ops_items@),
            ops_v.len() == ops_items.len(),
            node_get(node.deep_view(), "operators"@) == Some(JsonNodeV::Arr(ops_v)),
            operators_doc(ops_v.take(i as int)) == Some(operators.deep_view()),
        decreases ops_items.len() - i,
    {
        proof {
            assert(ops_v.take(i as int + 1).subrange(0, i as int) =~= ops_v.take(i as int));
            assert(ops_v.take(i as int + 1)[i as int] == ops_v[i as int]);
        }
        match parse_operator(&ops_items[i]) {
            Ok(op) => {
                let ghost pushed = operators.deep_view().push(op.deep_view());
                operators.push(op);
                proof {
                    assert(operators.deep_view() =~= pushed);
                }
            },
            Err(e) => {
                proof {
                    assert(ops_v[i as int] == json_view(ops_items@[i as int]));
                    assert(operators_doc(ops_v.take(i as int + 1)) is None);
                    lemma_operators_doc_none(ops_v, i as int + 1);
                    lemma_directory_doc_bad_operators(node.deep_view(), ops_v);
                }
                return Err(e);
            },
        }
        i += 1;
    }
    proof {
        assert(ops_v.take(ops_items.len() as int) =~= ops_v);
    }
    Ok(LogList { is_all_logs, version, log_list_timestamp, operators })
}

/// Parses the whole directory document the remote endpoint serves:
/// accepted exactly when the text is JSON of the documented directory
/// shape, and then equal to the directory the text denotes. Fails with
/// a `ParseError` otherwise; the transport that fetched the text is the
/// caller's concern.
pub fn parse_log_list(text: &str) -> (r: Result<LogList, LogListError>)
    ensures
        r is Ok <==> (json_doc(text@) matches Some(n) && directory_doc(n) is Some),
        r matches Ok(l) ==> Some(l.deep_view()) == directory_doc(json_doc(text@).unwrap()),
        r matches Err(e) ==> e is ParseError,
{
    let tree = match json_tree(text) {
        Some(t) => t,
        None => {
            return Err(LogListError::ParseError("directory payload is not JSON".to_owned()));
        },
    };
    log_list_from_json(&tree)
}

} // verus!
