//! Token usage events from Codex rollouts and the proxy ledger: how events
//! are identified, merged, deduplicated and selected.
use vstd::prelude::*;
use crate::text::{chars_of, string_from, owned, trim, trim_chars, lower_seq, eq_ignore_case_str, opt_view};
use crate::native_browser_connection::{chars_lt, compare_chars};
use crate::formats::{JsonValueAt, JsonNode, json_at, json_node};

verus! {

/// Token counts of one request.
#[derive(Debug, Clone, Copy, Default, PartialEq, Eq, Structural)]
pub struct UsageCounts {
    pub input: u64,
    pub cached_input: u64,
    pub cache_write: u64,
    pub output: u64,
    pub reasoning: u64,
    pub total: u64,
}

impl UsageCounts {
    pub open spec fn has_tokens_spec(&self) -> bool {
        self.input > 0 || self.cached_input > 0 || self.cache_write > 0 || self.output > 0
            || self.reasoning > 0 || self.total > 0
    }

    /// Whether any count is positive.
    pub fn has_tokens(&self) -> (r: bool)
        ensures
            r == self.has_tokens_spec(),
    {
        self.input > 0 || self.cached_input > 0 || self.cache_write > 0 || self.output > 0
            || self.reasoning > 0 || self.total > 0
    }

    /// All counts zero.
    pub fn zero() -> (r: Self)
        ensures
            !r.has_tokens_spec(),
            r == (UsageCounts { input: 0, cached_input: 0, cache_write: 0, output: 0, reasoning: 0, total: 0 }),
    {
        UsageCounts { input: 0, cached_input: 0, cache_write: 0, output: 0, reasoning: 0, total: 0 }
    }
}

/// The usage the proxy captured for one response.
#[derive(Debug, Clone, PartialEq, Eq)]
pub struct CapturedResponseUsage {
    pub response_id: String,
    pub model: String,
    pub status: String,
    pub usage: UsageCounts,
    pub usage_missing: bool,
}

/// One usage event, from a rollout file or the proxy ledger.
#[derive(Debug, Clone, PartialEq, Eq)]
pub struct RolloutEvent {
    pub id: String,
    pub session_id: String,
    pub timestamp: String,
    pub model: String,
    pub usage: UsageCounts,
    pub totals: UsageCounts,
    pub source: String,
    pub status: String,
    pub usage_missing: bool,
    pub timestamp_ms: u64,
    pub response_id: String,
}

/// What to read.
#[derive(Debug, Clone)]
pub struct TokenUsageQuery {
    pub since: String,
    pub days: u64,
    pub limit: usize,
    pub proxy_since_ms: u64,
    pub proxy_offset: u64,
    pub proxy_generation: String,
    pub include_rollout: bool,
    pub rollout_incremental: bool,
}

impl Default for TokenUsageQuery {
    fn default() -> (r: Self)
        ensures
            r.since@.len() == 0,
            r.days == 7,
            r.limit == 100000,
            r.proxy_since_ms == 0,
            r.proxy_offset == 0,
            r.proxy_generation@.len() == 0,
            r.include_rollout,
            !r.rollout_incremental,
    {
        TokenUsageQuery {
            since: String::new(),
            days: 7,
            limit: 100000,
            proxy_since_ms: 0,
            proxy_offset: 0,
            proxy_generation: String::new(),
            include_rollout: true,
            rollout_incremental: false,
        }
    }
}

/// What a read returns.
#[derive(Debug, Clone)]
pub struct TokenUsageResult {
    pub events: Vec<RolloutEvent>,
    pub warnings: Vec<String>,
    pub next_since: String,
    pub proxy_next_since_ms: u64,
    pub proxy_enabled_at_ms: u64,
    pub missing_usage: usize,
    pub proxy_next_offset: u64,
    pub proxy_generation: String,
    pub proxy_reset: bool,
}

// ---------------------------------------------------------------------------
// Deduplication
// ---------------------------------------------------------------------------

/// What identifies an event: the session and its running totals when both
/// are known (a watermark), else the event id.
pub enum EventKey {
    Watermark(Seq<char>, UsageCounts),
    EventId(Seq<char>),
}

pub open spec fn event_key(e: RolloutEvent) -> EventKey {
    if e.session_id@.len() > 0 && e.totals.has_tokens_spec() {
        EventKey::Watermark(e.session_id@, e.totals)
    } else {
        EventKey::EventId(e.id@)
    }
}

/// `model_is_unknown(model)`: blank, or `unknown` in any ASCII case.
pub open spec fn model_unknown(model: Seq<char>) -> bool {
    trim(model).len() == 0 || lower_seq(model) == lower_seq("unknown"@)
}

/// Whether an event names no model.
pub fn model_is_unknown(model: &str) -> (r: bool)
    ensures
        r == model_unknown(model@),
{
    let m = chars_of(model);
    trim_chars(&m).len() == 0 || eq_ignore_case_str(&m, "unknown")
}

/// Index of the event with key `k`.
pub open spec fn key_position(out: Seq<RolloutEvent>, k: EventKey) -> Option<int>
    decreases out.len(),
{
    if out.len() == 0 {
        None
    } else if event_key(out.last()) == k {
        Some(out.len() - 1)
    } else {
        key_position(out.drop_last(), k)
    }
}

/// One step of `deduplicate_rollout_events`: a new key is appended; a known
/// key keeps its place, and its event is replaced only when the kept one
/// names no model and the new one does.
pub open spec fn dedup_step(out: Seq<RolloutEvent>, e: RolloutEvent) -> Seq<RolloutEvent> {
    match key_position(out, event_key(e)) {
        Some(i) => if model_unknown(out[i].model@) && !model_unknown(e.model@) {
            out.update(i, e)
        } else {
            out
        },
        None => out.push(e),
    }
}

pub open spec fn dedup_spec(events: Seq<RolloutEvent>) -> Seq<RolloutEvent>
    decreases events.len(),
{
    if events.len() == 0 {
        seq![]
    } else {
        dedup_step(dedup_spec(events.drop_last()), events.last())
    }
}

fn same_key(a: &RolloutEvent, b: &RolloutEvent) -> (r: bool)
    ensures
        r == (event_key(*a) == event_key(*b)),
{
    let wa = chars_of(a.session_id.as_str()).len() > 0 && a.totals.has_tokens();
    let wb = chars_of(b.session_id.as_str()).len() > 0 && b.totals.has_tokens();
    if wa && wb {
        crate::text::str_eq(a.session_id.as_str(), b.session_id.as_str()) && a.totals == b.totals
    } else if !wa && !wb {
        crate::text::str_eq(a.id.as_str(), b.id.as_str())
    } else {
        false
    }
}

pub(crate) fn copy_event(e: &RolloutEvent) -> (r: RolloutEvent)
    ensures
        r == *e,
{
    RolloutEvent {
        id: e.id.clone(),
        session_id: e.session_id.clone(),
        timestamp: e.timestamp.clone(),
        model: e.model.clone(),
        usage: e.usage,
        totals: e.totals,
        source: e.source.clone(),
        status: e.status.clone(),
        usage_missing: e.usage_missing,
        timestamp_ms: e.timestamp_ms,
        response_id: e.response_id.clone(),
    }
}

fn find_key(out: &Vec<RolloutEvent>, e: &RolloutEvent) -> (r: Option<usize>)
    ensures
        match r {
            Some(i) => key_position(out@, event_key(*e)) == Some(i as int) && i < out.len(),
            None => key_position(out@, event_key(*e)) is None,
        },
{
    let mut j: usize = out.len();
    assert(out@.take(out.len() as int) =~= out@);
    while j > 0
        invariant
            j <= out.len(),
            key_position(out@, event_key(*e)) == key_position(out@.take(j as int), event_key(*e)),
        decreases j,
    {
        assert(out@.take(j as int).drop_last() =~= out@.take(j - 1));
        if same_key(&out[j - 1], e) {
            return Some(j - 1);
        }
        j = j - 1;
    }
    None
}

/// Keeps one event per key, in the order keys first appear; a later event
/// with the same key replaces one that names no model.
pub fn deduplicate_rollout_events(events: Vec<RolloutEvent>) -> (r: Vec<RolloutEvent>)
    ensures
        r@ == dedup_spec(events@),
{
    let mut out: Vec<RolloutEvent> = Vec::new();
    let mut i: usize = 0;
    while i < events.len()
        invariant
            i <= events.len(),
            out@ == dedup_spec(events@.take(i as int)),
        decreases events.len() - i,
    {
        assert(events@.take(i + 1).drop_last() =~= events@.take(i as int));
        let e = &events[i];
        match find_key(&out, e) {
            Some(k) => {
                if model_is_unknown(out[k].model.as_str()) && !model_is_unknown(e.model.as_str()) {
                    out.set(k, copy_event(e));
                }
            },
            None => {
                out.push(copy_event(e));
            },
        }
        i = i + 1;
    }
    assert(events@.take(events.len() as int) =~= events@);
    out
}

proof fn lemma_key_position(out: Seq<RolloutEvent>, k: EventKey)
    ensures
        match key_position(out, k) {
            Some(i) => 0 <= i < out.len() && event_key(out[i]) == k,
            None => forall|j: int| 0 <= j < out.len() ==> event_key(#[trigger] out[j]) != k,
        },
    decreases out.len(),
{
    if out.len() > 0 && event_key(out.last()) != k {
        lemma_key_position(out.drop_last(), k);
        assert forall|j: int| 0 <= j < out.len() - 1 implies out[j] == out.drop_last()[j] by {}
    }
}

pub open spec fn has_key(r: Seq<RolloutEvent>, k: EventKey) -> bool {
    exists|j: int| 0 <= j < r.len() && event_key(r[j]) == k
}

/// Deduplication keeps every key exactly once: the kept events have pairwise
/// different keys, every input key is kept, and no event is invented.
pub proof fn law_dedup_keeps_one_event_per_key(events: Seq<RolloutEvent>)
    ensures
        ({
            let r = dedup_spec(events);
            &&& forall|a: int, b: int| 0 <= a < b < r.len() ==> event_key(#[trigger] r[a]) != event_key(#[trigger] r[b])
            &&& forall|i: int| 0 <= i < events.len() ==> has_key(r, event_key(#[trigger] events[i]))
            &&& forall|j: int| 0 <= j < r.len() ==> events.contains(#[trigger] r[j])
            &&& r.len() <= events.len()
        }),
    decreases events.len(),
{
    if events.len() > 0 {
        let init = events.drop_last();
        let e = events.last();
        law_dedup_keeps_one_event_per_key(init);
        let out = dedup_spec(init);
        let r = dedup_spec(events);
        lemma_key_position(out, event_key(e));
        assert forall|j: int| 0 <= j < r.len() implies events.contains(#[trigger] r[j]) by {
            if j < out.len() && r[j] == out[j] {
                assert(init.contains(out[j]));
                let w = choose|w: int| 0 <= w < init.len() && init[w] == out[j];
                assert(events[w] == out[j]);
            } else {
                assert(r[j] == e);
                assert(events[events.len() - 1] == e);
            }
        }
        assert forall|i: int| 0 <= i < events.len() implies has_key(r, event_key(#[trigger] events[i])) by {
            if i < init.len() {
                assert(events[i] == init[i]);
                assert(has_key(out, event_key(init[i])));
                let j = choose|j: int| 0 <= j < out.len() && event_key(out[j]) == event_key(init[i]);
                assert(event_key(r[j]) == event_key(out[j]));
            } else {
                match key_position(out, event_key(e)) {
                    Some(p) => {
                        assert(event_key(r[p]) == event_key(e));
                    },
                    None => {
                        assert(r[out.len() as int] == e);
                    },
                }
            }
        }
    }
}

/// A kept event names a model whenever some event of its key does: one
/// that names no model (blank or `unknown`) gives way to a later event of
/// the same key that names one, and one that names a model is never
/// replaced by one that does not.
pub proof fn law_dedup_prefers_named_model(events: Seq<RolloutEvent>)
    ensures
        forall|k: int, i: int|
            0 <= k < dedup_spec(events).len() && 0 <= i < events.len() && event_key(#[trigger] events[i])
                == event_key(#[trigger] dedup_spec(events)[k]) && !model_unknown(events[i].model@)
                ==> !model_unknown(dedup_spec(events)[k].model@),
    decreases events.len(),
{
    if events.len() > 0 {
        let init = events.drop_last();
        let e = events.last();
        law_dedup_prefers_named_model(init);
        law_dedup_keeps_one_event_per_key(init);
        let out = dedup_spec(init);
        let r = dedup_spec(events);
        lemma_key_position(out, event_key(e));
        assert forall|k: int, i: int|
            0 <= k < r.len() && 0 <= i < events.len() && event_key(#[trigger] events[i]) == event_key(
                #[trigger] r[k],
            ) && !model_unknown(events[i].model@) implies !model_unknown(r[k].model@) by {
            match key_position(out, event_key(e)) {
                None => {
                    if k < out.len() {
                        assert(r[k] == out[k]);
                        if i < init.len() {
                            assert(events[i] == init[i]);
                        } else {
                            assert(events[i] == e);
                        }
                    } else {
                        assert(r[k] == e);
                        if i < init.len() {
                            assert(events[i] == init[i]);
                            assert(has_key(out, event_key(init[i])));
                        } else {
                            assert(events[i] == e);
                        }
                    }
                },
                Some(p) => {
                    if model_unknown(out[p].model@) && !model_unknown(e.model@) {
                        if k == p {
                            assert(r[k] == e);
                        } else {
                            assert(r[k] == out[k]);
                            if i < init.len() {
                                assert(events[i] == init[i]);
                            } else {
                                assert(events[i] == e);
                                if k < p {
                                    assert(event_key(out[k]) != event_key(out[p]));
                                } else {
                                    assert(event_key(out[p]) != event_key(out[k]));
                                }
                            }
                        }
                    } else {
                        assert(r[k] == out[k]);
                        if i < init.len() {
                            assert(events[i] == init[i]);
                        } else {
                            assert(events[i] == e);
                            if k < p {
                                assert(event_key(out[k]) != event_key(out[p]));
                            } else if k > p {
                                assert(event_key(out[p]) != event_key(out[k]));
                            }
                        }
                    }
                },
            }
        }
    }
}

/// Whether `events[i]` is the first event of its key that names a model.
pub open spec fn first_named_of_key(events: Seq<RolloutEvent>, i: int) -> bool {
    &&& !model_unknown(events[i].model@)
    &&& forall|j: int|
        0 <= j < i && event_key(#[trigger] events[j]) == event_key(events[i]) ==> model_unknown(events[j].model@)
}

/// Whether `events[i]` is the first event of its key, and no event of that
/// key names a model.
pub open spec fn first_of_unnamed_key(events: Seq<RolloutEvent>, i: int) -> bool {
    &&& forall|j: int| 0 <= j < i ==> event_key(#[trigger] events[j]) != event_key(events[i])
    &&& forall|j: int|
        0 <= j < events.len() && event_key(#[trigger] events[j]) == event_key(events[i]) ==> model_unknown(
            events[j].model@,
        )
}

/// The event that stands for a key after deduplication is the first event
/// of that key that names a model, where one does.
#[verifier::spinoff_prover]
#[verifier::rlimit(60)]
pub proof fn law_dedup_keeps_first_named_event(events: Seq<RolloutEvent>)
    ensures
        forall|k: int, i: int|
            0 <= k < dedup_spec(events).len() && 0 <= i < events.len() && event_key(#[trigger] events[i])
                == event_key(#[trigger] dedup_spec(events)[k]) && first_named_of_key(events, i)
                ==> dedup_spec(events)[k] == events[i],
    decreases events.len(),
{
    if events.len() > 0 {
        let init = events.drop_last();
        let e = events.last();
        let last = init.len() as int;
        law_dedup_keeps_first_named_event(init);
        law_dedup_keeps_one_event_per_key(init);
        let out = dedup_spec(init);
        let r = dedup_spec(events);
        lemma_key_position(out, event_key(e));
        assert(events[last] == e);
        assert forall|k: int, i: int|
            0 <= k < r.len() && 0 <= i < events.len() && event_key(#[trigger] events[i]) == event_key(
                #[trigger] r[k],
            ) && first_named_of_key(events, i) implies r[k] == events[i] by {
            if i < last {
                assert(events[i] == init[i]);
                assert forall|j: int| 0 <= j < i && event_key(#[trigger] init[j]) == event_key(init[i]) implies model_unknown(
                    init[j].model@,
                ) by {
                    assert(events[j] == init[j]);
                }
                assert(first_named_of_key(init, i));
                assert(has_key(out, event_key(init[i])));
                match key_position(out, event_key(e)) {
                    None => {
                        if k < out.len() {
                            assert(r[k] == out[k]);
                        } else {
                            assert(r[k] == e);
                        }
                    },
                    Some(p) => {
                        if model_unknown(out[p].model@) && !model_unknown(e.model@) && k == p {
                            assert(r[k] == e);
                            assert(out[p] == init[i]);
                        } else {
                            assert(r[k] == out[k]);
                        }
                    },
                }
            } else {
                assert(events[i] == e);
                match key_position(out, event_key(e)) {
                    None => {
                        if k < out.len() {
                            assert(r[k] == out[k]);
                        } else {
                            assert(r[k] == e);
                        }
                    },
                    Some(p) => {
                        assert(init.contains(out[p]));
                        let w = choose|w: int| 0 <= w < init.len() && init[w] == out[p];
                        assert(events[w] == init[w]);
                        assert(model_unknown(out[p].model@));
                        if k == p {
                            assert(r[k] == e);
                        } else {
                            assert(r[k] == out[k]);
                            if k < p {
                                assert(event_key(out[k]) != event_key(out[p]));
                            } else {
                                assert(event_key(out[p]) != event_key(out[k]));
                            }
                        }
                    },
                }
            }
        }
    }
}

/// Where no event of a key names a model, the event that stands for the
/// key after deduplication is the first event of that key.
#[verifier::spinoff_prover]
#[verifier::rlimit(60)]
pub proof fn law_dedup_keeps_first_of_unnamed_key(events: Seq<RolloutEvent>)
    ensures
        forall|k: int, i: int|
            0 <= k < dedup_spec(events).len() && 0 <= i < events.len() && event_key(#[trigger] events[i])
                == event_key(#[trigger] dedup_spec(events)[k]) && first_of_unnamed_key(events, i)
                ==> dedup_spec(events)[k] == events[i],
    decreases events.len(),
{
    if events.len() > 0 {
        let init = events.drop_last();
        let e = events.last();
        let last = init.len() as int;
        law_dedup_keeps_first_of_unnamed_key(init);
        law_dedup_keeps_one_event_per_key(init);
        let out = dedup_spec(init);
        let r = dedup_spec(events);
        lemma_key_position(out, event_key(e));
        assert(events[last] == e);
        assert forall|k: int, i: int|
            0 <= k < r.len() && 0 <= i < events.len() && event_key(#[trigger] events[i]) == event_key(
                #[trigger] r[k],
            ) && first_of_unnamed_key(events, i) implies r[k] == events[i] by {
            if i < last {
                assert(events[i] == init[i]);
                assert forall|j: int| 0 <= j < i implies event_key(#[trigger] init[j]) != event_key(init[i]) by {
                    assert(events[j] == init[j]);
                }
                assert forall|j: int| 0 <= j < init.len() && event_key(#[trigger] init[j]) == event_key(init[i]) implies model_unknown(
                    init[j].model@,
                ) by {
                    assert(events[j] == init[j]);
                }
                assert(first_of_unnamed_key(init, i));
                assert(has_key(out, event_key(init[i])));
                match key_position(out, event_key(e)) {
                    None => {
                        if k < out.len() {
                            assert(r[k] == out[k]);
                        } else {
                            assert(r[k] == e);
                        }
                    },
                    Some(p) => {
                        if model_unknown(out[p].model@) && !model_unknown(e.model@) && k == p {
                            assert(r[k] == e);
                            assert(event_key(events[last]) == event_key(events[i]));
                        } else {
                            assert(r[k] == out[k]);
                        }
                    },
                }
            } else {
                assert(events[i] == e);
                match key_position(out, event_key(e)) {
                    None => {
                        if k < out.len() {
                            assert(r[k] == out[k]);
                        } else {
                            assert(r[k] == e);
                        }
                    },
                    Some(p) => {
                        assert(init.contains(out[p]));
                        let w = choose|w: int| 0 <= w < init.len() && init[w] == out[p];
                        assert(events[w] == init[w]);
                    },
                }
            }
        }
    }
}

/// Deduplication keeps keys in the order they first appear: for two kept
/// events, some event of the earlier one's key comes before every event of
/// the later one's key.
#[verifier::spinoff_prover]
#[verifier::rlimit(60)]
pub proof fn law_dedup_keeps_first_appearance_order(events: Seq<RolloutEvent>)
    ensures
        forall|a: int, b: int, j: int|
            0 <= a < b < dedup_spec(events).len() && 0 <= j < events.len() && event_key(#[trigger] events[j])
                == event_key(#[trigger] dedup_spec(events)[b]) ==> exists|i: int|
                0 <= i < j && event_key(#[trigger] events[i]) == event_key(#[trigger] dedup_spec(events)[a]),
    decreases events.len(),
{
    if events.len() > 0 {
        let init = events.drop_last();
        let e = events.last();
        let last = init.len() as int;
        law_dedup_keeps_first_appearance_order(init);
        law_dedup_keeps_one_event_per_key(init);
        let out = dedup_spec(init);
        let r = dedup_spec(events);
        lemma_key_position(out, event_key(e));
        assert(events[last] == e);
        assert forall|x: int| 0 <= x < out.len() implies event_key(#[trigger] r[x]) == event_key(out[x]) by {
            match key_position(out, event_key(e)) {
                Some(p) => {
                    if x == p {
                        assert(r[x] == out[x] || r[x] == e);
                    } else {
                        assert(r[x] == out[x]);
                    }
                },
                None => {
                    assert(r[x] == out[x]);
                },
            }
        }
        assert forall|a: int, b: int, j: int|
            0 <= a < b < r.len() && 0 <= j < events.len() && event_key(#[trigger] events[j]) == event_key(
                #[trigger] r[b],
            ) implies exists|i: int| 0 <= i < j && event_key(#[trigger] events[i]) == event_key(#[trigger] r[a]) by {
            assert(event_key(r[a]) == event_key(out[a]));
            assert(init.contains(out[a]));
            let w = choose|w: int| 0 <= w < init.len() && init[w] == out[a];
            assert(events[w] == init[w]);
            if b < out.len() {
                assert(event_key(r[b]) == event_key(out[b]));
                if j < last {
                    assert(events[j] == init[j]);
                    let i = choose|i: int| 0 <= i < j && event_key(#[trigger] init[i]) == event_key(out[a]);
                    assert(events[i] == init[i]);
                } else {
                    match key_position(out, event_key(e)) {
                        Some(p) => {
                            if b != p {
                                if b < p {
                                    assert(event_key(out[b]) != event_key(out[p]));
                                } else {
                                    assert(event_key(out[p]) != event_key(out[b]));
                                }
                            }
                        },
                        None => {},
                    }
                }
            } else {
                assert(key_position(out, event_key(e)) is None);
                assert(r[b] == e);
                if j < last {
                    assert(events[j] == init[j]);
                    assert(has_key(out, event_key(init[j])));
                }
            }
        }
    }
}

// ---------------------------------------------------------------------------
// Selection
// ---------------------------------------------------------------------------

/// The events after `since` (all when `since` is empty), at most `limit`.
pub open spec fn select_spec(events: Seq<RolloutEvent>, since: Seq<char>, limit: nat) -> Seq<RolloutEvent>
    decreases events.len(),
{
    if events.len() == 0 {
        seq![]
    } else {
        let r = select_spec(events.drop_last(), since, limit);
        if r.len() < limit && (since.len() == 0 || chars_lt(since, events.last().timestamp@)) {
            r.push(events.last())
        } else {
            r
        }
    }
}

/// `query.limit` within `1..=100000`.
pub open spec fn rollout_limit(limit: usize) -> nat {
    if limit < 1 {
        1
    } else if limit > 100000 {
        100000
    } else {
        limit as nat
    }
}

/// The events of a rollout read: deduplicated, after `since`, at most the
/// limit; `next_since` is the last selected timestamp (or `since`).
pub fn select_rollout_events(events: Vec<RolloutEvent>, query: &TokenUsageQuery) -> (r: (Vec<RolloutEvent>, String))
    ensures
        r.0@ == select_spec(dedup_spec(events@), query.since@, rollout_limit(query.limit)),
        r.1@ == if r.0@.len() > 0 {
            r.0@.last().timestamp@
        } else {
            query.since@
        },
{
    let deduplicated = deduplicate_rollout_events(events);
    let limit: usize = if query.limit < 1 {
        1
    } else if query.limit > 100000 {
        100000
    } else {
        query.limit
    };
    let since = chars_of(query.since.as_str());
    let mut out: Vec<RolloutEvent> = Vec::new();
    let mut i: usize = 0;
    while i < deduplicated.len()
        invariant
            i <= deduplicated.len(),
            limit == rollout_limit(query.limit),
            since@ == query.since@,
            out@ == select_spec(deduplicated@.take(i as int), query.since@, limit as nat),
        decreases deduplicated.len() - i,
    {
        assert(deduplicated@.take(i + 1).drop_last() =~= deduplicated@.take(i as int));
        let e = &deduplicated[i];
        if out.len() < limit {
            let after = since.len() == 0 || compare_chars(&since, &chars_of(e.timestamp.as_str())) == -1;
            if after {
                out.push(copy_event(e));
            }
        }
        i = i + 1;
    }
    assert(deduplicated@.take(deduplicated.len() as int) =~= deduplicated@);
    let next = if out.len() > 0 {
        out[out.len() - 1].timestamp.clone()
    } else {
        query.since.clone()
    };
    (out, next)
}

} // verus!

verus! {

// ---------------------------------------------------------------------------
// Reading usage out of a Responses API event
// ---------------------------------------------------------------------------

/// The pointer to member `k` of the node at `p`.
pub open spec fn child(p: Seq<char>, k: Seq<char>) -> Seq<char> {
    p + "/"@ + k
}

pub open spec fn present(n: JsonValueAt) -> bool {
    !(n is Invalid) && !(n is Missing)
}

pub(crate) fn child_pointer(base: &str, key: &str) -> (r: String)
    ensures
        r@ == child(base@, key@),
{
    let mut v = chars_of(base);
    crate::text::extend_str(&mut v, "/");
    crate::text::extend_str(&mut v, key);
    proof {
        reveal_strlit("/");
    }
    string_from(&v)
}

pub open spec fn name_views(names: Seq<&str>) -> Seq<Seq<char>> {
    names.map_values(|s: &str| s@)
}

/// `string_field`: the first of `names` under `base` that holds a string;
/// empty when none does.
pub open spec fn string_field_spec(d: Seq<char>, base: Seq<char>, names: Seq<Seq<char>>) -> Seq<char>
    decreases names.len(),
{
    if names.len() == 0 {
        seq![]
    } else {
        match json_at(d, child(base, names[0])) {
            JsonValueAt::Str(s) => s,
            _ => string_field_spec(d, base, names.drop_first()),
        }
    }
}

/// `number_field`: the first of `names` under `base` that holds a `u64`;
/// zero when none does.
pub open spec fn number_field_spec(d: Seq<char>, base: Seq<char>, names: Seq<Seq<char>>) -> u64
    decreases names.len(),
{
    if names.len() == 0 {
        0
    } else {
        match json_at(d, child(base, names[0])) {
            JsonValueAt::Number(Some(u), _) => u,
            _ => number_field_spec(d, base, names.drop_first()),
        }
    }
}

/// The pointer of the first of `names` present under `base`.
pub open spec fn first_present(d: Seq<char>, base: Seq<char>, names: Seq<Seq<char>>) -> Option<Seq<char>>
    decreases names.len(),
{
    if names.len() == 0 {
        None
    } else if present(json_at(d, child(base, names[0]))) {
        Some(child(base, names[0]))
    } else {
        first_present(d, base, names.drop_first())
    }
}

pub(crate) fn string_field(d: &str, base: &str, names: &[&str]) -> (r: String)
    ensures
        r@ == string_field_spec(d@, base@, name_views(names@)),
{
    let ghost ns = name_views(names@);
    let mut i: usize = 0;
    assert(ns.subrange(0, ns.len() as int) =~= ns);
    while i < names.len()
        invariant
            i <= names.len(),
            ns == name_views(names@),
            string_field_spec(d@, base@, ns) == string_field_spec(d@, base@, ns.subrange(i as int, ns.len() as int)),
        decreases names.len() - i,
    {
        let ghost rest = ns.subrange(i as int, ns.len() as int);
        assert(rest[0] == names@[i as int]@);
        assert(rest.drop_first() =~= ns.subrange(i + 1, ns.len() as int));
        let p = child_pointer(base, names[i]);
        match json_node(d, p.as_str()) {
            JsonNode::Str(s) => return s,
            _ => {},
        }
        i = i + 1;
    }
    String::new()
}

pub(crate) fn number_field(d: &str, base: &str, names: &[&str]) -> (r: u64)
    ensures
        r == number_field_spec(d@, base@, name_views(names@)),
{
    let ghost ns = name_views(names@);
    let mut i: usize = 0;
    assert(ns.subrange(0, ns.len() as int) =~= ns);
    while i < names.len()
        invariant
            i <= names.len(),
            ns == name_views(names@),
            number_field_spec(d@, base@, ns) == number_field_spec(d@, base@, ns.subrange(i as int, ns.len() as int)),
        decreases names.len() - i,
    {
        let ghost rest = ns.subrange(i as int, ns.len() as int);
        assert(rest[0] == names@[i as int]@);
        assert(rest.drop_first() =~= ns.subrange(i + 1, ns.len() as int));
        let p = child_pointer(base, names[i]);
        match json_node(d, p.as_str()) {
            JsonNode::Number(Some(u), _) => return u,
            _ => {},
        }
        i = i + 1;
    }
    0
}

pub(crate) fn first_present_pointer(d: &str, base: &str, names: &[&str]) -> (r: Option<String>)
    ensures
        opt_view(r) == first_present(d@, base@, name_views(names@)),
{
    let ghost ns = name_views(names@);
    let mut i: usize = 0;
    assert(ns.subrange(0, ns.len() as int) =~= ns);
    while i < names.len()
        invariant
            i <= names.len(),
            ns == name_views(names@),
            first_present(d@, base@, ns) == first_present(d@, base@, ns.subrange(i as int, ns.len() as int)),
        decreases names.len() - i,
    {
        let ghost rest = ns.subrange(i as int, ns.len() as int);
        assert(rest[0] == names@[i as int]@);
        assert(rest.drop_first() =~= ns.subrange(i + 1, ns.len() as int));
        let p = child_pointer(base, names[i]);
        match json_node(d, p.as_str()) {
            JsonNode::Invalid | JsonNode::Missing => {},
            _ => return Some(p),
        }
        i = i + 1;
    }
    None
}

} // verus!

verus! {

pub open spec fn input_names() -> Seq<Seq<char>> {
    seq!["input_tokens"@, "inputTokens"@, "prompt_tokens"@, "promptTokens"@]
}

pub open spec fn output_names() -> Seq<Seq<char>> {
    seq!["output_tokens"@, "outputTokens"@, "completion_tokens"@, "completionTokens"@]
}

pub open spec fn input_detail_names() -> Seq<Seq<char>> {
    seq!["input_tokens_details"@, "inputTokensDetails"@, "prompt_tokens_details"@, "promptTokensDetails"@]
}

pub open spec fn output_detail_names() -> Seq<Seq<char>> {
    seq!["output_tokens_details"@, "outputTokensDetails"@, "completion_tokens_details"@, "completionTokensDetails"@]
}

pub open spec fn cached_names() -> Seq<Seq<char>> {
    seq!["cached_input_tokens"@, "cachedInputTokens"@, "cache_read_input_tokens"@, "cacheReadInputTokens"@]
}

pub open spec fn cached_detail_names() -> Seq<Seq<char>> {
    seq!["cached_tokens"@, "cachedTokens"@, "cache_read_tokens"@, "cacheReadTokens"@]
}

pub open spec fn cache_write_names() -> Seq<Seq<char>> {
    seq!["cache_write_input_tokens"@, "cacheWriteInputTokens"@, "cache_creation_input_tokens"@, "cacheCreationInputTokens"@]
}

pub open spec fn cache_write_detail_names() -> Seq<Seq<char>> {
    seq!["cache_write_tokens"@, "cacheWriteTokens"@, "cache_creation_tokens"@, "cacheCreationTokens"@]
}

pub open spec fn reasoning_names() -> Seq<Seq<char>> {
    seq!["reasoning_output_tokens"@, "reasoningOutputTokens"@]
}

pub open spec fn reasoning_detail_names() -> Seq<Seq<char>> {
    seq!["reasoning_tokens"@, "reasoningTokens"@]
}

pub open spec fn total_names() -> Seq<Seq<char>> {
    seq!["total_tokens"@, "totalTokens"@]
}

/// The member names whose presence means the usage was reported.
pub open spec fn usage_field_names() -> Seq<Seq<char>> {
    input_names() + output_names() + total_names()
}

pub open spec fn max_u64(a: u64, b: u64) -> u64 {
    if a >= b {
        a
    } else {
        b
    }
}

pub open spec fn sat_add(a: u64, b: u64) -> u64 {
    if a + b > u64::MAX {
        u64::MAX
    } else {
        (a + b) as u64
    }
}

pub open spec fn detail_number(d: Seq<char>, details: Option<Seq<char>>, names: Seq<Seq<char>>) -> u64 {
    match details {
        Some(p) => number_field_spec(d, p, names),
        None => 0,
    }
}

/// `usage_counts_from_api`: the counts of a usage object at pointer `u`,
/// under the Responses and Chat Completions names; cached, cache-write and
/// reasoning counts also from the details objects, the larger one winning;
/// the total at least input plus output.
pub open spec fn counts_from_api(d: Seq<char>, u: Seq<char>) -> UsageCounts {
    let input = number_field_spec(d, u, input_names());
    let output = number_field_spec(d, u, output_names());
    let in_det = first_present(d, u, input_detail_names());
    let out_det = first_present(d, u, output_detail_names());
    UsageCounts {
        input,
        cached_input: max_u64(number_field_spec(d, u, cached_names()), detail_number(d, in_det, cached_detail_names())),
        cache_write: max_u64(number_field_spec(d, u, cache_write_names()), detail_number(d, in_det, cache_write_detail_names())),
        output,
        reasoning: max_u64(number_field_spec(d, u, reasoning_names()), detail_number(d, out_det, reasoning_detail_names())),
        total: max_u64(number_field_spec(d, u, total_names()), sat_add(input, output)),
    }
}

fn detail_number_of(d: &str, details: &Option<String>, names: &[&str]) -> (r: u64)
    ensures
        r == detail_number(d@, opt_view(*details), name_views(names@)),
{
    match details {
        Some(p) => number_field(d, p.as_str(), names),
        None => 0,
    }
}

pub(crate) fn max_of(a: u64, b: u64) -> (r: u64)
    ensures
        r == max_u64(a, b),
{
    if a >= b {
        a
    } else {
        b
    }
}

fn usage_counts_from_api(d: &str, u: &str) -> (r: UsageCounts)
    ensures
        r == counts_from_api(d@, u@),
{
    let input_n = ["input_tokens", "inputTokens", "prompt_tokens", "promptTokens"];
    let output_n = ["output_tokens", "outputTokens", "completion_tokens", "completionTokens"];
    let in_det_n = ["input_tokens_details", "inputTokensDetails", "prompt_tokens_details", "promptTokensDetails"];
    let out_det_n = ["output_tokens_details", "outputTokensDetails", "completion_tokens_details", "completionTokensDetails"];
    let cached_n = ["cached_input_tokens", "cachedInputTokens", "cache_read_input_tokens", "cacheReadInputTokens"];
    let cached_det_n = ["cached_tokens", "cachedTokens", "cache_read_tokens", "cacheReadTokens"];
    let write_n = ["cache_write_input_tokens", "cacheWriteInputTokens", "cache_creation_input_tokens", "cacheCreationInputTokens"];
    let write_det_n = ["cache_write_tokens", "cacheWriteTokens", "cache_creation_tokens", "cacheCreationTokens"];
    let reasoning_n = ["reasoning_output_tokens", "reasoningOutputTokens"];
    let reasoning_det_n = ["reasoning_tokens", "reasoningTokens"];
    let total_n = ["total_tokens", "totalTokens"];
    assert(name_views(input_n@) =~= input_names());
    assert(name_views(output_n@) =~= output_names());
    assert(name_views(in_det_n@) =~= input_detail_names());
    assert(name_views(out_det_n@) =~= output_detail_names());
    assert(name_views(cached_n@) =~= cached_names());
    assert(name_views(cached_det_n@) =~= cached_detail_names());
    assert(name_views(write_n@) =~= cache_write_names());
    assert(name_views(write_det_n@) =~= cache_write_detail_names());
    assert(name_views(reasoning_n@) =~= reasoning_names());
    assert(name_views(reasoning_det_n@) =~= reasoning_detail_names());
    assert(name_views(total_n@) =~= total_names());
    let input = number_field(d, u, &input_n);
    let output = number_field(d, u, &output_n);
    let in_det = first_present_pointer(d, u, &in_det_n);
    let out_det = first_present_pointer(d, u, &out_det_n);
    let cached = max_of(number_field(d, u, &cached_n), detail_number_of(d, &in_det, &cached_det_n));
    let write = max_of(number_field(d, u, &write_n), detail_number_of(d, &in_det, &write_det_n));
    let reasoning = max_of(number_field(d, u, &reasoning_n), detail_number_of(d, &out_det, &reasoning_det_n));
    let total = max_of(number_field(d, u, &total_n), input.saturating_add(output));
    UsageCounts { input, cached_input: cached, cache_write: write, output, reasoning, total }
}

/// What the proxy records of a response, as plain values.
#[verifier::ext_equal]
pub struct CapturedView {
    pub response_id: Seq<char>,
    pub model: Seq<char>,
    pub status: Seq<char>,
    pub usage: UsageCounts,
    pub usage_missing: bool,
}

impl View for CapturedResponseUsage {
    type V = CapturedView;

    open spec fn view(&self) -> CapturedView {
        CapturedView {
            response_id: self.response_id@,
            model: self.model@,
            status: self.status@,
            usage: self.usage,
            usage_missing: self.usage_missing,
        }
    }
}

/// The pointer of the response object: `/response` when present, else the
/// whole event.
pub open spec fn response_pointer(d: Seq<char>) -> Seq<char> {
    if present(json_at(d, "/response"@)) {
        "/response"@
    } else {
        ""@
    }
}

/// The pointer of the usage object, from the response or else the event.
pub open spec fn usage_pointer(d: Seq<char>) -> Option<Seq<char>> {
    let r = response_pointer(d);
    if present(json_at(d, child(r, "usage"@))) {
        Some(child(r, "usage"@))
    } else if present(json_at(d, "/usage"@)) {
        Some("/usage"@)
    } else {
        None
    }
}

pub open spec fn or_else_seq(a: Seq<char>, b: Seq<char>) -> Seq<char> {
    if a.len() == 0 {
        b
    } else {
        a
    }
}

/// `captured_response_usage_from_value`: the usage, id, model and status of
/// a terminal event, falling back to the given model and status.
pub open spec fn captured_spec(d: Seq<char>, fallback_model: Seq<char>, fallback_status: Seq<char>) -> CapturedView {
    let r = response_pointer(d);
    let u = usage_pointer(d);
    CapturedView {
        response_id: or_else_seq(
            string_field_spec(d, r, seq!["id"@, "response_id"@, "responseId"@]),
            string_field_spec(d, ""@, seq!["response_id"@, "responseId"@, "id"@]),
        ),
        model: or_else_seq(
            string_field_spec(d, r, seq!["model"@]),
            or_else_seq(string_field_spec(d, ""@, seq!["model"@]), fallback_model),
        ),
        status: or_else_seq(
            string_field_spec(d, r, seq!["status"@]),
            or_else_seq(string_field_spec(d, ""@, seq!["status"@]), fallback_status),
        ),
        usage: match u {
            Some(p) => counts_from_api(d, p),
            None => UsageCounts { input: 0, cached_input: 0, cache_write: 0, output: 0, reasoning: 0, total: 0 },
        },
        usage_missing: match u {
            Some(p) => first_present(d, p, usage_field_names()) is None,
            None => true,
        },
    }
}

/// Whether a node is a number that reads as the count `n`.
pub open spec fn count_is(v: JsonValueAt, n: u64) -> bool {
    match v {
        JsonValueAt::Number(Some(x), _) => x == n,
        _ => false,
    }
}

/// Whether a node is a number that reads as a count above `n`.
pub open spec fn count_above(v: JsonValueAt, n: u64) -> bool {
    match v {
        JsonValueAt::Number(Some(x), _) => x > n,
        _ => false,
    }
}

proof fn lemma_number_field_at_most(d: Seq<char>, base: Seq<char>, names: Seq<Seq<char>>, n: u64)
    requires
        forall|i: int| 0 <= i < names.len() ==> !count_above(json_at(d, child(base, #[trigger] names[i])), n),
    ensures
        number_field_spec(d, base, names) <= n,
    decreases names.len(),
{
    if names.len() > 0 {
        let rest = names.drop_first();
        assert forall|i: int| 0 <= i < rest.len() implies !count_above(json_at(d, child(base, #[trigger] rest[i])), n) by {
            assert(rest[i] == names[i + 1]);
        }
        lemma_number_field_at_most(d, base, rest, n);
        assert(!count_above(json_at(d, child(base, names[0])), n));
    }
}

/// The cached count of a usage object comes from its input details: where
/// `input_tokens_details.cached_tokens` holds `n` and no top-level cached
/// count is larger, the cached count is `n`, whatever the output details
/// hold.
pub proof fn law_cached_count_from_input_details(d: Seq<char>, u: Seq<char>, n: u64)
    requires
        present(json_at(d, child(u, "input_tokens_details"@))),
        count_is(json_at(d, child(child(u, "input_tokens_details"@), "cached_tokens"@)), n),
        forall|i: int| 0 <= i < cached_names().len() ==> !count_above(json_at(d, child(u, #[trigger] cached_names()[i])), n),
    ensures
        counts_from_api(d, u).cached_input == n,
{
    lemma_number_field_at_most(d, u, cached_names(), n);
    assert(input_detail_names()[0] == "input_tokens_details"@);
    assert(cached_detail_names()[0] == "cached_tokens"@);
}

/// The cache-write count of a usage object comes from its input details:
/// where `input_tokens_details.cache_write_tokens` holds `n` and no
/// top-level cache-write count is larger, the cache-write count is `n`.
pub proof fn law_cache_write_count_from_input_details(d: Seq<char>, u: Seq<char>, n: u64)
    requires
        present(json_at(d, child(u, "input_tokens_details"@))),
        count_is(json_at(d, child(child(u, "input_tokens_details"@), "cache_write_tokens"@)), n),
        forall|i: int| 0 <= i < cache_write_names().len() ==> !count_above(
            json_at(d, child(u, #[trigger] cache_write_names()[i])),
            n,
        ),
    ensures
        counts_from_api(d, u).cache_write == n,
{
    lemma_number_field_at_most(d, u, cache_write_names(), n);
    assert(input_detail_names()[0] == "input_tokens_details"@);
    assert(cache_write_detail_names()[0] == "cache_write_tokens"@);
}

/// The reasoning count of a usage object comes from its output details:
/// where `output_tokens_details.reasoning_tokens` holds `n` and no top-level
/// reasoning count is larger, the reasoning count is `n`, whatever the input
/// details hold.
pub proof fn law_reasoning_count_from_output_details(d: Seq<char>, u: Seq<char>, n: u64)
    requires
        present(json_at(d, child(u, "output_tokens_details"@))),
        count_is(json_at(d, child(child(u, "output_tokens_details"@), "reasoning_tokens"@)), n),
        forall|i: int| 0 <= i < reasoning_names().len() ==> !count_above(
            json_at(d, child(u, #[trigger] reasoning_names()[i])),
            n,
        ),
    ensures
        counts_from_api(d, u).reasoning == n,
{
    lemma_number_field_at_most(d, u, reasoning_names(), n);
    assert(output_detail_names()[0] == "output_tokens_details"@);
    assert(reasoning_detail_names()[0] == "reasoning_tokens"@);
}

/// Whether a node is a number that reads as a count.
pub open spec fn holds_count(v: JsonValueAt) -> bool {
    v matches JsonValueAt::Number(Some(_), _)
}

/// The input and output counts of a Responses usage object are its
/// `input_tokens` and `output_tokens`, and the total is never below their
/// sum; a reported `total_tokens` at least that sum is the total.
pub proof fn law_responses_usage_counts(d: Seq<char>, u: Seq<char>, a: u64, b: u64)
    requires
        count_is(json_at(d, child(u, "input_tokens"@)), a),
        count_is(json_at(d, child(u, "output_tokens"@)), b),
    ensures
        counts_from_api(d, u).input == a,
        counts_from_api(d, u).output == b,
        a + b <= u64::MAX ==> counts_from_api(d, u).total >= a + b,
        a + b > u64::MAX ==> counts_from_api(d, u).total == u64::MAX,
        forall|t: u64| #[trigger] count_is(json_at(d, child(u, "total_tokens"@)), t) && t >= a + b
            ==> counts_from_api(d, u).total == t,
{
    assert(input_names()[0] == "input_tokens"@);
    assert(output_names()[0] == "output_tokens"@);
    assert(total_names()[0] == "total_tokens"@);
}

/// A Chat Completions usage object, which has no Responses counts, gives
/// its `prompt_tokens` as the input and its `completion_tokens` as the
/// output.
pub proof fn law_chat_usage_counts(d: Seq<char>, u: Seq<char>, a: u64, b: u64)
    requires
        !holds_count(json_at(d, child(u, "input_tokens"@))),
        !holds_count(json_at(d, child(u, "inputTokens"@))),
        !holds_count(json_at(d, child(u, "output_tokens"@))),
        !holds_count(json_at(d, child(u, "outputTokens"@))),
        count_is(json_at(d, child(u, "prompt_tokens"@)), a),
        count_is(json_at(d, child(u, "completion_tokens"@)), b),
    ensures
        counts_from_api(d, u).input == a,
        counts_from_api(d, u).output == b,
{
    let ins = input_names();
    let outs = output_names();
    assert(ins[0] == "input_tokens"@ && ins[1] == "inputTokens"@ && ins[2] == "prompt_tokens"@);
    assert(outs[0] == "output_tokens"@ && outs[1] == "outputTokens"@ && outs[2] == "completion_tokens"@);
    let ins1 = ins.drop_first();
    let ins2 = ins1.drop_first();
    let outs1 = outs.drop_first();
    let outs2 = outs1.drop_first();
    assert(ins1[0] == ins[1] && ins2[0] == ins[2]);
    assert(outs1[0] == outs[1] && outs2[0] == outs[2]);
    assert(number_field_spec(d, u, ins2) == a);
    assert(number_field_spec(d, u, ins1) == number_field_spec(d, u, ins2));
    assert(number_field_spec(d, u, ins) == number_field_spec(d, u, ins1));
    assert(number_field_spec(d, u, outs2) == b);
    assert(number_field_spec(d, u, outs1) == number_field_spec(d, u, outs2));
    assert(number_field_spec(d, u, outs) == number_field_spec(d, u, outs1));
}

/// For a reply whose usage object stands at `/usage` (with no `response`
/// member), the recorded cached count is what
/// `/usage/input_tokens_details/cached_tokens` holds, unless a top-level
/// cached count of the usage object is larger.
pub proof fn law_captured_cached_from_input_details(d: Seq<char>, model: Seq<char>, status: Seq<char>, n: u64)
    requires
        !present(json_at(d, "/response"@)),
        present(json_at(d, "/usage"@)),
        present(json_at(d, "/usage/input_tokens_details"@)),
        count_is(json_at(d, "/usage/input_tokens_details/cached_tokens"@), n),
        forall|i: int| 0 <= i < cached_names().len() ==> !count_above(
            json_at(d, child("/usage"@, #[trigger] cached_names()[i])),
            n,
        ),
    ensures
        captured_spec(d, model, status).usage.cached_input == n,
{
    reveal_strlit("");
    reveal_strlit("/");
    reveal_strlit("usage");
    reveal_strlit("/usage");
    reveal_strlit("input_tokens_details");
    reveal_strlit("cached_tokens");
    reveal_strlit("/usage/input_tokens_details");
    reveal_strlit("/usage/input_tokens_details/cached_tokens");
    assert(response_pointer(d) == ""@);
    assert(child(""@, "usage"@) =~= "/usage"@);
    assert(child("/usage"@, "input_tokens_details"@) =~= "/usage/input_tokens_details"@);
    assert(child(child("/usage"@, "input_tokens_details"@), "cached_tokens"@)
        =~= "/usage/input_tokens_details/cached_tokens"@);
    assert(usage_pointer(d) == Some("/usage"@));
    law_cached_count_from_input_details(d, "/usage"@, n);
}

pub(crate) fn is_present(n: &JsonNode) -> (r: bool)
    ensures
        r == present(n@),
{
    match n {
        JsonNode::Invalid | JsonNode::Missing => false,
        _ => true,
    }
}

fn response_pointer_of(d: &str) -> (r: String)
    ensures
        r@ == response_pointer(d@),
{
    proof {
        reveal_strlit("");
    }
    if is_present(&json_node(d, "/response")) {
        owned("/response")
    } else {
        owned("")
    }
}

fn or_else_string(a: String, b: String) -> (r: String)
    ensures
        r@ == or_else_seq(a@, b@),
{
    if chars_of(a.as_str()).len() == 0 {
        b
    } else {
        a
    }
}

/// The usage the proxy records for a terminal event's JSON text.
pub fn captured_response_usage(d: &str, fallback_model: &str, fallback_status: &str) -> (r: CapturedResponseUsage)
    ensures
        r@ == captured_spec(d@, fallback_model@, fallback_status@),
{
    let r = response_pointer_of(d);
    let via_response = child_pointer(r.as_str(), "usage");
    let u: Option<String> = if is_present(&json_node(d, via_response.as_str())) {
        Some(via_response)
    } else if is_present(&json_node(d, "/usage")) {
        Some(owned("/usage"))
    } else {
        None
    };
    let ids = ["id", "response_id", "responseId"];
    let ids_root = ["response_id", "responseId", "id"];
    let model_n = ["model"];
    let status_n = ["status"];
    let usage_n = ["input_tokens", "inputTokens", "prompt_tokens", "promptTokens", "output_tokens", "outputTokens", "completion_tokens", "completionTokens", "total_tokens", "totalTokens"];
    assert(name_views(ids@) =~= seq!["id"@, "response_id"@, "responseId"@]);
    assert(name_views(ids_root@) =~= seq!["response_id"@, "responseId"@, "id"@]);
    assert(name_views(model_n@) =~= seq!["model"@]);
    assert(name_views(status_n@) =~= seq!["status"@]);
    assert(name_views(usage_n@) =~= usage_field_names());
    let response_id = or_else_string(string_field(d, r.as_str(), &ids), string_field(d, "", &ids_root));
    let model = or_else_string(
        string_field(d, r.as_str(), &model_n),
        or_else_string(string_field(d, "", &model_n), owned(fallback_model)),
    );
    let status = or_else_string(
        string_field(d, r.as_str(), &status_n),
        or_else_string(string_field(d, "", &status_n), owned(fallback_status)),
    );
    let (usage, usage_missing) = match &u {
        Some(p) => (usage_counts_from_api(d, p.as_str()), first_present_pointer(d, p.as_str(), &usage_n).is_none()),
        None => (UsageCounts::zero(), true),
    };
    proof {
        reveal_strlit("");
    }
    CapturedResponseUsage { response_id, model, status, usage, usage_missing }
}

} // verus!

verus! {

// ---------------------------------------------------------------------------
// The Server-Sent Events usage tracker
// ---------------------------------------------------------------------------

/// The first non-blank string among the response member `key` (when
/// present) or else the event member `fallback_key`.
pub open spec fn meta_value(d: Seq<char>, key: Seq<char>, fallback_key: Seq<char>) -> Option<Seq<char>> {
    let r = response_pointer(d);
    let n = if present(json_at(d, child(r, key))) {
        json_at(d, child(r, key))
    } else {
        json_at(d, child(""@, fallback_key))
    };
    match n {
        JsonValueAt::Str(s) => if trim(s).len() > 0 {
            Some(s)
        } else {
            None
        },
        _ => None,
    }
}

pub open spec fn keep_or(v: Option<Seq<char>>, old: Seq<char>) -> Seq<char> {
    match v {
        Some(s) => s,
        None => old,
    }
}

/// `remember_response_metadata`: the id, model and status named by an event
/// replace the fallback's when they are not blank.
pub open spec fn remember_spec(fb: CapturedView, d: Seq<char>) -> CapturedView {
    CapturedView {
        response_id: keep_or(meta_value(d, "id"@, "response_id"@), fb.response_id),
        model: keep_or(meta_value(d, "model"@, "model"@), fb.model),
        status: keep_or(meta_value(d, "status"@, "status"@), fb.status),
        ..fb
    }
}

fn meta_value_of(d: &str, key: &str, fallback_key: &str) -> (r: Option<String>)
    ensures
        opt_view(r) == meta_value(d@, key@, fallback_key@),
{
    let r = response_pointer_of(d);
    let first = json_node(d, child_pointer(r.as_str(), key).as_str());
    proof {
        reveal_strlit("");
    }
    let n = if is_present(&first) {
        first
    } else {
        json_node(d, child_pointer("", fallback_key).as_str())
    };
    match n {
        JsonNode::Str(s) => if trim_chars(&chars_of(s.as_str())).len() > 0 {
            Some(s)
        } else {
            None
        },
        _ => None,
    }
}

fn keep_or_string(v: Option<String>, old: &String) -> (r: String)
    ensures
        r@ == keep_or(opt_view(v), old@),
{
    match v {
        Some(s) => s,
        None => old.clone(),
    }
}

/// A line's value for an SSE field: after `field:` and one optional space.
pub open spec fn sse_field(line: Seq<char>, field: Seq<char>) -> Option<Seq<char>> {
    if crate::text::starts_with(line, field + ":"@) {
        let rest = line.subrange(field.len() as int + 1, line.len() as int);
        Some(if rest.len() > 0 && rest[0] == ' ' {
            rest.drop_first()
        } else {
            rest
        })
    } else {
        None
    }
}

fn sse_field_of(line: &Vec<char>, field: &str) -> (r: Option<Vec<char>>)
    ensures
        match r {
            Some(v) => sse_field(line@, field@) == Some(v@),
            None => sse_field(line@, field@) is None,
        },
{
    let mut prefix = chars_of(field);
    prefix.push(':');
    proof {
        reveal_strlit(":");
    }
    assert(prefix@ =~= field@ + ":"@);
    if crate::text::has_prefix(line, &prefix) {
        let rest = crate::text::skip_chars(line, prefix.len());
        if rest.len() > 0 && rest[0] == ' ' {
            Some(crate::text::skip_chars(&rest, 1))
        } else {
            Some(rest)
        }
    } else {
        None
    }
}

/// The event name (the last `event:` field, trimmed) and the `data:`
/// fields of the first `n` lines of a block.
pub open spec fn sse_fields(lines: Seq<Seq<char>>, n: nat) -> (Seq<char>, Seq<Seq<char>>)
    decreases n,
{
    if n == 0 || n > lines.len() {
        (seq![], seq![])
    } else {
        let (ev, parts) = sse_fields(lines, (n - 1) as nat);
        let line = lines[n - 1];
        (
            match sse_field(line, "event"@) {
                Some(e) => trim(e),
                None => ev,
            },
            match sse_field(line, "data"@) {
                Some(d) => parts.push(d),
                None => parts,
            },
        )
    }
}

/// The status of a terminal event type.
pub open spec fn terminal_status(t: Seq<char>) -> Option<Seq<char>> {
    if crate::text::ends_with(t, ".completed"@) {
        Some("completed"@)
    } else if crate::text::ends_with(t, ".failed"@) || t == "error"@ {
        Some("failed"@)
    } else if crate::text::ends_with(t, ".incomplete"@) {
        Some("incomplete"@)
    } else {
        None
    }
}

/// `handle_block`: an event block updates the fallback metadata and, when
/// its type is terminal, records the captured usage.
pub open spec fn handle_block_spec(fb: CapturedView, term: Option<CapturedView>, block: Seq<char>) -> (CapturedView, Option<CapturedView>) {
    let lines = crate::text::lines_spec(block);
    let (ev, parts) = sse_fields(lines, lines.len());
    if parts.len() == 0 {
        (fb, term)
    } else {
        let d = crate::model_suffix::join_lines(parts);
        if trim(d) == "[DONE]"@ || json_at(d, ""@) is Invalid {
            (fb, term)
        } else {
            let fb2 = remember_spec(fb, d);
            let t = match json_at(d, "/type"@) {
                JsonValueAt::Str(t) => t,
                _ => ev,
            };
            match terminal_status(t) {
                Some(st) => (fb2, Some(captured_spec(d, fb2.model, st))),
                None => (fb2, term),
            }
        }
    }
}

/// `take_sse_block(buffer)`: the text before the first blank line (`\n\n` or
/// `\r\n\r\n`, whichever comes first) and what follows it.
pub open spec fn take_block_spec(buf: Seq<char>) -> Option<(Seq<char>, Seq<char>)> {
    let lf = crate::text::find_first(buf, "\n\n"@);
    let crlf = crate::text::find_first(buf, "\r\n\r\n"@);
    let pick: Option<(int, int)> = match (lf, crlf) {
        (Some(a), Some(b)) => if a <= b {
            Some((a, 2))
        } else {
            Some((b, 4))
        },
        (Some(a), None) => Some((a, 2)),
        (None, Some(b)) => Some((b, 4)),
        (None, None) => None,
    };
    match pick {
        Some((i, n)) => if 0 <= i && i + n <= buf.len() {
            Some((buf.subrange(0, i), buf.subrange(i + n, buf.len() as int)))
        } else {
            None
        },
        None => None,
    }
}

/// Handling every complete block of the buffer, in order.
#[verifier::opaque]
pub open spec fn drain_spec(fb: CapturedView, term: Option<CapturedView>, buf: Seq<char>) -> (CapturedView, Option<CapturedView>, Seq<char>)
    decreases buf.len(),
{
    match take_block_spec(buf) {
        Some((block, rest)) => if rest.len() < buf.len() {
            let (fb2, t2) = handle_block_spec(fb, term, block);
            drain_spec(fb2, t2, rest)
        } else {
            (fb, term, buf)
        },
        None => (fb, term, buf),
    }
}

} // verus!

verus! {

fn copy_captured(c: &CapturedResponseUsage) -> (r: CapturedResponseUsage)
    ensures
        r@ == c@,
{
    CapturedResponseUsage {
        response_id: c.response_id.clone(),
        model: c.model.clone(),
        status: c.status.clone(),
        usage: c.usage,
        usage_missing: c.usage_missing,
    }
}

fn terminal_status_of(t: &Vec<char>) -> (r: Option<&'static str>)
    ensures
        match r {
            Some(s) => terminal_status(t@) == Some(s@),
            None => terminal_status(t@) is None,
        },
{
    if crate::text::has_suffix_str(t, ".completed") {
        Some("completed")
    } else if crate::text::has_suffix_str(t, ".failed") || crate::text::chars_eq_str(t, "error") {
        Some("failed")
    } else if crate::text::has_suffix_str(t, ".incomplete") {
        Some("incomplete")
    } else {
        None
    }
}

fn join_with_newlines(parts: &Vec<Vec<char>>) -> (r: Vec<char>)
    ensures
        r@ == crate::model_suffix::join_lines(crate::text::views(parts@)),
{
    let ghost ps = crate::text::views(parts@);
    let mut out: Vec<char> = Vec::new();
    let mut i: usize = 0;
    assert(ps.take(0) =~= Seq::<Seq<char>>::empty());
    while i < parts.len()
        invariant
            i <= parts.len(),
            ps == crate::text::views(parts@),
            out@ == crate::model_suffix::join_lines(ps.take(i as int)),
        decreases parts.len() - i,
    {
        let ghost before = out@;
        if i > 0 {
            out.push('\n');
        }
        crate::text::extend_chars(&mut out, &parts[i]);
        assert(ps.take(i + 1).drop_last() =~= ps.take(i as int));
        assert(ps[i as int] == parts@[i as int]@);
        if i == 0 {
            assert(out@ =~= crate::model_suffix::join_lines(ps.take(1)));
        } else {
            assert(out@ =~= before + seq!['\n'] + parts@[i as int]@);
        }
        i = i + 1;
    }
    assert(ps.take(parts.len() as int) =~= ps);
    out
}

fn handle_block(fb: CapturedResponseUsage, term: Option<CapturedResponseUsage>, block: &Vec<char>) -> (r: (CapturedResponseUsage, Option<CapturedResponseUsage>))
    ensures
        (r.0@, opt_captured(r.1)) == handle_block_spec(fb@, opt_captured(term), block@),
{
    let lines = crate::text::lines_of(block);
    let ghost ls = crate::text::views(lines@);
    let mut ev: Vec<char> = Vec::new();
    let mut parts: Vec<Vec<char>> = Vec::new();
    let mut i: usize = 0;
    assert(crate::text::views(parts@) =~= Seq::<Seq<char>>::empty());
    while i < lines.len()
        invariant
            i <= lines.len(),
            ls == crate::text::views(lines@),
            (ev@, crate::text::views(parts@)) == sse_fields(ls, i as nat),
        decreases lines.len() - i,
    {
        assert(ls[i as int] == lines@[i as int]@);
        if let Some(e) = sse_field_of(&lines[i], "event") {
            ev = trim_chars(&e);
        }
        if let Some(d) = sse_field_of(&lines[i], "data") {
            let ghost before = crate::text::views(parts@);
            parts.push(d);
            assert(crate::text::views(parts@) =~= before.push(sse_field(ls[i as int], "data"@)->0));
        }
        i = i + 1;
    }
    if parts.len() == 0 {
        return (fb, term);
    }
    let d = string_from(&join_with_newlines(&parts));
    let dv = chars_of(d.as_str());
    proof {
        reveal_strlit("");
    }
    if crate::text::chars_eq_str(&trim_chars(&dv), "[DONE]") {
        return (fb, term);
    }
    match json_node(d.as_str(), "") {
        JsonNode::Invalid => return (fb, term),
        _ => {},
    }
    let id = meta_value_of(d.as_str(), "id", "response_id");
    let model = meta_value_of(d.as_str(), "model", "model");
    let status = meta_value_of(d.as_str(), "status", "status");
    let fb2 = CapturedResponseUsage {
        response_id: keep_or_string(id, &fb.response_id),
        model: keep_or_string(model, &fb.model),
        status: keep_or_string(status, &fb.status),
        usage: fb.usage,
        usage_missing: fb.usage_missing,
    };
    let t = match json_node(d.as_str(), "/type") {
        JsonNode::Str(t) => chars_of(t.as_str()),
        _ => ev,
    };
    match terminal_status_of(&t) {
        Some(st) => {
            let captured = captured_response_usage(d.as_str(), fb2.model.as_str(), st);
            (fb2, Some(captured))
        },
        None => (fb2, term),
    }
}

pub open spec fn opt_captured(c: Option<CapturedResponseUsage>) -> Option<CapturedView> {
    match c {
        Some(x) => Some(x@),
        None => None,
    }
}

fn take_sse_block(buf: &Vec<char>) -> (r: Option<(Vec<char>, Vec<char>)>)
    ensures
        match r {
            Some((b, rest)) => take_block_spec(buf@) == Some((b@, rest@)) && rest@.len() < buf@.len(),
            None => take_block_spec(buf@) is None,
        },
{
    let lf_pat = chars_of("\n\n");
    let crlf_pat = chars_of("\r\n\r\n");
    proof {
        reveal_strlit("\n\n");
        reveal_strlit("\r\n\r\n");
    }
    assert(lf_pat@.len() == 2);
    assert(crlf_pat@.len() == 4);
    let lf = crate::text::find_chars(buf, &lf_pat);
    let crlf = crate::text::find_chars(buf, &crlf_pat);
    let pick: Option<(usize, usize)> = match (lf, crlf) {
        (Some(a), Some(b)) => if a <= b {
            Some((a, 2))
        } else {
            Some((b, 4))
        },
        (Some(a), None) => Some((a, 2)),
        (None, Some(b)) => Some((b, 4)),
        (None, None) => None,
    };
    match pick {
        Some((i, n)) => {
            assert(i + n <= buf.len());
            let block = crate::text::slice_chars(buf, 0, i);
            let rest = crate::text::skip_chars(buf, i + n);
            Some((block, rest))
        },
        None => None,
    }
}

/// The byte length of the longest prefix of `b` that is valid UTF-8.
pub open spec fn valid_up_to_spec(b: Seq<u8>) -> int {
    choose|k: int| 0 <= k <= b.len() && vstd::utf8::valid_utf8(b.take(k)) && forall|j: int| k < j <= b.len() ==> !vstd::utf8::valid_utf8(#[trigger] b.take(j))
}

/// The bytes begin a UTF-8 character that the end of the input cuts off:
/// one to three bytes that some further bytes would make a valid character.
pub open spec fn cut_off_character(t: Seq<u8>) -> bool {
    &&& 0 < t.len() < 4
    &&& exists|more: Seq<u8>|
        vstd::utf8::valid_first_scalar(#[trigger] (t + more)) && vstd::utf8::length_of_first_scalar(t + more) > t.len()
}

/// `std::str::from_utf8`: the text when the bytes are valid UTF-8; else
/// `Utf8Error::valid_up_to` (the longest valid prefix, as the documentation
/// states) and whether `Utf8Error::error_len` is `None`, which the
/// documentation gives as the end of the input reached inside a character:
/// exactly when the bytes after the valid prefix are such a cut-off
/// character (the length it reports otherwise is not stated).
#[verifier::external_body]
fn utf8_check(bytes: &[u8]) -> (r: Result<String, (usize, Option<usize>)>)
    ensures
        match r {
            Ok(s) => vstd::utf8::valid_utf8(bytes@) && s@ == vstd::utf8::decode_utf8(bytes@),
            Err((k, e)) => !vstd::utf8::valid_utf8(bytes@) && k <= bytes@.len() && vstd::utf8::valid_utf8(bytes@.take(k as int))
                && (forall|j: int| k < j <= bytes@.len() ==> !vstd::utf8::valid_utf8(#[trigger] bytes@.take(j)))
                && (e is None <==> cut_off_character(bytes@.subrange(k as int, bytes@.len() as int))),
        },
{
    match std::str::from_utf8(bytes) {
        Ok(s) => Ok(s.to_string()),
        Err(error) => Err((error.valid_up_to(), error.error_len())),
    }
}

/// `append_utf8_safe`: the decoded text of the pending bytes followed by the
/// new ones; an incomplete character at the end stays pending, invalid bytes
/// are replaced as `String::from_utf8_lossy` does.
pub open spec fn append_spec(buf: Seq<char>, rem: Seq<u8>, bytes: Seq<u8>) -> (Seq<char>, Seq<u8>) {
    if bytes.len() == 0 {
        (buf, rem)
    } else {
        let c = rem + bytes;
        if vstd::utf8::valid_utf8(c) {
            (buf + vstd::utf8::decode_utf8(c), seq![])
        } else {
            let k = valid_up_to_spec(c);
            let b2 = buf + vstd::utf8::decode_utf8(c.take(k));
            if cut_off_character(c.subrange(k, c.len() as int)) {
                (b2, c.subrange(k, c.len() as int))
            } else {
                (b2 + crate::http_text::utf8_lossy(c.subrange(k, c.len() as int)), seq![])
            }
        }
    }
}

fn append_utf8_safe(buf: &mut Vec<char>, rem: &mut Vec<u8>, bytes: &[u8])
    ensures
        (final(buf)@, final(rem)@) == append_spec(old(buf)@, old(rem)@, bytes@),
{
    if bytes.len() == 0 {
        return;
    }
    let mut combined: Vec<u8> = Vec::new();
    let mut i: usize = 0;
    while i < rem.len()
        invariant
            i <= rem.len(),
            combined@ == rem@.take(i as int),
        decreases rem.len() - i,
    {
        combined.push(rem[i]);
        assert(rem@.take(i + 1) =~= rem@.take(i as int).push(rem@[i as int]));
        i = i + 1;
    }
    let mut j: usize = 0;
    assert(rem@.take(rem.len() as int) =~= rem@);
    while j < bytes.len()
        invariant
            j <= bytes.len(),
            combined@ == rem@ + bytes@.take(j as int),
        decreases bytes.len() - j,
    {
        combined.push(bytes[j]);
        assert(bytes@.take(j + 1) =~= bytes@.take(j as int).push(bytes@[j as int]));
        j = j + 1;
    }
    assert(bytes@.take(bytes.len() as int) =~= bytes@);
    let ghost c = combined@;
    *rem = Vec::new();
    match utf8_check(combined.as_slice()) {
        Ok(text) => {
            crate::text::extend_chars(buf, &chars_of(text.as_str()));
        },
        Err((k, e)) => {
            proof {
                let w = valid_up_to_spec(c);
                assert(vstd::utf8::valid_utf8(c.take(w)) && forall|j: int| w < j <= c.len() ==> !vstd::utf8::valid_utf8(#[trigger] c.take(j)));
                if w < k {
                    assert(!vstd::utf8::valid_utf8(c.take(k as int)));
                }
                if k < w {
                    assert(!vstd::utf8::valid_utf8(c.take(w)));
                }
            }
            let prefix = slice_bytes(&combined, 0, k);
            assert(prefix@ =~= c.take(k as int));
            match utf8_check(prefix.as_slice()) {
                Ok(text) => crate::text::extend_chars(buf, &chars_of(text.as_str())),
                Err(_) => {},
            }
            let tail = slice_bytes(&combined, k, combined.len());
            match e {
                None => {
                    *rem = tail;
                },
                Some(_) => {
                    let lossy = crate::http_text::utf8_lossy_string(tail.as_slice());
                    crate::text::extend_chars(buf, &chars_of(lossy.as_str()));
                },
            }
        },
    }
}

fn slice_bytes(v: &Vec<u8>, from: usize, to: usize) -> (r: Vec<u8>)
    requires
        from <= to <= v.len(),
    ensures
        r@ == v@.subrange(from as int, to as int),
{
    let mut out: Vec<u8> = Vec::new();
    let mut i: usize = from;
    while i < to
        invariant
            from <= i <= to <= v.len(),
            out@ == v@.subrange(from as int, i as int),
        decreases to - i,
    {
        out.push(v[i]);
        assert(v@.subrange(from as int, i + 1) =~= v@.subrange(from as int, i as int).push(v@[i as int]));
        i = i + 1;
    }
    out
}

} // verus!

verus! {

/// What a tracker holds: decoded text not yet split into blocks, bytes of an
/// unfinished character, the metadata seen so far and the terminal usage.
#[verifier::ext_equal]
pub struct TrackerView {
    pub buffer: Seq<char>,
    pub pending: Seq<u8>,
    pub fallback: CapturedView,
    pub terminal: Option<CapturedView>,
}

/// Follows a streamed Responses API reply and captures its usage.
pub struct ResponsesSseUsageTracker {
    buffer: Vec<char>,
    utf8_remainder: Vec<u8>,
    fallback: CapturedResponseUsage,
    terminal: Option<CapturedResponseUsage>,
}

impl View for ResponsesSseUsageTracker {
    type V = TrackerView;

    closed spec fn view(&self) -> TrackerView {
        TrackerView {
            buffer: self.buffer@,
            pending: self.utf8_remainder@,
            fallback: self.fallback@,
            terminal: opt_captured(self.terminal),
        }
    }
}

/// The model a request names, or `Unknown`.
pub open spec fn request_model(request: Seq<char>) -> Seq<char> {
    match json_at(request, "/model"@) {
        JsonValueAt::Str(m) => m,
        _ => "Unknown"@,
    }
}

/// The state of a tracker before any byte arrives.
pub open spec fn tracker_start(request: Seq<char>) -> TrackerView {
    TrackerView {
        buffer: seq![],
        pending: seq![],
        fallback: CapturedView {
            response_id: seq![],
            model: request_model(request),
            status: "incomplete"@,
            usage: UsageCounts { input: 0, cached_input: 0, cache_write: 0, output: 0, reasoning: 0, total: 0 },
            usage_missing: true,
        },
        terminal: None,
    }
}

/// `push_bytes`: decode the bytes, then handle every complete block.
pub open spec fn push_spec(s: TrackerView, bytes: Seq<u8>) -> TrackerView {
    let (b1, r1) = append_spec(s.buffer, s.pending, bytes);
    let (fb, t, b2) = drain_spec(s.fallback, s.terminal, b1);
    TrackerView { buffer: b2, pending: r1, fallback: fb, terminal: t }
}

/// The text left at the end of the stream, pending bytes decoded lossily.
pub open spec fn final_text(s: TrackerView) -> Seq<char> {
    if s.pending.len() > 0 {
        s.buffer + crate::http_text::utf8_lossy(s.pending)
    } else {
        s.buffer
    }
}

/// The fallback and terminal usage once the last, unterminated block is
/// handled.
pub open spec fn finish_parts(s: TrackerView) -> (CapturedView, Option<CapturedView>) {
    let text = final_text(s);
    if trim(text).len() > 0 {
        handle_block_spec(s.fallback, s.terminal, text)
    } else {
        (s.fallback, s.terminal)
    }
}

/// `finish`: the terminal usage, or the fallback when no terminal event came.
pub open spec fn finish_result(s: TrackerView) -> CapturedView {
    let (fb, t) = finish_parts(s);
    match t {
        Some(c) => c,
        None => fb,
    }
}

/// The state after `finish`: nothing buffered and no terminal usage left.
pub open spec fn finish_state(s: TrackerView) -> TrackerView {
    let (fb, t) = finish_parts(s);
    let text = final_text(s);
    TrackerView {
        buffer: if trim(text).len() > 0 { seq![] } else { text },
        pending: seq![],
        fallback: fb,
        terminal: None,
    }
}

fn copy_terminal(t: &Option<CapturedResponseUsage>) -> (r: Option<CapturedResponseUsage>)
    ensures
        opt_captured(r) == opt_captured(*t),
{
    match t {
        Some(c) => Some(copy_captured(c)),
        None => None,
    }
}

proof fn lemma_drain_step(fb: CapturedView, t: Option<CapturedView>, buf: Seq<char>, block: Seq<char>, rest: Seq<char>)
    requires
        take_block_spec(buf) == Some((block, rest)),
        rest.len() < buf.len(),
    ensures
        drain_spec(fb, t, buf) == drain_spec(handle_block_spec(fb, t, block).0, handle_block_spec(fb, t, block).1, rest),
{
    reveal(drain_spec);
}

proof fn lemma_drain_done(fb: CapturedView, t: Option<CapturedView>, buf: Seq<char>)
    requires
        take_block_spec(buf) is None,
    ensures
        drain_spec(fb, t, buf) == (fb, t, buf),
{
    reveal(drain_spec);
}

impl ResponsesSseUsageTracker {
    /// A tracker for the given request (JSON text): until a terminal event
    /// arrives the usage is missing, the status `incomplete` and the model
    /// the one the request names.
    pub fn with_request(request: &str) -> (t: Self)
        ensures
            t@ == tracker_start(request@),
    {
        let model = match json_node(request, "/model") {
            JsonNode::Str(m) => m,
            _ => "Unknown".to_string(),
        };
        proof {
            reveal_strlit("/model");
            reveal_strlit("Unknown");
            reveal_strlit("incomplete");
            reveal_strlit("");
        }
        let t = ResponsesSseUsageTracker {
            buffer: Vec::new(),
            utf8_remainder: Vec::new(),
            fallback: CapturedResponseUsage {
                response_id: String::new(),
                model,
                status: "incomplete".to_string(),
                usage: UsageCounts::zero(),
                usage_missing: true,
            },
            terminal: None,
        };
        assert(t@ =~= tracker_start(request@));
        t
    }

    /// Feed a chunk of the stream.
    pub fn push_bytes(&mut self, bytes: &[u8])
        ensures
            final(self)@ == push_spec(old(self)@, bytes@),
    {
        append_utf8_safe(&mut self.buffer, &mut self.utf8_remainder, bytes);
        let ghost b1 = self.buffer@;
        let ghost fb1 = self.fallback@;
        let ghost t1 = opt_captured(self.terminal);
        let ghost r1 = self.utf8_remainder@;
        loop
            invariant
                self.utf8_remainder@ == r1,
                drain_spec(self.fallback@, opt_captured(self.terminal), self.buffer@)
                    == drain_spec(fb1, t1, b1),
            ensures
                self.utf8_remainder@ == r1,
                drain_spec(fb1, t1, b1) == (self.fallback@, opt_captured(self.terminal), self.buffer@),
            decreases self.buffer@.len(),
        {
            let ghost before = self@;
            match take_sse_block(&self.buffer) {
                Some((block, rest)) => {
                    let fb = copy_captured(&self.fallback);
                    let term = copy_terminal(&self.terminal);
                    let (fb2, t2) = handle_block(fb, term, &block);
                    proof {
                        lemma_drain_step(before.fallback, before.terminal, before.buffer, block@, rest@);
                    }
                    self.fallback = fb2;
                    self.terminal = t2;
                    self.buffer = rest;
                },
                None => {
                    proof {
                        lemma_drain_done(before.fallback, before.terminal, before.buffer);
                    }
                    break;
                },
            }
        }
        proof {
            let (r1a, r1b) = append_spec(old(self)@.buffer, old(self)@.pending, bytes@);
            assert(b1 == r1a);
            assert(r1 == r1b);
        }
        assert(self@ =~= push_spec(old(self)@, bytes@));
    }

    /// Whether a terminal event has been seen.
    pub fn is_terminal(&self) -> (r: bool)
        ensures
            r == (self@.terminal is Some),
    {
        self.terminal.is_some()
    }

    /// End of the stream: the last block is handled and the captured usage
    /// is handed out.
    pub fn finish(&mut self) -> (r: CapturedResponseUsage)
        ensures
            r@ == finish_result(old(self)@),
            final(self)@ == finish_state(old(self)@),
    {
        if self.utf8_remainder.len() > 0 {
            let lossy = crate::http_text::utf8_lossy_string(self.utf8_remainder.as_slice());
            crate::text::extend_chars(&mut self.buffer, &chars_of(lossy.as_str()));
            self.utf8_remainder = Vec::new();
        }
        let trimmed = trim_chars(&self.buffer);
        if trimmed.len() > 0 {
            let mut block: Vec<char> = Vec::new();
            std::mem::swap(&mut block, &mut self.buffer);
            let fb = copy_captured(&self.fallback);
            let term = copy_terminal(&self.terminal);
            let (fb2, t2) = handle_block(fb, term, &block);
            self.fallback = fb2;
            self.terminal = t2;
        }
        let out = match &self.terminal {
            Some(c) => copy_captured(c),
            None => copy_captured(&self.fallback),
        };
        self.terminal = None;
        out
    }
}

} // verus!

verus! {

use crate::text::{find_first, occurs_at, contains_seq};

proof fn lemma_first_occurrence(s: Seq<char>, p: Seq<char>, w: int) -> (m: int)
    requires
        occurs_at(s, p, w),
    ensures
        occurs_at(s, p, m),
        forall|k: int| 0 <= k < m ==> !occurs_at(s, p, k),
    decreases w,
{
    if exists|k: int| 0 <= k < w && occurs_at(s, p, k) {
        let k = choose|k: int| 0 <= k < w && occurs_at(s, p, k);
        lemma_first_occurrence(s, p, k)
    } else {
        w
    }
}

#[verifier::spinoff_prover]
#[verifier::rlimit(40)]
proof fn lemma_find_first_props(s: Seq<char>, p: Seq<char>)
    requires
        contains_seq(s, p),
    ensures
        find_first(s, p) matches Some(j) && occurs_at(s, p, j) && forall|k: int| 0 <= k < j ==> !occurs_at(s, p, k),
{
    let w = choose|w: int| occurs_at(s, p, w);
    let m = lemma_first_occurrence(s, p, w);
    crate::text::lemma_find_first_unique(s, p, m);
}

#[verifier::spinoff_prover]
proof fn lemma_find_first_extend(x: Seq<char>, y: Seq<char>, p: Seq<char>, i: int)
    requires
        find_first(x, p) == Some(i),
    ensures
        find_first(x + y, p) == Some(i),
{
    let xy = x + y;
    assert(contains_seq(x, p));
    lemma_find_first_props(x, p);
    assert(occurs_at(x, p, i));
    assert(i + p.len() <= x.len());
    assert(xy.subrange(i, i + p.len()) =~= x.subrange(i, i + p.len()));
    assert(occurs_at(xy, p, i));
    assert forall|k: int| 0 <= k < i implies !occurs_at(xy, p, k) by {
        if occurs_at(xy, p, k) {
            assert(xy.subrange(k, k + p.len()) =~= x.subrange(k, k + p.len()));
            assert(occurs_at(x, p, k));
        }
    }
    crate::text::lemma_find_first_unique(xy, p, i);
}

#[verifier::spinoff_prover]
#[verifier::rlimit(40)]
proof fn lemma_find_first_late(x: Seq<char>, y: Seq<char>, p: Seq<char>, j: int)
    requires
        find_first(x, p) is None,
        find_first(x + y, p) == Some(j),
    ensures
        j + p.len() > x.len(),
        0 <= j,
        occurs_at(x + y, p, j),
{
    let xy = x + y;
    lemma_find_first_props(xy, p);
    if j + p.len() <= x.len() {
        assert(xy.subrange(j, j + p.len()) =~= x.subrange(j, j + p.len()));
        assert(occurs_at(x, p, j));
        assert(contains_seq(x, p));
    }
}

/// `find_first`, kept folded where only its facts are used.
#[verifier::opaque]
pub open spec fn first_at(buf: Seq<char>, p: Seq<char>) -> Option<int> {
    find_first(buf, p)
}

/// Where `take_sse_block` cuts a buffer: the first blank line and its
/// length.
pub open spec fn sse_cut(buf: Seq<char>) -> Option<(int, int)> {
    match (first_at(buf, "\n\n"@), first_at(buf, "\r\n\r\n"@)) {
        (Some(a), Some(b)) => if a <= b {
            Some((a, 2))
        } else {
            Some((b, 4))
        },
        (Some(a), None) => Some((a, 2)),
        (None, Some(b)) => Some((b, 4)),
        (None, None) => None,
    }
}

proof fn lemma_cut_is_take(buf: Seq<char>)
    ensures
        take_block_spec(buf) == match sse_cut(buf) {
            Some((i, n)) => if 0 <= i && i + n <= buf.len() {
                Some((buf.subrange(0, i), buf.subrange(i + n, buf.len() as int)))
            } else {
                None
            },
            None => None,
        },
{
    reveal(first_at);
}

#[verifier::spinoff_prover]
#[verifier::rlimit(40)]
proof fn lemma_cut_lf_beats_late_crlf(x: Seq<char>, y: Seq<char>, a: int, b2: int)
    requires
        find_first(x, "\n\n"@) == Some(a),
        find_first(x, "\r\n\r\n"@) is None,
        find_first(x + y, "\r\n\r\n"@) == Some(b2),
    ensures
        a <= b2,
{
    reveal_strlit("\n\n");
    reveal_strlit("\r\n\r\n");
    let xy = x + y;
    assert(contains_seq(x, "\n\n"@));
    lemma_find_first_props(x, "\n\n"@);
    lemma_find_first_late(x, y, "\r\n\r\n"@, b2);
    if b2 < a {
        assert(b2 == a - 1);
        assert(xy.subrange(b2, b2 + 4)[2] == "\r\n\r\n"@[2]);
        assert(x.subrange(a, a + 2)[1] == "\n\n"@[1]);
        assert(xy[a + 1] == x[a + 1]);
    }
}

#[verifier::spinoff_prover]
#[verifier::rlimit(40)]
proof fn lemma_cut_crlf_beats_late_lf(x: Seq<char>, y: Seq<char>, b: int, a2: int)
    requires
        find_first(x, "\r\n\r\n"@) == Some(b),
        find_first(x, "\n\n"@) is None,
        find_first(x + y, "\n\n"@) == Some(a2),
    ensures
        b < a2,
{
    reveal_strlit("\n\n");
    reveal_strlit("\r\n\r\n");
    assert(contains_seq(x, "\r\n\r\n"@));
    lemma_find_first_props(x, "\r\n\r\n"@);
    lemma_find_first_late(x, y, "\n\n"@, a2);
}

proof fn lemma_first_at_extend(x: Seq<char>, y: Seq<char>, p: Seq<char>)
    requires
        first_at(x, p) is Some,
    ensures
        first_at(x + y, p) == first_at(x, p),
{
    reveal(first_at);
    lemma_find_first_extend(x, y, p, find_first(x, p).unwrap());
}

proof fn lemma_first_lf_beats(x: Seq<char>, y: Seq<char>, a: int, b2: int)
    requires
        first_at(x, "\n\n"@) == Some(a),
        first_at(x, "\r\n\r\n"@) is None,
        first_at(x + y, "\r\n\r\n"@) == Some(b2),
    ensures
        a <= b2,
{
    reveal(first_at);
    lemma_cut_lf_beats_late_crlf(x, y, a, b2);
}

proof fn lemma_first_crlf_beats(x: Seq<char>, y: Seq<char>, b: int, a2: int)
    requires
        first_at(x, "\r\n\r\n"@) == Some(b),
        first_at(x, "\n\n"@) is None,
        first_at(x + y, "\n\n"@) == Some(a2),
    ensures
        b < a2,
{
    reveal(first_at);
    lemma_cut_crlf_beats_late_lf(x, y, b, a2);
}

proof fn lemma_cut_extend(x: Seq<char>, y: Seq<char>)
    requires
        sse_cut(x) is Some,
    ensures
        sse_cut(x + y) == sse_cut(x),
{
    let lfp = "\n\n"@;
    let crp = "\r\n\r\n"@;
    let lf = first_at(x, lfp);
    let cr = first_at(x, crp);
    let xy = x + y;
    if lf is Some {
        lemma_first_at_extend(x, y, lfp);
    }
    if cr is Some {
        lemma_first_at_extend(x, y, crp);
    }
    if lf is None {
        if let Some(a2) = first_at(xy, lfp) {
            lemma_first_crlf_beats(x, y, cr.unwrap(), a2);
        }
    }
    if cr is None {
        if let Some(b2) = first_at(xy, crp) {
            lemma_first_lf_beats(x, y, lf.unwrap(), b2);
        }
    }
}

#[verifier::spinoff_prover]
#[verifier::rlimit(60)]
proof fn lemma_take_block_extend(x: Seq<char>, y: Seq<char>)
    requires
        take_block_spec(x) is Some,
    ensures
        take_block_spec(x + y) == Some((take_block_spec(x).unwrap().0, take_block_spec(x).unwrap().1 + y)),
{
    lemma_cut_is_take(x);
    lemma_cut_is_take(x + y);
    lemma_cut_extend(x, y);
    let (i, n) = sse_cut(x).unwrap();
    let xy = x + y;
    assert(xy.subrange(0, i) =~= x.subrange(0, i));
    assert(xy.subrange(i + n, xy.len() as int) =~= x.subrange(i + n, x.len() as int) + y);
}

proof fn lemma_drain_concat(fb: CapturedView, t: Option<CapturedView>, x: Seq<char>, y: Seq<char>)
    ensures
        drain_spec(fb, t, x + y) == drain_spec(drain_spec(fb, t, x).0, drain_spec(fb, t, x).1, drain_spec(fb, t, x).2 + y),
    decreases x.len(),
{
    reveal(drain_spec);
    lemma_cut_is_take(x);
    match take_block_spec(x) {
        Some((blk, rest)) => {
            lemma_take_block_extend(x, y);
            assert(rest.len() < x.len());
            let (fb2, t2) = handle_block_spec(fb, t, blk);
            lemma_drain_concat(fb2, t2, rest, y);
            assert((rest + y).len() < (x + y).len());
        },
        None => {},
    }
}

proof fn lemma_drain_settled(fb: CapturedView, t: Option<CapturedView>, x: Seq<char>)
    ensures
        ({
            let (fb2, t2, r) = drain_spec(fb, t, x);
            drain_spec(fb2, t2, r) == (fb2, t2, r)
        }),
    decreases x.len(),
{
    reveal(drain_spec);
    lemma_cut_is_take(x);
    match take_block_spec(x) {
        Some((blk, rest)) => {
            let (fb2, t2) = handle_block_spec(fb, t, blk);
            lemma_drain_settled(fb2, t2, rest);
        },
        None => {},
    }
}

proof fn lemma_decode_concat(b1: Seq<u8>, b2: Seq<u8>)
    requires
        vstd::utf8::valid_utf8(b1),
        vstd::utf8::valid_utf8(b2),
    ensures
        vstd::utf8::valid_utf8(b1 + b2),
        vstd::utf8::decode_utf8(b1 + b2) == vstd::utf8::decode_utf8(b1) + vstd::utf8::decode_utf8(b2),
    decreases b1.len(),
{
    vstd::utf8::valid_utf8_concat(b1, b2);
    if b1.len() == 0 {
        assert(b1 + b2 =~= b2);
        assert(vstd::utf8::decode_utf8(b1) =~= Seq::<char>::empty());
        assert(vstd::utf8::decode_utf8(b1) + vstd::utf8::decode_utf8(b2) =~= vstd::utf8::decode_utf8(b2));
    } else {
        let rest = vstd::utf8::pop_first_scalar(b1);
        assert(rest.len() < b1.len());
        lemma_decode_concat(rest, b2);
        assert(vstd::utf8::pop_first_scalar(b1 + b2) =~= rest + b2);
        assert(vstd::utf8::decode_first_scalar(b1 + b2) == vstd::utf8::decode_first_scalar(b1));
        assert(vstd::utf8::decode_utf8(b1 + b2) =~= vstd::utf8::decode_utf8(b1) + vstd::utf8::decode_utf8(b2));
    }
}

proof fn lemma_append_valid(buf: Seq<char>, b: Seq<u8>)
    requires
        vstd::utf8::valid_utf8(b),
    ensures
        append_spec(buf, seq![], b) == (buf + vstd::utf8::decode_utf8(b), Seq::<u8>::empty()),
{
    if b.len() == 0 {
        assert(vstd::utf8::decode_utf8(b) =~= Seq::<char>::empty());
        assert(buf + vstd::utf8::decode_utf8(b) =~= buf);
    } else {
        assert(Seq::<u8>::empty() + b =~= b);
    }
}

/// Where a stream is cut into chunks makes no difference, as long as each
/// chunk is whole UTF-8 (the cut may fall inside an event or inside the
/// blank line that ends one): pushing two chunks leaves the tracker exactly
/// as pushing them at once, so it is terminal, and finishes with the same
/// usage, either way.
pub proof fn law_sse_chunking_is_invisible(s: TrackerView, b1: Seq<u8>, b2: Seq<u8>)
    requires
        s.pending.len() == 0,
        vstd::utf8::valid_utf8(b1),
        vstd::utf8::valid_utf8(b2),
    ensures
        push_spec(push_spec(s, b1), b2) == push_spec(s, b1 + b2),
        push_spec(push_spec(s, b1), b2).terminal == push_spec(s, b1 + b2).terminal,
        finish_result(push_spec(push_spec(s, b1), b2)) == finish_result(push_spec(s, b1 + b2)),
{
    assert(s.pending =~= Seq::<u8>::empty());
    lemma_decode_concat(b1, b2);
    let d1 = vstd::utf8::decode_utf8(b1);
    let d2 = vstd::utf8::decode_utf8(b2);
    lemma_append_valid(s.buffer, b1);
    lemma_append_valid(s.buffer, b1 + b2);
    let s1 = push_spec(s, b1);
    let (fb1, t1, r1) = drain_spec(s.fallback, s.terminal, s.buffer + d1);
    assert(s1 == TrackerView { buffer: r1, pending: Seq::<u8>::empty(), fallback: fb1, terminal: t1 });
    assert(s1.pending =~= Seq::<u8>::empty());
    lemma_append_valid(r1, b2);
    lemma_drain_concat(s.fallback, s.terminal, s.buffer + d1, d2);
    assert(s.buffer + (d1 + d2) =~= (s.buffer + d1) + d2);
}

proof fn lemma_first_scalar_same_bytes(s: Seq<u8>, t: Seq<u8>)
    requires
        vstd::utf8::valid_first_scalar(s),
        t.len() >= vstd::utf8::length_of_first_scalar(s),
        forall|i: int| 0 <= i < vstd::utf8::length_of_first_scalar(s) ==> t[i] == s[i],
    ensures
        vstd::utf8::valid_first_scalar(t),
        vstd::utf8::length_of_first_scalar(t) == vstd::utf8::length_of_first_scalar(s),
        vstd::utf8::decode_first_scalar(t) == vstd::utf8::decode_first_scalar(s),
{
    assert(t[0] == s[0]);
    let l = vstd::utf8::length_of_first_scalar(s);
    if l >= 2 {
        assert(t[1] == s[1]);
    }
    if l >= 3 {
        assert(t[2] == s[2]);
    }
    if l >= 4 {
        assert(t[3] == s[3]);
    }
}

proof fn lemma_valid_suffix(y: Seq<u8>, z: Seq<u8>)
    requires
        vstd::utf8::valid_utf8(y + z),
        vstd::utf8::valid_utf8(y),
    ensures
        vstd::utf8::valid_utf8(z),
    decreases y.len(),
{
    if y.len() == 0 {
        assert(y + z =~= z);
    } else {
        let l = vstd::utf8::length_of_first_scalar(y);
        lemma_first_scalar_same_bytes(y, y + z);
        let rest = vstd::utf8::pop_first_scalar(y);
        assert(vstd::utf8::pop_first_scalar(y + z) =~= rest + z);
        lemma_valid_suffix(rest, z);
    }
}

proof fn lemma_one_scalar_valid(b: Seq<u8>)
    requires
        b.len() > 0,
        vstd::utf8::valid_first_scalar(b),
    ensures
        vstd::utf8::valid_utf8(b.take(vstd::utf8::length_of_first_scalar(b))),
{
    let l = vstd::utf8::length_of_first_scalar(b);
    let t = b.take(l);
    assert(l <= b.len());
    lemma_first_scalar_same_bytes(b, t);
    assert(vstd::utf8::pop_first_scalar(t) =~= Seq::<u8>::empty());
    assert(vstd::utf8::valid_utf8(vstd::utf8::pop_first_scalar(t)));
    assert(vstd::utf8::valid_utf8(t));
}

/// The last character boundary at or before `n`: a valid prefix and a valid
/// rest, with the character at the boundary reaching past `n` unless the
/// boundary is `n` itself.
proof fn lemma_last_boundary(b: Seq<u8>, n: int) -> (m: int)
    requires
        vstd::utf8::valid_utf8(b),
        0 <= n <= b.len(),
    ensures
        0 <= m <= n,
        vstd::utf8::valid_utf8(b.take(m)),
        vstd::utf8::valid_utf8(b.subrange(m, b.len() as int)),
        m < n ==> m < b.len() && m + vstd::utf8::length_of_first_scalar(b.subrange(m, b.len() as int)) > n,
    decreases b.len(),
{
    assert(b.subrange(0, b.len() as int) =~= b);
    assert(b.take(0) =~= Seq::<u8>::empty());
    if n == 0 {
        0
    } else {
        let l = vstd::utf8::length_of_first_scalar(b);
        if l > n {
            0
        } else {
            let rest = vstd::utf8::pop_first_scalar(b);
            let m1 = lemma_last_boundary(rest, n - l);
            let m = m1 + l;
            lemma_one_scalar_valid(b);
            vstd::utf8::valid_utf8_concat(b.take(l), rest.take(m1));
            assert(b.take(m) =~= b.take(l) + rest.take(m1));
            assert(b.subrange(m, b.len() as int) =~= rest.subrange(m1, rest.len() as int));
            m
        }
    }
}

proof fn lemma_no_longer_prefix(b: Seq<u8>, n: int, m: int, j: int)
    requires
        vstd::utf8::valid_utf8(b),
        0 <= m < j <= n <= b.len(),
        vstd::utf8::valid_utf8(b.take(m)),
        vstd::utf8::valid_utf8(b.subrange(m, b.len() as int)),
        m + vstd::utf8::length_of_first_scalar(b.subrange(m, b.len() as int)) > n,
    ensures
        !vstd::utf8::valid_utf8(b.take(j)),
{
    let z = b.subrange(m, j);
    let tail = b.subrange(m, b.len() as int);
    if vstd::utf8::valid_utf8(b.take(j)) {
        assert(b.take(j) =~= b.take(m) + z);
        lemma_valid_suffix(b.take(m), z);
        assert(z[0] == tail[0]);
        assert(vstd::utf8::valid_first_scalar(z));
        assert(vstd::utf8::length_of_first_scalar(z) == vstd::utf8::length_of_first_scalar(tail));
    }
}

proof fn lemma_cut_off_at_boundary(b: Seq<u8>, m: int, n: int)
    requires
        0 <= m < n <= b.len(),
        vstd::utf8::valid_utf8(b.subrange(m, b.len() as int)),
        m + vstd::utf8::length_of_first_scalar(b.subrange(m, b.len() as int)) > n,
    ensures
        cut_off_character(b.subrange(m, n)),
{
    let tail = b.subrange(m, b.len() as int);
    let l = vstd::utf8::length_of_first_scalar(tail);
    assert(tail.len() > 0);
    assert(vstd::utf8::valid_first_scalar(tail));
    assert(l <= tail.len());
    let t = b.subrange(m, n);
    let more = b.subrange(n, m + l);
    assert(t + more =~= tail.take(l));
    lemma_first_scalar_same_bytes(tail, t + more);
    assert(vstd::utf8::valid_first_scalar(t + more) && vstd::utf8::length_of_first_scalar(t + more) > t.len());
}

proof fn lemma_valid_up_to_is(c: Seq<u8>, m: int)
    requires
        0 <= m <= c.len(),
        vstd::utf8::valid_utf8(c.take(m)),
        forall|j: int| m < j <= c.len() ==> !vstd::utf8::valid_utf8(#[trigger] c.take(j)),
    ensures
        valid_up_to_spec(c) == m,
{
    let k = valid_up_to_spec(c);
    assert(0 <= k <= c.len() && vstd::utf8::valid_utf8(c.take(k)) && forall|j: int| k < j <= c.len() ==> !vstd::utf8::valid_utf8(#[trigger] c.take(j)));
    if k < m {
        assert(!vstd::utf8::valid_utf8(c.take(m)));
    }
    if m < k {
        assert(!vstd::utf8::valid_utf8(c.take(k)));
    }
}

/// Where a stream is cut into chunks makes no difference at all, even when
/// the cut falls inside a character or inside the blank line that ends an
/// event: for a valid UTF-8 stream, pushing it in two chunks leaves the
/// tracker exactly as pushing it at once, so it is terminal, and finishes
/// with the same usage, either way.
#[verifier::spinoff_prover]
#[verifier::rlimit(100)]
pub proof fn law_sse_any_cut_is_invisible(s: TrackerView, b1: Seq<u8>, b2: Seq<u8>)
    requires
        s.pending.len() == 0,
        vstd::utf8::valid_utf8(b1 + b2),
    ensures
        push_spec(push_spec(s, b1), b2) == push_spec(s, b1 + b2),
        push_spec(push_spec(s, b1), b2).terminal == push_spec(s, b1 + b2).terminal,
        finish_result(push_spec(push_spec(s, b1), b2)) == finish_result(push_spec(s, b1 + b2)),
{
    let b = b1 + b2;
    let n = b1.len() as int;
    assert(b.take(n) =~= b1);
    assert(b.subrange(n, b.len() as int) =~= b2);
    if vstd::utf8::valid_utf8(b1) {
        lemma_valid_suffix(b1, b2);
        law_sse_chunking_is_invisible(s, b1, b2);
    } else {
        assert(s.pending =~= Seq::<u8>::empty());
        let m = lemma_last_boundary(b, n);
        let tail = b.subrange(m, b.len() as int);
        assert forall|j: int| m < j <= b1.len() implies !vstd::utf8::valid_utf8(#[trigger] b1.take(j)) by {
            lemma_no_longer_prefix(b, n, m, j);
            assert(b1.take(j) =~= b.take(j));
        }
        assert(b1.take(m) =~= b.take(m));
        lemma_valid_up_to_is(b1, m);
        lemma_cut_off_at_boundary(b, m, n);
        assert(b1.subrange(m, n) =~= b.subrange(m, n));
        assert(Seq::<u8>::empty() + b1 =~= b1);
        let d0 = vstd::utf8::decode_utf8(b.take(m));
        let dt = vstd::utf8::decode_utf8(tail);
        // the first chunk decodes up to the boundary and keeps the cut character
        assert(append_spec(s.buffer, s.pending, b1) == (s.buffer + d0, b.subrange(m, n)));
        let (fb1, t1, r1) = drain_spec(s.fallback, s.terminal, s.buffer + d0);
        let s1 = push_spec(s, b1);
        assert(s1 == TrackerView { buffer: r1, pending: b.subrange(m, n), fallback: fb1, terminal: t1 });
        // the second chunk completes it
        assert(b2.len() > 0);
        assert(b.subrange(m, n) + b2 =~= tail);
        assert(append_spec(r1, b.subrange(m, n), b2) == (r1 + dt, Seq::<u8>::empty()));
        // at once
        assert(b =~= b.take(m) + tail);
        lemma_decode_concat(b.take(m), tail);
        lemma_append_valid(s.buffer, b);
        assert(s.buffer + (d0 + dt) =~= (s.buffer + d0) + dt);
        lemma_drain_concat(s.fallback, s.terminal, s.buffer + d0, dt);
    }
}

} // verus!
