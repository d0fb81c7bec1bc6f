//! The parts of the analysis engine that decide without computing on
//! measured values: which line is read as a sample, which samples stay in
//! a channel's window, and which trigger rules fire.

use vstd::prelude::*;
use std::collections::VecDeque;
use crate::decimal::{decimal, format_u64, parse_bounded, parse_u64};
use crate::fields::FieldMap;
use crate::text::{owned, push_str, str_eq};

verus! {

/// A metric of a channel's window that a rule can watch.
#[derive(Clone, Copy, Debug, PartialEq, Eq, Structural)]
pub enum MetricKind {
    DutyCycle,
    MeanValue,
    RmsValue,
}

/// The name of a metric in trigger reasons.
pub open spec fn metric_name(metric: MetricKind) -> Seq<char> {
    match metric {
        MetricKind::DutyCycle => "dutyCycle"@,
        MetricKind::MeanValue => "mean"@,
        MetricKind::RmsValue => "rms"@,
    }
}

/// The name of a metric in trigger reasons.
pub fn metric_label(metric: MetricKind) -> (out: &'static str)
    ensures
        out@ == metric_name(metric),
{
    match metric {
        MetricKind::DutyCycle => "dutyCycle",
        MetricKind::MeanValue => "mean",
        MetricKind::RmsValue => "rms",
    }
}

/// The name of a metric followed by ` missing`: the reason given when a
/// window has no value for the metric that a rule watches.
pub fn missing_metric_reason(metric: MetricKind) -> (out: String)
    ensures
        out@ == metric_name(metric) + " missing"@,
{
    let mut out = owned(metric_label(metric));
    push_str(&mut out, " missing");
    out
}

/// Whether an edge-count rule matches a window with `edge_count` edges
/// (at least `min_edges`), and the reason `edgeCount <count> vs <min>`.
pub fn edge_count_outcome(edge_count: usize, min_edges: usize) -> (out: (bool, String))
    ensures
        out.0 == (edge_count >= min_edges),
        out.1@ == "edgeCount "@ + decimal(edge_count as nat) + " vs "@ + decimal(min_edges as nat),
{
    let mut reason = owned("edgeCount ");
    let count = format_u64(edge_count as u64);
    push_str(&mut reason, count.as_str());
    push_str(&mut reason, " vs ");
    let min = format_u64(min_edges as u64);
    push_str(&mut reason, min.as_str());
    (edge_count >= min_edges, reason)
}

/// The time a line gives for its sample: its `timestamp` field where that
/// reads as a `u64`, else the time it was received.
pub open spec fn reading_time(m: Map<Seq<char>, Seq<char>>, received_ms: u64) -> u64 {
    if m.contains_key("timestamp"@) && parse_bounded(m["timestamp"@], u64::MAX as int) is Some {
        parse_bounded(m["timestamp"@], u64::MAX as int)->0 as u64
    } else {
        received_ms
    }
}

/// What a parsed line offers as a sample: its channel, the text of its
/// value (the `numeric_value` field, else the `value` field) and its time;
/// nothing without a channel or a value.
pub open spec fn reading_of(m: Map<Seq<char>, Seq<char>>, received_ms: u64) -> Option<
    (Seq<char>, Seq<char>, u64),
> {
    if !m.contains_key("channel_id"@) {
        None
    } else if m.contains_key("numeric_value"@) {
        Some((m["channel_id"@], m["numeric_value"@], reading_time(m, received_ms)))
    } else if m.contains_key("value"@) {
        Some((m["channel_id"@], m["value"@], reading_time(m, received_ms)))
    } else {
        None
    }
}

/// The channel, value text and time of the sample that the parsed fields
/// of a line offer; see `reading_of`.
pub fn measurement_reading(fields: &FieldMap, received_ms: u64) -> (out: Option<
    (String, String, u64),
>)
    ensures
        match (out, reading_of(fields@, received_ms)) {
            (Some(r), Some(t)) => r.0@ == t.0 && r.1@ == t.1 && r.2 == t.2,
            (None, None) => true,
            _ => false,
        },
{
    let channel = match fields.get("channel_id") {
        Some(c) => c.clone(),
        None => return None,
    };
    let value = match fields.get("numeric_value") {
        Some(v) => v.clone(),
        None => match fields.get("value") {
            Some(v) => v.clone(),
            None => return None,
        },
    };
    let timestamp = match fields.get("timestamp") {
        Some(t) => match parse_u64(t.as_str()) {
            Some(ms) => ms,
            None => received_ms,
        },
        None => received_ms,
    };
    Some((channel, value, timestamp))
}

/// A measured value and the time it was taken at.
#[derive(Clone, Copy, Debug)]
pub struct SamplePoint<V> {
    pub timestamp_ms: u64,
    pub value: V,
}

/// The oldest time that a window of `window_ms` ending at `newest_ms`
/// keeps.
pub open spec fn window_start(newest_ms: u64, window_ms: u64) -> int {
    if newest_ms >= window_ms {
        newest_ms - window_ms
    } else {
        0
    }
}

/// The samples left after dropping, from the front, those older than
/// `start`, always keeping the newest one.
pub open spec fn pruned<V>(s: Seq<SamplePoint<V>>, start: int) -> Seq<SamplePoint<V>>
    decreases s.len(),
{
    if s.len() > 1 && s[0].timestamp_ms < start {
        pruned(s.drop_first(), start)
    } else {
        s
    }
}

/// Pruning keeps a suffix of the window that still holds the newest
/// sample, and every sample it drops is older than the window's start.
pub proof fn lemma_pruned_keeps_newest<V>(s: Seq<SamplePoint<V>>, start: int)
    requires
        s.len() > 0,
    ensures
        0 < pruned(s, start).len() <= s.len(),
        pruned(s, start).last() == s.last(),
        pruned(s, start) == s.skip(s.len() - pruned(s, start).len()),
        forall|i: int| 0 <= i < s.len() - pruned(s, start).len() ==> #[trigger] s[i].timestamp_ms < start,
    decreases s.len(),
{
    if s.len() > 1 && s[0].timestamp_ms < start {
        lemma_pruned_keeps_newest(s.drop_first(), start);
        let p = pruned(s.drop_first(), start);
        assert(s.drop_first().skip(s.drop_first().len() - p.len()) =~= s.skip(s.len() - p.len()));
        assert forall|i: int| 0 <= i < s.len() - p.len() implies #[trigger] s[i].timestamp_ms < start by {
            if i > 0 {
                assert(s[i] == s.drop_first()[i - 1]);
            }
        }
    } else {
        assert(s.skip(0) =~= s);
    }
}

/// Drops the samples that fell out of the window of `window_ms` ending at
/// `newest_timestamp_ms`, oldest first, keeping at least one.
pub fn prune_old_samples<V>(
    samples: &mut VecDeque<SamplePoint<V>>,
    window_ms: u64,
    newest_timestamp_ms: u64,
)
    ensures
        final(samples)@ == pruned(old(samples)@, window_start(newest_timestamp_ms, window_ms)),
{
    let min_timestamp = newest_timestamp_ms.saturating_sub(window_ms);
    let ghost start = window_start(newest_timestamp_ms, window_ms);
    let ghost first = samples@;
    while samples.len() > 1
        invariant
            min_timestamp == start,
            pruned(samples@, start) == pruned(first, start),
        ensures
            pruned(samples@, start) == pruned(first, start),
            pruned(samples@, start) == samples@,
        decreases samples@.len(),
    {
        if samples[0].timestamp_ms >= min_timestamp {
            break;
        }
        let ghost before = samples@;
        let _ = samples.pop_front();
        assert(samples@ =~= before.drop_first());
    }
}

/// The text of a list of rule ids with their flags.
pub open spec fn flags_text(entries: Seq<(String, bool)>) -> Seq<(Seq<char>, bool)> {
    entries.map_values(|e: (String, bool)| (e.0@, e.1))
}

/// The map that a list of id/flag pairs gives, later pairs winning.
pub open spec fn flag_map(p: Seq<(Seq<char>, bool)>) -> Map<Seq<char>, bool>
    decreases p.len(),
{
    if p.len() == 0 {
        Map::empty()
    } else {
        flag_map(p.drop_last()).insert(p.last().0, p.last().1)
    }
}

/// Whether no id occurs twice in a list of pairs.
pub open spec fn ids_distinct(p: Seq<(Seq<char>, bool)>) -> bool {
    forall|i: int, j: int| 0 <= i < j < p.len() ==> #[trigger] p[i].0 != #[trigger] p[j].0
}

/// An id is in the map of a list of pairs exactly when some pair has it.
pub proof fn lemma_flag_map_dom(p: Seq<(Seq<char>, bool)>, k: Seq<char>)
    ensures
        flag_map(p).contains_key(k) <==> exists|i: int| 0 <= i < p.len() && #[trigger] p[i].0 == k,
    decreases p.len(),
{
    if p.len() > 0 {
        lemma_flag_map_dom(p.drop_last(), k);
        if flag_map(p.drop_last()).contains_key(k) {
            let i = choose|i: int| 0 <= i < p.drop_last().len() && #[trigger] p.drop_last()[i].0 == k;
            assert(p[i].0 == k);
        }
        if exists|i: int| 0 <= i < p.len() && #[trigger] p[i].0 == k {
            let i = choose|i: int| 0 <= i < p.len() && #[trigger] p[i].0 == k;
            if i < p.len() - 1 {
                assert(p.drop_last()[i].0 == k);
            }
        }
    }
}

/// With distinct ids, each pair's flag is the map's flag for its id.
pub proof fn lemma_flag_map_value(p: Seq<(Seq<char>, bool)>, i: int)
    requires
        ids_distinct(p),
        0 <= i < p.len(),
    ensures
        flag_map(p).contains_key(p[i].0),
        flag_map(p)[p[i].0] == p[i].1,
    decreases p.len(),
{
    if i < p.len() - 1 {
        assert(ids_distinct(p.drop_last()));
        assert(p.drop_last()[i] == p[i]);
        lemma_flag_map_value(p.drop_last(), i);
        assert(p[i].0 != p[p.len() - 1].0);
    }
}

/// Whether a rule counts as matched in a map of rule activity: a rule
/// never seen is not.
pub open spec fn is_active_in(m: Map<Seq<char>, bool>, id: Seq<char>) -> bool {
    m.contains_key(id) && m[id]
}

/// Which trigger rules of a channel matched the last window, by rule id.
#[derive(Debug)]
pub struct ActiveRules {
    entries: Vec<(String, bool)>,
}

impl View for ActiveRules {
    type V = Map<Seq<char>, bool>;

    closed spec fn view(&self) -> Map<Seq<char>, bool> {
        flag_map(flags_text(self.entries@))
    }
}

impl ActiveRules {
    #[verifier::type_invariant]
    spec fn distinct(&self) -> bool {
        ids_distinct(flags_text(self.entries@))
    }

    /// No rule seen yet.
    pub fn new() -> (out: Self)
        ensures
            out@ == Map::<Seq<char>, bool>::empty(),
    {
        let out = ActiveRules { entries: Vec::new() };
        assert(flags_text(out.entries@) =~= Seq::empty());
        out
    }

    /// Whether the rule `id` matched when it was last evaluated.
    pub fn is_active(&self, id: &str) -> (r: bool)
        ensures
            r == is_active_in(self@, id@),
    {
        proof {
            use_type_invariant(self);
        }
        let ghost p = flags_text(self.entries@);
        let mut i: usize = 0;
        while i < self.entries.len()
            invariant
                i <= self.entries.len(),
                p == flags_text(self.entries@),
                ids_distinct(p),
                forall|j: int| 0 <= j < i ==> #[trigger] p[j].0 != id@,
            decreases self.entries.len() - i,
        {
            if str_eq(self.entries[i].0.as_str(), id) {
                proof {
                    lemma_flag_map_value(p, i as int);
                }
                return self.entries[i].1;
            }
            i = i + 1;
        }
        proof {
            lemma_flag_map_dom(p, id@);
        }
        false
    }

    /// Records whether the rule `id` matched.
    pub fn set(&mut self, id: String, matched: bool)
        ensures
            final(self)@ == old(self)@.insert(id@, matched),
    {
        proof {
            use_type_invariant(&*self);
        }
        let ghost p = flags_text(self.entries@);
        let mut i: usize = 0;
        while i < self.entries.len()
            invariant
                i <= self.entries.len(),
                p == flags_text(self.entries@),
                ids_distinct(p),
                forall|j: int| 0 <= j < i ==> #[trigger] p[j].0 != id@,
            ensures
                i <= self.entries.len(),
                forall|j: int| 0 <= j < i ==> #[trigger] p[j].0 != id@,
                i < self.entries.len() ==> p[i as int].0 == id@,
            decreases self.entries.len() - i,
        {
            if str_eq(self.entries[i].0.as_str(), id.as_str()) {
                break;
            }
            i = i + 1;
        }
        let ghost e = (id@, matched);
        let mut entries: Vec<(String, bool)> = Vec::new();
        std::mem::swap(&mut entries, &mut self.entries);
        if i < entries.len() {
            entries.set(i, (id, matched));
            let ghost q = flags_text(entries@);
            assert(q =~= p.update(i as int, e));
            proof {
                lemma_flag_update(p, q, i as int, e);
            }
        } else {
            entries.push((id, matched));
            let ghost q = flags_text(entries@);
            assert(q =~= p.push(e));
            assert(q.drop_last() =~= p);
            assert forall|a: int, b: int| 0 <= a < b < q.len() implies #[trigger] q[a].0
                != #[trigger] q[b].0 by {
                if b == q.len() - 1 {
                    assert(p[a].0 != id@);
                }
            }
        }
        self.entries = entries;
    }
}

/// Replacing the flag of an id that a list of distinct pairs holds keeps
/// the ids distinct and writes the flag into the map.
pub proof fn lemma_flag_update(
    p: Seq<(Seq<char>, bool)>,
    q: Seq<(Seq<char>, bool)>,
    pos: int,
    e: (Seq<char>, bool),
)
    requires
        ids_distinct(p),
        0 <= pos < p.len(),
        p[pos].0 == e.0,
        q == p.update(pos, e),
    ensures
        ids_distinct(q),
        flag_map(q) == flag_map(p).insert(e.0, e.1),
{
    assert forall|i: int, j: int| 0 <= i < j < q.len() implies #[trigger] q[i].0
        != #[trigger] q[j].0 by {
        assert(p[i].0 != p[j].0);
    }
    assert forall|k: Seq<char>| #![auto]
        flag_map(q).contains_key(k) <==> flag_map(p).insert(e.0, e.1).contains_key(k) by {
        lemma_flag_map_dom(q, k);
        lemma_flag_map_dom(p, k);
        if exists|i: int| 0 <= i < p.len() && #[trigger] p[i].0 == k {
            let i = choose|i: int| 0 <= i < p.len() && #[trigger] p[i].0 == k;
            assert(q[i].0 == k);
        }
        if exists|i: int| 0 <= i < q.len() && #[trigger] q[i].0 == k {
            let i = choose|i: int| 0 <= i < q.len() && #[trigger] q[i].0 == k;
            if i != pos {
                assert(p[i].0 == k);
            }
        }
    }
    assert forall|k: Seq<char>| #[trigger] flag_map(q).contains_key(k) implies flag_map(q)[k]
        == flag_map(p).insert(e.0, e.1)[k] by {
        lemma_flag_map_dom(q, k);
        let i = choose|i: int| 0 <= i < q.len() && #[trigger] q[i].0 == k;
        lemma_flag_map_value(q, i);
        if i != pos {
            lemma_flag_map_value(p, i);
            assert(p[i].0 != p[pos].0);
        }
    }
    assert(flag_map(q) =~= flag_map(p).insert(e.0, e.1));
}

impl Default for ActiveRules {
    fn default() -> (out: Self)
        ensures
            out@ == Map::<Seq<char>, bool>::empty(),
    {
        ActiveRules::new()
    }
}

/// The text of a list of rule outcomes.
pub open spec fn outcomes_text(o: Seq<(String, bool)>) -> Seq<(Seq<char>, bool)> {
    o.map_values(|e: (String, bool)| (e.0@, e.1))
}

/// Evaluating the rules of a channel on a window, in order: each outcome
/// is a rule id and whether its condition matched. A rule fires when it
/// matches and did not match before; either way its outcome is recorded.
/// Gives the positions of the rules that fired and the activity after.
pub open spec fn rule_run(m: Map<Seq<char>, bool>, o: Seq<(Seq<char>, bool)>) -> (
    Seq<int>,
    Map<Seq<char>, bool>,
)
    decreases o.len(),
{
    if o.len() == 0 {
        (Seq::empty(), m)
    } else {
        let (fired, before) = rule_run(m, o.drop_last());
        let (id, matched) = o.last();
        (
            if matched && !is_active_in(before, id) {
                fired.push(o.len() - 1)
            } else {
                fired
            },
            before.insert(id, matched),
        )
    }
}

/// Records the outcome of each rule of a channel on the latest window and
/// gives the positions, in `outcomes`, of the rules that fire: those that
/// match now and did not match before.
pub fn evaluate_rules(active: &mut ActiveRules, outcomes: &[(String, bool)]) -> (fired: Vec<usize>)
    ensures
        fired@.map_values(|i: usize| i as int) == rule_run(old(active)@, outcomes_text(outcomes@)).0,
        final(active)@ == rule_run(old(active)@, outcomes_text(outcomes@)).1,
{
    let ghost o = outcomes_text(outcomes@);
    let ghost m0 = active@;
    let mut fired: Vec<usize> = Vec::new();
    let mut i: usize = 0;
    while i < outcomes.len()
        invariant
            i <= outcomes.len(),
            o == outcomes_text(outcomes@),
            fired@.map_values(|k: usize| k as int) == rule_run(m0, o.take(i as int)).0,
            active@ == rule_run(m0, o.take(i as int)).1,
        decreases outcomes.len() - i,
    {
        let matched = outcomes[i].1;
        let was_active = active.is_active(outcomes[i].0.as_str());
        assert(o.take(i + 1).drop_last() =~= o.take(i as int));
        let ghost before = fired@;
        if matched && !was_active {
            fired.push(i);
            assert(fired@.map_values(|k: usize| k as int) =~= before.map_values(|k: usize| k as int).push(
                i as int,
            ));
        }
        active.set(outcomes[i].0.clone(), matched);
        i = i + 1;
    }
    assert(o.take(outcomes.len() as int) =~= o);
    fired
}

/// After a run over distinct ids, each id holds its own outcome and every
/// other id keeps what it had.
pub proof fn lemma_rule_run_records(m: Map<Seq<char>, bool>, o: Seq<(Seq<char>, bool)>)
    requires
        ids_distinct(o),
    ensures
        forall|i: int| 0 <= i < o.len() ==> is_active_in(rule_run(m, o).1, #[trigger] o[i].0) == o[i].1,
        forall|k: Seq<char>| (forall|i: int| 0 <= i < o.len() ==> #[trigger] o[i].0 != k) ==> is_active_in(rule_run(m, o).1, k) == is_active_in(m, k),
    decreases o.len(),
{
    if o.len() > 0 {
        let p = o.drop_last();
        assert(ids_distinct(p));
        lemma_rule_run_records(m, p);
        assert forall|i: int| 0 <= i < o.len() implies is_active_in(rule_run(m, o).1, #[trigger] o[i].0) == o[i].1 by {
            if i < o.len() - 1 {
                assert(p[i] == o[i]);
                assert(o[i].0 != o[o.len() - 1].0);
            }
        }
        assert forall|k: Seq<char>| (forall|i: int| 0 <= i < o.len() ==> #[trigger] o[i].0 != k) implies is_active_in(rule_run(m, o).1, k) == is_active_in(m, k) by {
            assert(o[o.len() - 1].0 != k);
            assert forall|i: int| 0 <= i < p.len() implies #[trigger] p[i].0 != k by {
                assert(p[i] == o[i]);
            }
        }
    }
}

/// A second run of the first `n` outcomes over the activity that a first
/// run left fires nothing, and leaves the later ids as that run left them.
proof fn lemma_rerun_prefix(m: Map<Seq<char>, bool>, o: Seq<(Seq<char>, bool)>, n: int)
    requires
        ids_distinct(o),
        0 <= n <= o.len(),
    ensures
        rule_run(rule_run(m, o).1, o.take(n)).0.len() == 0,
        forall|j: int| n <= j < o.len() ==> is_active_in(rule_run(rule_run(m, o).1, o.take(n)).1, #[trigger] o[j].0) == o[j].1,
    decreases n,
{
    let after = rule_run(m, o).1;
    lemma_rule_run_records(m, o);
    if n > 0 {
        lemma_rerun_prefix(m, o, n - 1);
        let q = o.take(n);
        assert(q.drop_last() =~= o.take(n - 1));
        assert(q.last() == o[n - 1]);
        assert forall|j: int| n <= j < o.len() implies is_active_in(rule_run(after, q).1, #[trigger] o[j].0) == o[j].1 by {
            assert(o[n - 1].0 != o[j].0);
        }
    } else {
        assert(o.take(0) =~= Seq::<(Seq<char>, bool)>::empty());
    }
}

/// A rule fires once when it starts to match: evaluating the same outcomes
/// of rules with distinct ids a second time fires no rule.
pub proof fn lemma_matched_rule_fires_once(m: Map<Seq<char>, bool>, o: Seq<(Seq<char>, bool)>)
    requires
        ids_distinct(o),
    ensures
        rule_run(rule_run(m, o).1, o).0.len() == 0,
{
    lemma_rerun_prefix(m, o, o.len() as int);
    assert(o.take(o.len() as int) =~= o);
}

} // verus!
