//! The telemetry adapter's bookkeeping and how it picks what it answers AI
//! clients with: the summary of each channel and its bounded sample
//! history; which recent events, which triggers of a channel, which
//! analysis frames of a time range and which samples of a statistics
//! window. The entries are named by their positions in the adapter's
//! histories, oldest first.

use vstd::prelude::*;
use std::collections::VecDeque;
use crate::ai_contract::{trim_queue, DEFAULT_CHANNEL_STATISTICS_WINDOW_MS};
use crate::analysis::engine::SamplePoint;
use crate::analysis::TriggerSeverity;
use crate::fields::FieldMap;
use crate::keyed::TextMap;
use crate::message::{ConnectionState, ParserMeta};
use crate::text::owned;

verus! {

/// The positions in `s`, in order, of the entries that `keep` accepts.
pub open spec fn positions_where<A>(s: Seq<A>, keep: spec_fn(A) -> bool) -> Seq<int>
    decreases s.len(),
{
    if s.len() == 0 {
        Seq::empty()
    } else if keep(s.last()) {
        positions_where(s.drop_last(), keep).push(s.len() - 1)
    } else {
        positions_where(s.drop_last(), keep)
    }
}

/// The last `n` entries of `s` (all of them when it has fewer).
pub open spec fn last_n(s: Seq<int>, n: int) -> Seq<int> {
    if s.len() > n {
        s.skip(s.len() - n)
    } else {
        s
    }
}

/// The positions as integers.
pub open spec fn positions(v: Seq<usize>) -> Seq<int> {
    v.map_values(|i: usize| i as int)
}

/// How many recent events a query gets: what it asks for, by default the
/// configured bound, and never more than that bound.
pub fn recent_event_limit(requested: Option<usize>, configured: usize) -> (out: usize)
    ensures
        out == match requested {
            Some(n) => if n < configured { n } else { configured },
            None => configured,
        },
{
    match requested {
        Some(n) => if n < configured { n } else { configured },
        None => configured,
    }
}

/// The positions of the last `limit` entries that match, oldest first: the
/// answer to a query for the most recent events of a kind or channel, or
/// for the latest triggers of a channel.
pub fn select_recent(matches: &[bool], limit: usize) -> (out: Vec<usize>)
    ensures
        positions(out@) == last_n(positions_where(matches@, |b: bool| b), limit as int),
{
    let ghost keep = |b: bool| b;
    let mut all: Vec<usize> = Vec::new();
    let mut i: usize = 0;
    while i < matches.len()
        invariant
            i <= matches.len(),
            keep == (|b: bool| b),
            positions(all@) == positions_where(matches@.take(i as int), keep),
        decreases matches.len() - i,
    {
        assert(matches@.take(i + 1).drop_last() =~= matches@.take(i as int));
        let ghost before = all@;
        if matches[i] {
            all.push(i);
            assert(positions(all@) =~= positions(before).push(i as int));
        }
        i = i + 1;
    }
    assert(matches@.take(matches.len() as int) =~= matches@);
    let start: usize = if all.len() > limit { all.len() - limit } else { 0 };
    let mut out: Vec<usize> = Vec::new();
    let mut j: usize = start;
    while j < all.len()
        invariant
            start <= j <= all.len(),
            positions(out@) =~= positions(all@).subrange(start as int, j as int),
        decreases all.len() - j,
    {
        let ghost before = out@;
        out.push(all[j]);
        assert(positions(out@) =~= positions(before).push(positions(all@)[j as int]));
        j = j + 1;
    }
    assert(positions(all@).skip(start as int) =~= positions(all@).subrange(start as int, all.len() as int));
    assert(start == 0 ==> positions(all@).subrange(0, all.len() as int) =~= positions(all@));
    out
}

/// The positions of the analysis frames taken between `start_time_ms` and
/// `end_time_ms` (in either order, both included), at most `max_frames` of
/// them, oldest first.
pub fn select_history(timestamps: &[u64], start_time_ms: u64, end_time_ms: u64, max_frames: usize) -> (out: Vec<usize>)
    ensures
        ({
            let lo = if start_time_ms <= end_time_ms { start_time_ms } else { end_time_ms };
            let hi = if start_time_ms <= end_time_ms { end_time_ms } else { start_time_ms };
            let found = positions_where(timestamps@, |t: u64| lo <= t <= hi);
            positions(out@) == if found.len() > max_frames { found.take(max_frames as int) } else { found }
        }),
{
    let lo = if start_time_ms <= end_time_ms { start_time_ms } else { end_time_ms };
    let hi = if start_time_ms <= end_time_ms { end_time_ms } else { start_time_ms };
    let ghost keep = |t: u64| lo <= t <= hi;
    let mut out: Vec<usize> = Vec::new();
    let mut i: usize = 0;
    while i < timestamps.len()
        invariant
            i <= timestamps.len(),
            keep == (|t: u64| lo <= t <= hi),
            positions(out@) == ({
                let found = positions_where(timestamps@.take(i as int), keep);
                if found.len() > max_frames { found.take(max_frames as int) } else { found }
            }),
        decreases timestamps.len() - i,
    {
        assert(timestamps@.take(i + 1).drop_last() =~= timestamps@.take(i as int));
        let ghost before = out@;
        let ghost found = positions_where(timestamps@.take(i as int), keep);
        if lo <= timestamps[i] && timestamps[i] <= hi && out.len() < max_frames {
            out.push(i);
            assert(positions(out@) =~= positions(before).push(i as int));
        }
        proof {
            let next = positions_where(timestamps@.take(i + 1), keep);
            if found.len() > max_frames {
                assert(next.take(max_frames as int) =~= found.take(max_frames as int));
            } else if found.len() == max_frames {
                assert(next.take(max_frames as int) =~= found);
            }
        }
        i = i + 1;
    }
    assert(timestamps@.take(timestamps.len() as int) =~= timestamps@);
    out
}

/// The statistics window a query gets: what it asks for, by default
/// `DEFAULT_CHANNEL_STATISTICS_WINDOW_MS`, and at least one millisecond.
pub fn statistics_window_ms(requested: Option<u64>) -> (out: u64)
    ensures
        out == ({
            let w = match requested {
                Some(w) => w,
                None => DEFAULT_CHANNEL_STATISTICS_WINDOW_MS,
            };
            if w < 1 { 1 } else { w }
        }),
{
    let w = match requested {
        Some(w) => w,
        None => DEFAULT_CHANNEL_STATISTICS_WINDOW_MS,
    };
    if w < 1 { 1 } else { w }
}

/// The oldest time a statistics window of `window_ms` ending at `newest_ms`
/// covers.
pub open spec fn window_floor(newest_ms: u64, window_ms: u64) -> u64 {
    if newest_ms >= window_ms {
        (newest_ms - window_ms) as u64
    } else {
        0
    }
}

/// The positions of the samples in the last `window_ms` before the newest
/// sample, oldest first; nothing when there is no sample.
pub fn select_window(timestamps: &[u64], window_ms: u64) -> (out: Option<Vec<usize>>)
    ensures
        timestamps@.len() == 0 <==> out is None,
        out matches Some(v) ==> positions(v@) == positions_where(
            timestamps@,
            |t: u64| t >= window_floor(timestamps@.last(), window_ms),
        ),
{
    if timestamps.len() == 0 {
        return None;
    }
    let newest = timestamps[timestamps.len() - 1];
    let floor = newest.saturating_sub(window_ms);
    let ghost keep = |t: u64| t >= window_floor(timestamps@.last(), window_ms);
    let mut out: Vec<usize> = Vec::new();
    let mut i: usize = 0;
    while i < timestamps.len()
        invariant
            i <= timestamps.len(),
            timestamps@.len() > 0,
            floor == window_floor(timestamps@.last(), window_ms),
            keep == (|t: u64| t >= window_floor(timestamps@.last(), window_ms)),
            positions(out@) == positions_where(timestamps@.take(i as int), keep),
        decreases timestamps.len() - i,
    {
        assert(timestamps@.take(i + 1).drop_last() =~= timestamps@.take(i as int));
        let ghost before = out@;
        if timestamps[i] >= floor {
            out.push(i);
            assert(positions(out@) =~= positions(before).push(i as int));
        }
        i = i + 1;
    }
    assert(timestamps@.take(timestamps.len() as int) =~= timestamps@);
    Some(out)
}

/// Whether a session counts as running after a connection event: every
/// state but `Stopped`.
pub fn session_running(state: ConnectionState) -> (out: bool)
    ensures
        out == (state != ConnectionState::Stopped),
{
    !matches!(state, ConnectionState::Stopped)
}

/// The text of an optional string.
pub open spec fn opt_text(o: Option<String>) -> Option<Seq<char>> {
    match o {
        Some(s) => Some(s@),
        None => None,
    }
}

fn copy_opt(o: &Option<String>) -> (out: Option<String>)
    ensures
        opt_text(out) == opt_text(*o),
{
    match o {
        Some(s) => Some(s.clone()),
        None => None,
    }
}

/// The latest state of one observed channel, with measured values of type
/// `V`.
#[derive(Debug)]
pub struct ChannelSummary<V> {
    pub channel_id: String,
    pub current_value: Option<String>,
    pub numeric_value: Option<V>,
    pub parser_name: Option<String>,
    pub updated_at_ms: u64,
    pub has_analysis: bool,
    pub trigger_count: u64,
    pub latest_trigger_severity: Option<TriggerSeverity>,
    pub latest_trigger_reason: Option<String>,
}

/// Abstract value of a channel summary.
pub struct SummaryModel<V> {
    pub channel_id: Seq<char>,
    pub current_value: Option<Seq<char>>,
    pub numeric_value: Option<V>,
    pub parser_name: Option<Seq<char>>,
    pub updated_at_ms: u64,
    pub has_analysis: bool,
    pub trigger_count: u64,
    pub latest_trigger_severity: Option<TriggerSeverity>,
    pub latest_trigger_reason: Option<Seq<char>>,
}

impl<V> View for ChannelSummary<V> {
    type V = SummaryModel<V>;

    open spec fn view(&self) -> SummaryModel<V> {
        SummaryModel {
            channel_id: self.channel_id@,
            current_value: opt_text(self.current_value),
            numeric_value: self.numeric_value,
            parser_name: opt_text(self.parser_name),
            updated_at_ms: self.updated_at_ms,
            has_analysis: self.has_analysis,
            trigger_count: self.trigger_count,
            latest_trigger_severity: self.latest_trigger_severity,
            latest_trigger_reason: opt_text(self.latest_trigger_reason),
        }
    }
}

impl<V: Copy> ChannelSummary<V> {
    /// A copy of the summary.
    pub fn copy(&self) -> (out: Self)
        ensures
            out@ == self@,
    {
        ChannelSummary {
            channel_id: self.channel_id.clone(),
            current_value: copy_opt(&self.current_value),
            numeric_value: self.numeric_value,
            parser_name: copy_opt(&self.parser_name),
            updated_at_ms: self.updated_at_ms,
            has_analysis: self.has_analysis,
            trigger_count: self.trigger_count,
            latest_trigger_severity: self.latest_trigger_severity,
            latest_trigger_reason: copy_opt(&self.latest_trigger_reason),
        }
    }
}

/// The summary of a channel seen for the first time.
pub open spec fn empty_summary_spec<V>(channel_id: Seq<char>, at_ms: u64, parser_name: Option<Seq<char>>) -> SummaryModel<V> {
    SummaryModel {
        channel_id,
        current_value: None,
        numeric_value: None,
        parser_name,
        updated_at_ms: at_ms,
        has_analysis: false,
        trigger_count: 0,
        latest_trigger_severity: None,
        latest_trigger_reason: None,
    }
}

/// The summary of a channel seen for the first time.
pub fn empty_summary<V>(channel_id: &str, updated_at_ms: u64, parser_name: Option<String>) -> (out: ChannelSummary<V>)
    ensures
        out@ == empty_summary_spec::<V>(channel_id@, updated_at_ms, opt_text(parser_name)),
{
    ChannelSummary {
        channel_id: owned(channel_id),
        current_value: None,
        numeric_value: None,
        parser_name,
        updated_at_ms,
        has_analysis: false,
        trigger_count: 0,
        latest_trigger_severity: None,
        latest_trigger_reason: None,
    }
}

/// What the adapter's bookkeeping learns from one bus message.
#[derive(Debug)]
pub enum AiMessage<V> {
    /// A line with its parse; `numeric_value` is the value read from its
    /// `numeric_value` or `value` field, where that reads as a number.
    Line { parser: ParserMeta, numeric_value: Option<V> },
    /// An analysis frame of a channel.
    Analysis { channel_id: String },
    /// A trigger that fired on a channel.
    Trigger { channel_id: String, severity: TriggerSeverity, reason: String },
}

/// Abstract value of a message.
pub enum AiMessageModel<V> {
    Line { parser_name: Option<Seq<char>>, fields: Map<Seq<char>, Seq<char>>, numeric_value: Option<V> },
    Analysis { channel_id: Seq<char> },
    Trigger { channel_id: Seq<char>, severity: TriggerSeverity, reason: Seq<char> },
}

impl<V> View for AiMessage<V> {
    type V = AiMessageModel<V>;

    open spec fn view(&self) -> AiMessageModel<V> {
        match self {
            AiMessage::Line { parser, numeric_value } => AiMessageModel::Line {
                parser_name: opt_text(parser.parser_name),
                fields: parser.fields@,
                numeric_value: *numeric_value,
            },
            AiMessage::Analysis { channel_id } => AiMessageModel::Analysis { channel_id: channel_id@ },
            AiMessage::Trigger { channel_id, severity, reason } => AiMessageModel::Trigger {
                channel_id: channel_id@,
                severity: *severity,
                reason: reason@,
            },
        }
    }
}

/// Abstract value of the bookkeeping: the summary and the sample history
/// of each channel, and the bound on a history's length.
pub struct AiContextModel<V> {
    pub summaries: Map<Seq<char>, SummaryModel<V>>,
    pub samples: Map<Seq<char>, Seq<SamplePoint<V>>>,
    pub history_limit: usize,
}

/// The last `n` entries of a history (all of it when shorter).
pub open spec fn keep_last<A>(s: Seq<A>, n: usize) -> Seq<A> {
    if s.len() > n {
        s.skip(s.len() - n)
    } else {
        s
    }
}

/// The summary a channel starts from: its own, or a fresh one.
pub open spec fn base_summary<V>(m: AiContextModel<V>, c: Seq<char>, at_ms: u64, parser_name: Option<Seq<char>>) -> SummaryModel<V> {
    if m.summaries.contains_key(c) {
        m.summaries[c]
    } else {
        empty_summary_spec(c, at_ms, parser_name)
    }
}

/// Whether taking in the message would count a trigger past `u64::MAX`.
pub open spec fn trigger_count_overflows<V>(m: AiContextModel<V>, msg: AiMessageModel<V>) -> bool {
    match msg {
        AiMessageModel::Trigger { channel_id, .. } => m.summaries.contains_key(channel_id)
            && m.summaries[channel_id].trigger_count == u64::MAX,
        _ => false,
    }
}

/// The bookkeeping after a message received at `at_ms`.
/// - A line that names a channel (`channel_id` field) updates that
///   channel's summary: its current value (the `value` field), its numeric
///   value, its parser and its time; a numeric value is appended to the
///   channel's history, which keeps its last `history_limit` samples. A line
///   without a channel changes nothing.
/// - An analysis frame marks the channel as analysed.
/// - A trigger counts one more trigger of the channel and records its
///   severity and reason.
pub open spec fn ingest_spec<V>(m: AiContextModel<V>, msg: AiMessageModel<V>, at_ms: u64) -> AiContextModel<V> {
    match msg {
        AiMessageModel::Line { parser_name, fields, numeric_value } => if fields.contains_key("channel_id"@) {
            let c = fields["channel_id"@];
            let base = base_summary(m, c, at_ms, parser_name);
            let summary = SummaryModel {
                current_value: if fields.contains_key("value"@) { Some(fields["value"@]) } else { None },
                numeric_value,
                parser_name,
                updated_at_ms: at_ms,
                ..base
            };
            AiContextModel {
                summaries: m.summaries.insert(c, summary),
                samples: match numeric_value {
                    Some(v) => m.samples.insert(
                        c,
                        keep_last(
                            (if m.samples.contains_key(c) { m.samples[c] } else { Seq::empty() }).push(
                                SamplePoint { timestamp_ms: at_ms, value: v },
                            ),
                            m.history_limit,
                        ),
                    ),
                    None => m.samples,
                },
                ..m
            }
        } else {
            m
        },
        AiMessageModel::Analysis { channel_id } => {
            let base = base_summary(m, channel_id, at_ms, None);
            AiContextModel {
                summaries: m.summaries.insert(channel_id, SummaryModel { has_analysis: true, updated_at_ms: at_ms, ..base }),
                ..m
            }
        },
        AiMessageModel::Trigger { channel_id, severity, reason } => {
            let base = base_summary(m, channel_id, at_ms, None);
            AiContextModel {
                summaries: m.summaries.insert(
                    channel_id,
                    SummaryModel {
                        trigger_count: (base.trigger_count + 1) as u64,
                        updated_at_ms: at_ms,
                        latest_trigger_severity: Some(severity),
                        latest_trigger_reason: Some(reason),
                        ..base
                    },
                ),
                ..m
            }
        },
    }
}

/// A trigger on channel `c` records its severity and reason as the
/// channel's latest, counts one more trigger (the first for a channel not
/// seen before), stamps the channel with the time, keeps the channel's
/// readings, and leaves the other channels and every history as they were.
pub proof fn lemma_trigger_updates_channel<V>(
    m: AiContextModel<V>,
    c: Seq<char>,
    severity: TriggerSeverity,
    reason: Seq<char>,
    at_ms: u64,
)
    requires
        !(m.summaries.contains_key(c) && m.summaries[c].trigger_count == u64::MAX),
    ensures
        ({
            let after = ingest_spec(m, AiMessageModel::Trigger { channel_id: c, severity, reason }, at_ms);
            let s = after.summaries[c];
            &&& after.summaries.contains_key(c)
            &&& s.latest_trigger_severity == Some(severity)
            &&& s.latest_trigger_reason == Some(reason)
            &&& s.updated_at_ms == at_ms
            &&& s.trigger_count == if m.summaries.contains_key(c) {
                m.summaries[c].trigger_count + 1
            } else {
                1
            }
            &&& m.summaries.contains_key(c) ==> s.current_value == m.summaries[c].current_value
                && s.numeric_value == m.summaries[c].numeric_value && s.has_analysis
                == m.summaries[c].has_analysis
            &&& !m.summaries.contains_key(c) ==> s.current_value is None && s.numeric_value is None
                && !s.has_analysis && s.channel_id == c
            &&& forall|d: Seq<char>| d != c ==> (#[trigger] after.summaries.contains_key(d)
                == m.summaries.contains_key(d) && (m.summaries.contains_key(d) ==> after.summaries[d]
                == m.summaries[d]))
            &&& after.samples == m.samples
        }),
{
}

/// An analysis frame on channel `c` marks the channel as analysed and
/// stamps it with the time; its trigger record and readings stay, and the
/// other channels and every history are left as they were.
pub proof fn lemma_analysis_marks_channel<V>(m: AiContextModel<V>, c: Seq<char>, at_ms: u64)
    ensures
        ({
            let after = ingest_spec(m, AiMessageModel::Analysis { channel_id: c }, at_ms);
            let s = after.summaries[c];
            &&& after.summaries.contains_key(c)
            &&& s.has_analysis
            &&& s.updated_at_ms == at_ms
            &&& m.summaries.contains_key(c) ==> s.trigger_count == m.summaries[c].trigger_count
                && s.latest_trigger_severity == m.summaries[c].latest_trigger_severity
                && s.current_value == m.summaries[c].current_value
            &&& !m.summaries.contains_key(c) ==> s.trigger_count == 0 && s.latest_trigger_severity is None
            &&& forall|d: Seq<char>| d != c ==> (#[trigger] after.summaries.contains_key(d)
                == m.summaries.contains_key(d) && (m.summaries.contains_key(d) ==> after.summaries[d]
                == m.summaries[d]))
            &&& after.samples == m.samples
        }),
{
}

/// A line that names channel `c` (its `channel_id` field) records the
/// line's `value` field, numeric value and parser as the channel's latest,
/// stamps it with the time and keeps its trigger record; a numeric value
/// joins the end of the channel's history, which then holds its last
/// `history_limit` samples. A line that names no channel changes nothing.
pub proof fn lemma_line_updates_channel<V>(
    m: AiContextModel<V>,
    parser_name: Option<Seq<char>>,
    fields: Map<Seq<char>, Seq<char>>,
    numeric_value: Option<V>,
    at_ms: u64,
)
    ensures
        ({
            let after = ingest_spec(m, AiMessageModel::Line { parser_name, fields, numeric_value }, at_ms);
            if fields.contains_key("channel_id"@) {
                let c = fields["channel_id"@];
                let s = after.summaries[c];
                let old_len = if m.samples.contains_key(c) { m.samples[c].len() } else { 0 };
                &&& after.summaries.contains_key(c)
                &&& s.current_value == (if fields.contains_key("value"@) {
                    Some(fields["value"@])
                } else {
                    None
                })
                &&& s.numeric_value == numeric_value
                &&& s.parser_name == parser_name
                &&& s.updated_at_ms == at_ms
                &&& m.summaries.contains_key(c) ==> s.trigger_count == m.summaries[c].trigger_count
                    && s.latest_trigger_severity == m.summaries[c].latest_trigger_severity
                    && s.has_analysis == m.summaries[c].has_analysis
                &&& forall|d: Seq<char>| d != c ==> (#[trigger] after.summaries.contains_key(d)
                    == m.summaries.contains_key(d) && (m.summaries.contains_key(d) ==> after.summaries[d]
                    == m.summaries[d]))
                &&& match numeric_value {
                    Some(v) => {
                        &&& after.samples.contains_key(c)
                        &&& after.samples[c].len() == if old_len + 1 <= m.history_limit {
                            old_len + 1
                        } else {
                            m.history_limit as nat
                        }
                        &&& m.history_limit > 0 ==> after.samples[c].last() == SamplePoint {
                            timestamp_ms: at_ms,
                            value: v,
                        }
                    },
                    None => after.samples == m.samples,
                }
            } else {
                after == m
            }
        }),
{
}

/// The channel a message concerns: the `channel_id` field of a line, or the
/// channel of an analysis frame or a trigger; `None` for a line without one.
pub open spec fn message_channel<V>(msg: AiMessageModel<V>) -> Option<Seq<char>> {
    match msg {
        AiMessageModel::Line { fields, .. } => if fields.contains_key("channel_id"@) {
            Some(fields["channel_id"@])
        } else {
            None
        },
        AiMessageModel::Analysis { channel_id } => Some(channel_id),
        AiMessageModel::Trigger { channel_id, .. } => Some(channel_id),
    }
}

/// Bookkeeping with no channel seen, whose histories keep `history_limit`
/// samples: what `AiContext::new` makes.
pub open spec fn empty_context<V>(history_limit: usize) -> AiContextModel<V> {
    AiContextModel { summaries: Map::empty(), samples: Map::empty(), history_limit }
}

/// The bookkeeping after taking in each message, with the time it was
/// received, in order.
pub open spec fn ingest_all<V>(m: AiContextModel<V>, msgs: Seq<(AiMessageModel<V>, u64)>) -> AiContextModel<V>
    decreases msgs.len(),
{
    if msgs.len() == 0 {
        m
    } else {
        ingest_spec(ingest_all(m, msgs.drop_last()), msgs.last().0, msgs.last().1)
    }
}

/// The channels that some message of `msgs` concerns.
pub open spec fn channels_seen<V>(msgs: Seq<(AiMessageModel<V>, u64)>) -> Set<Seq<char>> {
    Set::new(|c: Seq<char>| exists|i: int| 0 <= i < msgs.len() && message_channel(#[trigger] msgs[i].0) == Some(c))
}

/// One message adds its channel, and only it, to the summarised channels.
proof fn lemma_ingest_adds_channel<V>(m: AiContextModel<V>, msg: AiMessageModel<V>, at_ms: u64)
    ensures
        ingest_spec(m, msg, at_ms).summaries.dom() == (match message_channel(msg) {
            Some(c) => m.summaries.dom().insert(c),
            None => m.summaries.dom(),
        }),
        ingest_spec(m, msg, at_ms).history_limit == m.history_limit,
        histories_bounded(m) ==> histories_bounded(ingest_spec(m, msg, at_ms)),
{
    match message_channel(msg) {
        Some(c) => {
            assert(ingest_spec(m, msg, at_ms).summaries.dom() =~= m.summaries.dom().insert(c));
        },
        None => {},
    }
}

/// After any messages, starting from no channel, the context summarises
/// exactly the channels those messages concern, and every history keeps
/// within its bound. (Its summaries come out in channel order, without
/// repeats, from every state: see `AiContext::summaries`.)
pub proof fn lemma_context_holds_channels_seen<V>(history_limit: usize, msgs: Seq<(AiMessageModel<V>, u64)>)
    ensures
        ingest_all(empty_context::<V>(history_limit), msgs).summaries.dom() == channels_seen(msgs),
        ingest_all(empty_context::<V>(history_limit), msgs).history_limit == history_limit,
        histories_bounded(ingest_all(empty_context::<V>(history_limit), msgs)),
    decreases msgs.len(),
{
    if msgs.len() == 0 {
        assert(channels_seen(msgs) =~= Set::<Seq<char>>::empty());
        assert(empty_context::<V>(history_limit).summaries.dom() =~= Set::<Seq<char>>::empty());
    } else {
        let prev = msgs.drop_last();
        lemma_context_holds_channels_seen(history_limit, prev);
        let m = ingest_all(empty_context::<V>(history_limit), prev);
        let (msg, at) = msgs.last();
        lemma_ingest_adds_channel(m, msg, at);
        assert forall|c: Seq<char>| #[trigger] channels_seen(msgs).contains(c) == (channels_seen(prev).contains(c)
            || message_channel(msg) == Some(c)) by {
            if channels_seen(msgs).contains(c) {
                let i = choose|i: int| 0 <= i < msgs.len() && message_channel(#[trigger] msgs[i].0) == Some(c);
                if i < msgs.len() - 1 {
                    assert(prev[i] == msgs[i]);
                }
            }
            if channels_seen(prev).contains(c) {
                let i = choose|i: int| 0 <= i < prev.len() && message_channel(#[trigger] prev[i].0) == Some(c);
                assert(prev[i] == msgs[i]);
            }
            if message_channel(msg) == Some(c) {
                assert(msgs[msgs.len() - 1] == msgs.last());
            }
        }
        assert(ingest_all(empty_context::<V>(history_limit), msgs).summaries.dom() =~= channels_seen(msgs));
    }
}

/// The adapter's per-channel bookkeeping, with measured values of type `V`.
pub struct AiContext<V> {
    summaries: TextMap<ChannelSummary<V>>,
    samples: TextMap<VecDeque<SamplePoint<V>>>,
    history_limit: usize,
}

impl<V> View for AiContext<V> {
    type V = AiContextModel<V>;

    closed spec fn view(&self) -> AiContextModel<V> {
        AiContextModel {
            summaries: self.summaries@.map_values(|s: ChannelSummary<V>| s@),
            samples: self.samples@.map_values(|q: VecDeque<SamplePoint<V>>| q@),
            history_limit: self.history_limit,
        }
    }
}

/// Whether every history keeps within the bound.
pub open spec fn histories_bounded<V>(m: AiContextModel<V>) -> bool {
    forall|c: Seq<char>| #[trigger] m.samples.contains_key(c) ==> m.samples[c].len() <= m.history_limit
}

fn copy_samples<V: Copy>(q: &VecDeque<SamplePoint<V>>) -> (out: VecDeque<SamplePoint<V>>)
    ensures
        out@ == q@,
{
    let mut out: VecDeque<SamplePoint<V>> = VecDeque::new();
    let mut i: usize = 0;
    while i < q.len()
        invariant
            i <= q@.len(),
            out@ =~= q@.take(i as int),
        decreases q@.len() - i,
    {
        let p = q[i];
        out.push_back(p);
        i = i + 1;
    }
    assert(q@.take(q@.len() as int) =~= q@);
    out
}

impl<V> AiContext<V> {
    #[verifier::type_invariant]
    spec fn bounded(&self) -> bool {
        forall|c: Seq<char>| #[trigger] self.samples@.contains_key(c) ==> self.samples@[c]@.len() <= self.history_limit
    }
}

impl<V: Copy> AiContext<V> {
    /// No channel seen yet; histories keep at most `history_limit` samples.
    pub fn new(history_limit: usize) -> (out: Self)
        ensures
            out@.summaries == Map::<Seq<char>, SummaryModel<V>>::empty(),
            out@.samples == Map::<Seq<char>, Seq<SamplePoint<V>>>::empty(),
            out@.history_limit == history_limit,
            out@ == empty_context::<V>(history_limit),
    {
        let out = AiContext { summaries: TextMap::new(), samples: TextMap::new(), history_limit };
        assert(out@.summaries =~= Map::<Seq<char>, SummaryModel<V>>::empty());
        assert(out@.samples =~= Map::<Seq<char>, Seq<SamplePoint<V>>>::empty());
        out
    }

    /// Whether taking in `msg` would count a trigger past `u64::MAX`.
    pub fn would_overflow(&self, msg: &AiMessage<V>) -> (r: bool)
        ensures
            r == trigger_count_overflows(self@, msg@),
    {
        match msg {
            AiMessage::Trigger { channel_id, .. } => match self.summaries.get(channel_id.as_str()) {
                Some(s) => s.trigger_count == u64::MAX,
                None => false,
            },
            _ => false,
        }
    }

    /// The summary of a channel, if it was seen.
    pub fn summary(&self, channel_id: &str) -> (out: Option<&ChannelSummary<V>>)
        ensures
            match out {
                Some(s) => self@.summaries.contains_key(channel_id@) && s@ == self@.summaries[channel_id@],
                None => !self@.summaries.contains_key(channel_id@),
            },
    {
        self.summaries.get(channel_id)
    }

    /// The summaries in channel order.
    pub fn summaries(&self) -> (out: &[(String, ChannelSummary<V>)])
        ensures
            forall|i: int| 0 <= i < out@.len() ==> self@.summaries.contains_key(#[trigger] out@[i].0@)
                && self@.summaries[out@[i].0@] == out@[i].1@,
            forall|c: Seq<char>| #[trigger] self@.summaries.contains_key(c) ==> exists|i: int| 0 <= i < out@.len() && out@[i].0@ == c,
            forall|i: int, j: int| 0 <= i < j < out@.len() ==> crate::fields::text_less(#[trigger] out@[i].0@, #[trigger] out@[j].0@),
    {
        let out = self.summaries.entries();
        proof {
            let p = crate::keyed::keyed_pairs(out@);
            assert forall|i: int| 0 <= i < out@.len() implies self@.summaries.contains_key(#[trigger] out@[i].0@)
                && self@.summaries[out@[i].0@] == out@[i].1@ by {
                assert(p[i] == (out@[i].0@, out@[i].1));
                crate::keyed::lemma_keyed_map_value(p, i);
            }
            assert forall|c: Seq<char>| #[trigger] self@.summaries.contains_key(c) implies exists|i: int| 0 <= i < out@.len() && out@[i].0@ == c by {
                crate::keyed::lemma_keyed_map_dom(p, c);
                let i = choose|i: int| 0 <= i < p.len() && #[trigger] p[i].0 == c;
                assert(out@[i].0@ == c);
            }
            assert forall|i: int, j: int| 0 <= i < j < out@.len() implies crate::fields::text_less(#[trigger] out@[i].0@, #[trigger] out@[j].0@) by {
                assert(p[i].0 == out@[i].0@ && p[j].0 == out@[j].0@);
            }
        }
        out
    }

    /// The sample history of a channel, oldest first, if it has one.
    pub fn samples(&self, channel_id: &str) -> (out: Option<&VecDeque<SamplePoint<V>>>)
        ensures
            match out {
                Some(q) => self@.samples.contains_key(channel_id@) && q@ == self@.samples[channel_id@],
                None => !self@.samples.contains_key(channel_id@),
            },
    {
        self.samples.get(channel_id)
    }

    fn base(&self, channel_id: &String, at_ms: u64, parser_name: Option<String>) -> (out: ChannelSummary<V>)
        ensures
            out@ == base_summary(self@, channel_id@, at_ms, opt_text(parser_name)),
    {
        match self.summaries.get(channel_id.as_str()) {
            Some(s) => s.copy(),
            None => empty_summary(channel_id.as_str(), at_ms, parser_name),
        }
    }

    fn put_summary(&mut self, channel_id: String, summary: ChannelSummary<V>)
        ensures
            final(self)@ == (AiContextModel { summaries: old(self)@.summaries.insert(channel_id@, summary@), ..old(self)@ }),
    {
        proof {
            use_type_invariant(&*self);
        }
        let mut summaries = TextMap::new();
        std::mem::swap(&mut summaries, &mut self.summaries);
        summaries.insert(channel_id, summary);
        self.summaries = summaries;
        assert(self@.summaries =~= old(self)@.summaries.insert(channel_id@, summary@));
    }

    /// Takes in one bus message received at `at_ms`; see `ingest_spec`.
    pub fn ingest(&mut self, msg: AiMessage<V>, at_ms: u64)
        requires
            !trigger_count_overflows(old(self)@, msg@),
        ensures
            final(self)@ == ingest_spec(old(self)@, msg@, at_ms),
            histories_bounded(final(self)@),
    {
        proof {
            use_type_invariant(&*self);
        }
        let ghost m = self@;
        let ghost mm = msg@;
        match msg {
            AiMessage::Line { parser, numeric_value } => {
                let channel_id = match parser.fields.get("channel_id") {
                    Some(c) => c.clone(),
                    None => {
                        proof { use_type_invariant(&*self); }
                        return;
                    },
                };
                let current_value = match parser.fields.get("value") {
                    Some(v) => Some(v.clone()),
                    None => None,
                };
                let base = self.base(&channel_id, at_ms, copy_opt(&parser.parser_name));
                let summary = ChannelSummary {
                    current_value,
                    numeric_value,
                    parser_name: copy_opt(&parser.parser_name),
                    updated_at_ms: at_ms,
                    ..base
                };
                self.put_summary(channel_id.clone(), summary);
                match numeric_value {
                    Some(v) => {
                        let mut history = match self.samples.get(channel_id.as_str()) {
                            Some(q) => copy_samples(q),
                            None => VecDeque::new(),
                        };
                        history.push_back(SamplePoint { timestamp_ms: at_ms, value: v });
                        trim_queue(&mut history, self.history_limit);
                        let ghost h = history@;
                        assert(h.len() <= self.history_limit);
                        proof {
                            use_type_invariant(&*self);
                        }
                        let ghost old_samples = self.samples@;
                        let ghost limit = self.history_limit;
                        let mut samples = TextMap::new();
                        std::mem::swap(&mut samples, &mut self.samples);
                        let ghost key = channel_id@;
                        samples.insert(channel_id, history);
                        assert forall|c: Seq<char>| #[trigger] samples@.contains_key(c) implies samples@[c]@.len() <= limit by {
                            if c != key {
                                assert(old_samples.contains_key(c));
                            }
                        }
                        self.samples = samples;
                        assert(self@.samples =~= m.samples.insert(mm->Line_fields["channel_id"@], h));
                    },
                    None => {},
                }
            },
            AiMessage::Analysis { channel_id } => {
                let base = self.base(&channel_id, at_ms, None);
                let summary = ChannelSummary { has_analysis: true, updated_at_ms: at_ms, ..base };
                self.put_summary(channel_id, summary);
            },
            AiMessage::Trigger { channel_id, severity, reason } => {
                let base = self.base(&channel_id, at_ms, None);
                let summary = ChannelSummary {
                    trigger_count: base.trigger_count + 1,
                    updated_at_ms: at_ms,
                    latest_trigger_severity: Some(severity),
                    latest_trigger_reason: Some(reason),
                    ..base
                };
                self.put_summary(channel_id, summary);
            },
        }
        proof {
            use_type_invariant(&*self);
        }
    }
}

} // verus!
