//! The shapes that AI clients exchange with the telemetry adapter, and the
//! bounds on what the adapter keeps.

use vstd::prelude::*;
use crate::message::{ConnectionEvent, LineDirection, MessageSource, ParserMeta};
use std::collections::VecDeque;

verus! {

pub const DEFAULT_RECENT_EVENTS_LIMIT: usize = 64;

pub const DEFAULT_RECENT_TRIGGERS_LIMIT: usize = 24;

pub const DEFAULT_ANALYSIS_HISTORY_LIMIT: usize = 48;

pub const DEFAULT_CHANNEL_TRIGGER_CONTEXT_LIMIT: usize = 8;

pub const DEFAULT_CHANNEL_STATISTICS_WINDOW_MS: u64 = 1_000;

/// How many events, triggers and analysis frames the adapter keeps.
#[derive(Clone, Copy, Debug, PartialEq, Eq, Structural)]
pub struct AiAdapterLimits {
    pub recent_events: usize,
    pub recent_triggers: usize,
    pub analysis_history: usize,
}

impl Default for AiAdapterLimits {
    fn default() -> (out: Self)
        ensures
            out.recent_events == DEFAULT_RECENT_EVENTS_LIMIT,
            out.recent_triggers == DEFAULT_RECENT_TRIGGERS_LIMIT,
            out.analysis_history == DEFAULT_ANALYSIS_HISTORY_LIMIT,
    {
        AiAdapterLimits {
            recent_events: DEFAULT_RECENT_EVENTS_LIMIT,
            recent_triggers: DEFAULT_RECENT_TRIGGERS_LIMIT,
            analysis_history: DEFAULT_ANALYSIS_HISTORY_LIMIT,
        }
    }
}

/// The runtime session as AI clients see it.
#[derive(Clone, Debug)]
pub struct AiSessionSnapshot {
    pub is_running: bool,
    pub source: Option<MessageSource>,
    pub connection: Option<ConnectionEvent>,
    pub last_event_at_ms: Option<u64>,
}

impl Default for AiSessionSnapshot {
    fn default() -> (out: Self)
        ensures
            !out.is_running,
            out.source is None,
            out.connection is None,
            out.last_event_at_ms is None,
    {
        AiSessionSnapshot { is_running: false, source: None, connection: None, last_event_at_ms: None }
    }
}

/// A line among the recent events.
#[derive(Clone, Debug)]
pub struct AiLineEventRecord {
    pub direction: LineDirection,
    pub text: String,
    pub raw_length: usize,
    pub parser: ParserMeta,
}

/// The kinds of recent events.
#[derive(Clone, Copy, Debug, PartialEq, Eq, Structural)]
pub enum AiRecentEventKind {
    Connection,
    Line,
    Analysis,
    Trigger,
}

/// A query for one channel's analysis.
#[derive(Clone, Debug, PartialEq, Eq)]
pub struct ChannelAnalysisQuery {
    pub channel_id: String,
    pub include_trigger_context: bool,
}

/// A query for a channel's sampled statistics.
#[derive(Clone, Debug, PartialEq, Eq)]
pub struct ChannelStatisticsQuery {
    pub channel_id: String,
    pub window_ms: Option<u64>,
    pub include_raw_samples: bool,
}

/// A query for a channel's analysis frames in a time range.
#[derive(Clone, Debug, PartialEq, Eq)]
pub struct HistoricalAnalysisQuery {
    pub channel_id: String,
    pub start_time_ms: u64,
    pub end_time_ms: u64,
    pub max_frames: Option<usize>,
}

/// A query for recent events.
#[derive(Clone, Debug, PartialEq, Eq)]
pub struct RecentEventsQuery {
    pub limit: Option<usize>,
    pub kind: Option<AiRecentEventKind>,
    pub channel_id: Option<String>,
}

impl Default for RecentEventsQuery {
    fn default() -> (out: Self)
        ensures
            out.limit is None,
            out.kind is None,
            out.channel_id is None,
    {
        RecentEventsQuery { limit: None, kind: None, channel_id: None }
    }
}

/// Drops the oldest entries of a queue until at most `limit` are left.
pub fn trim_queue<T>(queue: &mut VecDeque<T>, limit: usize)
    ensures
        final(queue)@ == if old(queue)@.len() > limit {
            old(queue)@.skip(old(queue)@.len() - limit)
        } else {
            old(queue)@
        },
{
    let ghost start = queue@;
    while queue.len() > limit
        invariant
            start.len() >= queue@.len(),
            queue@ == start.skip(start.len() - queue@.len()),
            queue@.len() >= limit || queue@ == start,
        decreases queue@.len(),
    {
        let _ = queue.pop_front();
    }
    proof {
        if start.len() <= limit {
            assert(start.skip(0) =~= start);
        }
    }
}

} // verus!
