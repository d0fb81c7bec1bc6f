//! What the read-only MCP server offers: its tools and resources by name,
//! and the record of when each tool was last called.

use vstd::prelude::*;
use crate::text::{owned, push_str, str_eq};

verus! {

/// The tools of the server.
#[derive(Clone, Copy, Debug, PartialEq, Eq, Structural)]
pub enum McpTool {
    ChannelAnalysis,
    RecentEvents,
    ChannelStatistics,
    HistoricalAnalysis,
}

/// The name under which clients call a tool.
pub open spec fn tool_name_text(tool: McpTool) -> Seq<char> {
    match tool {
        McpTool::ChannelAnalysis => "get_channel_analysis"@,
        McpTool::RecentEvents => "get_recent_events"@,
        McpTool::ChannelStatistics => "get_channel_statistics"@,
        McpTool::HistoricalAnalysis => "query_historical_analysis"@,
    }
}

/// The name under which clients call a tool.
pub fn tool_name(tool: McpTool) -> (out: &'static str)
    ensures
        out@ == tool_name_text(tool),
{
    match tool {
        McpTool::ChannelAnalysis => "get_channel_analysis",
        McpTool::RecentEvents => "get_recent_events",
        McpTool::ChannelStatistics => "get_channel_statistics",
        McpTool::HistoricalAnalysis => "query_historical_analysis",
    }
}

/// Whether a tool only reads: the server changes nothing of the session or
/// the telemetry it serves, so every tool is announced as read-only.
pub open spec fn tool_is_read_only(tool: McpTool) -> bool {
    match tool {
        McpTool::ChannelAnalysis => true,
        McpTool::RecentEvents => true,
        McpTool::ChannelStatistics => true,
        McpTool::HistoricalAnalysis => true,
    }
}

/// The read-only hint with which a tool is announced to clients.
pub fn tool_read_only(tool: McpTool) -> (out: bool)
    ensures
        out == tool_is_read_only(tool),
        out,
{
    match tool {
        McpTool::ChannelAnalysis => true,
        McpTool::RecentEvents => true,
        McpTool::ChannelStatistics => true,
        McpTool::HistoricalAnalysis => true,
    }
}

/// The names of all tools, in catalog order.
pub fn tool_names() -> (out: [&'static str; 4])
    ensures
        out@.len() == 4,
        out@[0]@ == tool_name_text(McpTool::ChannelAnalysis),
        out@[1]@ == tool_name_text(McpTool::RecentEvents),
        out@[2]@ == tool_name_text(McpTool::ChannelStatistics),
        out@[3]@ == tool_name_text(McpTool::HistoricalAnalysis),
{
    [
        tool_name(McpTool::ChannelAnalysis),
        tool_name(McpTool::RecentEvents),
        tool_name(McpTool::ChannelStatistics),
        tool_name(McpTool::HistoricalAnalysis),
    ]
}

/// The tool that a call names; `None` for an unknown tool.
pub fn tool_by_name(name: &str) -> (out: Option<McpTool>)
    ensures
        match out {
            Some(t) => tool_name_text(t) == name@,
            None => forall|t: McpTool| tool_name_text(t) != name@,
        },
{
    if str_eq(name, "get_channel_analysis") {
        Some(McpTool::ChannelAnalysis)
    } else if str_eq(name, "get_recent_events") {
        Some(McpTool::RecentEvents)
    } else if str_eq(name, "get_channel_statistics") {
        Some(McpTool::ChannelStatistics)
    } else if str_eq(name, "query_historical_analysis") {
        Some(McpTool::HistoricalAnalysis)
    } else {
        None
    }
}

/// No two tools share a name, so a call by a tool's own name reaches that
/// tool.
pub proof fn lemma_tool_names_distinct(a: McpTool, b: McpTool)
    ensures
        tool_name_text(a) == tool_name_text(b) ==> a == b,
{
    reveal_strlit("get_channel_analysis");
    reveal_strlit("get_recent_events");
    reveal_strlit("get_channel_statistics");
    reveal_strlit("query_historical_analysis");
    if a != b {
        assert(tool_name_text(a)[4] != tool_name_text(b)[4] || tool_name_text(a).len()
            != tool_name_text(b).len() || tool_name_text(a)[12] != tool_name_text(b)[12]);
    }
}

/// The error text for a call of an unknown tool.
pub fn unknown_tool_message(name: &str) -> (out: String)
    ensures
        out@ == "unknown tool: "@ + name@,
{
    let mut out = owned("unknown tool: ");
    push_str(&mut out, name);
    out
}

/// The resources of the server.
#[derive(Clone, Copy, Debug, PartialEq, Eq, Structural)]
pub enum McpResource {
    Session,
    Telemetry,
    Analysis,
    Triggers,
}

/// The URI, name and description of a resource in the catalog.
pub open spec fn resource_text(resource: McpResource) -> (Seq<char>, Seq<char>, Seq<char>) {
    match resource {
        McpResource::Session => (
            "session://current"@,
            "Current Session"@,
            "Current runtime connection state"@,
        ),
        McpResource::Telemetry => (
            "telemetry://summary"@,
            "Telemetry Summary"@,
            "Latest telemetry summary per channel"@,
        ),
        McpResource::Analysis => (
            "analysis://latest"@,
            "Latest Analysis"@,
            "Latest analysis frame per channel"@,
        ),
        McpResource::Triggers => (
            "triggers://recent"@,
            "Recent Triggers"@,
            "Bounded recent trigger history"@,
        ),
    }
}

/// The URI, name and description of a resource in the catalog.
pub fn resource_entry(resource: McpResource) -> (out: (&'static str, &'static str, &'static str))
    ensures
        (out.0@, out.1@, out.2@) == resource_text(resource),
{
    match resource {
        McpResource::Session => (
            "session://current",
            "Current Session",
            "Current runtime connection state",
        ),
        McpResource::Telemetry => (
            "telemetry://summary",
            "Telemetry Summary",
            "Latest telemetry summary per channel",
        ),
        McpResource::Analysis => (
            "analysis://latest",
            "Latest Analysis",
            "Latest analysis frame per channel",
        ),
        McpResource::Triggers => (
            "triggers://recent",
            "Recent Triggers",
            "Bounded recent trigger history",
        ),
    }
}

/// The resource that a URI names; `None` for an unknown URI.
pub fn resource_by_uri(uri: &str) -> (out: Option<McpResource>)
    ensures
        match out {
            Some(r) => resource_text(r).0 == uri@,
            None => forall|r: McpResource| resource_text(r).0 != uri@,
        },
{
    if str_eq(uri, "session://current") {
        Some(McpResource::Session)
    } else if str_eq(uri, "telemetry://summary") {
        Some(McpResource::Telemetry)
    } else if str_eq(uri, "analysis://latest") {
        Some(McpResource::Analysis)
    } else if str_eq(uri, "triggers://recent") {
        Some(McpResource::Triggers)
    } else {
        None
    }
}

/// No two resources share a URI, so a read of a resource's own URI reaches
/// that resource.
pub proof fn lemma_resource_uris_distinct(a: McpResource, b: McpResource)
    ensures
        resource_text(a).0 == resource_text(b).0 ==> a == b,
{
    reveal_strlit("session://current");
    reveal_strlit("telemetry://summary");
    reveal_strlit("analysis://latest");
    reveal_strlit("triggers://recent");
    if a != b {
        assert(resource_text(a).0[0] != resource_text(b).0[0] || resource_text(a).0[1] != resource_text(b).0[1]);
    }
}

/// When a tool was last called, if it was.
#[derive(Clone, Debug, PartialEq, Eq)]
pub struct McpToolUsageSnapshot {
    pub name: String,
    pub last_called_at_ms: Option<u64>,
}

/// The text of a usage list.
pub open spec fn usage_text(v: Seq<McpToolUsageSnapshot>) -> Seq<(Seq<char>, Option<u64>)> {
    v.map_values(|e: McpToolUsageSnapshot| (e.name@, e.last_called_at_ms))
}

/// The position of the first entry named `name` at or after `i`, or the
/// length when there is none.
pub open spec fn first_named(u: Seq<(Seq<char>, Option<u64>)>, name: Seq<char>, i: int) -> int
    decreases u.len() - i,
{
    if i < 0 || i >= u.len() {
        u.len() as int
    } else if u[i].0 == name {
        i
    } else {
        first_named(u, name, i + 1)
    }
}

/// When each tool of the server was last called.
#[derive(Clone, Debug)]
pub struct McpToolUsageTracker {
    entries: Vec<McpToolUsageSnapshot>,
}

impl View for McpToolUsageTracker {
    type V = Seq<(Seq<char>, Option<u64>)>;

    closed spec fn view(&self) -> Seq<(Seq<char>, Option<u64>)> {
        usage_text(self.entries@)
    }
}

impl McpToolUsageTracker {
    /// One entry per tool name, in order, none called yet.
    pub fn new(tool_names: &[&str]) -> (out: Self)
        ensures
            out@.len() == tool_names@.len(),
            forall|i: int| 0 <= i < tool_names@.len() ==> #[trigger] out@[i] == (tool_names@[i]@, None::<u64>),
    {
        let mut entries: Vec<McpToolUsageSnapshot> = Vec::new();
        let mut i: usize = 0;
        while i < tool_names.len()
            invariant
                i <= tool_names.len(),
                entries@.len() == i,
                forall|j: int| 0 <= j < i ==> #[trigger] usage_text(entries@)[j] == (tool_names@[j]@, None::<u64>),
            decreases tool_names.len() - i,
        {
            let ghost before = entries@;
            entries.push(McpToolUsageSnapshot { name: owned(tool_names[i]), last_called_at_ms: None });
            assert(usage_text(entries@) =~= usage_text(before).push((tool_names@[i as int]@, None::<u64>)));
            i = i + 1;
        }
        McpToolUsageTracker { entries }
    }

    /// Records that the tool `tool_name` was called at `now_ms`: the first
    /// entry of that name takes the time; a name with no entry changes
    /// nothing.
    pub fn record(&mut self, tool_name: &str, now_ms: u64)
        ensures
            ({
                let k = first_named(old(self)@, tool_name@, 0);
                final(self)@ == if k < old(self)@.len() {
                    old(self)@.update(k, (tool_name@, Some(now_ms)))
                } else {
                    old(self)@
                }
            }),
    {
        let ghost u = usage_text(self.entries@);
        let mut i: usize = 0;
        while i < self.entries.len()
            invariant
                i <= self.entries.len(),
                u == usage_text(self.entries@),
                self.entries@ == old(self).entries@,
                first_named(u, tool_name@, 0) == first_named(u, tool_name@, i as int),
            decreases self.entries.len() - i,
        {
            if str_eq(self.entries[i].name.as_str(), tool_name) {
                assert(u[i as int].0 == tool_name@);
                let name = self.entries[i].name.clone();
                self.entries.set(i, McpToolUsageSnapshot { name, last_called_at_ms: Some(now_ms) });
                assert(usage_text(self.entries@) =~= u.update(i as int, (tool_name@, Some(now_ms))));
                return;
            }
            i = i + 1;
        }
    }

    /// The entries, in order.
    pub fn snapshot(&self) -> (out: Vec<McpToolUsageSnapshot>)
        ensures
            usage_text(out@) == self@,
    {
        let mut out: Vec<McpToolUsageSnapshot> = Vec::new();
        let mut i: usize = 0;
        while i < self.entries.len()
            invariant
                i <= self.entries.len(),
                usage_text(out@) =~= usage_text(self.entries@).take(i as int),
            decreases self.entries.len() - i,
        {
            let name = self.entries[i].name.clone();
            let ghost before = out@;
            out.push(McpToolUsageSnapshot { name, last_called_at_ms: self.entries[i].last_called_at_ms });
            assert(usage_text(out@) =~= usage_text(before).push(usage_text(self.entries@)[i as int]));
            i = i + 1;
        }
        assert(usage_text(self.entries@).take(self.entries.len() as int) =~= usage_text(self.entries@));
        out
    }
}

} // verus!
