//! Events that the processes of an agent send each other, and what becomes of
//! a subscription to them.

use crate::ids::{uuid_form, uuid_text, AgentId, BranchId, ChannelId, WorkerId};
use crate::text::{
    char_prefix, first_non_blank, first_non_blank_line, law_first_non_blank_is_first, split_at,
    text_eq, trim, trimmed, truncate_to_chars,
};
use vstd::prelude::*;
use vstd::string::*;

verus! {

/// Signal from the API to the main event loop to trigger provider setup.
#[derive(Debug)]
pub enum ProviderSetupEvent {
    /// New provider keys have been added. Reinitialize agents.
    ProvidersConfigured,
}

/// Process identifier: of a channel, a worker or a branch.
#[derive(Debug, Clone, PartialEq)]
pub enum ProcessId {
    Channel(ChannelId),
    Worker(WorkerId),
    Branch(BranchId),
}

/// A process identifier in text.
pub open spec fn process_id_form(id: ProcessId) -> Seq<char> {
    match id {
        ProcessId::Channel(channel) => "channel:"@ + channel@,
        ProcessId::Worker(worker) => "worker:"@ + uuid_form(worker),
        ProcessId::Branch(branch) => "branch:"@ + uuid_form(branch),
    }
}

impl ProcessId {
    /// The identifier in text.
    pub fn display(&self) -> (text: String)
        ensures
            text@ == process_id_form(*self),
    {
        match self {
            ProcessId::Channel(channel) => "channel:".to_owned().concat(channel.as_str()),
            ProcessId::Worker(worker) => "worker:".to_owned().concat(uuid_text(*worker).as_str()),
            ProcessId::Branch(branch) => "branch:".to_owned().concat(uuid_text(*branch).as_str()),
        }
    }

    /// A copy of the identifier.
    pub fn copied(&self) -> (copy: ProcessId)
        ensures
            copy == *self,
    {
        match self {
            ProcessId::Channel(channel) => ProcessId::Channel(channel.clone()),
            ProcessId::Worker(worker) => ProcessId::Worker(*worker),
            ProcessId::Branch(branch) => ProcessId::Branch(*branch),
        }
    }

    /// Whether two identifiers are the same.
    pub fn same(&self, other: &ProcessId) -> (result: bool)
        ensures
            result == same_process(*self, *other),
    {
        match (self, other) {
            (ProcessId::Channel(a), ProcessId::Channel(b)) => text_eq(a.as_str(), b.as_str()),
            (ProcessId::Worker(a), ProcessId::Worker(b)) => *a == *b,
            (ProcessId::Branch(a), ProcessId::Branch(b)) => *a == *b,
            _ => false,
        }
    }
}

/// Whether two identifiers name the same process.
pub open spec fn same_process(a: ProcessId, b: ProcessId) -> bool {
    match (a, b) {
        (ProcessId::Channel(left), ProcessId::Channel(right)) => left@ == right@,
        (ProcessId::Worker(left), ProcessId::Worker(right)) => left == right,
        (ProcessId::Branch(left), ProcessId::Branch(right)) => left == right,
        _ => false,
    }
}

/// Process types in the system.
#[derive(Debug, Clone, Copy, PartialEq, Eq, Structural)]
pub enum ProcessType {
    Channel,
    Branch,
    Worker,
    Compactor,
    Cortex,
}

/// A process type in words.
pub open spec fn process_type_word(process_type: ProcessType) -> Seq<char> {
    match process_type {
        ProcessType::Channel => "channel"@,
        ProcessType::Branch => "branch"@,
        ProcessType::Worker => "worker"@,
        ProcessType::Compactor => "compactor"@,
        ProcessType::Cortex => "cortex"@,
    }
}

impl ProcessType {
    /// The type in words.
    pub fn display(&self) -> (text: String)
        ensures
            text@ == process_type_word(*self),
    {
        match self {
            ProcessType::Channel => "channel".to_owned(),
            ProcessType::Branch => "branch".to_owned(),
            ProcessType::Worker => "worker".to_owned(),
            ProcessType::Compactor => "compactor".to_owned(),
            ProcessType::Cortex => "cortex".to_owned(),
        }
    }
}

/// The length that a summary of an event is cut to, in characters.
pub const EVENT_SUMMARY_MAX_CHARS: usize = 160;

/// The capacity of the bus for lifecycle and control events.
pub const CONTROL_EVENT_BUS_CAPACITY: usize = 256;

/// The capacity of the bus for memory events.
pub const MEMORY_EVENT_BUS_CAPACITY: usize = 1024;

/// A fraction between zero and one, by the bits of its single-precision form.
#[derive(Debug, Clone, Copy, PartialEq, Eq, Structural)]
pub struct Fraction {
    pub bits: u32,
}

/// Events sent between processes.
#[allow(inconsistent_fields)]
#[derive(Debug, Clone)]
pub enum ProcessEvent {
    BranchStarted {
        agent_id: AgentId,
        branch_id: BranchId,
        channel_id: ChannelId,
        description: String,
        reply_to_message_id: Option<String>,
    },
    BranchResult {
        agent_id: AgentId,
        branch_id: BranchId,
        channel_id: ChannelId,
        conclusion: String,
    },
    WorkerStarted {
        agent_id: AgentId,
        worker_id: WorkerId,
        channel_id: Option<ChannelId>,
        task: String,
        worker_type: String,
    },
    WorkerStatus {
        agent_id: AgentId,
        worker_id: WorkerId,
        channel_id: Option<ChannelId>,
        status: String,
    },
    WorkerComplete {
        agent_id: AgentId,
        worker_id: WorkerId,
        channel_id: Option<ChannelId>,
        result: String,
        notify: bool,
        success: bool,
    },
    ToolStarted {
        agent_id: AgentId,
        process_id: ProcessId,
        channel_id: Option<ChannelId>,
        tool_name: String,
        args: String,
    },
    ToolCompleted {
        agent_id: AgentId,
        process_id: ProcessId,
        channel_id: Option<ChannelId>,
        tool_name: String,
        result: String,
    },
    MemorySaved {
        agent_id: AgentId,
        memory_id: String,
        channel_id: Option<ChannelId>,
        memory_type: String,
        importance: Fraction,
        content_summary: String,
    },
    CompactionTriggered {
        agent_id: AgentId,
        channel_id: ChannelId,
        threshold_reached: Fraction,
    },
    StatusUpdate {
        agent_id: AgentId,
        process_id: ProcessId,
        status: String,
    },
    WorkerPermission {
        agent_id: AgentId,
        worker_id: WorkerId,
        channel_id: Option<ChannelId>,
        permission_id: String,
        description: String,
        patterns: Vec<String>,
    },
    WorkerQuestion {
        agent_id: AgentId,
        worker_id: WorkerId,
        channel_id: Option<ChannelId>,
        question_id: String,
        questions: Vec<String>,
    },
    AgentMessageSent {
        from_agent_id: AgentId,
        to_agent_id: AgentId,
        link_id: String,
        channel_id: ChannelId,
    },
    AgentMessageReceived {
        from_agent_id: AgentId,
        to_agent_id: AgentId,
        link_id: String,
        channel_id: ChannelId,
    },
    TaskUpdated {
        agent_id: AgentId,
        task_number: i64,
        status: String,
        action: String,
    },
    TextDelta {
        agent_id: AgentId,
        process_id: ProcessId,
        channel_id: Option<ChannelId>,
        text_delta: String,
        aggregated_text: String,
    },
}

/// The summary of a text: its first line that is more than white space, or,
/// where there is none, the trimmed text, cut to a number of characters.
pub open spec fn line_summary(value: Seq<char>, max_chars: int) -> Seq<char> {
    char_prefix(
        match first_non_blank(split_at(value, '\n')) {
            Some(line) => line,
            None => trimmed(value),
        },
        max_chars,
    )
}

/// Summarize a value to its first line that is more than white space.
pub fn summarize_first_non_empty_line(value: &str, max_chars: usize) -> (summary: String)
    ensures
        summary@ == line_summary(value@, max_chars as int),
{
    let line = match first_non_blank_line(value) {
        Some(line) => line,
        None => trim(value),
    };
    truncate_to_chars(line, max_chars).to_owned()
}

/// A summary is never longer than asked for.
pub proof fn law_summary_is_bounded(value: Seq<char>, max_chars: int)
    requires
        0 <= max_chars,
    ensures
        line_summary(value, max_chars).len() <= max_chars,
{
}

/// What a subscription to a bus gave.
#[derive(Debug)]
pub enum BroadcastRecvResult<T> {
    Event(T),
    Lagged(u64),
    Closed,
}

/// Why a subscription gave no event.
#[derive(Debug, Clone, Copy, PartialEq, Eq, Structural)]
pub enum RecvError {
    /// Nobody can send any more.
    Closed,
    /// So many events were overwritten before they were read.
    Lagged(u64),
}

/// Tells an event, a lag and a closed bus apart.
pub fn classify_broadcast_recv_result<T>(result: Result<T, RecvError>) -> (outcome: BroadcastRecvResult<
    T,
>)
    ensures
        outcome == match result {
            Ok(event) => BroadcastRecvResult::Event(event),
            Err(RecvError::Lagged(count)) => BroadcastRecvResult::Lagged(count),
            Err(RecvError::Closed) => BroadcastRecvResult::Closed,
        },
{
    match result {
        Ok(event) => BroadcastRecvResult::Event(event),
        Err(RecvError::Lagged(count)) => BroadcastRecvResult::Lagged(count),
        Err(RecvError::Closed) => BroadcastRecvResult::Closed,
    }
}

pub open spec fn saturated(sum: int) -> int {
    if sum > u64::MAX {
        u64::MAX as int
    } else {
        sum
    }
}

/// Whether a warning is due: none was given yet, or the last one is at least
/// the interval ago.
pub open spec fn warning_due(last: Option<u64>, now: u64, interval: u64) -> bool {
    match last {
        Some(then) => (if now > then {
            now - then
        } else {
            0
        }) >= interval,
        None => true,
    }
}

/// Counts lagged events, and where a warning is due hands the count out and
/// starts anew. `now` is the time of a monotonic clock, in the unit of
/// `warning_interval`.
pub fn drain_lag_warning_count(
    lagged_since_last_warning: &mut u64,
    last_lag_warning: &mut Option<u64>,
    newly_lagged_count: u64,
    warning_interval: u64,
    now: u64,
) -> (drained: Option<u64>)
    ensures
        ({
            let total = saturated(*old(lagged_since_last_warning) + newly_lagged_count);
            if warning_due(*old(last_lag_warning), now, warning_interval) {
                &&& drained == Some(total as u64)
                &&& *final(lagged_since_last_warning) == 0
                &&& *final(last_lag_warning) == Some(now)
            } else {
                &&& drained is None
                &&& *final(lagged_since_last_warning) == total
                &&& *final(last_lag_warning) == *old(last_lag_warning)
            }
        }),
{
    *lagged_since_last_warning = lagged_since_last_warning.saturating_add(newly_lagged_count);
    let due = match *last_lag_warning {
        Some(then) => now.saturating_sub(then) >= warning_interval,
        None => true,
    };
    if !due {
        return None;
    }
    *last_lag_warning = Some(now);
    let total: u64 = *lagged_since_last_warning;
    *lagged_since_last_warning = 0;
    Some(total)
}

/// The channel that an event is scoped to, where it is scoped to one.
pub open spec fn event_channel(event: ProcessEvent) -> Option<Seq<char>> {
    match event {
        ProcessEvent::BranchStarted { channel_id, .. } => Some(channel_id@),
        ProcessEvent::BranchResult { channel_id, .. } => Some(channel_id@),
        ProcessEvent::WorkerStarted { channel_id, .. } => crate::text::view_of(channel_id),
        ProcessEvent::WorkerComplete { channel_id, .. } => crate::text::view_of(channel_id),
        ProcessEvent::WorkerStatus { channel_id, .. } => crate::text::view_of(channel_id),
        ProcessEvent::ToolStarted { channel_id, .. } => crate::text::view_of(channel_id),
        ProcessEvent::ToolCompleted { channel_id, .. } => crate::text::view_of(channel_id),
        ProcessEvent::MemorySaved { channel_id, .. } => crate::text::view_of(channel_id),
        ProcessEvent::WorkerPermission { channel_id, .. } => crate::text::view_of(channel_id),
        ProcessEvent::WorkerQuestion { channel_id, .. } => crate::text::view_of(channel_id),
        ProcessEvent::CompactionTriggered { channel_id, .. } => Some(channel_id@),
        ProcessEvent::AgentMessageSent { channel_id, .. } => Some(channel_id@),
        ProcessEvent::AgentMessageReceived { channel_id, .. } => Some(channel_id@),
        ProcessEvent::TextDelta { channel_id, .. } => crate::text::view_of(channel_id),
        ProcessEvent::StatusUpdate { .. } => None,
        ProcessEvent::TaskUpdated { .. } => None,
    }
}

fn is_channel(channel: &Option<ChannelId>, wanted: &str) -> (same: bool)
    ensures
        same == (crate::text::view_of(*channel) == Some(wanted@)),
{
    match channel {
        Some(id) => text_eq(id.as_str(), wanted),
        None => false,
    }
}

/// Check if an event is targeted at a specific channel.
///
/// Events from branches and workers carry a channel. A channel processes only
/// those that originated from it; an event without one is for no channel.
pub fn event_is_for_channel(event: &ProcessEvent, channel_id: &str) -> (result: bool)
    ensures
        result == (event_channel(*event) == Some(channel_id@)),
{
    match event {
        ProcessEvent::BranchStarted { channel_id: channel, .. } => text_eq(
            channel.as_str(),
            channel_id,
        ),
        ProcessEvent::BranchResult { channel_id: channel, .. } => text_eq(
            channel.as_str(),
            channel_id,
        ),
        ProcessEvent::WorkerStarted { channel_id: channel, .. } => is_channel(channel, channel_id),
        ProcessEvent::WorkerComplete { channel_id: channel, .. } => is_channel(channel, channel_id),
        ProcessEvent::WorkerStatus { channel_id: channel, .. } => is_channel(channel, channel_id),
        ProcessEvent::ToolStarted { channel_id: channel, .. } => is_channel(channel, channel_id),
        ProcessEvent::ToolCompleted { channel_id: channel, .. } => is_channel(channel, channel_id),
        ProcessEvent::MemorySaved { channel_id: channel, .. } => is_channel(channel, channel_id),
        ProcessEvent::WorkerPermission { channel_id: channel, .. } => is_channel(
            channel,
            channel_id,
        ),
        ProcessEvent::WorkerQuestion { channel_id: channel, .. } => is_channel(channel, channel_id),
        ProcessEvent::CompactionTriggered { channel_id: channel, .. } => text_eq(
            channel.as_str(),
            channel_id,
        ),
        ProcessEvent::AgentMessageSent { channel_id: channel, .. } => text_eq(
            channel.as_str(),
            channel_id,
        ),
        ProcessEvent::AgentMessageReceived { channel_id: channel, .. } => text_eq(
            channel.as_str(),
            channel_id,
        ),
        ProcessEvent::TextDelta { channel_id: channel, .. } => is_channel(channel, channel_id),
        ProcessEvent::StatusUpdate { .. } => false,
        ProcessEvent::TaskUpdated { .. } => false,
    }
}

/// No event is for two channels.
pub proof fn law_event_is_for_one_channel(event: ProcessEvent, a: Seq<char>, b: Seq<char>)
    requires
        event_channel(event) == Some(a),
        event_channel(event) == Some(b),
    ensures
        a == b,
{
}

/// The summary of a text is its first line that is more than white space, without
/// the white space around it, as far as it fits.
pub proof fn law_summary_is_the_first_line(value: Seq<char>, max_chars: int, at: int)
    requires
        0 <= max_chars,
        0 <= at < split_at(value, '\n').len(),
        trimmed(split_at(value, '\n')[at]).len() > 0,
        forall|i: int| 0 <= i < at ==> trimmed(#[trigger] split_at(value, '\n')[i]).len() == 0,
    ensures
        ({
            let line = trimmed(split_at(value, '\n')[at]);
            line_summary(value, max_chars) == if line.len() <= max_chars {
                line
            } else {
                line.take(max_chars)
            }
        }),
{
    let lines = split_at(value, '\n');
    law_first_non_blank_is_first(lines);
    match first_non_blank(lines) {
        Some(found) => {
            let first = choose|first: int|
                0 <= first < lines.len() && found == trimmed(#[trigger] lines[first]) && found.len() > 0
                    && forall|i: int| 0 <= i < first ==> trimmed(#[trigger] lines[i]).len() == 0;
            if first < at {
                assert(trimmed(lines[first]).len() == 0);
            }
            if at < first {
                assert(trimmed(lines[at]).len() == 0);
            }
        },
        None => {
            assert(trimmed(lines[at]).len() == 0);
        },
    }
}

/// A warning is due where none was given, and again once as much time went by as
/// the interval has.
pub proof fn law_warnings_keep_their_distance(then: u64, passed: u64, now: u64, interval: u64)
    requires
        now == then + passed,
    ensures
        warning_due(None, now, interval),
        warning_due(Some(then), now, interval) <==> passed >= interval,
{
}

/// An event that names a channel is for that channel, and one that names none is
/// for no channel.
pub proof fn law_event_is_for_its_channel(event: ProcessEvent, channel: ChannelId)
    ensures
        event is BranchStarted ==> event_channel(event) == Some(event->BranchStarted_channel_id@),
        event is BranchResult ==> event_channel(event) == Some(event->BranchResult_channel_id@),
        event is WorkerStarted && event->WorkerStarted_channel_id == Some(channel)
            ==> event_channel(event) == Some(channel@),
        event is WorkerComplete && event->WorkerComplete_channel_id == Some(channel)
            ==> event_channel(event) == Some(channel@),
        event is WorkerStatus && event->WorkerStatus_channel_id == Some(channel)
            ==> event_channel(event) == Some(channel@),
        event is ToolStarted && event->ToolStarted_channel_id == Some(channel)
            ==> event_channel(event) == Some(channel@),
        event is ToolCompleted && event->ToolCompleted_channel_id == Some(channel)
            ==> event_channel(event) == Some(channel@),
        event is MemorySaved && event->MemorySaved_channel_id == Some(channel)
            ==> event_channel(event) == Some(channel@),
        event is WorkerPermission && event->WorkerPermission_channel_id == Some(channel)
            ==> event_channel(event) == Some(channel@),
        event is WorkerQuestion && event->WorkerQuestion_channel_id == Some(channel)
            ==> event_channel(event) == Some(channel@),
        event is TextDelta && event->TextDelta_channel_id == Some(channel) ==> event_channel(event)
            == Some(channel@),
        event is CompactionTriggered ==> event_channel(event) == Some(
            event->CompactionTriggered_channel_id@,
        ),
        event is AgentMessageSent ==> event_channel(event) == Some(
            event->AgentMessageSent_channel_id@,
        ),
        event is AgentMessageReceived ==> event_channel(event) == Some(
            event->AgentMessageReceived_channel_id@,
        ),
        event is StatusUpdate || event is TaskUpdated ==> event_channel(event) is None,
        event is WorkerComplete && event->WorkerComplete_channel_id is None ==> event_channel(event)
            is None,
        event is WorkerStarted && event->WorkerStarted_channel_id is None ==> event_channel(event)
            is None,
        event is WorkerStatus && event->WorkerStatus_channel_id is None ==> event_channel(event)
            is None,
        event is ToolStarted && event->ToolStarted_channel_id is None ==> event_channel(event) is None,
        event is ToolCompleted && event->ToolCompleted_channel_id is None ==> event_channel(event)
            is None,
{
}

/// Processes of two kinds are never the same, and two of one kind are the same
/// where they are called the same.
pub proof fn law_same_process_is_named_alike(a: ProcessId, b: ProcessId)
    ensures
        same_process(a, b) ==> process_id_form(a) == process_id_form(b),
        same_process(a, a),
        same_process(a, b) == same_process(b, a),
        a is Worker && b is Worker ==> (same_process(a, b) <==> a->Worker_0 == b->Worker_0),
        a is Branch && b is Branch ==> (same_process(a, b) <==> a->Branch_0 == b->Branch_0),
        a is Channel && b is Channel ==> (same_process(a, b) <==> a->Channel_0@ == b->Channel_0@),
        a is Worker && !(b is Worker) ==> !same_process(a, b),
        a is Branch && !(b is Branch) ==> !same_process(a, b),
{
}

/// A process is named by its kind, a colon and its identifier.
pub proof fn law_processes_are_named(channel: ChannelId, id: u128)
    ensures
        process_id_form(ProcessId::Channel(channel)) == "channel:"@ + channel@,
        process_id_form(ProcessId::Worker(id)) == "worker:"@ + uuid_form(id),
        process_id_form(ProcessId::Branch(id)) == "branch:"@ + uuid_form(id),
{
}

/// The words for the kinds of processes tell them apart.
pub proof fn law_kinds_are_told_apart(a: ProcessType, b: ProcessType)
    ensures
        a != b ==> process_type_word(a) != process_type_word(b),
        a == ProcessType::Channel ==> process_type_word(a) == "channel"@,
        a == ProcessType::Branch ==> process_type_word(a) == "branch"@,
        a == ProcessType::Worker ==> process_type_word(a) == "worker"@,
        a == ProcessType::Compactor ==> process_type_word(a) == "compactor"@,
        a == ProcessType::Cortex ==> process_type_word(a) == "cortex"@,
{
    reveal_strlit("channel");
    reveal_strlit("branch");
    reveal_strlit("worker");
    reveal_strlit("compactor");
    reveal_strlit("cortex");
    assert("channel"@.len() == 7 && "branch"@.len() == 6 && "worker"@.len() == 6);
    assert("compactor"@.len() == 9 && "cortex"@.len() == 6);
    assert("branch"@[0] != "worker"@[0] && "branch"@[0] != "cortex"@[0]);
    assert("worker"@[0] != "cortex"@[0]);
}

/// A count of events that were missed is exact as long as it can be told, and stays
/// at the highest from there on.
pub proof fn law_counts_do_not_run_over(count: u64, more: u64)
    ensures
        count + more <= u64::MAX ==> saturated(count + more) == count + more,
        count + more > u64::MAX ==> saturated(count + more) == u64::MAX,
{
}

} // verus!
