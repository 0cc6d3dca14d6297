//! Cortex: observes what goes on in an agent and keeps its memory bulletin.

use crate::agent::cortex_log::{has_number, is_log, CortexLog, Detail};
use crate::agent::warmup::{at_least_one, BulletinRefreshOutcome};
use crate::clock::{rfc3339_text, utc_rfc3339, Timestamp};
use crate::events::{
    classify_broadcast_recv_result, drain_lag_warning_count, line_summary, same_process, saturated,
    summarize_first_non_empty_line, warning_due, BroadcastRecvResult, Fraction, ProcessEvent,
    ProcessId, RecvError, EVENT_SUMMARY_MAX_CHARS,
};
use crate::ids::{AgentId, BranchId, ChannelId, WorkerId};
use crate::json::{is_json, is_json_text};
use crate::text::{decimal, option_text_eq, u64_text, view_of};
use std::collections::VecDeque;
use vstd::prelude::*;
use vstd::string::*;

verus! {

/// The most signals that the cortex remembers.
pub const SIGNAL_BUFFER_CAPACITY: usize = 100;

/// The cortex observes system-wide activity.
#[derive(Debug)]
pub struct Cortex {
    /// Recent activity signals (rolling window).
    pub signal_buffer: VecDeque<Signal>,
    pub system_prompt: String,
}

/// A high-level activity signal (not raw conversation).
#[allow(inconsistent_fields)]
#[derive(Debug, Clone)]
pub enum Signal {
    /// Branch started.
    BranchStarted { branch_id: BranchId, channel_id: ChannelId, description: String },
    /// Branch produced a result.
    BranchResult { branch_id: BranchId, channel_id: ChannelId, conclusion: String },
    /// Worker started.
    WorkerStarted {
        worker_id: WorkerId,
        channel_id: Option<ChannelId>,
        task_summary: String,
        worker_type: String,
    },
    /// Worker status update.
    WorkerStatus { worker_id: WorkerId, channel_id: Option<ChannelId>, status: String },
    /// Worker completed.
    WorkerCompleted {
        worker_id: WorkerId,
        channel_id: Option<ChannelId>,
        success: bool,
        result_summary: String,
    },
    /// Tool execution started.
    ToolStarted { process_id: ProcessId, channel_id: Option<ChannelId>, tool_name: String },
    /// Tool execution completed.
    ToolCompleted {
        process_id: ProcessId,
        channel_id: Option<ChannelId>,
        tool_name: String,
        result_summary: String,
    },
    /// Memory was saved.
    MemorySaved {
        memory_id: String,
        channel_id: Option<ChannelId>,
        memory_type: String,
        content_summary: String,
        importance: Fraction,
    },
    /// Compaction threshold was reached.
    CompactionTriggered { channel_id: ChannelId, threshold_reached: Fraction },
    /// Generic status update.
    StatusUpdate { process_id: ProcessId, status: String },
    /// Worker requested a permission decision.
    WorkerPermission {
        worker_id: WorkerId,
        channel_id: Option<ChannelId>,
        permission_id: String,
        description: String,
    },
    /// Worker asked one or more questions.
    WorkerQuestion {
        worker_id: WorkerId,
        channel_id: Option<ChannelId>,
        question_id: String,
        question_count: usize,
    },
    /// Agent sent a linked message.
    AgentMessageSent { from_agent_id: AgentId, to_agent_id: AgentId, channel_id: ChannelId },
    /// Agent received a linked message.
    AgentMessageReceived { from_agent_id: AgentId, to_agent_id: AgentId, channel_id: ChannelId },
    /// Task lifecycle update.
    TaskUpdated { task_number: i64, status: String, action: String },
}

/// What a signal says of a text.
pub open spec fn signal_text(value: Seq<char>) -> Seq<char> {
    line_summary(value, EVENT_SUMMARY_MAX_CHARS as int)
}

/// The first line of a text that says something, cut to a length.
pub fn summarize_signal_text(value: &str) -> (summary: String)
    ensures
        summary@ == signal_text(value@),
{
    summarize_first_non_empty_line(value, EVENT_SUMMARY_MAX_CHARS)
}

/// Whether a signal is the one of an event: the same identifiers, texts that
/// may be long by their summaries.
pub open spec fn is_signal_of(event: ProcessEvent, signal: Signal) -> bool {
    match event {
        ProcessEvent::BranchStarted { branch_id, channel_id, description, .. } => signal == (
        Signal::BranchStarted { branch_id, channel_id, description }),
        ProcessEvent::BranchResult { branch_id, channel_id, conclusion, .. } => signal matches
            Signal::BranchResult { branch_id: id, channel_id: channel, conclusion: said } && id
            == branch_id && channel == channel_id && said@ == signal_text(conclusion@),
        ProcessEvent::WorkerStarted { worker_id, channel_id, task, worker_type, .. } => signal
            matches Signal::WorkerStarted {
            worker_id: id,
            channel_id: channel,
            task_summary,
            worker_type: kind,
        } && id == worker_id && channel == channel_id && task_summary@ == signal_text(task@) && kind
            == worker_type,
        ProcessEvent::WorkerStatus { worker_id, channel_id, status, .. } => signal matches
            Signal::WorkerStatus { worker_id: id, channel_id: channel, status: said } && id
            == worker_id && channel == channel_id && said@ == signal_text(status@),
        ProcessEvent::WorkerComplete { worker_id, channel_id, result, success, .. } => signal
            matches Signal::WorkerCompleted {
            worker_id: id,
            channel_id: channel,
            success: succeeded,
            result_summary,
        } && id == worker_id && channel == channel_id && succeeded == success && result_summary@
            == signal_text(result@),
        ProcessEvent::ToolStarted { process_id, channel_id, tool_name, .. } => signal == (
        Signal::ToolStarted { process_id, channel_id, tool_name }),
        ProcessEvent::ToolCompleted { process_id, channel_id, tool_name, result, .. } => signal
            matches Signal::ToolCompleted {
            process_id: id,
            channel_id: channel,
            tool_name: tool,
            result_summary,
        } && id == process_id && channel == channel_id && tool == tool_name && result_summary@
            == signal_text(result@),
        ProcessEvent::MemorySaved {
            memory_id,
            channel_id,
            memory_type,
            importance,
            content_summary,
            ..
        } => signal == (Signal::MemorySaved {
            memory_id,
            channel_id,
            memory_type,
            content_summary,
            importance,
        }),
        ProcessEvent::CompactionTriggered { channel_id, threshold_reached, .. } => signal == (
        Signal::CompactionTriggered { channel_id, threshold_reached }),
        ProcessEvent::StatusUpdate { process_id, status, .. } => signal matches
            Signal::StatusUpdate { process_id: id, status: said } && id == process_id && said@
            == signal_text(status@),
        ProcessEvent::WorkerPermission { worker_id, channel_id, permission_id, description, .. } => {
            signal matches Signal::WorkerPermission {
                worker_id: id,
                channel_id: channel,
                permission_id: permission,
                description: said,
            } && id == worker_id && channel == channel_id && permission == permission_id && said@
                == signal_text(description@)
        },
        ProcessEvent::WorkerQuestion { worker_id, channel_id, question_id, questions, .. } => signal
            == (Signal::WorkerQuestion {
            worker_id,
            channel_id,
            question_id,
            question_count: questions.len(),
        }),
        ProcessEvent::AgentMessageSent { from_agent_id, to_agent_id, channel_id, .. } => signal == (
        Signal::AgentMessageSent { from_agent_id, to_agent_id, channel_id }),
        ProcessEvent::AgentMessageReceived { from_agent_id, to_agent_id, channel_id, .. } => signal
            == (Signal::AgentMessageReceived { from_agent_id, to_agent_id, channel_id }),
        ProcessEvent::TaskUpdated { task_number, status, action, .. } => signal matches
            Signal::TaskUpdated { task_number: number, status: said, action: done } && number
            == task_number && said@ == signal_text(status@) && done == action,
        ProcessEvent::TextDelta { .. } => false,
    }
}

/// The signal of an event. A piece of streamed text is no activity and has
/// none.
pub fn signal_from_event(event: ProcessEvent) -> (signal: Signal)
    requires
        !(event is TextDelta),
    ensures
        is_signal_of(event, signal),
{
    match event {
        ProcessEvent::BranchStarted { branch_id, channel_id, description, .. } => {
            Signal::BranchStarted { branch_id, channel_id, description }
        },
        ProcessEvent::BranchResult { branch_id, channel_id, conclusion, .. } => {
            Signal::BranchResult {
                branch_id,
                channel_id,
                conclusion: summarize_signal_text(conclusion.as_str()),
            }
        },
        ProcessEvent::WorkerStarted { worker_id, channel_id, task, worker_type, .. } => {
            Signal::WorkerStarted {
                worker_id,
                channel_id,
                task_summary: summarize_signal_text(task.as_str()),
                worker_type,
            }
        },
        ProcessEvent::WorkerStatus { worker_id, channel_id, status, .. } => {
            Signal::WorkerStatus {
                worker_id,
                channel_id,
                status: summarize_signal_text(status.as_str()),
            }
        },
        ProcessEvent::WorkerComplete { worker_id, channel_id, result, success, .. } => {
            Signal::WorkerCompleted {
                worker_id,
                channel_id,
                success,
                result_summary: summarize_signal_text(result.as_str()),
            }
        },
        ProcessEvent::ToolStarted { process_id, channel_id, tool_name, .. } => {
            Signal::ToolStarted { process_id, channel_id, tool_name }
        },
        ProcessEvent::ToolCompleted { process_id, channel_id, tool_name, result, .. } => {
            Signal::ToolCompleted {
                process_id,
                channel_id,
                tool_name,
                result_summary: summarize_signal_text(result.as_str()),
            }
        },
        ProcessEvent::MemorySaved {
            memory_id,
            channel_id,
            memory_type,
            importance,
            content_summary,
            ..
        } => {
            Signal::MemorySaved { memory_id, channel_id, memory_type, content_summary, importance }
        },
        ProcessEvent::CompactionTriggered { channel_id, threshold_reached, .. } => {
            Signal::CompactionTriggered { channel_id, threshold_reached }
        },
        ProcessEvent::StatusUpdate { process_id, status, .. } => {
            Signal::StatusUpdate { process_id, status: summarize_signal_text(status.as_str()) }
        },
        ProcessEvent::WorkerPermission { worker_id, channel_id, permission_id, description, .. } => {
            Signal::WorkerPermission {
                worker_id,
                channel_id,
                permission_id,
                description: summarize_signal_text(description.as_str()),
            }
        },
        ProcessEvent::WorkerQuestion { worker_id, channel_id, question_id, questions, .. } => {
            Signal::WorkerQuestion {
                worker_id,
                channel_id,
                question_id,
                question_count: questions.len(),
            }
        },
        ProcessEvent::AgentMessageSent { from_agent_id, to_agent_id, channel_id, .. } => {
            Signal::AgentMessageSent { from_agent_id, to_agent_id, channel_id }
        },
        ProcessEvent::AgentMessageReceived { from_agent_id, to_agent_id, channel_id, .. } => {
            Signal::AgentMessageReceived { from_agent_id, to_agent_id, channel_id }
        },
        ProcessEvent::TaskUpdated { task_number, status, action, .. } => {
            Signal::TaskUpdated {
                task_number,
                status: summarize_signal_text(status.as_str()),
                action,
            }
        },
        ProcessEvent::TextDelta { .. } => vstd::pervasive::unreached(),
    }
}

/// Whether a signal only brings an earlier one up to date: both tell the status
/// of one process, of one worker in one channel, or of one task.
pub open spec fn supersedes(next: Signal, previous: Signal) -> bool {
    match (previous, next) {
        (
            Signal::StatusUpdate { process_id: a, .. },
            Signal::StatusUpdate { process_id: b, .. },
        ) => same_process(a, b),
        (
            Signal::WorkerStatus { worker_id: a, channel_id: a_channel, .. },
            Signal::WorkerStatus { worker_id: b, channel_id: b_channel, .. },
        ) => a == b && view_of(a_channel) == view_of(b_channel),
        (
            Signal::TaskUpdated { task_number: a, .. },
            Signal::TaskUpdated { task_number: b, .. },
        ) => a == b,
        _ => false,
    }
}

/// An earlier signal brought up to date.
pub open spec fn brought_up_to_date(previous: Signal, next: Signal) -> Signal {
    match (previous, next) {
        (Signal::StatusUpdate { process_id, .. }, Signal::StatusUpdate { status, .. }) => {
            Signal::StatusUpdate { process_id, status }
        },
        (
            Signal::WorkerStatus { worker_id, channel_id, .. },
            Signal::WorkerStatus { status, .. },
        ) => Signal::WorkerStatus { worker_id, channel_id, status },
        (Signal::TaskUpdated { task_number, .. }, Signal::TaskUpdated { status, action, .. }) => {
            Signal::TaskUpdated { task_number, status, action }
        },
        _ => previous,
    }
}

/// Merges a signal into the one before it, where it only brings it up to date.
pub fn coalesce_signal(previous: &mut Signal, next: &Signal) -> (merged: bool)
    ensures
        merged == supersedes(*next, *old(previous)),
        *final(previous) == if merged {
            brought_up_to_date(*old(previous), *next)
        } else {
            *old(previous)
        },
{
    match previous {
        Signal::StatusUpdate { process_id, status } => match next {
            Signal::StatusUpdate { process_id: next_process_id, status: next_status } => {
                if process_id.same(next_process_id) {
                    *status = next_status.clone();
                    true
                } else {
                    false
                }
            },
            _ => false,
        },
        Signal::WorkerStatus { worker_id, channel_id, status } => match next {
            Signal::WorkerStatus {
                worker_id: next_worker_id,
                channel_id: next_channel_id,
                status: next_status,
            } => {
                if *worker_id == *next_worker_id && option_text_eq(channel_id, next_channel_id) {
                    *status = next_status.clone();
                    true
                } else {
                    false
                }
            },
            _ => false,
        },
        Signal::TaskUpdated { task_number, status, action } => match next {
            Signal::TaskUpdated {
                task_number: next_task_number,
                status: next_status,
                action: next_action,
            } => {
                if *task_number == *next_task_number {
                    *status = next_status.clone();
                    *action = next_action.clone();
                    true
                } else {
                    false
                }
            },
            _ => false,
        },
        _ => false,
    }
}

/// The signals that are remembered once one more comes: it is merged into the
/// newest where it only brings it up to date; else it is the newest, and the
/// oldest goes where there are too many.
pub open spec fn with_signal(buffer: Seq<Signal>, signal: Signal) -> Seq<Signal> {
    if buffer.len() > 0 && supersedes(signal, buffer.last()) {
        buffer.drop_last().push(brought_up_to_date(buffer.last(), signal))
    } else if buffer.len() + 1 > SIGNAL_BUFFER_CAPACITY {
        buffer.push(signal).drop_first()
    } else {
        buffer.push(signal)
    }
}

/// Remembers a signal.
pub fn push_signal_into_buffer(buffer: &mut VecDeque<Signal>, signal: Signal)
    requires
        old(buffer)@.len() < usize::MAX,
    ensures
        final(buffer)@ == with_signal(old(buffer)@, signal),
{
    let ghost before = buffer@;
    match buffer.pop_back() {
        Some(newest) => {
            let mut previous = newest;
            let merged = coalesce_signal(&mut previous, &signal);
            buffer.push_back(previous);
            if merged {
                assert(buffer@ =~= with_signal(before, signal));
                return;
            }
            assert(buffer@ =~= before);
        },
        None => {},
    }
    buffer.push_back(signal);
    if buffer.len() > SIGNAL_BUFFER_CAPACITY {
        let _oldest = buffer.pop_front();
    }
    assert(buffer@ =~= with_signal(before, signal));
}

impl Cortex {
    /// Whether no more signals are remembered than fit.
    pub open spec fn wf(self) -> bool {
        self.signal_buffer@.len() <= SIGNAL_BUFFER_CAPACITY
    }

    /// Create a new cortex.
    pub fn new(system_prompt: String) -> (cortex: Cortex)
        ensures
            cortex.wf(),
            cortex.signal_buffer@ == Seq::<Signal>::empty(),
            cortex.system_prompt == system_prompt,
    {
        Cortex { signal_buffer: VecDeque::with_capacity(SIGNAL_BUFFER_CAPACITY), system_prompt }
    }

    /// Process a process event and extract signals.
    pub fn observe(&mut self, event: ProcessEvent)
        requires
            old(self).wf(),
            !(event is TextDelta),
        ensures
            final(self).wf(),
            exists|signal: Signal|
                is_signal_of(event, signal) && final(self).signal_buffer@
                    == #[trigger] with_signal(old(self).signal_buffer@, signal),
            final(self).system_prompt == old(self).system_prompt,
    {
        let signal = signal_from_event(event);
        let ghost seen = signal;
        push_signal_into_buffer(&mut self.signal_buffer, signal);
        assert(self.signal_buffer@ == with_signal(old(self).signal_buffer@, seen));
    }
}

/// The cortex never remembers more signals than fit.
pub proof fn law_signal_buffer_is_bounded(buffer: Seq<Signal>, signal: Signal)
    requires
        buffer.len() <= SIGNAL_BUFFER_CAPACITY,
    ensures
        with_signal(buffer, signal).len() <= SIGNAL_BUFFER_CAPACITY,
{
}

/// The newest signal always stands last: as it came, or as what it brought up to
/// date.
pub proof fn law_newest_signal_is_last(buffer: Seq<Signal>, signal: Signal)
    ensures
        with_signal(buffer, signal).len() > 0,
        with_signal(buffer, signal).last() == if buffer.len() > 0 && supersedes(
            signal,
            buffer.last(),
        ) {
            brought_up_to_date(buffer.last(), signal)
        } else {
            signal
        },
{
}

/// A run of updates of one thing is remembered as one signal, the last.
pub proof fn law_updates_coalesce(buffer: Seq<Signal>, first: Signal, second: Signal)
    requires
        !(buffer.len() > 0 && supersedes(first, buffer.last())),
        supersedes(second, first),
    ensures
        with_signal(with_signal(buffer, first), second) == with_signal(
            buffer,
            brought_up_to_date(first, second),
        ),
{
    let middle = with_signal(buffer, first);
    let merged = brought_up_to_date(first, second);
    assert(middle.last() == first);
    if buffer.len() > 0 {
        assert(supersedes(merged, buffer.last()) == supersedes(first, buffer.last()));
    }
    assert(with_signal(middle, second) =~= with_signal(buffer, merged));
}

/// What a closed bus means for the loop.
#[derive(Debug, Clone, Copy, PartialEq, Eq, Structural)]
pub enum ReceiverClosedBehavior {
    StopLoop,
    DisableStream,
}

/// What the loop does with what a bus gave.
#[derive(Debug, Clone)]
pub enum CortexReceiverOutcome {
    Observe(ProcessEvent),
    Lagged { dropped: u64 },
    StopLoop,
    DisableStream,
}

/// Decides what to do with what a bus gave. Lags are counted, and a warning
/// with their number is due now and then. Times are of a monotonic clock, in
/// the unit of the interval.
pub fn handle_cortex_receiver_result(
    result: Result<ProcessEvent, RecvError>,
    close_behavior: ReceiverClosedBehavior,
    lagged_since_last_warning: &mut u64,
    last_lag_warning: &mut Option<u64>,
    warning_interval: u64,
    now: u64,
) -> (handled: (CortexReceiverOutcome, Option<u64>))
    ensures
        match result {
            Ok(event) => {
                &&& handled.0 == CortexReceiverOutcome::Observe(event)
                &&& handled.1 is None
                &&& *final(lagged_since_last_warning) == *old(lagged_since_last_warning)
                &&& *final(last_lag_warning) == *old(last_lag_warning)
            },
            Err(RecvError::Lagged(count)) => {
                let total = saturated(*old(lagged_since_last_warning) + count);
                &&& handled.0 == (CortexReceiverOutcome::Lagged { dropped: count })
                &&& if warning_due(*old(last_lag_warning), now, warning_interval) {
                    &&& handled.1 == Some(total as u64)
                    &&& *final(lagged_since_last_warning) == 0
                    &&& *final(last_lag_warning) == Some(now)
                } else {
                    &&& handled.1 is None
                    &&& *final(lagged_since_last_warning) == total
                    &&& *final(last_lag_warning) == *old(last_lag_warning)
                }
            },
            Err(RecvError::Closed) => {
                &&& handled.0 == match close_behavior {
                    ReceiverClosedBehavior::StopLoop => CortexReceiverOutcome::StopLoop,
                    ReceiverClosedBehavior::DisableStream => CortexReceiverOutcome::DisableStream,
                }
                &&& handled.1 is None
                &&& *final(lagged_since_last_warning) == *old(lagged_since_last_warning)
                &&& *final(last_lag_warning) == *old(last_lag_warning)
            },
        },
{
    match classify_broadcast_recv_result(result) {
        BroadcastRecvResult::Event(event) => (CortexReceiverOutcome::Observe(event), None),
        BroadcastRecvResult::Lagged(count) => {
            let warning = drain_lag_warning_count(
                lagged_since_last_warning,
                last_lag_warning,
                count,
                warning_interval,
                now,
            );
            (CortexReceiverOutcome::Lagged { dropped: count }, warning)
        },
        BroadcastRecvResult::Closed => match close_behavior {
            ReceiverClosedBehavior::StopLoop => (CortexReceiverOutcome::StopLoop, None),
            ReceiverClosedBehavior::DisableStream => (CortexReceiverOutcome::DisableStream, None),
        },
    }
}

/// How often a bulletin is tried again when the cortex starts.
pub const MAX_RETRIES: u32 = 3;

/// The seconds between two attempts.
pub const RETRY_DELAY_SECS: u64 = 15;

/// The seconds between two warnings of a lag.
pub const LAG_WARNING_INTERVAL_SECS: u64 = 30;

/// What follows an attempt at a bulletin when the cortex starts.
#[derive(Debug, Clone)]
pub enum StartupStep {
    /// There is a bulletin, or no attempt is left.
    Done,
    /// Record a line, wait so many seconds and try again.
    Retry { log: CortexLog, delay_secs: u64 },
}

pub open spec fn retry_summary(attempt: int) -> Seq<char> {
    "Bulletin generation failed, retrying (attempt "@ + decimal(attempt) + "/"@ + decimal(
        MAX_RETRIES as int,
    ) + ")"@
}

/// Decides what follows an attempt, counted from zero.
pub fn startup_step(attempt: u32, outcome: BulletinRefreshOutcome) -> (step: StartupStep)
    requires
        attempt <= MAX_RETRIES,
    ensures
        match step {
            StartupStep::Done => outcome != BulletinRefreshOutcome::Failed || attempt
                == MAX_RETRIES,
            StartupStep::Retry { log, delay_secs } => {
                &&& outcome == BulletinRefreshOutcome::Failed
                &&& attempt < MAX_RETRIES
                &&& delay_secs == RETRY_DELAY_SECS
                &&& is_log(log, "bulletin_failed"@, retry_summary(attempt + 1), 2)
                &&& has_number(log, 0, "attempt"@, attempt + 1)
                &&& has_number(log, 1, "max_retries"@, MAX_RETRIES as int)
            },
        },
{
    if outcome.is_success() || attempt >= MAX_RETRIES {
        return StartupStep::Done;
    }
    let next: u64 = attempt as u64 + 1;
    let max: u64 = MAX_RETRIES as u64;
    let summary = "Bulletin generation failed, retrying (attempt ".to_owned().concat(
        u64_text(next).as_str(),
    ).concat("/").concat(u64_text(max).as_str()).concat(")");
    let mut details: Vec<(String, Detail)> = Vec::new();
    details.push(("attempt".to_owned(), Detail::Number(next as i64)));
    details.push(("max_retries".to_owned(), Detail::Number(max as i64)));
    StartupStep::Retry {
        log: CortexLog { event_type: "bulletin_failed".to_owned(), summary, details },
        delay_secs: RETRY_DELAY_SECS,
    }
}

/// How often the cortex looks after itself.
#[derive(Debug, Clone, Copy, PartialEq, Eq, Structural)]
pub struct CortexConfig {
    pub tick_interval_secs: u64,
    pub bulletin_interval_secs: u64,
}

/// What became of a bulletin refresh in the background.
#[derive(Debug, Clone, Copy, PartialEq, Eq, Structural)]
pub enum RefreshEnd {
    Outcome(BulletinRefreshOutcome),
    /// Its task failed.
    Broken,
}

/// What a tick asks for.
#[derive(Debug, Clone, Copy, PartialEq, Eq, Structural)]
pub struct TickPlan {
    /// Start a bulletin refresh in the background.
    pub spawn_refresh: bool,
    /// Restart the timer with another period, in seconds.
    pub reset_timer: Option<u64>,
}

/// What the loop does with what a bus gave it.
#[derive(Debug, Clone)]
pub enum LoopStep {
    Observe(ProcessEvent),
    /// So many events were missed; a warning with a number of them may be due.
    Missed { dropped: u64, warning: Option<u64> },
    /// Stop, and abort the refresh that runs, where one does.
    Stop { abort_refresh: bool },
    /// Go on without the bus.
    CloseStream,
}

/// The loop of the cortex. Times are milliseconds of a monotonic clock.
#[derive(Debug, Clone, Copy, PartialEq, Eq, Structural)]
pub struct CortexLoop {
    pub last_bulletin_refresh: u64,
    pub tick_interval_secs: u64,
    pub lagged_control: u64,
    pub last_warning_control: Option<u64>,
    pub lagged_memory: u64,
    pub last_warning_memory: Option<u64>,
    pub memory_event_stream_open: bool,
    pub refresh_running: bool,
}

/// Whether the bulletin is old enough for a new one.
pub open spec fn refresh_due(last: u64, now: u64, interval_secs: u64) -> bool {
    (if now > last {
        now - last
    } else {
        0
    }) >= at_least_one(interval_secs) * 1000
}

impl CortexLoop {
    /// The loop as it starts, right after a first bulletin.
    pub fn start(config: CortexConfig, now: u64) -> (state: CortexLoop)
        ensures
            state == (CortexLoop {
                last_bulletin_refresh: now,
                tick_interval_secs: at_least_one(config.tick_interval_secs),
                lagged_control: 0,
                last_warning_control: None,
                lagged_memory: 0,
                last_warning_memory: None,
                memory_event_stream_open: true,
                refresh_running: false,
            }),
    {
        CortexLoop {
            last_bulletin_refresh: now,
            tick_interval_secs: if config.tick_interval_secs < 1 {
                1
            } else {
                config.tick_interval_secs
            },
            lagged_control: 0,
            last_warning_control: None,
            lagged_memory: 0,
            last_warning_memory: None,
            memory_event_stream_open: true,
            refresh_running: false,
        }
    }

    /// The bus of control events gave something. Where it is closed the loop
    /// stops.
    pub fn on_control(&mut self, result: Result<ProcessEvent, RecvError>, now: u64) -> (step: LoopStep)
        ensures
            match result {
                Ok(event) => step == LoopStep::Observe(event) && *final(self) == *old(self),
                Err(RecvError::Closed) => step == (LoopStep::Stop {
                    abort_refresh: old(self).refresh_running,
                }) && *final(self) == (CortexLoop { refresh_running: false, ..*old(self) }),
                Err(RecvError::Lagged(count)) => {
                    let total = saturated(old(self).lagged_control + count);
                    if warning_due(old(self).last_warning_control, now, 30000) {
                        &&& step == (LoopStep::Missed { dropped: count, warning: Some(total as u64) })
                        &&& *final(self) == (CortexLoop {
                            lagged_control: 0,
                            last_warning_control: Some(now),
                            ..*old(self)
                        })
                    } else {
                        &&& step == (LoopStep::Missed { dropped: count, warning: None })
                        &&& *final(self) == (CortexLoop { lagged_control: total as u64, ..*old(self) })
                    }
                },
            },
    {
        let (outcome, warning) = handle_cortex_receiver_result(
            result,
            ReceiverClosedBehavior::StopLoop,
            &mut self.lagged_control,
            &mut self.last_warning_control,
            LAG_WARNING_INTERVAL_SECS * 1000,
            now,
        );
        match outcome {
            CortexReceiverOutcome::Observe(event) => LoopStep::Observe(event),
            CortexReceiverOutcome::Lagged { dropped } => LoopStep::Missed { dropped, warning },
            CortexReceiverOutcome::StopLoop => {
                let abort_refresh = self.refresh_running;
                self.refresh_running = false;
                LoopStep::Stop { abort_refresh }
            },
            CortexReceiverOutcome::DisableStream => vstd::pervasive::unreached(),
        }
    }

    /// The bus of memory events gave something. Where it is closed the loop goes
    /// on without it.
    pub fn on_memory(&mut self, result: Result<ProcessEvent, RecvError>, now: u64) -> (step: LoopStep)
        ensures
            match result {
                Ok(event) => step == LoopStep::Observe(event) && *final(self) == *old(self),
                Err(RecvError::Closed) => step == LoopStep::CloseStream && *final(self) == (
                CortexLoop { memory_event_stream_open: false, ..*old(self) }),
                Err(RecvError::Lagged(count)) => {
                    let total = saturated(old(self).lagged_memory + count);
                    if warning_due(old(self).last_warning_memory, now, 30000) {
                        &&& step == (LoopStep::Missed { dropped: count, warning: Some(total as u64) })
                        &&& *final(self) == (CortexLoop {
                            lagged_memory: 0,
                            last_warning_memory: Some(now),
                            ..*old(self)
                        })
                    } else {
                        &&& step == (LoopStep::Missed { dropped: count, warning: None })
                        &&& *final(self) == (CortexLoop { lagged_memory: total as u64, ..*old(self) })
                    }
                },
            },
    {
        let (outcome, warning) = handle_cortex_receiver_result(
            result,
            ReceiverClosedBehavior::DisableStream,
            &mut self.lagged_memory,
            &mut self.last_warning_memory,
            LAG_WARNING_INTERVAL_SECS * 1000,
            now,
        );
        match outcome {
            CortexReceiverOutcome::Observe(event) => LoopStep::Observe(event),
            CortexReceiverOutcome::Lagged { dropped } => LoopStep::Missed { dropped, warning },
            CortexReceiverOutcome::StopLoop => vstd::pervasive::unreached(),
            CortexReceiverOutcome::DisableStream => {
                self.memory_event_stream_open = false;
                LoopStep::CloseStream
            },
        }
    }

    /// The timer ticked. `finished` is what became of the refresh that ran, where
    /// it is over by now.
    pub fn on_tick(&mut self, finished: Option<RefreshEnd>, config: CortexConfig, now: u64) -> (plan: TickPlan)
        ensures
            ({
                let over = old(self).refresh_running && finished is Some;
                let last = if over && finished->0 == RefreshEnd::Outcome(
                    BulletinRefreshOutcome::Generated,
                ) {
                    now
                } else {
                    old(self).last_bulletin_refresh
                };
                let free = over || !old(self).refresh_running;
                let period = at_least_one(config.tick_interval_secs);
                &&& plan.spawn_refresh == (free && refresh_due(
                    last,
                    now,
                    config.bulletin_interval_secs,
                ))
                &&& plan.reset_timer == if period != old(self).tick_interval_secs {
                    Some(period)
                } else {
                    None
                }
                &&& *final(self) == (CortexLoop {
                    last_bulletin_refresh: last,
                    tick_interval_secs: period,
                    refresh_running: !free || plan.spawn_refresh,
                    ..*old(self)
                })
            }),
    {
        if self.refresh_running {
            match finished {
                Some(end) => {
                    self.refresh_running = false;
                    match end {
                        RefreshEnd::Outcome(outcome) => {
                            if outcome.generated() {
                                self.last_bulletin_refresh = now;
                            }
                        },
                        RefreshEnd::Broken => {},
                    }
                },
                None => {},
            }
        }
        let interval: u64 = if config.bulletin_interval_secs < 1 {
            1
        } else {
            config.bulletin_interval_secs
        };
        let elapsed: u64 = now.saturating_sub(self.last_bulletin_refresh);
        let spawn_refresh = !self.refresh_running && elapsed as u128 >= interval as u128 * 1000;
        if spawn_refresh {
            self.refresh_running = true;
        }
        let period: u64 = if config.tick_interval_secs < 1 {
            1
        } else {
            config.tick_interval_secs
        };
        let reset_timer = if period != self.tick_interval_secs {
            self.tick_interval_secs = period;
            Some(period)
        } else {
            None
        };
        TickPlan { spawn_refresh, reset_timer }
    }
}

/// A persisted cortex action record.
#[derive(Debug, Clone)]
pub struct CortexEvent {
    pub id: String,
    pub event_type: String,
    pub summary: String,
    /// A JSON text.
    pub details: Option<String>,
    pub created_at: String,
}

/// A row of the table of cortex action records.
#[derive(Debug, Clone)]
pub struct CortexEventRow {
    pub id: String,
    pub event_type: String,
    pub summary: String,
    pub details: Option<String>,
    pub created_at: Timestamp,
}

impl CortexEventRow {
    /// The record of a row. Details that are not JSON are dropped.
    pub fn into_event(self) -> (event: CortexEvent)
        requires
            self.created_at.valid(),
        ensures
            event.id == self.id,
            event.event_type == self.event_type,
            event.summary == self.summary,
            event.details == match self.details {
                Some(text) => if is_json_text(text@) {
                    Some(text)
                } else {
                    None
                },
                None => None,
            },
            event.created_at@ == utc_rfc3339(
                self.created_at.seconds as int,
                self.created_at.nanos as int,
            ),
    {
        let details = match self.details {
            Some(text) => if is_json(text.as_str()) {
                Some(text)
            } else {
                None
            },
            None => None,
        };
        CortexEvent {
            id: self.id,
            event_type: self.event_type,
            summary: self.summary,
            details,
            created_at: rfc3339_text(self.created_at),
        }
    }
}

/// A signal is of the kind of its event, and keeps what the event tells: who and
/// where, whether it is a success, and of a long text what one line holds.
pub proof fn law_signal_keeps_what_the_event_tells(event: ProcessEvent, signal: Signal)
    requires
        is_signal_of(event, signal),
    ensures
        event is BranchStarted
            ==> (signal matches Signal::BranchStarted { branch_id, channel_id, description }
            && branch_id == event->BranchStarted_branch_id
            && channel_id == event->BranchStarted_channel_id
            && description == event->BranchStarted_description),
        event is BranchResult
            ==> (signal matches Signal::BranchResult { branch_id, channel_id, conclusion }
            && branch_id == event->BranchResult_branch_id
            && channel_id == event->BranchResult_channel_id
            && conclusion@ == line_summary(event->BranchResult_conclusion@, 160)),
        event is WorkerStarted
            ==> (signal matches Signal::WorkerStarted { worker_id, channel_id, task_summary,
            worker_type } && worker_id == event->WorkerStarted_worker_id
            && channel_id == event->WorkerStarted_channel_id
            && task_summary@ == line_summary(event->WorkerStarted_task@, 160)
            && worker_type == event->WorkerStarted_worker_type),
        event is WorkerStatus
            ==> (signal matches Signal::WorkerStatus { worker_id, channel_id, status }
            && worker_id == event->WorkerStatus_worker_id
            && channel_id == event->WorkerStatus_channel_id
            && status@ == line_summary(event->WorkerStatus_status@, 160)),
        event is WorkerComplete
            ==> (signal matches Signal::WorkerCompleted { worker_id, channel_id, success,
            result_summary } && worker_id == event->WorkerComplete_worker_id
            && channel_id == event->WorkerComplete_channel_id
            && success == event->WorkerComplete_success
            && result_summary@ == line_summary(event->WorkerComplete_result@, 160)),
        event is ToolStarted
            ==> (signal matches Signal::ToolStarted { process_id, channel_id, tool_name }
            && process_id == event->ToolStarted_process_id
            && channel_id == event->ToolStarted_channel_id
            && tool_name == event->ToolStarted_tool_name),
        event is ToolCompleted
            ==> (signal matches Signal::ToolCompleted { process_id, channel_id, tool_name,
            result_summary } && process_id == event->ToolCompleted_process_id
            && channel_id == event->ToolCompleted_channel_id
            && tool_name == event->ToolCompleted_tool_name
            && result_summary@ == line_summary(event->ToolCompleted_result@, 160)),
        event is MemorySaved
            ==> (signal matches Signal::MemorySaved { memory_id, channel_id, memory_type,
            content_summary, importance } && memory_id == event->MemorySaved_memory_id
            && channel_id == event->MemorySaved_channel_id
            && memory_type == event->MemorySaved_memory_type
            && content_summary == event->MemorySaved_content_summary
            && importance == event->MemorySaved_importance),
        event is CompactionTriggered
            ==> (signal matches Signal::CompactionTriggered { channel_id, threshold_reached }
            && channel_id == event->CompactionTriggered_channel_id
            && threshold_reached == event->CompactionTriggered_threshold_reached),
        event is StatusUpdate
            ==> (signal matches Signal::StatusUpdate { process_id, status }
            && process_id == event->StatusUpdate_process_id
            && status@ == line_summary(event->StatusUpdate_status@, 160)),
        event is WorkerPermission
            ==> (signal matches Signal::WorkerPermission { worker_id, channel_id, permission_id,
            description } && worker_id == event->WorkerPermission_worker_id
            && channel_id == event->WorkerPermission_channel_id
            && permission_id == event->WorkerPermission_permission_id
            && description@ == line_summary(event->WorkerPermission_description@, 160)),
        event is WorkerQuestion
            ==> (signal matches Signal::WorkerQuestion { worker_id, channel_id, question_id,
            question_count } && worker_id == event->WorkerQuestion_worker_id
            && channel_id == event->WorkerQuestion_channel_id
            && question_id == event->WorkerQuestion_question_id
            && question_count == event->WorkerQuestion_questions@.len()),
        event is AgentMessageSent
            ==> (signal matches Signal::AgentMessageSent { from_agent_id, to_agent_id, channel_id }
            && from_agent_id == event->AgentMessageSent_from_agent_id
            && to_agent_id == event->AgentMessageSent_to_agent_id
            && channel_id == event->AgentMessageSent_channel_id),
        event is AgentMessageReceived
            ==> (signal matches Signal::AgentMessageReceived { from_agent_id, to_agent_id,
            channel_id } && from_agent_id == event->AgentMessageReceived_from_agent_id
            && to_agent_id == event->AgentMessageReceived_to_agent_id
            && channel_id == event->AgentMessageReceived_channel_id),
        event is TaskUpdated
            ==> (signal matches Signal::TaskUpdated { task_number, status, action }
            && task_number == event->TaskUpdated_task_number
            && status@ == line_summary(event->TaskUpdated_status@, 160)
            && action == event->TaskUpdated_action),
{
}

/// Whether a signal tells the newest of what another one told: the status of the
/// same process or worker, or the state of the same task.
pub open spec fn tells_newer(signal: Signal, before: Signal) -> bool {
    ||| signal is StatusUpdate && before is StatusUpdate && same_process(
        before->StatusUpdate_process_id,
        signal->StatusUpdate_process_id,
    )
    ||| signal is WorkerStatus && before is WorkerStatus && signal->WorkerStatus_worker_id
        == before->WorkerStatus_worker_id && view_of(signal->WorkerStatus_channel_id) == view_of(
        before->WorkerStatus_channel_id,
    )
    ||| signal is TaskUpdated && before is TaskUpdated && signal->TaskUpdated_task_number
        == before->TaskUpdated_task_number
}

/// A signal comes behind those that are remembered, of which at most the oldest one
/// goes, when a hundred are there. Only one that tells the newest of what the last
/// one told takes its place, with its status.
pub proof fn law_signals_are_remembered(buffer: Seq<Signal>, signal: Signal)
    requires
        buffer.len() <= 100,
    ensures
        ({
            let after = with_signal(buffer, signal);
            let newer = buffer.len() > 0 && tells_newer(signal, buffer.last());
            &&& !newer && buffer.len() < 100 ==> after == buffer.push(signal)
            &&& !newer && buffer.len() == 100 ==> after == buffer.skip(1).push(signal)
            &&& newer ==> after.len() == buffer.len() && after.drop_last() == buffer.drop_last()
            &&& newer && signal is StatusUpdate ==> after.last() is StatusUpdate
                && after.last()->StatusUpdate_status == signal->StatusUpdate_status && same_process(
                after.last()->StatusUpdate_process_id,
                signal->StatusUpdate_process_id,
            )
            &&& newer && signal is WorkerStatus ==> after.last() is WorkerStatus
                && after.last()->WorkerStatus_status == signal->WorkerStatus_status
                && after.last()->WorkerStatus_worker_id == signal->WorkerStatus_worker_id
            &&& newer && signal is TaskUpdated ==> after.last() is TaskUpdated
                && after.last()->TaskUpdated_status == signal->TaskUpdated_status
                && after.last()->TaskUpdated_action == signal->TaskUpdated_action
                && after.last()->TaskUpdated_task_number == signal->TaskUpdated_task_number
        }),
{
    if buffer.len() > 0 {
        assert(buffer.push(signal).drop_first() =~= buffer.skip(1).push(signal));
        let merged = brought_up_to_date(buffer.last(), signal);
        assert(buffer.drop_last().push(merged).drop_last() =~= buffer.drop_last());
    }
}

/// The bulletin is due once as many seconds went by as the interval has, of which
/// one is the least.
pub proof fn law_refresh_keeps_its_distance(last: u64, passed: u64, now: u64, interval_secs: u64)
    requires
        now == last + passed,
    ensures
        interval_secs >= 1 ==> (refresh_due(last, now,
            interval_secs) <==> passed >= interval_secs * 1000),
        interval_secs == 0 ==> (refresh_due(last, now, interval_secs) <==> passed >= 1000),
{
}

/// A bulletin that could not be written at the start is tried again three times,
/// after a pause each, and each time that is recorded; one that was written, or was
/// fresh, is not.
pub proof fn law_start_is_tried_again(
    attempt: u32,
    outcome: BulletinRefreshOutcome,
    step: StartupStep,
)
    requires
        call_ensures(startup_step, (attempt, outcome), step),
        attempt <= 3,
    ensures
        step is Retry <==> outcome == BulletinRefreshOutcome::Failed && attempt < 3,
        step matches StartupStep::Retry { log, delay_secs } ==> delay_secs == 15
            && log.event_type@ == "bulletin_failed"@ && log.summary@
            == "Bulletin generation failed, retrying (attempt "@ + decimal(attempt + 1) + "/"@
            + decimal(3) + ")"@,
{
}

} // verus!
