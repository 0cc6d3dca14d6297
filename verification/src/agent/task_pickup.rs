//! Tasks that an agent picks up by itself, and what is told of them.

use crate::agent::channel_dispatch::{map_worker_completion_result, WorkerCompletionError};
use crate::agent::channel_state::RunLog;
use crate::agent::cortex_log::{has_number, has_text, is_log, CortexLog, Detail};
use crate::agent::tasks::{Subtask, Task, TaskStatus};
use crate::assoc::{find_member, member};
use crate::clock::Timestamp;
use crate::events::ProcessEvent;
use crate::ids::{uuid_form, uuid_text, AgentId, WorkerId};
use crate::json::{find_text, text_of};
use crate::messages::{ChannelInjection, InboundMessage, MessageContent};
use crate::text::{
    byte_len, byte_prefix, decimal, exceeds_bytes, i64_text, joined, truncate_to_bytes, u64_text,
};
use vstd::prelude::*;
use vstd::string::*;

verus! {

/// The seconds before the first look for a task.
pub const PICKUP_STARTUP_DELAY_SECS: u64 = 10;

/// The seconds between two looks for a task.
pub fn pickup_interval_secs(tick_interval_secs: u64) -> (secs: u64)
    ensures
        secs == if tick_interval_secs < 5 {
            5
        } else {
            tick_interval_secs
        },
{
    if tick_interval_secs < 5 {
        5
    } else {
        tick_interval_secs
    }
}

pub open spec fn subtask_line(number: int, subtask: Subtask) -> Seq<char> {
    decimal(number) + ". "@ + (if subtask.completed {
        "[x]"@
    } else {
        "[ ]"@
    }) + " "@ + subtask.title@ + "\n"@
}

fn line_of_subtask(number: u64, subtask: &Subtask) -> (line: String)
    ensures
        line@ == subtask_line(number as int, *subtask),
{
    let mark = if subtask.completed {
        "[x]"
    } else {
        "[ ]"
    };
    u64_text(number).concat(". ").concat(mark).concat(" ").concat(subtask.title.as_str()).concat("\n")
}

/// The lines of the first subtasks, numbered from one.
pub open spec fn subtask_lines(subtasks: Seq<Subtask>, count: int) -> Seq<char>
    decreases count,
{
    if count <= 0 {
        Seq::empty()
    } else {
        subtask_lines(subtasks, count - 1) + subtask_line(count, subtasks[count - 1])
    }
}

/// What a worker is told of a task before its parts.
pub open spec fn task_intro(task: Task) -> Seq<char> {
    "Execute task #"@ + decimal(task.task_number as int) + ": "@ + task.title@ + (
    match task.description {
        Some(description) => "\n\nDescription:\n"@ + description@,
        None => Seq::empty(),
    })
}

/// What a worker is told of a task.
pub open spec fn task_prompt(task: Task) -> Seq<char> {
    task_intro(task) + if task.subtasks@.len() == 0 {
        Seq::empty()
    } else {
        "\n\nSubtasks:\n"@ + subtask_lines(task.subtasks@, task.subtasks@.len() as int)
    }
}

/// What a worker is told of a task.
pub fn build_task_prompt(task: &Task) -> (prompt: String)
    ensures
        prompt@ == task_prompt(*task),
{
    let mut prompt = "Execute task #".to_owned().concat(
        i64_text(task.task_number).as_str(),
    ).concat(": ").concat(task.title.as_str());
    match &task.description {
        Some(description) => {
            prompt.append("\n\nDescription:\n");
            prompt.append(description.as_str());
        },
        None => {},
    }
    let ghost head = task_intro(*task);
    assert(prompt@ =~= head);
    if task.subtasks.len() > 0 {
        prompt.append("\n\nSubtasks:\n");
        assert(prompt@ =~= head + ("\n\nSubtasks:\n"@ + subtask_lines(task.subtasks@, 0)));
        let mut i: usize = 0;
        while i < task.subtasks.len()
            invariant
                i <= task.subtasks.len(),
                prompt@ == head + ("\n\nSubtasks:\n"@ + subtask_lines(task.subtasks@, i as int)),
            decreases task.subtasks.len() - i,
        {
            let line = line_of_subtask(i as u64 + 1, &task.subtasks[i]);
            prompt.append(line.as_str());
            assert(prompt@ =~= head + ("\n\nSubtasks:\n"@ + (subtask_lines(task.subtasks@, i as int)
                + line@)));
            i = i + 1;
        }
        assert(prompt@ =~= task_prompt(*task));
    } else {
        assert(prompt@ =~= task_prompt(*task));
    }
    prompt
}

/// What the cortex records of a task that it picks up.
pub fn pickup_log(task: &Task) -> (log: CortexLog)
    ensures
        is_log(
            log,
            "task_pickup_started"@,
            "Picked up ready task #"@ + decimal(task.task_number as int),
            2,
        ),
        has_number(log, 0, "task_number"@, task.task_number as int),
        has_text(log, 1, "title"@, task.title@),
{
    let summary = "Picked up ready task #".to_owned().concat(i64_text(task.task_number).as_str());
    let mut details: Vec<(String, Detail)> = Vec::new();
    details.push(("task_number".to_owned(), Detail::Number(task.task_number)));
    details.push(("title".to_owned(), Detail::Text(task.title.clone())));
    CortexLog { event_type: "task_pickup_started".to_owned(), summary, details }
}

/// A task in one line.
pub open spec fn task_headline(task: Task) -> Seq<char> {
    "task #"@ + decimal(task.task_number as int) + ": "@ + task.title@
}

/// Whether an event tells that a task was updated.
pub open spec fn tells_of_task(event: ProcessEvent, agent: AgentId, number: i64, word: Seq<char>) -> bool {
    event matches ProcessEvent::TaskUpdated { agent_id, task_number, status, action } && agent_id
        == agent && task_number == number && status@ == word && action@ == "updated"@
}

fn task_updated(agent_id: &AgentId, task_number: i64, status: &str) -> (event: ProcessEvent)
    ensures
        tells_of_task(event, *agent_id, task_number, status@),
{
    ProcessEvent::TaskUpdated {
        agent_id: agent_id.clone(),
        task_number,
        status: status.to_owned(),
        action: "updated".to_owned(),
    }
}

/// What is told of a task when its worker starts.
#[derive(Debug, Clone)]
pub struct TaskStart {
    /// The worker as the task remembers it.
    pub worker: String,
    pub updated: ProcessEvent,
    pub started: ProcessEvent,
    pub run_log: RunLog,
}

/// Tells of a task when its worker starts.
pub fn start_task(task: &Task, agent_id: &AgentId, worker_id: WorkerId) -> (start: TaskStart)
    ensures
        start.worker@ == uuid_form(worker_id),
        tells_of_task(start.updated, *agent_id, task.task_number, "in_progress"@),
        start.started matches ProcessEvent::WorkerStarted {
            agent_id: agent,
            worker_id: id,
            channel_id,
            task: told,
            worker_type,
        } && agent == *agent_id && id == worker_id && channel_id is None && told@ == task_headline(
            *task,
        ) && worker_type@ == "task"@,
        start.run_log matches RunLog::WorkerStarted {
            channel_id,
            worker_id: id,
            task: told,
            worker_type,
            agent_id: agent,
        } && channel_id is None && id == worker_id && told@ == task_headline(*task) && worker_type@
            == "task"@ && agent == *agent_id,
{
    let headline = "task #".to_owned().concat(i64_text(task.task_number).as_str()).concat(
        ": ",
    ).concat(task.title.as_str());
    TaskStart {
        worker: uuid_text(worker_id),
        updated: task_updated(agent_id, task.task_number, "in_progress"),
        started: ProcessEvent::WorkerStarted {
            agent_id: agent_id.clone(),
            worker_id,
            channel_id: None,
            task: headline.clone(),
            worker_type: "task".to_owned(),
        },
        run_log: RunLog::WorkerStarted {
            channel_id: None,
            worker_id,
            task: headline,
            worker_type: "task".to_owned(),
            agent_id: agent_id.clone(),
        },
    }
}

/// What becomes of a task when its worker ends.
#[derive(Debug, Clone, Copy, PartialEq, Eq, Structural)]
pub struct TaskChange {
    pub status: TaskStatus,
    pub clear_worker_id: bool,
}

/// What becomes of a task when its worker ends: it is done, or goes back to the
/// tasks that wait.
pub fn task_change(succeeded: bool) -> (change: TaskChange)
    ensures
        change == if succeeded {
            TaskChange { status: TaskStatus::Done, clear_worker_id: false }
        } else {
            TaskChange { status: TaskStatus::Ready, clear_worker_id: true }
        },
{
    if succeeded {
        TaskChange { status: TaskStatus::Done, clear_worker_id: false }
    } else {
        TaskChange { status: TaskStatus::Ready, clear_worker_id: true }
    }
}

/// What came of the worker of a task, without its secrets. Of a failure the raw
/// text is kept as well, for the record.
#[derive(Debug, Clone)]
pub enum TaskOutcome {
    Finished { result: String },
    Failed { message: String, raw: String },
}

/// The text of a task's outcome.
pub open spec fn outcome_text(outcome: TaskOutcome) -> Seq<char> {
    match outcome {
        TaskOutcome::Finished { result } => result@,
        TaskOutcome::Failed { message, .. } => "Worker failed: "@ + message@,
    }
}

/// What is told of a task when its worker ends.
#[derive(Debug, Clone)]
pub struct TaskEnd {
    pub run_log: RunLog,
    /// Only where the change of the task was stored.
    pub updated: Option<ProcessEvent>,
    pub log: CortexLog,
    /// What whoever delegated the task is told.
    pub result: String,
    pub success: bool,
    pub completed: ProcessEvent,
}

/// Whether a record is the one of a task's outcome.
pub open spec fn is_outcome_log(log: CortexLog, task: Task, worker_id: WorkerId, outcome: TaskOutcome) -> bool {
    let number = decimal(task.task_number as int);
    &&& match outcome {
        TaskOutcome::Finished { .. } => is_log(
            log,
            "task_pickup_completed"@,
            "Completed picked-up task #"@ + number,
            2,
        ),
        TaskOutcome::Failed { raw, .. } => {
            &&& is_log(
                log,
                "task_pickup_failed"@,
                "Picked-up task #"@ + number + " failed: "@ + raw@,
                3,
            )
            &&& has_text(log, 2, "error"@, raw@)
        },
    }
    &&& has_number(log, 0, "task_number"@, task.task_number as int)
    &&& has_text(log, 1, "worker_id"@, uuid_form(worker_id))
}

/// Tells of a task when its worker ends. `stored` says whether the change of the
/// task was stored.
pub fn finish_task(
    task: &Task,
    agent_id: &AgentId,
    worker_id: WorkerId,
    outcome: TaskOutcome,
    stored: bool,
) -> (end: TaskEnd)
    ensures
        end.success == (outcome is Finished),
        end.result@ == outcome_text(outcome),
        end.run_log matches RunLog::WorkerCompleted { worker_id: id, result, success } && id
            == worker_id && result@ == outcome_text(outcome) && success == (outcome is Finished),
        match end.updated {
            Some(event) => stored && tells_of_task(
                event,
                *agent_id,
                task.task_number,
                if outcome is Finished {
                    "done"@
                } else {
                    "ready"@
                },
            ),
            None => !stored,
        },
        is_outcome_log(end.log, *task, worker_id, outcome),
        end.completed matches ProcessEvent::WorkerComplete {
            agent_id: agent,
            worker_id: id,
            channel_id,
            result,
            notify,
            success,
        } && agent == *agent_id && id == worker_id && channel_id is None && result@ == outcome_text(
            outcome,
        ) && notify && success == (outcome is Finished),
{
    let mut details: Vec<(String, Detail)> = Vec::new();
    details.push(("task_number".to_owned(), Detail::Number(task.task_number)));
    details.push(("worker_id".to_owned(), Detail::Text(uuid_text(worker_id))));
    let number = i64_text(task.task_number);
    let (log, word, worker_result) = match outcome {
        TaskOutcome::Finished { result } => (
            CortexLog {
                event_type: "task_pickup_completed".to_owned(),
                summary: "Completed picked-up task #".to_owned().concat(number.as_str()),
                details,
            },
            "done",
            Ok(result),
        ),
        TaskOutcome::Failed { message, raw } => {
            let summary = "Picked-up task #".to_owned().concat(number.as_str()).concat(
                " failed: ",
            ).concat(raw.as_str());
            details.push(("error".to_owned(), Detail::Text(raw)));
            (
                CortexLog { event_type: "task_pickup_failed".to_owned(), summary, details },
                "ready",
                Err(WorkerCompletionError::failed(message)),
            )
        },
    };
    let (text, notify, success) = map_worker_completion_result(worker_result);
    let updated = if stored {
        Some(task_updated(agent_id, task.task_number, word))
    } else {
        None
    };
    TaskEnd {
        run_log: RunLog::WorkerCompleted { worker_id, result: text.clone(), success },
        updated,
        log,
        result: text.clone(),
        success,
        completed: ProcessEvent::WorkerComplete {
            agent_id: agent_id.clone(),
            worker_id,
            channel_id: None,
            result: text,
            notify,
            success,
        },
    }
}

/// The most bytes of a result that a notification quotes.
pub const QUOTED_RESULT_BYTES: usize = 500;

/// A result as a notification quotes it: cut where it is long.
pub open spec fn quoted(result: Seq<char>) -> Seq<char> {
    if byte_len(result) > QUOTED_RESULT_BYTES {
        byte_prefix(result, QUOTED_RESULT_BYTES as int) + "... [truncated]"@
    } else {
        result
    }
}

/// A result as a notification quotes it.
pub fn quote_result(result: &str) -> (text: String)
    ensures
        text@ == quoted(result@),
{
    if exceeds_bytes(result, QUOTED_RESULT_BYTES) {
        truncate_to_bytes(result, QUOTED_RESULT_BYTES).to_owned().concat("... [truncated]")
    } else {
        result.to_owned()
    }
}

/// The name that an agent is shown by.
pub open spec fn agent_name(names: Seq<(String, String)>, agent_id: Seq<char>) -> Seq<char> {
    match member(names, agent_id) {
        Some(name) => name@,
        None => agent_id,
    }
}

/// The name that an agent is shown by: its identifier where it has none.
pub fn find_agent_name<'a>(names: &'a Vec<(String, String)>, agent_id: &'a str) -> (name: &'a str)
    ensures
        name@ == agent_name(names@, agent_id@),
{
    match find_member(names, agent_id) {
        Some(name) => name.as_str(),
        None => agent_id,
    }
}

/// What whoever delegated a task is told of its end.
#[derive(Debug, Clone)]
pub struct DelegationNotice {
    pub delegating_agent_id: String,
    /// A line for the channel that links the two agents.
    pub link_message: String,
    /// A message for the channel that the task was delegated from, where it is
    /// known.
    pub injection: Option<ChannelInjection>,
}

pub open spec fn status_word(success: bool) -> Seq<char> {
    if success {
        "completed"@
    } else {
        "failed"@
    }
}

/// The text of a system message on the end of a delegated task.
pub open spec fn notification_text(task: Task, result: Seq<char>, success: bool, executor: Seq<char>) -> Seq<char> {
    "[System] Delegated task #"@ + decimal(task.task_number as int) + " "@ + status_word(success)
        + " by "@ + executor + ": \""@ + task.title@ + "\"\n\nResult: "@ + quoted(result)
}

/// Whether an injection brings a system message to a channel of an agent.
pub open spec fn is_system_injection(
    injection: ChannelInjection,
    channel: Seq<char>,
    agent: Seq<char>,
    text: Seq<char>,
    id: u128,
    now: Timestamp,
) -> bool {
    let message = injection.message;
    &&& injection.conversation_id@ == channel
    &&& injection.agent_id@ == agent
    &&& message.id@ == uuid_form(id)
    &&& message.source@ == "system"@
    &&& message.adapter is None
    &&& message.conversation_id@ == channel
    &&& message.sender_id@ == "system"@
    &&& message.agent_id is Some && message.agent_id->0@ == agent
    &&& message.content is Text && message.content->Text_0@ == text
    &&& message.timestamp == now
    &&& message.metadata@.len() == 0
    &&& message.formatted_author is None
}

/// What is told of the end of a task that another agent delegated. A task that
/// nobody delegated is not told of. `message_id` is a fresh identifier.
pub fn notify_delegation_completion(
    task: &Task,
    result_summary: &str,
    success: bool,
    executor_agent_id: &str,
    agent_names: &Vec<(String, String)>,
    message_id: u128,
    now: Timestamp,
) -> (notice: Option<DelegationNotice>)
    ensures
        match (text_of(member(task.metadata@, "delegating_agent_id"@)), notice) {
            (None, None) => true,
            (Some(delegator), Some(told)) => {
                let executor = agent_name(agent_names@, executor_agent_id@);
                &&& told.delegating_agent_id@ == delegator
                &&& told.link_message@ == executor + " "@ + status_word(success) + " task #"@
                    + decimal(task.task_number as int) + ": \""@ + task.title@ + "\""@
                &&& match (text_of(member(task.metadata@, "originating_channel"@)), told.injection) {
                    (None, None) => true,
                    (Some(channel), Some(injection)) => is_system_injection(
                        injection,
                        channel,
                        delegator,
                        notification_text(*task, result_summary@, success, executor),
                        message_id,
                        now,
                    ),
                    _ => false,
                }
            },
            _ => false,
        },
{
    let delegator = match find_text(&task.metadata, "delegating_agent_id") {
        Some(id) => id,
        None => {
            return None;
        },
    };
    let executor = find_agent_name(agent_names, executor_agent_id);
    let word = if success {
        "completed"
    } else {
        "failed"
    };
    let number = i64_text(task.task_number);
    let link_message = executor.to_owned().concat(" ").concat(word).concat(" task #").concat(
        number.as_str(),
    ).concat(": \"").concat(task.title.as_str()).concat("\"");
    let injection = match find_text(&task.metadata, "originating_channel") {
        Some(channel) => {
            let text = "[System] Delegated task #".to_owned().concat(number.as_str()).concat(
                " ",
            ).concat(word).concat(" by ").concat(executor).concat(": \"").concat(
                task.title.as_str(),
            ).concat("\"\n\nResult: ").concat(quote_result(result_summary).as_str());
            Some(
                ChannelInjection {
                    conversation_id: channel.to_owned(),
                    agent_id: delegator.to_owned(),
                    message: InboundMessage {
                        id: uuid_text(message_id),
                        source: "system".to_owned(),
                        adapter: None,
                        conversation_id: channel.to_owned(),
                        sender_id: "system".to_owned(),
                        agent_id: Some(delegator.to_owned()),
                        content: MessageContent::Text(text),
                        timestamp: now,
                        metadata: Vec::new(),
                        formatted_author: None,
                    },
                },
            )
        },
        None => None,
    };
    Some(DelegationNotice { delegating_agent_id: delegator.to_owned(), link_message, injection })
}

/// A quoted result is never longer than the limit and the mark behind it.
pub proof fn law_quoted_result_is_short(result: Seq<char>)
    ensures
        byte_len(quoted(result)) <= QUOTED_RESULT_BYTES + byte_len("... [truncated]"@),
{
    crate::text::law_byte_prefix_fits(result, QUOTED_RESULT_BYTES as int);
    crate::text::lemma_byte_len_concat(
        byte_prefix(result, QUOTED_RESULT_BYTES as int),
        "... [truncated]"@,
    );
}

proof fn lemma_subtask_lines(subtasks: Seq<Subtask>, count: int) -> (lines: Seq<Seq<char>>)
    requires
        0 <= count <= subtasks.len(),
    ensures
        lines.len() == count,
        forall|i: int|
            0 <= i < count ==> #[trigger] lines[i] == subtask_line(i + 1, subtasks[i]),
        subtask_lines(subtasks, count) == joined(lines, Seq::empty()),
    decreases count,
{
    if count <= 0 {
        Seq::empty()
    } else {
        let before = lemma_subtask_lines(subtasks, count - 1);
        let lines = before.push(subtask_line(count, subtasks[count - 1]));
        assert(lines.drop_last() =~= before);
        assert(subtask_lines(subtasks, count) =~= joined(lines, Seq::empty()));
        lines
    }
}

/// A worker is told the number and the title of its task, the description where
/// there is one, and each subtask on a line of its own, numbered from one, with
/// whether it is completed. The lines are given back.
pub proof fn law_prompt_tells_the_whole_task(task: Task) -> (lines: Seq<Seq<char>>)
    ensures
        lines.len() == task.subtasks@.len(),
        forall|i: int|
            0 <= i < lines.len() ==> #[trigger] lines[i] == decimal(i + 1) + ". "@ + (
            if task.subtasks@[i].completed {
                "[x]"@
            } else {
                "[ ]"@
            }) + " "@ + task.subtasks@[i].title@ + "\n"@,
        task_prompt(task) == ("Execute task #"@ + decimal(task.task_number as int) + ": "@
            + task.title@ + (if task.description is Some {
            "\n\nDescription:\n"@ + task.description->0@
        } else {
            Seq::empty()
        })) + (if lines.len() > 0 {
            "\n\nSubtasks:\n"@ + joined(lines, Seq::empty())
        } else {
            Seq::empty()
        }),
{
    lemma_subtask_lines(task.subtasks@, task.subtasks@.len() as int)
}

/// A short result is quoted whole, and a long one by its beginning, as far as it
/// fits, with a mark.
pub proof fn law_result_is_quoted(result: Seq<char>)
    ensures
        byte_len(result) <= 500 ==> quoted(result) == result,
        byte_len(result) > 500 ==> {
            let kept = quoted(result).len() - 15;
            &&& 0 <= kept <= result.len()
            &&& quoted(result) == result.take(kept) + "... [truncated]"@
            &&& byte_len(result.take(kept)) <= 500
        },
{
    reveal_strlit("... [truncated]");
    if byte_len(result) > 500 {
        crate::text::law_byte_prefix_fits(result, 500);
        let prefix = byte_prefix(result, 500);
        assert("... [truncated]"@.len() == 15);
        assert(quoted(result).len() - 15 == prefix.len());
        assert(result.take(prefix.len() as int) == prefix);
    }
}

/// What came of a task is told in its own words, and a failure as one.
pub proof fn law_outcome_is_told(outcome: TaskOutcome)
    ensures
        outcome matches TaskOutcome::Finished { result } ==> outcome_text(outcome) == result@,
        outcome matches TaskOutcome::Failed { message, .. } ==> outcome_text(outcome)
            == "Worker failed: "@ + message@,
{
}

/// The record of a task names it and its worker, and of a failure also the error.
pub proof fn law_outcome_is_recorded(
    log: CortexLog,
    task: Task,
    worker_id: WorkerId,
    outcome: TaskOutcome,
)
    requires
        is_outcome_log(log, task, worker_id, outcome),
    ensures
        log.details@[0].0@ == "task_number"@,
        log.details@[0].1 matches Detail::Number(number) && number == task.task_number,
        log.details@[1].0@ == "worker_id"@,
        log.details@[1].1 matches Detail::Text(id) && id@ == uuid_form(worker_id),
        outcome is Finished ==> log.event_type@ == "task_pickup_completed"@ && log.details@.len()
            == 2,
        outcome matches TaskOutcome::Failed { raw, .. } ==> log.event_type@ == "task_pickup_failed"@
            && log.details@.len() == 3 && log.details@[2].0@ == "error"@ && (
        log.details@[2].1 matches Detail::Text(text) && text@ == raw@),
{
}

/// Whoever delegated a task is told its number, its title, who did it, whether it
/// completed or failed, and at the end the result where that is short.
pub proof fn law_delegator_is_told_the_result(
    task: Task,
    result: Seq<char>,
    success: bool,
    executor: Seq<char>,
)
    requires
        byte_len(result) <= 500,
    ensures
        notification_text(task, result, success, executor) == "[System] Delegated task #"@ + decimal(
            task.task_number as int,
        ) + (if success {
            " completed by "@
        } else {
            " failed by "@
        }) + executor + ": \""@ + task.title@ + "\"\n\nResult: "@ + result,
{
    reveal_strlit(" ");
    reveal_strlit(" by ");
    reveal_strlit("completed");
    reveal_strlit("failed");
    reveal_strlit(" completed by ");
    reveal_strlit(" failed by ");
    let start = "[System] Delegated task #"@ + decimal(task.task_number as int);
    let end = executor + ": \""@ + task.title@ + "\"\n\nResult: "@ + result;
    let told = notification_text(task, result, success, executor);
    if success {
        assert(told =~= start + " completed by "@ + end);
        assert(told =~= start + " completed by "@ + executor + ": \""@ + task.title@
            + "\"\n\nResult: "@ + result);
    } else {
        assert(told =~= start + " failed by "@ + end);
        assert(told =~= start + " failed by "@ + executor + ": \""@ + task.title@
            + "\"\n\nResult: "@ + result);
    }
}

/// A system message is brought to the channel it is meant for, in its words, from
/// nobody but the system.
pub proof fn law_injection_reaches_its_channel(
    injection: ChannelInjection,
    channel: Seq<char>,
    agent: Seq<char>,
    text: Seq<char>,
    id: u128,
    now: Timestamp,
)
    requires
        is_system_injection(injection, channel, agent, text, id, now),
    ensures
        injection.conversation_id@ == channel,
        injection.agent_id@ == agent,
        injection.message.conversation_id@ == channel,
        injection.message.source@ == "system"@,
        injection.message.sender_id@ == "system"@,
        injection.message.content matches MessageContent::Text(said) && said@ == text,
        injection.message.agent_id matches Some(of) && of@ == agent,
        injection.message.timestamp == now,
        injection.message.id@ == uuid_form(id),
        injection.message.adapter is None,
        injection.message.metadata@.len() == 0,
        injection.message.formatted_author is None,
{
}

/// A task is called by its number and its title.
pub proof fn law_headline_names_the_task(task: Task)
    ensures
        task_headline(task) == "task #"@ + decimal(task.task_number as int) + ": "@ + task.title@,
{
}

/// The event of a task tells whose it is, which one and what state it is in.
pub proof fn law_task_is_told_of(event: ProcessEvent, agent: AgentId, number: i64, word: Seq<char>)
    requires
        tells_of_task(event, agent, number, word),
    ensures
        event is TaskUpdated,
        event->TaskUpdated_agent_id == agent,
        event->TaskUpdated_task_number == number,
        event->TaskUpdated_status@ == word,
        event->TaskUpdated_action@ == "updated"@,
{
}

/// A task whose worker ends is told of everywhere alike: as a success just where it
/// finished, with its result or what went wrong, and as done or ready again where
/// that was stored.
pub proof fn law_end_of_a_task_is_told(
    task: &Task,
    agent_id: &AgentId,
    worker_id: WorkerId,
    outcome: TaskOutcome,
    stored: bool,
    end: TaskEnd,
)
    requires
        call_ensures(finish_task, (task, agent_id, worker_id, outcome, stored), end),
    ensures
        end.success <==> outcome is Finished,
        outcome matches TaskOutcome::Finished { result } ==> end.result@ == result@,
        outcome matches TaskOutcome::Failed { message, .. } ==> end.result@ == "Worker failed: "@
            + message@,
        end.completed is WorkerComplete,
        end.completed->WorkerComplete_worker_id == worker_id,
        end.completed->WorkerComplete_result@ == end.result@,
        end.completed->WorkerComplete_success == end.success,
        end.completed->WorkerComplete_notify,
        end.run_log is WorkerCompleted,
        end.run_log->WorkerCompleted_result@ == end.result@,
        end.run_log->WorkerCompleted_success == end.success,
        end.updated is Some <==> stored,
        end.updated matches Some(event) ==> event is TaskUpdated && event->TaskUpdated_task_number
            == task.task_number && event->TaskUpdated_status@ == if end.success {
            "done"@
        } else {
            "ready"@
        },
{
}

/// A task that an agent delegated is told of when it ends: to that agent, and in the
/// channel that it was delegated from where that is known. Nobody is told of any
/// other.
pub proof fn law_delegator_is_notified(
    task: &Task,
    result_summary: &str,
    success: bool,
    executor_agent_id: &str,
    agent_names: &Vec<(String, String)>,
    message_id: u128,
    now: Timestamp,
    notice: Option<DelegationNotice>,
)
    requires
        call_ensures(
            notify_delegation_completion,
            (task, result_summary, success, executor_agent_id, agent_names, message_id, now),
            notice,
        ),
    ensures
        notice is Some <==> (member(task.metadata@, "delegating_agent_id"@) matches Some(value) && value
            is Text),
        notice matches Some(told) ==> {
            let delegator = member(task.metadata@, "delegating_agent_id"@)->0->Text_0@;
            &&& told.delegating_agent_id@ == delegator
            &&& told.injection is Some <==> (member(task.metadata@, "originating_channel"@) matches Some(
                value,
            ) && value is Text)
            &&& told.injection matches Some(injection) ==> injection.agent_id@ == delegator
                && injection.conversation_id@ == member(
                task.metadata@,
                "originating_channel"@,
            )->0->Text_0@ && injection.message.content is Text && injection.message.source@
                == "system"@
        },
{
}

} // verus!
