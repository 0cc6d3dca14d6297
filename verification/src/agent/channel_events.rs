//! What a channel does with the results of its branches and workers.

use crate::agent::channel::{
    Channel, MemoryPersistenceConfig, PendingResult, RetriggerLimits,
};
use crate::agent::channel_state::RunLog;
use crate::agent::message::{assistant_text, is_assistant_text, Message};
use crate::agent::status::is_updated;
use crate::agent::task_pickup::{quote_result, quoted, status_word};
use crate::assoc::{member, set_member};
use crate::clock::Timestamp;
use crate::events::ProcessEvent;
use crate::ids::{uuid_form, uuid_text, AgentId, BranchId};
use crate::json::{copy_members, JsonValue};
use crate::messages::{InboundMessage, MessageContent, Metadata, REPLY_TO_MESSAGE_ID};
use crate::text::{
    byte_len, clone_option, join, joined, law_joined_keeps_every_part, occurs_at, occurs_in, views,
};
use vstd::prelude::*;
use vstd::string::*;

verus! {

broadcast use vstd::std_specs::hash::group_hash_axioms;

/// A result that is to be told to the user: of which kind of process, of which
/// one, what it says, and whether it is a success.
pub struct FinishedWork {
    pub kind: Seq<char>,
    pub id: u128,
    pub result: Seq<char>,
    pub success: bool,
}

/// The result that an event brings for the user. A branch that persists memories
/// and a worker that is not to notify bring none.
pub open spec fn finished_work(silent: Set<BranchId>, event: ProcessEvent) -> Option<FinishedWork> {
    match event {
        ProcessEvent::BranchResult { branch_id, conclusion, .. } => if silent.contains(branch_id) {
            None
        } else {
            Some(
                FinishedWork {
                    kind: "branch"@,
                    id: branch_id,
                    result: conclusion@,
                    success: true,
                },
            )
        },
        ProcessEvent::WorkerComplete { worker_id, result, notify, success, .. } => if notify {
            Some(FinishedWork { kind: "worker"@, id: worker_id, result: result@, success })
        } else {
            None
        },
        _ => None,
    }
}

/// Whether a pending result is one of finished work.
pub open spec fn is_pending(pending: PendingResult, work: FinishedWork) -> bool {
    &&& pending.process_type@ == work.kind
    &&& pending.process_id@ == uuid_form(work.id)
    &&& pending.result@ == work.result
    &&& pending.success == work.success
}

/// A result as it is left in the history when it can no longer wake the channel.
pub open spec fn background_line(kind: Seq<char>, id: Seq<char>, success: bool, result: Seq<char>) -> Seq<char> {
    "[Background "@ + kind + " "@ + id + " "@ + status_word(success) + "]: "@ + result
}

pub open spec fn background_line_of(pending: PendingResult) -> Seq<char> {
    background_line(
        pending.process_type@,
        pending.process_id@,
        pending.success,
        pending.result@,
    )
}

/// The line of the log that an event leaves.
pub open spec fn run_log_of(event: ProcessEvent, agent: AgentId) -> Option<RunLog> {
    match event {
        ProcessEvent::BranchStarted { branch_id, channel_id, description, .. } => Some(
            RunLog::BranchStarted { channel_id, branch_id, description },
        ),
        ProcessEvent::BranchResult { branch_id, conclusion, .. } => Some(
            RunLog::BranchCompleted { branch_id, conclusion },
        ),
        ProcessEvent::WorkerStarted { worker_id, channel_id, task, worker_type, .. } => Some(
            RunLog::WorkerStarted { channel_id, worker_id, task, worker_type, agent_id: agent },
        ),
        ProcessEvent::WorkerStatus { worker_id, status, .. } => Some(
            RunLog::WorkerStatus { worker_id, status },
        ),
        ProcessEvent::WorkerComplete { worker_id, result, success, .. } => Some(
            RunLog::WorkerCompleted { worker_id, result, success },
        ),
        _ => None,
    }
}

/// The line of the log that an event leaves.
pub fn run_log(event: &ProcessEvent, agent_id: &AgentId) -> (log: Option<RunLog>)
    ensures
        log == run_log_of(*event, *agent_id),
{
    match event {
        ProcessEvent::BranchStarted { branch_id, channel_id, description, .. } => Some(
            RunLog::BranchStarted {
                channel_id: channel_id.clone(),
                branch_id: *branch_id,
                description: description.clone(),
            },
        ),
        ProcessEvent::BranchResult { branch_id, conclusion, .. } => Some(
            RunLog::BranchCompleted { branch_id: *branch_id, conclusion: conclusion.clone() },
        ),
        ProcessEvent::WorkerStarted { worker_id, channel_id, task, worker_type, .. } => Some(
            RunLog::WorkerStarted {
                channel_id: clone_option(channel_id),
                worker_id: *worker_id,
                task: task.clone(),
                worker_type: worker_type.clone(),
                agent_id: agent_id.clone(),
            },
        ),
        ProcessEvent::WorkerStatus { worker_id, status, .. } => Some(
            RunLog::WorkerStatus { worker_id: *worker_id, status: status.clone() },
        ),
        ProcessEvent::WorkerComplete { worker_id, result, success, .. } => Some(
            RunLog::WorkerCompleted {
                worker_id: *worker_id,
                result: result.clone(),
                success: *success,
            },
        ),
        _ => None,
    }
}

/// Whether results were left in a history: one line each, behind what was there.
pub open spec fn is_drained(
    history: Seq<Message>,
    pending: Seq<PendingResult>,
    after: Seq<Message>,
) -> bool {
    &&& after.len() == history.len() + pending.len()
    &&& after.take(history.len() as int) == history
    &&& forall|i: int|
        0 <= i < pending.len() ==> is_assistant_text(
            #[trigger] after[history.len() + i],
            background_line_of(pending[i]),
        )
}

/// Which branches and workers run after an event.
pub open spec fn runs_after(before: Channel, event: ProcessEvent, after: Channel) -> bool {
    match event {
        ProcessEvent::BranchStarted { branch_id, reply_to_message_id, .. } => {
            &&& after.state.active_branches@ == before.state.active_branches@
            &&& after.state.active_workers@ == before.state.active_workers@
            &&& after.state.worker_handles@ == before.state.worker_handles@
            &&& after.state.worker_inputs@ == before.state.worker_inputs@
            &&& after.memory_persistence_branches@ == before.memory_persistence_branches@
            &&& after.branch_reply_targets@ == match reply_to_message_id {
                Some(id) => before.branch_reply_targets@.insert(branch_id, id),
                None => before.branch_reply_targets@,
            }
        },
        ProcessEvent::BranchResult { branch_id, .. } => {
            &&& after.state.active_branches@ == before.state.active_branches@.remove(branch_id)
            &&& after.state.active_workers@ == before.state.active_workers@
            &&& after.state.worker_handles@ == before.state.worker_handles@
            &&& after.state.worker_inputs@ == before.state.worker_inputs@
            &&& after.memory_persistence_branches@ == before.memory_persistence_branches@.remove(
                branch_id,
            )
            &&& after.branch_reply_targets@ == before.branch_reply_targets@.remove(branch_id)
        },
        ProcessEvent::WorkerComplete { worker_id, .. } => {
            &&& after.state.active_branches@ == before.state.active_branches@
            &&& after.state.active_workers@ == before.state.active_workers@.remove(worker_id)
            &&& after.state.worker_handles@ == before.state.worker_handles@.remove(worker_id)
            &&& after.state.worker_inputs@ == before.state.worker_inputs@.remove(worker_id)
            &&& after.memory_persistence_branches@ == before.memory_persistence_branches@
            &&& after.branch_reply_targets@ == before.branch_reply_targets@
        },
        _ => {
            &&& after.state.active_branches@ == before.state.active_branches@
            &&& after.state.active_workers@ == before.state.active_workers@
            &&& after.state.worker_handles@ == before.state.worker_handles@
            &&& after.state.worker_inputs@ == before.state.worker_inputs@
            &&& after.memory_persistence_branches@ == before.memory_persistence_branches@
            &&& after.branch_reply_targets@ == before.branch_reply_targets@
        },
    }
}

/// The message that the result of an event answers, where it is known.
pub open spec fn reply_target(before: Channel, event: ProcessEvent) -> Option<String> {
    match event {
        ProcessEvent::BranchResult { branch_id, .. } => {
            if before.branch_reply_targets@.contains_key(branch_id) {
                Some(before.branch_reply_targets@[branch_id])
            } else {
                None
            }
        },
        _ => None,
    }
}

/// Whether metadata differ at most in what is replied to.
pub open spec fn has_reply_target(before: Metadata, target: Option<String>, after: Metadata) -> bool {
    match target {
        Some(id) => {
            &&& member(after@, REPLY_TO_MESSAGE_ID@) == Some(JsonValue::Text(id))
            &&& forall|name: Seq<char>|
                name != REPLY_TO_MESSAGE_ID@ ==> #[trigger] member(after@, name) == member(
                    before@,
                    name,
                )
        },
        None => after == before,
    }
}

/// What becomes of the results that wait when an event comes in. New work makes
/// the channel wait a little and then wake up; where it was woken up too often
/// already, everything that waits is left in the history instead.
pub open spec fn results_after(
    before: Channel,
    event: ProcessEvent,
    limits: RetriggerLimits,
    now: u64,
    after: Channel,
) -> bool {
    match finished_work(before.memory_persistence_branches@, event) {
        None => {
            &&& after.pending_results == before.pending_results
            &&& after.pending_retrigger == before.pending_retrigger
            &&& after.pending_retrigger_metadata == before.pending_retrigger_metadata
            &&& after.retrigger_deadline == before.retrigger_deadline
            &&& after.state.history == before.state.history
        },
        Some(work) => if before.retrigger_count >= limits.max_per_turn {
            &&& after.pending_results@.len() == 0
            &&& after.pending_retrigger == before.pending_retrigger
            &&& after.pending_retrigger_metadata == before.pending_retrigger_metadata
            &&& after.retrigger_deadline == before.retrigger_deadline
            &&& exists|pending: PendingResult|
                is_pending(pending, work) && is_drained(
                    before.state.history@,
                    #[trigger] before.pending_results@.push(pending),
                    after.state.history@,
                )
        } else {
            &&& after.pending_results@.len() == before.pending_results@.len() + 1
            &&& after.pending_results@.drop_last() == before.pending_results@
            &&& is_pending(after.pending_results@.last(), work)
            &&& after.pending_retrigger
            &&& has_reply_target(
                before.pending_retrigger_metadata,
                reply_target(before, event),
                after.pending_retrigger_metadata,
            )
            &&& after.retrigger_deadline == Some((now + limits.debounce_ms) as u64)
            &&& after.state.history == before.state.history
        },
    }
}

/// What no event changes.
pub open spec fn keeps_conversation(before: Channel, after: Channel) -> bool {
    &&& after.id == before.id
    &&& after.title == before.title
    &&& after.hook == before.hook
    &&& after.state.channel_id == before.state.channel_id
    &&& after.state.agent_id == before.state.agent_id
    &&& after.state.reply_target_message_id == before.state.reply_target_message_id
    &&& after.conversation_id == before.conversation_id
    &&& after.source_adapter == before.source_adapter
    &&& after.conversation_context == before.conversation_context
    &&& after.message_count == before.message_count
    &&& after.coalesce_buffer == before.coalesce_buffer
    &&& after.coalesce_deadline == before.coalesce_deadline
    &&& after.retrigger_count == before.retrigger_count
    &&& after.can_delegate == before.can_delegate
}

/// What became of a message that was to wake the channel up.
#[derive(Debug, Clone, Copy, PartialEq, Eq, Structural)]
pub enum RetriggerOutcome {
    /// It could not be rendered.
    RenderFailed,
    Queued,
    /// The channel's queue has no room.
    Full,
    /// The channel's queue is gone.
    Closed,
}

/// What a retrigger that is due asks for.
#[derive(Debug, Clone, Copy, PartialEq, Eq, Structural)]
pub enum RetriggerStep {
    Nothing,
    /// Render and send a message with the results that wait.
    Send,
}

/// What is left of a retrigger that is due before anything is sent.
pub open spec fn is_begun(before: Channel, after: Channel, step: RetriggerStep) -> bool {
    &&& after == (Channel {
        retrigger_deadline: None,
        pending_retrigger: after.pending_retrigger,
        pending_retrigger_metadata: after.pending_retrigger_metadata,
        pending_results: after.pending_results,
        ..before
    })
    &&& if !before.pending_retrigger {
        &&& step == RetriggerStep::Nothing
        &&& !after.pending_retrigger
        &&& after.pending_retrigger_metadata == before.pending_retrigger_metadata
        &&& after.pending_results == before.pending_results
    } else if before.conversation_id is None || before.pending_results@.len() == 0 {
        &&& step == RetriggerStep::Nothing
        &&& !after.pending_retrigger
        &&& after.pending_retrigger_metadata@.len() == 0
        &&& after.pending_results@.len() == 0
    } else {
        &&& step == RetriggerStep::Send
        &&& after.pending_retrigger
        &&& after.pending_retrigger_metadata == before.pending_retrigger_metadata
        &&& after.pending_results == before.pending_results
    }
}

/// What is left of a retrigger once its message was sent, or could not be.
pub open spec fn is_after_retrigger(
    before: Channel,
    outcome: RetriggerOutcome,
    limits: RetriggerLimits,
    now: u64,
    after: Channel,
) -> bool {
    match outcome {
        RetriggerOutcome::RenderFailed | RetriggerOutcome::Full => after == (Channel {
            retrigger_deadline: Some((now + limits.debounce_ms) as u64),
            ..before
        }),
        RetriggerOutcome::Queued | RetriggerOutcome::Closed => {
            &&& after == (Channel {
                retrigger_count: if outcome == RetriggerOutcome::Queued {
                    (before.retrigger_count + 1) as usize
                } else {
                    before.retrigger_count
                },
                pending_retrigger: false,
                pending_retrigger_metadata: after.pending_retrigger_metadata,
                pending_results: after.pending_results,
                ..before
            })
            &&& after.pending_retrigger_metadata@.len() == 0
            &&& after.pending_results@.len() == 0
        },
    }
}

/// A result in the summary that goes with a retrigger.
pub open spec fn summary_line(pending: PendingResult) -> Seq<char> {
    "["@ + pending.process_type@ + " "@ + pending.process_id@ + " "@ + status_word(pending.success)
        + "]: "@ + quoted(pending.result@)
}

/// The results in the summary that goes with a retrigger.
pub open spec fn summary_lines(pending: Seq<PendingResult>) -> Seq<Seq<char>> {
    Seq::new(pending.len(), |i: int| summary_line(pending[i]))
}

/// The name under which a retrigger carries its summary.
pub const RETRIGGER_RESULT_SUMMARY: &'static str = "retrigger_result_summary";

/// The summary that goes with a retrigger.
pub open spec fn result_summary(pending: Seq<PendingResult>) -> Seq<char> {
    joined(summary_lines(pending), "\n"@)
}

impl Channel {
    fn queue_result(&mut self, process_type: &'static str, id: u128, result: &String, success: bool)
        ensures
            final(self).pending_results@.len() == old(self).pending_results@.len() + 1,
            final(self).pending_results@.drop_last() == old(self).pending_results@,
            is_pending(
                final(self).pending_results@.last(),
                (FinishedWork { kind: process_type@, id, result: result@, success }),
            ),
            *final(self) == (Channel { pending_results: final(self).pending_results, ..*old(self) }),
    {
        self.pending_results.push(
            PendingResult {
                process_type,
                process_id: uuid_text(id),
                result: result.clone(),
                success,
            },
        );
        assert(self.pending_results@.drop_last() =~= old(self).pending_results@);
    }

    /// Leaves all results that wait in the history.
    fn drain_results(&mut self)
        ensures
            is_drained(
                old(self).state.history@,
                old(self).pending_results@,
                final(self).state.history@,
            ),
            final(self).pending_results@.len() == 0,
            final(self).state == (crate::agent::channel_state::ChannelState {
                history: final(self).state.history,
                ..old(self).state
            }),
            *final(self) == (Channel {
                pending_results: final(self).pending_results,
                state: final(self).state,
                ..*old(self)
            }),
    {
        let ghost history = self.state.history@;
        let mut results: Vec<PendingResult> = Vec::new();
        std::mem::swap(&mut results, &mut self.pending_results);
        assert(self.state.history@.take(history.len() as int) =~= history);
        let mut i: usize = 0;
        while i < results.len()
            invariant
                i <= results.len(),
                history == old(self).state.history@,
                results@ == old(self).pending_results@,
                self.state.history@.len() == history.len() + i,
                self.state.history@.take(history.len() as int) == history,
                forall|k: int|
                    0 <= k < i ==> is_assistant_text(
                        #[trigger] self.state.history@[history.len() + k],
                        background_line_of(results@[k]),
                    ),
                self.pending_results@.len() == 0,
                self.state == (crate::agent::channel_state::ChannelState {
                    history: self.state.history,
                    ..old(self).state
                }),
                *self == (Channel {
                    pending_results: self.pending_results,
                    state: self.state,
                    ..*old(self)
                }),
            decreases results.len() - i,
        {
            let pending = &results[i];
            let word = if pending.success {
                "completed"
            } else {
                "failed"
            };
            let line = "[Background ".to_owned().concat(pending.process_type).concat(" ").concat(
                pending.process_id.as_str(),
            ).concat(" ").concat(word).concat("]: ").concat(pending.result.as_str());
            let ghost before = self.state.history@;
            self.state.history.push(assistant_text(line));
            proof {
                let after = self.state.history@;
                assert(after.take(history.len() as int) =~= before.take(history.len() as int));
                assert forall|k: int| 0 <= k < i + 1 implies is_assistant_text(
                    #[trigger] after[history.len() + k],
                    background_line_of(results@[k]),
                ) by {
                    if k < i {
                        assert(after[history.len() + k] == before[history.len() + k]);
                    }
                }
            }
            i = i + 1;
        }
    }

    /// Handle a process event (branch results, worker completions, status
    /// updates). `now` is the time of the monotonic clock, `utc_now` that of the
    /// wall. Gives the line of the log that the event leaves.
    pub fn handle_event(
        &mut self,
        event: &ProcessEvent,
        limits: &RetriggerLimits,
        now: u64,
        utc_now: Timestamp,
    ) -> (log: Option<RunLog>)
        requires
            old(self).wf(),
            old(self).state.status_block.can_count(),
            now + limits.debounce_ms <= u64::MAX,
        ensures
            final(self).wf(),
            log == run_log_of(*event, old(self).state.agent_id),
            is_updated(
                old(self).state.status_block,
                *event,
                utc_now,
                final(self).state.status_block,
            ),
            runs_after(*old(self), *event, *final(self)),
            results_after(*old(self), *event, *limits, now, *final(self)),
            keeps_conversation(*old(self), *final(self)),
    {
        self.state.status_block.update_at(event, utc_now);
        let log = run_log(event, &self.state.agent_id);
        let mut should_retrigger = false;
        let mut target: Option<String> = None;
        match event {
            ProcessEvent::BranchStarted { branch_id, reply_to_message_id, .. } => {
                match reply_to_message_id {
                    Some(message_id) => {
                        let _previous = self.branch_reply_targets.insert(
                            *branch_id,
                            message_id.clone(),
                        );
                    },
                    None => {},
                }
            },
            ProcessEvent::BranchResult { branch_id, conclusion, .. } => {
                let _ran = self.state.active_branches.remove(branch_id);
                let silent = self.memory_persistence_branches.remove(branch_id);
                let replied_to = self.branch_reply_targets.remove(branch_id);
                if !silent {
                    self.queue_result("branch", *branch_id, conclusion, true);
                    should_retrigger = true;
                    target = replied_to;
                }
            },
            ProcessEvent::WorkerComplete { worker_id, result, notify, success, .. } => {
                let _held = self.state.active_workers.remove(worker_id);
                let _handle = self.state.worker_handles.remove(worker_id);
                let _input = self.state.worker_inputs.remove(worker_id);
                if *notify {
                    self.queue_result("worker", *worker_id, result, *success);
                    should_retrigger = true;
                }
            },
            _ => {},
        }
        if should_retrigger {
            if self.retrigger_count >= limits.max_per_turn {
                proof {
                    let pending = self.pending_results@.last();
                    assert(self.pending_results@ =~= old(self).pending_results@.push(pending));
                }
                self.drain_results();
            } else {
                self.pending_retrigger = true;
                match target {
                    Some(message_id) => {
                        set_member(
                            &mut self.pending_retrigger_metadata,
                            REPLY_TO_MESSAGE_ID.to_owned(),
                            JsonValue::Text(message_id),
                        );
                    },
                    None => {},
                }
                self.retrigger_deadline = Some(now + limits.debounce_ms);
            }
        }
        log
    }

    /// The pending retrigger is due: forgets it where there is nothing to tell or
    /// nobody to tell it to.
    pub fn begin_retrigger(&mut self) -> (step: RetriggerStep)
        requires
            old(self).wf(),
        ensures
            final(self).wf(),
            is_begun(*old(self), *final(self), step),
    {
        self.retrigger_deadline = None;
        if !self.pending_retrigger {
            return RetriggerStep::Nothing;
        }
        if self.conversation_id.is_none() || self.pending_results.len() == 0 {
            self.pending_retrigger = false;
            self.pending_retrigger_metadata = Vec::new();
            self.pending_results = Vec::new();
            return RetriggerStep::Nothing;
        }
        RetriggerStep::Send
    }

    fn summarize_results(&self) -> (summary: String)
        ensures
            summary@ == result_summary(self.pending_results@),
    {
        let mut lines: Vec<String> = Vec::new();
        let mut i: usize = 0;
        while i < self.pending_results.len()
            invariant
                i <= self.pending_results.len(),
                lines@.len() == i,
                forall|k: int|
                    0 <= k < i ==> (#[trigger] lines@[k])@ == summary_line(
                        self.pending_results@[k],
                    ),
            decreases self.pending_results.len() - i,
        {
            let pending = &self.pending_results[i];
            let word = if pending.success {
                "completed"
            } else {
                "failed"
            };
            lines.push(
                "[".to_owned().concat(pending.process_type).concat(" ").concat(
                    pending.process_id.as_str(),
                ).concat(" ").concat(word).concat("]: ").concat(
                    quote_result(pending.result.as_str()).as_str(),
                ),
            );
            i = i + 1;
        }
        assert(views(lines@) =~= summary_lines(self.pending_results@));
        join(&lines, "\n")
    }

    /// The message that wakes the channel up: a rendered text with the results
    /// that wait, and a summary of them for the history. `message_id` is a fresh
    /// identifier.
    pub fn retrigger_message(&self, rendered: String, message_id: u128, utc_now: Timestamp) -> (message: Option<
        InboundMessage,
    >)
        ensures
            match (self.conversation_id, message) {
                (None, None) => true,
                (Some(conversation), Some(synthetic)) => {
                    &&& synthetic.id@ == uuid_form(message_id)
                    &&& synthetic.source@ == "system"@
                    &&& synthetic.adapter is None
                    &&& synthetic.conversation_id == conversation
                    &&& synthetic.sender_id@ == "system"@
                    &&& synthetic.agent_id is None
                    &&& synthetic.content == MessageContent::Text(rendered)
                    &&& synthetic.timestamp == utc_now
                    &&& synthetic.formatted_author is None
                    &&& carries_summary(
                        synthetic.metadata,
                        self.pending_retrigger_metadata,
                        self.pending_results@,
                    )
                },
                _ => false,
            },
    {
        match &self.conversation_id {
            Some(conversation_id) => {
                let summary = self.summarize_results();
                let mut metadata = copy_members(&self.pending_retrigger_metadata);
                set_member(
                    &mut metadata,
                    RETRIGGER_RESULT_SUMMARY.to_owned(),
                    JsonValue::Text(summary),
                );
                Some(
                    InboundMessage {
                        id: uuid_text(message_id),
                        source: "system".to_owned(),
                        adapter: None,
                        conversation_id: conversation_id.clone(),
                        sender_id: "system".to_owned(),
                        agent_id: None,
                        content: MessageContent::Text(rendered),
                        timestamp: utc_now,
                        metadata,
                        formatted_author: None,
                    },
                )
            },
            None => None,
        }
    }

    /// The message that was to wake the channel up was sent, or could not be. The
    /// results that wait are only forgotten once they are queued, or nobody
    /// listens any more.
    pub fn finish_retrigger(&mut self, outcome: RetriggerOutcome, limits: &RetriggerLimits, now: u64)
        requires
            old(self).wf(),
            now + limits.debounce_ms <= u64::MAX,
            outcome == RetriggerOutcome::Queued ==> old(self).retrigger_count < usize::MAX,
        ensures
            final(self).wf(),
            is_after_retrigger(*old(self), outcome, *limits, now, *final(self)),
    {
        match outcome {
            RetriggerOutcome::RenderFailed | RetriggerOutcome::Full => {
                self.retrigger_deadline = Some(now + limits.debounce_ms);
            },
            RetriggerOutcome::Queued => {
                self.retrigger_count = self.retrigger_count + 1;
                self.pending_retrigger = false;
                self.pending_retrigger_metadata = Vec::new();
                self.pending_results = Vec::new();
            },
            RetriggerOutcome::Closed => {
                self.pending_retrigger = false;
                self.pending_retrigger_metadata = Vec::new();
                self.pending_results = Vec::new();
            },
        }
    }

    /// Check if a memory persistence branch should be spawned based on message
    /// count. Where it is, the count starts anew.
    pub fn check_memory_persistence(&mut self, config: &MemoryPersistenceConfig) -> (spawn: bool)
        ensures
            spawn == (config.enabled && config.message_interval != 0 && old(self).message_count
                >= config.message_interval),
            *final(self) == (Channel {
                message_count: if spawn {
                    0
                } else {
                    old(self).message_count
                },
                ..*old(self)
            }),
    {
        if !config.enabled || config.message_interval == 0 {
            return false;
        }
        if self.message_count < config.message_interval {
            return false;
        }
        self.message_count = 0;
        true
    }

    /// A memory persistence branch was spawned. Its result will stay silent.
    pub fn memory_branch_spawned(&mut self, branch_id: BranchId)
        ensures
            final(self).memory_persistence_branches@ == old(
                self,
            ).memory_persistence_branches@.insert(branch_id),
            *final(self) == (Channel {
                memory_persistence_branches: final(self).memory_persistence_branches,
                ..*old(self)
            }),
    {
        let _new = self.memory_persistence_branches.insert(branch_id);
    }
}

/// Whether metadata are others with a summary of results.
pub open spec fn carries_summary(
    metadata: Metadata,
    pending_metadata: Metadata,
    pending: Seq<PendingResult>,
) -> bool {
    &&& member(metadata@, RETRIGGER_RESULT_SUMMARY@) matches Some(JsonValue::Text(summary))
        && summary@ == result_summary(pending)
    &&& forall|name: Seq<char>|
        name != RETRIGGER_RESULT_SUMMARY@ ==> #[trigger] member(metadata@, name) == member(
            pending_metadata@,
            name,
        )
}

/// A channel is never woken up more often without a message from the user than
/// it may be.
pub proof fn law_retriggers_are_capped(
    before: Channel,
    event: ProcessEvent,
    outcome: RetriggerOutcome,
    limits: RetriggerLimits,
    now: u64,
    middle: Channel,
    begun: Channel,
    step: RetriggerStep,
    after: Channel,
)
    requires
        before.within_cap(limits.max_per_turn),
        results_after(before, event, limits, now, middle),
        keeps_conversation(before, middle),
        is_begun(middle, begun, step),
        step == RetriggerStep::Send,
        is_after_retrigger(begun, outcome, limits, now, after),
    ensures
        middle.within_cap(limits.max_per_turn),
        begun.within_cap(limits.max_per_turn),
        after.within_cap(limits.max_per_turn),
{
}

/// Results are never lost on the way: where the message cannot be rendered or
/// queued right now, all of them still wait, and the channel tries again.
pub proof fn law_results_survive_failures(
    before: Channel,
    outcome: RetriggerOutcome,
    limits: RetriggerLimits,
    now: u64,
    after: Channel,
)
    requires
        before.pending_retrigger,
        is_after_retrigger(before, outcome, limits, now, after),
        outcome == RetriggerOutcome::RenderFailed || outcome == RetriggerOutcome::Full,
    ensures
        after.pending_results == before.pending_results,
        after.pending_retrigger,
        after.retrigger_deadline is Some,
{
}

proof fn lemma_part_occurs(parts: Seq<Seq<char>>, separator: Seq<char>, at: int)
    requires
        0 <= at < parts.len(),
    ensures
        occurs_in(parts[at], joined(parts, separator)),
    decreases parts.len(),
{
    let whole = joined(parts, separator);
    if parts.len() == 1 {
        assert(whole.subrange(0, parts[0].len() as int) =~= parts[0]);
        assert(occurs_at(parts[at], whole, 0));
    } else if at == parts.len() - 1 {
        let head = joined(parts.drop_last(), separator) + separator;
        assert(whole.subrange(head.len() as int, whole.len() as int) =~= parts[at]);
        assert(occurs_at(parts[at], whole, head.len() as int));
    } else {
        let shorter = parts.drop_last();
        let head = joined(shorter, separator);
        lemma_part_occurs(shorter, separator, at);
        assert(shorter[at] == parts[at]);
        let k = choose|k: int| #[trigger] occurs_at(parts[at], head, k);
        assert(whole.subrange(k, k + parts[at].len()) =~= head.subrange(k, k + parts[at].len()));
        assert(occurs_at(parts[at], whole, k));
    }
}

/// The summary that goes with a retrigger names every result that waits.
pub proof fn law_summary_names_every_result(pending: Seq<PendingResult>, at: int)
    requires
        0 <= at < pending.len(),
    ensures
        occurs_in(summary_line(pending[at]), result_summary(pending)),
{
    lemma_part_occurs(summary_lines(pending), "\n"@, at);
}

/// The result of a branch that persists memories never reaches the user.
pub proof fn law_memory_branches_stay_silent(
    before: Channel,
    event: ProcessEvent,
    limits: RetriggerLimits,
    now: u64,
    after: Channel,
)
    requires
        event is BranchResult,
        before.memory_persistence_branches@.contains(event->BranchResult_branch_id),
        results_after(before, event, limits, now, after),
    ensures
        after.pending_results == before.pending_results,
        after.state.history == before.state.history,
        after.pending_retrigger == before.pending_retrigger,
{
}

/// Whether a message is the assistant saying that work in the background
/// completed or failed, and what came of it.
pub open spec fn tells_of_work(
    message: Message,
    kind: Seq<char>,
    id: Seq<char>,
    success: bool,
    result: Seq<char>,
) -> bool {
    message matches Message::Assistant { content, .. } && content@.len() == 1 && content@[0] is Text
        && content@[0]->Text_0@ == "[Background "@ + kind + " "@ + id + (if success {
        " completed]: "@
    } else {
        " failed]: "@
    }) + result
}

proof fn lemma_background_line(message: Message, pending: PendingResult)
    requires
        is_assistant_text(message, background_line_of(pending)),
    ensures
        tells_of_work(
            message,
            pending.process_type@,
            pending.process_id@,
            pending.success,
            pending.result@,
        ),
{
    reveal_strlit(" ");
    reveal_strlit("]: ");
    reveal_strlit("completed");
    reveal_strlit("failed");
    reveal_strlit(" completed]: ");
    reveal_strlit(" failed]: ");
    let start = "[Background "@ + pending.process_type@ + " "@ + pending.process_id@;
    if pending.success {
        assert(background_line_of(pending) =~= start + " completed]: "@ + pending.result@);
    } else {
        assert(background_line_of(pending) =~= start + " failed]: "@ + pending.result@);
    }
}

proof fn lemma_drained(
    history: Seq<Message>,
    pending: Seq<PendingResult>,
    after: Seq<Message>,
    i: int,
)
    requires
        is_drained(history, pending, after),
        0 <= i < pending.len(),
    ensures
        tells_of_work(
            after[history.len() + i],
            pending[i].process_type@,
            pending[i].process_id@,
            pending[i].success,
            pending[i].result@,
        ),
{
    assert(is_assistant_text(after[history.len() + i], background_line_of(pending[i])));
    lemma_background_line(after[history.len() + i], pending[i]);
}

/// The result of a worker that is to notify, whether it is a success or not, waits
/// for the user behind those that wait already, and the channel will wake up. Where
/// it may not wake up again, the last message of the history tells the result.
pub proof fn law_worker_result_is_told(
    before: Channel,
    event: ProcessEvent,
    limits: RetriggerLimits,
    now: u64,
    after: Channel,
)
    requires
        event is WorkerComplete,
        event->WorkerComplete_notify,
        results_after(before, event, limits, now, after),
        now + limits.debounce_ms <= u64::MAX,
    ensures
        before.retrigger_count < limits.max_per_turn ==> {
            let last = after.pending_results@[before.pending_results@.len() as int];
            &&& after.pending_results@.len() == before.pending_results@.len() + 1
            &&& forall|i: int|
                0 <= i < before.pending_results@.len() ==> #[trigger] after.pending_results@[i]
                    == before.pending_results@[i]
            &&& last.process_type@ == "worker"@
            &&& last.process_id@ == uuid_form(event->WorkerComplete_worker_id)
            &&& last.result@ == event->WorkerComplete_result@
            &&& last.success == event->WorkerComplete_success
            &&& after.pending_retrigger
            &&& after.retrigger_deadline matches Some(at) && at == now + limits.debounce_ms
            &&& after.state.history@ == before.state.history@
        },
        before.retrigger_count >= limits.max_per_turn ==> {
            &&& after.pending_results@.len() == 0
            &&& after.pending_retrigger == before.pending_retrigger
            &&& after.pending_retrigger_metadata@ == before.pending_retrigger_metadata@
            &&& after.retrigger_deadline == before.retrigger_deadline
            &&& after.state.history@.len() == before.state.history@.len()
                + before.pending_results@.len() + 1
            &&& forall|i: int|
                0 <= i < before.state.history@.len() ==> #[trigger] after.state.history@[i]
                    == before.state.history@[i]
            &&& tells_of_work(
                after.state.history@.last(),
                "worker"@,
                uuid_form(event->WorkerComplete_worker_id),
                event->WorkerComplete_success,
                event->WorkerComplete_result@,
            )
        },
{
    let waiting = before.pending_results@;
    if before.retrigger_count < limits.max_per_turn {
        assert forall|i: int| 0 <= i < waiting.len() implies #[trigger] after.pending_results@[i]
            == waiting[i] by {
            assert(after.pending_results@.drop_last()[i] == waiting[i]);
        }
    } else {
        lemma_told_past_the_cap(before, event, limits, now, after);
    }
}

proof fn lemma_told_past_the_cap(
    before: Channel,
    event: ProcessEvent,
    limits: RetriggerLimits,
    now: u64,
    after: Channel,
)
    requires
        finished_work(before.memory_persistence_branches@, event) is Some,
        results_after(before, event, limits, now, after),
        before.retrigger_count >= limits.max_per_turn,
    ensures
        after.state.history@.len() == before.state.history@.len() + before.pending_results@.len() + 1,
        forall|i: int|
            0 <= i < before.state.history@.len() ==> #[trigger] after.state.history@[i]
                == before.state.history@[i],
        forall|i: int|
            0 <= i < before.pending_results@.len() ==> tells_of_work(
                after.state.history@[before.state.history@.len() + i],
                (#[trigger] before.pending_results@[i]).process_type@,
                before.pending_results@[i].process_id@,
                before.pending_results@[i].success,
                before.pending_results@[i].result@,
            ),
        ({
            let work = finished_work(before.memory_persistence_branches@, event)->0;
            tells_of_work(
                after.state.history@.last(),
                work.kind,
                uuid_form(work.id),
                work.success,
                work.result,
            )
        }),
{
    let work = finished_work(before.memory_persistence_branches@, event)->0;
    let history = before.state.history@;
    let waiting = before.pending_results@;
    let told = after.state.history@;
    let pending = choose|pending: PendingResult|
        is_pending(pending, work) && is_drained(history, #[trigger] waiting.push(pending), told);
    let all = waiting.push(pending);
    lemma_drained(history, all, told, waiting.len() as int);
    assert forall|i: int| 0 <= i < history.len() implies #[trigger] told[i] == history[i] by {
        assert(told.take(history.len() as int)[i] == told[i]);
    }
    assert forall|i: int| 0 <= i < waiting.len() implies tells_of_work(
        told[history.len() + i],
        (#[trigger] waiting[i]).process_type@,
        waiting[i].process_id@,
        waiting[i].success,
        waiting[i].result@,
    ) by {
        lemma_drained(history, all, told, i);
        assert(all[i] == waiting[i]);
    }
}

/// The conclusion of a branch, unless it is one that persists memories, waits for
/// the user behind those that wait already, and the channel will wake up. Where it
/// may not wake up again, the last message of the history tells the conclusion.
pub proof fn law_branch_result_is_told(
    before: Channel,
    event: ProcessEvent,
    limits: RetriggerLimits,
    now: u64,
    after: Channel,
)
    requires
        event is BranchResult,
        !before.memory_persistence_branches@.contains(event->BranchResult_branch_id),
        results_after(before, event, limits, now, after),
        now + limits.debounce_ms <= u64::MAX,
    ensures
        before.retrigger_count < limits.max_per_turn ==> {
            let last = after.pending_results@[before.pending_results@.len() as int];
            &&& after.pending_results@.len() == before.pending_results@.len() + 1
            &&& forall|i: int|
                0 <= i < before.pending_results@.len() ==> #[trigger] after.pending_results@[i]
                    == before.pending_results@[i]
            &&& last.process_type@ == "branch"@
            &&& last.process_id@ == uuid_form(event->BranchResult_branch_id)
            &&& last.result@ == event->BranchResult_conclusion@
            &&& last.success
            &&& after.pending_retrigger
            &&& after.retrigger_deadline matches Some(at) && at == now + limits.debounce_ms
            &&& after.state.history@ == before.state.history@
        },
        before.retrigger_count >= limits.max_per_turn ==> {
            &&& after.pending_results@.len() == 0
            &&& after.pending_retrigger == before.pending_retrigger
            &&& after.pending_retrigger_metadata@ == before.pending_retrigger_metadata@
            &&& after.retrigger_deadline == before.retrigger_deadline
            &&& after.state.history@.len() == before.state.history@.len()
                + before.pending_results@.len() + 1
            &&& forall|i: int|
                0 <= i < before.state.history@.len() ==> #[trigger] after.state.history@[i]
                    == before.state.history@[i]
            &&& tells_of_work(
                after.state.history@.last(),
                "branch"@,
                uuid_form(event->BranchResult_branch_id),
                true,
                event->BranchResult_conclusion@,
            )
        },
{
    let waiting = before.pending_results@;
    if before.retrigger_count < limits.max_per_turn {
        assert forall|i: int| 0 <= i < waiting.len() implies #[trigger] after.pending_results@[i]
            == waiting[i] by {
            assert(after.pending_results@.drop_last()[i] == waiting[i]);
        }
    } else {
        lemma_told_past_the_cap(before, event, limits, now, after);
    }
}

/// No result that waits is ever lost to a new one: it still waits in its place, or
/// the history tells it.
pub proof fn law_waiting_results_are_not_lost(
    before: Channel,
    event: ProcessEvent,
    limits: RetriggerLimits,
    now: u64,
    after: Channel,
    i: int,
)
    requires
        results_after(before, event, limits, now, after),
        0 <= i < before.pending_results@.len(),
    ensures
        ({
            let pending = before.pending_results@[i];
            ||| i < after.pending_results@.len() && after.pending_results@[i] == pending
            ||| tells_of_work(
                after.state.history@[before.state.history@.len() + i],
                pending.process_type@,
                pending.process_id@,
                pending.success,
                pending.result@,
            )
        }),
{
    if finished_work(before.memory_persistence_branches@, event) is Some {
        if before.retrigger_count >= limits.max_per_turn {
            lemma_told_past_the_cap(before, event, limits, now, after);
            assert(before.pending_results@[i] == before.pending_results@[i]);
        } else {
            assert(after.pending_results@.drop_last()[i] == after.pending_results@[i]);
        }
    }
}

/// A worker that is not to notify, and an event that ends no work, bring the user
/// nothing.
pub proof fn law_other_events_tell_nothing(
    before: Channel,
    event: ProcessEvent,
    limits: RetriggerLimits,
    now: u64,
    after: Channel,
)
    requires
        !(event is BranchResult),
        event is WorkerComplete ==> !event->WorkerComplete_notify,
        results_after(before, event, limits, now, after),
    ensures
        after.pending_results@ == before.pending_results@,
        after.pending_retrigger == before.pending_retrigger,
        after.pending_retrigger_metadata@ == before.pending_retrigger_metadata@,
        after.retrigger_deadline == before.retrigger_deadline,
        after.state.history@ == before.state.history@,
{
}

/// Work that ended no longer runs, and all other work goes on.
pub proof fn law_finished_work_no_longer_runs(
    before: Channel,
    event: ProcessEvent,
    after: Channel,
    other: u128,
)
    requires
        runs_after(before, event, after),
    ensures
        event is BranchResult ==> !after.state.active_branches@.contains(
            event->BranchResult_branch_id,
        ) && !after.memory_persistence_branches@.contains(event->BranchResult_branch_id)
            && !after.branch_reply_targets@.contains_key(event->BranchResult_branch_id),
        event is WorkerComplete ==> !after.state.active_workers@.contains(
            event->WorkerComplete_worker_id,
        ) && !after.state.worker_handles@.contains(event->WorkerComplete_worker_id)
            && !after.state.worker_inputs@.contains(event->WorkerComplete_worker_id),
        !(event is BranchResult) || event->BranchResult_branch_id != other
            ==> after.state.active_branches@.contains(other)
            == before.state.active_branches@.contains(other)
            && after.memory_persistence_branches@.contains(other)
            == before.memory_persistence_branches@.contains(other),
        !(event is WorkerComplete) || event->WorkerComplete_worker_id != other
            ==> after.state.active_workers@.contains(other)
            == before.state.active_workers@.contains(other) && after.state.worker_handles@.contains(
            other,
        ) == before.state.worker_handles@.contains(other) && after.state.worker_inputs@.contains(
            other,
        ) == before.state.worker_inputs@.contains(other),
{
}

/// The conclusion of a branch that was started for a message is sent as a reply to
/// that message.
pub proof fn law_branch_answers_its_message(
    before: Channel,
    started: ProcessEvent,
    middle: Channel,
    ended: ProcessEvent,
    limits: RetriggerLimits,
    now: u64,
    after: Channel,
    id: String,
)
    requires
        started is BranchStarted,
        started->BranchStarted_reply_to_message_id == Some(id),
        runs_after(before, started, middle),
        ended is BranchResult,
        ended->BranchResult_branch_id == started->BranchStarted_branch_id,
        !middle.memory_persistence_branches@.contains(ended->BranchResult_branch_id),
        middle.retrigger_count < limits.max_per_turn,
        results_after(middle, ended, limits, now, after),
    ensures
        member(after.pending_retrigger_metadata@, REPLY_TO_MESSAGE_ID@) == Some(JsonValue::Text(id)),
        forall|name: Seq<char>|
            name != REPLY_TO_MESSAGE_ID@ ==> #[trigger] member(
                after.pending_retrigger_metadata@,
                name,
            ) == member(middle.pending_retrigger_metadata@, name),
{
}

/// An event of a branch or a worker is logged with the identifier, the texts and
/// the flag that it carries.
pub proof fn law_run_is_logged(event: ProcessEvent, agent: AgentId)
    ensures
        event is BranchStarted ==> (run_log_of(event, agent) matches Some(
            RunLog::BranchStarted { channel_id, branch_id, description },
        ) && channel_id == event->BranchStarted_channel_id && branch_id
            == event->BranchStarted_branch_id && description
            == event->BranchStarted_description),
        event is BranchResult ==> (run_log_of(event, agent) matches Some(
            RunLog::BranchCompleted { branch_id, conclusion },
        ) && branch_id == event->BranchResult_branch_id && conclusion
            == event->BranchResult_conclusion),
        event is WorkerStarted ==> (run_log_of(event, agent) matches Some(
            RunLog::WorkerStarted { channel_id, worker_id, task, worker_type, agent_id },
        ) && channel_id == event->WorkerStarted_channel_id && worker_id
            == event->WorkerStarted_worker_id && task == event->WorkerStarted_task && worker_type
            == event->WorkerStarted_worker_type && agent_id == agent),
        event is WorkerStatus ==> (run_log_of(event, agent) matches Some(
            RunLog::WorkerStatus { worker_id, status },
        ) && worker_id == event->WorkerStatus_worker_id && status == event->WorkerStatus_status),
        event is WorkerComplete ==> (run_log_of(event, agent) matches Some(
            RunLog::WorkerCompleted { worker_id, result, success },
        ) && worker_id == event->WorkerComplete_worker_id && result
            == event->WorkerComplete_result && success == event->WorkerComplete_success),
        run_log_of(event, agent) is Some <==> event is BranchStarted || event is BranchResult
            || event is WorkerStarted || event is WorkerStatus || event is WorkerComplete,
{
}

/// A retrigger that is due is sent just where results wait and the conversation is
/// known, and keeps all of them until it was sent.
pub proof fn law_due_retrigger_is_sent(before: Channel, after: Channel, step: RetriggerStep)
    requires
        is_begun(before, after, step),
    ensures
        step == RetriggerStep::Send <==> before.pending_retrigger && before.conversation_id is Some
            && before.pending_results@.len() > 0,
        step == RetriggerStep::Send ==> after.pending_results@ == before.pending_results@
            && after.pending_retrigger && after.pending_retrigger_metadata@
            == before.pending_retrigger_metadata@,
        !before.pending_retrigger ==> !after.pending_retrigger && after.pending_results@
            == before.pending_results@ && after.pending_retrigger_metadata@
            == before.pending_retrigger_metadata@,
        before.pending_retrigger && step == RetriggerStep::Nothing ==> !after.pending_retrigger
            && after.pending_results@.len() == 0 && after.pending_retrigger_metadata@.len() == 0,
        after.retrigger_deadline is None,
        after.retrigger_count == before.retrigger_count,
        after.state == before.state,
{
}

/// A retrigger that was sent is counted, and one that was sent or that nobody
/// listens to leaves nothing waiting. Another counts for nothing, keeps what waits
/// and is tried again after the pause.
pub proof fn law_sent_retrigger_is_counted(
    before: Channel,
    outcome: RetriggerOutcome,
    limits: RetriggerLimits,
    now: u64,
    after: Channel,
)
    requires
        is_after_retrigger(before, outcome, limits, now, after),
        now + limits.debounce_ms <= u64::MAX,
        before.retrigger_count < usize::MAX,
    ensures
        after.retrigger_count == before.retrigger_count + if outcome == RetriggerOutcome::Queued {
            1int
        } else {
            0
        },
        outcome == RetriggerOutcome::Queued || outcome == RetriggerOutcome::Closed
            ==> after.pending_results@.len() == 0 && !after.pending_retrigger
            && after.pending_retrigger_metadata@.len() == 0,
        outcome == RetriggerOutcome::Full || outcome == RetriggerOutcome::RenderFailed
            ==> after.pending_results@ == before.pending_results@ && after.pending_retrigger
            == before.pending_retrigger && after.pending_retrigger_metadata@
            == before.pending_retrigger_metadata@ && (after.retrigger_deadline matches Some(at) && at == now
            + limits.debounce_ms),
        after.state == before.state,
        after.conversation_id == before.conversation_id,
{
}

/// The summary that a retrigger carries has a line for every result that waits, in
/// order, which tells the process, whether it completed or failed, and the result
/// where that is short.
pub proof fn law_summary_tells_every_result(
    metadata: Metadata,
    pending_metadata: Metadata,
    pending: Seq<PendingResult>,
    at: int,
    summary: String,
)
    requires
        carries_summary(metadata, pending_metadata, pending),
        member(metadata@, "retrigger_result_summary"@) == Some(JsonValue::Text(summary)),
        0 <= at < pending.len(),
        byte_len(pending[at].result@) <= 500,
    ensures
        ({
            let line = "["@ + pending[at].process_type@ + " "@ + pending[at].process_id@ + (
            if pending[at].success {
                " completed]: "@
            } else {
                " failed]: "@
            }) + pending[at].result@;
            let behind = result_summary(pending.skip(at + 1));
            summary@ == result_summary(pending.take(at)) + (if at == 0 {
                ""@
            } else {
                "\n"@
            }) + line + (if at == pending.len() - 1 {
                ""@
            } else {
                "\n"@ + behind
            })
        }),
{
    reveal_strlit("");
    reveal_strlit(" ");
    reveal_strlit("]: ");
    reveal_strlit("completed");
    reveal_strlit("failed");
    reveal_strlit(" completed]: ");
    reveal_strlit(" failed]: ");
    let lines = summary_lines(pending);
    law_joined_keeps_every_part(lines, "\n"@, at);
    assert(lines.take(at) =~= summary_lines(pending.take(at)));
    assert(lines.skip(at + 1) =~= summary_lines(pending.skip(at + 1)));
    let start = "["@ + pending[at].process_type@ + " "@ + pending[at].process_id@;
    if pending[at].success {
        assert(lines[at] =~= start + " completed]: "@ + pending[at].result@);
    } else {
        assert(lines[at] =~= start + " failed]: "@ + pending[at].result@);
    }
    assert(""@ =~= Seq::<char>::empty());
}

/// A retrigger carries all that was noted for it beside the summary.
pub proof fn law_summary_keeps_what_was_noted(
    metadata: Metadata,
    pending_metadata: Metadata,
    pending: Seq<PendingResult>,
    name: Seq<char>,
)
    requires
        carries_summary(metadata, pending_metadata, pending),
        name != "retrigger_result_summary"@,
    ensures
        member(metadata@, name) == member(pending_metadata@, name),
{
}

} // verus!
