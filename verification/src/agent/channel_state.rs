//! What a channel shares with its tools: which branches and workers it runs.

use crate::agent::message::Message;
use crate::agent::status::{law_first_worker_is_found, worker_position, StatusBlock};
use crate::ids::{uuid_form, uuid_text, AgentId, BranchId, ChannelId, WorkerId};
use std::collections::HashSet;
use vstd::prelude::*;
use vstd::string::*;

verus! {

broadcast use vstd::std_specs::hash::group_hash_axioms;

/// A line for the log of the runs of branches and workers.
#[allow(inconsistent_fields)]
#[derive(Debug, Clone, PartialEq)]
pub enum RunLog {
    BranchStarted { channel_id: ChannelId, branch_id: BranchId, description: String },
    BranchCompleted { branch_id: BranchId, conclusion: String },
    WorkerStarted {
        channel_id: Option<ChannelId>,
        worker_id: WorkerId,
        task: String,
        worker_type: String,
        agent_id: AgentId,
    },
    WorkerStatus { worker_id: WorkerId, status: String },
    WorkerCompleted { worker_id: WorkerId, result: String, success: bool },
}

/// What cancelling a worker asks for.
#[derive(Debug, Clone, PartialEq)]
pub struct CancelledWorker {
    /// Whether there is a task to abort.
    pub abort: bool,
    pub log: RunLog,
}

/// Shared state that channel tools need to act on the channel.
pub struct ChannelState {
    pub channel_id: ChannelId,
    pub agent_id: AgentId,
    pub history: Vec<Message>,
    /// The branches that run.
    pub active_branches: HashSet<BranchId>,
    /// The workers that the channel holds itself.
    pub active_workers: HashSet<WorkerId>,
    /// The workers whose tasks can be aborted.
    pub worker_handles: HashSet<WorkerId>,
    /// The workers that take further input.
    pub worker_inputs: HashSet<WorkerId>,
    pub status_block: StatusBlock,
    /// Message ID to reply to for work spawned in the current turn.
    pub reply_target_message_id: Option<String>,
}

impl ChannelState {
    /// Whether two states differ at most in the branches and workers that run.
    pub open spec fn same_talk(self, other: ChannelState) -> bool {
        &&& self.channel_id == other.channel_id
        &&& self.agent_id == other.agent_id
        &&& self.history == other.history
        &&& self.reply_target_message_id == other.reply_target_message_id
    }

    /// The state of a channel in which nothing was said and nothing runs.
    pub fn new(channel_id: ChannelId, agent_id: AgentId) -> (state: ChannelState)
        ensures
            state.channel_id == channel_id && state.agent_id == agent_id,
            state.history@.len() == 0,
            state.active_branches@ == Set::<BranchId>::empty(),
            state.active_workers@ == Set::<WorkerId>::empty(),
            state.worker_handles@ == Set::<WorkerId>::empty(),
            state.worker_inputs@ == Set::<WorkerId>::empty(),
            state.status_block.wf(),
            state.status_block.active_branches@.len() == 0,
            state.status_block.active_workers@.len() == 0,
            state.status_block.completed_items@.len() == 0,
            state.reply_target_message_id is None,
    {
        ChannelState {
            channel_id,
            agent_id,
            history: Vec::new(),
            active_branches: HashSet::new(),
            active_workers: HashSet::new(),
            worker_handles: HashSet::new(),
            worker_inputs: HashSet::new(),
            status_block: StatusBlock::new(),
            reply_target_message_id: None,
        }
    }

    /// What cancelling a worker gives, and leaves: nothing is known of the worker
    /// any more, whatever else runs goes on.
    pub open spec fn worker_cancelled(
        before: ChannelState,
        worker_id: WorkerId,
        result: Result<CancelledWorker, String>,
        after: ChannelState,
    ) -> bool {
        &&& match result {
            Ok(cancelled) => {
                &&& before.worker_handles@.contains(worker_id) || before.active_workers@.contains(
                    worker_id,
                )
                &&& cancelled.abort == before.worker_handles@.contains(worker_id)
                &&& cancelled.log matches RunLog::WorkerCompleted {
                    worker_id: id,
                    result: text,
                    success,
                } && id == worker_id && text@ == "Worker cancelled"@ && !success
            },
            Err(message) => {
                &&& !before.worker_handles@.contains(worker_id)
                &&& !before.active_workers@.contains(worker_id)
                &&& message@ == "Worker "@ + uuid_form(worker_id) + " not found"@
            },
        }
        &&& after.worker_handles@ == before.worker_handles@.remove(worker_id)
        &&& after.active_workers@ == before.active_workers@.remove(worker_id)
        &&& after.worker_inputs@ == before.worker_inputs@.remove(worker_id)
        &&& after.status_block.active_workers@ == match worker_position(
            before.status_block.active_workers@,
            0,
            worker_id,
        ) {
            Some(i) => before.status_block.active_workers@.remove(i),
            None => before.status_block.active_workers@,
        }
        &&& after.status_block.active_branches@ == before.status_block.active_branches@
        &&& after.status_block.completed_items@ == before.status_block.completed_items@
        &&& after.active_branches@ == before.active_branches@
        &&& after.same_talk(before)
    }

    /// Cancel a running worker and clean up what is known of it.
    pub fn cancel_worker(&mut self, worker_id: WorkerId) -> (result: Result<CancelledWorker, String>)
        ensures
            ChannelState::worker_cancelled(*old(self), worker_id, result, *final(self)),
            old(self).status_block.wf() ==> final(self).status_block.wf(),
    {
        let abort = self.worker_handles.remove(&worker_id);
        let removed = self.active_workers.remove(&worker_id);
        let _input = self.worker_inputs.remove(&worker_id);
        let _shown = self.status_block.remove_worker(worker_id);
        if abort || removed {
            Ok(
                CancelledWorker {
                    abort,
                    log: RunLog::WorkerCompleted {
                        worker_id,
                        result: "Worker cancelled".to_owned(),
                        success: false,
                    },
                },
            )
        } else {
            Err("Worker ".to_owned().concat(uuid_text(worker_id).as_str()).concat(" not found"))
        }
    }

    /// What cancelling a branch gives, and leaves.
    pub open spec fn branch_cancelled(
        before: ChannelState,
        branch_id: BranchId,
        result: Result<(), String>,
        after: ChannelState,
    ) -> bool {
        &&& match result {
            Ok(_) => before.active_branches@.contains(branch_id),
            Err(message) => {
                &&& !before.active_branches@.contains(branch_id)
                &&& message@ == "Branch "@ + uuid_form(branch_id) + " not found"@
            },
        }
        &&& after.active_branches@ == before.active_branches@.remove(branch_id)
        &&& after.active_workers@ == before.active_workers@
        &&& after.worker_handles@ == before.worker_handles@
        &&& after.worker_inputs@ == before.worker_inputs@
        &&& after.status_block == before.status_block
        &&& after.same_talk(before)
    }

    /// Cancel a running branch, whose task is then to be aborted.
    pub fn cancel_branch(&mut self, branch_id: BranchId) -> (result: Result<(), String>)
        ensures
            ChannelState::branch_cancelled(*old(self), branch_id, result, *final(self)),
    {
        if self.active_branches.remove(&branch_id) {
            Ok(())
        } else {
            Err("Branch ".to_owned().concat(uuid_text(branch_id).as_str()).concat(" not found"))
        }
    }
}

/// A worker is cancelled once: whoever cancels it again finds nothing.
pub proof fn law_worker_is_cancelled_once(
    before: ChannelState,
    worker_id: WorkerId,
    first: Result<CancelledWorker, String>,
    middle: ChannelState,
    second: Result<CancelledWorker, String>,
    after: ChannelState,
)
    requires
        ChannelState::worker_cancelled(before, worker_id, first, middle),
        ChannelState::worker_cancelled(middle, worker_id, second, after),
    ensures
        second is Err,
        after.worker_handles@ == middle.worker_handles@,
        after.active_workers@ == middle.active_workers@,
        after.worker_inputs@ == middle.worker_inputs@,
{
}

/// A branch is cancelled once: whoever cancels it again finds nothing.
pub proof fn law_branch_is_cancelled_once(
    before: ChannelState,
    branch_id: BranchId,
    first: Result<(), String>,
    middle: ChannelState,
    second: Result<(), String>,
    after: ChannelState,
)
    requires
        ChannelState::branch_cancelled(before, branch_id, first, middle),
        ChannelState::branch_cancelled(middle, branch_id, second, after),
    ensures
        second is Err,
        after.active_branches@ == middle.active_branches@,
{
}

/// Cancelling one worker or branch leaves every other as it was.
pub proof fn law_cancelling_spares_others(
    before: ChannelState,
    cancelled: u128,
    worker: Result<CancelledWorker, String>,
    after: ChannelState,
    other: u128,
)
    requires
        ChannelState::worker_cancelled(before, cancelled, worker, after),
        other != cancelled,
    ensures
        after.worker_handles@.contains(other) == before.worker_handles@.contains(other),
        after.active_workers@.contains(other) == before.active_workers@.contains(other),
        after.worker_inputs@.contains(other) == before.worker_inputs@.contains(other),
        after.active_branches@ == before.active_branches@,
{
}

/// A worker that is known, by its handle or as an active one, is cancelled: its task
/// is aborted where there is a handle, it is logged as one without success, and it is
/// forgotten. One that is not known is named in the error.
pub proof fn law_known_worker_is_cancelled(
    before: ChannelState,
    worker_id: WorkerId,
    result: Result<CancelledWorker, String>,
    after: ChannelState,
)
    requires
        ChannelState::worker_cancelled(before, worker_id, result, after),
    ensures
        result is Ok <==> before.worker_handles@.contains(worker_id) || before.active_workers@.contains(
            worker_id,
        ),
        result matches Ok(cancelled) ==> cancelled.abort == before.worker_handles@.contains(worker_id)
            && (cancelled.log matches RunLog::WorkerCompleted { worker_id: id, result: said, success }
            && id == worker_id && said@ == "Worker cancelled"@ && !success),
        result matches Err(message) ==> message@ == "Worker "@ + uuid_form(worker_id) + " not found"@,
        !after.worker_handles@.contains(worker_id),
        !after.active_workers@.contains(worker_id),
        !after.worker_inputs@.contains(worker_id),
        after.channel_id == before.channel_id,
        after.agent_id == before.agent_id,
        after.reply_target_message_id == before.reply_target_message_id,
        after.history == before.history,
        after.status_block.completed_items@ == before.status_block.completed_items@,
{
}

/// A cancelled worker is shown no more, and every other one still is.
pub proof fn law_cancelled_worker_is_not_shown(
    before: ChannelState,
    worker_id: WorkerId,
    result: Result<CancelledWorker, String>,
    after: ChannelState,
    at: int,
)
    requires
        ChannelState::worker_cancelled(before, worker_id, result, after),
        0 <= at < before.status_block.active_workers@.len(),
        before.status_block.active_workers@[at].id == worker_id,
        forall|i: int|
            0 <= i < at ==> (#[trigger] before.status_block.active_workers@[i]).id != worker_id,
    ensures
        after.status_block.active_workers@ == before.status_block.active_workers@.remove(at),
        after.status_block.active_branches@ == before.status_block.active_branches@,
{
    law_first_worker_is_found(before.status_block.active_workers@, 0, at, worker_id);
}

/// A branch that runs is cancelled and runs no more; one that does not is named in
/// the error. Nothing else changes.
pub proof fn law_running_branch_is_cancelled(
    before: ChannelState,
    branch_id: BranchId,
    result: Result<(), String>,
    after: ChannelState,
    other: BranchId,
)
    requires
        ChannelState::branch_cancelled(before, branch_id, result, after),
    ensures
        result is Ok <==> before.active_branches@.contains(branch_id),
        result matches Err(message) ==> message@ == "Branch "@ + uuid_form(branch_id) + " not found"@,
        !after.active_branches@.contains(branch_id),
        other != branch_id ==> after.active_branches@.contains(other)
            == before.active_branches@.contains(other),
        after.active_workers@ == before.active_workers@,
        after.worker_handles@ == before.worker_handles@,
        after.worker_inputs@ == before.worker_inputs@,
        after.status_block == before.status_block,
        after.channel_id == before.channel_id,
        after.agent_id == before.agent_id,
        after.history == before.history,
{
}

} // verus!
