//! Live status snapshot for channels.

use crate::clock::{hour_minute, hour_minute_second, now, time_text, Timestamp};
use crate::events::{ProcessEvent, ProcessId};
use crate::ids::{uuid_form, uuid_text, BranchId, WorkerId};
use crate::text::{
    byte_len, byte_prefix, decimal, exceeds_bytes, joined, law_joined_keeps_every_part,
    truncate_to_bytes, u64_text,
};
use vstd::prelude::*;
use vstd::string::*;

verus! {

/// Live status block injected into channel context.
#[derive(Debug, Clone)]
pub struct StatusBlock {
    /// Currently running branches.
    pub active_branches: Vec<BranchStatus>,
    /// Currently running workers.
    pub active_workers: Vec<WorkerStatus>,
    /// Recently completed work.
    pub completed_items: Vec<CompletedItem>,
}

/// Status of an active branch.
#[derive(Debug, Clone)]
pub struct BranchStatus {
    pub id: BranchId,
    pub started_at: Timestamp,
    pub description: String,
}

/// Status of an active worker.
#[derive(Debug, Clone)]
pub struct WorkerStatus {
    pub id: WorkerId,
    pub task: String,
    pub status: String,
    pub started_at: Timestamp,
    pub notify_on_complete: bool,
    pub tool_calls: usize,
}

/// Recently completed work item.
#[derive(Debug, Clone)]
pub struct CompletedItem {
    pub id: String,
    pub item_type: CompletedItemType,
    pub description: String,
    pub completed_at: Timestamp,
    pub result_summary: String,
}

/// Type of completed item.
#[derive(Debug, Clone, Copy, PartialEq, Eq, Structural)]
pub enum CompletedItemType {
    Branch,
    Worker,
}

/// The most items that a finished branch leaves in the list, where there were no
/// more before.
pub const MAX_COMPLETED_ITEMS: usize = 10;

/// The position of the first worker with an identifier, from `from` on.
pub open spec fn worker_position(workers: Seq<WorkerStatus>, from: int, id: WorkerId) -> Option<int>
    decreases workers.len() - from,
{
    if from < 0 || from >= workers.len() {
        None
    } else if workers[from].id == id {
        Some(from)
    } else {
        worker_position(workers, from + 1, id)
    }
}

/// The position of the first branch with an identifier, from `from` on.
pub open spec fn branch_position(branches: Seq<BranchStatus>, from: int, id: BranchId) -> Option<int>
    decreases branches.len() - from,
{
    if from < 0 || from >= branches.len() {
        None
    } else if branches[from].id == id {
        Some(from)
    } else {
        branch_position(branches, from + 1, id)
    }
}

/// Whether an item is the record of finished work.
pub open spec fn is_record(
    item: CompletedItem,
    id: u128,
    item_type: CompletedItemType,
    description: String,
    now: Timestamp,
    result: String,
) -> bool {
    &&& item.id@ == uuid_form(id)
    &&& item.item_type == item_type
    &&& item.description == description
    &&& item.completed_at == now
    &&& item.result_summary == result
}

/// A list of finished work with its oldest item gone, where it is too long.
pub open spec fn capped(items: Seq<CompletedItem>) -> Seq<CompletedItem> {
    if items.len() > MAX_COMPLETED_ITEMS {
        items.remove(0)
    } else {
        items
    }
}

/// What an event does to a status block at a time.
pub open spec fn is_updated(before: StatusBlock, event: ProcessEvent, now: Timestamp, after: StatusBlock) -> bool {
    let workers = before.active_workers@;
    let branches = before.active_branches@;
    let items = before.completed_items@;
    match event {
        ProcessEvent::WorkerStatus { worker_id, status, .. } => {
            &&& after.active_branches@ == branches
            &&& after.completed_items@ == items
            &&& after.active_workers@ == match worker_position(workers, 0, worker_id) {
                Some(i) => workers.update(i, WorkerStatus { status, ..workers[i] }),
                None => workers,
            }
        },
        ProcessEvent::WorkerComplete { worker_id, result, notify, .. } => {
            &&& after.active_branches@ == branches
            &&& match worker_position(workers, 0, worker_id) {
                Some(i) => {
                    &&& after.active_workers@ == workers.remove(i)
                    &&& if notify {
                        &&& after.completed_items@.len() == items.len() + 1
                        &&& after.completed_items@.drop_last() == items
                        &&& is_record(
                            after.completed_items@.last(),
                            worker_id,
                            CompletedItemType::Worker,
                            workers[i].task,
                            now,
                            result,
                        )
                    } else {
                        after.completed_items@ == items
                    }
                },
                None => after.active_workers@ == workers && after.completed_items@ == items,
            }
        },
        ProcessEvent::ToolCompleted { process_id, .. } => {
            &&& after.active_branches@ == branches
            &&& after.completed_items@ == items
            &&& after.active_workers@ == match process_id {
                ProcessId::Worker(worker_id) => match worker_position(workers, 0, worker_id) {
                    Some(i) => workers.update(
                        i,
                        WorkerStatus {
                            tool_calls: (workers[i].tool_calls + 1) as usize,
                            ..workers[i]
                        },
                    ),
                    None => workers,
                },
                _ => workers,
            }
        },
        ProcessEvent::BranchResult { branch_id, conclusion, .. } => {
            &&& after.active_workers@ == workers
            &&& match branch_position(branches, 0, branch_id) {
                Some(i) => {
                    &&& after.active_branches@ == branches.remove(i)
                    &&& exists|item: CompletedItem|
                        after.completed_items@ == capped(#[trigger] items.push(item)) && is_record(
                            item,
                            branch_id,
                            CompletedItemType::Branch,
                            branches[i].description,
                            now,
                            conclusion,
                        )
                },
                None => after.active_branches@ == branches && after.completed_items@ == capped(items),
            }
        },
        _ => {
            &&& after.active_branches@ == branches
            &&& after.active_workers@ == workers
            &&& after.completed_items@ == items
        },
    }
}

impl StatusBlock {
    /// Whether every time in the block can be told.
    pub open spec fn wf(self) -> bool {
        &&& forall|i: int|
            0 <= i < self.active_workers@.len() ==> (
            #[trigger] self.active_workers@[i]).started_at.valid()
        &&& forall|i: int|
            0 <= i < self.active_branches@.len() ==> (
            #[trigger] self.active_branches@[i]).started_at.valid()
    }

    /// Whether one more tool call of any worker can be counted.
    pub open spec fn can_count(self) -> bool {
        forall|i: int|
            0 <= i < self.active_workers@.len() ==> (#[trigger] self.active_workers@[i]).tool_calls
                < usize::MAX
    }

    /// Create a new empty status block.
    pub fn new() -> (block: StatusBlock)
        ensures
            block.wf(),
            block.active_branches@.len() == 0,
            block.active_workers@.len() == 0,
            block.completed_items@.len() == 0,
    {
        StatusBlock {
            active_branches: Vec::new(),
            active_workers: Vec::new(),
            completed_items: Vec::new(),
        }
    }

    fn find_worker(&self, id: WorkerId) -> (found: Option<usize>)
        ensures
            match found {
                Some(i) => i < self.active_workers@.len() && worker_position(
                    self.active_workers@,
                    0,
                    id,
                ) == Some(i as int),
                None => worker_position(self.active_workers@, 0, id) is None,
            },
    {
        let mut i: usize = 0;
        while i < self.active_workers.len()
            invariant
                i <= self.active_workers.len(),
                worker_position(self.active_workers@, 0, id) == worker_position(
                    self.active_workers@,
                    i as int,
                    id,
                ),
            decreases self.active_workers.len() - i,
        {
            if self.active_workers[i].id == id {
                return Some(i);
            }
            i = i + 1;
        }
        None
    }

    fn find_branch(&self, id: BranchId) -> (found: Option<usize>)
        ensures
            match found {
                Some(i) => i < self.active_branches@.len() && branch_position(
                    self.active_branches@,
                    0,
                    id,
                ) == Some(i as int),
                None => branch_position(self.active_branches@, 0, id) is None,
            },
    {
        let mut i: usize = 0;
        while i < self.active_branches.len()
            invariant
                i <= self.active_branches.len(),
                branch_position(self.active_branches@, 0, id) == branch_position(
                    self.active_branches@,
                    i as int,
                    id,
                ),
            decreases self.active_branches.len() - i,
        {
            if self.active_branches[i].id == id {
                return Some(i);
            }
            i = i + 1;
        }
        None
    }

    /// Update from a process event that comes at a time.
    pub fn update_at(&mut self, event: &ProcessEvent, now: Timestamp)
        requires
            old(self).can_count(),
        ensures
            is_updated(*old(self), *event, now, *final(self)),
            old(self).wf() ==> final(self).wf(),
    {
        match event {
            ProcessEvent::WorkerStatus { worker_id, status, .. } => {
                match self.find_worker(*worker_id) {
                    Some(i) => {
                        let worker = self.active_workers.remove(i);
                        self.active_workers.insert(
                            i,
                            WorkerStatus {
                                id: worker.id,
                                task: worker.task,
                                status: status.clone(),
                                started_at: worker.started_at,
                                notify_on_complete: worker.notify_on_complete,
                                tool_calls: worker.tool_calls,
                            },
                        );
                        assert(self.active_workers@ =~= old(self).active_workers@.update(
                            i as int,
                            WorkerStatus { status: *status, ..old(self).active_workers@[i as int] },
                        ));
                    },
                    None => {},
                }
            },
            ProcessEvent::WorkerComplete { worker_id, result, notify, .. } => {
                match self.find_worker(*worker_id) {
                    Some(i) => {
                        let worker = self.active_workers.remove(i);
                        if *notify {
                            self.completed_items.push(
                                CompletedItem {
                                    id: uuid_text(*worker_id),
                                    item_type: CompletedItemType::Worker,
                                    description: worker.task,
                                    completed_at: now,
                                    result_summary: result.clone(),
                                },
                            );
                            assert(self.completed_items@.drop_last()
                                =~= old(self).completed_items@);
                        }
                    },
                    None => {},
                }
            },
            ProcessEvent::ToolCompleted { process_id, .. } => {
                match process_id {
                    ProcessId::Worker(worker_id) => {
                        match self.find_worker(*worker_id) {
                            Some(i) => {
                                let worker = self.active_workers.remove(i);
                                self.active_workers.insert(
                                    i,
                                    WorkerStatus {
                                        id: worker.id,
                                        task: worker.task,
                                        status: worker.status,
                                        started_at: worker.started_at,
                                        notify_on_complete: worker.notify_on_complete,
                                        tool_calls: worker.tool_calls + 1,
                                    },
                                );
                                assert(self.active_workers@ =~= old(self).active_workers@.update(
                                    i as int,
                                    WorkerStatus {
                                        tool_calls: (old(
                                            self,
                                        ).active_workers@[i as int].tool_calls + 1) as usize,
                                        ..old(self).active_workers@[i as int]
                                    },
                                ));
                            },
                            None => {},
                        }
                    },
                    _ => {},
                }
            },
            ProcessEvent::BranchResult { branch_id, conclusion, .. } => {
                match self.find_branch(*branch_id) {
                    Some(i) => {
                        let branch = self.active_branches.remove(i);
                        self.completed_items.push(
                            CompletedItem {
                                id: uuid_text(*branch_id),
                                item_type: CompletedItemType::Branch,
                                description: branch.description,
                                completed_at: now,
                                result_summary: conclusion.clone(),
                            },
                        );
                    },
                    None => {},
                }
                let ghost items = self.completed_items@;
                if self.completed_items.len() > MAX_COMPLETED_ITEMS {
                    let _oldest = self.completed_items.remove(0);
                }
                assert(self.completed_items@ == capped(items));
            },
            _ => {},
        }
    }

    /// Update from a process event.
    pub fn update(&mut self, event: &ProcessEvent)
        requires
            old(self).can_count(),
        ensures
            exists|now: Timestamp|
                now.valid() && #[trigger] is_updated(
                    *old(self),
                    *event,
                    now,
                    *final(self),
                ),
            old(self).wf() ==> final(self).wf(),
    {
        let time = now();
        self.update_at(event, time);
    }

    /// Add a new active branch that starts at a time.
    pub fn add_branch_at(&mut self, id: BranchId, description: String, now: Timestamp)
        ensures
            final(self).active_branches@ == old(self).active_branches@.push(
                BranchStatus { id, started_at: now, description },
            ),
            final(self).active_workers@ == old(self).active_workers@,
            final(self).completed_items@ == old(self).completed_items@,
            old(self).wf() && now.valid() ==> final(self).wf(),
    {
        self.active_branches.push(BranchStatus { id, started_at: now, description });
    }

    /// Add a new active branch.
    pub fn add_branch(&mut self, id: BranchId, description: String)
        ensures
            final(self).active_branches@.len() == old(self).active_branches@.len() + 1,
            final(self).active_branches@.drop_last() == old(self).active_branches@,
            final(self).active_branches@.last().id == id,
            final(self).active_branches@.last().description == description,
            final(self).active_workers@ == old(self).active_workers@,
            final(self).completed_items@ == old(self).completed_items@,
            old(self).wf() ==> final(self).wf(),
    {
        let time = now();
        self.add_branch_at(id, description, time);
        assert(self.active_branches@.drop_last() =~= old(self).active_branches@);
    }

    /// Add a new active worker that starts at a time.
    pub fn add_worker_at(&mut self, id: WorkerId, task: String, notify_on_complete: bool, now: Timestamp)
        ensures
            final(self).active_workers@.len() == old(self).active_workers@.len() + 1,
            final(self).active_workers@.drop_last() == old(self).active_workers@,
            is_new_worker(final(self).active_workers@.last(), id, task, notify_on_complete),
            final(self).active_workers@.last().started_at == now,
            final(self).active_branches@ == old(self).active_branches@,
            final(self).completed_items@ == old(self).completed_items@,
            old(self).wf() && now.valid() ==> final(self).wf(),
    {
        self.active_workers.push(
            WorkerStatus {
                id,
                task,
                status: "starting".to_owned(),
                started_at: now,
                notify_on_complete,
                tool_calls: 0,
            },
        );
        assert(self.active_workers@.drop_last() =~= old(self).active_workers@);
    }

    /// Add a new active worker.
    pub fn add_worker(&mut self, id: WorkerId, task: String, notify_on_complete: bool)
        ensures
            final(self).active_workers@.len() == old(self).active_workers@.len() + 1,
            final(self).active_workers@.drop_last() == old(self).active_workers@,
            is_new_worker(final(self).active_workers@.last(), id, task, notify_on_complete),
            final(self).active_branches@ == old(self).active_branches@,
            final(self).completed_items@ == old(self).completed_items@,
            old(self).wf() ==> final(self).wf(),
    {
        let time = now();
        self.add_worker_at(id, task, notify_on_complete, time);
    }

    /// Remove an active worker by ID.
    pub fn remove_worker(&mut self, worker_id: WorkerId) -> (removed: bool)
        ensures
            match worker_position(old(self).active_workers@, 0, worker_id) {
                Some(i) => removed && final(self).active_workers@ == old(
                    self,
                ).active_workers@.remove(i),
                None => !removed && final(self).active_workers@ == old(self).active_workers@,
            },
            final(self).active_branches@ == old(self).active_branches@,
            final(self).completed_items@ == old(self).completed_items@,
            old(self).wf() ==> final(self).wf(),
    {
        match self.find_worker(worker_id) {
            Some(i) => {
                let _worker = self.active_workers.remove(i);
                true
            },
            None => false,
        }
    }

    /// Check if a worker is active.
    pub fn is_worker_active(&self, worker_id: WorkerId) -> (active: bool)
        ensures
            active == (worker_position(self.active_workers@, 0, worker_id) is Some),
    {
        self.find_worker(worker_id).is_some()
    }

    /// Get the number of active branches.
    pub fn active_branch_count(&self) -> (count: usize)
        ensures
            count == self.active_branches@.len(),
    {
        self.active_branches.len()
    }

    /// Render the status block as a string for context injection.
    pub fn render(&self) -> (text: String)
        requires
            self.wf(),
        ensures
            text@ == block_form(*self),
    {
        let mut output = String::new();
        if self.active_workers.len() > 0 {
            output.append("## Active Workers\n");
            self.render_workers(&mut output);
            output.append("\n");
        }
        assert(output@ =~= workers_section(self.active_workers@));
        if self.active_branches.len() > 0 {
            output.append("## Active Branches\n");
            self.render_branches(&mut output);
            output.append("\n");
        }
        assert(output@ =~= workers_section(self.active_workers@) + branches_section(
            self.active_branches@,
        ));
        if self.completed_items.len() > 0 {
            output.append("## Recently Completed\n");
            self.render_completed(&mut output);
            output.append("\n");
        }
        assert(output@ =~= block_form(*self));
        output
    }

    fn render_workers(&self, output: &mut String)
        requires
            self.wf(),
        ensures
            final(output)@ == old(output)@ + worker_lines(self.active_workers@),
    {
        let mut i: usize = 0;
        let ghost start = output@;
        assert(start + worker_lines(self.active_workers@.take(0)) =~= start);
        while i < self.active_workers.len()
            invariant
                i <= self.active_workers.len(),
                self.wf(),
                output@ == start + worker_lines(self.active_workers@.take(i as int)),
            decreases self.active_workers.len() - i,
        {
            let worker = &self.active_workers[i];
            assert(self.active_workers@.take(i + 1).drop_last() =~= self.active_workers@.take(
                i as int,
            ));
            output.append("- [");
            output.append(uuid_text(worker.id).as_str());
            output.append("] ");
            output.append(worker.task.as_str());
            output.append(" (");
            output.append(time_text(worker.started_at, "%H:%M").as_str());
            if worker.tool_calls > 0 {
                output.append(", ");
                output.append(u64_text(worker.tool_calls as u64).as_str());
                output.append(" tool calls");
            }
            output.append("): ");
            output.append(worker.status.as_str());
            output.append("\n");
            assert(output@ =~= start + worker_lines(self.active_workers@.take(i as int))
                + worker_line(self.active_workers@[i as int]));
            assert(output@ =~= start + worker_lines(self.active_workers@.take(i + 1)));
            i = i + 1;
        }
        assert(self.active_workers@.take(i as int) =~= self.active_workers@);
    }

    fn render_branches(&self, output: &mut String)
        requires
            self.wf(),
        ensures
            final(output)@ == old(output)@ + branch_lines(self.active_branches@),
    {
        let mut i: usize = 0;
        let ghost start = output@;
        assert(start + branch_lines(self.active_branches@.take(0)) =~= start);
        while i < self.active_branches.len()
            invariant
                i <= self.active_branches.len(),
                self.wf(),
                output@ == start + branch_lines(self.active_branches@.take(i as int)),
            decreases self.active_branches.len() - i,
        {
            let branch = &self.active_branches[i];
            assert(self.active_branches@.take(i + 1).drop_last() =~= self.active_branches@.take(
                i as int,
            ));
            output.append("- [");
            output.append(uuid_text(branch.id).as_str());
            output.append("] ");
            output.append(branch.description.as_str());
            output.append(" (started ");
            output.append(time_text(branch.started_at, "%H:%M:%S").as_str());
            output.append(")\n");
            assert(output@ =~= start + branch_lines(self.active_branches@.take(i as int))
                + branch_line(self.active_branches@[i as int]));
            assert(output@ =~= start + branch_lines(self.active_branches@.take(i + 1)));
            i = i + 1;
        }
        assert(self.active_branches@.take(i as int) =~= self.active_branches@);
    }

    fn render_completed(&self, output: &mut String)
        ensures
            final(output)@ == old(output)@ + completed_lines(self.completed_items@, 5),
    {
        let total: usize = self.completed_items.len();
        let mut left: usize = total;
        let mut shown: usize = 0;
        let ghost start = output@;
        let ghost items = self.completed_items@;
        assert(items.take(total as int) =~= items);
        assert(start + completed_lines(items, 5) =~= output@ + completed_lines(
            items.take(left as int),
            5 - shown as int,
        ));
        while left > 0 && shown < 5
            invariant
                left <= total,
                shown <= 5,
                total == items.len(),
                items == self.completed_items@,
                start + completed_lines(items, 5) == output@ + completed_lines(
                    items.take(left as int),
                    5 - shown as int,
                ),
            decreases left,
        {
            let item = &self.completed_items[left - 1];
            let ghost so_far = output@;
            output.append("- [");
            output.append(
                match item.item_type {
                    CompletedItemType::Branch => "branch",
                    CompletedItemType::Worker => "worker",
                },
            );
            output.append("] ");
            output.append(item.description.as_str());
            output.append(": ");
            if exceeds_bytes(item.result_summary.as_str(), 500) {
                output.append(truncate_to_bytes(item.result_summary.as_str(), 500));
                output.append("...");
            } else {
                output.append(item.result_summary.as_str());
            }
            output.append("\n");
            assert(output@ =~= so_far + completed_line(items[left - 1]));
            assert(items.take(left as int).drop_last() =~= items.take(left - 1));
            assert(so_far + completed_lines(items.take(left as int), 5 - shown as int) =~= output@
                + completed_lines(items.take(left - 1), 5 - (shown + 1)));
            left = left - 1;
            shown = shown + 1;
        }
        assert(output@ + completed_lines(items.take(left as int), 5 - shown as int) =~= output@);
    }
}

impl Default for StatusBlock {
    fn default() -> (block: StatusBlock)
        ensures
            block.wf(),
            block.active_branches@.len() == 0,
            block.active_workers@.len() == 0,
            block.completed_items@.len() == 0,
    {
        StatusBlock::new()
    }
}

/// Whether a worker is one that just started.
pub open spec fn is_new_worker(
    worker: WorkerStatus,
    id: WorkerId,
    task: String,
    notify_on_complete: bool,
) -> bool {
    &&& worker.id == id
    &&& worker.task == task
    &&& worker.status@ == "starting"@
    &&& worker.notify_on_complete == notify_on_complete
    &&& worker.tool_calls == 0
}

/// The line of a worker.
pub open spec fn worker_line(worker: WorkerStatus) -> Seq<char> {
    "- ["@ + uuid_form(worker.id) + "] "@ + worker.task@ + " ("@ + hour_minute(
        worker.started_at,
    ) + (if worker.tool_calls > 0 {
        ", "@ + decimal(worker.tool_calls as int) + " tool calls"@
    } else {
        Seq::empty()
    }) + "): "@ + worker.status@ + "\n"@
}

pub open spec fn worker_lines(workers: Seq<WorkerStatus>) -> Seq<char>
    decreases workers.len(),
{
    if workers.len() == 0 {
        Seq::empty()
    } else {
        worker_lines(workers.drop_last()) + worker_line(workers.last())
    }
}

pub open spec fn workers_section(workers: Seq<WorkerStatus>) -> Seq<char> {
    if workers.len() == 0 {
        Seq::empty()
    } else {
        "## Active Workers\n"@ + worker_lines(workers) + "\n"@
    }
}

/// The line of a branch.
pub open spec fn branch_line(branch: BranchStatus) -> Seq<char> {
    "- ["@ + uuid_form(branch.id) + "] "@ + branch.description@ + " (started "@
        + hour_minute_second(branch.started_at) + ")\n"@
}

pub open spec fn branch_lines(branches: Seq<BranchStatus>) -> Seq<char>
    decreases branches.len(),
{
    if branches.len() == 0 {
        Seq::empty()
    } else {
        branch_lines(branches.drop_last()) + branch_line(branches.last())
    }
}

pub open spec fn branches_section(branches: Seq<BranchStatus>) -> Seq<char> {
    if branches.len() == 0 {
        Seq::empty()
    } else {
        "## Active Branches\n"@ + branch_lines(branches) + "\n"@
    }
}

/// A result, cut where it is long.
pub open spec fn short_result(result: Seq<char>) -> Seq<char> {
    if byte_len(result) > 500 {
        byte_prefix(result, 500) + "..."@
    } else {
        result
    }
}

/// The line of finished work.
pub open spec fn completed_line(item: CompletedItem) -> Seq<char> {
    "- ["@ + (match item.item_type {
        CompletedItemType::Branch => "branch"@,
        CompletedItemType::Worker => "worker"@,
    }) + "] "@ + item.description@ + ": "@ + short_result(item.result_summary@) + "\n"@
}

/// The lines of the last `count` items, newest first.
pub open spec fn completed_lines(items: Seq<CompletedItem>, count: int) -> Seq<char>
    decreases items.len(),
{
    if items.len() == 0 || count <= 0 {
        Seq::empty()
    } else {
        completed_line(items.last()) + completed_lines(items.drop_last(), count - 1)
    }
}

pub open spec fn completed_section(items: Seq<CompletedItem>) -> Seq<char> {
    if items.len() == 0 {
        Seq::empty()
    } else {
        "## Recently Completed\n"@ + completed_lines(items, 5) + "\n"@
    }
}

/// A status block in text.
pub open spec fn block_form(block: StatusBlock) -> Seq<char> {
    workers_section(block.active_workers@) + branches_section(block.active_branches@)
        + completed_section(block.completed_items@)
}

proof fn lemma_worker_position(workers: Seq<WorkerStatus>, from: int, id: WorkerId)
    requires
        0 <= from,
    ensures
        match worker_position(workers, from, id) {
            Some(i) => from <= i < workers.len() && workers[i].id == id,
            None => forall|i: int| from <= i < workers.len() ==> (#[trigger] workers[i]).id != id,
        },
    decreases workers.len() - from,
{
    if from < workers.len() && workers[from].id != id {
        lemma_worker_position(workers, from + 1, id);
    }
}

/// A finished worker is not active any more, where no identifier stands twice.
pub proof fn law_completed_worker_is_inactive(
    before: StatusBlock,
    event: ProcessEvent,
    now: Timestamp,
    after: StatusBlock,
)
    requires
        event is WorkerComplete,
        is_updated(before, event, now, after),
        forall|i: int, j: int|
            0 <= i < j < before.active_workers@.len() ==> (#[trigger] before.active_workers@[i]).id
                != (#[trigger] before.active_workers@[j]).id,
    ensures
        worker_position(after.active_workers@, 0, event->WorkerComplete_worker_id) is None,
{
    let id = event->WorkerComplete_worker_id;
    let workers = before.active_workers@;
    lemma_worker_position(workers, 0, id);
    lemma_worker_position(after.active_workers@, 0, id);
    match worker_position(workers, 0, id) {
        Some(i) => {
            let left = workers.remove(i);
            assert(after.active_workers@ == left);
            match worker_position(left, 0, id) {
                Some(j) => {
                    if j < i {
                        assert(left[j] == workers[j]);
                    } else {
                        assert(left[j] == workers[j + 1]);
                    }
                    assert(false);
                },
                None => {},
            }
        },
        None => {},
    }
}

/// A list of at most ten finished items stays that short when a branch finishes.
pub proof fn law_branch_result_keeps_list_short(
    before: StatusBlock,
    event: ProcessEvent,
    now: Timestamp,
    after: StatusBlock,
)
    requires
        event is BranchResult,
        is_updated(before, event, now, after),
        before.completed_items@.len() <= MAX_COMPLETED_ITEMS,
    ensures
        after.completed_items@.len() <= MAX_COMPLETED_ITEMS,
{
}

/// An event adds at most one finished item, and starts no work.
pub proof fn law_event_adds_at_most_one_item(
    before: StatusBlock,
    event: ProcessEvent,
    now: Timestamp,
    after: StatusBlock,
)
    requires
        is_updated(before, event, now, after),
    ensures
        after.completed_items@.len() <= before.completed_items@.len() + 1,
        after.active_workers@.len() <= before.active_workers@.len(),
        after.active_branches@.len() <= before.active_branches@.len(),
{
    match event {
        ProcessEvent::WorkerStatus { worker_id, .. } => lemma_worker_position(
            before.active_workers@,
            0,
            worker_id,
        ),
        ProcessEvent::ToolCompleted { process_id: ProcessId::Worker(worker_id), .. } => {
            lemma_worker_position(before.active_workers@, 0, worker_id)
        },
        ProcessEvent::WorkerComplete { worker_id, .. } => {
            lemma_worker_position(before.active_workers@, 0, worker_id);
            match worker_position(before.active_workers@, 0, worker_id) {
                Some(i) => assert(before.active_workers@.remove(i).len()
                    == before.active_workers@.len() - 1),
                None => {},
            }
        },
        ProcessEvent::BranchResult { branch_id, .. } => lemma_branch_position(
            before.active_branches@,
            0,
            branch_id,
        ),
        _ => {},
    }
}

proof fn lemma_branch_position(branches: Seq<BranchStatus>, from: int, id: BranchId)
    requires
        0 <= from,
    ensures
        branch_position(branches, from, id) matches Some(i) ==> from <= i < branches.len(),
    decreases branches.len() - from,
{
    if from < branches.len() && branches[from].id != id {
        lemma_branch_position(branches, from + 1, id);
    }
}

/// Of the workers with an identifier the first one is found, wherever it stands.
pub proof fn law_first_worker_is_found(workers: Seq<WorkerStatus>, from: int, at: int, id: WorkerId)
    requires
        0 <= from <= at < workers.len(),
        workers[at].id == id,
        forall|i: int| from <= i < at ==> (#[trigger] workers[i]).id != id,
    ensures
        worker_position(workers, from, id) == Some(at),
    decreases at - from,
{
    if from < at {
        assert(workers[from].id != id);
        law_first_worker_is_found(workers, from + 1, at, id);
    }
}

/// Of the branches with an identifier the first one is found, wherever it stands.
pub proof fn law_first_branch_is_found(branches: Seq<BranchStatus>, from: int, at: int, id: BranchId)
    requires
        0 <= from <= at < branches.len(),
        branches[at].id == id,
        forall|i: int| from <= i < at ==> (#[trigger] branches[i]).id != id,
    ensures
        branch_position(branches, from, id) == Some(at),
    decreases at - from,
{
    if from < at {
        assert(branches[from].id != id);
        law_first_branch_is_found(branches, from + 1, at, id);
    }
}

/// What a worker says of itself is shown with it, a tool that it used is counted,
/// and no other worker changes.
pub proof fn law_worker_news_are_shown(
    before: StatusBlock,
    event: ProcessEvent,
    now: Timestamp,
    after: StatusBlock,
    at: int,
    id: WorkerId,
)
    requires
        is_updated(before, event, now, after),
        event is WorkerStatus && event->WorkerStatus_worker_id == id || event is ToolCompleted
            && event->ToolCompleted_process_id == ProcessId::Worker(id),
        0 <= at < before.active_workers@.len(),
        before.active_workers@[at].id == id,
        forall|i: int| 0 <= i < at ==> (#[trigger] before.active_workers@[i]).id != id,
        before.active_workers@[at].tool_calls < usize::MAX,
    ensures
        ({
            let old = before.active_workers@[at];
            let new = after.active_workers@[at];
            &&& after.active_workers@.len() == before.active_workers@.len()
            &&& forall|i: int|
                0 <= i < after.active_workers@.len() && i != at ==> #[trigger] after.active_workers@[i]
                    == before.active_workers@[i]
            &&& new.id == id
            &&& new.task == old.task
            &&& new.started_at == old.started_at
            &&& new.notify_on_complete == old.notify_on_complete
            &&& event is WorkerStatus ==> new.status == event->WorkerStatus_status && new.tool_calls
                == old.tool_calls
            &&& event is ToolCompleted ==> new.status == old.status && new.tool_calls
                == old.tool_calls + 1
        }),
        after.active_branches@ == before.active_branches@,
        after.completed_items@ == before.completed_items@,
{
    law_first_worker_is_found(before.active_workers@, 0, at, id);
}

/// A worker that is done leaves the active ones, and where it is to notify, whatever
/// came of it, it becomes the newest of the completed items, with its task and its
/// result.
pub proof fn law_finished_worker_is_completed(
    before: StatusBlock,
    event: ProcessEvent,
    now: Timestamp,
    after: StatusBlock,
    at: int,
)
    requires
        is_updated(before, event, now, after),
        event is WorkerComplete,
        0 <= at < before.active_workers@.len(),
        before.active_workers@[at].id == event->WorkerComplete_worker_id,
        forall|i: int|
            0 <= i < at ==> (#[trigger] before.active_workers@[i]).id
                != event->WorkerComplete_worker_id,
    ensures
        after.active_workers@ == before.active_workers@.remove(at),
        after.active_branches@ == before.active_branches@,
        event->WorkerComplete_notify ==> {
            let item = after.completed_items@[before.completed_items@.len() as int];
            &&& after.completed_items@.len() == before.completed_items@.len() + 1
            &&& forall|i: int|
                0 <= i < before.completed_items@.len() ==> #[trigger] after.completed_items@[i]
                    == before.completed_items@[i]
            &&& item.id@ == uuid_form(event->WorkerComplete_worker_id)
            &&& item.item_type == CompletedItemType::Worker
            &&& item.description == before.active_workers@[at].task
            &&& item.result_summary == event->WorkerComplete_result
            &&& item.completed_at == now
        },
        !event->WorkerComplete_notify ==> after.completed_items@ == before.completed_items@,
{
    law_first_worker_is_found(before.active_workers@, 0, at, event->WorkerComplete_worker_id);
    let items = before.completed_items@;
    if event->WorkerComplete_notify {
        assert forall|i: int| 0 <= i < items.len() implies #[trigger] after.completed_items@[i]
            == items[i] by {
            assert(after.completed_items@.drop_last()[i] == items[i]);
        }
    }
}

/// A branch that is done leaves the active ones and becomes the newest of the
/// completed items, with its description and its conclusion. Where there were too
/// many items already, the oldest one makes room.
pub proof fn law_finished_branch_is_completed(
    before: StatusBlock,
    event: ProcessEvent,
    now: Timestamp,
    after: StatusBlock,
    at: int,
)
    requires
        is_updated(before, event, now, after),
        event is BranchResult,
        0 <= at < before.active_branches@.len(),
        before.active_branches@[at].id == event->BranchResult_branch_id,
        forall|i: int|
            0 <= i < at ==> (#[trigger] before.active_branches@[i]).id
                != event->BranchResult_branch_id,
    ensures
        after.active_branches@ == before.active_branches@.remove(at),
        after.active_workers@ == before.active_workers@,
        after.completed_items@.len() > 0,
        ({
            let item = after.completed_items@.last();
            &&& item.id@ == uuid_form(event->BranchResult_branch_id)
            &&& item.item_type == CompletedItemType::Branch
            &&& item.description == before.active_branches@[at].description
            &&& item.result_summary == event->BranchResult_conclusion
            &&& item.completed_at == now
        }),
        before.completed_items@.len() < 10 ==> after.completed_items@.drop_last()
            == before.completed_items@,
        before.completed_items@.len() >= 10 ==> after.completed_items@.drop_last()
            == before.completed_items@.skip(1),
{
    law_first_branch_is_found(before.active_branches@, 0, at, event->BranchResult_branch_id);
    let items = before.completed_items@;
    let item = choose|item: CompletedItem|
        after.completed_items@ == capped(#[trigger] items.push(item)) && is_record(
            item,
            event->BranchResult_branch_id,
            CompletedItemType::Branch,
            before.active_branches@[at].description,
            now,
            event->BranchResult_conclusion,
        );
    assert(items.push(item).last() == item);
    assert(items.push(item).drop_last() =~= items);
    if items.len() >= 10 {
        assert(items.push(item).remove(0).drop_last() =~= items.skip(1));
        assert(items.push(item).remove(0).last() == item);
    }
}

proof fn lemma_worker_lines(workers: Seq<WorkerStatus>) -> (lines: Seq<Seq<char>>)
    ensures
        lines.len() == workers.len(),
        forall|i: int| 0 <= i < lines.len() ==> #[trigger] lines[i] == worker_line(workers[i]),
        worker_lines(workers) == joined(lines, Seq::empty()),
    decreases workers.len(),
{
    if workers.len() == 0 {
        Seq::empty()
    } else {
        let before = lemma_worker_lines(workers.drop_last());
        let lines = before.push(worker_line(workers.last()));
        assert(lines.drop_last() =~= before);
        assert(worker_lines(workers) =~= joined(lines, Seq::empty()));
        lines
    }
}

proof fn lemma_branch_lines(branches: Seq<BranchStatus>) -> (lines: Seq<Seq<char>>)
    ensures
        lines.len() == branches.len(),
        forall|i: int| 0 <= i < lines.len() ==> #[trigger] lines[i] == branch_line(branches[i]),
        branch_lines(branches) == joined(lines, Seq::empty()),
    decreases branches.len(),
{
    if branches.len() == 0 {
        Seq::empty()
    } else {
        let before = lemma_branch_lines(branches.drop_last());
        let lines = before.push(branch_line(branches.last()));
        assert(lines.drop_last() =~= before);
        assert(branch_lines(branches) =~= joined(lines, Seq::empty()));
        lines
    }
}

proof fn lemma_completed_lines(items: Seq<CompletedItem>, count: int) -> (lines: Seq<Seq<char>>)
    requires
        0 <= count,
    ensures
        lines.len() == if items.len() <= count {
            items.len() as int
        } else {
            count
        },
        forall|i: int|
            0 <= i < lines.len() ==> #[trigger] lines[i] == completed_line(
                items[items.len() - 1 - i],
            ),
        completed_lines(items, count) == joined(lines, Seq::empty()),
    decreases items.len(),
{
    if items.len() == 0 || count <= 0 {
        Seq::empty()
    } else {
        let behind = lemma_completed_lines(items.drop_last(), count - 1);
        let first = completed_line(items.last());
        let lines = seq![first] + behind;
        law_joined_keeps_every_part(lines, Seq::empty(), 0);
        assert(lines.skip(1) =~= behind);
        assert(lines.take(0) =~= Seq::<Seq<char>>::empty());
        assert forall|i: int| 0 <= i < lines.len() implies #[trigger] lines[i] == completed_line(
            items[items.len() - 1 - i],
        ) by {
            if i > 0 {
                assert(lines[i] == behind[i - 1]);
            }
        }
        if behind.len() == 0 {
            assert(completed_lines(items.drop_last(), count - 1) =~= Seq::<char>::empty());
        }
        assert(completed_lines(items, count) =~= joined(lines, Seq::empty()));
        lines
    }
}

/// The block shows every active worker and every active branch in order, and the
/// five newest completed items, the newest first: a line for each, under the
/// headings of those of which there are any. The lines are given back.
pub proof fn law_block_shows_everything(block: StatusBlock) -> (lines: (
    Seq<Seq<char>>,
    Seq<Seq<char>>,
    Seq<Seq<char>>,
))
    ensures
        lines.0.len() == block.active_workers@.len(),
        forall|i: int|
            0 <= i < lines.0.len() ==> #[trigger] lines.0[i] == {
                let worker = block.active_workers@[i];
                "- ["@ + uuid_form(worker.id) + "] "@ + worker.task@ + " ("@ + hour_minute(
                    worker.started_at,
                ) + (if worker.tool_calls > 0 {
                    ", "@ + decimal(worker.tool_calls as int) + " tool calls"@
                } else {
                    Seq::empty()
                }) + "): "@ + worker.status@ + "\n"@
            },
        lines.1.len() == block.active_branches@.len(),
        forall|i: int|
            0 <= i < lines.1.len() ==> #[trigger] lines.1[i] == {
                let branch = block.active_branches@[i];
                "- ["@ + uuid_form(branch.id) + "] "@ + branch.description@ + " (started "@
                    + hour_minute_second(branch.started_at) + ")\n"@
            },
        lines.2.len() == if block.completed_items@.len() <= 5 {
            block.completed_items@.len() as int
        } else {
            5
        },
        forall|i: int|
            0 <= i < lines.2.len() ==> {
                let item = block.completed_items@[block.completed_items@.len() - 1 - i];
                byte_len(item.result_summary@) <= 500 ==> #[trigger] lines.2[i] == "- ["@ + (
                if item.item_type == CompletedItemType::Branch {
                    "branch"@
                } else {
                    "worker"@
                }) + "] "@ + item.description@ + ": "@ + item.result_summary@ + "\n"@
            },
        block_form(block) == (if lines.0.len() > 0 {
            "## Active Workers\n"@ + joined(lines.0, Seq::empty()) + "\n"@
        } else {
            Seq::empty()
        }) + (if lines.1.len() > 0 {
            "## Active Branches\n"@ + joined(lines.1, Seq::empty()) + "\n"@
        } else {
            Seq::empty()
        }) + (if lines.2.len() > 0 {
            "## Recently Completed\n"@ + joined(lines.2, Seq::empty()) + "\n"@
        } else {
            Seq::empty()
        }),
{
    let workers = lemma_worker_lines(block.active_workers@);
    let branches = lemma_branch_lines(block.active_branches@);
    let completed = lemma_completed_lines(block.completed_items@, 5);
    (workers, branches, completed)
}

/// A result that is too long is shown by its beginning.
pub proof fn law_long_result_is_cut(result: Seq<char>)
    requires
        byte_len(result) > 500,
    ensures
        ({
            let kept = short_result(result).len() - 3;
            &&& 0 <= kept <= result.len()
            &&& short_result(result) == result.take(kept) + "..."@
            &&& byte_len(result.take(kept)) <= 500
        }),
{
    reveal_strlit("...");
    crate::text::law_byte_prefix_fits(result, 500);
    let prefix = byte_prefix(result, 500);
    assert(short_result(result).len() - 3 == prefix.len());
    assert(result.take(prefix.len() as int) == prefix);
}

/// A worker that is added is shown as starting, with its task and no tools used.
pub proof fn law_new_worker_is_starting(
    worker: WorkerStatus,
    id: WorkerId,
    task: String,
    notify_on_complete: bool,
)
    requires
        is_new_worker(worker, id, task, notify_on_complete),
    ensures
        worker.id == id,
        worker.task == task,
        worker.status@ == "starting"@,
        worker.notify_on_complete == notify_on_complete,
        worker.tool_calls == 0,
{
}

} // verus!
