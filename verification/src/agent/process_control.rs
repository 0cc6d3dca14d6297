//! Supervision control plane for channel and detached worker cancellation.
//!
//! The registry knows which channels and detached workers can be cancelled. A
//! channel is known by a number that stands for its control handle; whether the
//! handle is still alive is told by whoever holds it.

use crate::assoc::{
    distinct_names, find_member, lemma_absent, lemma_present, member, remove_member, set_member,
};
use crate::ids::{AgentId, ChannelId, WorkerId};
use vstd::prelude::*;

verus! {

/// What became of a request to cancel.
#[derive(Debug, Clone, Copy, PartialEq, Eq, Structural)]
pub enum ControlActionResult {
    Cancelled,
    NotFound,
    AlreadyTerminal,
}

pub const DETACHED_WORKER_LIFECYCLE_ACTIVE: u8 = 0;

pub const DETACHED_WORKER_LIFECYCLE_COMPLETING: u8 = 1;

pub const DETACHED_WORKER_LIFECYCLE_KILLING: u8 = 2;

pub const DETACHED_WORKER_LIFECYCLE_TERMINAL: u8 = 3;

/// A worker without a channel.
#[derive(Debug, Clone)]
pub struct DetachedWorkerControl {
    pub worker_id: WorkerId,
    pub agent_id: AgentId,
    pub task_number: i64,
    /// Whether the cancel signal can still be sent.
    pub cancel_pending: bool,
    pub lifecycle: u8,
}

impl DetachedWorkerControl {
    pub fn new(worker_id: WorkerId, agent_id: AgentId, task_number: i64, lifecycle: u8) -> (control: DetachedWorkerControl)
        ensures
            control.worker_id == worker_id,
            control.agent_id == agent_id,
            control.task_number == task_number,
            control.cancel_pending,
            control.lifecycle == lifecycle,
    {
        DetachedWorkerControl { worker_id, agent_id, task_number, cancel_pending: true, lifecycle }
    }
}

/// The channels and detached workers that can be cancelled.
#[derive(Debug)]
pub struct ProcessControlRegistry {
    pub channels: Vec<(ChannelId, u64)>,
    pub detached_workers: Vec<DetachedWorkerControl>,
}

/// The worker with an identifier, where there is one.
pub open spec fn detached(workers: Seq<DetachedWorkerControl>, id: WorkerId) -> Option<DetachedWorkerControl>
    decreases workers.len(),
{
    if workers.len() == 0 {
        None
    } else if workers.last().worker_id == id {
        Some(workers.last())
    } else {
        detached(workers.drop_last(), id)
    }
}

pub open spec fn distinct_workers(workers: Seq<DetachedWorkerControl>) -> bool {
    forall|i: int, j: int|
        0 <= i < j < workers.len() ==> (#[trigger] workers[i]).worker_id != (
        #[trigger] workers[j]).worker_id
}

proof fn lemma_detached_at(workers: Seq<DetachedWorkerControl>, at: int)
    requires
        0 <= at < workers.len(),
        distinct_workers(workers),
    ensures
        detached(workers, workers[at].worker_id) == Some(workers[at]),
    decreases workers.len(),
{
    if at < workers.len() - 1 {
        let shorter = workers.drop_last();
        assert forall|a: int, b: int| 0 <= a < b < shorter.len() implies (
        #[trigger] shorter[a]).worker_id != (#[trigger] shorter[b]).worker_id by {
            assert(shorter[a] == workers[a] && shorter[b] == workers[b]);
        }
        assert(workers[workers.len() - 1].worker_id != workers[at].worker_id);
        lemma_detached_at(shorter, at);
    }
}

proof fn lemma_not_detached(workers: Seq<DetachedWorkerControl>, id: WorkerId)
    requires
        forall|k: int| 0 <= k < workers.len() ==> (#[trigger] workers[k]).worker_id != id,
    ensures
        detached(workers, id) is None,
    decreases workers.len(),
{
    if workers.len() > 0 {
        assert(workers[workers.len() - 1].worker_id != id);
        assert forall|k: int| 0 <= k < workers.drop_last().len() implies (
        #[trigger] workers.drop_last()[k]).worker_id != id by {
            assert(workers[k].worker_id != id);
        }
        lemma_not_detached(workers.drop_last(), id);
    }
}

proof fn lemma_detached_found(workers: Seq<DetachedWorkerControl>, id: WorkerId) -> (at: int)
    requires
        detached(workers, id) is Some,
    ensures
        0 <= at < workers.len(),
        workers[at].worker_id == id,
        detached(workers, id) == Some(workers[at]),
    decreases workers.len(),
{
    if workers.last().worker_id == id {
        workers.len() - 1
    } else {
        let at = lemma_detached_found(workers.drop_last(), id);
        assert(workers.drop_last()[at] == workers[at]);
        at
    }
}

/// Two lists that agree on a worker's record, by position, agree on it by
/// identifier.
proof fn lemma_same_detached(
    before: Seq<DetachedWorkerControl>,
    after: Seq<DetachedWorkerControl>,
    id: WorkerId,
)
    requires
        distinct_workers(before),
        distinct_workers(after),
        forall|i: int|
            0 <= i < before.len() && (#[trigger] before[i]).worker_id == id ==> after.contains(
                before[i],
            ),
        forall|i: int|
            0 <= i < after.len() && (#[trigger] after[i]).worker_id == id ==> before.contains(
                after[i],
            ),
    ensures
        detached(after, id) == detached(before, id),
{
    if detached(before, id) is Some {
        let at = lemma_detached_found(before, id);
        assert(after.contains(before[at]));
        let k = choose|k: int| 0 <= k < after.len() && after[k] == before[at];
        lemma_detached_at(after, k);
    } else if detached(after, id) is Some {
        let at = lemma_detached_found(after, id);
        assert(before.contains(after[at]));
        let k = choose|k: int| 0 <= k < before.len() && before[k] == after[at];
        lemma_detached_at(before, k);
    }
}

impl ProcessControlRegistry {
    /// Whether no channel and no worker stands twice.
    pub open spec fn wf(self) -> bool {
        distinct_names(self.channels@) && distinct_workers(self.detached_workers@)
    }

    /// The handle of a channel.
    pub open spec fn handle(self, channel_id: Seq<char>) -> Option<u64> {
        member(self.channels@, channel_id)
    }

    /// The record of a detached worker.
    pub open spec fn worker(self, id: WorkerId) -> Option<DetachedWorkerControl> {
        detached(self.detached_workers@, id)
    }

    pub fn new() -> (registry: ProcessControlRegistry)
        ensures
            registry.wf(),
            forall|id: Seq<char>| #[trigger] registry.handle(id) is None,
            forall|id: WorkerId| #[trigger] registry.worker(id) is None,
    {
        ProcessControlRegistry { channels: Vec::new(), detached_workers: Vec::new() }
    }

    /// A channel can be cancelled from now on. A new handle replaces an old one.
    pub fn register_channel(&mut self, channel_id: ChannelId, handle: u64)
        requires
            old(self).wf(),
        ensures
            final(self).wf(),
            final(self).handle(channel_id@) == Some(handle),
            forall|id: Seq<char>|
                id != channel_id@ ==> #[trigger] final(self).handle(id) == old(self).handle(id),
            final(self).detached_workers@ == old(self).detached_workers@,
    {
        set_member(&mut self.channels, channel_id, handle);
    }

    /// A channel is gone. Tells whether it was known.
    pub fn unregister_channel(&mut self, channel_id: &str) -> (known: bool)
        requires
            old(self).wf(),
        ensures
            final(self).wf(),
            known == (old(self).handle(channel_id@) is Some),
            final(self).handle(channel_id@) is None,
            forall|id: Seq<char>|
                id != channel_id@ ==> #[trigger] final(self).handle(id) == old(self).handle(id),
            final(self).detached_workers@ == old(self).detached_workers@,
    {
        remove_member(&mut self.channels, channel_id)
    }

    /// Forgets the channels whose handle is not among the live ones, and tells
    /// how many there were.
    pub fn prune_dead_channels(&mut self, live: &Vec<u64>) -> (pruned: usize)
        requires
            old(self).wf(),
        ensures
            final(self).wf(),
            forall|id: Seq<char>| #[trigger]
                final(self).handle(id) == match old(self).handle(id) {
                    Some(handle) => if live@.contains(handle) {
                        Some(handle)
                    } else {
                        None
                    },
                    None => None,
                },
            pruned == old(self).channels@.len() - final(self).channels@.len(),
            final(self).detached_workers@ == old(self).detached_workers@,
    {
        let ghost before = self.channels@;
        let total: usize = self.channels.len();
        let mut kept: Vec<(ChannelId, u64)> = Vec::new();
        let mut i: usize = 0;
        while i < total
            invariant
                i <= total,
                total == before.len(),
                self.channels@ == before,
                self.detached_workers@ == old(self).detached_workers@,
                distinct_names(before),
                kept@.len() <= i,
                distinct_names(kept@),
                forall|k: int|
                    0 <= k < kept@.len() ==> live@.contains((#[trigger] kept@[k]).1) && exists|j: int|
                        0 <= j < i && #[trigger] before[j] == kept@[k],
                forall|j: int|
                    0 <= j < i && live@.contains((#[trigger] before[j]).1) ==> kept@.contains(
                        before[j],
                    ),
            decreases total - i,
        {
            let handle: u64 = self.channels[i].1;
            let ghost kept_before = kept@;
            if is_live(live, handle) {
                kept.push((self.channels[i].0.clone(), handle));
                proof {
                    assert(kept@.last() == before[i as int]);
                    assert(kept@ == kept_before.push(before[i as int]));
                    assert forall|a: int, b: int| 0 <= a < b < kept@.len() implies (
                    #[trigger] kept@[a]).0@ != (#[trigger] kept@[b]).0@ by {
                        if b == kept_before.len() {
                            assert(kept@[a] == kept_before[a]);
                            let j = choose|j: int|
                                0 <= j < i && #[trigger] before[j] == kept_before[a];
                            assert(before[j].0@ != before[i as int].0@);
                        } else {
                            assert(kept@[a] == kept_before[a] && kept@[b] == kept_before[b]);
                        }
                    }
                }
            }
            proof {
                assert forall|j: int|
                    0 <= j < i + 1 && live@.contains(
                        (#[trigger] before[j]).1,
                    ) implies kept@.contains(before[j]) by {
                    if j < i {
                        assert(kept_before.contains(before[j]));
                        let k = choose|k: int|
                            0 <= k < kept_before.len() && kept_before[k] == before[j];
                        assert(kept@[k] == before[j]);
                    } else {
                        assert(kept@[kept@.len() - 1] == before[j]);
                    }
                }
                assert forall|k: int| 0 <= k < kept@.len() implies live@.contains(
                    (#[trigger] kept@[k]).1,
                ) && exists|j: int| 0 <= j < i + 1 && #[trigger] before[j] == kept@[k] by {
                    if k < kept_before.len() {
                        assert(kept@[k] == kept_before[k]);
                        let j = choose|j: int| 0 <= j < i && #[trigger] before[j] == kept_before[k];
                        assert(before[j] == kept@[k]);
                    } else {
                        assert(before[i as int] == kept@[k]);
                    }
                }
            }
            i = i + 1;
        }
        let count: usize = kept.len();
        proof {
            assert forall|id: Seq<char>| #[trigger] member(kept@, id) == match member(before, id) {
                Some(handle) => if live@.contains(handle) {
                    Some(handle)
                } else {
                    None
                },
                None => None,
            } by {
                lemma_kept(before, kept@, live@, id);
            }
        }
        self.channels = kept;
        total - count
    }

    /// A detached worker can be cancelled from now on. A new record replaces an
    /// old one.
    pub fn register_detached_worker(&mut self, control: DetachedWorkerControl)
        requires
            old(self).wf(),
        ensures
            final(self).wf(),
            final(self).worker(control.worker_id) == Some(control),
            forall|id: WorkerId|
                id != control.worker_id ==> #[trigger] final(self).worker(id) == old(self).worker(
                    id,
                ),
            final(self).channels@ == old(self).channels@,
    {
        let id: WorkerId = control.worker_id;
        let _known = self.unregister_detached_worker(id);
        let ghost cleared = *self;
        let ghost before = self.detached_workers@;
        proof {
            assert forall|k: int| 0 <= k < before.len() implies (#[trigger] before[k]).worker_id
                != id by {
                if before[k].worker_id == id {
                    lemma_detached_at(before, k);
                }
            }
        }
        self.detached_workers.push(control);
        proof {
            let after = self.detached_workers@;
            assert(after.drop_last() =~= before);
            assert forall|a: int, b: int| 0 <= a < b < after.len() implies (
            #[trigger] after[a]).worker_id != (#[trigger] after[b]).worker_id by {
                assert(after[a] == before[a]);
                if b < before.len() {
                    assert(after[b] == before[b]);
                }
            }
            assert forall|other: WorkerId| other != id implies #[trigger] self.worker(other)
                == old(self).worker(other) by {
                assert(cleared.worker(other) == old(self).worker(other));
                assert(after.last().worker_id != other);
            }
        }
    }

    fn find_detached(&self, id: WorkerId) -> (found: Option<usize>)
        requires
            distinct_workers(self.detached_workers@),
        ensures
            match found {
                Some(i) => i < self.detached_workers@.len()
                    && self.detached_workers@[i as int].worker_id == id && self.worker(id) == Some(
                    self.detached_workers@[i as int],
                ),
                None => self.worker(id) is None,
            },
    {
        let mut i: usize = 0;
        while i < self.detached_workers.len()
            invariant
                i <= self.detached_workers.len(),
                distinct_workers(self.detached_workers@),
                forall|k: int|
                    0 <= k < i ==> (#[trigger] self.detached_workers@[k]).worker_id != id,
            decreases self.detached_workers.len() - i,
        {
            if self.detached_workers[i].worker_id == id {
                proof {
                    lemma_detached_at(self.detached_workers@, i as int);
                }
                return Some(i);
            }
            i = i + 1;
        }
        proof {
            lemma_not_detached(self.detached_workers@, id);
        }
        None
    }

    /// A detached worker is gone. Tells whether it was known.
    pub fn unregister_detached_worker(&mut self, worker_id: WorkerId) -> (known: bool)
        requires
            old(self).wf(),
        ensures
            final(self).wf(),
            known == (old(self).worker(worker_id) is Some),
            final(self).worker(worker_id) is None,
            forall|id: WorkerId|
                id != worker_id ==> #[trigger] final(self).worker(id) == old(self).worker(id),
            final(self).channels@ == old(self).channels@,
    {
        let ghost before = self.detached_workers@;
        match self.find_detached(worker_id) {
            Some(i) => {
                let _record = self.detached_workers.remove(i);
                proof {
                    let after = self.detached_workers@;
                    lemma_without(before, after, i as int);
                }
                true
            },
            None => false,
        }
    }

    /// Cancels a detached worker, once: the first to ask wins, and whoever asks
    /// later is told that it is over. The second result tells whether the cancel
    /// signal is to be sent.
    pub fn cancel_detached_worker(&mut self, worker_id: WorkerId) -> (result: (
        ControlActionResult,
        bool,
    ))
        requires
            old(self).wf(),
        ensures
            final(self).wf(),
            final(self).channels@ == old(self).channels@,
            forall|id: WorkerId|
                id != worker_id ==> #[trigger] final(self).worker(id) == old(self).worker(id),
            match old(self).worker(worker_id) {
                None => result == (ControlActionResult::NotFound, false) && final(self).worker(
                    worker_id,
                ) is None,
                Some(control) => if control.lifecycle != DETACHED_WORKER_LIFECYCLE_ACTIVE {
                    result == (ControlActionResult::AlreadyTerminal, false) && final(self).worker(
                        worker_id,
                    ) == Some(control)
                } else {
                    &&& result == (ControlActionResult::Cancelled, control.cancel_pending)
                    &&& final(self).worker(worker_id) == Some(
                        DetachedWorkerControl {
                            lifecycle: DETACHED_WORKER_LIFECYCLE_KILLING,
                            cancel_pending: false,
                            ..control
                        },
                    )
                },
            },
    {
        let ghost before = self.detached_workers@;
        match self.find_detached(worker_id) {
            Some(i) => {
                if self.detached_workers[i].lifecycle != DETACHED_WORKER_LIFECYCLE_ACTIVE {
                    return (ControlActionResult::AlreadyTerminal, false);
                }
                let record = self.detached_workers.remove(i);
                proof {
                    lemma_without(before, self.detached_workers@, i as int);
                }
                let signal = record.cancel_pending;
                self.register_detached_worker(
                    DetachedWorkerControl {
                        worker_id: record.worker_id,
                        agent_id: record.agent_id,
                        task_number: record.task_number,
                        cancel_pending: false,
                        lifecycle: DETACHED_WORKER_LIFECYCLE_KILLING,
                    },
                );
                (ControlActionResult::Cancelled, signal)
            },
            None => (ControlActionResult::NotFound, false),
        }
    }

    /// The handle of a channel, through which a worker or a branch of it can be
    /// cancelled.
    pub fn channel_handle(&self, channel_id: &str) -> (handle: Option<u64>)
        ensures
            handle == self.handle(channel_id@),
    {
        match find_member(&self.channels, channel_id) {
            Some(handle) => Some(*handle),
            None => None,
        }
    }

    /// Whether a registry answers for a channel: with what the channel's own
    /// control said, or, where the channel is unknown or its handle dead, that
    /// there is nothing to cancel. A channel with a dead handle is forgotten.
    pub open spec fn answers(
        before: ProcessControlRegistry,
        channel_id: Seq<char>,
        outcome: Option<ControlActionResult>,
        result: ControlActionResult,
        after: ProcessControlRegistry,
    ) -> bool {
        &&& after.detached_workers@ == before.detached_workers@
        &&& match (before.handle(channel_id), outcome) {
            (Some(_), Some(said)) => result == said && after.channels@ == before.channels@,
            _ => {
                &&& result == ControlActionResult::NotFound
                &&& after.handle(channel_id) is None
                &&& forall|id: Seq<char>|
                    id != channel_id ==> #[trigger] after.handle(id) == before.handle(id)
            },
        }
    }

    fn cancel_in_channel(&mut self, channel_id: &str, outcome: Option<ControlActionResult>) -> (result: ControlActionResult)
        requires
            old(self).wf(),
        ensures
            final(self).wf(),
            ProcessControlRegistry::answers(
                *old(self),
                channel_id@,
                outcome,
                result,
                *final(self),
            ),
    {
        if self.channel_handle(channel_id).is_none() {
            return ControlActionResult::NotFound;
        }
        match outcome {
            Some(said) => said,
            None => {
                let _known = self.unregister_channel(channel_id);
                ControlActionResult::NotFound
            },
        }
    }

    /// The result of cancelling a worker of a channel. `outcome` is what the
    /// channel's own control said, and `None` where its handle was dead.
    pub fn cancel_channel_worker(&mut self, channel_id: &str, outcome: Option<ControlActionResult>) -> (result: ControlActionResult)
        requires
            old(self).wf(),
        ensures
            final(self).wf(),
            ProcessControlRegistry::answers(
                *old(self),
                channel_id@,
                outcome,
                result,
                *final(self),
            ),
    {
        self.cancel_in_channel(channel_id, outcome)
    }

    /// The result of cancelling a branch of a channel. `outcome` is what the
    /// channel's own control said, and `None` where its handle was dead.
    pub fn cancel_channel_branch(&mut self, channel_id: &str, outcome: Option<ControlActionResult>) -> (result: ControlActionResult)
        requires
            old(self).wf(),
        ensures
            final(self).wf(),
            ProcessControlRegistry::answers(
                *old(self),
                channel_id@,
                outcome,
                result,
                *final(self),
            ),
    {
        self.cancel_in_channel(channel_id, outcome)
    }
}

impl Default for ProcessControlRegistry {
    fn default() -> (registry: ProcessControlRegistry)
        ensures
            registry.wf(),
            forall|id: Seq<char>| #[trigger] registry.handle(id) is None,
            forall|id: WorkerId| #[trigger] registry.worker(id) is None,
    {
        ProcessControlRegistry::new()
    }
}

fn is_live(live: &Vec<u64>, handle: u64) -> (result: bool)
    ensures
        result == live@.contains(handle),
{
    let mut i: usize = 0;
    while i < live.len()
        invariant
            i <= live.len(),
            forall|k: int| 0 <= k < i ==> live@[k] != handle,
        decreases live.len() - i,
    {
        if live[i] == handle {
            assert(live@[i as int] == handle);
            return true;
        }
        i = i + 1;
    }
    false
}

proof fn lemma_without(
    before: Seq<DetachedWorkerControl>,
    after: Seq<DetachedWorkerControl>,
    at: int,
)
    requires
        0 <= at < before.len(),
        distinct_workers(before),
        after == before.remove(at),
    ensures
        distinct_workers(after),
        detached(after, before[at].worker_id) is None,
        forall|id: WorkerId|
            id != before[at].worker_id ==> #[trigger] detached(after, id) == detached(before, id),
{
    assert forall|a: int, b: int| 0 <= a < b < after.len() implies (#[trigger] after[a]).worker_id
        != (#[trigger] after[b]).worker_id by {
        let left = if a < at {
            a
        } else {
            a + 1
        };
        let right = if b < at {
            b
        } else {
            b + 1
        };
        assert(after[a] == before[left] && after[b] == before[right]);
    }
    assert forall|k: int| 0 <= k < after.len() implies (#[trigger] after[k]).worker_id
        != before[at].worker_id by {
        let from = if k < at {
            k
        } else {
            k + 1
        };
        assert(after[k] == before[from]);
    }
    lemma_not_detached(after, before[at].worker_id);
    assert forall|id: WorkerId| id != before[at].worker_id implies #[trigger] detached(after, id)
        == detached(before, id) by {
        assert forall|i: int|
            0 <= i < before.len() && (#[trigger] before[i]).worker_id == id implies after.contains(
            before[i],
        ) by {
            let k = if i < at {
                i
            } else {
                i - 1
            };
            assert(after[k] == before[i]);
        }
        assert forall|i: int|
            0 <= i < after.len() && (#[trigger] after[i]).worker_id == id implies before.contains(
            after[i],
        ) by {
            let k = if i < at {
                i
            } else {
                i + 1
            };
            assert(before[k] == after[i]);
        }
        lemma_same_detached(before, after, id);
    }
}

proof fn lemma_kept(
    before: Seq<(ChannelId, u64)>,
    kept: Seq<(ChannelId, u64)>,
    live: Seq<u64>,
    id: Seq<char>,
)
    requires
        distinct_names(before),
        distinct_names(kept),
        forall|k: int|
            0 <= k < kept.len() ==> live.contains((#[trigger] kept[k]).1) && exists|j: int|
                0 <= j < before.len() && #[trigger] before[j] == kept[k],
        forall|j: int|
            0 <= j < before.len() && live.contains((#[trigger] before[j]).1) ==> kept.contains(
                before[j],
            ),
    ensures
        member(kept, id) == match member(before, id) {
            Some(handle) => if live.contains(handle) {
                Some(handle)
            } else {
                None
            },
            None => None,
        },
{
    if exists|k: int| 0 <= k < kept.len() && (#[trigger] kept[k]).0@ == id {
        let k = choose|k: int| 0 <= k < kept.len() && (#[trigger] kept[k]).0@ == id;
        lemma_present(kept, k);
        let j = choose|j: int| 0 <= j < before.len() && #[trigger] before[j] == kept[k];
        lemma_present(before, j);
    } else {
        lemma_absent(kept, id);
        if exists|j: int| 0 <= j < before.len() && (#[trigger] before[j]).0@ == id {
            let j = choose|j: int| 0 <= j < before.len() && (#[trigger] before[j]).0@ == id;
            lemma_present(before, j);
            if live.contains(before[j].1) {
                assert(kept.contains(before[j]));
                let k = choose|k: int| 0 <= k < kept.len() && kept[k] == before[j];
                assert(kept[k].0@ == id);
                assert(false);
            }
        } else {
            lemma_absent(before, id);
        }
    }
}

/// What a request to cancel does to a worker's record, and what it answers.
pub open spec fn cancelled(control: DetachedWorkerControl) -> (
    DetachedWorkerControl,
    ControlActionResult,
    bool,
) {
    if control.lifecycle != DETACHED_WORKER_LIFECYCLE_ACTIVE {
        (control, ControlActionResult::AlreadyTerminal, false)
    } else {
        (
            DetachedWorkerControl {
                lifecycle: DETACHED_WORKER_LIFECYCLE_KILLING,
                cancel_pending: false,
                ..control
            },
            ControlActionResult::Cancelled,
            control.cancel_pending,
        )
    }
}

/// Of two requests to cancel a worker at most one wins, and the signal is sent
/// at most once.
pub proof fn law_cancel_has_a_single_winner(control: DetachedWorkerControl)
    ensures
        ({
            let (after, _first, _signal) = cancelled(control);
            let (last, second, again) = cancelled(after);
            &&& second == ControlActionResult::AlreadyTerminal
            &&& !again
            &&& last == after
        }),
{
}

/// Of the records of a worker the last one counts, wherever it stands.
pub proof fn law_last_record_counts(workers: Seq<DetachedWorkerControl>, id: WorkerId, at: int)
    requires
        0 <= at < workers.len(),
        workers[at].worker_id == id,
        forall|later: int| at < later < workers.len() ==> (#[trigger] workers[later]).worker_id != id,
    ensures
        detached(workers, id) == Some(workers[at]),
    decreases workers.len(),
{
    if at < workers.len() - 1 {
        let shorter = workers.drop_last();
        assert(workers[workers.len() - 1].worker_id != id);
        assert forall|later: int| at < later < shorter.len() implies (
        #[trigger] shorter[later]).worker_id != id by {
            assert(workers[later].worker_id != id);
        }
        law_last_record_counts(shorter, id, at);
    }
}

/// A request to cancel an active worker wins, and the signal goes out where it has
/// not yet; nothing else of the record changes. A worker that is not active any more
/// is left alone.
pub proof fn law_active_worker_is_cancelled(control: DetachedWorkerControl)
    ensures
        ({
            let (after, result, signal) = cancelled(control);
            &&& after.worker_id == control.worker_id
            &&& after.agent_id == control.agent_id
            &&& after.task_number == control.task_number
            &&& control.lifecycle == DETACHED_WORKER_LIFECYCLE_ACTIVE ==> {
                &&& result == ControlActionResult::Cancelled
                &&& signal == control.cancel_pending
                &&& after.lifecycle == DETACHED_WORKER_LIFECYCLE_KILLING
                &&& !after.cancel_pending
            }
            &&& control.lifecycle != DETACHED_WORKER_LIFECYCLE_ACTIVE ==> result
                == ControlActionResult::AlreadyTerminal && !signal && after == control
            &&& DETACHED_WORKER_LIFECYCLE_ACTIVE != DETACHED_WORKER_LIFECYCLE_KILLING
        }),
{
}

/// What a channel that is known and alive says to a request is the answer, and
/// nothing changes. A channel that is gone is forgotten, and no other is.
pub proof fn law_channel_answers_for_itself(
    before: ProcessControlRegistry,
    channel_id: Seq<char>,
    outcome: Option<ControlActionResult>,
    result: ControlActionResult,
    after: ProcessControlRegistry,
    other: Seq<char>,
)
    requires
        ProcessControlRegistry::answers(before, channel_id, outcome, result, after),
    ensures
        before.handle(channel_id) is Some ==> (outcome matches Some(said) ==> result == said
            && after.handle(channel_id) == before.handle(channel_id)),
        before.handle(channel_id) is None || outcome is None ==> result
            == ControlActionResult::NotFound && after.handle(channel_id) is None,
        other != channel_id ==> after.handle(other) == before.handle(other),
        after.detached_workers@ == before.detached_workers@,
{
}

} // verus!
