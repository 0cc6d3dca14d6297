//! Branch and worker spawning for channels.

use crate::agent::channel_state::ChannelState;
use crate::agent::status::is_new_worker;
use crate::agent::warmup::{forced_warmup_reason, WarmupConfig, WarmupState};
use crate::events::ProcessEvent;
use crate::ids::{AgentId, BranchId, ChannelId, WorkerId};
use crate::text::{clone_option, view_of};
use vstd::prelude::*;
use vstd::string::*;

verus! {

broadcast use vstd::std_specs::hash::group_hash_axioms;

/// Why a process could not be started, or ended.
#[derive(Debug, Clone, PartialEq)]
pub enum AgentError {
    WorkerLimitReached { channel_id: String, max: usize },
    BranchLimitReached { channel_id: String, max: usize },
    Cancelled { reason: String },
    Other(String),
}

/// Why a worker failed: it was cancelled, or something went wrong that has a
/// text.
#[derive(Debug, Clone, PartialEq)]
pub enum WorkerError {
    Cancelled { reason: String },
    Other { message: String },
}

/// Validate worker capacity for a channel based on current active worker count.
pub fn reserve_worker_slot_local(active_worker_count: usize, channel_id: &str, max_workers: usize) -> (result: Result<
    (),
    AgentError,
>)
    ensures
        match result {
            Ok(_) => active_worker_count < max_workers,
            Err(error) => active_worker_count >= max_workers && is_worker_limit(
                error,
                channel_id@,
                max_workers,
            ),
        },
{
    if active_worker_count >= max_workers {
        return Err(
            AgentError::WorkerLimitReached { channel_id: channel_id.to_owned(), max: max_workers },
        );
    }
    Ok(())
}

/// Whether an error says that a channel runs as many workers as it may.
pub open spec fn is_worker_limit(error: AgentError, channel: Seq<char>, limit: usize) -> bool {
    error matches AgentError::WorkerLimitReached { channel_id, max } && channel_id@ == channel
        && max == limit
}

/// Whether an error says that a channel runs as many branches as it may.
pub open spec fn is_branch_limit(error: AgentError, channel: Seq<char>, limit: usize) -> bool {
    error matches AgentError::BranchLimitReached { channel_id, max } && channel_id@ == channel
        && max == limit
}

/// How a worker ended.
#[derive(Debug, Clone, Copy, PartialEq, Eq, Structural)]
pub enum WorkerCompletionKind {
    Success,
    Cancelled,
    Failed,
}

/// Why a worker has no result.
#[derive(Debug, Clone, PartialEq)]
pub enum WorkerCompletionError {
    Cancelled { reason: String },
    Failed { message: String },
}

impl WorkerCompletionError {
    pub fn failed(message: String) -> (error: WorkerCompletionError)
        ensures
            error == (WorkerCompletionError::Failed { message }),
    {
        WorkerCompletionError::Failed { message }
    }

    /// A worker that was cancelled is told apart from one that failed.
    pub fn from_spacebot_error(error: WorkerError) -> (result: WorkerCompletionError)
        ensures
            result == match error {
                WorkerError::Cancelled { reason } => WorkerCompletionError::Cancelled { reason },
                WorkerError::Other { message } => WorkerCompletionError::Failed { message },
            },
    {
        match error {
            WorkerError::Cancelled { reason } => WorkerCompletionError::Cancelled { reason },
            WorkerError::Other { message } => WorkerCompletionError::Failed { message },
        }
    }
}

/// What a worker's result is told as.
pub open spec fn completion_text(result: Result<String, WorkerCompletionError>) -> Seq<char> {
    match result {
        Ok(text) => text@,
        Err(WorkerCompletionError::Cancelled { reason }) => "Worker cancelled: "@ + reason@,
        Err(WorkerCompletionError::Failed { message }) => "Worker failed: "@ + message@,
    }
}

pub open spec fn completion_kind(result: Result<String, WorkerCompletionError>) -> WorkerCompletionKind {
    match result {
        Ok(_) => WorkerCompletionKind::Success,
        Err(WorkerCompletionError::Cancelled { .. }) => WorkerCompletionKind::Cancelled,
        Err(WorkerCompletionError::Failed { .. }) => WorkerCompletionKind::Failed,
    }
}

/// The text and the kind of a worker's result.
pub fn classify_worker_completion_result(result: Result<String, WorkerCompletionError>) -> (classified: (
    String,
    WorkerCompletionKind,
))
    ensures
        classified.0@ == completion_text(result),
        classified.1 == completion_kind(result),
{
    match result {
        Ok(text) => (text, WorkerCompletionKind::Success),
        Err(WorkerCompletionError::Cancelled { reason }) => (
            "Worker cancelled: ".to_owned().concat(reason.as_str()),
            WorkerCompletionKind::Cancelled,
        ),
        Err(WorkerCompletionError::Failed { message }) => (
            "Worker failed: ".to_owned().concat(message.as_str()),
            WorkerCompletionKind::Failed,
        ),
    }
}

/// Whether the channel is told, and whether the worker succeeded.
pub fn completion_flags(kind: WorkerCompletionKind) -> (flags: (bool, bool))
    ensures
        flags.0,
        flags.1 == (kind == WorkerCompletionKind::Success),
{
    (true, kind == WorkerCompletionKind::Success)
}

/// Normalize worker completion into event payload fields.
pub fn map_worker_completion_result(result: Result<String, WorkerCompletionError>) -> (fields: (
    String,
    bool,
    bool,
))
    ensures
        fields.0@ == completion_text(result),
        fields.1,
        fields.2 == (result is Ok),
{
    let (text, kind) = classify_worker_completion_result(result);
    let (notify, success) = completion_flags(kind);
    (text, notify, success)
}

/// What running a worker's task came to.
#[derive(Debug, Clone, PartialEq)]
pub enum WorkerOutcome {
    Finished(String),
    Failed(WorkerError),
    /// The task panicked, with a message where it left one.
    Panicked(Option<String>),
}

/// The text of a worker that secrets are to be taken out of before anybody is
/// told: its result, what went wrong, the reason it was cancelled for, or the
/// message that its task panicked with.
pub open spec fn secret_text(outcome: WorkerOutcome) -> Seq<char> {
    match outcome {
        WorkerOutcome::Finished(text) => text@,
        WorkerOutcome::Failed(WorkerError::Cancelled { reason }) => reason@,
        WorkerOutcome::Failed(WorkerError::Other { message }) => message@,
        WorkerOutcome::Panicked(Some(message)) => message@,
        WorkerOutcome::Panicked(None) => "unknown panic payload"@,
    }
}

/// The text of a worker that secrets are to be taken out of.
pub fn text_to_scrub(outcome: &WorkerOutcome) -> (text: &str)
    ensures
        text@ == secret_text(*outcome),
{
    match outcome {
        WorkerOutcome::Finished(text) => text.as_str(),
        WorkerOutcome::Failed(WorkerError::Cancelled { reason }) => reason.as_str(),
        WorkerOutcome::Failed(WorkerError::Other { message }) => message.as_str(),
        WorkerOutcome::Panicked(Some(message)) => message.as_str(),
        WorkerOutcome::Panicked(None) => "unknown panic payload",
    }
}

/// What the channel is told of a worker: how it ended, and the scrubbed text.
/// Nothing else of what the worker left is in it.
pub open spec fn told_text(outcome: WorkerOutcome, scrubbed: Seq<char>) -> Seq<char> {
    match outcome {
        WorkerOutcome::Finished(_) => scrubbed,
        WorkerOutcome::Failed(WorkerError::Cancelled { .. }) => "Worker cancelled: "@ + scrubbed,
        WorkerOutcome::Failed(WorkerError::Other { .. }) => "Worker failed: "@ + scrubbed,
        WorkerOutcome::Panicked(_) => "Worker failed: "@ + ("worker task panicked: "@ + scrubbed),
    }
}

/// Whether two workers ended in the same way.
pub open spec fn ended_alike(first: WorkerOutcome, second: WorkerOutcome) -> bool {
    match (first, second) {
        (WorkerOutcome::Finished(_), WorkerOutcome::Finished(_)) => true,
        (WorkerOutcome::Failed(one), WorkerOutcome::Failed(other)) => one is Cancelled
            == other is Cancelled,
        (WorkerOutcome::Panicked(_), WorkerOutcome::Panicked(_)) => true,
        _ => false,
    }
}

/// Nothing that a worker left reaches the channel but what scrubbing made of it:
/// with the same scrubbed text, two workers that ended in the same way are told
/// in the same words, whatever they left.
pub proof fn law_only_scrubbed_text_is_told(
    first: WorkerOutcome,
    second: WorkerOutcome,
    scrubbed: Seq<char>,
)
    requires
        ended_alike(first, second),
    ensures
        told_text(first, scrubbed) == told_text(second, scrubbed),
{
}

/// The event that tells of a worker's end. `scrubbed` is the text to scrub
/// without its secrets.
pub fn worker_complete_event(
    worker_id: WorkerId,
    agent_id: AgentId,
    channel_id: Option<ChannelId>,
    outcome: WorkerOutcome,
    scrubbed: String,
) -> (event: ProcessEvent)
    ensures
        event matches ProcessEvent::WorkerComplete {
            agent_id: agent,
            worker_id: worker,
            channel_id: channel,
            result,
            notify,
            success,
        } && agent == agent_id && worker == worker_id && channel == channel_id && result@
            == told_text(outcome, scrubbed@) && notify && success == (outcome is Finished),
{
    let result = match outcome {
        WorkerOutcome::Finished(_) => Ok(scrubbed),
        WorkerOutcome::Failed(error) => {
            match WorkerCompletionError::from_spacebot_error(error) {
                WorkerCompletionError::Cancelled { .. } => Err(
                    WorkerCompletionError::Cancelled { reason: scrubbed },
                ),
                WorkerCompletionError::Failed { .. } => Err(
                    WorkerCompletionError::Failed { message: scrubbed },
                ),
            }
        },
        WorkerOutcome::Panicked(_) => Err(
            WorkerCompletionError::failed(
                "worker task panicked: ".to_owned().concat(scrubbed.as_str()),
            ),
        ),
    };
    let (text, notify, success) = map_worker_completion_result(result);
    ProcessEvent::WorkerComplete { agent_id, worker_id, channel_id, result: text, notify, success }
}

/// What a branch that failed is said to have come to, before secrets are taken
/// out of it.
pub fn branch_failure_text(error: &str) -> (text: String)
    ensures
        text@ == "Branch failed: "@ + error@,
{
    "Branch failed: ".to_owned().concat(error)
}

/// Why an agent is not ready for work.
#[derive(Debug, Clone, Copy, PartialEq, Eq, Structural)]
pub enum WorkReadinessReason {
    EmbeddingNotReady,
    /// Any other reason.
    NotWarm,
}

/// Whether an agent is ready for work.
#[derive(Debug, Clone, Copy, PartialEq, Eq, Structural)]
pub struct WorkReadiness {
    pub ready: bool,
    pub reason: Option<WorkReadinessReason>,
    pub warmup_state: WarmupState,
}

/// Whether handing out work forces a warm-up: the agent is not ready, no pass is
/// under way, and a pass can help.
pub open spec fn forces_warmup(readiness: WorkReadiness, config: WarmupConfig) -> bool {
    &&& !readiness.ready
    &&& readiness.warmup_state != WarmupState::Warming
    &&& readiness.reason != Some(WorkReadinessReason::EmbeddingNotReady)
        || config.eager_embedding_load
}

/// The reason of the warm-up that handing out work forces, where it forces one.
pub open spec fn is_forced(
    reason: Option<String>,
    readiness: WorkReadiness,
    config: WarmupConfig,
    dispatch_type: Seq<char>,
) -> bool {
    view_of(reason) == if forces_warmup(readiness, config) {
        Some("dispatch_"@ + dispatch_type)
    } else {
        None
    }
}

/// Checks that an agent is ready before work is handed out. Work is never held
/// back; where the agent is not ready a warm-up may be forced, for a reason.
pub fn ensure_dispatch_readiness(readiness: WorkReadiness, warmup_config: WarmupConfig, dispatch_type: &str) -> (forced: Option<
    String,
>)
    ensures
        is_forced(forced, readiness, warmup_config, dispatch_type@),
{
    if readiness.ready {
        return None;
    }
    let embedding = match readiness.reason {
        Some(reason) => reason == WorkReadinessReason::EmbeddingNotReady,
        None => false,
    };
    if readiness.warmup_state != WarmupState::Warming && (!embedding
        || warmup_config.eager_embedding_load) {
        Some(forced_warmup_reason(dispatch_type))
    } else {
        None
    }
}

/// What starting processes goes by.
#[derive(Debug, Clone, Copy, PartialEq, Eq, Structural)]
pub struct DispatchLimits {
    pub max_branches: usize,
    pub max_workers: usize,
    pub readiness: WorkReadiness,
    pub warmup_config: WarmupConfig,
}

/// A branch to start.
#[derive(Debug, Clone)]
pub struct BranchSpawn {
    pub branch_id: BranchId,
    pub description: String,
    pub prompt: String,
    pub system_prompt: String,
    /// The event that tells of it.
    pub started: ProcessEvent,
}

/// A worker to start.
#[derive(Debug, Clone)]
pub struct WorkerSpawn {
    pub worker_id: WorkerId,
    /// The task with what the worker is told of the time.
    pub worker_task: String,
    pub system_prompt: String,
    pub interactive: bool,
    /// The event that tells of it.
    pub started: ProcessEvent,
}

/// Whether a branch is registered: it runs, the status block shows it, and
/// nothing else changed.
pub open spec fn has_branch_added(
    before: ChannelState,
    branch_id: BranchId,
    label: Seq<char>,
    after: ChannelState,
) -> bool {
    let shown = after.status_block.active_branches@;
    &&& after.same_talk(before)
    &&& after.active_branches@ == before.active_branches@.insert(branch_id)
    &&& after.active_workers@ == before.active_workers@
    &&& after.worker_handles@ == before.worker_handles@
    &&& after.worker_inputs@ == before.worker_inputs@
    &&& shown.len() == before.status_block.active_branches@.len() + 1
    &&& shown.drop_last() == before.status_block.active_branches@
    &&& shown.last().id == branch_id
    &&& shown.last().description@ == label
    &&& after.status_block.active_workers@ == before.status_block.active_workers@
    &&& after.status_block.completed_items@ == before.status_block.completed_items@
    &&& before.status_block.wf() ==> after.status_block.wf()
}

/// Whether an event tells of a branch of a channel.
pub open spec fn tells_of_branch(
    event: ProcessEvent,
    state: ChannelState,
    branch_id: BranchId,
    label: Seq<char>,
) -> bool {
    event matches ProcessEvent::BranchStarted {
        agent_id,
        branch_id: id,
        channel_id,
        description,
        reply_to_message_id,
    } && agent_id == state.agent_id && id == branch_id && channel_id == state.channel_id
        && description@ == label && reply_to_message_id == state.reply_target_message_id
}

/// Shared branch spawning logic: checks the branch limit and registers the
/// branch in the channel. Gives the reason of a warm-up that is forced.
pub fn spawn_branch(
    state: &mut ChannelState,
    branch_id: BranchId,
    description: String,
    prompt: String,
    system_prompt: String,
    status_label: String,
    dispatch_type: &str,
    limits: DispatchLimits,
) -> (result: (Option<String>, Result<BranchSpawn, AgentError>))
    ensures
        match result.1 {
            Ok(branch) => {
                &&& old(state).active_branches@.len() < limits.max_branches
                &&& is_forced(result.0, limits.readiness, limits.warmup_config, dispatch_type@)
                &&& branch.branch_id == branch_id
                &&& branch.description == description
                &&& branch.prompt == prompt
                &&& branch.system_prompt == system_prompt
                &&& tells_of_branch(branch.started, *old(state), branch_id, status_label@)
                &&& has_branch_added(*old(state), branch_id, status_label@, *final(state))
            },
            Err(error) => {
                &&& old(state).active_branches@.len() >= limits.max_branches
                &&& result.0 is None
                &&& is_branch_limit(error, old(state).channel_id@, limits.max_branches)
                &&& *final(state) == *old(state)
            },
        },
{
    if state.active_branches.len() >= limits.max_branches {
        return (
            None,
            Err(
                AgentError::BranchLimitReached {
                    channel_id: state.channel_id.clone(),
                    max: limits.max_branches,
                },
            ),
        );
    }
    let forced = ensure_dispatch_readiness(limits.readiness, limits.warmup_config, dispatch_type);
    let _new = state.active_branches.insert(branch_id);
    state.status_block.add_branch(branch_id, status_label.clone());
    let started = ProcessEvent::BranchStarted {
        agent_id: state.agent_id.clone(),
        branch_id,
        channel_id: state.channel_id.clone(),
        description: status_label,
        reply_to_message_id: clone_option(&state.reply_target_message_id),
    };
    (forced, Ok(BranchSpawn { branch_id, description, prompt, system_prompt, started }))
}

/// Spawn a branch that a tool asks for. A system prompt that could not be
/// rendered is an error.
pub fn spawn_branch_from_state(
    state: &mut ChannelState,
    branch_id: BranchId,
    description: String,
    system_prompt: Result<String, String>,
    limits: DispatchLimits,
) -> (result: (Option<String>, Result<BranchSpawn, AgentError>))
    ensures
        match (system_prompt, result.1) {
            (Err(text), Err(error)) => error == AgentError::Other(text) && result.0 is None
                && *final(state) == *old(state),
            (Ok(rendered), Ok(branch)) => {
                &&& old(state).active_branches@.len() < limits.max_branches
                &&& is_forced(result.0, limits.readiness, limits.warmup_config, "branch"@)
                &&& branch.branch_id == branch_id
                &&& branch.description@ == description@
                &&& branch.prompt@ == description@
                &&& branch.system_prompt == rendered
                &&& tells_of_branch(branch.started, *old(state), branch_id, description@)
                &&& has_branch_added(*old(state), branch_id, description@, *final(state))
            },
            (Ok(_), Err(error)) => {
                &&& old(state).active_branches@.len() >= limits.max_branches
                &&& result.0 is None
                &&& is_branch_limit(error, old(state).channel_id@, limits.max_branches)
                &&& *final(state) == *old(state)
            },
            (Err(_), Ok(_)) => false,
        },
{
    match system_prompt {
        Ok(rendered) => spawn_branch(
            state,
            branch_id,
            description.clone(),
            description.clone(),
            rendered,
            description,
            "branch",
            limits,
        ),
        Err(text) => (None, Err(AgentError::Other(text))),
    }
}

/// Spawn a silent memory persistence branch. Its result is not for the user.
pub fn spawn_memory_persistence_branch(
    state: &mut ChannelState,
    branch_id: BranchId,
    system_prompt: Result<String, String>,
    prompt: Result<String, String>,
    limits: DispatchLimits,
) -> (result: (Option<String>, Result<BranchSpawn, AgentError>))
    ensures
        match (system_prompt, prompt, result.1) {
            (Err(text), _, Err(error)) => error == AgentError::Other(text) && result.0 is None
                && *final(state) == *old(state),
            (Ok(_), Err(text), Err(error)) => error == AgentError::Other(text) && result.0 is None
                && *final(state) == *old(state),
            (Ok(rendered), Ok(asked), Ok(branch)) => {
                &&& old(state).active_branches@.len() < limits.max_branches
                &&& is_forced(
                    result.0,
                    limits.readiness,
                    limits.warmup_config,
                    "memory_persistence_branch"@,
                )
                &&& branch.branch_id == branch_id
                &&& branch.description@ == "memory persistence"@
                &&& branch.prompt == asked
                &&& branch.system_prompt == rendered
                &&& tells_of_branch(
                    branch.started,
                    *old(state),
                    branch_id,
                    "persisting memories..."@,
                )
                &&& has_branch_added(
                    *old(state),
                    branch_id,
                    "persisting memories..."@,
                    *final(state),
                )
            },
            (Ok(_), Ok(_), Err(error)) => {
                &&& old(state).active_branches@.len() >= limits.max_branches
                &&& result.0 is None
                &&& is_branch_limit(error, old(state).channel_id@, limits.max_branches)
                &&& *final(state) == *old(state)
            },
            _ => false,
        },
{
    match system_prompt {
        Ok(rendered) => match prompt {
            Ok(asked) => spawn_branch(
                state,
                branch_id,
                "memory persistence".to_owned(),
                asked,
                rendered,
                "persisting memories...".to_owned(),
                "memory_persistence_branch",
                limits,
            ),
            Err(text) => (None, Err(AgentError::Other(text))),
        },
        Err(text) => (None, Err(AgentError::Other(text))),
    }
}

/// Check whether the channel has capacity for another worker.
pub fn check_worker_limit(state: &ChannelState, max_workers: usize) -> (result: Result<(), AgentError>)
    ensures
        match result {
            Ok(_) => state.active_workers@.len() < max_workers,
            Err(error) => state.active_workers@.len() >= max_workers && is_worker_limit(
                error,
                state.channel_id@,
                max_workers,
            ),
        },
{
    reserve_worker_slot_local(state.active_workers.len(), state.channel_id.as_str(), max_workers)
}

/// Whether a worker is registered: it can be aborted, takes input where it is
/// interactive, the status block shows it, and nothing else changed.
pub open spec fn has_worker_added(
    before: ChannelState,
    worker_id: WorkerId,
    task: String,
    interactive: bool,
    after: ChannelState,
) -> bool {
    let shown = after.status_block.active_workers@;
    &&& after.same_talk(before)
    &&& after.active_branches@ == before.active_branches@
    &&& after.active_workers@ == before.active_workers@
    &&& after.worker_handles@ == before.worker_handles@.insert(worker_id)
    &&& after.worker_inputs@ == if interactive {
        before.worker_inputs@.insert(worker_id)
    } else {
        before.worker_inputs@
    }
    &&& shown.len() == before.status_block.active_workers@.len() + 1
    &&& shown.drop_last() == before.status_block.active_workers@
    &&& is_new_worker(shown.last(), worker_id, task, false)
    &&& after.status_block.active_branches@ == before.status_block.active_branches@
    &&& after.status_block.completed_items@ == before.status_block.completed_items@
    &&& before.status_block.wf() ==> after.status_block.wf()
}

/// Whether an event tells of a worker of a channel.
pub open spec fn tells_of_worker(
    event: ProcessEvent,
    state: ChannelState,
    worker_id: WorkerId,
    task: Seq<char>,
    kind: Seq<char>,
) -> bool {
    event matches ProcessEvent::WorkerStarted {
        agent_id,
        worker_id: id,
        channel_id,
        task: told,
        worker_type,
    } && agent_id == state.agent_id && id == worker_id && channel_id == Some(state.channel_id)
        && told@ == task && worker_type@ == kind
}

/// Registers a worker in the channel.
fn register_worker(
    state: &mut ChannelState,
    worker_id: WorkerId,
    task: String,
    interactive: bool,
    worker_type: &str,
) -> (event: ProcessEvent)
    ensures
        tells_of_worker(event, *old(state), worker_id, task@, worker_type@),
        has_worker_added(*old(state), worker_id, task, interactive, *final(state)),
{
    if interactive {
        let _input = state.worker_inputs.insert(worker_id);
    }
    let _handle = state.worker_handles.insert(worker_id);
    state.status_block.add_worker(worker_id, task.clone(), false);
    ProcessEvent::WorkerStarted {
        agent_id: state.agent_id.clone(),
        worker_id,
        channel_id: Some(state.channel_id.clone()),
        task,
        worker_type: worker_type.to_owned(),
    }
}

/// The system prompt of a worker: its own, and the list of skills behind it
/// where there is one.
pub open spec fn worker_prompt(own: Seq<char>, skills: Result<String, String>) -> Seq<char> {
    match skills {
        Ok(listing) => if listing@.len() > 0 {
            own + "\n\n"@ + listing@
        } else {
            own
        },
        Err(_) => own,
    }
}

/// The system prompt of a worker.
pub fn worker_system_prompt(own: String, skills: &Result<String, String>) -> (prompt: String)
    ensures
        prompt@ == worker_prompt(own@, *skills),
{
    match skills {
        Ok(listing) => if listing.as_str().is_empty() {
            own
        } else {
            own.concat("\n\n").concat(listing.as_str())
        },
        Err(_) => own,
    }
}

/// What was rendered for a worker.
#[derive(Debug)]
pub struct WorkerPrompts {
    /// The task with what the worker is told of the time.
    pub worker_task: Result<String, String>,
    pub system_prompt: Result<String, String>,
    pub skills: Result<String, String>,
}

/// Spawn a worker that a tool asks for.
pub fn spawn_worker_from_state(
    state: &mut ChannelState,
    worker_id: WorkerId,
    task: String,
    interactive: bool,
    prompts: WorkerPrompts,
    limits: DispatchLimits,
) -> (result: (Option<String>, Result<WorkerSpawn, AgentError>))
    ensures
        if old(state).active_workers@.len() >= limits.max_workers {
            &&& result.0 is None
            &&& result.1 is Err
            &&& is_worker_limit(result.1->Err_0, old(state).channel_id@, limits.max_workers)
            &&& *final(state) == *old(state)
        } else {
            &&& is_forced(result.0, limits.readiness, limits.warmup_config, "worker"@)
            &&& match (prompts.worker_task, prompts.system_prompt, result.1) {
                (Err(text), _, Err(error)) => error == AgentError::Other(text) && *final(state)
                    == *old(state),
                (Ok(_), Err(text), Err(error)) => error == AgentError::Other(text) && *final(state)
                    == *old(state),
                (Ok(worker_task), Ok(own), Ok(worker)) => {
                    &&& worker.worker_id == worker_id
                    &&& worker.worker_task == worker_task
                    &&& worker.system_prompt@ == worker_prompt(own@, prompts.skills)
                    &&& worker.interactive == interactive
                    &&& tells_of_worker(worker.started, *old(state), worker_id, task@, "builtin"@)
                    &&& has_worker_added(*old(state), worker_id, task, interactive, *final(state))
                },
                _ => false,
            }
        },
{
    match check_worker_limit(state, limits.max_workers) {
        Ok(_) => {},
        Err(error) => {
            return (None, Err(error));
        },
    }
    let forced = ensure_dispatch_readiness(limits.readiness, limits.warmup_config, "worker");
    let worker_task = match prompts.worker_task {
        Ok(text) => text,
        Err(text) => {
            return (forced, Err(AgentError::Other(text)));
        },
    };
    let own = match prompts.system_prompt {
        Ok(text) => text,
        Err(text) => {
            return (forced, Err(AgentError::Other(text)));
        },
    };
    let system_prompt = worker_system_prompt(own, &prompts.skills);
    let started = register_worker(state, worker_id, task, interactive, "builtin");
    (forced, Ok(WorkerSpawn { worker_id, worker_task, system_prompt, interactive, started }))
}

/// Whether a text is the task of an OpenCode worker.
pub open spec fn opencode_task(task: Seq<char>) -> Seq<char> {
    "[opencode] "@ + task
}

/// Spawn an OpenCode-backed worker for coding tasks. It has no system prompt of
/// this agent.
pub fn spawn_opencode_worker_from_state(
    state: &mut ChannelState,
    worker_id: WorkerId,
    task: &str,
    interactive: bool,
    worker_task: Result<String, String>,
    enabled: bool,
    limits: DispatchLimits,
) -> (result: (Option<String>, Result<WorkerSpawn, AgentError>))
    ensures
        if old(state).active_workers@.len() >= limits.max_workers {
            &&& result.0 is None
            &&& result.1 is Err
            &&& is_worker_limit(result.1->Err_0, old(state).channel_id@, limits.max_workers)
            &&& *final(state) == *old(state)
        } else {
            &&& is_forced(result.0, limits.readiness, limits.warmup_config, "opencode_worker"@)
            &&& match (worker_task, result.1) {
                (Err(text), Err(error)) => error == AgentError::Other(text) && *final(state)
                    == *old(state),
                (Ok(_), Err(error)) => {
                    &&& !enabled
                    &&& error is Other
                    &&& error->Other_0@ == "OpenCode workers are not enabled in config"@
                    &&& *final(state) == *old(state)
                },
                (Ok(told), Ok(worker)) => {
                    &&& enabled
                    &&& worker.worker_id == worker_id
                    &&& worker.worker_task == told
                    &&& worker.system_prompt@.len() == 0
                    &&& worker.interactive == interactive
                    &&& tells_of_worker(
                        worker.started,
                        *old(state),
                        worker_id,
                        opencode_task(task@),
                        "opencode"@,
                    )
                    &&& exists|shown: String|
                        shown@ == opencode_task(task@) && #[trigger] has_worker_added(
                            *old(state),
                            worker_id,
                            shown,
                            interactive,
                            *final(state),
                        )
                },
                _ => false,
            }
        },
{
    match check_worker_limit(state, limits.max_workers) {
        Ok(_) => {},
        Err(error) => {
            return (None, Err(error));
        },
    }
    let forced = ensure_dispatch_readiness(
        limits.readiness,
        limits.warmup_config,
        "opencode_worker",
    );
    let worker_task = match worker_task {
        Ok(text) => text,
        Err(text) => {
            return (forced, Err(AgentError::Other(text)));
        },
    };
    if !enabled {
        return (
            forced,
            Err(AgentError::Other("OpenCode workers are not enabled in config".to_owned())),
        );
    }
    let shown = "[opencode] ".to_owned().concat(task);
    let ghost text = shown;
    let started = register_worker(state, worker_id, shown, interactive, "opencode");
    assert(has_worker_added(*old(state), worker_id, text, interactive, *state));
    (
        forced,
        Ok(
            WorkerSpawn {
                worker_id,
                worker_task,
                system_prompt: String::new(),
                interactive,
                started,
            },
        ),
    )
}

/// A channel never runs more branches than it may: starting one more where the
/// limit allows it keeps to the limit.
pub proof fn law_branch_limit_holds(
    before: ChannelState,
    branch_id: BranchId,
    label: Seq<char>,
    after: ChannelState,
    limit: usize,
)
    requires
        before.active_branches@.len() < limit,
        before.active_branches@.finite(),
        has_branch_added(before, branch_id, label, after),
    ensures
        after.active_branches@.len() <= limit,
        after.active_branches@.contains(branch_id),
{
}

/// A worker's end is always told, as a success only where it has a result.
pub proof fn law_only_results_are_successes(result: Result<String, WorkerCompletionError>)
    ensures
        (completion_kind(result) == WorkerCompletionKind::Success) == (result is Ok),
{
}

/// What is told of a worker ends with its text without the secrets: alone where it
/// finished, and else behind how it ended.
pub proof fn law_worker_is_told_of(outcome: WorkerOutcome, scrubbed: Seq<char>)
    ensures
        ({
            let told = told_text(outcome, scrubbed);
            &&& told.len() >= scrubbed.len()
            &&& told.skip(told.len() - scrubbed.len()) == scrubbed
            &&& outcome is Finished ==> told == scrubbed
            &&& outcome matches WorkerOutcome::Failed(error) ==> told.take(
                told.len() - scrubbed.len(),
            ) == if error is Cancelled {
                "Worker cancelled: "@
            } else {
                "Worker failed: "@
            }
            &&& outcome is Panicked ==> told.take(told.len() - scrubbed.len()) == "Worker failed: "@
                + "worker task panicked: "@
        }),
{
    let told = told_text(outcome, scrubbed);
    let start = told.take(told.len() - scrubbed.len());
    assert(told.skip(told.len() - scrubbed.len()) =~= scrubbed);
    match outcome {
        WorkerOutcome::Finished(_) => {},
        WorkerOutcome::Failed(WorkerError::Cancelled { .. }) => {
            assert(start =~= "Worker cancelled: "@);
        },
        WorkerOutcome::Failed(WorkerError::Other { .. }) => {
            assert(start =~= "Worker failed: "@);
        },
        WorkerOutcome::Panicked(_) => {
            assert(start =~= "Worker failed: "@ + "worker task panicked: "@);
        },
    }
}

/// Whatever a worker leaves behind, all of it goes through the scrubbing.
pub proof fn law_all_text_is_scrubbed(text: String, reason: String)
    ensures
        secret_text(WorkerOutcome::Finished(text)) == text@,
        secret_text(WorkerOutcome::Failed(WorkerError::Cancelled { reason })) == reason@,
        secret_text(WorkerOutcome::Failed(WorkerError::Other { message: text })) == text@,
        secret_text(WorkerOutcome::Panicked(Some(text))) == text@,
        secret_text(WorkerOutcome::Panicked(None)) == "unknown panic payload"@,
{
}

/// The result of a worker that succeeded is told as it is; one that did not is told
/// with how it ended and why.
pub proof fn law_completion_is_told(
    result: Result<String, WorkerCompletionError>,
    text: Seq<char>,
)
    requires
        text == completion_text(result),
    ensures
        result matches Ok(said) ==> text == said@ && completion_kind(result)
            == WorkerCompletionKind::Success,
        result matches Err(WorkerCompletionError::Cancelled { reason }) ==> text
            == "Worker cancelled: "@ + reason@ && completion_kind(result)
            == WorkerCompletionKind::Cancelled,
        result matches Err(WorkerCompletionError::Failed { message }) ==> text == "Worker failed: "@
            + message@ && completion_kind(result) == WorkerCompletionKind::Failed,
{
}

/// Handing out work forces a warm-up where the agent is not ready, unless a pass is
/// under way already or the pass would not load the embedding that is missing.
pub proof fn law_unready_agent_is_warmed_up(
    readiness: WorkReadiness,
    config: WarmupConfig,
    dispatch_type: Seq<char>,
    forced: Option<String>,
)
    requires
        is_forced(forced, readiness, config, dispatch_type),
    ensures
        readiness.ready ==> forced is None,
        readiness.warmup_state == WarmupState::Warming ==> forced is None,
        !readiness.ready && readiness.warmup_state != WarmupState::Warming
            && config.eager_embedding_load ==> forced is Some,
        !readiness.ready && readiness.warmup_state != WarmupState::Warming && readiness.reason
            == Some(WorkReadinessReason::NotWarm) ==> forced is Some,
        readiness.reason == Some(WorkReadinessReason::EmbeddingNotReady)
            && !config.eager_embedding_load ==> forced is None,
        forced matches Some(reason) ==> reason@ == "dispatch_"@ + dispatch_type,
{
}

/// A branch that was started runs and is shown with its label behind those that
/// run; whatever else runs goes on.
pub proof fn law_started_branch_runs(
    before: ChannelState,
    branch_id: BranchId,
    label: Seq<char>,
    after: ChannelState,
    other: u128,
)
    requires
        has_branch_added(before, branch_id, label, after),
    ensures
        after.active_branches@.contains(branch_id),
        other != branch_id ==> after.active_branches@.contains(other)
            == before.active_branches@.contains(other),
        after.active_workers@ == before.active_workers@,
        after.worker_handles@ == before.worker_handles@,
        after.worker_inputs@ == before.worker_inputs@,
        after.history == before.history,
        after.status_block.active_branches@.len() == before.status_block.active_branches@.len() + 1,
        forall|i: int|
            0 <= i < before.status_block.active_branches@.len()
                ==> #[trigger] after.status_block.active_branches@[i]
                == before.status_block.active_branches@[i],
        after.status_block.active_branches@.last().id == branch_id,
        after.status_block.active_branches@.last().description@ == label,
        after.status_block.active_workers@ == before.status_block.active_workers@,
        after.status_block.completed_items@ == before.status_block.completed_items@,
{
    let shown = after.status_block.active_branches@;
    assert forall|i: int| 0 <= i < before.status_block.active_branches@.len() implies #[trigger] shown[i]
        == before.status_block.active_branches@[i] by {
        assert(shown.drop_last()[i] == shown[i]);
    }
}

/// A worker that was started can be aborted and is shown with its task behind those
/// that run; it takes input just where it is interactive. Whatever else runs goes
/// on.
pub proof fn law_started_worker_runs(
    before: ChannelState,
    worker_id: WorkerId,
    task: String,
    interactive: bool,
    after: ChannelState,
    other: u128,
)
    requires
        has_worker_added(before, worker_id, task, interactive, after),
    ensures
        after.worker_handles@.contains(worker_id),
        interactive ==> after.worker_inputs@.contains(worker_id),
        !interactive ==> after.worker_inputs@ == before.worker_inputs@,
        other != worker_id ==> after.worker_handles@.contains(other)
            == before.worker_handles@.contains(other) && after.worker_inputs@.contains(other)
            == before.worker_inputs@.contains(other),
        after.active_branches@ == before.active_branches@,
        after.active_workers@ == before.active_workers@,
        after.history == before.history,
        after.status_block.active_branches@ == before.status_block.active_branches@,
        after.status_block.completed_items@ == before.status_block.completed_items@,
        after.status_block.active_workers@.len() == before.status_block.active_workers@.len() + 1,
        forall|i: int|
            0 <= i < before.status_block.active_workers@.len()
                ==> #[trigger] after.status_block.active_workers@[i]
                == before.status_block.active_workers@[i],
        ({
            let shown = after.status_block.active_workers@.last();
            &&& shown.id == worker_id
            &&& shown.task == task
            &&& shown.status@ == "starting"@
            &&& shown.tool_calls == 0
        }),
{
    let shown = after.status_block.active_workers@;
    assert forall|i: int| 0 <= i < before.status_block.active_workers@.len() implies #[trigger] shown[i]
        == before.status_block.active_workers@[i] by {
        assert(shown.drop_last()[i] == shown[i]);
    }
}

/// The event that a branch was started tells whose it is, what it is about and which
/// message it answers.
pub proof fn law_started_branch_is_told_of(
    event: ProcessEvent,
    state: ChannelState,
    branch_id: BranchId,
    label: Seq<char>,
)
    requires
        tells_of_branch(event, state, branch_id, label),
    ensures
        event is BranchStarted,
        event->BranchStarted_branch_id == branch_id,
        event->BranchStarted_agent_id == state.agent_id,
        event->BranchStarted_channel_id == state.channel_id,
        event->BranchStarted_description@ == label,
        event->BranchStarted_reply_to_message_id == state.reply_target_message_id,
{
}

/// The event that a worker was started tells whose it is, what it does and of which
/// kind it is.
pub proof fn law_started_worker_is_told_of(
    event: ProcessEvent,
    state: ChannelState,
    worker_id: WorkerId,
    task: Seq<char>,
    kind: Seq<char>,
)
    requires
        tells_of_worker(event, state, worker_id, task, kind),
    ensures
        event is WorkerStarted,
        event->WorkerStarted_worker_id == worker_id,
        event->WorkerStarted_agent_id == state.agent_id,
        event->WorkerStarted_channel_id == Some(state.channel_id),
        event->WorkerStarted_task@ == task,
        event->WorkerStarted_worker_type@ == kind,
{
}

/// The prompt of a worker begins with its own, and ends with the listing of the
/// skills where there is one.
pub proof fn law_worker_prompt_keeps_both(own: Seq<char>, listing: String, error: String)
    ensures
        listing@.len() > 0 ==> worker_prompt(own, Ok(listing)) == own + "\n\n"@ + listing@,
        listing@.len() == 0 ==> worker_prompt(own, Ok(listing)) == own,
        worker_prompt(own, Err(error)) == own,
{
}

/// The end of a worker is always told, as a success just where it finished, of the
/// worker, the agent and the channel that it was one of, with nothing of its text
/// but what was scrubbed.
pub proof fn law_end_of_a_worker_is_told(
    worker_id: WorkerId,
    agent_id: AgentId,
    channel_id: Option<ChannelId>,
    outcome: WorkerOutcome,
    scrubbed: String,
    event: ProcessEvent,
)
    requires
        call_ensures(
            worker_complete_event,
            (worker_id, agent_id, channel_id, outcome, scrubbed),
            event,
        ),
    ensures
        event is WorkerComplete,
        event->WorkerComplete_worker_id == worker_id,
        event->WorkerComplete_agent_id == agent_id,
        event->WorkerComplete_channel_id == channel_id,
        event->WorkerComplete_notify,
        event->WorkerComplete_success <==> outcome is Finished,
        ({
            let told = event->WorkerComplete_result@;
            &&& told.len() >= scrubbed@.len()
            &&& told.skip(told.len() - scrubbed@.len()) == scrubbed@
            &&& outcome is Finished ==> told == scrubbed@
        }),
{
    law_worker_is_told_of(outcome, scrubbed@);
}

/// A worker of OpenCode is told apart by the mark before its task.
pub proof fn law_opencode_task_is_marked(task: Seq<char>)
    ensures
        opencode_task(task).take(11) == "[opencode] "@,
        opencode_task(task).skip(11) == task,
{
    reveal_strlit("[opencode] ");
    assert("[opencode] "@.len() == 11);
    assert(opencode_task(task).take(11) =~= "[opencode] "@);
    assert(opencode_task(task).skip(11) =~= task);
}

} // verus!
