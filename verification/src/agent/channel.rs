//! Channel: user-facing conversation process.

use crate::agent::channel_state::ChannelState;
use crate::assoc::distinct_names;
use crate::clock::{elapsed_millis, millis_between, Timestamp};
use crate::events::{
    event_channel, event_is_for_channel, ProcessEvent, ProcessId, ProcessType,
};
use crate::hooks::SpacebotHook;
use crate::ids::{AgentId, BranchId, ChannelId};
use crate::messages::{InboundMessage, Metadata};
use crate::text::{
    contains, is_prefix, law_first_piece_ends_at_separator, non_empty, occurs_in, split, split_at,
    starts_with, text_eq,
};
use std::collections::{HashMap, HashSet};
use vstd::prelude::*;
use vstd::string::*;

verus! {

broadcast use vstd::std_specs::hash::group_hash_axioms;

/// A background process result waiting to be relayed to the user.
#[derive(Clone, Debug)]
pub struct PendingResult {
    /// "branch" or "worker"
    pub process_type: &'static str,
    /// The branch or worker ID.
    pub process_id: String,
    /// The result/conclusion text from the process.
    pub result: String,
    /// Whether the process completed successfully.
    pub success: bool,
}

/// The seconds between two warnings of a lag.
pub const EVENT_LAG_WARNING_INTERVAL_SECS: u64 = 30;

/// How messages that come fast are put together.
#[derive(Debug, Clone, Copy, PartialEq, Eq, Structural)]
pub struct CoalesceConfig {
    pub enabled: bool,
    /// How long to wait for more messages, in milliseconds.
    pub debounce_ms: u64,
    /// How long the first message waits at most, in milliseconds.
    pub max_wait_ms: u64,
    /// From how many messages on the wait is no longer prolonged.
    pub min_messages: usize,
    /// Whether direct messages are left alone.
    pub multi_user_only: bool,
}

/// When memories are persisted.
#[derive(Debug, Clone, Copy, PartialEq, Eq, Structural)]
pub struct MemoryPersistenceConfig {
    pub enabled: bool,
    pub message_interval: usize,
}

/// How often background results wake a channel up.
#[derive(Debug, Clone, Copy, PartialEq, Eq, Structural)]
pub struct RetriggerLimits {
    /// The most times without a message from the user.
    pub max_per_turn: usize,
    /// How long to wait for more results, in milliseconds.
    pub debounce_ms: u64,
}

/// Whether an event concerns a channel.
pub fn should_process_event_for_channel(event: &ProcessEvent, channel_id: &str) -> (process: bool)
    ensures
        process == (event_channel(*event) == Some(channel_id@)),
{
    event_is_for_channel(event, channel_id)
}

/// Whether an event is one of the life of a branch or a worker.
pub open spec fn is_lifecycle(event: ProcessEvent) -> bool {
    ||| event is BranchStarted
    ||| event is BranchResult
    ||| event is WorkerStarted
    ||| event is WorkerStatus
    ||| event is WorkerComplete
}

/// Whether messages that wait are handled before an event is.
pub fn should_flush_coalesce_buffer_for_event(event: &ProcessEvent) -> (flush: bool)
    ensures
        flush == is_lifecycle(*event),
{
    match event {
        ProcessEvent::BranchStarted { .. } => true,
        ProcessEvent::BranchResult { .. } => true,
        ProcessEvent::WorkerStarted { .. } => true,
        ProcessEvent::WorkerStatus { .. } => true,
        ProcessEvent::WorkerComplete { .. } => true,
        _ => false,
    }
}

/// User-facing conversation process. Deadlines are milliseconds of a monotonic
/// clock.
pub struct Channel {
    pub id: ChannelId,
    pub title: Option<String>,
    pub hook: SpacebotHook,
    pub state: ChannelState,
    /// Conversation ID from the first message.
    pub conversation_id: Option<String>,
    /// Adapter source captured from the first non-system message.
    pub source_adapter: Option<String>,
    /// Conversation context captured from the first message.
    pub conversation_context: Option<String>,
    /// Count of user messages since the last memory persistence branch.
    pub message_count: usize,
    /// Silent memory persistence branches.
    pub memory_persistence_branches: HashSet<BranchId>,
    /// Optional reply target captured when each branch was started.
    pub branch_reply_targets: HashMap<BranchId, String>,
    /// Buffer for coalescing rapid-fire messages.
    pub coalesce_buffer: Vec<InboundMessage>,
    /// Deadline for flushing the coalesce buffer.
    pub coalesce_deadline: Option<u64>,
    /// Number of retriggers fired since the last real user message.
    pub retrigger_count: usize,
    /// Whether a retrigger is pending (debounce window active).
    pub pending_retrigger: bool,
    /// Metadata for the pending retrigger.
    pub pending_retrigger_metadata: Metadata,
    /// Deadline for firing the pending retrigger (debounce timer).
    pub retrigger_deadline: Option<u64>,
    /// Background process results waiting for the next retrigger.
    pub pending_results: Vec<PendingResult>,
    /// Whether the agent can hand tasks to agents it is linked with.
    pub can_delegate: bool,
}

/// What is taken out of the coalesce buffer.
#[derive(Debug)]
pub enum Flush {
    Nothing,
    /// To be handled as it is.
    Single(InboundMessage),
    /// To be handled in one turn.
    Batch(Vec<InboundMessage>),
}

/// Whether messages are what was taken out of the buffer.
pub open spec fn holds(flush: Flush, messages: Seq<InboundMessage>) -> bool {
    match flush {
        Flush::Nothing => messages.len() == 0,
        Flush::Single(message) => messages == seq![message],
        Flush::Batch(batch) => messages.len() > 1 && batch@ == messages,
    }
}

/// What becomes of a message that comes in.
#[derive(Debug)]
pub enum MessageStep {
    /// It waits for others.
    Buffered,
    /// What waited is handled, then the message.
    Handle { flushed: Flush, message: InboundMessage },
}

/// What becomes of an event that comes in.
#[derive(Debug)]
pub enum EventStep {
    /// It does not concern the channel.
    Ignored,
    /// What waited is handled, then the event.
    Handle { flushed: Flush },
}

/// The earlier of two times, of which either may be missing.
pub open spec fn earlier(a: Option<u64>, b: Option<u64>) -> Option<u64> {
    match (a, b) {
        (Some(x), Some(y)) => Some(
            if x <= y {
                x
            } else {
                y
            },
        ),
        (Some(x), None) => Some(x),
        (None, Some(y)) => Some(y),
        (None, None) => None,
    }
}

pub open spec fn is_due(deadline: Option<u64>, now: u64) -> bool {
    deadline is Some && deadline->0 <= now
}

fn due(deadline: Option<u64>, now: u64) -> (result: bool)
    ensures
        result == is_due(deadline, now),
{
    match deadline {
        Some(at) => at <= now,
        None => false,
    }
}

/// When a buffer of so many messages is flushed, the first of which has waited
/// for some time. From a number of messages on, the deadline is only ever moved
/// forward, and the first message waits no longer than allowed.
pub open spec fn flush_time(
    deadline: Option<u64>,
    buffered: int,
    elapsed: int,
    config: CoalesceConfig,
    now: u64,
) -> Option<u64> {
    let debounced = now + config.debounce_ms;
    let longest = now + if config.max_wait_ms > elapsed {
        config.max_wait_ms - elapsed
    } else {
        0
    };
    let wanted = if buffered < config.min_messages {
        debounced
    } else {
        let earliest = match deadline {
            Some(at) => at as int,
            None => debounced,
        };
        if earliest <= longest {
            earliest
        } else {
            longest
        }
    };
    Some(wanted as u64)
}

impl Channel {
    /// Whether the names of the pending metadata are distinct and the status
    /// block can be told.
    pub open spec fn wf(self) -> bool {
        &&& distinct_names(self.pending_retrigger_metadata@)
        &&& self.state.status_block.wf()
    }

    /// Whether a retrigger is only pending where one is still allowed.
    pub open spec fn within_cap(self, max: usize) -> bool {
        &&& self.retrigger_count <= max
        &&& self.pending_retrigger ==> self.retrigger_count < max
    }

    /// The adapter that the conversation goes through.
    pub open spec fn adapter(self) -> Option<Seq<char>> {
        non_empty(
            match self.source_adapter {
                Some(name) => Some(name@),
                None => match self.conversation_id {
                    Some(id) => Some(split_at(id@, ':')[0]),
                    None => None,
                },
            },
        )
    }

    /// Whether this is a direct message conversation, by its identifier.
    pub open spec fn is_direct(self) -> bool {
        match self.conversation_id {
            Some(id) => {
                ||| occurs_in(":dm:"@, id@)
                ||| is_prefix("discord:dm:"@, id@)
                ||| is_prefix("slack:dm:"@, id@)
            },
            None => false,
        }
    }

    /// Whether a message waits for others before it is handled.
    pub open spec fn coalesces(self, message: InboundMessage, config: CoalesceConfig) -> bool {
        &&& config.enabled
        &&& message.source@ != "system"@
        &&& !(config.multi_user_only && self.is_direct())
    }

    /// Create a new channel.
    pub fn new(id: ChannelId, agent_id: AgentId, has_links: bool) -> (channel: Channel)
        ensures
            channel.wf(),
            channel.id == id,
            channel.state.channel_id == id,
            channel.state.agent_id == agent_id,
            channel.state.history@.len() == 0,
            channel.state.active_branches@ == Set::<BranchId>::empty(),
            channel.state.active_workers@ == Set::<BranchId>::empty(),
            channel.state.worker_handles@ == Set::<BranchId>::empty(),
            channel.state.worker_inputs@ == Set::<BranchId>::empty(),
            channel.state.reply_target_message_id is None,
            channel.hook.agent_id == agent_id,
            channel.hook.process_id == ProcessId::Channel(id),
            channel.hook.process_type == ProcessType::Channel,
            channel.hook.channel_id == Some(id),
            channel.title is None && channel.conversation_id is None,
            channel.source_adapter is None && channel.conversation_context is None,
            channel.message_count == 0 && channel.retrigger_count == 0,
            channel.memory_persistence_branches@ == Set::<BranchId>::empty(),
            channel.branch_reply_targets@ == Map::<BranchId, String>::empty(),
            channel.coalesce_buffer@.len() == 0 && channel.coalesce_deadline is None,
            !channel.pending_retrigger && channel.pending_retrigger_metadata@.len() == 0,
            channel.retrigger_deadline is None && channel.pending_results@.len() == 0,
            channel.can_delegate == has_links,
    {
        let hook = SpacebotHook::new(
            agent_id.clone(),
            ProcessId::Channel(id.clone()),
            ProcessType::Channel,
            Some(id.clone()),
        );
        Channel {
            id: id.clone(),
            title: None,
            hook,
            state: ChannelState::new(id, agent_id),
            conversation_id: None,
            source_adapter: None,
            conversation_context: None,
            message_count: 0,
            memory_persistence_branches: HashSet::new(),
            branch_reply_targets: HashMap::new(),
            coalesce_buffer: Vec::new(),
            coalesce_deadline: None,
            retrigger_count: 0,
            pending_retrigger: false,
            pending_retrigger_metadata: Vec::new(),
            retrigger_deadline: None,
            pending_results: Vec::new(),
            can_delegate: has_links,
        }
    }

    /// The adapter that the conversation goes through.
    pub fn current_adapter(&self) -> (adapter: Option<&str>)
        ensures
            match adapter {
                Some(name) => self.adapter() == Some(name@),
                None => self.adapter() is None,
            },
    {
        let name = match &self.source_adapter {
            Some(name) => name.as_str(),
            None => match &self.conversation_id {
                Some(id) => {
                    proof {
                        crate::text::lemma_split_at_non_empty(id@, ':');
                    }
                    split(id.as_str(), ':')[0]
                },
                None => {
                    return None;
                },
            },
        };
        if name.is_empty() {
            None
        } else {
            Some(name)
        }
    }

    /// Whether text without an explicit reply is not sent.
    pub fn suppress_plaintext_fallback(&self) -> (suppress: bool)
        ensures
            suppress == (self.adapter() == Some("email"@)),
    {
        match self.current_adapter() {
            Some(name) => text_eq(name, "email"),
            None => false,
        }
    }

    /// How long the loop sleeps at most before it looks at its deadlines, in
    /// milliseconds.
    pub fn next_wait(&self, now: u64) -> (wait: Option<u64>)
        ensures
            wait == match earlier(self.coalesce_deadline, self.retrigger_deadline) {
                Some(deadline) => Some(
                    if deadline > now {
                        (deadline - now) as u64
                    } else {
                        1
                    },
                ),
                None => None,
            },
    {
        let next = match (self.coalesce_deadline, self.retrigger_deadline) {
            (Some(a), Some(b)) => Some(
                if a <= b {
                    a
                } else {
                    b
                },
            ),
            (Some(a), None) => Some(a),
            (None, Some(b)) => Some(b),
            (None, None) => None,
        };
        match next {
            Some(deadline) => if deadline > now {
                Some(deadline - now)
            } else {
                Some(1)
            },
            None => None,
        }
    }

    /// Check if this is a DM (direct message) conversation based on conversation_id.
    pub fn is_dm(&self) -> (direct: bool)
        ensures
            direct == self.is_direct(),
    {
        match &self.conversation_id {
            Some(id) => contains(id.as_str(), ":dm:") || starts_with(id.as_str(), "discord:dm:")
                || starts_with(id.as_str(), "slack:dm:"),
            None => false,
        }
    }

    /// Determine if a message should be coalesced (batched with other messages).
    pub fn should_coalesce(&self, message: &InboundMessage, config: &CoalesceConfig) -> (coalesce: bool)
        ensures
            coalesce == self.coalesces(*message, *config),
    {
        if !config.enabled {
            return false;
        }
        if text_eq(message.source.as_str(), "system") {
            return false;
        }
        if config.multi_user_only && self.is_dm() {
            return false;
        }
        true
    }

    /// Update the coalesce deadline based on buffer size and config. `now` is the
    /// time of the monotonic clock, `utc_now` that of the wall.
    pub fn update_coalesce_deadline(&mut self, config: &CoalesceConfig, now: u64, utc_now: Timestamp)
        requires
            now + config.debounce_ms <= u64::MAX,
            now + config.max_wait_ms <= u64::MAX,
            utc_now.valid(),
            old(self).coalesce_buffer@.len() > 0 ==> old(
                self,
            ).coalesce_buffer@[0].timestamp.valid(),
        ensures
            *final(self) == (Channel {
                coalesce_deadline: if old(self).coalesce_buffer@.len() == 0 {
                    old(self).coalesce_deadline
                } else {
                    flush_time(
                        old(self).coalesce_deadline,
                        old(self).coalesce_buffer@.len() as int,
                        elapsed_millis(old(self).coalesce_buffer@[0].timestamp, utc_now),
                        *config,
                        now,
                    )
                },
                ..*old(self)
            }),
    {
        if self.coalesce_buffer.len() == 0 {
            return ;
        }
        let elapsed: u64 = millis_between(self.coalesce_buffer[0].timestamp, utc_now);
        let debounced: u64 = now + config.debounce_ms;
        if self.coalesce_buffer.len() >= config.min_messages {
            let longest: u64 = now + config.max_wait_ms.saturating_sub(elapsed);
            let wanted: u64 = match self.coalesce_deadline {
                Some(at) => at,
                None => debounced,
            };
            self.coalesce_deadline = Some(
                if wanted <= longest {
                    wanted
                } else {
                    longest
                },
            );
        } else {
            self.coalesce_deadline = Some(debounced);
        }
    }

    /// Takes what waits out of the coalesce buffer.
    pub fn flush_coalesce_buffer(&mut self) -> (flush: Flush)
        ensures
            holds(flush, old(self).coalesce_buffer@),
            final(self).coalesce_buffer@.len() == 0,
            *final(self) == (Channel {
                coalesce_buffer: final(self).coalesce_buffer,
                coalesce_deadline: if old(self).coalesce_buffer@.len() == 0 {
                    old(self).coalesce_deadline
                } else {
                    None
                },
                ..*old(self)
            }),
    {
        if self.coalesce_buffer.len() == 0 {
            return Flush::Nothing;
        }
        self.coalesce_deadline = None;
        let mut messages: Vec<InboundMessage> = Vec::new();
        std::mem::swap(&mut messages, &mut self.coalesce_buffer);
        if messages.len() == 1 {
            let message = messages.remove(0);
            assert(seq![message] =~= old(self).coalesce_buffer@);
            Flush::Single(message)
        } else {
            Flush::Batch(messages)
        }
    }

    /// A message comes in: it waits for others, or is handled behind what waits.
    pub fn receive_message(
        &mut self,
        message: InboundMessage,
        config: &CoalesceConfig,
        now: u64,
        utc_now: Timestamp,
    ) -> (step: MessageStep)
        requires
            now + config.debounce_ms <= u64::MAX,
            now + config.max_wait_ms <= u64::MAX,
            utc_now.valid(),
            message.timestamp.valid(),
            old(self).coalesce_buffer@.len() > 0 ==> old(
                self,
            ).coalesce_buffer@[0].timestamp.valid(),
        ensures
            match step {
                MessageStep::Buffered => {
                    let buffer = old(self).coalesce_buffer@.push(message);
                    &&& old(self).coalesces(message, *config)
                    &&& final(self).coalesce_buffer@ == buffer
                    &&& *final(self) == (Channel {
                        coalesce_buffer: final(self).coalesce_buffer,
                        coalesce_deadline: flush_time(
                            old(self).coalesce_deadline,
                            buffer.len() as int,
                            elapsed_millis(buffer[0].timestamp, utc_now),
                            *config,
                            now,
                        ),
                        ..*old(self)
                    })
                },
                MessageStep::Handle { flushed, message: handled } => {
                    &&& !old(self).coalesces(message, *config)
                    &&& handled == message
                    &&& holds(flushed, old(self).coalesce_buffer@)
                    &&& final(self).coalesce_buffer@.len() == 0
                    &&& *final(self) == (Channel {
                        coalesce_buffer: final(self).coalesce_buffer,
                        coalesce_deadline: if old(self).coalesce_buffer@.len() == 0 {
                            old(self).coalesce_deadline
                        } else {
                            None
                        },
                        ..*old(self)
                    })
                },
            },
    {
        if self.should_coalesce(&message, config) {
            self.coalesce_buffer.push(message);
            self.update_coalesce_deadline(config, now, utc_now);
            MessageStep::Buffered
        } else {
            let flushed = self.flush_coalesce_buffer();
            MessageStep::Handle { flushed, message }
        }
    }

    /// An event comes in: it is none of the channel's, or is handled. Events of
    /// the life of a branch or a worker do not overtake messages that wait.
    pub fn receive_event(&mut self, event: &ProcessEvent) -> (step: EventStep)
        ensures
            match step {
                EventStep::Ignored => event_channel(*event) != Some(old(self).id@) && *final(self)
                    == *old(self),
                EventStep::Handle { flushed } => {
                    &&& event_channel(*event) == Some(old(self).id@)
                    &&& if is_lifecycle(*event) {
                        &&& holds(flushed, old(self).coalesce_buffer@)
                        &&& final(self).coalesce_buffer@.len() == 0
                        &&& *final(self) == (Channel {
                            coalesce_buffer: final(self).coalesce_buffer,
                            coalesce_deadline: if old(self).coalesce_buffer@.len() == 0 {
                                old(self).coalesce_deadline
                            } else {
                                None
                            },
                            ..*old(self)
                        })
                    } else {
                        flushed is Nothing && *final(self) == *old(self)
                    }
                },
            },
    {
        if !should_process_event_for_channel(event, self.id.as_str()) {
            return EventStep::Ignored;
        }
        if should_flush_coalesce_buffer_for_event(event) {
            let flushed = self.flush_coalesce_buffer();
            EventStep::Handle { flushed }
        } else {
            EventStep::Handle { flushed: Flush::Nothing }
        }
    }

    /// A deadline may have come. Gives the messages that have waited long enough,
    /// and whether the pending retrigger is due.
    pub fn on_deadline(&mut self, now: u64) -> (due_work: (Flush, bool))
        ensures
            if is_due(old(self).coalesce_deadline, now) {
                &&& holds(due_work.0, old(self).coalesce_buffer@)
                &&& final(self).coalesce_buffer@.len() == 0
                &&& *final(self) == (Channel {
                    coalesce_buffer: final(self).coalesce_buffer,
                    coalesce_deadline: if old(self).coalesce_buffer@.len() == 0 {
                        old(self).coalesce_deadline
                    } else {
                        None
                    },
                    ..*old(self)
                })
            } else {
                due_work.0 is Nothing && *final(self) == *old(self)
            },
            due_work.1 == is_due(old(self).retrigger_deadline, now),
    {
        let retrigger = due(self.retrigger_deadline, now);
        let flush = if due(self.coalesce_deadline, now) {
            self.flush_coalesce_buffer()
        } else {
            Flush::Nothing
        };
        (flush, retrigger)
    }
}

/// However long messages keep coming, a flush of the buffer is never put off
/// once there are enough of them, and comes no later than the longest wait of
/// the first of them allows.
pub proof fn law_coalescing_is_bounded(
    deadline: Option<u64>,
    buffered: int,
    elapsed: int,
    config: CoalesceConfig,
    now: u64,
)
    requires
        now + config.debounce_ms <= u64::MAX,
        now + config.max_wait_ms <= u64::MAX,
        buffered >= config.min_messages,
        0 <= elapsed,
    ensures
        ({
            let at = flush_time(deadline, buffered, elapsed, config, now)->0;
            &&& deadline is Some ==> at <= deadline->0
            &&& elapsed <= config.max_wait_ms ==> at <= now + config.max_wait_ms - elapsed
            &&& elapsed > config.max_wait_ms ==> at <= now
        }),
{
}

/// Whatever waits is handed out as it came: nothing, the one message, or all of them
/// in order.
pub proof fn law_flush_hands_out_everything(flush: Flush, messages: Seq<InboundMessage>)
    requires
        holds(flush, messages),
    ensures
        messages.len() == 0 <==> flush is Nothing,
        messages.len() == 1 <==> flush is Single,
        flush matches Flush::Single(message) ==> message == messages[0],
        flush matches Flush::Batch(batch) ==> batch@ == messages,
{
}

/// The deadline that comes first is the one that counts.
pub proof fn law_first_deadline_counts(a: u64, b: u64)
    ensures
        earlier(Some(a), Some(b)) == Some(
            if a <= b {
                a
            } else {
                b
            },
        ),
        earlier(Some(a), None) == Some(a),
        earlier(None, Some(b)) == Some(b),
        earlier(None, None) is None,
        earlier(Some(a), Some(b)) == earlier(Some(b), Some(a)),
        is_due(Some(a), b) <==> a <= b,
        !is_due(None, b),
{
}

/// While there are too few messages, each new one puts the flush off by the pause.
/// From the number that is enough on, the flush comes when it was due, or after the
/// pause where it was not, unless the first message would wait longer than it may.
pub proof fn law_flush_waits_for_a_pause(
    deadline: Option<u64>,
    buffered: int,
    elapsed: int,
    config: CoalesceConfig,
    now: u64,
)
    requires
        now + config.debounce_ms <= u64::MAX,
        now + config.max_wait_ms <= u64::MAX,
        0 <= elapsed,
    ensures
        flush_time(deadline, buffered, elapsed, config, now) matches Some(at) && {
            &&& buffered < config.min_messages ==> at == now + config.debounce_ms
            &&& buffered >= config.min_messages && elapsed >= config.max_wait_ms ==> at == (
            if deadline is Some && deadline->0 < now {
                deadline->0
            } else {
                now
            })
            &&& buffered >= config.min_messages && elapsed < config.max_wait_ms && deadline is None
                && config.debounce_ms <= config.max_wait_ms - elapsed ==> at == now
                + config.debounce_ms
            &&& buffered >= config.min_messages && (deadline matches Some(due) && due <= now
                + config.max_wait_ms - elapsed) && elapsed < config.max_wait_ms ==> at == deadline->0
            &&& buffered >= config.min_messages && elapsed < config.max_wait_ms && (
            deadline matches Some(due) && due > now + config.max_wait_ms - elapsed) ==> at == now
                + config.max_wait_ms - elapsed
        },
{
}

/// The adapter of a conversation is the one that its first message came through,
/// or, as long as there was none, the part of its identifier before the colon.
pub proof fn law_adapter_is_where_it_began(
    channel: Channel,
    name: String,
    platform: Seq<char>,
    rest: Seq<char>,
)
    ensures
        channel.source_adapter == Some(name) && name@.len() > 0 ==> channel.adapter() == Some(name@),
        channel.source_adapter is None && channel.conversation_id is None ==> channel.adapter()
            is None,
        channel.source_adapter is None && (channel.conversation_id matches Some(id) && id@ == platform
            + seq![':'] + rest) && platform.len() > 0 && !platform.contains(':') ==> channel.adapter()
            == Some(platform),
{
    if !platform.contains(':') {
        law_first_piece_ends_at_separator(platform, ':', rest);
    }
}

/// A conversation is direct where its identifier has the mark of one behind a
/// colon, wherever in it.
pub proof fn law_direct_conversation_is_marked(
    channel: Channel,
    id: String,
    before: Seq<char>,
    behind: Seq<char>,
)
    requires
        channel.conversation_id == Some(id),
    ensures
        id@ == before + ":dm:"@ + behind ==> channel.is_direct(),
        (forall|i: int| 0 <= i < id@.len() ==> #[trigger] id@[i] != ':') ==> !channel.is_direct(),
{
    reveal_strlit(":dm:");
    reveal_strlit("discord:dm:");
    reveal_strlit("slack:dm:");
    if id@ == before + ":dm:"@ + behind {
        let at = before.len() as int;
        assert(id@.subrange(at, at + 4) =~= ":dm:"@);
        assert(crate::text::occurs_at(":dm:"@, id@, at));
    }
    if forall|i: int| 0 <= i < id@.len() ==> #[trigger] id@[i] != ':' {
        if occurs_in(":dm:"@, id@) {
            let at = choose|at: int| crate::text::occurs_at(":dm:"@, id@, at);
            assert(id@.subrange(at, at + 4)[0] == id@[at]);
        }
        if is_prefix("discord:dm:"@, id@) {
            assert(id@.take(11)[7] == id@[7]);
        }
        if is_prefix("slack:dm:"@, id@) {
            assert(id@.take(9)[5] == id@[5]);
        }
    }
}

/// With coalescing on, every message of the user's side waits for others, but in a
/// direct conversation only where that is wanted. The system never waits.
pub proof fn law_user_messages_wait(channel: Channel, message: InboundMessage, config: CoalesceConfig)
    ensures
        !config.enabled ==> !channel.coalesces(message, config),
        message.source@ == "system"@ ==> !channel.coalesces(message, config),
        config.enabled && message.source@ != "system"@ && !config.multi_user_only
            ==> channel.coalesces(message, config),
        config.enabled && message.source@ != "system"@ && config.multi_user_only
            ==> channel.coalesces(message, config) == !channel.is_direct(),
{
}

/// What waits is handled before any event of the life of a branch or a worker, and
/// before no other.
pub proof fn law_lifecycle_is_of_branches_and_workers(event: ProcessEvent)
    ensures
        is_lifecycle(event) <==> event is BranchStarted || event is BranchResult || event
            is WorkerStarted || event is WorkerStatus || event is WorkerComplete,
{
}

} // verus!
