//! The configuration of one agent, as a table of `[[agents]]`.

use crate::api::error::ApiError;
use crate::text::view_of;
use crate::toml_doc::{
    child_table_mut, child_tables, document_entries, document_layout, document_text,
    document_trailing, ensure_child_tables, find_with_text, first_with_text, integer_item,
    integer_node, item_layout, item_node, lemma_first_with_text, like_entries, node_at,
    parse_document, parsed_entries, parsed_toml, printed, prints_edit, root_is_table, section_entries,
    section_text, set_flag_if, set_item, set_like, set_like_flag_if, set_like_integer_if,
    set_like_text_if, set_text, table_entries, table_item, table_layout, table_like, with_flag,
    with_integer, with_like_node, with_node, with_text, Entries, TomlNode,
};
use crate::toml_layout::{
    inner_kept_but, item_kept_but, kept_but, layout_at, like_layout, only, section_layout,
    sections_layout, Layout, TableLayout,
};
use toml_edit::{DocumentMut, Item, Table};
use vstd::prelude::*;

verus! {

pub struct RoutingUpdate {
    pub channel: Option<String>,
    pub branch: Option<String>,
    pub worker: Option<String>,
    pub compactor: Option<String>,
    pub cortex: Option<String>,
    pub voice: Option<String>,
    pub rate_limit_cooldown_secs: Option<u64>,
}

pub struct TuningUpdate {
    pub max_concurrent_branches: Option<usize>,
    pub max_concurrent_workers: Option<usize>,
    pub max_turns: Option<usize>,
    pub branch_max_turns: Option<usize>,
    pub context_window: Option<usize>,
    pub history_backfill_count: Option<usize>,
}

/// Thresholds are fractions; each comes as the TOML value that is written.
pub struct CompactionUpdate {
    pub background_threshold: Option<Item>,
    pub aggressive_threshold: Option<Item>,
    pub emergency_threshold: Option<Item>,
}

pub struct CortexUpdate {
    pub tick_interval_secs: Option<u64>,
    pub worker_timeout_secs: Option<u64>,
    pub branch_timeout_secs: Option<u64>,
    pub circuit_breaker_threshold: Option<u8>,
    pub bulletin_interval_secs: Option<u64>,
    pub bulletin_max_words: Option<usize>,
    pub bulletin_max_turns: Option<usize>,
}

pub struct CoalesceUpdate {
    pub enabled: Option<bool>,
    pub debounce_ms: Option<u64>,
    pub max_wait_ms: Option<u64>,
    pub min_messages: Option<usize>,
    pub multi_user_only: Option<bool>,
}

pub struct MemoryPersistenceUpdate {
    pub enabled: Option<bool>,
    pub message_interval: Option<usize>,
}

pub struct BrowserUpdate {
    pub enabled: Option<bool>,
    pub headless: Option<bool>,
    pub evaluate_enabled: Option<bool>,
}

pub struct DiscordUpdate {
    pub allow_bot_messages: Option<bool>,
}

pub struct AgentConfigUpdateRequest {
    pub agent_id: String,
    pub routing: Option<RoutingUpdate>,
    pub tuning: Option<TuningUpdate>,
    pub compaction: Option<CompactionUpdate>,
    pub cortex: Option<CortexUpdate>,
    pub coalesce: Option<CoalesceUpdate>,
    pub memory_persistence: Option<MemoryPersistenceUpdate>,
    pub browser: Option<BrowserUpdate>,
    pub discord: Option<DiscordUpdate>,
}

/// How a number of seconds or a count is written: as a signed integer of 64
/// bits.
pub open spec fn stored(number: Option<u64>) -> Option<int> {
    match number {
        Some(value) => Some((value as i64) as int),
        None => None,
    }
}

pub open spec fn stored_size(number: Option<usize>) -> Option<int> {
    match number {
        Some(value) => Some((value as i64) as int),
        None => None,
    }
}

pub open spec fn stored_byte(number: Option<u8>) -> Option<int> {
    match number {
        Some(value) => Some((value as i64) as int),
        None => None,
    }
}

pub open spec fn stored_item(item: Option<Item>) -> Option<TomlNode> {
    match item {
        Some(value) => Some(item_node(value)),
        None => None,
    }
}

/// The entries of the table under a key, of either form; none where anything else
/// or nothing stands there.
pub open spec fn subtable(entries: Entries, key: Seq<char>) -> Entries {
    like_entries(node_at(entries, key))
}

/// A table with these entries, in the form of the one that was there: with a
/// header of its own, unless it was an inline table.
pub open spec fn in_form(before: TomlNode, entries: Entries) -> TomlNode {
    match before {
        TomlNode::Inline(_) => TomlNode::Inline(entries),
        _ => TomlNode::Section(entries),
    }
}

/// An agent's table with one of its subtables replaced, in its form.
pub open spec fn with_subtable(entries: Entries, key: Seq<char>, inner: Entries) -> Entries {
    entries.insert(key, in_form(node_at(entries, key), inner))
}

impl RoutingUpdate {
    /// Whether the update sets a key of its table.
    pub open spec fn sets(self, key: Seq<char>) -> bool {
        ||| self.channel is Some && key == "channel"@
        ||| self.branch is Some && key == "branch"@
        ||| self.worker is Some && key == "worker"@
        ||| self.compactor is Some && key == "compactor"@
        ||| self.cortex is Some && key == "cortex"@
        ||| self.voice is Some && key == "voice"@
        ||| self.rate_limit_cooldown_secs is Some && key == "rate_limit_cooldown_secs"@
    }

    pub open spec fn applied(self, agent: Entries) -> Entries {
        let table = subtable(agent, "routing"@);
        let channel = with_text(table, "channel"@, view_of(self.channel));
        let branch = with_text(channel, "branch"@, view_of(self.branch));
        let worker = with_text(branch, "worker"@, view_of(self.worker));
        let compactor = with_text(worker, "compactor"@, view_of(self.compactor));
        let cortex = with_text(compactor, "cortex"@, view_of(self.cortex));
        let voice = with_text(cortex, "voice"@, view_of(self.voice));
        with_subtable(
            agent,
            "routing"@,
            with_integer(voice, "rate_limit_cooldown_secs"@, stored(self.rate_limit_cooldown_secs)),
        )
    }
}

impl TuningUpdate {
    /// Whether the update sets a key of its table.
    pub open spec fn sets(self, key: Seq<char>) -> bool {
        ||| self.max_concurrent_branches is Some && key == "max_concurrent_branches"@
        ||| self.max_concurrent_workers is Some && key == "max_concurrent_workers"@
        ||| self.max_turns is Some && key == "max_turns"@
        ||| self.branch_max_turns is Some && key == "branch_max_turns"@
        ||| self.context_window is Some && key == "context_window"@
        ||| self.history_backfill_count is Some && key == "history_backfill_count"@
    }

    /// These stand in the agent's own table.
    pub open spec fn applied(self, agent: Entries) -> Entries {
        let branches = with_integer(
            agent,
            "max_concurrent_branches"@,
            stored_size(self.max_concurrent_branches),
        );
        let workers = with_integer(
            branches,
            "max_concurrent_workers"@,
            stored_size(self.max_concurrent_workers),
        );
        let turns = with_integer(workers, "max_turns"@, stored_size(self.max_turns));
        let branch_turns = with_integer(
            turns,
            "branch_max_turns"@,
            stored_size(self.branch_max_turns),
        );
        let window = with_integer(branch_turns, "context_window"@, stored_size(self.context_window));
        with_integer(
            window,
            "history_backfill_count"@,
            stored_size(self.history_backfill_count),
        )
    }
}

impl CompactionUpdate {
    /// Whether the update sets a key of its table.
    pub open spec fn sets(self, key: Seq<char>) -> bool {
        ||| self.background_threshold is Some && key == "background_threshold"@
        ||| self.aggressive_threshold is Some && key == "aggressive_threshold"@
        ||| self.emergency_threshold is Some && key == "emergency_threshold"@
    }

    /// Whether each threshold that is given is a value.
    pub open spec fn is_valid(self) -> bool {
        &&& self.background_threshold is Some ==> item_node(self.background_threshold->0) !is Absent
        &&& self.aggressive_threshold is Some ==> item_node(self.aggressive_threshold->0) !is Absent
        &&& self.emergency_threshold is Some ==> item_node(self.emergency_threshold->0) !is Absent
    }

    pub open spec fn applied(self, agent: Entries) -> Entries {
        let table = subtable(agent, "compaction"@);
        let background = with_node(
            table,
            "background_threshold"@,
            stored_item(self.background_threshold),
        );
        let aggressive = with_node(
            background,
            "aggressive_threshold"@,
            stored_item(self.aggressive_threshold),
        );
        with_subtable(
            agent,
            "compaction"@,
            with_node(aggressive, "emergency_threshold"@, stored_item(self.emergency_threshold)),
        )
    }
}

impl CortexUpdate {
    /// Whether the update sets a key of its table.
    pub open spec fn sets(self, key: Seq<char>) -> bool {
        ||| self.tick_interval_secs is Some && key == "tick_interval_secs"@
        ||| self.worker_timeout_secs is Some && key == "worker_timeout_secs"@
        ||| self.branch_timeout_secs is Some && key == "branch_timeout_secs"@
        ||| self.circuit_breaker_threshold is Some && key == "circuit_breaker_threshold"@
        ||| self.bulletin_interval_secs is Some && key == "bulletin_interval_secs"@
        ||| self.bulletin_max_words is Some && key == "bulletin_max_words"@
        ||| self.bulletin_max_turns is Some && key == "bulletin_max_turns"@
    }

    pub open spec fn applied(self, agent: Entries) -> Entries {
        let table = subtable(agent, "cortex"@);
        let tick = with_integer(table, "tick_interval_secs"@, stored(self.tick_interval_secs));
        let worker = with_integer(tick, "worker_timeout_secs"@, stored(self.worker_timeout_secs));
        let branch = with_integer(worker, "branch_timeout_secs"@, stored(self.branch_timeout_secs));
        let breaker = with_integer(
            branch,
            "circuit_breaker_threshold"@,
            stored_byte(self.circuit_breaker_threshold),
        );
        let interval = with_integer(
            breaker,
            "bulletin_interval_secs"@,
            stored(self.bulletin_interval_secs),
        );
        let words = with_integer(
            interval,
            "bulletin_max_words"@,
            stored_size(self.bulletin_max_words),
        );
        with_subtable(
            agent,
            "cortex"@,
            with_integer(words, "bulletin_max_turns"@, stored_size(self.bulletin_max_turns)),
        )
    }
}

impl CoalesceUpdate {
    /// Whether the update sets a key of its table.
    pub open spec fn sets(self, key: Seq<char>) -> bool {
        ||| self.enabled is Some && key == "enabled"@
        ||| self.debounce_ms is Some && key == "debounce_ms"@
        ||| self.max_wait_ms is Some && key == "max_wait_ms"@
        ||| self.min_messages is Some && key == "min_messages"@
        ||| self.multi_user_only is Some && key == "multi_user_only"@
    }

    pub open spec fn applied(self, agent: Entries) -> Entries {
        let table = subtable(agent, "coalesce"@);
        let enabled = with_flag(table, "enabled"@, self.enabled);
        let debounce = with_integer(enabled, "debounce_ms"@, stored(self.debounce_ms));
        let max_wait = with_integer(debounce, "max_wait_ms"@, stored(self.max_wait_ms));
        let min_messages = with_integer(max_wait, "min_messages"@, stored_size(self.min_messages));
        with_subtable(
            agent,
            "coalesce"@,
            with_flag(min_messages, "multi_user_only"@, self.multi_user_only),
        )
    }
}

impl MemoryPersistenceUpdate {
    /// Whether the update sets a key of its table.
    pub open spec fn sets(self, key: Seq<char>) -> bool {
        ||| self.enabled is Some && key == "enabled"@
        ||| self.message_interval is Some && key == "message_interval"@
    }

    pub open spec fn applied(self, agent: Entries) -> Entries {
        let table = subtable(agent, "memory_persistence"@);
        let enabled = with_flag(table, "enabled"@, self.enabled);
        with_subtable(
            agent,
            "memory_persistence"@,
            with_integer(enabled, "message_interval"@, stored_size(self.message_interval)),
        )
    }
}

impl BrowserUpdate {
    /// Whether the update sets a key of its table.
    pub open spec fn sets(self, key: Seq<char>) -> bool {
        ||| self.enabled is Some && key == "enabled"@
        ||| self.headless is Some && key == "headless"@
        ||| self.evaluate_enabled is Some && key == "evaluate_enabled"@
    }

    pub open spec fn applied(self, agent: Entries) -> Entries {
        let table = subtable(agent, "browser"@);
        let enabled = with_flag(table, "enabled"@, self.enabled);
        let headless = with_flag(enabled, "headless"@, self.headless);
        with_subtable(
            agent,
            "browser"@,
            with_flag(headless, "evaluate_enabled"@, self.evaluate_enabled),
        )
    }
}

impl DiscordUpdate {
    /// Whether the update sets a key of its table.
    pub open spec fn sets(self, key: Seq<char>) -> bool {
        ||| self.allow_bot_messages is Some && key == "allow_bot_messages"@
    }

    /// Whether `messaging` is written as before, but for the values that the
    /// update sets in its table `discord`.
    pub open spec fn keeps_messaging(self, from: TableLayout, to: TableLayout) -> bool {
        section_layout(from, "messaging"@) is Some ==> section_layout(to, "messaging"@) is Some && {
            let before = section_layout(from, "messaging"@)->0;
            let after = section_layout(to, "messaging"@)->0;
            &&& kept_but(before, after, only("discord"@, true))
            &&& inner_kept_but(before, after, "discord"@, |key: Seq<char>| self.sets(key))
        }
    }

    /// The root table after the update of `[messaging.discord]`, `None` where
    /// there is no such table.
    pub open spec fn applied(self, root: Entries) -> Option<Entries> {
        match node_at(root, "messaging"@) {
            TomlNode::Section(messaging) => match node_at(messaging, "discord"@) {
                TomlNode::Section(discord) => Some(
                    root.insert(
                        "messaging"@,
                        TomlNode::Section(
                            messaging.insert(
                                "discord"@,
                                TomlNode::Section(
                                    with_flag(discord, "allow_bot_messages"@, self.allow_bot_messages),
                                ),
                            ),
                        ),
                    ),
                ),
                _ => None,
            },
            _ => None,
        }
    }
}

/// The tables of the agents with the one of `agent_id` among them, and where it
/// stands. `None` where `agents` holds something other than tables.
pub open spec fn agents_with(root: Entries, agent_id: Seq<char>) -> Option<(Seq<TomlNode>, int)> {
    match child_tables(root, "agents"@) {
        None => None,
        Some(tables) => match first_with_text(tables, 0, "id"@, agent_id) {
            Some(i) => Some((tables, i)),
            None => Some(
                (
                    tables.push(
                        TomlNode::Section(Map::empty().insert("id"@, TomlNode::Text(agent_id))),
                    ),
                    tables.len() as int,
                ),
            ),
        },
    }
}

/// Where an agent's table stands, or will stand.
pub open spec fn agent_position(root: Entries, agent_id: Seq<char>) -> int {
    match agents_with(root, agent_id) {
        Some((_tables, i)) => i,
        None => -1,
    }
}

impl AgentConfigUpdateRequest {
    pub open spec fn is_valid(self) -> bool {
        self.compaction is Some ==> self.compaction->0.is_valid()
    }

    /// Whether the update sets a key of the agent's own table to a value.
    pub open spec fn sets_value(self, key: Seq<char>) -> bool {
        self.tuning is Some && self.tuning->0.sets(key)
    }

    /// Whether the update sets a key of a table in the agent's table.
    pub open spec fn sets_inner(self, section: Seq<char>, key: Seq<char>) -> bool {
        ||| section == "routing"@ && self.routing is Some && self.routing->0.sets(key)
        ||| section == "compaction"@ && self.compaction is Some && self.compaction->0.sets(key)
        ||| section == "cortex"@ && self.cortex is Some && self.cortex->0.sets(key)
        ||| section == "coalesce"@ && self.coalesce is Some && self.coalesce->0.sets(key)
        ||| section == "memory_persistence"@ && self.memory_persistence is Some
            && self.memory_persistence->0.sets(key)
        ||| section == "browser"@ && self.browser is Some && self.browser->0.sets(key)
    }

    /// Whether the update touches what stands under a key of the agent's table.
    pub open spec fn touches(self, key: Seq<char>) -> bool {
        ||| self.sets_value(key)
        ||| key == "routing"@ && self.routing is Some
        ||| key == "compaction"@ && self.compaction is Some
        ||| key == "cortex"@ && self.cortex is Some
        ||| key == "coalesce"@ && self.coalesce is Some
        ||| key == "memory_persistence"@ && self.memory_persistence is Some
        ||| key == "browser"@ && self.browser is Some
    }

    /// Whether an agent's table is written as before, but for the values that
    /// the update sets.
    pub open spec fn keeps_agent(self, from: TableLayout, to: TableLayout) -> bool {
        &&& kept_but(from, to, |key: Seq<char>| self.touches(key))
        &&& forall|section: Seq<char>|
            like_layout(#[trigger] layout_at(from, section)) is Some && !self.sets_value(section)
                ==> inner_kept_but(
                from,
                to,
                section,
                |key: Seq<char>| self.sets_inner(section, key),
            )
    }

    /// Whether the tables of the agents are written as before, but for the
    /// values that the update sets in the table at a position.
    pub open spec fn keeps_agents(self, from: Seq<Layout>, to: Seq<Layout>, position: int) -> bool {
        &&& from.len() <= to.len()
        &&& forall|j: int|
            0 <= j < from.len() && j != position ==> #[trigger] to[j] == from[j]
        &&& 0 <= position < from.len() ==> from[position] is Section && to[position] is Section
            && self.keeps_agent(from[position]->Section_0, to[position]->Section_0)
    }

    /// Whether a document is written as before, but for the values that the
    /// update sets: all else keeps its form and its comments. `root` is what the
    /// document held before.
    pub open spec fn keeps_layout(self, root: Entries, from: TableLayout, to: TableLayout) -> bool {
        &&& kept_but(
            from,
            to,
            |key: Seq<char>| key == "agents"@ || self.discord is Some && key == "messaging"@,
        )
        &&& sections_layout(from, "agents"@) is Some ==> sections_layout(to, "agents"@) is Some
            && self.keeps_agents(
            sections_layout(from, "agents"@)->0,
            sections_layout(to, "agents"@)->0,
            agent_position(root, self.agent_id@),
        )
        &&& self.discord is Some ==> self.discord->0.keeps_messaging(from, to)
    }

    /// The agent's table after the update.
    pub open spec fn agent_applied(self, agent: Entries) -> Entries {
        let routing = match self.routing {
            Some(update) => update.applied(agent),
            None => agent,
        };
        let tuning = match self.tuning {
            Some(update) => update.applied(routing),
            None => routing,
        };
        let compaction = match self.compaction {
            Some(update) => update.applied(tuning),
            None => tuning,
        };
        let cortex = match self.cortex {
            Some(update) => update.applied(compaction),
            None => compaction,
        };
        let coalesce = match self.coalesce {
            Some(update) => update.applied(cortex),
            None => cortex,
        };
        let memory = match self.memory_persistence {
            Some(update) => update.applied(coalesce),
            None => coalesce,
        };
        match self.browser {
            Some(update) => update.applied(memory),
            None => memory,
        }
    }

    /// The root table after the update, `None` where `agents` or
    /// `messaging.discord` is not of the kind that the update needs.
    pub open spec fn applied(self, root: Entries) -> Option<Entries> {
        match agents_with(root, self.agent_id@) {
            None => None,
            Some((tables, i)) => {
                let agents = root.insert(
                    "agents"@,
                    TomlNode::Sections(
                        tables.update(
                            i,
                            TomlNode::Section(self.agent_applied(section_entries(tables[i]))),
                        ),
                    ),
                );
                match self.discord {
                    Some(update) => update.applied(agents),
                    None => Some(agents),
                }
            },
        }
    }
}

/// The index of an agent's table in a document, which is made where there is
/// none.
pub fn find_or_create_agent_table(doc: &mut DocumentMut, agent_id: &str) -> (result: Result<
    usize,
    ApiError,
>)
    requires
        root_is_table(*old(doc)),
    ensures
        root_is_table(*final(doc)),
        match agents_with(document_entries(*old(doc)), agent_id@) {
            Some((tables, i)) => result is Ok && result->Ok_0 == i && document_entries(*final(doc))
                == document_entries(*old(doc)).insert("agents"@, TomlNode::Sections(tables)),
            None => result == Err::<usize, _>(ApiError::Internal) && document_entries(*final(doc))
                == document_entries(*old(doc)),
        },
        document_trailing(*final(doc)) == document_trailing(*old(doc)),
        result is Ok ==> kept_but(
            document_layout(*old(doc)),
            document_layout(*final(doc)),
            only("agents"@, true),
        ),
        result is Ok && sections_layout(document_layout(*old(doc)), "agents"@) is Some ==> {
            let from = sections_layout(document_layout(*old(doc)), "agents"@)->0;
            let to = sections_layout(document_layout(*final(doc)), "agents"@);
            &&& to is Some
            &&& from.len() <= to->0.len()
            &&& forall|j: int| 0 <= j < from.len() ==> #[trigger] to->0[j] == from[j]
        },
{
    let root = doc.as_table_mut();
    match ensure_child_tables(root, "agents") {
        Some(agents) => match find_with_text(agents, "id", agent_id) {
            Some(index) => Ok(index),
            None => {
                let mut table = Table::new();
                set_text(&mut table, "id", agent_id);
                agents.push(table);
                Ok(agents.len() - 1)
            },
        },
        None => Err(ApiError::Internal),
    }
}

/// The table under a key of an agent's table, of either form, made anew where
/// anything else or nothing stands there.
fn get_or_create_subtable<'a>(agent: &'a mut Table, key: &str) -> (table: &'a mut Item)
    ensures
        table_like(item_node(*table)),
        item_node(*table) == in_form(
            node_at(table_entries(*old(agent)), key@),
            subtable(table_entries(*old(agent)), key@),
        ),
        item_node(*final(table)) !is Absent ==> table_entries(*final(agent)) == table_entries(
            *old(agent),
        ).insert(key@, item_node(*final(table))),
        kept_but(table_layout(*old(agent)), table_layout(*final(agent)), only(key@, true)),
        layout_at(table_layout(*final(agent)), key@) == item_layout(*final(table)),
        like_layout(layout_at(table_layout(*old(agent)), key@)) is Some ==> layout_at(
            table_layout(*old(agent)),
            key@,
        ) == item_layout(*table),
{
    let is_table = match agent.get(key) {
        Some(item) => item.is_table_like(),
        None => false,
    };
    if !is_table {
        set_item(agent, key, table_item(Table::new()));
    }
    let ghost mid = table_entries(*agent);
    assert(forall|node: TomlNode| #[trigger]
        mid.insert(key@, node) =~= table_entries(*old(agent)).insert(key@, node));
    match agent.get_mut(key) {
        Some(item) => item,
        None => vstd::pervasive::unreached(),
    }
}

/// A number as it is stored.
fn signed(number: Option<u64>) -> (value: Option<i64>)
    ensures
        integer_node(value) == integer_of(stored(number)),
        value is Some == number is Some,
{
    match number {
        Some(value) => Some(value as i64),
        None => None,
    }
}

/// A count as it is stored.
fn signed_size(number: Option<usize>) -> (value: Option<i64>)
    ensures
        integer_node(value) == integer_of(stored_size(number)),
        value is Some == number is Some,
{
    match number {
        Some(value) => Some(value as i64),
        None => None,
    }
}

/// A small count as it is stored.
fn signed_byte(number: Option<u8>) -> (value: Option<i64>)
    ensures
        integer_node(value) == integer_of(stored_byte(number)),
        value is Some == number is Some,
{
    match number {
        Some(value) => Some(value as i64),
        None => None,
    }
}

pub open spec fn integer_of(number: Option<int>) -> Option<TomlNode> {
    match number {
        Some(value) => Some(TomlNode::Integer(value)),
        None => None,
    }
}

fn set_size_if(table: &mut Table, key: &str, number: Option<usize>)
    ensures
        table_entries(*final(table)) == with_integer(
            table_entries(*old(table)),
            key@,
            stored_size(number),
        ),
        kept_but(table_layout(*old(table)), table_layout(*final(table)), only(key@, number is Some)),
{
    match number {
        Some(value) => set_item(table, key, integer_item(value as i64)),
        None => {},
    }
}

fn set_item_if(table: &mut Item, key: &str, item: Option<Item>)
    requires
        table_like(item_node(*old(table))),
        item is Some ==> item_node(item->0) !is Absent,
    ensures
        item_node(*final(table)) == with_like_node(item_node(*old(table)), key@, stored_item(item)),
        item_kept_but(item_layout(*old(table)), item_layout(*final(table)), only(key@, item is Some)),
{
    match item {
        Some(value) => set_like(table, key, value),
        None => {},
    }
}

pub fn update_routing_table(agent: &mut Table, routing: &RoutingUpdate)
    ensures
        table_entries(*final(agent)) == routing.applied(table_entries(*old(agent))),
        kept_but(table_layout(*old(agent)), table_layout(*final(agent)), only("routing"@, true)),
        inner_kept_but(
            table_layout(*old(agent)),
            table_layout(*final(agent)),
            "routing"@,
            |key: Seq<char>| routing.sets(key),
        ),
{
    let table = get_or_create_subtable(agent, "routing");
    set_like_text_if(table, "channel", &routing.channel);
    set_like_text_if(table, "branch", &routing.branch);
    set_like_text_if(table, "worker", &routing.worker);
    set_like_text_if(table, "compactor", &routing.compactor);
    set_like_text_if(table, "cortex", &routing.cortex);
    set_like_text_if(table, "voice", &routing.voice);
    set_like_integer_if(table, "rate_limit_cooldown_secs", signed(routing.rate_limit_cooldown_secs));
}

pub fn update_tuning_table(agent: &mut Table, tuning: &TuningUpdate)
    ensures
        table_entries(*final(agent)) == tuning.applied(table_entries(*old(agent))),
        kept_but(
            table_layout(*old(agent)),
            table_layout(*final(agent)),
            |key: Seq<char>| tuning.sets(key),
        ),
{
    set_size_if(agent, "max_concurrent_branches", tuning.max_concurrent_branches);
    set_size_if(agent, "max_concurrent_workers", tuning.max_concurrent_workers);
    set_size_if(agent, "max_turns", tuning.max_turns);
    set_size_if(agent, "branch_max_turns", tuning.branch_max_turns);
    set_size_if(agent, "context_window", tuning.context_window);
    set_size_if(agent, "history_backfill_count", tuning.history_backfill_count);
}

pub fn update_compaction_table(agent: &mut Table, compaction: CompactionUpdate)
    requires
        compaction.is_valid(),
    ensures
        table_entries(*final(agent)) == compaction.applied(table_entries(*old(agent))),
        kept_but(table_layout(*old(agent)), table_layout(*final(agent)), only("compaction"@, true)),
        inner_kept_but(
            table_layout(*old(agent)),
            table_layout(*final(agent)),
            "compaction"@,
            |key: Seq<char>| compaction.sets(key),
        ),
{
    let table = get_or_create_subtable(agent, "compaction");
    set_item_if(table, "background_threshold", compaction.background_threshold);
    set_item_if(table, "aggressive_threshold", compaction.aggressive_threshold);
    set_item_if(table, "emergency_threshold", compaction.emergency_threshold);
}

pub fn update_cortex_table(agent: &mut Table, cortex: &CortexUpdate)
    ensures
        table_entries(*final(agent)) == cortex.applied(table_entries(*old(agent))),
        kept_but(table_layout(*old(agent)), table_layout(*final(agent)), only("cortex"@, true)),
        inner_kept_but(
            table_layout(*old(agent)),
            table_layout(*final(agent)),
            "cortex"@,
            |key: Seq<char>| cortex.sets(key),
        ),
{
    let table = get_or_create_subtable(agent, "cortex");
    set_like_integer_if(table, "tick_interval_secs", signed(cortex.tick_interval_secs));
    set_like_integer_if(table, "worker_timeout_secs", signed(cortex.worker_timeout_secs));
    set_like_integer_if(table, "branch_timeout_secs", signed(cortex.branch_timeout_secs));
    set_like_integer_if(table, "circuit_breaker_threshold", signed_byte(cortex.circuit_breaker_threshold));
    set_like_integer_if(table, "bulletin_interval_secs", signed(cortex.bulletin_interval_secs));
    set_like_integer_if(table, "bulletin_max_words", signed_size(cortex.bulletin_max_words));
    set_like_integer_if(table, "bulletin_max_turns", signed_size(cortex.bulletin_max_turns));
}

pub fn update_coalesce_table(agent: &mut Table, coalesce: &CoalesceUpdate)
    ensures
        table_entries(*final(agent)) == coalesce.applied(table_entries(*old(agent))),
        kept_but(table_layout(*old(agent)), table_layout(*final(agent)), only("coalesce"@, true)),
        inner_kept_but(
            table_layout(*old(agent)),
            table_layout(*final(agent)),
            "coalesce"@,
            |key: Seq<char>| coalesce.sets(key),
        ),
{
    let table = get_or_create_subtable(agent, "coalesce");
    set_like_flag_if(table, "enabled", coalesce.enabled);
    set_like_integer_if(table, "debounce_ms", signed(coalesce.debounce_ms));
    set_like_integer_if(table, "max_wait_ms", signed(coalesce.max_wait_ms));
    set_like_integer_if(table, "min_messages", signed_size(coalesce.min_messages));
    set_like_flag_if(table, "multi_user_only", coalesce.multi_user_only);
}

pub fn update_memory_persistence_table(agent: &mut Table, memory: &MemoryPersistenceUpdate)
    ensures
        table_entries(*final(agent)) == memory.applied(table_entries(*old(agent))),
        kept_but(table_layout(*old(agent)), table_layout(*final(agent)), only("memory_persistence"@, true)),
        inner_kept_but(
            table_layout(*old(agent)),
            table_layout(*final(agent)),
            "memory_persistence"@,
            |key: Seq<char>| memory.sets(key),
        ),
{
    let table = get_or_create_subtable(agent, "memory_persistence");
    set_like_flag_if(table, "enabled", memory.enabled);
    set_like_integer_if(table, "message_interval", signed_size(memory.message_interval));
}

pub fn update_browser_table(agent: &mut Table, browser: &BrowserUpdate)
    ensures
        table_entries(*final(agent)) == browser.applied(table_entries(*old(agent))),
        kept_but(table_layout(*old(agent)), table_layout(*final(agent)), only("browser"@, true)),
        inner_kept_but(
            table_layout(*old(agent)),
            table_layout(*final(agent)),
            "browser"@,
            |key: Seq<char>| browser.sets(key),
        ),
{
    let table = get_or_create_subtable(agent, "browser");
    set_like_flag_if(table, "enabled", browser.enabled);
    set_like_flag_if(table, "headless", browser.headless);
    set_like_flag_if(table, "evaluate_enabled", browser.evaluate_enabled);
}

/// Updates `[messaging.discord]`, which has to be there.
pub fn update_discord_table(root: &mut Table, discord: &DiscordUpdate) -> (result: Result<(), ApiError>)
    ensures
        match discord.applied(table_entries(*old(root))) {
            Some(after) => result is Ok && table_entries(*final(root)) == after,
            None => result == Err::<(), _>(ApiError::Internal) && table_entries(*final(root))
                == table_entries(*old(root)),
        },
        result is Ok ==> kept_but(
            table_layout(*old(root)),
            table_layout(*final(root)),
            only("messaging"@, true),
        ) && discord.keeps_messaging(table_layout(*old(root)), table_layout(*final(root))),
{
    let ghost before = table_entries(*root);
    match child_table_mut(root, "messaging") {
        Some(messaging) => {
            let ghost inside = table_entries(*messaging);
            match child_table_mut(messaging, "discord") {
                Some(table) => {
                    set_flag_if(table, "allow_bot_messages", discord.allow_bot_messages);
                    Ok(())
                },
                None => {
                    assert(before.insert("messaging"@, TomlNode::Section(inside)) =~= before);
                    Err(ApiError::Internal)
                },
            }
        },
        None => Err(ApiError::Internal),
    }
}

/// One of the changes that an update makes is among all that it makes.
proof fn lemma_section_step(
    request: AgentConfigUpdateRequest,
    from: TableLayout,
    to: TableLayout,
    section: Seq<char>,
    written: spec_fn(Seq<char>) -> bool,
)
    requires
        request.touches(section),
        kept_but(from, to, only(section, true)),
        inner_kept_but(from, to, section, written),
        forall|key: Seq<char>| #[trigger] written(key) ==> request.sets_inner(section, key),
    ensures
        request.keeps_agent(from, to),
{
    assert forall|other: Seq<char>|
        like_layout(#[trigger] layout_at(from, other)) is Some && !request.sets_value(
            other,
        ) implies inner_kept_but(
        from,
        to,
        other,
        |key: Seq<char>| request.sets_inner(other, key),
    ) by {
        assert(from.entries.contains_key(other));
    }
}

/// Two changes of an update, one after the other, are among all that it makes.
proof fn lemma_steps(
    request: AgentConfigUpdateRequest,
    from: TableLayout,
    mid: TableLayout,
    to: TableLayout,
)
    requires
        request.keeps_agent(from, mid),
        request.keeps_agent(mid, to),
    ensures
        request.keeps_agent(from, to),
{
    assert forall|other: Seq<char>|
        like_layout(#[trigger] layout_at(from, other)) is Some && !request.sets_value(
            other,
        ) implies inner_kept_but(
        from,
        to,
        other,
        |key: Seq<char>| request.sets_inner(other, key),
    ) by {
        assert(like_layout(layout_at(mid, other)) is Some);
        assert(like_layout(layout_at(to, other)) is Some);
    }
}

fn apply_to_agent(agent: &mut Table, request: AgentConfigUpdateRequest)
    requires
        request.is_valid(),
    ensures
        table_entries(*final(agent)) == request.agent_applied(table_entries(*old(agent))),
        request.keeps_agent(table_layout(*old(agent)), table_layout(*final(agent))),
{
    let ghost whole = request;
    let ghost from = table_layout(*agent);
    let ghost mut last = from;
    match &request.routing {
        Some(update) => {
            update_routing_table(agent, update);
            proof {
                lemma_section_step(
                    whole,
                    last,
                    table_layout(*agent),
                    "routing"@,
                    |key: Seq<char>| whole.routing->0.sets(key),
                );
                lemma_steps(whole, from, last, table_layout(*agent));
                last = table_layout(*agent);
            }
        },
        None => {},
    }
    match &request.tuning {
        Some(update) => {
            update_tuning_table(agent, update);
            proof {
                assert(whole.keeps_agent(last, table_layout(*agent))) by {
                    let to = table_layout(*agent);
                    assert forall|other: Seq<char>|
                        like_layout(#[trigger] layout_at(last, other)) is Some && !whole.sets_value(
                            other,
                        ) implies inner_kept_but(
                        last,
                        to,
                        other,
                        |key: Seq<char>| whole.sets_inner(other, key),
                    ) by {
                        assert(last.entries.contains_key(other));
                    }
                }
                lemma_steps(whole, from, last, table_layout(*agent));
                last = table_layout(*agent);
            }
        },
        None => {},
    }
    match request.compaction {
        Some(update) => {
            update_compaction_table(agent, update);
            proof {
                lemma_section_step(
                    whole,
                    last,
                    table_layout(*agent),
                    "compaction"@,
                    |key: Seq<char>| whole.compaction->0.sets(key),
                );
                lemma_steps(whole, from, last, table_layout(*agent));
                last = table_layout(*agent);
            }
        },
        None => {},
    }
    match &request.cortex {
        Some(update) => {
            update_cortex_table(agent, update);
            proof {
                lemma_section_step(
                    whole,
                    last,
                    table_layout(*agent),
                    "cortex"@,
                    |key: Seq<char>| whole.cortex->0.sets(key),
                );
                lemma_steps(whole, from, last, table_layout(*agent));
                last = table_layout(*agent);
            }
        },
        None => {},
    }
    match &request.coalesce {
        Some(update) => {
            update_coalesce_table(agent, update);
            proof {
                lemma_section_step(
                    whole,
                    last,
                    table_layout(*agent),
                    "coalesce"@,
                    |key: Seq<char>| whole.coalesce->0.sets(key),
                );
                lemma_steps(whole, from, last, table_layout(*agent));
                last = table_layout(*agent);
            }
        },
        None => {},
    }
    match &request.memory_persistence {
        Some(update) => {
            update_memory_persistence_table(agent, update);
            proof {
                lemma_section_step(
                    whole,
                    last,
                    table_layout(*agent),
                    "memory_persistence"@,
                    |key: Seq<char>| whole.memory_persistence->0.sets(key),
                );
                lemma_steps(whole, from, last, table_layout(*agent));
                last = table_layout(*agent);
            }
        },
        None => {},
    }
    match &request.browser {
        Some(update) => {
            update_browser_table(agent, update);
            proof {
                lemma_section_step(
                    whole,
                    last,
                    table_layout(*agent),
                    "browser"@,
                    |key: Seq<char>| whole.browser->0.sets(key),
                );
                lemma_steps(whole, from, last, table_layout(*agent));
                last = table_layout(*agent);
            }
        },
        None => {},
    }
}

proof fn lemma_agents_with(root: Entries, agent_id: Seq<char>)
    ensures
        agents_with(root, agent_id) matches Some((tables, i)) ==> 0 <= i < tables.len() && tables[i]
            is Section && section_text(tables[i], "id"@) == Some(agent_id),
{
    match child_tables(root, "agents"@) {
        Some(tables) => lemma_first_with_text(tables, 0, "id"@, agent_id),
        None => {},
    }
}

/// Updates the configuration of an agent in a document.
pub fn update_agent(doc: DocumentMut, request: AgentConfigUpdateRequest) -> (result: Result<
    DocumentMut,
    ApiError,
>)
    requires
        root_is_table(doc),
        request.is_valid(),
    ensures
        match result {
            Ok(changed) => {
                &&& request.applied(document_entries(doc)) == Some(document_entries(changed))
                &&& root_is_table(changed)
                &&& request.keeps_layout(
                    document_entries(doc),
                    document_layout(doc),
                    document_layout(changed),
                )
                &&& document_trailing(changed) == document_trailing(doc)
            },
            Err(error) => error == ApiError::Internal && request.applied(document_entries(doc))
                is None,
        },
{
    let mut doc = doc;
    let ghost before = document_entries(doc);
    proof {
        lemma_agents_with(before, request.agent_id@);
    }
    let index: usize = match find_or_create_agent_table(&mut doc, request.agent_id.as_str()) {
        Ok(index) => index,
        Err(error) => {
            return Err(error);
        },
    };
    let ghost (tables, _position) = agents_with(before, request.agent_id@)->0;
    let discord = match &request.discord {
        Some(update) => Some(DiscordUpdate { allow_bot_messages: update.allow_bot_messages }),
        None => None,
    };
    let root = doc.as_table_mut();
    let ghost found = table_entries(*root);
    match ensure_child_tables(root, "agents") {
        Some(agents) => match agents.get_mut(index) {
            Some(agent) => apply_to_agent(agent, request),
            None => {},
        },
        None => {},
    }
    proof {
        let node = TomlNode::Sections(
            tables.update(
                index as int,
                TomlNode::Section(request.agent_applied(section_entries(tables[index as int]))),
            ),
        );
        assert(found.insert("agents"@, node) =~= before.insert("agents"@, node));
    }
    match discord {
        Some(update) => match update_discord_table(root, &update) {
            Ok(_) => {},
            Err(error) => {
                return Err(error);
            },
        },
        None => {},
    }
    Ok(doc)
}

/// Updates the configuration of an agent in the configuration text. Formatting
/// and comments of all that is not set stay as they are; a plain value that stands
/// where a table is needed gives way to one.
pub fn update_agent_config(content: &str, request: AgentConfigUpdateRequest) -> (result: Result<
    String,
    ApiError,
>)
    requires
        request.is_valid(),
    ensures
        match result {
            Ok(text) => {
                &&& parsed_toml(content@) is Some
                &&& request.applied(parsed_entries(content@)->0) is Some
                &&& prints_edit(
                    text@,
                    parsed_toml(content@)->0,
                    request.applied(parsed_entries(content@)->0)->0,
                    |from: TableLayout, to: TableLayout|
                        request.keeps_layout(parsed_entries(content@)->0, from, to),
                )
            },
            Err(error) => error == ApiError::Internal && (parsed_entries(content@) is None
                || request.applied(parsed_entries(content@)->0) is None),
        },
{
    let doc = match parse_document(content) {
        Some(doc) => doc,
        None => {
            return Err(ApiError::Internal);
        },
    };
    match update_agent(doc, request) {
        Ok(changed) => {
            let text = document_text(&changed);
            assert(printed(changed) == text@);
            Ok(text)
        },
        Err(error) => Err(error),
    }
}

/// What the API tells of Discord.
#[derive(Clone, Copy, Debug, PartialEq, Eq, Structural)]
pub struct DiscordSection {
    pub enabled: bool,
    pub allow_bot_messages: bool,
}

/// What the API tells of Discord, where `allow_bot_messages` comes from the
/// permissions in force, if there are any.
pub fn discord_section(allow_bot_messages: Option<bool>) -> (section: DiscordSection)
    ensures
        section.enabled == (allow_bot_messages is Some),
        section.allow_bot_messages == (allow_bot_messages == Some(true)),
{
    match allow_bot_messages {
        Some(allowed) => DiscordSection { enabled: true, allow_bot_messages: allowed },
        None => DiscordSection { enabled: false, allow_bot_messages: false },
    }
}

/// An agent's table is found after it was made: asking twice gives the same
/// tables and the same position.
pub proof fn law_agent_table_is_found_again(root: Entries, agent_id: Seq<char>)
    requires
        agents_with(root, agent_id) is Some,
    ensures
        ({
            let (tables, i) = agents_with(root, agent_id)->0;
            let again = root.insert("agents"@, TomlNode::Sections(tables));
            agents_with(again, agent_id) == Some((tables, i))
        }),
{
    let before = child_tables(root, "agents"@)->0;
    let (tables, i) = agents_with(root, agent_id)->0;
    lemma_first_with_text(before, 0, "id"@, agent_id);
    if first_with_text(before, 0, "id"@, agent_id) is None {
        lemma_skips_to(tables, 0, i, agent_id);
    }
}

proof fn lemma_skips_to(tables: Seq<TomlNode>, from: int, at: int, agent_id: Seq<char>)
    requires
        0 <= from <= at < tables.len(),
        section_text(tables[at], "id"@) == Some(agent_id),
        forall|j: int| from <= j < at ==> section_text(#[trigger] tables[j], "id"@) != Some(agent_id),
    ensures
        first_with_text(tables, from, "id"@, agent_id) == Some(at),
    decreases at - from,
{
    if from < at {
        assert(section_text(tables[from], "id"@) != Some(agent_id));
        lemma_skips_to(tables, from + 1, at, agent_id);
    }
}

/// An update of one agent leaves the tables of the others as they are, but for
/// one that is made.
pub proof fn law_update_keeps_other_agents(
    request: AgentConfigUpdateRequest,
    root: Entries,
    j: int,
)
    requires
        request.discord is None,
        child_tables(root, "agents"@) is Some,
        0 <= j < child_tables(root, "agents"@)->0.len(),
        agent_position(root, request.agent_id@) != j,
    ensures
        request.applied(root) is Some,
        node_at(request.applied(root)->0, "agents"@) is Sections,
        node_at(request.applied(root)->0, "agents"@)->Sections_0[j] == child_tables(
            root,
            "agents"@,
        )->0[j],
{
    lemma_agents_with(root, request.agent_id@);
}

/// What is read under a key of a table that stands, in either form, in another.
pub open spec fn value_in(entries: Entries, section: Seq<char>, key: Seq<char>) -> TomlNode {
    if entries.contains_key(section) {
        match entries[section] {
            TomlNode::Section(inner) => if inner.contains_key(key) {
                inner[key]
            } else {
                TomlNode::Absent
            },
            TomlNode::Inline(inner) => if inner.contains_key(key) {
                inner[key]
            } else {
                TomlNode::Absent
            },
            _ => TomlNode::Absent,
        }
    } else {
        TomlNode::Absent
    }
}

proof fn lemma_routing_keys_differ()
    ensures
        "channel"@ != "branch"@,
        "channel"@ != "worker"@,
        "channel"@ != "compactor"@,
        "channel"@ != "cortex"@,
        "channel"@ != "voice"@,
        "channel"@ != "rate_limit_cooldown_secs"@,
        "branch"@ != "worker"@,
        "branch"@ != "compactor"@,
        "branch"@ != "cortex"@,
        "branch"@ != "voice"@,
        "branch"@ != "rate_limit_cooldown_secs"@,
        "worker"@ != "compactor"@,
        "worker"@ != "cortex"@,
        "worker"@ != "voice"@,
        "worker"@ != "rate_limit_cooldown_secs"@,
        "compactor"@ != "cortex"@,
        "compactor"@ != "voice"@,
        "compactor"@ != "rate_limit_cooldown_secs"@,
        "cortex"@ != "voice"@,
        "cortex"@ != "rate_limit_cooldown_secs"@,
        "voice"@ != "rate_limit_cooldown_secs"@,
{
    reveal_strlit("channel");
    reveal_strlit("branch");
    reveal_strlit("worker");
    reveal_strlit("compactor");
    reveal_strlit("cortex");
    reveal_strlit("voice");
    reveal_strlit("rate_limit_cooldown_secs");
    assert("channel"@.len() == 7);
    assert("branch"@.len() == 6);
    assert("worker"@.len() == 6);
    assert("compactor"@.len() == 9);
    assert("cortex"@.len() == 6);
    assert("voice"@.len() == 5);
    assert("rate_limit_cooldown_secs"@.len() == 24);
    assert("branch"@[0] != "worker"@[0]);
    assert("branch"@[0] != "cortex"@[0]);
    assert("worker"@[0] != "cortex"@[0]);
}

/// Each value that an update of the routing table gives is read back under its
/// own key, each that it does not give stays, and so does all else.
pub proof fn law_routing_update_is_read_back(
    update: RoutingUpdate,
    agent: Entries,
    other: Seq<char>,
    section: Seq<char>,
)
    ensures
        update.channel is None
            ==> value_in(update.applied(agent), "routing"@, "channel"@)
            == value_in(agent, "routing"@, "channel"@),
        update.channel matches Some(value)
            ==> value_in(update.applied(agent), "routing"@, "channel"@) == TomlNode::Text(value@),
        update.branch is None
            ==> value_in(update.applied(agent), "routing"@, "branch"@)
            == value_in(agent, "routing"@, "branch"@),
        update.branch matches Some(value)
            ==> value_in(update.applied(agent), "routing"@, "branch"@) == TomlNode::Text(value@),
        update.worker is None
            ==> value_in(update.applied(agent), "routing"@, "worker"@)
            == value_in(agent, "routing"@, "worker"@),
        update.worker matches Some(value)
            ==> value_in(update.applied(agent), "routing"@, "worker"@) == TomlNode::Text(value@),
        update.compactor is None
            ==> value_in(update.applied(agent), "routing"@, "compactor"@)
            == value_in(agent, "routing"@, "compactor"@),
        update.compactor matches Some(value)
            ==> value_in(update.applied(agent), "routing"@, "compactor"@) == TomlNode::Text(value@),
        update.cortex is None
            ==> value_in(update.applied(agent), "routing"@, "cortex"@)
            == value_in(agent, "routing"@, "cortex"@),
        update.cortex matches Some(value)
            ==> value_in(update.applied(agent), "routing"@, "cortex"@) == TomlNode::Text(value@),
        update.voice is None
            ==> value_in(update.applied(agent), "routing"@, "voice"@)
            == value_in(agent, "routing"@, "voice"@),
        update.voice matches Some(value)
            ==> value_in(update.applied(agent), "routing"@, "voice"@) == TomlNode::Text(value@),
        update.rate_limit_cooldown_secs is None
            ==> value_in(update.applied(agent), "routing"@, "rate_limit_cooldown_secs"@)
            == value_in(agent, "routing"@, "rate_limit_cooldown_secs"@),
        update.rate_limit_cooldown_secs matches Some(value) ==> value <= i64::MAX
            ==> value_in(update.applied(agent), "routing"@, "rate_limit_cooldown_secs"@)
            == TomlNode::Integer(value as int),
        other != "channel"@ && other != "branch"@ && other != "worker"@ && other != "compactor"@
            && other != "cortex"@ && other != "voice"@ && other != "rate_limit_cooldown_secs"@
            ==> value_in(update.applied(agent), "routing"@, other)
            == value_in(agent, "routing"@, other),
        section != "routing"@
            ==> node_at(update.applied(agent), section) == node_at(agent, section),
{
    lemma_routing_keys_differ();
}

proof fn lemma_compaction_keys_differ()
    ensures
        "background_threshold"@ != "aggressive_threshold"@,
        "background_threshold"@ != "emergency_threshold"@,
        "aggressive_threshold"@ != "emergency_threshold"@,
{
    reveal_strlit("background_threshold");
    reveal_strlit("aggressive_threshold");
    reveal_strlit("emergency_threshold");
    assert("background_threshold"@.len() == 20);
    assert("aggressive_threshold"@.len() == 20);
    assert("emergency_threshold"@.len() == 19);
    assert("background_threshold"@[0] != "aggressive_threshold"@[0]);
}

/// Each value that an update of the compaction table gives is read back under its
/// own key, each that it does not give stays, and so does all else.
pub proof fn law_compaction_update_is_read_back(
    update: CompactionUpdate,
    agent: Entries,
    other: Seq<char>,
    section: Seq<char>,
)
    ensures
        update.background_threshold is None
            ==> value_in(update.applied(agent), "compaction"@, "background_threshold"@)
            == value_in(agent, "compaction"@, "background_threshold"@),
        update.background_threshold matches Some(value)
            ==> value_in(update.applied(agent), "compaction"@, "background_threshold"@)
            == item_node(value),
        update.aggressive_threshold is None
            ==> value_in(update.applied(agent), "compaction"@, "aggressive_threshold"@)
            == value_in(agent, "compaction"@, "aggressive_threshold"@),
        update.aggressive_threshold matches Some(value)
            ==> value_in(update.applied(agent), "compaction"@, "aggressive_threshold"@)
            == item_node(value),
        update.emergency_threshold is None
            ==> value_in(update.applied(agent), "compaction"@, "emergency_threshold"@)
            == value_in(agent, "compaction"@, "emergency_threshold"@),
        update.emergency_threshold matches Some(value)
            ==> value_in(update.applied(agent), "compaction"@, "emergency_threshold"@)
            == item_node(value),
        other != "background_threshold"@ && other != "aggressive_threshold"@
            && other != "emergency_threshold"@
            ==> value_in(update.applied(agent), "compaction"@, other)
            == value_in(agent, "compaction"@, other),
        section != "compaction"@
            ==> node_at(update.applied(agent), section) == node_at(agent, section),
{
    lemma_compaction_keys_differ();
}

proof fn lemma_cortex_keys_differ()
    ensures
        "tick_interval_secs"@ != "worker_timeout_secs"@,
        "tick_interval_secs"@ != "branch_timeout_secs"@,
        "tick_interval_secs"@ != "circuit_breaker_threshold"@,
        "tick_interval_secs"@ != "bulletin_interval_secs"@,
        "tick_interval_secs"@ != "bulletin_max_words"@,
        "tick_interval_secs"@ != "bulletin_max_turns"@,
        "worker_timeout_secs"@ != "branch_timeout_secs"@,
        "worker_timeout_secs"@ != "circuit_breaker_threshold"@,
        "worker_timeout_secs"@ != "bulletin_interval_secs"@,
        "worker_timeout_secs"@ != "bulletin_max_words"@,
        "worker_timeout_secs"@ != "bulletin_max_turns"@,
        "branch_timeout_secs"@ != "circuit_breaker_threshold"@,
        "branch_timeout_secs"@ != "bulletin_interval_secs"@,
        "branch_timeout_secs"@ != "bulletin_max_words"@,
        "branch_timeout_secs"@ != "bulletin_max_turns"@,
        "circuit_breaker_threshold"@ != "bulletin_interval_secs"@,
        "circuit_breaker_threshold"@ != "bulletin_max_words"@,
        "circuit_breaker_threshold"@ != "bulletin_max_turns"@,
        "bulletin_interval_secs"@ != "bulletin_max_words"@,
        "bulletin_interval_secs"@ != "bulletin_max_turns"@,
        "bulletin_max_words"@ != "bulletin_max_turns"@,
{
    reveal_strlit("tick_interval_secs");
    reveal_strlit("worker_timeout_secs");
    reveal_strlit("branch_timeout_secs");
    reveal_strlit("circuit_breaker_threshold");
    reveal_strlit("bulletin_interval_secs");
    reveal_strlit("bulletin_max_words");
    reveal_strlit("bulletin_max_turns");
    assert("tick_interval_secs"@.len() == 18);
    assert("worker_timeout_secs"@.len() == 19);
    assert("branch_timeout_secs"@.len() == 19);
    assert("circuit_breaker_threshold"@.len() == 25);
    assert("bulletin_interval_secs"@.len() == 22);
    assert("bulletin_max_words"@.len() == 18);
    assert("bulletin_max_turns"@.len() == 18);
    assert("tick_interval_secs"@[0] != "bulletin_max_words"@[0]);
    assert("tick_interval_secs"@[0] != "bulletin_max_turns"@[0]);
    assert("worker_timeout_secs"@[0] != "branch_timeout_secs"@[0]);
    assert("bulletin_max_words"@[13] != "bulletin_max_turns"@[13]);
}

/// Each value that an update of the cortex table gives is read back under its
/// own key, each that it does not give stays, and so does all else.
pub proof fn law_cortex_update_is_read_back(
    update: CortexUpdate,
    agent: Entries,
    other: Seq<char>,
    section: Seq<char>,
)
    ensures
        update.tick_interval_secs is None
            ==> value_in(update.applied(agent), "cortex"@, "tick_interval_secs"@)
            == value_in(agent, "cortex"@, "tick_interval_secs"@),
        update.tick_interval_secs matches Some(value) ==> value <= i64::MAX
            ==> value_in(update.applied(agent), "cortex"@, "tick_interval_secs"@)
            == TomlNode::Integer(value as int),
        update.worker_timeout_secs is None
            ==> value_in(update.applied(agent), "cortex"@, "worker_timeout_secs"@)
            == value_in(agent, "cortex"@, "worker_timeout_secs"@),
        update.worker_timeout_secs matches Some(value) ==> value <= i64::MAX
            ==> value_in(update.applied(agent), "cortex"@, "worker_timeout_secs"@)
            == TomlNode::Integer(value as int),
        update.branch_timeout_secs is None
            ==> value_in(update.applied(agent), "cortex"@, "branch_timeout_secs"@)
            == value_in(agent, "cortex"@, "branch_timeout_secs"@),
        update.branch_timeout_secs matches Some(value) ==> value <= i64::MAX
            ==> value_in(update.applied(agent), "cortex"@, "branch_timeout_secs"@)
            == TomlNode::Integer(value as int),
        update.circuit_breaker_threshold is None
            ==> value_in(update.applied(agent), "cortex"@, "circuit_breaker_threshold"@)
            == value_in(agent, "cortex"@, "circuit_breaker_threshold"@),
        update.circuit_breaker_threshold matches Some(value) ==> value <= i64::MAX
            ==> value_in(update.applied(agent), "cortex"@, "circuit_breaker_threshold"@)
            == TomlNode::Integer(value as int),
        update.bulletin_interval_secs is None
            ==> value_in(update.applied(agent), "cortex"@, "bulletin_interval_secs"@)
            == value_in(agent, "cortex"@, "bulletin_interval_secs"@),
        update.bulletin_interval_secs matches Some(value) ==> value <= i64::MAX
            ==> value_in(update.applied(agent), "cortex"@, "bulletin_interval_secs"@)
            == TomlNode::Integer(value as int),
        update.bulletin_max_words is None
            ==> value_in(update.applied(agent), "cortex"@, "bulletin_max_words"@)
            == value_in(agent, "cortex"@, "bulletin_max_words"@),
        update.bulletin_max_words matches Some(value) ==> value <= i64::MAX
            ==> value_in(update.applied(agent), "cortex"@, "bulletin_max_words"@)
            == TomlNode::Integer(value as int),
        update.bulletin_max_turns is None
            ==> value_in(update.applied(agent), "cortex"@, "bulletin_max_turns"@)
            == value_in(agent, "cortex"@, "bulletin_max_turns"@),
        update.bulletin_max_turns matches Some(value) ==> value <= i64::MAX
            ==> value_in(update.applied(agent), "cortex"@, "bulletin_max_turns"@)
            == TomlNode::Integer(value as int),
        other != "tick_interval_secs"@ && other != "worker_timeout_secs"@
            && other != "branch_timeout_secs"@ && other != "circuit_breaker_threshold"@
            && other != "bulletin_interval_secs"@ && other != "bulletin_max_words"@
            && other != "bulletin_max_turns"@
            ==> value_in(update.applied(agent), "cortex"@, other)
            == value_in(agent, "cortex"@, other),
        section != "cortex"@ ==> node_at(update.applied(agent), section) == node_at(agent, section),
{
    lemma_cortex_keys_differ();
}

proof fn lemma_coalesce_keys_differ()
    ensures
        "enabled"@ != "debounce_ms"@,
        "enabled"@ != "max_wait_ms"@,
        "enabled"@ != "min_messages"@,
        "enabled"@ != "multi_user_only"@,
        "debounce_ms"@ != "max_wait_ms"@,
        "debounce_ms"@ != "min_messages"@,
        "debounce_ms"@ != "multi_user_only"@,
        "max_wait_ms"@ != "min_messages"@,
        "max_wait_ms"@ != "multi_user_only"@,
        "min_messages"@ != "multi_user_only"@,
{
    reveal_strlit("enabled");
    reveal_strlit("debounce_ms");
    reveal_strlit("max_wait_ms");
    reveal_strlit("min_messages");
    reveal_strlit("multi_user_only");
    assert("enabled"@.len() == 7);
    assert("debounce_ms"@.len() == 11);
    assert("max_wait_ms"@.len() == 11);
    assert("min_messages"@.len() == 12);
    assert("multi_user_only"@.len() == 15);
    assert("debounce_ms"@[0] != "max_wait_ms"@[0]);
}

/// Each value that an update of the coalesce table gives is read back under its
/// own key, each that it does not give stays, and so does all else.
pub proof fn law_coalesce_update_is_read_back(
    update: CoalesceUpdate,
    agent: Entries,
    other: Seq<char>,
    section: Seq<char>,
)
    ensures
        update.enabled is None
            ==> value_in(update.applied(agent), "coalesce"@, "enabled"@)
            == value_in(agent, "coalesce"@, "enabled"@),
        update.enabled matches Some(value)
            ==> value_in(update.applied(agent), "coalesce"@, "enabled"@) == TomlNode::Flag(value),
        update.debounce_ms is None
            ==> value_in(update.applied(agent), "coalesce"@, "debounce_ms"@)
            == value_in(agent, "coalesce"@, "debounce_ms"@),
        update.debounce_ms matches Some(value) ==> value <= i64::MAX
            ==> value_in(update.applied(agent), "coalesce"@, "debounce_ms"@)
            == TomlNode::Integer(value as int),
        update.max_wait_ms is None
            ==> value_in(update.applied(agent), "coalesce"@, "max_wait_ms"@)
            == value_in(agent, "coalesce"@, "max_wait_ms"@),
        update.max_wait_ms matches Some(value) ==> value <= i64::MAX
            ==> value_in(update.applied(agent), "coalesce"@, "max_wait_ms"@)
            == TomlNode::Integer(value as int),
        update.min_messages is None
            ==> value_in(update.applied(agent), "coalesce"@, "min_messages"@)
            == value_in(agent, "coalesce"@, "min_messages"@),
        update.min_messages matches Some(value) ==> value <= i64::MAX
            ==> value_in(update.applied(agent), "coalesce"@, "min_messages"@)
            == TomlNode::Integer(value as int),
        update.multi_user_only is None
            ==> value_in(update.applied(agent), "coalesce"@, "multi_user_only"@)
            == value_in(agent, "coalesce"@, "multi_user_only"@),
        update.multi_user_only matches Some(value)
            ==> value_in(update.applied(agent), "coalesce"@, "multi_user_only"@)
            == TomlNode::Flag(value),
        other != "enabled"@ && other != "debounce_ms"@ && other != "max_wait_ms"@
            && other != "min_messages"@ && other != "multi_user_only"@
            ==> value_in(update.applied(agent), "coalesce"@, other)
            == value_in(agent, "coalesce"@, other),
        section != "coalesce"@
            ==> node_at(update.applied(agent), section) == node_at(agent, section),
{
    lemma_coalesce_keys_differ();
}

proof fn lemma_memory_persistence_keys_differ()
    ensures
        "enabled"@ != "message_interval"@,
{
    reveal_strlit("enabled");
    reveal_strlit("message_interval");
    assert("enabled"@.len() == 7);
    assert("message_interval"@.len() == 16);
}

/// Each value that an update of the memory persistence table gives is read back under its
/// own key, each that it does not give stays, and so does all else.
pub proof fn law_memory_persistence_update_is_read_back(
    update: MemoryPersistenceUpdate,
    agent: Entries,
    other: Seq<char>,
    section: Seq<char>,
)
    ensures
        update.enabled is None
            ==> value_in(update.applied(agent), "memory_persistence"@, "enabled"@)
            == value_in(agent, "memory_persistence"@, "enabled"@),
        update.enabled matches Some(value)
            ==> value_in(update.applied(agent), "memory_persistence"@, "enabled"@)
            == TomlNode::Flag(value),
        update.message_interval is None
            ==> value_in(update.applied(agent), "memory_persistence"@, "message_interval"@)
            == value_in(agent, "memory_persistence"@, "message_interval"@),
        update.message_interval matches Some(value) ==> value <= i64::MAX
            ==> value_in(update.applied(agent), "memory_persistence"@, "message_interval"@)
            == TomlNode::Integer(value as int),
        other != "enabled"@ && other != "message_interval"@
            ==> value_in(update.applied(agent), "memory_persistence"@, other)
            == value_in(agent, "memory_persistence"@, other),
        section != "memory_persistence"@
            ==> node_at(update.applied(agent), section) == node_at(agent, section),
{
    lemma_memory_persistence_keys_differ();
}

proof fn lemma_browser_keys_differ()
    ensures
        "enabled"@ != "headless"@,
        "enabled"@ != "evaluate_enabled"@,
        "headless"@ != "evaluate_enabled"@,
{
    reveal_strlit("enabled");
    reveal_strlit("headless");
    reveal_strlit("evaluate_enabled");
    assert("enabled"@.len() == 7);
    assert("headless"@.len() == 8);
    assert("evaluate_enabled"@.len() == 16);
}

/// Each value that an update of the browser table gives is read back under its
/// own key, each that it does not give stays, and so does all else.
pub proof fn law_browser_update_is_read_back(
    update: BrowserUpdate,
    agent: Entries,
    other: Seq<char>,
    section: Seq<char>,
)
    ensures
        update.enabled is None
            ==> value_in(update.applied(agent), "browser"@, "enabled"@)
            == value_in(agent, "browser"@, "enabled"@),
        update.enabled matches Some(value)
            ==> value_in(update.applied(agent), "browser"@, "enabled"@) == TomlNode::Flag(value),
        update.headless is None
            ==> value_in(update.applied(agent), "browser"@, "headless"@)
            == value_in(agent, "browser"@, "headless"@),
        update.headless matches Some(value)
            ==> value_in(update.applied(agent), "browser"@, "headless"@) == TomlNode::Flag(value),
        update.evaluate_enabled is None
            ==> value_in(update.applied(agent), "browser"@, "evaluate_enabled"@)
            == value_in(agent, "browser"@, "evaluate_enabled"@),
        update.evaluate_enabled matches Some(value)
            ==> value_in(update.applied(agent), "browser"@, "evaluate_enabled"@)
            == TomlNode::Flag(value),
        other != "enabled"@ && other != "headless"@ && other != "evaluate_enabled"@
            ==> value_in(update.applied(agent), "browser"@, other)
            == value_in(agent, "browser"@, other),
        section != "browser"@
            ==> node_at(update.applied(agent), section) == node_at(agent, section),
{
    lemma_browser_keys_differ();
}

proof fn lemma_tuning_keys_differ()
    ensures
        "max_concurrent_branches"@ != "max_concurrent_workers"@,
        "max_concurrent_branches"@ != "max_turns"@,
        "max_concurrent_branches"@ != "branch_max_turns"@,
        "max_concurrent_branches"@ != "context_window"@,
        "max_concurrent_branches"@ != "history_backfill_count"@,
        "max_concurrent_workers"@ != "max_turns"@,
        "max_concurrent_workers"@ != "branch_max_turns"@,
        "max_concurrent_workers"@ != "context_window"@,
        "max_concurrent_workers"@ != "history_backfill_count"@,
        "max_turns"@ != "branch_max_turns"@,
        "max_turns"@ != "context_window"@,
        "max_turns"@ != "history_backfill_count"@,
        "branch_max_turns"@ != "context_window"@,
        "branch_max_turns"@ != "history_backfill_count"@,
        "context_window"@ != "history_backfill_count"@,
{
    reveal_strlit("max_concurrent_branches");
    reveal_strlit("max_concurrent_workers");
    reveal_strlit("max_turns");
    reveal_strlit("branch_max_turns");
    reveal_strlit("context_window");
    reveal_strlit("history_backfill_count");
    assert("max_concurrent_branches"@.len() == 23);
    assert("max_concurrent_workers"@.len() == 22);
    assert("max_turns"@.len() == 9);
    assert("branch_max_turns"@.len() == 16);
    assert("context_window"@.len() == 14);
    assert("history_backfill_count"@.len() == 22);
    assert("max_concurrent_workers"@[0] != "history_backfill_count"@[0]);
}

/// Each value that an update of the tuning gives is read back under its own key in
/// the agent's own table, each that it does not give stays, and so does all else.
pub proof fn law_tuning_update_is_read_back(update: TuningUpdate, agent: Entries, other: Seq<char>)
    ensures
        update.max_concurrent_branches is None
            ==> node_at(update.applied(agent), "max_concurrent_branches"@)
            == node_at(agent, "max_concurrent_branches"@),
        update.max_concurrent_branches matches Some(value) ==> value <= i64::MAX
            ==> node_at(update.applied(agent), "max_concurrent_branches"@)
            == TomlNode::Integer(value as int),
        update.max_concurrent_workers is None
            ==> node_at(update.applied(agent), "max_concurrent_workers"@)
            == node_at(agent, "max_concurrent_workers"@),
        update.max_concurrent_workers matches Some(value) ==> value <= i64::MAX
            ==> node_at(update.applied(agent), "max_concurrent_workers"@)
            == TomlNode::Integer(value as int),
        update.max_turns is None
            ==> node_at(update.applied(agent), "max_turns"@) == node_at(agent, "max_turns"@),
        update.max_turns matches Some(value) ==> value <= i64::MAX
            ==> node_at(update.applied(agent), "max_turns"@) == TomlNode::Integer(value as int),
        update.branch_max_turns is None
            ==> node_at(update.applied(agent), "branch_max_turns"@)
            == node_at(agent, "branch_max_turns"@),
        update.branch_max_turns matches Some(value) ==> value <= i64::MAX
            ==> node_at(update.applied(agent), "branch_max_turns"@)
            == TomlNode::Integer(value as int),
        update.context_window is None
            ==> node_at(update.applied(agent), "context_window"@)
            == node_at(agent, "context_window"@),
        update.context_window matches Some(value) ==> value <= i64::MAX
            ==> node_at(update.applied(agent), "context_window"@)
            == TomlNode::Integer(value as int),
        update.history_backfill_count is None
            ==> node_at(update.applied(agent), "history_backfill_count"@)
            == node_at(agent, "history_backfill_count"@),
        update.history_backfill_count matches Some(value) ==> value <= i64::MAX
            ==> node_at(update.applied(agent), "history_backfill_count"@)
            == TomlNode::Integer(value as int),
        other != "max_concurrent_branches"@ && other != "max_concurrent_workers"@
            && other != "max_turns"@ && other != "branch_max_turns"@ && other != "context_window"@
            && other != "history_backfill_count"@
            ==> node_at(update.applied(agent), other) == node_at(agent, other),
{
    lemma_tuning_keys_differ();
}

proof fn lemma_sections_differ()
    ensures
        "routing"@ != "compaction"@,
        "routing"@ != "cortex"@,
        "routing"@ != "coalesce"@,
        "routing"@ != "memory_persistence"@,
        "routing"@ != "browser"@,
        "compaction"@ != "cortex"@,
        "compaction"@ != "coalesce"@,
        "compaction"@ != "memory_persistence"@,
        "compaction"@ != "browser"@,
        "cortex"@ != "coalesce"@,
        "cortex"@ != "memory_persistence"@,
        "cortex"@ != "browser"@,
        "coalesce"@ != "memory_persistence"@,
        "coalesce"@ != "browser"@,
        "memory_persistence"@ != "browser"@,
{
    reveal_strlit("routing");
    reveal_strlit("compaction");
    reveal_strlit("cortex");
    reveal_strlit("coalesce");
    reveal_strlit("memory_persistence");
    reveal_strlit("browser");
    assert("routing"@.len() == 7);
    assert("compaction"@.len() == 10);
    assert("cortex"@.len() == 6);
    assert("coalesce"@.len() == 8);
    assert("memory_persistence"@.len() == 18);
    assert("browser"@.len() == 7);
    assert("routing"@[0] != "browser"@[0]);
}

proof fn lemma_sections_are_no_tuning()
    ensures
        "routing"@ != "max_concurrent_branches"@,
        "routing"@ != "max_concurrent_workers"@,
        "routing"@ != "max_turns"@,
        "routing"@ != "branch_max_turns"@,
        "routing"@ != "context_window"@,
        "routing"@ != "history_backfill_count"@,
        "compaction"@ != "max_concurrent_branches"@,
        "compaction"@ != "max_concurrent_workers"@,
        "compaction"@ != "max_turns"@,
        "compaction"@ != "branch_max_turns"@,
        "compaction"@ != "context_window"@,
        "compaction"@ != "history_backfill_count"@,
        "cortex"@ != "max_concurrent_branches"@,
        "cortex"@ != "max_concurrent_workers"@,
        "cortex"@ != "max_turns"@,
        "cortex"@ != "branch_max_turns"@,
        "cortex"@ != "context_window"@,
        "cortex"@ != "history_backfill_count"@,
        "coalesce"@ != "max_concurrent_branches"@,
        "coalesce"@ != "max_concurrent_workers"@,
        "coalesce"@ != "max_turns"@,
        "coalesce"@ != "branch_max_turns"@,
        "coalesce"@ != "context_window"@,
        "coalesce"@ != "history_backfill_count"@,
        "memory_persistence"@ != "max_concurrent_branches"@,
        "memory_persistence"@ != "max_concurrent_workers"@,
        "memory_persistence"@ != "max_turns"@,
        "memory_persistence"@ != "branch_max_turns"@,
        "memory_persistence"@ != "context_window"@,
        "memory_persistence"@ != "history_backfill_count"@,
        "browser"@ != "max_concurrent_branches"@,
        "browser"@ != "max_concurrent_workers"@,
        "browser"@ != "max_turns"@,
        "browser"@ != "branch_max_turns"@,
        "browser"@ != "context_window"@,
        "browser"@ != "history_backfill_count"@,
{
    reveal_strlit("routing");
    reveal_strlit("compaction");
    reveal_strlit("cortex");
    reveal_strlit("coalesce");
    reveal_strlit("memory_persistence");
    reveal_strlit("browser");
    reveal_strlit("max_concurrent_branches");
    reveal_strlit("max_concurrent_workers");
    reveal_strlit("max_turns");
    reveal_strlit("branch_max_turns");
    reveal_strlit("context_window");
    reveal_strlit("history_backfill_count");
    assert("routing"@.len() == 7);
    assert("compaction"@.len() == 10);
    assert("cortex"@.len() == 6);
    assert("coalesce"@.len() == 8);
    assert("memory_persistence"@.len() == 18);
    assert("browser"@.len() == 7);
    assert("max_concurrent_branches"@.len() == 23);
    assert("max_concurrent_workers"@.len() == 22);
    assert("max_turns"@.len() == 9);
    assert("branch_max_turns"@.len() == 16);
    assert("context_window"@.len() == 14);
    assert("history_backfill_count"@.len() == 22);
}

/// Whether two tables hold the same under every key but one.
spec fn same_but(before: Entries, after: Entries, section: Seq<char>) -> bool {
    forall|key: Seq<char>| key != section ==> #[trigger] node_at(after, key) == node_at(before, key)
}

/// Whether two tables hold the same under every key that is none of the tuning.
spec fn same_but_tuning(before: Entries, after: Entries) -> bool {
    forall|key: Seq<char>| #[trigger] node_at(after, key) == node_at(before, key) || is_tuning(key)
}

spec fn is_tuning(key: Seq<char>) -> bool {
    ||| key == "max_concurrent_branches"@
    ||| key == "max_concurrent_workers"@
    ||| key == "max_turns"@
    ||| key == "branch_max_turns"@
    ||| key == "context_window"@
    ||| key == "history_backfill_count"@
}

/// The tables of an agent as the updates of its sections come one after another.
spec fn is_chain(
    request: AgentConfigUpdateRequest,
    agent: Entries,
    routing: Entries,
    tuning: Entries,
    compaction: Entries,
    cortex: Entries,
    coalesce: Entries,
    memory_persistence: Entries,
    browser: Entries,
) -> bool {
    &&& same_but(agent, routing, "routing"@)
    &&& request.routing is None ==> routing == agent
    &&& same_but_tuning(routing, tuning)
    &&& request.tuning is None ==> tuning == routing
    &&& same_but(tuning, compaction, "compaction"@)
    &&& request.compaction is None ==> compaction == tuning
    &&& same_but(compaction, cortex, "cortex"@)
    &&& request.cortex is None ==> cortex == compaction
    &&& same_but(cortex, coalesce, "coalesce"@)
    &&& request.coalesce is None ==> coalesce == cortex
    &&& same_but(coalesce, memory_persistence, "memory_persistence"@)
    &&& request.memory_persistence is None ==> memory_persistence == coalesce
    &&& same_but(memory_persistence, browser, "browser"@)
    &&& request.browser is None ==> browser == memory_persistence
}

proof fn lemma_chain(
    request: AgentConfigUpdateRequest,
    agent: Entries,
    routing: Entries,
    tuning: Entries,
    compaction: Entries,
    cortex: Entries,
    coalesce: Entries,
    memory_persistence: Entries,
    browser: Entries,
    key: Seq<char>,
)
    requires
        is_chain(request, agent, routing, tuning, compaction, cortex, coalesce, memory_persistence,
            browser),
    ensures
        node_at(agent, "routing"@) == node_at(agent, "routing"@),
        node_at(browser, "routing"@) == node_at(routing, "routing"@),
        is_tuning(key) ==> node_at(routing, key) == node_at(agent, key)
            && node_at(browser, key) == node_at(tuning, key),
        node_at(tuning, "compaction"@) == node_at(agent, "compaction"@),
        node_at(browser, "compaction"@) == node_at(compaction, "compaction"@),
        node_at(compaction, "cortex"@) == node_at(agent, "cortex"@),
        node_at(browser, "cortex"@) == node_at(cortex, "cortex"@),
        node_at(cortex, "coalesce"@) == node_at(agent, "coalesce"@),
        node_at(browser, "coalesce"@) == node_at(coalesce, "coalesce"@),
        node_at(coalesce, "memory_persistence"@) == node_at(agent, "memory_persistence"@),
        node_at(browser, "memory_persistence"@)
            == node_at(memory_persistence, "memory_persistence"@),
        node_at(memory_persistence, "browser"@) == node_at(agent, "browser"@),
        node_at(browser, "browser"@) == node_at(browser, "browser"@),
        !is_tuning(key) && key != "routing"@ && key != "compaction"@ && key != "cortex"@
            && key != "coalesce"@ && key != "memory_persistence"@ && key != "browser"@
            ==> node_at(browser, key) == node_at(agent, key),
{
    lemma_sections_differ();
    lemma_sections_are_no_tuning();
    assert(node_at(routing, "routing"@) == node_at(routing, "routing"@));
    assert(node_at(tuning, "routing"@) == node_at(tuning, "routing"@));
    assert(node_at(compaction, "routing"@) == node_at(compaction, "routing"@));
    assert(node_at(cortex, "routing"@) == node_at(cortex, "routing"@));
    assert(node_at(coalesce, "routing"@) == node_at(coalesce, "routing"@));
    assert(node_at(memory_persistence, "routing"@) == node_at(memory_persistence, "routing"@));
    assert(node_at(browser, "routing"@) == node_at(browser, "routing"@));
    assert(node_at(routing, "compaction"@) == node_at(routing, "compaction"@));
    assert(node_at(tuning, "compaction"@) == node_at(tuning, "compaction"@));
    assert(node_at(compaction, "compaction"@) == node_at(compaction, "compaction"@));
    assert(node_at(cortex, "compaction"@) == node_at(cortex, "compaction"@));
    assert(node_at(coalesce, "compaction"@) == node_at(coalesce, "compaction"@));
    assert(node_at(memory_persistence, "compaction"@)
        == node_at(memory_persistence, "compaction"@));
    assert(node_at(browser, "compaction"@) == node_at(browser, "compaction"@));
    assert(node_at(routing, "cortex"@) == node_at(routing, "cortex"@));
    assert(node_at(tuning, "cortex"@) == node_at(tuning, "cortex"@));
    assert(node_at(compaction, "cortex"@) == node_at(compaction, "cortex"@));
    assert(node_at(cortex, "cortex"@) == node_at(cortex, "cortex"@));
    assert(node_at(coalesce, "cortex"@) == node_at(coalesce, "cortex"@));
    assert(node_at(memory_persistence, "cortex"@) == node_at(memory_persistence, "cortex"@));
    assert(node_at(browser, "cortex"@) == node_at(browser, "cortex"@));
    assert(node_at(routing, "coalesce"@) == node_at(routing, "coalesce"@));
    assert(node_at(tuning, "coalesce"@) == node_at(tuning, "coalesce"@));
    assert(node_at(compaction, "coalesce"@) == node_at(compaction, "coalesce"@));
    assert(node_at(cortex, "coalesce"@) == node_at(cortex, "coalesce"@));
    assert(node_at(coalesce, "coalesce"@) == node_at(coalesce, "coalesce"@));
    assert(node_at(memory_persistence, "coalesce"@) == node_at(memory_persistence, "coalesce"@));
    assert(node_at(browser, "coalesce"@) == node_at(browser, "coalesce"@));
    assert(node_at(routing, "memory_persistence"@) == node_at(routing, "memory_persistence"@));
    assert(node_at(tuning, "memory_persistence"@) == node_at(tuning, "memory_persistence"@));
    assert(node_at(compaction, "memory_persistence"@)
        == node_at(compaction, "memory_persistence"@));
    assert(node_at(cortex, "memory_persistence"@) == node_at(cortex, "memory_persistence"@));
    assert(node_at(coalesce, "memory_persistence"@) == node_at(coalesce, "memory_persistence"@));
    assert(node_at(memory_persistence, "memory_persistence"@)
        == node_at(memory_persistence, "memory_persistence"@));
    assert(node_at(browser, "memory_persistence"@) == node_at(browser, "memory_persistence"@));
    assert(node_at(routing, "browser"@) == node_at(routing, "browser"@));
    assert(node_at(tuning, "browser"@) == node_at(tuning, "browser"@));
    assert(node_at(compaction, "browser"@) == node_at(compaction, "browser"@));
    assert(node_at(cortex, "browser"@) == node_at(cortex, "browser"@));
    assert(node_at(coalesce, "browser"@) == node_at(coalesce, "browser"@));
    assert(node_at(memory_persistence, "browser"@) == node_at(memory_persistence, "browser"@));
    assert(node_at(browser, "browser"@) == node_at(browser, "browser"@));
    assert(node_at(routing, key) == node_at(routing, key));
    assert(node_at(tuning, key) == node_at(tuning, key));
    assert(node_at(compaction, key) == node_at(compaction, key));
    assert(node_at(cortex, key) == node_at(cortex, key));
    assert(node_at(coalesce, key) == node_at(coalesce, key));
    assert(node_at(memory_persistence, key) == node_at(memory_persistence, key));
    assert(node_at(browser, key) == node_at(browser, key));
}

proof fn lemma_is_chain(request: AgentConfigUpdateRequest,
    agent: Entries) -> (steps: (Entries, Entries, Entries, Entries, Entries, Entries, Entries))
    ensures
        is_chain(request, agent, steps.0, steps.1, steps.2, steps.3, steps.4, steps.5, steps.6),
        steps.6 == request.agent_applied(agent),
        request.routing matches Some(update) ==> steps.0 == update.applied(agent),
        request.tuning matches Some(update) ==> steps.1 == update.applied(steps.0),
        request.compaction matches Some(update) ==> steps.2 == update.applied(steps.1),
        request.cortex matches Some(update) ==> steps.3 == update.applied(steps.2),
        request.coalesce matches Some(update) ==> steps.4 == update.applied(steps.3),
        request.memory_persistence matches Some(update) ==> steps.5 == update.applied(steps.4),
        request.browser matches Some(update) ==> steps.6 == update.applied(steps.5),
{
    let routing = match request.routing {
        Some(update) => update.applied(agent),
        None => agent,
    };
    assert(same_but(agent, routing, "routing"@)) by {
        if let Some(update) = request.routing {
            assert forall|key: Seq<char>| key != "routing"@ implies #[trigger] node_at(routing, key)
                == node_at(agent, key) by {
                law_routing_update_is_read_back(update, agent, key, key);
            }
        }
    }
    let tuning = match request.tuning {
        Some(update) => update.applied(routing),
        None => routing,
    };
    assert(same_but_tuning(routing, tuning)) by {
        if let Some(update) = request.tuning {
            assert forall|key: Seq<char>| #[trigger] node_at(tuning, key) == node_at(routing, key)
                || is_tuning(key) by {
                law_tuning_update_is_read_back(update, routing, key);
            }
        }
    }
    let compaction = match request.compaction {
        Some(update) => update.applied(tuning),
        None => tuning,
    };
    assert(same_but(tuning, compaction, "compaction"@)) by {
        if let Some(update) = request.compaction {
            assert forall|key: Seq<char>| key != "compaction"@ implies #[trigger] node_at(compaction, key) == node_at(tuning, key) by {
                law_compaction_update_is_read_back(update, tuning, key, key);
            }
        }
    }
    let cortex = match request.cortex {
        Some(update) => update.applied(compaction),
        None => compaction,
    };
    assert(same_but(compaction, cortex, "cortex"@)) by {
        if let Some(update) = request.cortex {
            assert forall|key: Seq<char>| key != "cortex"@ implies #[trigger] node_at(cortex, key)
                == node_at(compaction, key) by {
                law_cortex_update_is_read_back(update, compaction, key, key);
            }
        }
    }
    let coalesce = match request.coalesce {
        Some(update) => update.applied(cortex),
        None => cortex,
    };
    assert(same_but(cortex, coalesce, "coalesce"@)) by {
        if let Some(update) = request.coalesce {
            assert forall|key: Seq<char>| key != "coalesce"@ implies #[trigger] node_at(coalesce,
                key) == node_at(cortex, key) by {
                law_coalesce_update_is_read_back(update, cortex, key, key);
            }
        }
    }
    let memory_persistence = match request.memory_persistence {
        Some(update) => update.applied(coalesce),
        None => coalesce,
    };
    assert(same_but(coalesce, memory_persistence, "memory_persistence"@)) by {
        if let Some(update) = request.memory_persistence {
            assert forall|key: Seq<char>| key != "memory_persistence"@ implies #[trigger] node_at(memory_persistence, key) == node_at(coalesce, key) by {
                law_memory_persistence_update_is_read_back(update, coalesce, key, key);
            }
        }
    }
    let browser = match request.browser {
        Some(update) => update.applied(memory_persistence),
        None => memory_persistence,
    };
    assert(same_but(memory_persistence, browser, "browser"@)) by {
        if let Some(update) = request.browser {
            assert forall|key: Seq<char>| key != "browser"@ implies #[trigger] node_at(browser, key)
                == node_at(memory_persistence, key) by {
                law_browser_update_is_read_back(update, memory_persistence, key, key);
            }
        }
    }
    (routing, tuning, compaction, cortex, coalesce, memory_persistence, browser)
}

proof fn lemma_routing_is_read_back(
    update: RoutingUpdate,
    agent: Entries,
    before: Entries,
    after: Entries,
)
    requires
        node_at(before, "routing"@) == node_at(agent, "routing"@),
        node_at(after, "routing"@) == node_at(update.applied(before), "routing"@),
    ensures
        update.channel is None
            ==> value_in(after, "routing"@, "channel"@) == value_in(agent, "routing"@, "channel"@),
        update.channel matches Some(value)
            ==> value_in(after, "routing"@, "channel"@) == TomlNode::Text(value@),
        update.branch is None
            ==> value_in(after, "routing"@, "branch"@) == value_in(agent, "routing"@, "branch"@),
        update.branch matches Some(value)
            ==> value_in(after, "routing"@, "branch"@) == TomlNode::Text(value@),
        update.worker is None
            ==> value_in(after, "routing"@, "worker"@) == value_in(agent, "routing"@, "worker"@),
        update.worker matches Some(value)
            ==> value_in(after, "routing"@, "worker"@) == TomlNode::Text(value@),
        update.compactor is None
            ==> value_in(after, "routing"@, "compactor"@)
            == value_in(agent, "routing"@, "compactor"@),
        update.compactor matches Some(value)
            ==> value_in(after, "routing"@, "compactor"@) == TomlNode::Text(value@),
        update.cortex is None
            ==> value_in(after, "routing"@, "cortex"@) == value_in(agent, "routing"@, "cortex"@),
        update.cortex matches Some(value)
            ==> value_in(after, "routing"@, "cortex"@) == TomlNode::Text(value@),
        update.voice is None
            ==> value_in(after, "routing"@, "voice"@) == value_in(agent, "routing"@, "voice"@),
        update.voice matches Some(value)
            ==> value_in(after, "routing"@, "voice"@) == TomlNode::Text(value@),
        update.rate_limit_cooldown_secs is None
            ==> value_in(after, "routing"@, "rate_limit_cooldown_secs"@)
            == value_in(agent, "routing"@, "rate_limit_cooldown_secs"@),
        update.rate_limit_cooldown_secs matches Some(value) ==> value <= i64::MAX
            ==> value_in(after, "routing"@, "rate_limit_cooldown_secs"@)
            == TomlNode::Integer(value as int),
{
    law_routing_update_is_read_back(update, before, "routing"@, "routing"@);
}

/// After an update of an agent the models and pauses of its routing are read under
/// their names as the request gives them; those that it does not give are read as
/// before.
pub proof fn law_agent_routing_is_read_back(
    request: AgentConfigUpdateRequest,
    agent: Entries,
    key: Seq<char>,
)
    ensures
        request.routing is None
            ==> value_in(request.agent_applied(agent), "routing"@, key)
            == value_in(agent, "routing"@, key),
        request.routing matches Some(update) ==> {
            &&& update.channel is None
                ==> value_in(request.agent_applied(agent), "routing"@, "channel"@)
                == value_in(agent, "routing"@, "channel"@)
            &&& update.channel matches Some(value)
                ==> value_in(request.agent_applied(agent), "routing"@, "channel"@)
                == TomlNode::Text(value@)
            &&& update.branch is None
                ==> value_in(request.agent_applied(agent), "routing"@, "branch"@)
                == value_in(agent, "routing"@, "branch"@)
            &&& update.branch matches Some(value)
                ==> value_in(request.agent_applied(agent), "routing"@, "branch"@)
                == TomlNode::Text(value@)
            &&& update.worker is None
                ==> value_in(request.agent_applied(agent), "routing"@, "worker"@)
                == value_in(agent, "routing"@, "worker"@)
            &&& update.worker matches Some(value)
                ==> value_in(request.agent_applied(agent), "routing"@, "worker"@)
                == TomlNode::Text(value@)
            &&& update.compactor is None
                ==> value_in(request.agent_applied(agent), "routing"@, "compactor"@)
                == value_in(agent, "routing"@, "compactor"@)
            &&& update.compactor matches Some(value)
                ==> value_in(request.agent_applied(agent), "routing"@, "compactor"@)
                == TomlNode::Text(value@)
            &&& update.cortex is None
                ==> value_in(request.agent_applied(agent), "routing"@, "cortex"@)
                == value_in(agent, "routing"@, "cortex"@)
            &&& update.cortex matches Some(value)
                ==> value_in(request.agent_applied(agent), "routing"@, "cortex"@)
                == TomlNode::Text(value@)
            &&& update.voice is None
                ==> value_in(request.agent_applied(agent), "routing"@, "voice"@)
                == value_in(agent, "routing"@, "voice"@)
            &&& update.voice matches Some(value)
                ==> value_in(request.agent_applied(agent), "routing"@, "voice"@)
                == TomlNode::Text(value@)
            &&& update.rate_limit_cooldown_secs is None
                ==> value_in(request.agent_applied(agent), "routing"@, "rate_limit_cooldown_secs"@)
                == value_in(agent, "routing"@, "rate_limit_cooldown_secs"@)
            &&& update.rate_limit_cooldown_secs matches Some(value) ==> value <= i64::MAX
                ==> value_in(request.agent_applied(agent), "routing"@, "rate_limit_cooldown_secs"@)
                == TomlNode::Integer(value as int)
        },
{
    let steps = lemma_is_chain(request, agent);
    lemma_chain(request, agent, steps.0, steps.1, steps.2, steps.3, steps.4, steps.5, steps.6, key);
    if let Some(update) = request.routing {
        lemma_routing_is_read_back(update, agent, agent, request.agent_applied(agent));
    }
}

proof fn lemma_compaction_is_read_back(
    update: CompactionUpdate,
    agent: Entries,
    before: Entries,
    after: Entries,
)
    requires
        node_at(before, "compaction"@) == node_at(agent, "compaction"@),
        node_at(after, "compaction"@) == node_at(update.applied(before), "compaction"@),
    ensures
        update.background_threshold is None
            ==> value_in(after, "compaction"@, "background_threshold"@)
            == value_in(agent, "compaction"@, "background_threshold"@),
        update.background_threshold matches Some(value)
            ==> value_in(after, "compaction"@, "background_threshold"@) == item_node(value),
        update.aggressive_threshold is None
            ==> value_in(after, "compaction"@, "aggressive_threshold"@)
            == value_in(agent, "compaction"@, "aggressive_threshold"@),
        update.aggressive_threshold matches Some(value)
            ==> value_in(after, "compaction"@, "aggressive_threshold"@) == item_node(value),
        update.emergency_threshold is None
            ==> value_in(after, "compaction"@, "emergency_threshold"@)
            == value_in(agent, "compaction"@, "emergency_threshold"@),
        update.emergency_threshold matches Some(value)
            ==> value_in(after, "compaction"@, "emergency_threshold"@) == item_node(value),
{
    law_compaction_update_is_read_back(update, before, "compaction"@, "compaction"@);
}

/// After an update of an agent the thresholds of its compaction are read under
/// their names as the request gives them; those that it does not give are read as
/// before.
pub proof fn law_agent_compaction_is_read_back(
    request: AgentConfigUpdateRequest,
    agent: Entries,
    key: Seq<char>,
)
    ensures
        request.compaction is None
            ==> value_in(request.agent_applied(agent), "compaction"@, key)
            == value_in(agent, "compaction"@, key),
        request.compaction matches Some(update) ==> {
            &&& update.background_threshold is None
                ==> value_in(request.agent_applied(agent), "compaction"@, "background_threshold"@)
                == value_in(agent, "compaction"@, "background_threshold"@)
            &&& update.background_threshold matches Some(value)
                ==> value_in(request.agent_applied(agent), "compaction"@, "background_threshold"@)
                == item_node(value)
            &&& update.aggressive_threshold is None
                ==> value_in(request.agent_applied(agent), "compaction"@, "aggressive_threshold"@)
                == value_in(agent, "compaction"@, "aggressive_threshold"@)
            &&& update.aggressive_threshold matches Some(value)
                ==> value_in(request.agent_applied(agent), "compaction"@, "aggressive_threshold"@)
                == item_node(value)
            &&& update.emergency_threshold is None
                ==> value_in(request.agent_applied(agent), "compaction"@, "emergency_threshold"@)
                == value_in(agent, "compaction"@, "emergency_threshold"@)
            &&& update.emergency_threshold matches Some(value)
                ==> value_in(request.agent_applied(agent), "compaction"@, "emergency_threshold"@)
                == item_node(value)
        },
{
    let steps = lemma_is_chain(request, agent);
    lemma_chain(request, agent, steps.0, steps.1, steps.2, steps.3, steps.4, steps.5, steps.6, key);
    if let Some(update) = request.compaction {
        lemma_compaction_is_read_back(update, agent, steps.1, request.agent_applied(agent));
    }
}

proof fn lemma_cortex_is_read_back(
    update: CortexUpdate,
    agent: Entries,
    before: Entries,
    after: Entries,
)
    requires
        node_at(before, "cortex"@) == node_at(agent, "cortex"@),
        node_at(after, "cortex"@) == node_at(update.applied(before), "cortex"@),
    ensures
        update.tick_interval_secs is None
            ==> value_in(after, "cortex"@, "tick_interval_secs"@)
            == value_in(agent, "cortex"@, "tick_interval_secs"@),
        update.tick_interval_secs matches Some(value) ==> value <= i64::MAX
            ==> value_in(after, "cortex"@, "tick_interval_secs"@)
            == TomlNode::Integer(value as int),
        update.worker_timeout_secs is None
            ==> value_in(after, "cortex"@, "worker_timeout_secs"@)
            == value_in(agent, "cortex"@, "worker_timeout_secs"@),
        update.worker_timeout_secs matches Some(value) ==> value <= i64::MAX
            ==> value_in(after, "cortex"@, "worker_timeout_secs"@)
            == TomlNode::Integer(value as int),
        update.branch_timeout_secs is None
            ==> value_in(after, "cortex"@, "branch_timeout_secs"@)
            == value_in(agent, "cortex"@, "branch_timeout_secs"@),
        update.branch_timeout_secs matches Some(value) ==> value <= i64::MAX
            ==> value_in(after, "cortex"@, "branch_timeout_secs"@)
            == TomlNode::Integer(value as int),
        update.circuit_breaker_threshold is None
            ==> value_in(after, "cortex"@, "circuit_breaker_threshold"@)
            == value_in(agent, "cortex"@, "circuit_breaker_threshold"@),
        update.circuit_breaker_threshold matches Some(value) ==> value <= i64::MAX
            ==> value_in(after, "cortex"@, "circuit_breaker_threshold"@)
            == TomlNode::Integer(value as int),
        update.bulletin_interval_secs is None
            ==> value_in(after, "cortex"@, "bulletin_interval_secs"@)
            == value_in(agent, "cortex"@, "bulletin_interval_secs"@),
        update.bulletin_interval_secs matches Some(value) ==> value <= i64::MAX
            ==> value_in(after, "cortex"@, "bulletin_interval_secs"@)
            == TomlNode::Integer(value as int),
        update.bulletin_max_words is None
            ==> value_in(after, "cortex"@, "bulletin_max_words"@)
            == value_in(agent, "cortex"@, "bulletin_max_words"@),
        update.bulletin_max_words matches Some(value) ==> value <= i64::MAX
            ==> value_in(after, "cortex"@, "bulletin_max_words"@)
            == TomlNode::Integer(value as int),
        update.bulletin_max_turns is None
            ==> value_in(after, "cortex"@, "bulletin_max_turns"@)
            == value_in(agent, "cortex"@, "bulletin_max_turns"@),
        update.bulletin_max_turns matches Some(value) ==> value <= i64::MAX
            ==> value_in(after, "cortex"@, "bulletin_max_turns"@)
            == TomlNode::Integer(value as int),
{
    law_cortex_update_is_read_back(update, before, "cortex"@, "cortex"@);
}

/// After an update of an agent the settings of its cortex are read under
/// their names as the request gives them; those that it does not give are read as
/// before.
pub proof fn law_agent_cortex_is_read_back(
    request: AgentConfigUpdateRequest,
    agent: Entries,
    key: Seq<char>,
)
    ensures
        request.cortex is None
            ==> value_in(request.agent_applied(agent), "cortex"@, key)
            == value_in(agent, "cortex"@, key),
        request.cortex matches Some(update) ==> {
            &&& update.tick_interval_secs is None
                ==> value_in(request.agent_applied(agent), "cortex"@, "tick_interval_secs"@)
                == value_in(agent, "cortex"@, "tick_interval_secs"@)
            &&& update.tick_interval_secs matches Some(value) ==> value <= i64::MAX
                ==> value_in(request.agent_applied(agent), "cortex"@, "tick_interval_secs"@)
                == TomlNode::Integer(value as int)
            &&& update.worker_timeout_secs is None
                ==> value_in(request.agent_applied(agent), "cortex"@, "worker_timeout_secs"@)
                == value_in(agent, "cortex"@, "worker_timeout_secs"@)
            &&& update.worker_timeout_secs matches Some(value) ==> value <= i64::MAX
                ==> value_in(request.agent_applied(agent), "cortex"@, "worker_timeout_secs"@)
                == TomlNode::Integer(value as int)
            &&& update.branch_timeout_secs is None
                ==> value_in(request.agent_applied(agent), "cortex"@, "branch_timeout_secs"@)
                == value_in(agent, "cortex"@, "branch_timeout_secs"@)
            &&& update.branch_timeout_secs matches Some(value) ==> value <= i64::MAX
                ==> value_in(request.agent_applied(agent), "cortex"@, "branch_timeout_secs"@)
                == TomlNode::Integer(value as int)
            &&& update.circuit_breaker_threshold is None
                ==> value_in(request.agent_applied(agent), "cortex"@, "circuit_breaker_threshold"@)
                == value_in(agent, "cortex"@, "circuit_breaker_threshold"@)
            &&& update.circuit_breaker_threshold matches Some(value) ==> value <= i64::MAX
                ==> value_in(request.agent_applied(agent), "cortex"@, "circuit_breaker_threshold"@)
                == TomlNode::Integer(value as int)
            &&& update.bulletin_interval_secs is None
                ==> value_in(request.agent_applied(agent), "cortex"@, "bulletin_interval_secs"@)
                == value_in(agent, "cortex"@, "bulletin_interval_secs"@)
            &&& update.bulletin_interval_secs matches Some(value) ==> value <= i64::MAX
                ==> value_in(request.agent_applied(agent), "cortex"@, "bulletin_interval_secs"@)
                == TomlNode::Integer(value as int)
            &&& update.bulletin_max_words is None
                ==> value_in(request.agent_applied(agent), "cortex"@, "bulletin_max_words"@)
                == value_in(agent, "cortex"@, "bulletin_max_words"@)
            &&& update.bulletin_max_words matches Some(value) ==> value <= i64::MAX
                ==> value_in(request.agent_applied(agent), "cortex"@, "bulletin_max_words"@)
                == TomlNode::Integer(value as int)
            &&& update.bulletin_max_turns is None
                ==> value_in(request.agent_applied(agent), "cortex"@, "bulletin_max_turns"@)
                == value_in(agent, "cortex"@, "bulletin_max_turns"@)
            &&& update.bulletin_max_turns matches Some(value) ==> value <= i64::MAX
                ==> value_in(request.agent_applied(agent), "cortex"@, "bulletin_max_turns"@)
                == TomlNode::Integer(value as int)
        },
{
    let steps = lemma_is_chain(request, agent);
    lemma_chain(request, agent, steps.0, steps.1, steps.2, steps.3, steps.4, steps.5, steps.6, key);
    if let Some(update) = request.cortex {
        lemma_cortex_is_read_back(update, agent, steps.2, request.agent_applied(agent));
    }
}

proof fn lemma_coalesce_is_read_back(
    update: CoalesceUpdate,
    agent: Entries,
    before: Entries,
    after: Entries,
)
    requires
        node_at(before, "coalesce"@) == node_at(agent, "coalesce"@),
        node_at(after, "coalesce"@) == node_at(update.applied(before), "coalesce"@),
    ensures
        update.enabled is None
            ==> value_in(after, "coalesce"@, "enabled"@)
            == value_in(agent, "coalesce"@, "enabled"@),
        update.enabled matches Some(value)
            ==> value_in(after, "coalesce"@, "enabled"@) == TomlNode::Flag(value),
        update.debounce_ms is None
            ==> value_in(after, "coalesce"@, "debounce_ms"@)
            == value_in(agent, "coalesce"@, "debounce_ms"@),
        update.debounce_ms matches Some(value) ==> value <= i64::MAX
            ==> value_in(after, "coalesce"@, "debounce_ms"@) == TomlNode::Integer(value as int),
        update.max_wait_ms is None
            ==> value_in(after, "coalesce"@, "max_wait_ms"@)
            == value_in(agent, "coalesce"@, "max_wait_ms"@),
        update.max_wait_ms matches Some(value) ==> value <= i64::MAX
            ==> value_in(after, "coalesce"@, "max_wait_ms"@) == TomlNode::Integer(value as int),
        update.min_messages is None
            ==> value_in(after, "coalesce"@, "min_messages"@)
            == value_in(agent, "coalesce"@, "min_messages"@),
        update.min_messages matches Some(value) ==> value <= i64::MAX
            ==> value_in(after, "coalesce"@, "min_messages"@) == TomlNode::Integer(value as int),
        update.multi_user_only is None
            ==> value_in(after, "coalesce"@, "multi_user_only"@)
            == value_in(agent, "coalesce"@, "multi_user_only"@),
        update.multi_user_only matches Some(value)
            ==> value_in(after, "coalesce"@, "multi_user_only"@) == TomlNode::Flag(value),
{
    law_coalesce_update_is_read_back(update, before, "coalesce"@, "coalesce"@);
}

/// After an update of an agent the settings of its coalescing are read under
/// their names as the request gives them; those that it does not give are read as
/// before.
pub proof fn law_agent_coalesce_is_read_back(
    request: AgentConfigUpdateRequest,
    agent: Entries,
    key: Seq<char>,
)
    ensures
        request.coalesce is None
            ==> value_in(request.agent_applied(agent), "coalesce"@, key)
            == value_in(agent, "coalesce"@, key),
        request.coalesce matches Some(update) ==> {
            &&& update.enabled is None
                ==> value_in(request.agent_applied(agent), "coalesce"@, "enabled"@)
                == value_in(agent, "coalesce"@, "enabled"@)
            &&& update.enabled matches Some(value)
                ==> value_in(request.agent_applied(agent), "coalesce"@, "enabled"@)
                == TomlNode::Flag(value)
            &&& update.debounce_ms is None
                ==> value_in(request.agent_applied(agent), "coalesce"@, "debounce_ms"@)
                == value_in(agent, "coalesce"@, "debounce_ms"@)
            &&& update.debounce_ms matches Some(value) ==> value <= i64::MAX
                ==> value_in(request.agent_applied(agent), "coalesce"@, "debounce_ms"@)
                == TomlNode::Integer(value as int)
            &&& update.max_wait_ms is None
                ==> value_in(request.agent_applied(agent), "coalesce"@, "max_wait_ms"@)
                == value_in(agent, "coalesce"@, "max_wait_ms"@)
            &&& update.max_wait_ms matches Some(value) ==> value <= i64::MAX
                ==> value_in(request.agent_applied(agent), "coalesce"@, "max_wait_ms"@)
                == TomlNode::Integer(value as int)
            &&& update.min_messages is None
                ==> value_in(request.agent_applied(agent), "coalesce"@, "min_messages"@)
                == value_in(agent, "coalesce"@, "min_messages"@)
            &&& update.min_messages matches Some(value) ==> value <= i64::MAX
                ==> value_in(request.agent_applied(agent), "coalesce"@, "min_messages"@)
                == TomlNode::Integer(value as int)
            &&& update.multi_user_only is None
                ==> value_in(request.agent_applied(agent), "coalesce"@, "multi_user_only"@)
                == value_in(agent, "coalesce"@, "multi_user_only"@)
            &&& update.multi_user_only matches Some(value)
                ==> value_in(request.agent_applied(agent), "coalesce"@, "multi_user_only"@)
                == TomlNode::Flag(value)
        },
{
    let steps = lemma_is_chain(request, agent);
    lemma_chain(request, agent, steps.0, steps.1, steps.2, steps.3, steps.4, steps.5, steps.6, key);
    if let Some(update) = request.coalesce {
        lemma_coalesce_is_read_back(update, agent, steps.3, request.agent_applied(agent));
    }
}

proof fn lemma_memory_persistence_is_read_back(
    update: MemoryPersistenceUpdate,
    agent: Entries,
    before: Entries,
    after: Entries,
)
    requires
        node_at(before, "memory_persistence"@) == node_at(agent, "memory_persistence"@),
        node_at(after, "memory_persistence"@)
            == node_at(update.applied(before), "memory_persistence"@),
    ensures
        update.enabled is None
            ==> value_in(after, "memory_persistence"@, "enabled"@)
            == value_in(agent, "memory_persistence"@, "enabled"@),
        update.enabled matches Some(value)
            ==> value_in(after, "memory_persistence"@, "enabled"@) == TomlNode::Flag(value),
        update.message_interval is None
            ==> value_in(after, "memory_persistence"@, "message_interval"@)
            == value_in(agent, "memory_persistence"@, "message_interval"@),
        update.message_interval matches Some(value) ==> value <= i64::MAX
            ==> value_in(after, "memory_persistence"@, "message_interval"@)
            == TomlNode::Integer(value as int),
{
    law_memory_persistence_update_is_read_back(update, before, "memory_persistence"@,
        "memory_persistence"@);
}

/// After an update of an agent the settings of its memory persistence are read under
/// their names as the request gives them; those that it does not give are read as
/// before.
pub proof fn law_agent_memory_persistence_is_read_back(
    request: AgentConfigUpdateRequest,
    agent: Entries,
    key: Seq<char>,
)
    ensures
        request.memory_persistence is None
            ==> value_in(request.agent_applied(agent), "memory_persistence"@, key)
            == value_in(agent, "memory_persistence"@, key),
        request.memory_persistence matches Some(update) ==> {
            &&& update.enabled is None
                ==> value_in(request.agent_applied(agent), "memory_persistence"@, "enabled"@)
                == value_in(agent, "memory_persistence"@, "enabled"@)
            &&& update.enabled matches Some(value)
                ==> value_in(request.agent_applied(agent), "memory_persistence"@, "enabled"@)
                == TomlNode::Flag(value)
            &&& update.message_interval is None
                ==> value_in(request.agent_applied(agent), "memory_persistence"@,
                "message_interval"@) == value_in(agent, "memory_persistence"@, "message_interval"@)
            &&& update.message_interval matches Some(value) ==> value <= i64::MAX
                ==> value_in(request.agent_applied(agent), "memory_persistence"@,
                "message_interval"@) == TomlNode::Integer(value as int)
        },
{
    let steps = lemma_is_chain(request, agent);
    lemma_chain(request, agent, steps.0, steps.1, steps.2, steps.3, steps.4, steps.5, steps.6, key);
    if let Some(update) = request.memory_persistence {
        lemma_memory_persistence_is_read_back(update, agent, steps.4, request.agent_applied(agent));
    }
}

proof fn lemma_browser_is_read_back(
    update: BrowserUpdate,
    agent: Entries,
    before: Entries,
    after: Entries,
)
    requires
        node_at(before, "browser"@) == node_at(agent, "browser"@),
        node_at(after, "browser"@) == node_at(update.applied(before), "browser"@),
    ensures
        update.enabled is None
            ==> value_in(after, "browser"@, "enabled"@) == value_in(agent, "browser"@, "enabled"@),
        update.enabled matches Some(value)
            ==> value_in(after, "browser"@, "enabled"@) == TomlNode::Flag(value),
        update.headless is None
            ==> value_in(after, "browser"@, "headless"@)
            == value_in(agent, "browser"@, "headless"@),
        update.headless matches Some(value)
            ==> value_in(after, "browser"@, "headless"@) == TomlNode::Flag(value),
        update.evaluate_enabled is None
            ==> value_in(after, "browser"@, "evaluate_enabled"@)
            == value_in(agent, "browser"@, "evaluate_enabled"@),
        update.evaluate_enabled matches Some(value)
            ==> value_in(after, "browser"@, "evaluate_enabled"@) == TomlNode::Flag(value),
{
    law_browser_update_is_read_back(update, before, "browser"@, "browser"@);
}

/// After an update of an agent the settings of its browser are read under
/// their names as the request gives them; those that it does not give are read as
/// before.
pub proof fn law_agent_browser_is_read_back(
    request: AgentConfigUpdateRequest,
    agent: Entries,
    key: Seq<char>,
)
    ensures
        request.browser is None
            ==> value_in(request.agent_applied(agent), "browser"@, key)
            == value_in(agent, "browser"@, key),
        request.browser matches Some(update) ==> {
            &&& update.enabled is None
                ==> value_in(request.agent_applied(agent), "browser"@, "enabled"@)
                == value_in(agent, "browser"@, "enabled"@)
            &&& update.enabled matches Some(value)
                ==> value_in(request.agent_applied(agent), "browser"@, "enabled"@)
                == TomlNode::Flag(value)
            &&& update.headless is None
                ==> value_in(request.agent_applied(agent), "browser"@, "headless"@)
                == value_in(agent, "browser"@, "headless"@)
            &&& update.headless matches Some(value)
                ==> value_in(request.agent_applied(agent), "browser"@, "headless"@)
                == TomlNode::Flag(value)
            &&& update.evaluate_enabled is None
                ==> value_in(request.agent_applied(agent), "browser"@, "evaluate_enabled"@)
                == value_in(agent, "browser"@, "evaluate_enabled"@)
            &&& update.evaluate_enabled matches Some(value)
                ==> value_in(request.agent_applied(agent), "browser"@, "evaluate_enabled"@)
                == TomlNode::Flag(value)
        },
{
    let steps = lemma_is_chain(request, agent);
    lemma_chain(request, agent, steps.0, steps.1, steps.2, steps.3, steps.4, steps.5, steps.6, key);
    if let Some(update) = request.browser {
        lemma_browser_is_read_back(update, agent, steps.5, request.agent_applied(agent));
    }
}

/// After an update of an agent the numbers of its tuning are read in its own table
/// as the request gives them; those that it does not give are read as before, and
/// so is all else that is no section.
pub proof fn law_agent_tuning_is_read_back(
    request: AgentConfigUpdateRequest,
    agent: Entries,
    key: Seq<char>,
)
    ensures
        key != "max_concurrent_branches"@ && key != "max_concurrent_workers"@ && key != "max_turns"@
            && key != "branch_max_turns"@ && key != "context_window"@
            && key != "history_backfill_count"@ && key != "routing"@ && key != "compaction"@
            && key != "cortex"@ && key != "coalesce"@ && key != "memory_persistence"@
            && key != "browser"@
            ==> node_at(request.agent_applied(agent), key) == node_at(agent, key),
        request.tuning is None || request.tuning->0.max_concurrent_branches is None
            ==> node_at(request.agent_applied(agent), "max_concurrent_branches"@)
            == node_at(agent, "max_concurrent_branches"@),
        request.tuning is Some
            ==> (request.tuning->0.max_concurrent_branches matches Some(value) ==> value <= i64::MAX
            ==> node_at(request.agent_applied(agent), "max_concurrent_branches"@)
            == TomlNode::Integer(value as int)),
        request.tuning is None || request.tuning->0.max_concurrent_workers is None
            ==> node_at(request.agent_applied(agent), "max_concurrent_workers"@)
            == node_at(agent, "max_concurrent_workers"@),
        request.tuning is Some
            ==> (request.tuning->0.max_concurrent_workers matches Some(value) ==> value <= i64::MAX
            ==> node_at(request.agent_applied(agent), "max_concurrent_workers"@)
            == TomlNode::Integer(value as int)),
        request.tuning is None || request.tuning->0.max_turns is None
            ==> node_at(request.agent_applied(agent), "max_turns"@) == node_at(agent, "max_turns"@),
        request.tuning is Some
            ==> (request.tuning->0.max_turns matches Some(value) ==> value <= i64::MAX
            ==> node_at(request.agent_applied(agent), "max_turns"@)
            == TomlNode::Integer(value as int)),
        request.tuning is None || request.tuning->0.branch_max_turns is None
            ==> node_at(request.agent_applied(agent), "branch_max_turns"@)
            == node_at(agent, "branch_max_turns"@),
        request.tuning is Some
            ==> (request.tuning->0.branch_max_turns matches Some(value) ==> value <= i64::MAX
            ==> node_at(request.agent_applied(agent), "branch_max_turns"@)
            == TomlNode::Integer(value as int)),
        request.tuning is None || request.tuning->0.context_window is None
            ==> node_at(request.agent_applied(agent), "context_window"@)
            == node_at(agent, "context_window"@),
        request.tuning is Some
            ==> (request.tuning->0.context_window matches Some(value) ==> value <= i64::MAX
            ==> node_at(request.agent_applied(agent), "context_window"@)
            == TomlNode::Integer(value as int)),
        request.tuning is None || request.tuning->0.history_backfill_count is None
            ==> node_at(request.agent_applied(agent), "history_backfill_count"@)
            == node_at(agent, "history_backfill_count"@),
        request.tuning is Some
            ==> (request.tuning->0.history_backfill_count matches Some(value) ==> value <= i64::MAX
            ==> node_at(request.agent_applied(agent), "history_backfill_count"@)
            == TomlNode::Integer(value as int)),
{
    let steps = lemma_is_chain(request, agent);
    lemma_chain(request, agent, steps.0, steps.1, steps.2, steps.3, steps.4, steps.5, steps.6, key);
    lemma_chain(request, agent, steps.0, steps.1, steps.2, steps.3, steps.4, steps.5, steps.6,
        "max_concurrent_branches"@);
    lemma_chain(request, agent, steps.0, steps.1, steps.2, steps.3, steps.4, steps.5, steps.6,
        "max_concurrent_workers"@);
    lemma_chain(request, agent, steps.0, steps.1, steps.2, steps.3, steps.4, steps.5, steps.6,
        "max_turns"@);
    lemma_chain(request, agent, steps.0, steps.1, steps.2, steps.3, steps.4, steps.5, steps.6,
        "branch_max_turns"@);
    lemma_chain(request, agent, steps.0, steps.1, steps.2, steps.3, steps.4, steps.5, steps.6,
        "context_window"@);
    lemma_chain(request, agent, steps.0, steps.1, steps.2, steps.3, steps.4, steps.5, steps.6,
        "history_backfill_count"@);
    if let Some(update) = request.tuning {
        law_tuning_update_is_read_back(update, steps.0, key);
    }
}

/// The table of an agent is the first one with its identifier. An update changes
/// that table, and leaves the others where they are as they are.
pub proof fn law_update_reaches_the_agent(
    request: AgentConfigUpdateRequest,
    root: Entries,
    tables: Seq<TomlNode>,
    at: int,
    agent: Entries,
)
    requires
        request.applied(root) is Some,
        root.contains_key("agents"@),
        root["agents"@] == TomlNode::Sections(tables),
        0 <= at < tables.len(),
        tables[at] == TomlNode::Section(agent),
        agent.contains_key("id"@),
        agent["id"@] == TomlNode::Text(request.agent_id@),
        forall|i: int| 0 <= i < at
            ==> section_text(#[trigger] tables[i], "id"@) != Some(request.agent_id@),
    ensures
        request.applied(root)->0.contains_key("agents"@),
        request.applied(root)->0["agents"@] matches TomlNode::Sections(after) && after.len()
            == tables.len() && after[at] == TomlNode::Section(request.agent_applied(agent))
                && forall|
            i: int,
        | 0 <= i < tables.len() && i != at ==> #[trigger] after[i] == tables[i],
{
    reveal_strlit("agents");
    reveal_strlit("messaging");
    lemma_skips_to(tables, 0, at, request.agent_id@);
}

/// An agent without a table gets one behind the others, with its identifier and
/// what the request sets.
pub proof fn law_update_makes_a_table(
    request: AgentConfigUpdateRequest,
    root: Entries,
    tables: Seq<TomlNode>,
)
    requires
        request.applied(root) is Some,
        root.contains_key("agents"@) ==> root["agents"@] == TomlNode::Sections(tables),
        !root.contains_key("agents"@) ==> tables.len() == 0,
        forall|i: int|
            0 <= i < tables.len() ==> section_text(#[trigger] tables[i], "id"@) != Some(
                request.agent_id@,
            ),
    ensures
        request.applied(root)->0.contains_key("agents"@),
        request.applied(root)->0["agents"@] matches TomlNode::Sections(after) && after.len()
            == tables.len() + 1 && after[tables.len() as int] == TomlNode::Section(
            request.agent_applied(Map::empty().insert("id"@, TomlNode::Text(request.agent_id@))),
        ) && forall|i: int| 0 <= i < tables.len() ==> #[trigger] after[i] == tables[i],
{
    reveal_strlit("agents");
    reveal_strlit("messaging");
    lemma_first_with_text(tables, 0, "id"@, request.agent_id@);
    if !root.contains_key("agents"@) {
        assert(tables =~= Seq::<TomlNode>::empty());
    }
}

/// Whether bots may write is read back from the table of Discord; it is the one
/// value there that an update changes, and needs the table to be there.
pub proof fn law_discord_update_is_read_back(
    update: DiscordUpdate,
    root: Entries,
    messaging: Entries,
    discord: Entries,
    key: Seq<char>,
)
    requires
        root.contains_key("messaging"@),
        root["messaging"@] == TomlNode::Section(messaging),
        messaging.contains_key("discord"@),
        messaging["discord"@] == TomlNode::Section(discord),
    ensures
        update.applied(root) matches Some(after) && {
            &&& after.contains_key("messaging"@)
            &&& after["messaging"@] is Section
            &&& update.allow_bot_messages matches Some(allowed) ==> value_in(
                after["messaging"@]->Section_0,
                "discord"@,
                "allow_bot_messages"@,
            ) == TomlNode::Flag(allowed)
            &&& key != "allow_bot_messages"@ || update.allow_bot_messages is None ==> value_in(
                after["messaging"@]->Section_0,
                "discord"@,
                key,
            ) == value_in(messaging, "discord"@, key)
            &&& key != "discord"@ ==> node_at(after["messaging"@]->Section_0, key) == node_at(
                messaging,
                key,
            )
            &&& key != "messaging"@ ==> node_at(after, key) == node_at(root, key)
        },
{
}

/// What an update of an agent answers: the new content, in which the agent's table
/// and the one of Discord are changed, or that the content cannot be read or holds
/// something else in their places.
pub proof fn law_agent_update_is_answered(
    content: &str,
    request: AgentConfigUpdateRequest,
    result: Result<String, ApiError>,
    root: Entries,
)
    requires
        call_ensures(update_agent_config, (content, request), result),
        parsed_entries(content@) == Some(root),
    ensures
        request.applied(root) matches Some(changed) ==> (result matches Ok(text) && exists|
            doc: DocumentMut,
        | #[trigger] printed(doc) == text@ && document_entries(doc) == changed),
        request.applied(root) is None ==> result == Err::<String, ApiError>(ApiError::Internal),
{
}

} // verus!
