//! Agents: their `[[agents]]` tables, and what is told of them.

use crate::agent::cortex::CortexEvent;
use crate::api::error::ApiError;
use crate::assoc::{distinct_names, find_member, lemma_absent, lemma_present, member, set_member};
use crate::clock::{rfc3339_text, time_text, utc_date, utc_rfc3339, Timestamp};
use crate::json::{json_member_text, parse_member_text};
use crate::text::{
    chars_of, decimal, eq_ignore_ascii_case, is_one_of, same_ascii, text_eq, trim, trimmed,
    u64_text, view_of, views,
};
use crate::toml_doc::{
    child_tables, child_tables_mut, document_entries, document_layout, document_text,
    document_trailing, ensure_child_tables, find_with_text, first_inline, first_with_text,
    law_first_inline_table_is_found, law_first_table_is_found, layout_without,
    lemma_first_with_text, no_entries, node_at, parse_document, parsed_entries,
    parsed_toml, prints_edit, remove_first_inline, root_is_table, section_text, set_text,
    table_entries, tables_layout, without_first_inline, Entries, TomlNode,
};
use crate::toml_layout::{adds_table, kept_but, layout_at, only, sections_layout, TableLayout};
use toml_edit::{DocumentMut, Table};
use vstd::prelude::*;
use vstd::string::*;

verus! {

pub open spec fn is_digit(c: char) -> bool {
    '0' <= c && c <= '9'
}

/// The number that decimal digits stand for.
pub open spec fn digits_value(digits: Seq<char>) -> int
    decreases digits.len(),
{
    if digits.len() == 0 {
        0
    } else {
        digits_value(digits.drop_last()) * 10 + (digits.last() as int - '0' as int)
    }
}

/// A text without the plus sign that it may begin with.
pub open spec fn unsigned(text: Seq<char>) -> Seq<char> {
    if text.len() > 0 && text[0] == '+' {
        text.skip(1)
    } else {
        text
    }
}

pub open spec fn all_digits(text: Seq<char>) -> bool {
    forall|i: int| 0 <= i < text.len() ==> is_digit(#[trigger] text[i])
}

/// The number that a text stands for: decimal digits, which a plus sign may
/// precede.
pub open spec fn number_of(text: Seq<char>) -> Option<int> {
    if unsigned(text).len() > 0 && all_digits(unsigned(text)) {
        Some(digits_value(unsigned(text)))
    } else {
        None
    }
}

proof fn lemma_digits_value_grows(digits: Seq<char>, count: int)
    requires
        0 <= count <= digits.len(),
        all_digits(digits),
    ensures
        0 <= digits_value(digits.take(count)) <= digits_value(digits),
    decreases digits.len(),
{
    if digits.len() > 0 {
        let shorter = digits.drop_last();
        assert forall|i: int| 0 <= i < shorter.len() implies is_digit(#[trigger] shorter[i]) by {
            assert(shorter[i] == digits[i]);
        }
        assert(is_digit(digits[digits.len() - 1]));
        if count < digits.len() {
            lemma_digits_value_grows(shorter, count);
            assert(digits.take(count) =~= shorter.take(count));
        } else {
            lemma_digits_value_grows(shorter, shorter.len() as int);
            assert(shorter.take(shorter.len() as int) =~= shorter);
            assert(digits.take(count) =~= digits);
        }
    } else {
        assert(digits.take(count) =~= digits);
    }
}

/// Reads a number that fits.
pub fn parse_number(text: &str) -> (number: Option<usize>)
    ensures
        match number {
            Some(value) => number_of(text@) == Some(value as int),
            None => number_of(text@) is None || number_of(text@)->0 > usize::MAX,
        },
{
    let chars = chars_of(text);
    let start: usize = if chars.len() > 0 && chars[0] == '+' {
        1
    } else {
        0
    };
    let ghost digits = text@.skip(start as int);
    assert(text@.skip(0) =~= text@);
    if chars.len() == start {
        return None;
    }
    let mut value: usize = 0;
    let mut overflow = false;
    let mut i: usize = start;
    assert(digits.take(0) =~= Seq::<char>::empty());
    while i < chars.len()
        invariant
            start <= i <= chars.len(),
            start <= 1,
            chars@ == text@,
            digits == text@.skip(start as int),
            digits == unsigned(text@),
            forall|k: int| 0 <= k < i - start ==> is_digit(#[trigger] digits[k]),
            !overflow ==> value == digits_value(digits.take(i - start)),
            overflow ==> digits_value(digits.take(i - start)) > usize::MAX,
        decreases chars.len() - i,
    {
        let c = chars[i];
        let at: Ghost<int> = Ghost(i - start);
        assert(digits[at@] == c);
        if c < '0' || c > '9' {
            assert(!is_digit(digits[at@]));
            assert(!all_digits(digits));
            return None;
        }
        let digit: u32 = c as u32 - '0' as u32;
        proof {
            assert(digits.take(at@ + 1).drop_last() =~= digits.take(at@));
            assert(digits_value(digits.take(at@ + 1)) == digits_value(digits.take(at@)) * 10
                + digit);
            let head = digits.take(at@);
            assert forall|k: int| 0 <= k < head.len() implies is_digit(#[trigger] head[k]) by {
                assert(head[k] == digits[k]);
            }
            lemma_digits_value_grows(head, 0);
        }
        if !overflow {
            match value.checked_mul(10) {
                Some(shifted) => match shifted.checked_add(digit as usize) {
                    Some(next) => {
                        value = next;
                    },
                    None => {
                        overflow = true;
                    },
                },
                None => {
                    overflow = true;
                },
            }
        }
        i = i + 1;
    }
    assert(digits.take(digits.len() as int) =~= digits);
    if overflow {
        None
    } else {
        Some(value)
    }
}

/// The most agents that a deployment may have, where it is hosted and says so.
pub open spec fn agent_limit(deployment: Option<Seq<char>>, max_agents: Option<Seq<char>>) -> Option<int> {
    match (deployment, max_agents) {
        (Some(kind), Some(limit)) => if same_ascii(kind, "hosted"@) && number_of(limit) is Some && 0
            < number_of(limit)->0 <= usize::MAX {
            number_of(limit)
        } else {
            None
        },
        _ => None,
    }
}

/// The most agents that this deployment may have, by the values of two variables
/// of its environment.
pub fn hosted_agent_limit(deployment: Option<&str>, max_agents: Option<&str>) -> (limit: Option<usize>)
    ensures
        (match limit {
            Some(value) => Some(value as int),
            None => None,
        }) == agent_limit(
            match deployment {
                Some(text) => Some(text@),
                None => None,
            },
            match max_agents {
                Some(text) => Some(text@),
                None => None,
            },
        ),
{
    match deployment {
        Some(kind) => {
            if !eq_ignore_ascii_case(kind, "hosted") {
                return None;
            }
        },
        None => {
            return None;
        },
    }
    match max_agents {
        Some(text) => match parse_number(text) {
            Some(value) => if value > 0 {
                Some(value)
            } else {
                None
            },
            None => None,
        },
        None => None,
    }
}

/// `Agent '<id>' <what>`.
pub open spec fn agent_message(id: Seq<char>, what: Seq<char>) -> Seq<char> {
    "Agent '"@ + id + "' "@ + what
}

fn message_for(id: &str, what: &str) -> (message: String)
    ensures
        message@ == agent_message(id@, what@),
{
    "Agent '".to_owned().concat(id).concat("' ").concat(what)
}

/// What a deployment with as many agents as it may have says.
pub open spec fn limit_message(limit: int) -> Seq<char> {
    "agent limit reached for this instance: up to "@ + decimal(limit) + " agent"@ + if limit == 1 {
        ""@
    } else {
        "s"@
    }
}

/// Decides whether an agent may be created. Gives its identifier, or why not.
pub fn admit_agent(existing: &Vec<String>, limit: Option<usize>, requested: &str) -> (result: Result<
    String,
    String,
>)
    ensures
        ({
            let id = trimmed(requested@);
            if limit is Some && existing@.len() >= limit->0 {
                result is Err && result->Err_0@ == limit_message(limit->0 as int)
            } else if id.len() == 0 {
                result is Err && result->Err_0@ == "Agent ID cannot be empty"@
            } else if views(existing@).contains(id) {
                result is Err && result->Err_0@ == agent_message(id, "already exists"@)
            } else {
                result is Ok && result->Ok_0@ == id
            }
        }),
{
    match limit {
        Some(most) => {
            if existing.len() >= most {
                return Err(
                    "agent limit reached for this instance: up to ".to_owned().concat(
                        u64_text(most as u64).as_str(),
                    ).concat(" agent").concat(
                        if most == 1 {
                            ""
                        } else {
                            "s"
                        },
                    ),
                );
            }
        },
        None => {},
    }
    let id = trim(requested);
    if id.is_empty() {
        return Err("Agent ID cannot be empty".to_owned());
    }
    if is_one_of(id, existing) {
        return Err(message_for(id, "already exists"));
    }
    Ok(id.to_owned())
}

/// Decides whether an agent can be deleted. Gives its identifier, or why not.
pub fn find_agent(existing: &Vec<String>, requested: &str) -> (result: Result<String, String>)
    ensures
        ({
            let id = trimmed(requested@);
            if id.len() == 0 {
                result is Err && result->Err_0@ == "Agent ID cannot be empty"@
            } else if !views(existing@).contains(id) {
                result is Err && result->Err_0@ == agent_message(id, "not found"@)
            } else {
                result is Ok && result->Ok_0@ == id
            }
        }),
{
    let id = trim(requested);
    if id.is_empty() {
        return Err("Agent ID cannot be empty".to_owned());
    }
    if !is_one_of(id, existing) {
        return Err(message_for(id, "not found"));
    }
    Ok(id.to_owned())
}

/// What is said of an agent that was created.
pub fn created_message(agent_id: &str) -> (message: String)
    ensures
        message@ == agent_message(agent_id@, "created and running"@),
{
    message_for(agent_id, "created and running")
}

/// What is said of an agent that was deleted.
pub fn deleted_message(agent_id: &str) -> (message: String)
    ensures
        message@ == agent_message(agent_id@, "deleted"@),
{
    message_for(agent_id, "deleted")
}

/// The table of a new agent.
pub open spec fn agent_table(agent_id: Seq<char>) -> Entries {
    no_entries().insert("id"@, TomlNode::Text(agent_id))
}

/// A document with a table for a new agent: none where `agents` is something
/// else.
pub open spec fn with_agent(root: Entries, agent_id: Seq<char>) -> Option<Entries> {
    match child_tables(root, "agents"@) {
        Some(tables) => Some(
            root.insert("agents"@, TomlNode::Sections(tables.push(TomlNode::Section(agent_table(agent_id))))),
        ),
        None => None,
    }
}

/// A document without the first table of an agent, be it one of an array of tables
/// or an inline table in an array of values.
pub open spec fn without_agent(root: Entries, agent_id: Seq<char>) -> Entries {
    match node_at(root, "agents"@) {
        TomlNode::Absent => root,
        TomlNode::Sections(tables) => match first_with_text(tables, 0, "id"@, agent_id) {
            Some(i) => root.insert("agents"@, TomlNode::Sections(tables.remove(i))),
            None => root,
        },
        other => root.insert("agents"@, without_first_inline(other, "id"@, agent_id)),
    }
}

/// Whether a document is written as before, but for the agent that was taken out.
pub open spec fn keeps_without_agent(
    root: Entries,
    agent_id: Seq<char>,
    from: TableLayout,
    to: TableLayout,
) -> bool {
    &&& kept_but(from, to, only("agents"@, true))
    &&& match node_at(root, "agents"@) {
        TomlNode::Sections(tables) => {
            &&& sections_layout(from, "agents"@) is Some
            &&& sections_layout(to, "agents"@) == match first_with_text(
                tables,
                0,
                "id"@,
                agent_id,
            ) {
                Some(i) => Some(sections_layout(from, "agents"@)->0.remove(i)),
                None => sections_layout(from, "agents"@),
            }
        },
        TomlNode::List(nodes) => layout_at(to, "agents"@) == layout_without(
            layout_at(from, "agents"@),
            first_inline(nodes, 0, "id"@, agent_id),
        ),
        _ => layout_at(to, "agents"@) == layout_at(from, "agents"@),
    }
}

/// Adds a table for an agent to a document.
pub fn insert_agent(doc: &mut DocumentMut, agent_id: &str) -> (result: Result<(), ApiError>)
    requires
        root_is_table(*old(doc)),
    ensures
        root_is_table(*final(doc)),
        match with_agent(document_entries(*old(doc)), agent_id@) {
            Some(after) => result is Ok && document_entries(*final(doc)) == after,
            None => result == Err::<(), _>(ApiError::Internal) && document_entries(*final(doc))
                == document_entries(*old(doc)),
        },
        result is Ok ==> adds_table(
            document_layout(*old(doc)),
            document_layout(*final(doc)),
            "agents"@,
        ),
        document_trailing(*final(doc)) == document_trailing(*old(doc)),
{
    let root = doc.as_table_mut();
    match ensure_child_tables(root, "agents") {
        Some(agents) => {
            let mut table = Table::new();
            set_text(&mut table, "id", agent_id);
            let ghost before = tables_layout(*agents);
            agents.push(table);
            assert(tables_layout(*agents).drop_last() =~= before);
            Ok(())
        },
        None => Err(ApiError::Internal),
    }
}

/// Adds an agent to the configuration text.
pub fn create_agent(content: &str, agent_id: &str) -> (result: Result<String, ApiError>)
    ensures
        match parsed_entries(content@) {
            None => result == Err::<String, _>(ApiError::Internal),
            Some(root) => match with_agent(root, agent_id@) {
                None => result == Err::<String, _>(ApiError::Internal),
                Some(after) => result is Ok && prints_edit(
                    result->Ok_0@,
                    parsed_toml(content@)->0,
                    after,
                    |from: TableLayout, to: TableLayout| adds_table(from, to, "agents"@),
                ),
            },
        },
{
    match parse_document(content) {
        Some(parsed) => {
            let mut doc = parsed;
            match insert_agent(&mut doc, agent_id) {
                Ok(_) => Ok(document_text(&doc)),
                Err(error) => Err(error),
            }
        },
        None => Err(ApiError::Internal),
    }
}

/// Removes the first table of an agent from a document.
pub fn remove_agent(doc: &mut DocumentMut, agent_id: &str)
    requires
        root_is_table(*old(doc)),
    ensures
        root_is_table(*final(doc)),
        document_entries(*final(doc)) == without_agent(document_entries(*old(doc)), agent_id@),
        keeps_without_agent(
            document_entries(*old(doc)),
            agent_id@,
            document_layout(*old(doc)),
            document_layout(*final(doc)),
        ),
        document_trailing(*final(doc)) == document_trailing(*old(doc)),
{
    let root = doc.as_table_mut();
    let ghost before = table_entries(*root);
    match child_tables_mut(root, "agents") {
        Some(agents) => {
            let ghost tables = crate::toml_doc::tables_of(*agents);
            assert(before.insert("agents"@, TomlNode::Sections(tables)) =~= before);
            match find_with_text(agents, "id", agent_id) {
                Some(index) => {
                    proof {
                        lemma_first_with_text(tables, 0, "id"@, agent_id@);
                    }
                    agents.remove(index);
                },
                None => {},
            }
        },
        None => {
            match root.get_mut("agents") {
                Some(item) => remove_first_inline(item, "id", agent_id),
                None => {},
            }
        },
    }
}

/// Removes an agent from the configuration text.
pub fn delete_agent(content: &str, agent_id: &str) -> (result: Result<String, ApiError>)
    ensures
        match parsed_entries(content@) {
            None => result == Err::<String, _>(ApiError::Internal),
            Some(root) => result is Ok && prints_edit(
                result->Ok_0@,
                parsed_toml(content@)->0,
                without_agent(root, agent_id@),
                |from: TableLayout, to: TableLayout| keeps_without_agent(root, agent_id@, from, to),
            ),
        },
{
    match parse_document(content) {
        Some(parsed) => {
            let mut doc = parsed;
            remove_agent(&mut doc, agent_id);
            Ok(document_text(&doc))
        },
        None => Err(ApiError::Internal),
    }
}

/// What is told of an agent that runs.
#[derive(Debug, Clone)]
pub struct AgentInfo {
    pub id: String,
    pub workspace: String,
    pub context_window: usize,
    pub max_turns: usize,
    pub max_concurrent_branches: usize,
    pub max_concurrent_workers: usize,
}

/// The agents that stay when one is removed.
pub open spec fn agents_without(agents: Seq<AgentInfo>, agent_id: Seq<char>, count: int) -> Seq<AgentInfo>
    decreases count,
{
    if count <= 0 {
        Seq::empty()
    } else if agents[count - 1].id@ == agent_id {
        agents_without(agents, agent_id, count - 1)
    } else {
        agents_without(agents, agent_id, count - 1).push(agents[count - 1])
    }
}

/// Takes an agent off the list of those that run.
pub fn forget_agent(agents: Vec<AgentInfo>, agent_id: &str) -> (kept: Vec<AgentInfo>)
    ensures
        kept@ == agents_without(agents@, agent_id@, agents@.len() as int),
{
    let ghost all = agents@;
    let mut rest = agents;
    let mut kept: Vec<AgentInfo> = Vec::new();
    let ghost mut done: int = 0;
    assert(rest@ =~= all.skip(0));
    while rest.len() > 0
        invariant
            0 <= done <= all.len(),
            rest@ == all.skip(done),
            kept@ == agents_without(all, agent_id@, done),
        decreases rest@.len(),
    {
        let agent = rest.remove(0);
        assert(agent == all[done]);
        assert(rest@ =~= all.skip(done + 1));
        if !text_eq(agent.id.as_str(), agent_id) {
            kept.push(agent);
        }
        proof {
            done = done + 1;
        }
    }
    kept
}

/// The sum of the first counts.
pub open spec fn total(rows: Seq<(String, i64)>, count: int) -> int
    decreases count,
{
    if count <= 0 {
        0
    } else {
        total(rows, count - 1) + rows[count - 1].1
    }
}

/// Counts memories, by their types and in all.
pub fn count_memories(rows: &Vec<(String, i64)>) -> (counts: (Vec<(String, i64)>, i64))
    requires
        forall|n: int|
            0 <= n <= rows@.len() ==> i64::MIN <= #[trigger] total(rows@, n) <= i64::MAX,
    ensures
        counts.1 == total(rows@, rows@.len() as int),
        forall|name: Seq<char>| #[trigger] member(counts.0@, name) == member(rows@, name),
{
    let mut counts: Vec<(String, i64)> = Vec::new();
    let mut sum: i64 = 0;
    let mut i: usize = 0;
    assert(rows@.take(0) =~= Seq::<(String, i64)>::empty());
    while i < rows.len()
        invariant
            i <= rows.len(),
            forall|n: int|
                0 <= n <= rows@.len() ==> i64::MIN <= #[trigger] total(rows@, n) <= i64::MAX,
            sum == total(rows@, i as int),
            forall|name: Seq<char>| #[trigger]
                member(counts@, name) == member(rows@.take(i as int), name),
        decreases rows.len() - i,
    {
        assert(total(rows@, i + 1) == sum + rows@[i as int].1);
        sum = sum + rows[i].1;
        let ghost before = counts@;
        set_member(&mut counts, rows[i].0.clone(), rows[i].1);
        proof {
            let longer = rows@.take(i + 1);
            assert(longer.drop_last() =~= rows@.take(i as int));
            assert forall|name: Seq<char>| #[trigger] member(counts@, name) == member(longer, name) by {
                if name != rows@[i as int].0@ {
                    assert(member(counts@, name) == member(before, name));
                }
            }
        }
        i = i + 1;
    }
    assert(rows@.take(rows@.len() as int) =~= rows@);
    (counts, sum)
}

/// A row of the table of scheduled jobs.
#[derive(Debug, Clone)]
pub struct CronRow {
    pub id: String,
    pub prompt: String,
    pub interval_secs: i64,
    pub delivery_target: String,
    pub active_start_hour: Option<i64>,
    pub active_end_hour: Option<i64>,
    pub enabled: i64,
    pub run_once: i64,
    pub timeout_secs: Option<i64>,
}

/// What is told of a scheduled job.
#[derive(Debug, Clone)]
pub struct CronJobInfo {
    pub id: String,
    pub prompt: String,
    pub interval_secs: u64,
    pub delivery_target: String,
    pub enabled: bool,
    pub run_once: bool,
    pub active_hours: Option<(u8, u8)>,
    pub timeout_secs: Option<u64>,
}

impl CronRow {
    /// What is told of the job of a row. Numbers keep their low bits; hours count
    /// only where both are given.
    pub fn into_info(self) -> (info: CronJobInfo)
        ensures
            info == (CronJobInfo {
                id: self.id,
                prompt: self.prompt,
                interval_secs: self.interval_secs as u64,
                delivery_target: self.delivery_target,
                enabled: self.enabled != 0,
                run_once: self.run_once != 0,
                active_hours: match (self.active_start_hour, self.active_end_hour) {
                    (Some(start), Some(end)) => Some((start as u8, end as u8)),
                    _ => None,
                },
                timeout_secs: match self.timeout_secs {
                    Some(secs) => Some(secs as u64),
                    None => None,
                },
            }),
    {
        CronJobInfo {
            id: self.id,
            prompt: self.prompt,
            interval_secs: self.interval_secs as u64,
            delivery_target: self.delivery_target,
            enabled: self.enabled != 0,
            run_once: self.run_once != 0,
            active_hours: match (self.active_start_hour, self.active_end_hour) {
                (Some(start), Some(end)) => Some((start as u8, end as u8)),
                _ => None,
            },
            timeout_secs: match self.timeout_secs {
                Some(secs) => Some(secs as u64),
                None => None,
            },
        }
    }
}

/// The text of the bulletin that the newest record of one tells of, where it
/// does.
pub fn latest_bulletin(newest: &Option<CortexEvent>) -> (text: Option<String>)
    ensures
        view_of(text) == match newest {
            Some(event) => match event.details {
                Some(details) => json_member_text(details@, "bulletin_text"@),
                None => None,
            },
            None => None,
        },
{
    match newest {
        Some(event) => match &event.details {
            Some(details) => parse_member_text(details.as_str(), "bulletin_text"),
            None => None,
        },
        None => None,
    }
}

/// Whether a text comes before another in the order of their characters.
pub open spec fn comes_before(a: Seq<char>, b: Seq<char>) -> bool
    decreases a.len(),
{
    if b.len() == 0 {
        false
    } else if a.len() == 0 {
        true
    } else if a[0] == b[0] {
        comes_before(a.drop_first(), b.drop_first())
    } else {
        (a[0] as int) < (b[0] as int)
    }
}

fn is_before(a: &str, b: &str) -> (before: bool)
    ensures
        before == comes_before(a@, b@),
{
    let left = chars_of(a);
    let right = chars_of(b);
    let mut i: usize = 0;
    assert(a@.skip(0) =~= a@);
    assert(b@.skip(0) =~= b@);
    while i < left.len() && i < right.len() && left[i] == right[i]
        invariant
            i <= left.len(),
            i <= right.len(),
            left@ == a@,
            right@ == b@,
            comes_before(a@, b@) == comes_before(a@.skip(i as int), b@.skip(i as int)),
        decreases left.len() - i,
    {
        assert(a@.skip(i as int).drop_first() =~= a@.skip(i + 1));
        assert(b@.skip(i as int).drop_first() =~= b@.skip(i + 1));
        i = i + 1;
    }
    if i >= right.len() {
        false
    } else if i >= left.len() {
        true
    } else {
        left[i] < right[i]
    }
}

proof fn lemma_order_is_strict(a: Seq<char>, b: Seq<char>)
    ensures
        !(comes_before(a, b) && comes_before(b, a)),
        a == b || comes_before(a, b) || comes_before(b, a),
        !comes_before(a, a),
    decreases a.len() + b.len(),
{
    if a.len() > 0 && b.len() > 0 {
        lemma_order_is_strict(a.drop_first(), b.drop_first());
        if a[0] == b[0] && a.drop_first() == b.drop_first() {
            assert(a =~= seq![a[0]] + a.drop_first());
            assert(b =~= seq![b[0]] + b.drop_first());
        }
    } else if a.len() == 0 && b.len() == 0 {
        assert(a =~= b);
    }
    if a.len() > 0 {
        lemma_order_is_strict_self(a);
    }
}

proof fn lemma_order_is_strict_self(a: Seq<char>)
    ensures
        !comes_before(a, a),
    decreases a.len(),
{
    if a.len() > 0 {
        lemma_order_is_strict_self(a.drop_first());
    }
}

proof fn lemma_order_is_transitive(a: Seq<char>, b: Seq<char>, c: Seq<char>)
    requires
        comes_before(a, b),
        comes_before(b, c),
    ensures
        comes_before(a, c),
    decreases a.len(),
{
    if a.len() > 0 && b.len() > 0 && c.len() > 0 && a[0] == b[0] && b[0] == c[0] {
        lemma_order_is_transitive(a.drop_first(), b.drop_first(), c.drop_first());
    }
}

/// How many branches and workers ran on a day.
#[derive(Debug, Clone)]
pub struct ActivityDayCount {
    pub date: String,
    pub branches: i64,
    pub workers: i64,
}

/// Whether days stand in their order, none twice.
pub open spec fn in_order(days: Seq<ActivityDayCount>) -> bool {
    forall|i: int, j: int|
        0 <= i < j < days.len() ==> comes_before(
            (#[trigger] days[i]).date@,
            (#[trigger] days[j]).date@,
        )
}

pub open spec fn count_or_zero(count: Option<i64>) -> i64 {
    match count {
        Some(value) => value,
        None => 0,
    }
}

/// Whether a date has a day of its own.
pub open spec fn has_day(days: Seq<ActivityDayCount>, date: Seq<char>) -> bool {
    exists|i: int| 0 <= i < days.len() && (#[trigger] days[i]).date@ == date
}

/// Whether days are those of two lists of counts, each with what the lists say
/// of it.
pub open spec fn merges(
    days: Seq<ActivityDayCount>,
    branches: Seq<(String, i64)>,
    workers: Seq<(String, i64)>,
) -> bool {
    &&& in_order(days)
    &&& forall|date: Seq<char>| #[trigger]
        has_day(days, date) == (member(branches, date) is Some || member(workers, date) is Some)
    &&& forall|i: int|
        0 <= i < days.len() ==> (#[trigger] days[i]).branches == count_or_zero(
            member(branches, days[i].date@),
        ) && days[i].workers == count_or_zero(member(workers, days[i].date@))
}

/// The position of the day of a date: where it is, or where it belongs.
fn day_position(days: &Vec<ActivityDayCount>, date: &str) -> (position: (usize, bool))
    requires
        in_order(days@),
    ensures
        position.0 <= days@.len(),
        position.1 == has_day(days@, date@),
        position.1 ==> position.0 < days@.len() && days@[position.0 as int].date@ == date@,
        !position.1 ==> (forall|k: int|
            0 <= k < position.0 ==> comes_before((#[trigger] days@[k]).date@, date@)) && (forall|k: int|
            position.0 <= k < days@.len() ==> comes_before(date@, (#[trigger] days@[k]).date@)),
{
    let mut i: usize = 0;
    while i < days.len() && is_before(days[i].date.as_str(), date)
        invariant
            i <= days.len(),
            in_order(days@),
            forall|k: int| 0 <= k < i ==> comes_before((#[trigger] days@[k]).date@, date@),
        decreases days.len() - i,
    {
        i = i + 1;
    }
    let found = i < days.len() && text_eq(days[i].date.as_str(), date);
    proof {
        assert forall|k: int| 0 <= k < i implies (#[trigger] days@[k]).date@ != date@ by {
            lemma_order_is_strict(days@[k].date@, date@);
        }
        if i < days@.len() {
            lemma_order_is_strict(days@[i as int].date@, date@);
            assert forall|k: int| i < k < days@.len() implies comes_before(
                date@,
                (#[trigger] days@[k]).date@,
            ) by {
                assert(comes_before(days@[i as int].date@, days@[k].date@));
                if !found {
                    lemma_order_is_transitive(date@, days@[i as int].date@, days@[k].date@);
                }
            }
            assert forall|k: int| i < k < days@.len() implies (#[trigger] days@[k]).date@
                != date@ by {
                lemma_order_is_strict(days@[k].date@, date@);
            }
        }
        if found {
            assert(has_day(days@, date@));
        }
    }
    (i, found)
}

/// Sets one of the two counts of a date.
fn put_count(days: &mut Vec<ActivityDayCount>, date: &String, count: i64, of_workers: bool, branches: Ghost<Seq<(String, i64)>>, workers: Ghost<Seq<(String, i64)>>)
    requires
        merges(old(days)@, branches@, workers@),
        of_workers || workers@.len() == 0,
    ensures
        merges(
            final(days)@,
            if of_workers {
                branches@
            } else {
                branches@.push((*date, count))
            },
            if of_workers {
                workers@.push((*date, count))
            } else {
                workers@
            },
        ),
{
    let ghost before = days@;
    let ghost new_branches = if of_workers {
        branches@
    } else {
        branches@.push((*date, count))
    };
    let ghost new_workers = if of_workers {
        workers@.push((*date, count))
    } else {
        workers@
    };
    proof {
        assert(branches@.push((*date, count)).drop_last() =~= branches@);
        assert(workers@.push((*date, count)).drop_last() =~= workers@);
    }
    let (at, found) = day_position(days, date.as_str());
    if found {
        let mut day = days.remove(at);
        if of_workers {
            day.workers = count;
        } else {
            day.branches = count;
        }
        let ghost changed = day;
        days.insert(at, day);
        assert(days@ =~= before.update(at as int, changed));
    } else {
        let ghost absent = member(branches@, date@);
        assert(!has_day(before, date@));
        let day = if of_workers {
            ActivityDayCount { date: date.clone(), branches: 0, workers: count }
        } else {
            ActivityDayCount { date: date.clone(), branches: count, workers: 0 }
        };
        days.insert(at, day);
    }
    proof {
        let after = days@;
        assert forall|i: int, j: int| 0 <= i < j < after.len() implies comes_before(
            (#[trigger] after[i]).date@,
            (#[trigger] after[j]).date@,
        ) by {
            if found {
                assert(after[i].date@ == before[i].date@);
                assert(after[j].date@ == before[j].date@);
            } else {
                if i < at {
                    assert(after[i] == before[i]);
                } else if i > at {
                    assert(after[i] == before[i - 1]);
                }
                if j < at {
                    assert(after[j] == before[j]);
                } else if j > at {
                    assert(after[j] == before[j - 1]);
                }
            }
        }
        assert forall|other: Seq<char>| #[trigger] has_day(after, other) == (member(
            new_branches,
            other,
        ) is Some || member(new_workers, other) is Some) by {
            assert(has_day(before, other) == (member(branches@, other) is Some || member(
                workers@,
                other,
            ) is Some));
            if other == date@ {
                assert(after[at as int].date@ == date@);
            } else if found {
                if has_day(before, other) {
                    let k = choose|k: int| 0 <= k < before.len() && (#[trigger] before[k]).date@
                        == other;
                    assert(after[k].date@ == other);
                }
                if has_day(after, other) {
                    let k = choose|k: int| 0 <= k < after.len() && (#[trigger] after[k]).date@
                        == other;
                    assert(before[k].date@ == other);
                }
            } else {
                if has_day(before, other) {
                    let k = choose|k: int| 0 <= k < before.len() && (#[trigger] before[k]).date@
                        == other;
                    if k < at {
                        assert(after[k] == before[k]);
                    } else {
                        assert(after[k + 1] == before[k]);
                    }
                }
                if has_day(after, other) {
                    let k = choose|k: int| 0 <= k < after.len() && (#[trigger] after[k]).date@
                        == other;
                    if k < at {
                        assert(before[k] == after[k]);
                    } else if k > at {
                        assert(before[k - 1] == after[k]);
                    }
                }
            }
        }
        assert forall|i: int| 0 <= i < after.len() implies (#[trigger] after[i]).branches
            == count_or_zero(member(new_branches, after[i].date@)) && after[i].workers
            == count_or_zero(member(new_workers, after[i].date@)) by {
            if i == at {
                if found {
                    assert(before[at as int].date@ == date@);
                } else {
                    assert(member(branches@, date@) is None && member(workers@, date@) is None);
                }
            } else {
                let k = if found || i < at {
                    i
                } else {
                    i - 1
                };
                assert(after[i] == before[k]);
                if before[k].date@ == date@ {
                    assert(has_day(before, date@));
                    if found {
                        lemma_order_is_strict(date@, date@);
                    }
                    assert(false);
                }
            }
        }
    }
}

/// How many branches and workers ran on each day that any did, in the order of
/// the days.
pub fn activity_daily(branches: &Vec<(String, i64)>, workers: &Vec<(String, i64)>) -> (days: Vec<ActivityDayCount>)
    ensures
        merges(days@, branches@, workers@),
{
    let mut days: Vec<ActivityDayCount> = Vec::new();
    let ghost none = Seq::<(String, i64)>::empty();
    assert(branches@.take(0) =~= none);
    assert(workers@.take(0) =~= none);
    assert(merges(days@, none, none));
    let mut i: usize = 0;
    while i < branches.len()
        invariant
            i <= branches.len(),
            none == Seq::<(String, i64)>::empty(),
            merges(days@, branches@.take(i as int), none),
        decreases branches.len() - i,
    {
        put_count(
            &mut days,
            &branches[i].0,
            branches[i].1,
            false,
            Ghost(branches@.take(i as int)),
            Ghost(none),
        );
        assert(branches@.take(i + 1) =~= branches@.take(i as int).push(branches@[i as int]));
        i = i + 1;
    }
    assert(branches@.take(branches@.len() as int) =~= branches@);
    let mut j: usize = 0;
    while j < workers.len()
        invariant
            j <= workers.len(),
            merges(days@, branches@, workers@.take(j as int)),
        decreases workers.len() - j,
    {
        put_count(
            &mut days,
            &workers[j].0,
            workers[j].1,
            true,
            Ghost(branches@),
            Ghost(workers@.take(j as int)),
        );
        assert(workers@.take(j + 1) =~= workers@.take(j as int).push(workers@[j as int]));
        j = j + 1;
    }
    assert(workers@.take(workers@.len() as int) =~= workers@);
    days
}

/// The days that a sparkline shows.
pub const SPARKLINE_DAYS: usize = 14;

/// The seconds of a day.
pub const DAY_SECONDS: i64 = 86400;

/// The second, on a day of a sparkline, at the time of day of the last one.
pub open spec fn sparkline_second(now: Timestamp, position: int) -> int {
    now.seconds - (13 - position) * 86400
}

/// The counts of some dates, none where a date has no count.
pub fn counts_of(activity: &Vec<(String, i64)>, dates: &Vec<String>) -> (counts: Vec<i64>)
    ensures
        counts@.len() == dates@.len(),
        forall|i: int|
            0 <= i < counts@.len() ==> #[trigger] counts@[i] == count_or_zero(
                member(activity@, dates@[i]@),
            ),
{
    let mut counts: Vec<i64> = Vec::new();
    let mut i: usize = 0;
    while i < dates.len()
        invariant
            i <= dates.len(),
            counts@.len() == i,
            forall|k: int|
                0 <= k < i ==> #[trigger] counts@[k] == count_or_zero(
                    member(activity@, dates@[k]@),
                ),
        decreases dates.len() - i,
    {
        counts.push(
            match find_member(activity, dates[i].as_str()) {
                Some(count) => *count,
                None => 0,
            },
        );
        i = i + 1;
    }
    counts
}

/// How much was said on each of the last days, up to that of a time.
pub fn activity_sparkline(activity: &Vec<(String, i64)>, now: Timestamp) -> (sparkline: Vec<i64>)
    requires
        now.valid(),
        -8334601228800 <= sparkline_second(now, 0),
    ensures
        sparkline@.len() == SPARKLINE_DAYS,
        forall|i: int|
            0 <= i < SPARKLINE_DAYS ==> #[trigger] sparkline@[i] == count_or_zero(
                member(activity@, utc_date(sparkline_second(now, i))),
            ),
{
    let mut dates: Vec<String> = Vec::new();
    let mut i: usize = 0;
    while i < SPARKLINE_DAYS
        invariant
            i <= SPARKLINE_DAYS,
            now.valid(),
            -8334601228800 <= sparkline_second(now, 0),
            dates@.len() == i,
            forall|k: int|
                0 <= k < i ==> (#[trigger] dates@[k])@ == utc_date(sparkline_second(now, k)),
        decreases SPARKLINE_DAYS - i,
    {
        let seconds: i64 = now.seconds - (13 - i as i64) * DAY_SECONDS;
        assert(seconds as int % 60 == now.seconds as int % 60);
        dates.push(time_text(Timestamp { seconds, nanos: now.nanos }, "%Y-%m-%d"));
        i = i + 1;
    }
    counts_of(activity, &dates)
}

/// Whether a time is the latest of some.
pub open spec fn is_last_time(times: Seq<Timestamp>, last: Timestamp) -> bool {
    &&& times.contains(last)
    &&& forall|i: int|
        0 <= i < times.len() ==> (#[trigger] times[i]).not_after(last)
}

/// The latest of some times.
pub fn latest_time(times: &Vec<Timestamp>) -> (latest: Option<Timestamp>)
    ensures
        match latest {
            Some(last) => is_last_time(times@, last),
            None => times@.len() == 0,
        },
{
    if times.len() == 0 {
        return None;
    }
    let mut last: Timestamp = times[0];
    let mut i: usize = 1;
    assert(times@.contains(times@[0]));
    while i < times.len()
        invariant
            1 <= i <= times.len(),
            times@.contains(last),
            forall|k: int|
                0 <= k < i ==> (#[trigger] times@[k]).not_after(last),
        decreases times.len() - i,
    {
        let time = times[i];
        if time.is_after(&last) {
            last = time;
            assert(times@.contains(times@[i as int]));
        }
        i = i + 1;
    }
    Some(last)
}

/// When something last happened in any channel.
pub fn last_activity_at(times: &Vec<Timestamp>) -> (text: Option<String>)
    requires
        forall|i: int| 0 <= i < times@.len() ==> (#[trigger] times@[i]).valid(),
    ensures
        match text {
            Some(shown) => exists|last: Timestamp| #[trigger]
                is_last_time(times@, last) && shown@ == utc_rfc3339(
                    last.seconds as int,
                    last.nanos as int,
                ),
            None => times@.len() == 0,
        },
{
    match latest_time(times) {
        Some(last) => {
            assert(last.valid()) by {
                let k = choose|k: int| 0 <= k < times@.len() && times@[k] == last;
                assert(times@[k].valid());
            }
            Some(rfc3339_text(last))
        },
        None => None,
    }
}

/// What is to be written of an agent's identity.
#[derive(Debug, Clone)]
pub struct IdentityUpdateRequest {
    pub agent_id: String,
    pub soul: Option<String>,
    pub identity: Option<String>,
    pub user: Option<String>,
}

/// The files of an identity that are to be written, in their order.
pub open spec fn identity_writes_of(request: IdentityUpdateRequest) -> Seq<(Seq<char>, Seq<char>)> {
    (match request.soul {
        Some(text) => seq![("SOUL.md"@, text@)],
        None => Seq::empty(),
    }) + (match request.identity {
        Some(text) => seq![("IDENTITY.md"@, text@)],
        None => Seq::empty(),
    }) + (match request.user {
        Some(text) => seq![("USER.md"@, text@)],
        None => Seq::empty(),
    })
}

pub open spec fn write_views(writes: Seq<(&'static str, String)>) -> Seq<(Seq<char>, Seq<char>)> {
    Seq::new(
        writes.len(),
        |i: int|
            {
                let (name, text) = writes[i];
                (name@, text@)
            },
    )
}

/// The files of an identity that are to be written: those that are given.
pub fn identity_writes(request: IdentityUpdateRequest) -> (writes: Vec<(&'static str, String)>)
    ensures
        write_views(writes@) == identity_writes_of(request),
{
    let mut writes: Vec<(&'static str, String)> = Vec::new();
    match request.soul {
        Some(text) => writes.push(("SOUL.md", text)),
        None => {},
    }
    match request.identity {
        Some(text) => writes.push(("IDENTITY.md", text)),
        None => {},
    }
    match request.user {
        Some(text) => writes.push(("USER.md", text)),
        None => {},
    }
    assert(write_views(writes@) =~= identity_writes_of(request));
    writes
}

/// Deleting an agent right after it was created leaves the configuration as it
/// was, where the agent was not in it before.
pub proof fn law_delete_undoes_create(root: Entries, agent_id: Seq<char>)
    requires
        root.contains_key("agents"@) && root["agents"@] is Sections,
        first_with_text(root["agents"@]->Sections_0, 0, "id"@, agent_id) is None,
    ensures
        with_agent(root, agent_id) is Some,
        without_agent(with_agent(root, agent_id)->0, agent_id) == root,
{
    let tables = root["agents"@]->Sections_0;
    let after = tables.push(TomlNode::Section(agent_table(agent_id)));
    assert(child_tables(root, "agents"@) == Some(tables));
    lemma_first_after_push(tables, 0, agent_id);
    assert(after.remove(tables.len() as int) =~= tables);
    let added = with_agent(root, agent_id)->0;
    assert(without_agent(added, agent_id) =~= root);
}

proof fn lemma_first_after_push(tables: Seq<TomlNode>, from: int, agent_id: Seq<char>)
    requires
        0 <= from <= tables.len(),
        first_with_text(tables, from, "id"@, agent_id) is None,
    ensures
        first_with_text(tables.push(TomlNode::Section(agent_table(agent_id))), from, "id"@, agent_id) == Some(
            tables.len() as int,
        ),
    decreases tables.len() - from,
{
    let after = tables.push(TomlNode::Section(agent_table(agent_id)));
    if from < tables.len() {
        assert(after[from] == tables[from]);
        lemma_first_after_push(tables, from + 1, agent_id);
    } else {
        assert(after[from] == TomlNode::Section(agent_table(agent_id)));
        assert(section_text(after[from], "id"@) == Some(agent_id));
    }
}

/// An agent that was created has a table in the configuration, behind those that
/// were there.
pub proof fn law_created_agent_is_found(root: Entries, agent_id: Seq<char>)
    requires
        with_agent(root, agent_id) is Some,
    ensures
        ({
            let tables = with_agent(root, agent_id)->0["agents"@]->Sections_0;
            &&& tables.len() > 0
            &&& section_text(tables.last(), "id"@) == Some(agent_id)
            &&& tables.drop_last() == child_tables(root, "agents"@)->0
        }),
{
    let tables = child_tables(root, "agents"@)->0;
    assert(tables.push(TomlNode::Section(agent_table(agent_id))).drop_last() =~= tables);
}

/// A number in decimal form is read back as what it is, with or without a plus sign.
pub proof fn law_number_is_read_back(number: int)
    requires
        0 <= number,
    ensures
        number_of(decimal(number)) == Some(number),
        number_of(seq!['+'] + decimal(number)) == Some(number),
{
    lemma_decimal_digits(number);
    let signed = seq!['+'] + decimal(number);
    assert(signed.skip(1) =~= decimal(number));
    assert(decimal(number)[0] != '+') by {
        assert(is_digit(decimal(number)[0]));
    }
}

proof fn lemma_decimal_digits(number: int)
    requires
        0 <= number,
    ensures
        decimal(number).len() > 0,
        all_digits(decimal(number)),
        digits_value(decimal(number)) == number,
    decreases number,
{
    let digits = decimal(number);
    if number < 10 {
        assert(digits.drop_last() =~= Seq::<char>::empty());
        assert(digits_value(digits.drop_last()) == 0);
    } else {
        lemma_decimal_digits(number / 10);
        assert(digits.drop_last() =~= decimal(number / 10));
        assert forall|i: int| 0 <= i < digits.len() implies is_digit(#[trigger] digits[i]) by {
            if i < digits.len() - 1 {
                assert(is_digit(decimal(number / 10)[i]));
            }
        }
    }
}

/// What is not made of digits, but for a plus sign before them, is no number.
pub proof fn law_other_text_is_no_number(text: Seq<char>, at: int)
    requires
        text.len() == 0 || 0 <= at < text.len() && !('0' <= text[at] && text[at] <= '9') && !(at == 0
            && text[at] == '+'),
    ensures
        number_of(text) is None,
{
    if text.len() > 0 {
        if text[0] == '+' {
            assert(text.skip(1)[at - 1] == text[at]);
            assert(!is_digit(unsigned(text)[at - 1]));
        } else {
            assert(!is_digit(unsigned(text)[at]));
        }
    }
}

/// A hosted instance, however that is written, has as many agents as it is given,
/// where that is more than none. No other instance has a limit.
pub proof fn law_hosted_instances_are_limited(
    deployment: Option<Seq<char>>,
    max_agents: Option<Seq<char>>,
    limit: int,
)
    requires
        0 <= limit <= usize::MAX,
    ensures
        (deployment matches Some(kind) && kind == "hosted"@) && max_agents == Some(decimal(limit))
            ==> agent_limit(deployment, max_agents) == if limit > 0 {
            Some(limit)
        } else {
            None
        },
        (deployment matches Some(kind) && kind == "HOSTED"@) && max_agents == Some(decimal(limit))
            && limit > 0 ==> agent_limit(deployment, max_agents) == Some(limit),
        deployment is None || max_agents is None ==> agent_limit(deployment, max_agents) is None,
        (deployment matches Some(kind) && kind.len() != 6) ==> agent_limit(deployment, max_agents)
            is None,
{
    law_number_is_read_back(limit);
    reveal_strlit("hosted");
    reveal_strlit("HOSTED");
}

/// A new agent gets a table with its identifier and nothing else, behind those that
/// are there; all else stays.
pub proof fn law_new_agent_has_its_table(
    root: Entries,
    agent_id: Seq<char>,
    tables: Seq<TomlNode>,
    key: Seq<char>,
)
    requires
        root.contains_key("agents"@) ==> root["agents"@] == TomlNode::Sections(tables),
        !root.contains_key("agents"@) ==> tables.len() == 0,
    ensures
        with_agent(root, agent_id) matches Some(after) && {
            &&& node_at(after, "agents"@) matches TomlNode::Sections(grown) && grown.len()
                == tables.len() + 1 && (forall|i: int|
                0 <= i < tables.len() ==> #[trigger] grown[i] == tables[i]) && (
            grown[tables.len() as int] matches TomlNode::Section(table) && table.contains_key("id"@)
                && table["id"@] == TomlNode::Text(agent_id) && (forall|name: Seq<char>| #[trigger]
                table.contains_key(name) ==> name == "id"@))
            &&& key != "agents"@ ==> node_at(after, key) == node_at(root, key)
        },
{
    if !root.contains_key("agents"@) {
        assert(tables =~= Seq::<TomlNode>::empty());
    }
}

/// Deleting an agent takes out the first table with its identifier, be it one of
/// its own or an inline one, and nothing else.
pub proof fn law_delete_takes_the_agent(
    root: Entries,
    agent_id: Seq<char>,
    tables: Seq<TomlNode>,
    at: int,
    key: Seq<char>,
)
    requires
        root.contains_key("agents"@),
        0 <= at < tables.len(),
    ensures
        root["agents"@] == TomlNode::Sections(tables) && (tables[at] matches TomlNode::Section(entries)
            && entries.contains_key("id"@) && entries["id"@] == TomlNode::Text(agent_id)) && (forall|
            i: int,
        |
            0 <= i < at ==> !((#[trigger] tables[i]) matches TomlNode::Section(entries)
                && entries.contains_key("id"@) && entries["id"@] == TomlNode::Text(agent_id)))
            ==> node_at(without_agent(root, agent_id), "agents"@) == TomlNode::Sections(
            tables.remove(at),
        ),
        root["agents"@] == TomlNode::List(tables) && (tables[at] matches TomlNode::Inline(entries)
            && entries.contains_key("id"@) && entries["id"@] == TomlNode::Text(agent_id)) && (forall|
            i: int,
        |
            0 <= i < at ==> !((#[trigger] tables[i]) matches TomlNode::Inline(entries)
                && entries.contains_key("id"@) && entries["id"@] == TomlNode::Text(agent_id)))
            ==> node_at(without_agent(root, agent_id), "agents"@) == TomlNode::List(
            tables.remove(at),
        ),
        key != "agents"@ ==> node_at(without_agent(root, agent_id), key) == node_at(root, key),
{
    if root["agents"@] == TomlNode::Sections(tables) && (tables[at] matches TomlNode::Section(entries)
        && entries.contains_key("id"@) && entries["id"@] == TomlNode::Text(agent_id)) && (forall|
        i: int,
    |
        0 <= i < at ==> !((#[trigger] tables[i]) matches TomlNode::Section(entries)
            && entries.contains_key("id"@) && entries["id"@] == TomlNode::Text(agent_id))) {
        law_first_table_is_found(tables, 0, at, "id"@, agent_id);
    }
    if root["agents"@] == TomlNode::List(tables) && (tables[at] matches TomlNode::Inline(entries)
        && entries.contains_key("id"@) && entries["id"@] == TomlNode::Text(agent_id)) && (forall|
        i: int,
    |
        0 <= i < at ==> !((#[trigger] tables[i]) matches TomlNode::Inline(entries)
            && entries.contains_key("id"@) && entries["id"@] == TomlNode::Text(agent_id))) {
        law_first_inline_table_is_found(tables, 0, at, "id"@, agent_id);
    }
}

/// Forgetting an agent keeps all others, in order, and no agent with its identifier.
pub proof fn law_others_are_kept(agents: Seq<AgentInfo>, agent_id: Seq<char>, count: int)
    requires
        0 <= count <= agents.len(),
    ensures
        agents_without(agents, agent_id, count) == agents.take(count).filter(
            |agent: AgentInfo| agent.id@ != agent_id,
        ),
    decreases count,
{
    reveal(Seq::filter);
    if count > 0 {
        law_others_are_kept(agents, agent_id, count - 1);
        assert(agents.take(count).drop_last() =~= agents.take(count - 1));
    }
}

/// The total of the memories is the sum of the counts of all types.
pub proof fn law_total_is_the_sum(rows: Seq<(String, i64)>, count: int)
    requires
        0 <= count <= rows.len(),
    ensures
        total(rows, count) == rows.take(count).fold_left(
            0,
            |sum: int, row: (String, i64)| sum + row.1 as int,
        ),
    decreases count,
{
    reveal(Seq::fold_left);
    if count > 0 {
        law_total_is_the_sum(rows, count - 1);
        assert(rows.take(count).drop_last() =~= rows.take(count - 1));
    }
}

/// One date comes before another where it is smaller at the first place at which
/// they differ, or ends there.
pub proof fn law_dates_are_ordered(a: Seq<char>, b: Seq<char>, at: int)
    requires
        0 <= at <= a.len(),
        at <= b.len(),
        forall|i: int| 0 <= i < at ==> #[trigger] a[i] == b[i],
        at < a.len() && at < b.len() ==> a[at] != b[at],
    ensures
        comes_before(a, b) <==> at < b.len() && (at == a.len() || (a[at] as int) < (b[at] as int)),
    decreases at,
{
    if at > 0 {
        assert(a[0] == b[0]);
        let left = a.drop_first();
        let right = b.drop_first();
        assert forall|i: int| 0 <= i < at - 1 implies #[trigger] left[i] == right[i] by {
            assert(a[i + 1] == b[i + 1]);
        }
        law_dates_are_ordered(left, right, at - 1);
    }
}

/// Every day with activity of either kind is there just once, with both of its
/// counts; the count of a kind that has none on that day is zero.
pub proof fn law_activity_is_merged(
    days: Seq<ActivityDayCount>,
    branches: Seq<(String, i64)>,
    workers: Seq<(String, i64)>,
    at: int,
)
    requires
        merges(days, branches, workers),
        0 <= at < branches.len(),
        distinct_names(branches),
        distinct_names(workers),
    ensures
        exists|i: int|
            0 <= i < days.len() && (#[trigger] days[i]).date@ == branches[at].0@ && days[i].branches
                == branches[at].1 && (forall|w: int|
                0 <= w < workers.len() && (#[trigger] workers[w]).0@ == days[i].date@
                    ==> days[i].workers == workers[w].1) && ((forall|w: int|
                0 <= w < workers.len() ==> (#[trigger] workers[w]).0@ != days[i].date@)
                ==> days[i].workers == 0),
        forall|i: int, j: int|
            0 <= i < j < days.len() ==> (#[trigger] days[i]).date@ != (#[trigger] days[j]).date@,
{
    let date = branches[at].0@;
    lemma_present(branches, at);
    assert(has_day(days, date));
    let i = choose|i: int| 0 <= i < days.len() && (#[trigger] days[i]).date@ == date;
    assert forall|w: int| 0 <= w < workers.len() && (#[trigger] workers[w]).0@ == days[i].date@ implies
        days[i].workers == workers[w].1 by {
        lemma_present(workers, w);
    }
    if forall|w: int| 0 <= w < workers.len() ==> (#[trigger] workers[w]).0@ != days[i].date@ {
        lemma_absent(workers, days[i].date@);
    }
    assert forall|a: int, b: int| 0 <= a < b < days.len() implies (#[trigger] days[a]).date@ != (
    #[trigger] days[b]).date@ by {
        if days[a].date@ == days[b].date@ {
            lemma_not_before_itself(days[a].date@);
        }
    }
}

proof fn lemma_not_before_itself(text: Seq<char>)
    ensures
        !comes_before(text, text),
    decreases text.len(),
{
    if text.len() > 0 {
        lemma_not_before_itself(text.drop_first());
    }
}

/// The days of the sparkline follow each other, and the last one is today.
pub proof fn law_sparkline_ends_today(now: Timestamp, position: int)
    ensures
        sparkline_second(now, 13) == now.seconds,
        sparkline_second(now, position + 1) == sparkline_second(now, position) + 24 * 60 * 60,
{
}

/// Each text that an update of the identity gives is written to the file of its
/// own, and no other file is written.
pub proof fn law_identity_is_written(
    request: IdentityUpdateRequest,
    name: Seq<char>,
    text: Seq<char>,
)
    ensures
        identity_writes_of(request).contains((name, text)) <==> {
            ||| name == "SOUL.md"@ && (request.soul matches Some(given) && given@ == text)
            ||| name == "IDENTITY.md"@ && (request.identity matches Some(given) && given@ == text)
            ||| name == "USER.md"@ && (request.user matches Some(given) && given@ == text)
        },
{
    let writes = identity_writes_of(request);
    let soul = request.soul is Some;
    let identity = request.identity is Some;
    let first: int = if soul {
        1
    } else {
        0
    };
    let second: int = if identity {
        first + 1
    } else {
        first
    };
    if let Some(given) = request.soul {
        assert(writes[0] == ("SOUL.md"@, given@));
    }
    if let Some(given) = request.identity {
        assert(writes[first] == ("IDENTITY.md"@, given@));
    }
    if let Some(given) = request.user {
        assert(writes[second] == ("USER.md"@, given@));
    }
    if writes.contains((name, text)) {
        let i = choose|i: int| 0 <= i < writes.len() && writes[i] == (name, text);
        assert(i < first || i < second || i == second);
    }
}

/// An agent is admitted under its identifier, without the white space around it,
/// where there is room for it, it has one, and no other agent has it. Nobody else
/// is.
pub proof fn law_new_agents_are_admitted(
    existing: &Vec<String>,
    limit: Option<usize>,
    requested: &str,
    result: Result<String, String>,
)
    requires
        call_ensures(admit_agent, (existing, limit, requested), result),
    ensures
        result is Ok <==> (limit matches Some(most) ==> existing@.len() < most) && trimmed(
            requested@,
        ).len() > 0 && forall|i: int|
            0 <= i < existing@.len() ==> (#[trigger] existing@[i])@ != trimmed(requested@),
        result matches Ok(id) ==> id@ == trimmed(requested@),
        result matches Err(message) ==> (limit matches Some(most) && existing@.len() >= most
            ==> message@ == "agent limit reached for this instance: up to "@ + decimal(
            limit->0 as int,
        ) + (if limit->0 == 1 {
            " agent"@
        } else {
            " agents"@
        })),
        result matches Err(message) ==> (limit matches Some(most) ==> existing@.len() < most)
            && trimmed(requested@).len() > 0 ==> message@ == "Agent '"@ + trimmed(requested@)
            + "' already exists"@,
{
    let id = trimmed(requested@);
    if views(existing@).contains(id) {
        let i = choose|i: int| 0 <= i < views(existing@).len() && views(existing@)[i] == id;
        assert(existing@[i]@ == id);
    } else {
        assert forall|i: int| 0 <= i < existing@.len() implies (#[trigger] existing@[i])@ != id by {
            assert(views(existing@)[i] == existing@[i]@);
        }
    }
    reveal_strlit("");
    reveal_strlit("s");
    reveal_strlit(" agent");
    reveal_strlit(" agents");
    reveal_strlit("' ");
    reveal_strlit("already exists");
    reveal_strlit("' already exists");
    assert(" agent"@ + ""@ =~= " agent"@);
    assert(" agent"@ + "s"@ =~= " agents"@);
    assert("' "@ + "already exists"@ =~= "' already exists"@);
    if let Some(most) = limit {
        let start = "agent limit reached for this instance: up to "@ + decimal(most as int);
        assert(start + " agent"@ + ""@ =~= start + " agent"@);
        assert(start + " agent"@ + "s"@ =~= start + " agents"@);
    }
    assert("Agent '"@ + id + "' "@ + "already exists"@ =~= "Agent '"@ + id + "' already exists"@);
}

/// An agent is found under its identifier, without the white space around it, just
/// where one has it.
pub proof fn law_existing_agents_are_found(
    existing: &Vec<String>,
    requested: &str,
    result: Result<String, String>,
)
    requires
        call_ensures(find_agent, (existing, requested), result),
    ensures
        result is Ok <==> trimmed(requested@).len() > 0 && exists|i: int|
            0 <= i < existing@.len() && (#[trigger] existing@[i])@ == trimmed(requested@),
        result matches Ok(id) ==> id@ == trimmed(requested@),
        result matches Err(message) ==> trimmed(requested@).len() > 0 ==> message@ == "Agent '"@
            + trimmed(requested@) + "' not found"@,
{
    let id = trimmed(requested@);
    if views(existing@).contains(id) {
        let i = choose|i: int| 0 <= i < views(existing@).len() && views(existing@)[i] == id;
        assert(existing@[i]@ == id);
    } else {
        assert forall|i: int| 0 <= i < existing@.len() implies (#[trigger] existing@[i])@ != id by {
            assert(views(existing@)[i] == existing@[i]@);
        }
    }
    reveal_strlit("' ");
    reveal_strlit("not found");
    reveal_strlit("' not found");
    assert("Agent '"@ + id + "' "@ + "not found"@ =~= "Agent '"@ + id + "' not found"@);
}

/// The last of some times is one that comes before none of them.
pub proof fn law_last_time_is_the_latest(times: Seq<Timestamp>, last: Timestamp, at: int)
    requires
        is_last_time(times, last),
        0 <= at < times.len(),
        forall|i: int|
            0 <= i < times.len() ==> {
                let time = #[trigger] times[i];
                time.seconds < times[at].seconds || time.seconds == times[at].seconds && time.nanos
                    <= times[at].nanos
            },
    ensures
        last == times[at],
{
    let i = choose|i: int| 0 <= i < times.len() && times[i] == last;
    assert(times[at].not_after(last));
    assert(times[i] == last);
}

} // verus!
