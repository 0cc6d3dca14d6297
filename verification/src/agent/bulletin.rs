//! The memory bulletin: a short briefing that every conversation of an agent
//! starts from.

use crate::agent::cortex_log::{has_count, has_flag, has_text, is_log, CortexLog, Detail};
use crate::agent::tasks::{Subtask, Task, TaskStatus};
use crate::agent::warmup::{bulletin_age_secs_at, refresh_age, WarmupState, WarmupStatus};
use crate::text::{
    chars_of, decimal, i64_text, is_white_space, is_whitespace, joined, occurs_at, str_view, u64_text,
};
use vstd::prelude::*;
use vstd::string::*;

verus! {

/// How memories are searched.
#[derive(Debug, Clone, Copy, PartialEq, Eq, Structural)]
pub enum SearchMode {
    Typed,
    Recent,
    Important,
}

/// The order of the memories that are found.
#[derive(Debug, Clone, Copy, PartialEq, Eq, Structural)]
pub enum SearchSort {
    Importance,
    Recent,
}

/// The types of memories that the bulletin asks for.
#[derive(Debug, Clone, Copy, PartialEq, Eq, Structural)]
pub enum MemoryType {
    Identity,
    Decision,
    Preference,
    Goal,
    Event,
    Observation,
}

/// A section of the bulletin: what to search for, and under which label the
/// results stand.
#[derive(Debug, Clone, Copy)]
pub struct BulletinSection {
    pub label: &'static str,
    pub mode: SearchMode,
    pub memory_type: Option<MemoryType>,
    pub sort_by: SearchSort,
    pub max_results: usize,
}

/// How many sections there are.
pub const BULLETIN_SECTION_COUNT: usize = 8;

/// The label of a section.
pub open spec fn section_label(index: int) -> Seq<char> {
    if index == 0 {
        "Identity & Core Facts"@
    } else if index == 1 {
        "Recent Memories"@
    } else if index == 2 {
        "Decisions"@
    } else if index == 3 {
        "High-Importance Context"@
    } else if index == 4 {
        "Preferences & Patterns"@
    } else if index == 5 {
        "Active Goals"@
    } else if index == 6 {
        "Recent Events"@
    } else {
        "Observations"@
    }
}

/// The type of memories of a section.
pub open spec fn section_type(index: int) -> Option<MemoryType> {
    if index == 0 {
        Some(MemoryType::Identity)
    } else if index == 2 {
        Some(MemoryType::Decision)
    } else if index == 4 {
        Some(MemoryType::Preference)
    } else if index == 5 {
        Some(MemoryType::Goal)
    } else if index == 6 {
        Some(MemoryType::Event)
    } else if index == 7 {
        Some(MemoryType::Observation)
    } else {
        None
    }
}

/// A section of the bulletin. A section with a type searches by it; of the two
/// without, the first asks for recent and the second for important memories.
pub fn bulletin_section(index: usize) -> (section: BulletinSection)
    requires
        index < BULLETIN_SECTION_COUNT,
    ensures
        section.label@ == section_label(index as int),
        section.memory_type == section_type(index as int),
        section.mode == if section_type(index as int) is Some {
            SearchMode::Typed
        } else if index == 1 {
            SearchMode::Recent
        } else {
            SearchMode::Important
        },
        section.sort_by == if index == 0 || index == 3 || index == 4 {
            SearchSort::Importance
        } else {
            SearchSort::Recent
        },
        section.max_results == if index < 2 {
            15int
        } else if index < 7 {
            10
        } else {
            5
        },
{
    match index {
        0 => BulletinSection {
            label: "Identity & Core Facts",
            mode: SearchMode::Typed,
            memory_type: Some(MemoryType::Identity),
            sort_by: SearchSort::Importance,
            max_results: 15,
        },
        1 => BulletinSection {
            label: "Recent Memories",
            mode: SearchMode::Recent,
            memory_type: None,
            sort_by: SearchSort::Recent,
            max_results: 15,
        },
        2 => BulletinSection {
            label: "Decisions",
            mode: SearchMode::Typed,
            memory_type: Some(MemoryType::Decision),
            sort_by: SearchSort::Recent,
            max_results: 10,
        },
        3 => BulletinSection {
            label: "High-Importance Context",
            mode: SearchMode::Important,
            memory_type: None,
            sort_by: SearchSort::Importance,
            max_results: 10,
        },
        4 => BulletinSection {
            label: "Preferences & Patterns",
            mode: SearchMode::Typed,
            memory_type: Some(MemoryType::Preference),
            sort_by: SearchSort::Importance,
            max_results: 10,
        },
        5 => BulletinSection {
            label: "Active Goals",
            mode: SearchMode::Typed,
            memory_type: Some(MemoryType::Goal),
            sort_by: SearchSort::Recent,
            max_results: 10,
        },
        6 => BulletinSection {
            label: "Recent Events",
            mode: SearchMode::Typed,
            memory_type: Some(MemoryType::Event),
            sort_by: SearchSort::Recent,
            max_results: 10,
        },
        _ => BulletinSection {
            label: "Observations",
            mode: SearchMode::Typed,
            memory_type: Some(MemoryType::Observation),
            sort_by: SearchSort::Recent,
            max_results: 5,
        },
    }
}

/// A memory that was found. The importance is told with one decimal.
#[derive(Debug, Clone)]
pub struct FoundMemory {
    pub memory_type: String,
    pub importance: String,
    pub content: String,
}

/// The position of the first line feed, or the length where there is none.
pub open spec fn line_end(text: Seq<char>, from: int) -> int
    decreases text.len() - from,
{
    if from < 0 || from >= text.len() {
        text.len() as int
    } else if text[from] == '\n' {
        from
    } else {
        line_end(text, from + 1)
    }
}

/// The first line of a text. A carriage return before its line feed is no part
/// of it.
pub open spec fn first_line(text: Seq<char>) -> Seq<char> {
    let end = line_end(text, 0);
    if end < text.len() && end > 0 && text[end - 1] == '\r' {
        text.take(end - 1)
    } else {
        text.take(end)
    }
}

/// The first line of a text.
pub fn first_line_of<'a>(text: &'a str) -> (line: &'a str)
    ensures
        line@ == first_line(text@),
{
    let chars = chars_of(text);
    let mut end: usize = 0;
    while end < chars.len() && chars[end] != '\n'
        invariant
            end <= chars.len(),
            chars@ == text@,
            line_end(text@, 0) == line_end(text@, end as int),
        decreases chars.len() - end,
    {
        end = end + 1;
    }
    assert(line_end(text@, 0) == end);
    let stop: usize = if end < chars.len() && end > 0 && chars[end - 1] == '\r' {
        end - 1
    } else {
        end
    };
    assert(text@.subrange(0, stop as int) =~= text@.take(stop as int));
    text.substring_char(0, stop)
}

/// The line of a memory in the bulletin's material.
pub open spec fn memory_line(memory: FoundMemory) -> Seq<char> {
    "- ["@ + memory.memory_type@ + "] (importance: "@ + memory.importance@ + ") "@ + first_line(
        memory.content@,
    ) + "\n"@
}

fn line_of_memory(memory: &FoundMemory) -> (line: String)
    ensures
        line@ == memory_line(*memory),
{
    "- [".to_owned().concat(memory.memory_type.as_str()).concat("] (importance: ").concat(
        memory.importance.as_str(),
    ).concat(") ").concat(first_line_of(memory.content.as_str())).concat("\n")
}

/// The lines of the first memories of a list.
pub open spec fn memory_lines(memories: Seq<FoundMemory>, count: int) -> Seq<char>
    decreases count,
{
    if count <= 0 {
        Seq::empty()
    } else {
        memory_lines(memories, count - 1) + memory_line(memories[count - 1])
    }
}

/// What a section adds to the material: nothing where nothing was found.
pub open spec fn section_text(label: Seq<char>, memories: Seq<FoundMemory>) -> Seq<char> {
    if memories.len() == 0 {
        Seq::empty()
    } else {
        "### "@ + label + "\n\n"@ + memory_lines(memories, memories.len() as int) + "\n"@
    }
}

/// What a search found: nothing where it failed.
pub open spec fn memories_of(found: Option<Vec<FoundMemory>>) -> Seq<FoundMemory> {
    match found {
        Some(memories) => memories@,
        None => Seq::empty(),
    }
}

/// What the first sections add to the material.
pub open spec fn sections_text(found: Seq<Option<Vec<FoundMemory>>>, count: int) -> Seq<char>
    decreases count,
{
    if count <= 0 {
        Seq::empty()
    } else {
        sections_text(found, count - 1) + section_text(
            section_label(count - 1),
            memories_of(found[count - 1]),
        )
    }
}

fn append_section(output: &mut String, label: &str, memories: &Vec<FoundMemory>)
    ensures
        final(output)@ == old(output)@ + section_text(label@, memories@),
{
    if memories.len() == 0 {
        assert(output@ =~= output@ + Seq::<char>::empty());
        return;
    }
    output.append("### ");
    output.append(label);
    output.append("\n\n");
    let ghost head = old(output)@ + ("### "@ + label@ + "\n\n"@);
    assert(output@ =~= head + memory_lines(memories@, 0));
    let mut i: usize = 0;
    while i < memories.len()
        invariant
            i <= memories.len(),
            output@ == head + memory_lines(memories@, i as int),
        decreases memories.len() - i,
    {
        let line = line_of_memory(&memories[i]);
        output.append(line.as_str());
        assert(output@ =~= head + (memory_lines(memories@, i as int) + line@));
        i = i + 1;
    }
    output.append("\n");
    assert(output@ =~= old(output)@ + section_text(label@, memories@));
}

/// Whether every search for the material of a bulletin failed.
pub open spec fn all_failed(found: Seq<Option<Vec<FoundMemory>>>, active_tasks: Option<Seq<char>>) -> bool {
    active_tasks is None && forall|i: int| 0 <= i < found.len() ==> #[trigger] found[i] is None
}

/// Gathers the material of a bulletin: what was found for each section, and the
/// tasks that are not done. A search that failed is `None` and adds nothing.
/// Where all of them failed there is no material, not even empty one.
pub fn gather_bulletin_sections(
    found: &Vec<Option<Vec<FoundMemory>>>,
    active_tasks: Option<&str>,
) -> (material: Option<String>)
    requires
        found@.len() == BULLETIN_SECTION_COUNT,
    ensures
        match material {
            Some(output) => !all_failed(found@, str_view(active_tasks)) && output@
                == sections_text(found@, BULLETIN_SECTION_COUNT as int) + match active_tasks {
                Some(text) => text@,
                None => Seq::empty(),
            },
            None => all_failed(found@, str_view(active_tasks)),
        },
{
    let mut output = String::new();
    let mut any = active_tasks.is_some();
    let mut i: usize = 0;
    while i < BULLETIN_SECTION_COUNT
        invariant
            i <= BULLETIN_SECTION_COUNT,
            found@.len() == BULLETIN_SECTION_COUNT,
            output@ == sections_text(found@, i as int),
            any == (active_tasks is Some || exists|k: int|
                0 <= k < i && #[trigger] found@[k] is Some),
        decreases BULLETIN_SECTION_COUNT - i,
    {
        let section = bulletin_section(i);
        match &found[i] {
            Some(memories) => {
                append_section(&mut output, section.label, memories);
                assert(found@[i as int] is Some);
                any = true;
            },
            None => {
                assert(output@ =~= output@ + section_text(section.label@, Seq::empty()));
            },
        }
        i = i + 1;
    }
    if !any {
        assert forall|k: int| 0 <= k < found@.len() implies #[trigger] found@[k] is None by {};
        return None;
    }
    match active_tasks {
        Some(text) => output.append(text),
        None => {
            assert(output@ =~= output@ + Seq::<char>::empty());
        },
    }
    Some(output)
}

/// The most tasks of one status that the bulletin names.
pub const ACTIVE_TASK_LIMIT: i64 = 20;

/// The statuses of the tasks that the bulletin names, in their order.
pub fn active_task_statuses() -> (statuses: Vec<TaskStatus>)
    ensures
        statuses@ == seq![
            TaskStatus::InProgress,
            TaskStatus::Ready,
            TaskStatus::Backlog,
            TaskStatus::PendingApproval,
        ],
{
    let mut statuses: Vec<TaskStatus> = Vec::new();
    statuses.push(TaskStatus::InProgress);
    statuses.push(TaskStatus::Ready);
    statuses.push(TaskStatus::Backlog);
    statuses.push(TaskStatus::PendingApproval);
    statuses
}

/// How many of the first subtasks are done.
pub open spec fn done_count(subtasks: Seq<Subtask>, count: int) -> int
    decreases count,
{
    if count <= 0 {
        0
    } else if subtasks[count - 1].completed {
        done_count(subtasks, count - 1) + 1
    } else {
        done_count(subtasks, count - 1)
    }
}

/// How far the subtasks of a task are.
pub open spec fn progress_text(subtasks: Seq<Subtask>) -> Seq<char> {
    if subtasks.len() == 0 {
        Seq::empty()
    } else {
        " ["@ + decimal(done_count(subtasks, subtasks.len() as int)) + "/"@ + decimal(
            subtasks.len() as int,
        ) + "]"@
    }
}

fn subtask_progress(subtasks: &Vec<Subtask>) -> (text: String)
    ensures
        text@ == progress_text(subtasks@),
{
    if subtasks.len() == 0 {
        return String::new();
    }
    let mut done: u64 = 0;
    let mut i: usize = 0;
    while i < subtasks.len()
        invariant
            i <= subtasks.len(),
            done == done_count(subtasks@, i as int),
            done <= i,
        decreases subtasks.len() - i,
    {
        if subtasks[i].completed {
            done = done + 1;
        }
        i = i + 1;
    }
    " [".to_owned().concat(u64_text(done).as_str()).concat("/").concat(
        u64_text(subtasks.len() as u64).as_str(),
    ).concat("]")
}

/// The line of a task.
pub open spec fn task_line(task: Task) -> Seq<char> {
    "- #"@ + decimal(task.task_number as int) + " ["@ + task.status@ + "] ("@ + task.priority@
        + ") "@ + task.title@ + progress_text(task.subtasks@) + "\n"@
}

fn line_of_task(task: &Task) -> (line: String)
    ensures
        line@ == task_line(*task),
{
    "- #".to_owned().concat(i64_text(task.task_number).as_str()).concat(" [").concat(
        task.status.as_str(),
    ).concat("] (").concat(task.priority.as_str()).concat(") ").concat(task.title.as_str()).concat(
        subtask_progress(&task.subtasks).as_str(),
    ).concat("\n")
}

/// The lines of the first tasks of a list.
pub open spec fn task_lines(tasks: Seq<Task>, count: int) -> Seq<char>
    decreases count,
{
    if count <= 0 {
        Seq::empty()
    } else {
        task_lines(tasks, count - 1) + task_line(tasks[count - 1])
    }
}

/// What tasks add to the material of a bulletin: nothing where there are none.
pub open spec fn tasks_text(tasks: Seq<Task>) -> Seq<char> {
    if tasks.len() == 0 {
        Seq::empty()
    } else {
        "### Active Tasks\n\n"@ + task_lines(tasks, tasks.len() as int) + "\n"@
    }
}

/// The tasks that are not done, as a section of the bulletin's material.
pub fn gather_active_tasks(all_tasks: &Vec<Task>) -> (output: String)
    ensures
        output@ == tasks_text(all_tasks@),
{
    let mut output = String::new();
    if all_tasks.len() == 0 {
        return output;
    }
    output.append("### Active Tasks\n\n");
    assert(output@ =~= "### Active Tasks\n\n"@ + task_lines(all_tasks@, 0));
    let mut i: usize = 0;
    while i < all_tasks.len()
        invariant
            i <= all_tasks.len(),
            output@ == "### Active Tasks\n\n"@ + task_lines(all_tasks@, i as int),
        decreases all_tasks.len() - i,
    {
        let line = line_of_task(&all_tasks[i]);
        output.append(line.as_str());
        assert(output@ =~= "### Active Tasks\n\n"@ + (task_lines(all_tasks@, i as int) + line@));
        i = i + 1;
    }
    output.append("\n");
    output
}

/// How often a text occurs in another at the first positions.
pub open spec fn occurrences(needle: Seq<char>, text: Seq<char>, positions: int) -> int
    decreases positions,
{
    if positions <= 0 {
        0
    } else if occurs_at(needle, text, positions - 1) {
        occurrences(needle, text, positions - 1) + 1
    } else {
        occurrences(needle, text, positions - 1)
    }
}

/// The number of sections of a bulletin's material, by their headings.
pub fn count_sections(raw_sections: &str) -> (count: usize)
    ensures
        count == occurrences("### "@, raw_sections@, raw_sections@.len() as int),
{
    let chars = chars_of(raw_sections);
    proof {
        reveal_strlit("### ");
    }
    let mut count: usize = 0;
    let mut i: usize = 0;
    while i < chars.len()
        invariant
            i <= chars.len(),
            chars@ == raw_sections@,
            count <= i,
            count == occurrences("### "@, raw_sections@, i as int),
            "### "@ =~= seq!['#', '#', '#', ' '],
        decreases chars.len() - i,
    {
        let here = chars.len() - i >= 4 && chars[i] == '#' && chars[i + 1] == '#' && chars[i + 2]
            == '#' && chars[i + 3] == ' ';
        proof {
            let text = raw_sections@;
            if here {
                assert(text.subrange(i as int, i + 4) =~= "### "@);
            } else if occurs_at("### "@, text, i as int) {
                let piece = text.subrange(i as int, i + 4);
                assert(piece[0] == text[i as int] && piece[1] == text[i + 1] && piece[2] == text[i
                    + 2] && piece[3] == text[i + 3]);
            }
            assert(here == occurs_at("### "@, text, i as int));
        }
        if here {
            count = count + 1;
        }
        i = i + 1;
    }
    count
}

/// The number of words among the first characters of a text: of runs of
/// characters that are not white space.
pub open spec fn words(text: Seq<char>, count: int) -> int
    decreases count,
{
    if count <= 0 {
        0
    } else if !is_white_space(text[count - 1]) && (count == 1 || is_white_space(text[count - 2])) {
        words(text, count - 1) + 1
    } else {
        words(text, count - 1)
    }
}

/// The number of words of a text.
pub fn count_words(text: &str) -> (count: usize)
    ensures
        count == words(text@, text@.len() as int),
{
    let chars = chars_of(text);
    let mut count: usize = 0;
    let mut i: usize = 0;
    while i < chars.len()
        invariant
            i <= chars.len(),
            chars@ == text@,
            count <= i,
            count == words(text@, i as int),
        decreases chars.len() - i,
    {
        if !is_whitespace(chars[i]) && (i == 0 || is_whitespace(chars[i - 1])) {
            count = count + 1;
        }
        i = i + 1;
    }
    count
}

/// The bulletin of an agent, and what is known of its warm-up.
#[derive(Debug, Clone)]
pub struct BulletinBoard {
    pub memory_bulletin: String,
    pub warmup_status: WarmupStatus,
}

/// The status once a bulletin was written: a pass under way is left to end by
/// itself, else the agent is warm.
pub open spec fn status_with_bulletin(before: WarmupStatus, now: i64) -> WarmupStatus {
    let dated = WarmupStatus {
        last_refresh_unix_ms: Some(now),
        bulletin_age_secs: Some(0),
        ..before
    };
    if before.state == WarmupState::Warming {
        dated
    } else {
        WarmupStatus { state: WarmupState::Warm, last_error: None, ..dated }
    }
}

/// Whether a status is the one once a bulletin could not be written.
pub open spec fn is_status_without_bulletin(
    before: WarmupStatus,
    error: Seq<char>,
    now: i64,
    after: WarmupStatus,
) -> bool {
    &&& after.bulletin_age_secs == refresh_age(before.last_refresh_unix_ms, now)
    &&& after.last_refresh_unix_ms == before.last_refresh_unix_ms
    &&& after.embedding_ready == before.embedding_ready
    &&& if before.state == WarmupState::Warming {
        after.state == before.state && after.last_error == before.last_error
    } else {
        &&& after.state == WarmupState::Degraded
        &&& after.last_error is Some
        &&& after.last_error->0@ == "bulletin generation failed: "@ + error
    }
}

/// What is recorded of a bulletin that was written.
pub open spec fn is_written_log(log: CortexLog, words: int, sections: int, duration_ms: u64, model: Seq<char>) -> bool {
    &&& is_log(
        log,
        "bulletin_generated"@,
        "Bulletin generated: "@ + decimal(words) + " words, "@ + decimal(sections) + " sections, "@
            + decimal(duration_ms as int) + "ms"@,
        4,
    )
    &&& has_count(log, 0, "word_count"@, words)
    &&& has_count(log, 1, "sections"@, sections)
    &&& has_count(log, 2, "duration_ms"@, duration_ms as int)
    &&& has_text(log, 3, "model"@, model)
}

/// What is recorded of a bulletin that had nothing to tell.
pub open spec fn is_skipped_log(log: CortexLog, duration_ms: u64) -> bool {
    &&& is_log(log, "bulletin_generated"@, "Bulletin skipped: no memories in graph"@, 4)
    &&& has_count(log, 0, "word_count"@, 0)
    &&& has_count(log, 1, "sections"@, 0)
    &&& has_count(log, 2, "duration_ms"@, duration_ms as int)
    &&& has_flag(log, 3, "skipped"@, true)
}

/// What is recorded of a bulletin that could not be written.
pub open spec fn is_failed_log(log: CortexLog, error: Seq<char>, duration_ms: u64, model: Seq<char>) -> bool {
    &&& is_log(
        log,
        "bulletin_failed"@,
        "Bulletin synthesis failed after "@ + decimal(duration_ms as int) + "ms: "@ + error,
        3,
    )
    &&& has_text(log, 0, "error"@, error)
    &&& has_count(log, 1, "duration_ms"@, duration_ms as int)
    &&& has_text(log, 2, "model"@, model)
}

impl BulletinBoard {
    /// What comes of a bulletin, given its material and what the model made of
    /// it. Without material, or without a prompt for the model, nothing changes
    /// and nothing is recorded.
    pub open spec fn bulletin_outcome(
        self,
        after: BulletinBoard,
        raw_sections: Option<Seq<char>>,
        synthesis: Option<Result<String, String>>,
        duration_ms: u64,
        model: Seq<char>,
        now: i64,
        result: (bool, Option<CortexLog>),
    ) -> bool {
        match (raw_sections, synthesis) {
            (Some(material), _) if material.len() == 0 => {
                &&& result.0
                &&& after.memory_bulletin@.len() == 0
                &&& after.warmup_status == self.warmup_status
                &&& result.1 is Some
                &&& is_skipped_log(result.1->0, duration_ms)
            },
            (Some(material), Some(Ok(bulletin))) => {
                &&& result.0
                &&& after.memory_bulletin == bulletin
                &&& after.warmup_status == status_with_bulletin(self.warmup_status, now)
                &&& result.1 is Some
                &&& is_written_log(
                    result.1->0,
                    words(bulletin@, bulletin@.len() as int),
                    occurrences("### "@, material, material.len() as int),
                    duration_ms,
                    model,
                )
            },
            (Some(_), Some(Err(error))) => {
                &&& !result.0
                &&& after.memory_bulletin == self.memory_bulletin
                &&& is_status_without_bulletin(self.warmup_status, error@, now, after.warmup_status)
                &&& result.1 is Some
                &&& is_failed_log(result.1->0, error@, duration_ms, model)
            },
            _ => !result.0 && after == self && result.1 is None,
        }
    }

    /// Puts up what came of a bulletin: the material it was to be written from,
    /// `None` where it could not be gathered, and what the model made of it,
    /// `None` where its prompt could not be rendered. Without anything to tell
    /// the model is not asked. Whatever fails, the previous bulletin stays; the
    /// first result says whether there is a new one.
    pub fn generate_bulletin(
        &mut self,
        raw_sections: Option<&str>,
        synthesis: Option<Result<String, String>>,
        duration_ms: u64,
        model: &str,
        now: i64,
    ) -> (result: (bool, Option<CortexLog>))
        ensures
            old(self).bulletin_outcome(
                *final(self),
                str_view(raw_sections),
                synthesis,
                duration_ms,
                model@,
                now,
                result,
            ),
            !result.0 ==> final(self).memory_bulletin == old(self).memory_bulletin,
    {
        let raw_sections = match raw_sections {
            Some(text) => text,
            None => {
                return (false, None);
            },
        };
        let mut details: Vec<(String, Detail)> = Vec::new();
        if raw_sections.is_empty() {
            self.memory_bulletin = String::new();
            details.push(("word_count".to_owned(), Detail::Count(0)));
            details.push(("sections".to_owned(), Detail::Count(0)));
            details.push(("duration_ms".to_owned(), Detail::Count(duration_ms)));
            details.push(("skipped".to_owned(), Detail::Flag(true)));
            let log = CortexLog {
                event_type: "bulletin_generated".to_owned(),
                summary: "Bulletin skipped: no memories in graph".to_owned(),
                details,
            };
            return (true, Some(log));
        }
        match synthesis {
            Some(Ok(bulletin)) => {
                let word_count: u64 = count_words(bulletin.as_str()) as u64;
                let section_count: u64 = count_sections(raw_sections) as u64;
                self.memory_bulletin = bulletin;
                self.warmup_status.last_refresh_unix_ms = Some(now);
                self.warmup_status.bulletin_age_secs = Some(0);
                if self.warmup_status.state != WarmupState::Warming {
                    self.warmup_status.state = WarmupState::Warm;
                    self.warmup_status.last_error = None;
                }
                details.push(("word_count".to_owned(), Detail::Count(word_count)));
                details.push(("sections".to_owned(), Detail::Count(section_count)));
                details.push(("duration_ms".to_owned(), Detail::Count(duration_ms)));
                details.push(("model".to_owned(), Detail::Text(model.to_owned())));
                let summary = "Bulletin generated: ".to_owned().concat(
                    u64_text(word_count).as_str(),
                ).concat(" words, ").concat(u64_text(section_count).as_str()).concat(
                    " sections, ",
                ).concat(u64_text(duration_ms).as_str()).concat("ms");
                (
                    true,
                    Some(
                        CortexLog { event_type: "bulletin_generated".to_owned(), summary, details },
                    ),
                )
            },
            Some(Err(error)) => {
                self.warmup_status.bulletin_age_secs = bulletin_age_secs_at(
                    self.warmup_status.last_refresh_unix_ms,
                    now,
                );
                if self.warmup_status.state != WarmupState::Warming {
                    self.warmup_status.state = WarmupState::Degraded;
                    self.warmup_status.last_error = Some(
                        "bulletin generation failed: ".to_owned().concat(error.as_str()),
                    );
                }
                let summary = "Bulletin synthesis failed after ".to_owned().concat(
                    u64_text(duration_ms).as_str(),
                ).concat("ms: ").concat(error.as_str());
                details.push(("error".to_owned(), Detail::Text(error)));
                details.push(("duration_ms".to_owned(), Detail::Count(duration_ms)));
                details.push(("model".to_owned(), Detail::Text(model.to_owned())));
                (
                    false,
                    Some(CortexLog { event_type: "bulletin_failed".to_owned(), summary, details }),
                )
            },
            None => (false, None),
        }
    }
}

/// Writing a bulletin leaves an agent warm, unless a warm-up pass is under way,
/// which it never ends.
pub proof fn law_bulletin_keeps_pass_under_way(before: WarmupStatus, now: i64)
    ensures
        (status_with_bulletin(before, now).state == WarmupState::Warming) == (before.state
            == WarmupState::Warming),
        before.state != WarmupState::Warming ==> crate::agent::warmup::warmed_up(
            status_with_bulletin(before, now),
        ),
{
}

/// A bulletin that could not be generated leaves the one in force as it is,
/// whatever failed.
pub proof fn law_failure_keeps_bulletin(
    before: BulletinBoard,
    after: BulletinBoard,
    raw_sections: Option<Seq<char>>,
    synthesis: Option<Result<String, String>>,
    duration_ms: u64,
    model: Seq<char>,
    now: i64,
    result: (bool, Option<CortexLog>),
)
    requires
        before.bulletin_outcome(after, raw_sections, synthesis, duration_ms, model, now, result),
        raw_sections is None || raw_sections->0.len() > 0 && !(synthesis matches Some(Ok(_))),
    ensures
        !result.0,
        after.memory_bulletin == before.memory_bulletin,
{
}

/// The first line of a text holds all characters up to the first line feed, but
/// for a carriage return right before it; a text without a line feed is one line.
pub proof fn law_first_line_ends_at_line_feed(text: Seq<char>, end: int)
    requires
        0 <= end <= text.len(),
        end < text.len() ==> text[end] == '\n',
        forall|i: int| 0 <= i < end ==> #[trigger] text[i] != '\n',
    ensures
        first_line(text) == if end < text.len() && end > 0 && text[end - 1] == '\r' {
            text.take(end - 1)
        } else {
            text.take(end)
        },
{
    lemma_line_end(text, 0, end);
}

proof fn lemma_line_end(text: Seq<char>, from: int, end: int)
    requires
        0 <= from <= end <= text.len(),
        end < text.len() ==> text[end] == '\n',
        forall|i: int| from <= i < end ==> #[trigger] text[i] != '\n',
    ensures
        line_end(text, from) == end,
    decreases end - from,
{
    if from < end {
        assert(text[from] != '\n');
        lemma_line_end(text, from + 1, end);
    }
}

/// The sections stand under these headings, in this order.
pub proof fn law_sections_have_their_labels(index: int)
    requires
        0 <= index < 8,
    ensures
        section_label(index) == seq![
            "Identity & Core Facts"@,
            "Recent Memories"@,
            "Decisions"@,
            "High-Importance Context"@,
            "Preferences & Patterns"@,
            "Active Goals"@,
            "Recent Events"@,
            "Observations"@,
        ][index],
{
}

proof fn lemma_memory_lines(memories: Seq<FoundMemory>, count: int) -> (lines: Seq<Seq<char>>)
    requires
        0 <= count <= memories.len(),
    ensures
        lines.len() == count,
        forall|p: int|
            0 <= p < count ==> #[trigger] lines[p] == "- ["@ + memories[p].memory_type@
                + "] (importance: "@ + memories[p].importance@ + ") "@ + first_line(
                memories[p].content@,
            ) + "\n"@,
        memory_lines(memories, count) == joined(lines, Seq::empty()),
    decreases count,
{
    if count <= 0 {
        Seq::empty()
    } else {
        let before = lemma_memory_lines(memories, count - 1);
        let lines = before.push(memory_line(memories[count - 1]));
        assert(lines.drop_last() =~= before);
        assert(memory_lines(memories, count) =~= joined(lines, Seq::empty()));
        lines
    }
}

proof fn lemma_sections_text(found: Seq<Option<Vec<FoundMemory>>>, section: int, count: int) -> (behind:
    Seq<char>)
    requires
        0 <= section <= count,
    ensures
        sections_text(found, count) == sections_text(found, section) + behind,
    decreases count - section,
{
    if section == count {
        assert(sections_text(found, count) + Seq::<char>::empty() =~= sections_text(found, count));
        Seq::empty()
    } else {
        let before = lemma_sections_text(found, section, count - 1);
        let last = section_text(section_label(count - 1), memories_of(found[count - 1]));
        assert(sections_text(found, count) =~= sections_text(found, section) + (before + last));
        before + last
    }
}

/// A section for which memories were found stands behind the sections before it,
/// with its heading and then one line for each memory, in the order in which they
/// were found: its type, its importance and its first line. The lines are given
/// back, and what stands behind the section.
pub proof fn law_every_memory_has_its_line(
    found: Seq<Option<Vec<FoundMemory>>>,
    section: int,
    count: int,
) -> (shown: (Seq<Seq<char>>, Seq<char>))
    requires
        0 <= section < count,
        found[section] is Some,
        found[section]->0@.len() > 0,
    ensures
        shown.0.len() == found[section]->0@.len(),
        forall|p: int|
            0 <= p < shown.0.len() ==> #[trigger] shown.0[p] == "- ["@
                + found[section]->0@[p].memory_type@ + "] (importance: "@
                + found[section]->0@[p].importance@ + ") "@ + first_line(
                found[section]->0@[p].content@,
            ) + "\n"@,
        sections_text(found, count) == sections_text(found, section) + "### "@ + section_label(
            section,
        ) + "\n\n"@ + joined(shown.0, Seq::empty()) + "\n"@ + shown.1,
{
    let memories = found[section]->0@;
    let lines = lemma_memory_lines(memories, memories.len() as int);
    let behind = lemma_sections_text(found, section + 1, count);
    assert(sections_text(found, count) =~= sections_text(found, section) + "### "@ + section_label(
        section,
    ) + "\n\n"@ + joined(lines, Seq::empty()) + "\n"@ + behind);
    (lines, behind)
}

/// A section for which nothing was found, or whose search failed, is not there at
/// all.
pub proof fn law_empty_section_is_left_out(found: Seq<Option<Vec<FoundMemory>>>, section: int)
    requires
        0 <= section,
        found[section] matches Some(memories) ==> memories@.len() == 0,
    ensures
        sections_text(found, section + 1) == sections_text(found, section),
        sections_text(found, 0).len() == 0,
{
    assert(sections_text(found, section + 1) =~= sections_text(found, section));
}

proof fn lemma_done_count(subtasks: Seq<Subtask>, count: int)
    requires
        0 <= count <= subtasks.len(),
    ensures
        done_count(subtasks, count) == subtasks.take(count).filter(
            |subtask: Subtask| subtask.completed,
        ).len(),
    decreases count,
{
    reveal(Seq::filter);
    if count > 0 {
        lemma_done_count(subtasks, count - 1);
        assert(subtasks.take(count).drop_last() =~= subtasks.take(count - 1));
    }
}

proof fn lemma_task_lines(tasks: Seq<Task>, count: int) -> (lines: Seq<Seq<char>>)
    requires
        0 <= count <= tasks.len(),
    ensures
        lines.len() == count,
        forall|p: int| 0 <= p < count ==> #[trigger] lines[p] == task_line(tasks[p]),
        task_lines(tasks, count) == joined(lines, Seq::empty()),
    decreases count,
{
    if count <= 0 {
        Seq::empty()
    } else {
        let before = lemma_task_lines(tasks, count - 1);
        let lines = before.push(task_line(tasks[count - 1]));
        assert(lines.drop_last() =~= before);
        assert(task_lines(tasks, count) =~= joined(lines, Seq::empty()));
        lines
    }
}

/// The tasks of the bulletin have one line each, in order: the number, the status,
/// the priority and the title, and how many of the subtasks are completed where
/// there are any. The lines are given back.
pub proof fn law_every_task_has_its_line(tasks: Seq<Task>) -> (lines: Seq<Seq<char>>)
    requires
        tasks.len() > 0,
    ensures
        lines.len() == tasks.len(),
        forall|p: int|
            0 <= p < lines.len() ==> #[trigger] lines[p] == "- #"@ + decimal(
                tasks[p].task_number as int,
            ) + " ["@ + tasks[p].status@ + "] ("@ + tasks[p].priority@ + ") "@ + tasks[p].title@ + (
            if tasks[p].subtasks@.len() == 0 {
                ""@
            } else {
                " ["@ + decimal(
                    tasks[p].subtasks@.filter(|subtask: Subtask| subtask.completed).len() as int,
                ) + "/"@ + decimal(tasks[p].subtasks@.len() as int) + "]"@
            }) + "\n"@,
        tasks_text(tasks) == "### Active Tasks\n\n"@ + joined(lines, Seq::empty()) + "\n"@,
{
    let lines = lemma_task_lines(tasks, tasks.len() as int);
    reveal_strlit("");
    assert(""@ =~= Seq::<char>::empty());
    assert forall|p: int| 0 <= p < lines.len() implies #[trigger] lines[p] == "- #"@ + decimal(
        tasks[p].task_number as int,
    ) + " ["@ + tasks[p].status@ + "] ("@ + tasks[p].priority@ + ") "@ + tasks[p].title@ + (
    if tasks[p].subtasks@.len() == 0 {
        ""@
    } else {
        " ["@ + decimal(
            tasks[p].subtasks@.filter(|subtask: Subtask| subtask.completed).len() as int,
        ) + "/"@ + decimal(tasks[p].subtasks@.len() as int) + "]"@
    }) + "\n"@ by {
        let subtasks = tasks[p].subtasks@;
        lemma_done_count(subtasks, subtasks.len() as int);
        assert(subtasks.take(subtasks.len() as int) =~= subtasks);
        assert(lines[p] == task_line(tasks[p]));
    }
    lines
}

proof fn lemma_words_take(text: Seq<char>, longer: Seq<char>, count: int)
    requires
        0 <= count <= text.len() <= longer.len(),
        forall|i: int| 0 <= i < count ==> #[trigger] text[i] == longer[i],
    ensures
        words(text, count) == words(longer, count),
    decreases count,
{
    if count > 0 {
        lemma_words_take(text, longer, count - 1);
        assert(text[count - 1] == longer[count - 1]);
        if count > 1 {
            assert(text[count - 2] == longer[count - 2]);
        }
    }
}

proof fn lemma_words_behind(before: Seq<char>, space: char, text: Seq<char>, count: int)
    requires
        is_white_space(space),
        0 <= count <= text.len(),
    ensures
        words(before.push(space) + text, before.len() + 1 + count) == words(
            before,
            before.len() as int,
        ) + words(text, count),
    decreases count,
{
    let whole = before.push(space) + text;
    if count == 0 {
        lemma_words_take(before, whole, before.len() as int);
        assert(whole[before.len() as int] == space);
    } else {
        lemma_words_behind(before, space, text, count - 1);
        assert(whole[before.len() + count] == text[count - 1]);
        if count > 1 {
            assert(whole[before.len() + count - 1] == text[count - 2]);
        } else {
            assert(whole[before.len() as int] == space);
        }
    }
}

/// Two texts with white space between them have as many words as the two
/// together; a text of nothing but white space has none, and one without white
/// space is a word.
pub proof fn law_words_are_counted(before: Seq<char>, space: char, text: Seq<char>)
    requires
        is_white_space(space),
    ensures
        words(before.push(space) + text, (before.len() + 1 + text.len()) as int) == words(
            before,
            before.len() as int,
        ) + words(text, text.len() as int),
        (forall|i: int| 0 <= i < text.len() ==> is_white_space(#[trigger] text[i])) ==> words(
            text,
            text.len() as int,
        ) == 0,
        text.len() > 0 && (forall|i: int| 0 <= i < text.len() ==> !is_white_space(#[trigger] text[i]))
            ==> words(text, text.len() as int) == 1,
{
    lemma_words_behind(before, space, text, text.len() as int);
    if forall|i: int| 0 <= i < text.len() ==> is_white_space(#[trigger] text[i]) {
        lemma_no_words(text, text.len() as int);
    }
    if text.len() > 0 && (forall|i: int| 0 <= i < text.len() ==> !is_white_space(#[trigger] text[i])) {
        lemma_one_word(text, text.len() as int);
    }
}

proof fn lemma_no_words(text: Seq<char>, count: int)
    requires
        0 <= count <= text.len(),
        forall|i: int| 0 <= i < text.len() ==> is_white_space(#[trigger] text[i]),
    ensures
        words(text, count) == 0,
    decreases count,
{
    if count > 0 {
        assert(is_white_space(text[count - 1]));
        lemma_no_words(text, count - 1);
    }
}

proof fn lemma_one_word(text: Seq<char>, count: int)
    requires
        0 < count <= text.len(),
        forall|i: int| 0 <= i < text.len() ==> !is_white_space(#[trigger] text[i]),
    ensures
        words(text, count) == 1,
    decreases count,
{
    if count > 1 {
        assert(!is_white_space(text[count - 2]));
        lemma_one_word(text, count - 1);
    } else {
        assert(!is_white_space(text[0]));
        assert(words(text, 0) == 0);
    }
}

/// Every position at which a text occurs is counted once, and no other.
pub proof fn law_occurrences_are_counted(needle: Seq<char>, text: Seq<char>, positions: int)
    requires
        0 <= positions,
    ensures
        occurrences(needle, text, positions) == Seq::new(
            positions as nat,
            |at: int| occurs_at(needle, text, at),
        ).filter(|here: bool| here).len(),
    decreases positions,
{
    reveal(Seq::filter);
    let places = Seq::new(positions as nat, |at: int| occurs_at(needle, text, at));
    if positions > 0 {
        law_occurrences_are_counted(needle, text, positions - 1);
        assert(places.drop_last() =~= Seq::new(
            (positions - 1) as nat,
            |at: int| occurs_at(needle, text, at),
        ));
    }
}

/// What the model made of the material is put up as it is, with the time, and the
/// agent is warm unless a warm-up pass is under way. Where there was nothing to
/// tell, the board is cleared. A failure leaves the bulletin and its time, and an
/// agent that no pass is warming up is degraded and says why.
pub proof fn law_bulletin_is_put_up(
    before: BulletinBoard,
    after: BulletinBoard,
    material: Seq<char>,
    synthesis: Option<Result<String, String>>,
    duration_ms: u64,
    model: Seq<char>,
    now: i64,
    result: (bool, Option<CortexLog>),
)
    requires
        before.bulletin_outcome(after, Some(material), synthesis, duration_ms, model, now, result),
    ensures
        material.len() > 0 ==> (synthesis matches Some(Ok(bulletin)) ==> {
            &&& result.0
            &&& after.memory_bulletin == bulletin
            &&& after.warmup_status.last_refresh_unix_ms == Some(now)
            &&& after.warmup_status.bulletin_age_secs matches Some(age) && age == 0
            &&& after.warmup_status.embedding_ready == before.warmup_status.embedding_ready
            &&& before.warmup_status.state == WarmupState::Warming ==> after.warmup_status.state
                == WarmupState::Warming && after.warmup_status.last_error
                == before.warmup_status.last_error
            &&& before.warmup_status.state != WarmupState::Warming ==> after.warmup_status.state
                == WarmupState::Warm && after.warmup_status.last_error is None
        }),
        material.len() == 0 ==> result.0 && after.memory_bulletin@.len() == 0
            && after.warmup_status == before.warmup_status,
        material.len() > 0 ==> (synthesis matches Some(Err(error)) ==> {
            &&& !result.0
            &&& after.memory_bulletin == before.memory_bulletin
            &&& after.warmup_status.last_refresh_unix_ms
                == before.warmup_status.last_refresh_unix_ms
            &&& after.warmup_status.bulletin_age_secs == refresh_age(
                before.warmup_status.last_refresh_unix_ms,
                now,
            )
            &&& after.warmup_status.embedding_ready == before.warmup_status.embedding_ready
            &&& before.warmup_status.state == WarmupState::Warming ==> after.warmup_status.state
                == WarmupState::Warming && after.warmup_status.last_error
                == before.warmup_status.last_error
            &&& before.warmup_status.state != WarmupState::Warming ==> after.warmup_status.state
                == WarmupState::Degraded && (after.warmup_status.last_error matches Some(said)
                && said@ == "bulletin generation failed: "@ + error@)
        }),
{
}

/// What came of a bulletin is recorded: how long it took, and how many words it
/// has and from how many sections it was written, or why it could not be.
pub proof fn law_bulletin_is_recorded(
    before: BulletinBoard,
    after: BulletinBoard,
    material: Seq<char>,
    synthesis: Option<Result<String, String>>,
    duration_ms: u64,
    model: Seq<char>,
    now: i64,
    result: (bool, Option<CortexLog>),
)
    requires
        before.bulletin_outcome(after, Some(material), synthesis, duration_ms, model, now, result),
        material.len() == 0 || synthesis is Some,
    ensures
        result.1 matches Some(log) && {
            let written = material.len() > 0 && synthesis->0 is Ok;
            let failed = material.len() > 0 && synthesis->0 is Err;
            &&& log.event_type@ == if failed {
                "bulletin_failed"@
            } else {
                "bulletin_generated"@
            }
            &&& written ==> {
                let text = synthesis->0->Ok_0@;
                &&& log.details@.len() == 4
                &&& log.details@[0].0@ == "word_count"@
                &&& log.details@[0].1 matches Detail::Count(count) && count == words(
                    text,
                    text.len() as int,
                )
                &&& log.details@[1].0@ == "sections"@
                &&& log.details@[1].1 matches Detail::Count(count) && count == occurrences(
                    "### "@,
                    material,
                    material.len() as int,
                )
                &&& log.details@[2].0@ == "duration_ms"@
                &&& log.details@[2].1 == Detail::Count(duration_ms)
                &&& log.details@[3].0@ == "model"@
                &&& log.details@[3].1 matches Detail::Text(name) && name@ == model
            }
            &&& failed ==> {
                &&& log.details@.len() == 3
                &&& log.details@[0].0@ == "error"@
                &&& log.details@[0].1 matches Detail::Text(said) && said@ == synthesis->0->Err_0@
                &&& log.details@[1].0@ == "duration_ms"@
                &&& log.details@[1].1 == Detail::Count(duration_ms)
                &&& log.details@[2].0@ == "model"@
                &&& log.details@[2].1 matches Detail::Text(name) && name@ == model
            }
            &&& material.len() == 0 ==> {
                &&& log.details@.len() == 4
                &&& log.details@[0].0@ == "word_count"@
                &&& log.details@[0].1 == Detail::Count(0)
                &&& log.details@[1].0@ == "sections"@
                &&& log.details@[1].1 == Detail::Count(0)
                &&& log.details@[2].0@ == "duration_ms"@
                &&& log.details@[2].1 == Detail::Count(duration_ms)
                &&& log.details@[3].0@ == "skipped"@
                &&& log.details@[3].1 == Detail::Flag(true)
            }
        },
{
}

/// Each section but those of recent and of important memories asks for memories of
/// its own type.
pub proof fn law_sections_have_their_types(index: int)
    requires
        0 <= index < 8,
    ensures
        section_type(index) == seq![
            Some(MemoryType::Identity),
            None,
            Some(MemoryType::Decision),
            None,
            Some(MemoryType::Preference),
            Some(MemoryType::Goal),
            Some(MemoryType::Event),
            Some(MemoryType::Observation),
        ][index],
{
}

/// The material of a bulletin holds every section for which memories were found,
/// with its heading and a line for each memory in the order in which they were
/// found, and ends with the tasks. There is none just where everything failed. What
/// stands before the section, its lines and what stands behind it are given back.
pub proof fn law_material_holds_every_memory(
    found: &Vec<Option<Vec<FoundMemory>>>,
    active_tasks: Option<&str>,
    material: Option<String>,
    section: int,
) -> (parts: (Seq<char>, Seq<Seq<char>>, Seq<char>))
    requires
        call_ensures(gather_bulletin_sections, (found, active_tasks), material),
        found@.len() == 8,
        0 <= section < 8,
        found@[section] is Some,
        found@[section]->0@.len() > 0,
    ensures
        parts.1.len() == found@[section]->0@.len(),
        forall|p: int|
            0 <= p < parts.1.len() ==> #[trigger] parts.1[p] == "- ["@
                + found@[section]->0@[p].memory_type@ + "] (importance: "@
                + found@[section]->0@[p].importance@ + ") "@ + first_line(
                found@[section]->0@[p].content@,
            ) + "\n"@,
        material matches Some(output) && output@ == parts.0 + "### "@ + section_label(section)
            + "\n\n"@ + joined(parts.1, Seq::empty()) + "\n"@ + parts.2,
        material matches Some(output) && (active_tasks matches Some(text) ==> output@.len()
            >= text@.len() && output@.skip(output@.len() - text@.len()) == text@),
{
    let (lines, behind) = law_every_memory_has_its_line(found@, section, 8);
    assert(!all_failed(found@, str_view(active_tasks))) by {
        assert(found@[section] is Some);
    }
    let output = material->0@;
    let tasks = match active_tasks {
        Some(text) => text@,
        None => Seq::empty(),
    };
    let before = sections_text(found@, section);
    assert(output =~= before + "### "@ + section_label(section) + "\n\n"@ + joined(
        lines,
        Seq::empty(),
    ) + "\n"@ + (behind + tasks));
    if let Some(text) = active_tasks {
        assert(output.skip(output.len() - text@.len()) =~= text@);
    }
    (before, lines, behind + tasks)
}

/// There is no material just where every search and the tasks failed.
pub proof fn law_no_material_where_all_failed(
    found: &Vec<Option<Vec<FoundMemory>>>,
    active_tasks: Option<&str>,
    material: Option<String>,
)
    requires
        call_ensures(gather_bulletin_sections, (found, active_tasks), material),
    ensures
        material is None <==> active_tasks is None && forall|i: int|
            0 <= i < found@.len() ==> #[trigger] found@[i] is None,
{
}

} // verus!
