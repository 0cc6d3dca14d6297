//! The profile card of an agent.

use crate::agent::cortex_log::{
    has_count, has_option, has_text, is_log, option_detail, CortexLog, Detail,
};
use crate::clock::{rfc3339_text, utc_rfc3339, Timestamp};
use crate::text::{decimal, u64_text, view_of};
use vstd::prelude::*;
use vstd::string::*;

verus! {

/// Persisted agent profile generated by the cortex.
#[derive(Debug, Clone)]
pub struct AgentProfile {
    pub agent_id: String,
    pub display_name: Option<String>,
    pub status: Option<String>,
    pub bio: Option<String>,
    pub avatar_seed: Option<String>,
    pub generated_at: String,
    pub updated_at: String,
}

/// A row of the table of profiles.
#[derive(Debug, Clone)]
pub struct AgentProfileRow {
    pub agent_id: String,
    pub display_name: Option<String>,
    pub status: Option<String>,
    pub bio: Option<String>,
    pub avatar_seed: Option<String>,
    pub generated_at: Timestamp,
    pub updated_at: Timestamp,
}

impl AgentProfileRow {
    /// The profile of a row.
    pub fn into_profile(self) -> (profile: AgentProfile)
        requires
            self.generated_at.valid(),
            self.updated_at.valid(),
        ensures
            profile.agent_id == self.agent_id,
            profile.display_name == self.display_name,
            profile.status == self.status,
            profile.bio == self.bio,
            profile.avatar_seed == self.avatar_seed,
            profile.generated_at@ == utc_rfc3339(
                self.generated_at.seconds as int,
                self.generated_at.nanos as int,
            ),
            profile.updated_at@ == utc_rfc3339(
                self.updated_at.seconds as int,
                self.updated_at.nanos as int,
            ),
    {
        AgentProfile {
            agent_id: self.agent_id,
            display_name: self.display_name,
            status: self.status,
            bio: self.bio,
            avatar_seed: self.avatar_seed,
            generated_at: rfc3339_text(self.generated_at),
            updated_at: rfc3339_text(self.updated_at),
        }
    }
}

/// A text that a prompt is given: none where it is empty.
pub fn empty_to_none(text: String) -> (result: Option<String>)
    ensures
        result == if text@.len() == 0 {
            None
        } else {
            Some(text)
        },
{
    if text.as_str().is_empty() {
        None
    } else {
        Some(text)
    }
}

pub open spec fn text_or_else(text: Option<String>, otherwise: Seq<char>) -> Seq<char> {
    match view_of(text) {
        Some(value) => value,
        None => otherwise,
    }
}

/// What the cortex records of a profile that it wrote.
pub fn profile_generated(
    display_name: &Option<String>,
    status: &Option<String>,
    duration_ms: u64,
    model: &str,
) -> (log: CortexLog)
    ensures
        is_log(
            log,
            "profile_generated"@,
            "Profile generated: "@ + text_or_else(*display_name, "unnamed"@) + " — \""@
                + text_or_else(*status, "no status"@) + "\" ("@ + decimal(duration_ms as int)
                + "ms)"@,
            4,
        ),
        has_option(log, 0, "display_name"@, view_of(*display_name)),
        has_option(log, 1, "status"@, view_of(*status)),
        has_count(log, 2, "duration_ms"@, duration_ms as int),
        has_text(log, 3, "model"@, model@),
{
    let name = match display_name {
        Some(value) => value.as_str(),
        None => "unnamed",
    };
    let line = match status {
        Some(value) => value.as_str(),
        None => "no status",
    };
    let summary = "Profile generated: ".to_owned().concat(name).concat(" — \"").concat(line).concat(
        "\" (",
    ).concat(u64_text(duration_ms).as_str()).concat("ms)");
    let mut details: Vec<(String, Detail)> = Vec::new();
    details.push(("display_name".to_owned(), option_detail(display_name)));
    details.push(("status".to_owned(), option_detail(status)));
    details.push(("duration_ms".to_owned(), Detail::Count(duration_ms)));
    details.push(("model".to_owned(), Detail::Text(model.to_owned())));
    CortexLog { event_type: "profile_generated".to_owned(), summary, details }
}

/// What the cortex records of a profile that it could not write.
pub fn profile_failed(error: &str, duration_ms: u64, model: &str) -> (log: CortexLog)
    ensures
        is_log(
            log,
            "profile_failed"@,
            "Profile generation failed after "@ + decimal(duration_ms as int) + "ms: "@ + error@,
            3,
        ),
        has_text(log, 0, "error"@, error@),
        has_count(log, 1, "duration_ms"@, duration_ms as int),
        has_text(log, 2, "model"@, model@),
{
    let summary = "Profile generation failed after ".to_owned().concat(
        u64_text(duration_ms).as_str(),
    ).concat("ms: ").concat(error);
    let mut details: Vec<(String, Detail)> = Vec::new();
    details.push(("error".to_owned(), Detail::Text(error.to_owned())));
    details.push(("duration_ms".to_owned(), Detail::Count(duration_ms)));
    details.push(("model".to_owned(), Detail::Text(model.to_owned())));
    CortexLog { event_type: "profile_failed".to_owned(), summary, details }
}

} // verus!
