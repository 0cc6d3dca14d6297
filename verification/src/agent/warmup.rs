//! Warming up an agent: loading its embedding model and refreshing its memory
//! bulletin before work is handed to it.

use crate::agent::cortex_log::{has_flag, has_text, has_texts, is_log, CortexLog, Detail};
use crate::clock::{now_millis, valid_millis};
use crate::text::{join, joined, views};
use vstd::prelude::*;
use vstd::string::*;

verus! {

/// How an agent is warmed up.
#[derive(Debug, Clone, Copy, PartialEq, Eq, Structural)]
pub struct WarmupConfig {
    pub enabled: bool,
    /// Whether a pass loads the embedding model.
    pub eager_embedding_load: bool,
    /// The seconds between two passes.
    pub refresh_secs: u64,
    /// The seconds before the first pass.
    pub startup_delay_secs: u64,
}

/// How warm an agent is.
#[derive(Debug, Clone, Copy, PartialEq, Eq, Structural)]
pub enum WarmupState {
    Cold,
    Warming,
    Warm,
    Degraded,
}

/// What is known of the warm-up of an agent. The time is in milliseconds since
/// the Unix epoch.
#[derive(Debug, Clone)]
pub struct WarmupStatus {
    pub state: WarmupState,
    pub embedding_ready: bool,
    pub last_refresh_unix_ms: Option<i64>,
    pub last_error: Option<String>,
    pub bulletin_age_secs: Option<u64>,
}

impl Default for WarmupStatus {
    fn default() -> (status: WarmupStatus)
        ensures
            status.state == WarmupState::Cold && !status.embedding_ready,
            status.last_refresh_unix_ms is None && status.last_error is None,
            status.bulletin_age_secs is None,
    {
        WarmupStatus {
            state: WarmupState::Cold,
            embedding_ready: false,
            last_refresh_unix_ms: None,
            last_error: None,
            bulletin_age_secs: None,
        }
    }
}

/// The whole seconds from a time to now, none where the time is not past.
pub open spec fn age_at(refresh_ms: int, now: int) -> int {
    if now > refresh_ms {
        (now - refresh_ms) / 1000
    } else {
        0
    }
}

/// The age of the last refresh, where there was one.
pub open spec fn refresh_age(last_refresh_unix_ms: Option<i64>, now: i64) -> Option<u64> {
    match last_refresh_unix_ms {
        Some(refresh_ms) => Some(age_at(refresh_ms as int, now as int) as u64),
        None => None,
    }
}

/// The age of a bulletin at a time.
pub fn bulletin_age_secs_at(last_refresh_unix_ms: Option<i64>, now: i64) -> (age: Option<u64>)
    ensures
        age == refresh_age(last_refresh_unix_ms, now),
        last_refresh_unix_ms is Some ==> age->0 == age_at(
            last_refresh_unix_ms->0 as int,
            now as int,
        ),
{
    match last_refresh_unix_ms {
        Some(refresh_ms) => if now > refresh_ms {
            Some(((now as i128 - refresh_ms as i128) / 1000) as u64)
        } else {
            Some(0)
        },
        None => None,
    }
}

/// The age of a bulletin.
pub fn bulletin_age_secs(last_refresh_unix_ms: Option<i64>) -> (age: Option<u64>)
    ensures
        exists|now: i64|
            valid_millis(now as int) && age == #[trigger] refresh_age(last_refresh_unix_ms, now),
{
    let now: i64 = now_millis();
    bulletin_age_secs_at(last_refresh_unix_ms, now)
}

/// Whether a warm-up pass runs.
pub fn should_execute_warmup(warmup_config: WarmupConfig, force: bool) -> (run: bool)
    ensures
        run == (warmup_config.enabled || force),
{
    warmup_config.enabled || force
}

/// A number of seconds that is at least one.
pub open spec fn at_least_one(secs: u64) -> u64 {
    if secs < 1 {
        1
    } else {
        secs
    }
}

fn one_at_least(secs: u64) -> (result: u64)
    ensures
        result == at_least_one(secs),
{
    if secs < 1 {
        1
    } else {
        secs
    }
}

/// Whether the loop that keeps the bulletin has to write a new one: always where
/// there is no warm-up; else where the age is unknown, or reaches the time
/// between two passes.
pub open spec fn bulletin_due(config: WarmupConfig, status: WarmupStatus, now: i64) -> bool {
    let age = match refresh_age(status.last_refresh_unix_ms, now) {
        Some(secs) => Some(secs),
        None => status.bulletin_age_secs,
    };
    !config.enabled || match age {
        Some(secs) => secs >= at_least_one(config.refresh_secs),
        None => true,
    }
}

/// Whether the bulletin loop has to write a bulletin at a time.
pub fn should_generate_bulletin_at(warmup_config: WarmupConfig, status: &WarmupStatus, now: i64) -> (due: bool)
    ensures
        due == bulletin_due(warmup_config, *status, now),
{
    if !warmup_config.enabled {
        return true;
    }
    let age_secs = match bulletin_age_secs_at(status.last_refresh_unix_ms, now) {
        Some(secs) => Some(secs),
        None => status.bulletin_age_secs,
    };
    match age_secs {
        Some(secs) => secs >= one_at_least(warmup_config.refresh_secs),
        None => true,
    }
}

/// Whether the bulletin loop has to write a bulletin.
pub fn should_generate_bulletin_from_bulletin_loop(
    warmup_config: WarmupConfig,
    status: &WarmupStatus,
) -> (due: bool)
    ensures
        exists|now: i64|
            valid_millis(now as int) && due == #[trigger] bulletin_due(warmup_config, *status, now),
{
    let now: i64 = now_millis();
    should_generate_bulletin_at(warmup_config, status, now)
}

/// Whether an agent was warmed up and is warm.
pub open spec fn warmed_up(status: WarmupStatus) -> bool {
    status.last_refresh_unix_ms is Some && status.state == WarmupState::Warm
}

/// Whether the first warm-up pass is done.
pub fn has_completed_initial_warmup(status: &WarmupStatus) -> (done: bool)
    ensures
        done == warmed_up(*status),
{
    status.last_refresh_unix_ms.is_some() && status.state == WarmupState::Warm
}

pub open spec fn flag_word(flag: bool) -> Seq<char> {
    if flag {
        "true"@
    } else {
        "false"@
    }
}

/// What a pass that was cut off says of itself.
pub open spec fn cancelled_error(reason: Seq<char>, force: bool) -> Seq<char> {
    "warmup cancelled before completion (reason: "@ + reason + ", forced: "@ + flag_word(force)
        + ")"@
}

/// What a cancelled pass leaves behind: a state between two others is demoted,
/// any other is kept.
pub open spec fn is_cancelled_from(
    before: WarmupStatus,
    reason: Seq<char>,
    force: bool,
    now: i64,
    after: WarmupStatus,
) -> bool {
    if before.state == WarmupState::Warming {
        &&& after.state == WarmupState::Degraded
        &&& after.last_error is Some
        &&& after.last_error->0@ == cancelled_error(reason, force)
        &&& after.bulletin_age_secs == refresh_age(before.last_refresh_unix_ms, now)
        &&& after.embedding_ready == before.embedding_ready
        &&& after.last_refresh_unix_ms == before.last_refresh_unix_ms
    } else {
        after == before
    }
}

/// Demotes the status of a pass that ended at a time without a result.
pub fn apply_cancelled_warmup_status_at(
    status: &mut WarmupStatus,
    reason: &str,
    force: bool,
    now: i64,
) -> (demoted: bool)
    ensures
        demoted == (old(status).state == WarmupState::Warming),
        is_cancelled_from(*old(status), reason@, force, now, *final(status)),
{
    if status.state != WarmupState::Warming {
        return false;
    }
    status.state = WarmupState::Degraded;
    let word = if force {
        "true"
    } else {
        "false"
    };
    status.last_error = Some(
        "warmup cancelled before completion (reason: ".to_owned().concat(reason).concat(
            ", forced: ",
        ).concat(word).concat(")"),
    );
    status.bulletin_age_secs = bulletin_age_secs_at(status.last_refresh_unix_ms, now);
    true
}

/// Demotes the status of a pass that ended without a result.
pub fn apply_cancelled_warmup_status(status: &mut WarmupStatus, reason: &str, force: bool) -> (demoted: bool)
    ensures
        demoted == (old(status).state == WarmupState::Warming),
        exists|now: i64|
            valid_millis(now as int) && #[trigger] is_cancelled_from(
                *old(status),
                reason@,
                force,
                now,
                *final(status),
            ),
{
    let now: i64 = now_millis();
    apply_cancelled_warmup_status_at(status, reason, force, now)
}

/// A warm-up pass under way. Where it ends before its result is recorded, it is
/// taken for cancelled.
pub struct WarmupRunGuard {
    pub reason: String,
    pub force: bool,
    pub committed: bool,
}

impl WarmupRunGuard {
    pub fn new(reason: String, force: bool) -> (guard: WarmupRunGuard)
        ensures
            guard == (WarmupRunGuard { reason, force, committed: false }),
    {
        WarmupRunGuard { reason, force, committed: false }
    }

    /// The result of the pass is recorded.
    pub fn mark_committed(&mut self)
        ensures
            *final(self) == (WarmupRunGuard { committed: true, ..*old(self) }),
    {
        self.committed = true;
    }

    /// The pass is over, at a time.
    pub fn release(&self, status: &mut WarmupStatus, now: i64) -> (demoted: bool)
        ensures
            demoted == (!self.committed && old(status).state == WarmupState::Warming),
            if self.committed {
                *final(status) == *old(status)
            } else {
                is_cancelled_from(*old(status), self.reason@, self.force, now, *final(status))
            },
    {
        if self.committed {
            return false;
        }
        apply_cancelled_warmup_status_at(status, self.reason.as_str(), self.force, now)
    }
}

/// What the bulletin loop's attempt at a bulletin came to.
#[derive(Debug, Clone, Copy, PartialEq, Eq, Structural)]
pub enum BulletinRefreshOutcome {
    Generated,
    SkippedFresh,
    Failed,
}

impl BulletinRefreshOutcome {
    /// Whether there is a bulletin that is fresh.
    pub fn is_success(self) -> (success: bool)
        ensures
            success == (self != BulletinRefreshOutcome::Failed),
    {
        self != BulletinRefreshOutcome::Failed
    }

    /// Whether a bulletin was written.
    pub fn generated(self) -> (generated: bool)
        ensures
            generated == (self == BulletinRefreshOutcome::Generated),
    {
        self == BulletinRefreshOutcome::Generated
    }
}

/// What an attempt at a bulletin comes to: none where it is not due, else
/// what writing one gave.
pub fn bulletin_refresh_outcome(
    warmup_config: WarmupConfig,
    status: &WarmupStatus,
    now: i64,
    written: bool,
) -> (outcome: BulletinRefreshOutcome)
    ensures
        outcome == if !bulletin_due(warmup_config, *status, now) {
            BulletinRefreshOutcome::SkippedFresh
        } else if written {
            BulletinRefreshOutcome::Generated
        } else {
            BulletinRefreshOutcome::Failed
        },
{
    if should_generate_bulletin_at(warmup_config, status, now) {
        if written {
            BulletinRefreshOutcome::Generated
        } else {
            BulletinRefreshOutcome::Failed
        }
    } else {
        BulletinRefreshOutcome::SkippedFresh
    }
}

/// Marks an agent cold: no warm-up is wanted.
pub fn cool_down(status: &mut WarmupStatus, now: i64)
    ensures
        *final(status) == (WarmupStatus {
            state: WarmupState::Cold,
            bulletin_age_secs: refresh_age(old(status).last_refresh_unix_ms, now),
            ..*old(status)
        }),
{
    status.state = WarmupState::Cold;
    status.bulletin_age_secs = bulletin_age_secs_at(status.last_refresh_unix_ms, now);
}

/// Starts a warm-up pass at a time. Where none is wanted the agent is cold.
pub fn begin_warmup(
    status: &mut WarmupStatus,
    warmup_config: WarmupConfig,
    reason: String,
    force: bool,
    now: i64,
) -> (guard: Option<WarmupRunGuard>)
    ensures
        match guard {
            Some(run) => {
                &&& warmup_config.enabled || force
                &&& run == (WarmupRunGuard { reason, force, committed: false })
                &&& *final(status) == (WarmupStatus {
                    state: WarmupState::Warming,
                    last_error: None,
                    bulletin_age_secs: refresh_age(old(status).last_refresh_unix_ms, now),
                    ..*old(status)
                })
            },
            None => {
                &&& !warmup_config.enabled && !force
                &&& *final(status) == (WarmupStatus {
                    state: WarmupState::Cold,
                    bulletin_age_secs: refresh_age(old(status).last_refresh_unix_ms, now),
                    ..*old(status)
                })
            },
        },
{
    if !should_execute_warmup(warmup_config, force) {
        cool_down(status, now);
        return None;
    }
    status.state = WarmupState::Warming;
    status.last_error = None;
    status.bulletin_age_secs = bulletin_age_secs_at(status.last_refresh_unix_ms, now);
    Some(WarmupRunGuard::new(reason, force))
}

/// Whether the embedding model was loaded.
pub open spec fn embedding_loaded(embedding: Option<Result<(), String>>) -> bool {
    embedding matches Some(Ok(_))
}

/// What went wrong in a pass.
pub open spec fn pass_errors(embedding: Option<Result<(), String>>, bulletin_ok: bool) -> Seq<
    Seq<char>,
> {
    (match embedding {
        Some(Err(error)) => seq!["embedding warmup failed: "@ + error@],
        _ => Seq::empty(),
    }) + if bulletin_ok {
        Seq::empty()
    } else {
        seq!["bulletin generation failed"@]
    }
}

/// Records the result of a pass: what loading the embedding model gave, where it
/// was loaded, and whether there is a bulletin. Gives what is logged of it.
pub fn finish_warmup(
    status: &mut WarmupStatus,
    guard: &mut WarmupRunGuard,
    embedding: Option<Result<(), String>>,
    bulletin_ok: bool,
    now: i64,
) -> (log: CortexLog)
    ensures
        *final(guard) == (WarmupRunGuard { committed: true, ..*old(guard) }),
        ({
            let loaded = embedding_loaded(embedding);
            let errors = pass_errors(embedding, bulletin_ok);
            &&& final(status).embedding_ready == (loaded || old(status).embedding_ready)
            &&& if errors.len() == 0 {
                &&& final(status).state == WarmupState::Warm
                &&& final(status).last_refresh_unix_ms == Some(now)
                &&& final(status).last_error is None
                &&& final(status).bulletin_age_secs == Some(0u64)
                &&& is_log(log, "warmup_succeeded"@, "Warmup pass completed"@, 3)
                &&& has_text(log, 0, "reason"@, old(guard).reason@)
                &&& has_flag(log, 1, "embedding_ready"@, loaded)
                &&& has_flag(log, 2, "forced"@, old(guard).force)
            } else {
                &&& final(status).state == WarmupState::Degraded
                &&& final(status).last_refresh_unix_ms == old(status).last_refresh_unix_ms
                &&& final(status).last_error is Some
                &&& final(status).last_error->0@ == joined(errors, "; "@)
                &&& final(status).bulletin_age_secs == refresh_age(
                    old(status).last_refresh_unix_ms,
                    now,
                )
                &&& is_log(log, "warmup_failed"@, "Warmup pass failed"@, 3)
                &&& has_text(log, 0, "reason"@, old(guard).reason@)
                &&& has_texts(log, 1, "errors"@, errors)
                &&& has_flag(log, 2, "forced"@, old(guard).force)
            }
        }),
{
    let mut errors: Vec<String> = Vec::new();
    let mut embedding_ready = false;
    match &embedding {
        Some(Ok(_)) => {
            embedding_ready = true;
        },
        Some(Err(error)) => {
            errors.push("embedding warmup failed: ".to_owned().concat(error.as_str()));
        },
        None => {},
    }
    if !bulletin_ok {
        errors.push("bulletin generation failed".to_owned());
    }
    assert(views(errors@) =~= pass_errors(embedding, bulletin_ok));
    status.embedding_ready = embedding_ready || status.embedding_ready;
    guard.mark_committed();
    let mut details: Vec<(String, Detail)> = Vec::new();
    details.push(("reason".to_owned(), Detail::Text(guard.reason.clone())));
    if errors.len() == 0 {
        status.state = WarmupState::Warm;
        status.last_refresh_unix_ms = Some(now);
        status.last_error = None;
        status.bulletin_age_secs = Some(0);
        details.push(("embedding_ready".to_owned(), Detail::Flag(embedding_ready)));
        details.push(("forced".to_owned(), Detail::Flag(guard.force)));
        CortexLog {
            event_type: "warmup_succeeded".to_owned(),
            summary: "Warmup pass completed".to_owned(),
            details,
        }
    } else {
        status.state = WarmupState::Degraded;
        status.last_error = Some(join(&errors, "; "));
        status.bulletin_age_secs = bulletin_age_secs_at(status.last_refresh_unix_ms, now);
        details.push(("errors".to_owned(), Detail::Texts(errors)));
        details.push(("forced".to_owned(), Detail::Flag(guard.force)));
        CortexLog {
            event_type: "warmup_failed".to_owned(),
            summary: "Warmup pass failed".to_owned(),
            details,
        }
    }
}

/// The reason of a warm-up that a kind of dispatch asks for.
pub fn forced_warmup_reason(dispatch_type: &str) -> (reason: String)
    ensures
        reason@ == "dispatch_"@ + dispatch_type@,
{
    "dispatch_".to_owned().concat(dispatch_type)
}

/// The seconds that the warm-up loop waits where warm-up is off.
pub const DISABLED_WAIT_SECS: u64 = 10;

/// The loop that warms an agent up again and again.
#[derive(Debug, Clone, Copy, PartialEq, Eq, Structural)]
pub struct WarmupLoop {
    pub completed_initial_pass: bool,
}

/// How long the loop waits, and what it does then.
#[derive(Debug, Clone, Copy, PartialEq, Eq, Structural)]
pub enum WarmupWait {
    /// Warm-up is off: look again after so many seconds.
    Idle(u64),
    /// A pass is due after so many seconds.
    Pass(u64),
}

impl WarmupLoop {
    pub fn start(status: &WarmupStatus) -> (state: WarmupLoop)
        ensures
            state.completed_initial_pass == warmed_up(*status),
    {
        WarmupLoop { completed_initial_pass: has_completed_initial_warmup(status) }
    }

    /// Decides how long to wait.
    pub fn next_wait(&mut self, warmup_config: WarmupConfig, status: &mut WarmupStatus, now: i64) -> (wait: WarmupWait)
        ensures
            if !warmup_config.enabled {
                &&& wait == WarmupWait::Idle(DISABLED_WAIT_SECS)
                &&& !final(self).completed_initial_pass
                &&& *final(status) == (WarmupStatus {
                    state: WarmupState::Cold,
                    bulletin_age_secs: refresh_age(old(status).last_refresh_unix_ms, now),
                    ..*old(status)
                })
            } else {
                &&& *final(status) == *old(status)
                &&& final(self).completed_initial_pass == (old(self).completed_initial_pass
                    || warmed_up(*old(status)))
                &&& wait == WarmupWait::Pass(
                    at_least_one(
                        if final(self).completed_initial_pass {
                            warmup_config.refresh_secs
                        } else {
                            warmup_config.startup_delay_secs
                        },
                    ),
                )
            },
    {
        if !warmup_config.enabled {
            cool_down(status, now);
            self.completed_initial_pass = false;
            return WarmupWait::Idle(DISABLED_WAIT_SECS);
        }
        if !self.completed_initial_pass {
            self.completed_initial_pass = has_completed_initial_warmup(status);
        }
        if self.completed_initial_pass {
            WarmupWait::Pass(one_at_least(warmup_config.refresh_secs))
        } else {
            WarmupWait::Pass(one_at_least(warmup_config.startup_delay_secs))
        }
    }

    /// The wait is over. Gives the reason of the pass to run, where one is: a
    /// first pass is left out where somebody else ran it meanwhile.
    pub fn after_wait(&mut self, status: &WarmupStatus) -> (reason: Option<&'static str>)
        ensures
            if old(self).completed_initial_pass {
                &&& reason is Some && reason->0@ == "scheduled"@
                &&& final(self).completed_initial_pass
            } else if warmed_up(*status) {
                reason is None && final(self).completed_initial_pass
            } else {
                &&& reason is Some && reason->0@ == "startup"@
                &&& final(self).completed_initial_pass
            },
    {
        if self.completed_initial_pass {
            return Some("scheduled");
        }
        let done = has_completed_initial_warmup(status);
        self.completed_initial_pass = true;
        if done {
            None
        } else {
            Some("startup")
        }
    }
}

/// A cancelled pass never overrides a state that another pass ended in.
pub proof fn law_cancelled_keeps_terminal_state(
    before: WarmupStatus,
    reason: Seq<char>,
    force: bool,
    now: i64,
    after: WarmupStatus,
)
    requires
        is_cancelled_from(before, reason, force, now, after),
        before.state != WarmupState::Warming,
    ensures
        after == before,
{
}

/// However a pass ends, it is not left under way.
pub proof fn law_no_pass_stays_under_way(
    before: WarmupStatus,
    reason: Seq<char>,
    force: bool,
    now: i64,
    after: WarmupStatus,
)
    requires
        is_cancelled_from(before, reason, force, now, after),
    ensures
        after.state != WarmupState::Warming,
        before.state == WarmupState::Warming ==> after.state == WarmupState::Degraded,
{
}

/// A bulletin of an age stays due as it grows older.
pub proof fn law_due_bulletin_stays_due(config: WarmupConfig, status: WarmupStatus, now: i64, later: i64)
    requires
        bulletin_due(config, status, now),
        now <= later,
    ensures
        bulletin_due(config, status, later),
{
    match status.last_refresh_unix_ms {
        Some(refresh_ms) => {
            assert(age_at(refresh_ms as int, now as int) <= age_at(refresh_ms as int, later as int));
        },
        None => {},
    }
}

/// The age of a refresh is the whole seconds that went by since, and none before it.
pub proof fn law_age_is_in_whole_seconds(refresh_ms: i64, seconds: int, rest: int, now: i64)
    requires
        0 <= seconds,
        0 <= rest < 1000,
        now == refresh_ms + 1000 * seconds + rest,
    ensures
        refresh_age(Some(refresh_ms), now) matches Some(age) && age == seconds,
        refresh_age(None, now) is None,
        seconds > 0 ==> refresh_age(Some(now), refresh_ms) == Some(0u64),
{
    assert((1000 * seconds + rest) / 1000 == seconds);
    if seconds == 0 && rest == 0 {
        assert(age_at(refresh_ms as int, now as int) == 0);
    }
}

/// With warm-up on, a bulletin is written again just where its age is unknown or has
/// reached the time between two passes, of which one second is the least; with
/// warm-up off it always is.
pub proof fn law_fresh_bulletin_is_kept(
    config: WarmupConfig,
    status: WarmupStatus,
    refresh_ms: i64,
    seconds: int,
    now: i64,
)
    requires
        status.last_refresh_unix_ms == Some(refresh_ms),
        0 <= seconds,
        now == refresh_ms + 1000 * seconds,
    ensures
        !config.enabled ==> bulletin_due(config, status, now),
        config.enabled && config.refresh_secs > 0 ==> (bulletin_due(config, status, now) <==> seconds
            >= config.refresh_secs),
        config.enabled && config.refresh_secs == 0 ==> (bulletin_due(config, status, now) <==> seconds
            >= 1),
{
    law_age_is_in_whole_seconds(refresh_ms, seconds, 0, now);
}

/// A bulletin that was never refreshed goes by the age that is noted, and is due
/// where none is.
pub proof fn law_noted_age_counts(config: WarmupConfig, status: WarmupStatus, now: i64)
    requires
        config.enabled,
        status.last_refresh_unix_ms is None,
    ensures
        status.bulletin_age_secs is None ==> bulletin_due(config, status, now),
        status.bulletin_age_secs matches Some(secs) ==> config.refresh_secs > 0 ==> (bulletin_due(
            config,
            status,
            now,
        ) <==> secs >= config.refresh_secs),
{
}

/// A pass that was cut off leaves the agent degraded, says why and whether it was
/// forced, and keeps what was known.
pub proof fn law_cancelled_pass_says_why(
    before: WarmupStatus,
    reason: Seq<char>,
    force: bool,
    now: i64,
    after: WarmupStatus,
)
    requires
        is_cancelled_from(before, reason, force, now, after),
        before.state == WarmupState::Warming,
    ensures
        after.state == WarmupState::Degraded,
        after.last_error matches Some(error) && error@
            == "warmup cancelled before completion (reason: "@ + reason + (if force {
            ", forced: true)"@
        } else {
            ", forced: false)"@
        }),
        after.embedding_ready == before.embedding_ready,
        after.last_refresh_unix_ms == before.last_refresh_unix_ms,
        after.bulletin_age_secs == refresh_age(before.last_refresh_unix_ms, now),
{
    reveal_strlit(", forced: ");
    reveal_strlit("true");
    reveal_strlit("false");
    reveal_strlit(")");
    reveal_strlit(", forced: true)");
    reveal_strlit(", forced: false)");
    let start = "warmup cancelled before completion (reason: "@ + reason;
    if force {
        assert(cancelled_error(reason, force) =~= start + ", forced: true)"@);
    } else {
        assert(cancelled_error(reason, force) =~= start + ", forced: false)"@);
    }
}

/// A pass has no errors just where the embedding did not fail and the bulletin was
/// written; each of the two that went wrong is named, the embedding first.
pub proof fn law_every_error_of_a_pass_is_named(
    embedding: Option<Result<(), String>>,
    bulletin_ok: bool,
)
    ensures
        ({
            let errors = pass_errors(embedding, bulletin_ok);
            let failed = embedding matches Some(Err(_));
            &&& errors.len() == 0 <==> !failed && bulletin_ok
            &&& embedding matches Some(Err(error)) ==> errors[0] == "embedding warmup failed: "@
                + error@
            &&& !bulletin_ok ==> errors.last() == "bulletin generation failed"@
            &&& errors.len() == (if failed {
                1int
            } else {
                0
            }) + (if bulletin_ok {
                0int
            } else {
                1
            })
            &&& embedding_loaded(embedding) <==> embedding is Some && !failed
        }),
{
}

} // verus!
