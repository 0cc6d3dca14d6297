//! Bindings between agents and platform channels, as `[[bindings]]` tables.

use crate::api::error::ApiError;
use crate::text::{clone_option, text_eq, view_of, views, non_empty};
use crate::toml_doc::{
    child_table, child_tables, child_tables_mut, document_entries, document_layout, document_text,
    document_trailing, ensure_child_table, ensure_child_tables, has_text, node_at, parse_document,
    parsed_entries, parsed_toml, printed, prints_edit, root_is_table, section_entries, set_flag,
    set_text, set_text_if, set_texts_if, set_texts_or_remove, table_entries, table_layout,
    tables_layout, tables_of, text_at, with_text, with_texts, with_texts_or_none, Entries, TomlNode,
};
use crate::toml_layout::{
    edited, grown, inner_kept_but, kept_but, layout_at, lemma_edited_further, lemma_kept_is_edited,
    like_layout, no_key, one_edited, only, section_layout, sections_layout, TableLayout,
};
use toml_edit::{DocumentMut, Table};
use vstd::prelude::*;

verus! {

/// Credentials that may come with a new binding.
#[derive(Clone, Debug)]
pub struct PlatformCredentials {
    pub discord_token: Option<String>,
    pub slack_bot_token: Option<String>,
    pub slack_app_token: Option<String>,
    pub telegram_token: Option<String>,
    pub twitch_username: Option<String>,
    pub twitch_oauth_token: Option<String>,
}

/// A binding to be created.
#[derive(Clone, Debug)]
pub struct CreateBindingRequest {
    pub agent_id: String,
    pub channel: String,
    pub guild_id: Option<String>,
    pub workspace_id: Option<String>,
    pub chat_id: Option<String>,
    pub channel_ids: Vec<String>,
    pub require_mention: bool,
    pub dm_allowed_users: Vec<String>,
    pub platform_credentials: Option<PlatformCredentials>,
}

/// A binding to be deleted, by what identifies it.
#[derive(Clone, Debug)]
pub struct DeleteBindingRequest {
    pub agent_id: String,
    pub channel: String,
    pub guild_id: Option<String>,
    pub workspace_id: Option<String>,
    pub chat_id: Option<String>,
}

/// A binding to be changed, by what identifies it, and what it becomes.
#[derive(Clone, Debug)]
pub struct UpdateBindingRequest {
    pub original_agent_id: String,
    pub original_channel: String,
    pub original_guild_id: Option<String>,
    pub original_workspace_id: Option<String>,
    pub original_chat_id: Option<String>,
    pub agent_id: String,
    pub channel: String,
    pub guild_id: Option<String>,
    pub workspace_id: Option<String>,
    pub chat_id: Option<String>,
    pub channel_ids: Vec<String>,
    pub require_mention: bool,
    pub dm_allowed_users: Vec<String>,
}

/// The credentials that a request brought and that were written.
#[derive(Clone, Debug)]
pub struct NewCredentials {
    pub discord_token: Option<String>,
    pub slack_tokens: Option<(String, String)>,
    pub telegram_token: Option<String>,
    pub twitch_creds: Option<(String, String)>,
}

/// What the creation of a binding writes.
pub struct CreatedBinding {
    pub content: String,
    pub credentials: NewCredentials,
    pub response: CreateBindingResponse,
}

#[derive(Clone, Debug)]
pub struct CreateBindingResponse {
    pub success: bool,
    pub restart_required: bool,
    pub message: String,
}

/// The new content of the configuration, where there is one, and the answer.
#[derive(Clone, Debug)]
pub struct BindingChange {
    pub content: Option<String>,
    pub success: bool,
    pub message: String,
}

/// A binding as the API lists it.
#[derive(Clone, Debug)]
pub struct BindingResponse {
    pub agent_id: String,
    pub channel: String,
    pub guild_id: Option<String>,
    pub workspace_id: Option<String>,
    pub chat_id: Option<String>,
    pub channel_ids: Vec<String>,
    pub require_mention: bool,
    pub dm_allowed_users: Vec<String>,
}

/// What to do with an adapter after the configuration was reloaded.
#[derive(Debug, Clone, Copy, PartialEq, Eq, Structural)]
pub enum HotReloadDisposition {
    NoCredentials,
    Start,
    MissingConfig,
}

/// Starts an adapter only where new credentials came and its section is there.
pub fn hot_reload_disposition(
    _platform: &str,
    has_credentials: bool,
    has_config: bool,
) -> (disposition: HotReloadDisposition)
    ensures
        disposition == if !has_credentials {
            HotReloadDisposition::NoCredentials
        } else if has_config {
            HotReloadDisposition::Start
        } else {
            HotReloadDisposition::MissingConfig
        },
{
    match (has_credentials, has_config) {
        (false, _) => HotReloadDisposition::NoCredentials,
        (true, true) => HotReloadDisposition::Start,
        (true, false) => HotReloadDisposition::MissingConfig,
    }
}

/// What identifies a binding.
pub struct BindingIdentity {
    pub agent_id: Seq<char>,
    pub channel: Seq<char>,
    pub guild_id: Option<Seq<char>>,
    pub workspace_id: Option<Seq<char>>,
    pub chat_id: Option<Seq<char>>,
}

/// Whether an optional identifier is the one in the table. One that is not
/// given matches only where the table has no such key.
pub open spec fn identifier_matches(table: Entries, key: Seq<char>, wanted: Option<Seq<char>>) -> bool {
    match wanted {
        Some(value) => text_at(table, key) == Some(value),
        None => !table.contains_key(key),
    }
}

/// Whether a table is the binding with this identity.
pub open spec fn is_binding(table: Entries, identity: BindingIdentity) -> bool {
    &&& text_at(table, "agent_id"@) == Some(identity.agent_id)
    &&& text_at(table, "channel"@) == Some(identity.channel)
    &&& identifier_matches(table, "guild_id"@, identity.guild_id)
    &&& identifier_matches(table, "workspace_id"@, identity.workspace_id)
    &&& identifier_matches(table, "chat_id"@, identity.chat_id)
}

/// The position of the first binding with this identity, from `from` on.
pub open spec fn first_binding(tables: Seq<TomlNode>, from: int, identity: BindingIdentity) -> Option<int>
    decreases tables.len() - from,
{
    if from < 0 || from >= tables.len() {
        None
    } else if is_binding(section_entries(tables[from]), identity) {
        Some(from)
    } else {
        first_binding(tables, from + 1, identity)
    }
}

impl CreateBindingRequest {
    /// What identifies the new binding.
    pub open spec fn identity(self) -> BindingIdentity {
        BindingIdentity {
            agent_id: self.agent_id@,
            channel: self.channel@,
            guild_id: view_of(self.guild_id),
            workspace_id: view_of(self.workspace_id),
            chat_id: view_of(self.chat_id),
        }
    }

    /// The table of the new binding.
    pub open spec fn table(self) -> Entries {
        let named = Map::<Seq<char>, TomlNode>::empty().insert(
            "agent_id"@,
            TomlNode::Text(self.agent_id@),
        ).insert("channel"@, TomlNode::Text(self.channel@));
        let with_guild = with_text(named, "guild_id"@, view_of(self.guild_id));
        let with_workspace = with_text(with_guild, "workspace_id"@, view_of(self.workspace_id));
        let with_chat = with_text(with_workspace, "chat_id"@, view_of(self.chat_id));
        let with_channels = with_texts(with_chat, "channel_ids"@, views(self.channel_ids@));
        let with_mention = if self.require_mention {
            with_channels.insert("require_mention"@, TomlNode::Flag(true))
        } else {
            with_channels
        };
        with_texts(with_mention, "dm_allowed_users"@, views(self.dm_allowed_users@))
    }
}

impl DeleteBindingRequest {
    pub open spec fn identity(self) -> BindingIdentity {
        BindingIdentity {
            agent_id: self.agent_id@,
            channel: self.channel@,
            guild_id: view_of(self.guild_id),
            workspace_id: view_of(self.workspace_id),
            chat_id: view_of(self.chat_id),
        }
    }
}

impl UpdateBindingRequest {
    /// What identifies the binding before the change.
    pub open spec fn original_identity(self) -> BindingIdentity {
        BindingIdentity {
            agent_id: self.original_agent_id@,
            channel: self.original_channel@,
            guild_id: view_of(self.original_guild_id),
            workspace_id: view_of(self.original_workspace_id),
            chat_id: view_of(self.original_chat_id),
        }
    }

    /// What identifies the binding after the change: an empty identifier counts
    /// as none.
    pub open spec fn identity(self) -> BindingIdentity {
        BindingIdentity {
            agent_id: self.agent_id@,
            channel: self.channel@,
            guild_id: non_empty(view_of(self.guild_id)),
            workspace_id: non_empty(view_of(self.workspace_id)),
            chat_id: non_empty(view_of(self.chat_id)),
        }
    }

    /// The table of the binding after the change.
    pub open spec fn changed(self, table: Entries) -> Entries {
        let named = table.insert("agent_id"@, TomlNode::Text(self.agent_id@)).insert(
            "channel"@,
            TomlNode::Text(self.channel@),
        );
        let cleared = named.remove("guild_id"@).remove("workspace_id"@).remove("chat_id"@);
        let with_guild = with_text(cleared, "guild_id"@, non_empty(view_of(self.guild_id)));
        let with_workspace = with_text(
            with_guild,
            "workspace_id"@,
            non_empty(view_of(self.workspace_id)),
        );
        let with_chat = with_text(with_workspace, "chat_id"@, non_empty(view_of(self.chat_id)));
        let with_channels = with_texts_or_none(with_chat, "channel_ids"@, views(self.channel_ids@));
        let with_mention = if self.require_mention {
            with_channels.insert("require_mention"@, TomlNode::Flag(true))
        } else {
            with_channels.remove("require_mention"@)
        };
        with_texts_or_none(with_mention, "dm_allowed_users"@, views(self.dm_allowed_users@))
    }
}

/// Both texts, where both are there and neither is empty.
pub open spec fn both_given(
    first: Option<Seq<char>>,
    second: Option<Seq<char>>,
) -> Option<(Seq<char>, Seq<char>)> {
    match (non_empty(first), non_empty(second)) {
        (Some(a), Some(b)) => Some((a, b)),
        _ => None,
    }
}

/// Enables a platform and sets its credentials, in `[messaging.<platform>]`.
/// `None` where `messaging` or the platform's key holds something other than a
/// table.
pub open spec fn with_credentials(
    root: Entries,
    platform: Seq<char>,
    first: (Seq<char>, Seq<char>),
    second: Option<(Seq<char>, Seq<char>)>,
) -> Option<Entries> {
    match child_table(root, "messaging"@) {
        None => None,
        Some(messaging) => match child_table(messaging, platform) {
            None => None,
            Some(section) => {
                let enabled = section.insert("enabled"@, TomlNode::Flag(true));
                let keyed = enabled.insert(first.0, TomlNode::Text(first.1));
                let full = match second {
                    Some(pair) => keyed.insert(pair.0, TomlNode::Text(pair.1)),
                    None => keyed,
                };
                Some(
                    root.insert(
                        "messaging"@,
                        TomlNode::Section(messaging.insert(platform, TomlNode::Section(full))),
                    ),
                )
            },
        },
    }
}

/// The token credential of a platform, where one is given.
pub open spec fn with_token(root: Option<Entries>, platform: Seq<char>, token: Option<Seq<char>>) -> Option<Entries> {
    match (root, non_empty(token)) {
        (Some(entries), Some(value)) => with_credentials(entries, platform, ("token"@, value), None),
        _ => root,
    }
}

/// The paired credentials of a platform, where both are given.
pub open spec fn with_pair(
    root: Option<Entries>,
    platform: Seq<char>,
    keys: (Seq<char>, Seq<char>),
    pair: Option<(Seq<char>, Seq<char>)>,
) -> Option<Entries> {
    match (root, pair) {
        (Some(entries), Some(values)) => with_credentials(
            entries,
            platform,
            (keys.0, values.0),
            Some((keys.1, values.1)),
        ),
        _ => root,
    }
}

impl PlatformCredentials {
    pub open spec fn slack(self) -> Option<(Seq<char>, Seq<char>)> {
        both_given(view_of(self.slack_bot_token), view_of(self.slack_app_token))
    }

    pub open spec fn twitch(self) -> Option<(Seq<char>, Seq<char>)> {
        both_given(view_of(self.twitch_username), view_of(self.twitch_oauth_token))
    }

    /// Whether these are credentials of a platform.
    pub open spec fn brings(self, platform: Seq<char>) -> bool {
        ||| platform == "discord"@ && non_empty(view_of(self.discord_token)) is Some
        ||| platform == "slack"@ && self.slack() is Some
        ||| platform == "telegram"@ && non_empty(view_of(self.telegram_token)) is Some
        ||| platform == "twitch"@ && self.twitch() is Some
    }

    /// Whether these credentials set a key of a platform's section.
    pub open spec fn sets(self, platform: Seq<char>, key: Seq<char>) -> bool {
        &&& self.brings(platform)
        &&& {
            ||| key == "enabled"@
            ||| (platform == "discord"@ || platform == "telegram"@) && key == "token"@
            ||| platform == "slack"@ && (key == "bot_token"@ || key == "app_token"@)
            ||| platform == "twitch"@ && (key == "username"@ || key == "oauth_token"@)
        }
    }

    /// Whether these are credentials of any platform.
    pub open spec fn brings_any(self) -> bool {
        self.brings("discord"@) || self.brings("slack"@) || self.brings("telegram"@) || self.brings(
            "twitch"@,
        )
    }

    /// Whether the sections of the platforms are written as before, but for what
    /// these credentials set in them.
    pub open spec fn keeps_sections(self, from: TableLayout, to: TableLayout) -> bool {
        &&& kept_but(from, to, |platform: Seq<char>| self.brings(platform))
        &&& forall|platform: Seq<char>|
            like_layout(#[trigger] layout_at(from, platform)) is Some ==> inner_kept_but(
                from,
                to,
                platform,
                |key: Seq<char>| self.sets(platform, key),
            )
    }

    /// Whether the table `messaging`, where there is one, is written as before, but
    /// for what these credentials set in it.
    pub open spec fn keeps_messaging(self, from: TableLayout, to: TableLayout) -> bool {
        section_layout(from, "messaging"@) is Some ==> section_layout(to, "messaging"@) is Some
            && self.keeps_sections(
            section_layout(from, "messaging"@)->0,
            section_layout(to, "messaging"@)->0,
        )
    }

    /// Whether a root table is written as before, but for what these credentials
    /// set.
    pub open spec fn keeps_root(self, from: TableLayout, to: TableLayout) -> bool {
        kept_but(from, to, only("messaging"@, self.brings_any())) && self.keeps_messaging(from, to)
    }

    /// The root table with these credentials, or `None` where a key on the way
    /// holds something other than a table.
    pub open spec fn applied(self, root: Entries) -> Option<Entries> {
        let discord = with_token(Some(root), "discord"@, view_of(self.discord_token));
        let slack = with_pair(discord, "slack"@, ("bot_token"@, "app_token"@), self.slack());
        let telegram = with_token(slack, "telegram"@, view_of(self.telegram_token));
        with_pair(telegram, "twitch"@, ("username"@, "oauth_token"@), self.twitch())
    }
}

impl CreateBindingRequest {
    pub open spec fn with_new_credentials(self, root: Entries) -> Option<Entries> {
        match self.platform_credentials {
            Some(credentials) => credentials.applied(root),
            None => Some(root),
        }
    }

    /// The root table with the new binding at the end of `[[bindings]]`, or
    /// `None` where a key on the way holds something of another kind.
    pub open spec fn created(self, root: Entries) -> Option<Entries> {
        match self.with_new_credentials(root) {
            None => None,
            Some(entries) => match child_tables(entries, "bindings"@) {
                None => None,
                Some(tables) => Some(
                    entries.insert("bindings"@, TomlNode::Sections(tables.push(TomlNode::Section(self.table())))),
                ),
            },
        }
    }
}

impl CreateBindingRequest {
    /// Whether a document is written as before, with one more binding, and but for
    /// the credentials that came with it.
    pub open spec fn keeps_created(self, from: TableLayout, to: TableLayout) -> bool {
        let credentials = self.platform_credentials;
        &&& kept_but(
            from,
            to,
            |key: Seq<char>|
                key == "bindings"@ || credentials is Some && credentials->0.brings_any() && key
                    == "messaging"@,
        )
        &&& grown(from, to, "bindings"@)
        &&& credentials is Some ==> credentials->0.keeps_messaging(from, to)
    }
}

impl NewCredentials {
    /// Whether these are the credentials that the request brought in full.
    pub open spec fn are_of(self, given: Option<PlatformCredentials>) -> bool {
        match given {
            Some(credentials) => {
                &&& view_of(self.discord_token) == non_empty(view_of(credentials.discord_token))
                &&& pair_view(self.slack_tokens) == credentials.slack()
                &&& view_of(self.telegram_token) == non_empty(view_of(credentials.telegram_token))
                &&& pair_view(self.twitch_creds) == credentials.twitch()
            },
            None => self.discord_token is None && self.slack_tokens is None && self.telegram_token
                is None && self.twitch_creds is None,
        }
    }
}

impl NewCredentials {
    /// Whether the credentials of any platform were added or changed.
    pub open spec fn any_given(self) -> bool {
        self.discord_token is Some || self.slack_tokens is Some || self.telegram_token is Some
            || self.twitch_creds is Some
    }

    /// Whether the credentials of any platform were added or changed.
    pub fn has_any(&self) -> (given: bool)
        ensures
            given == self.any_given(),
    {
        self.discord_token.is_some() || self.slack_tokens.is_some() || self.telegram_token.is_some()
            || self.twitch_creds.is_some()
    }
}

pub open spec fn pair_view(pair: Option<(String, String)>) -> Option<(Seq<char>, Seq<char>)> {
    match pair {
        Some(values) => Some((values.0@, values.1@)),
        None => None,
    }
}

fn given(text: &Option<String>) -> (value: Option<String>)
    ensures
        view_of(value) == non_empty(view_of(*text)),
{
    match text {
        Some(value) => if value.as_str().is_empty() {
            None
        } else {
            Some(value.clone())
        },
        None => None,
    }
}

fn given_pair(first: &Option<String>, second: &Option<String>) -> (pair: Option<(String, String)>)
    ensures
        pair_view(pair) == both_given(view_of(*first), view_of(*second)),
{
    match (given(first), given(second)) {
        (Some(a), Some(b)) => Some((a, b)),
        _ => None,
    }
}

/// Whether a root table is written as before, but for some keys in the section of
/// a platform.
pub open spec fn writes_section(
    from: TableLayout,
    to: TableLayout,
    platform: Seq<char>,
    written: spec_fn(Seq<char>) -> bool,
) -> bool {
    &&& kept_but(from, to, only("messaging"@, true))
    &&& section_layout(from, "messaging"@) is Some ==> section_layout(to, "messaging"@) is Some && {
        let before = section_layout(from, "messaging"@)->0;
        let after = section_layout(to, "messaging"@)->0;
        &&& kept_but(before, after, only(platform, true))
        &&& inner_kept_but(before, after, platform, written)
    }
}

/// Writing the section of one platform is among what all the credentials set.
proof fn lemma_one_platform(
    credentials: PlatformCredentials,
    from: TableLayout,
    mid: TableLayout,
    to: TableLayout,
    platform: Seq<char>,
    written: spec_fn(Seq<char>) -> bool,
)
    requires
        credentials.keeps_root(from, mid),
        writes_section(mid, to, platform, written),
        credentials.brings(platform),
        forall|key: Seq<char>| #[trigger] written(key) ==> credentials.sets(platform, key),
    ensures
        credentials.keeps_root(from, to),
{
    assert(credentials.brings_any());
    if section_layout(from, "messaging"@) is Some {
        let before = section_layout(from, "messaging"@)->0;
        let between = section_layout(mid, "messaging"@)->0;
        let after = section_layout(to, "messaging"@)->0;
        assert forall|other: Seq<char>|
            like_layout(#[trigger] layout_at(before, other)) is Some implies inner_kept_but(
            before,
            after,
            other,
            |key: Seq<char>| credentials.sets(other, key),
        ) by {
            assert(before.entries.contains_key(other));
            assert(like_layout(layout_at(between, other)) is Some);
            assert(between.entries.contains_key(other));
            assert(after.entries.contains_key(other));
        }
    }
}

/// Whether a pair of a key and a text is given, with this key.
pub open spec fn is_key_of(pair: Option<(&str, &str)>, key: Seq<char>) -> bool {
    match pair {
        Some(given) => key == given.0@,
        None => false,
    }
}

/// Writes one platform's credentials.
fn write_credentials(
    root: &mut Table,
    platform: &str,
    first: (&str, &str),
    second: Option<(&str, &str)>,
) -> (result: Result<(), ApiError>)
    ensures
        match result {
            Ok(_) => with_credentials(
                table_entries(*old(root)),
                platform@,
                (first.0@, first.1@),
                match second {
                    Some(pair) => Some((pair.0@, pair.1@)),
                    None => None,
                },
            ) == Some(table_entries(*final(root))),
            Err(error) => error == ApiError::Internal && with_credentials(
                table_entries(*old(root)),
                platform@,
                (first.0@, first.1@),
                match second {
                    Some(pair) => Some((pair.0@, pair.1@)),
                    None => None,
                },
            ) is None,
        },
        result is Ok ==> writes_section(
            table_layout(*old(root)),
            table_layout(*final(root)),
            platform@,
            |key: Seq<char>| key == "enabled"@ || key == first.0@ || is_key_of(second, key),
        ),
{
    let messaging = match ensure_child_table(root, "messaging") {
        Some(table) => table,
        None => {
            return Err(ApiError::Internal);
        },
    };
    let section = match ensure_child_table(messaging, platform) {
        Some(table) => table,
        None => {
            return Err(ApiError::Internal);
        },
    };
    set_flag(section, "enabled", true);
    set_text(section, first.0, first.1);
    match second {
        Some(pair) => set_text(section, pair.0, pair.1),
        None => {},
    }
    Ok(())
}

/// Writes the credentials that a request brought, and tells which were new.
fn apply_credentials(root: &mut Table, credentials: &PlatformCredentials) -> (result: Result<
    NewCredentials,
    ApiError,
>)
    ensures
        match result {
            Ok(new) => credentials.applied(table_entries(*old(root))) == Some(
                table_entries(*final(root)),
            ) && new.are_of(Some(*credentials)),
            Err(error) => error == ApiError::Internal && credentials.applied(
                table_entries(*old(root)),
            ) is None,
        },
        result is Ok ==> credentials.keeps_root(table_layout(*old(root)), table_layout(*final(root))),
{
    let ghost from = table_layout(*root);
    let ghost mut last = from;
    let discord_token = given(&credentials.discord_token);
    match &discord_token {
        Some(token) => {
            match write_credentials(root, "discord", ("token", token.as_str()), None) {
                Ok(_) => {
                    proof {
                        lemma_one_platform(
                            *credentials,
                            from,
                            last,
                            table_layout(*root),
                            "discord"@,
                            |key: Seq<char>| key == "enabled"@ || key == "token"@,
                        );
                        last = table_layout(*root);
                    }
                },
                Err(error) => {
                    return Err(error);
                },
            }
        },
        None => {},
    }
    let slack_tokens = given_pair(&credentials.slack_bot_token, &credentials.slack_app_token);
    match &slack_tokens {
        Some((bot_token, app_token)) => {
            match write_credentials(
                root,
                "slack",
                ("bot_token", bot_token.as_str()),
                Some(("app_token", app_token.as_str())),
            ) {
                Ok(_) => {
                    proof {
                        lemma_one_platform(
                            *credentials,
                            from,
                            last,
                            table_layout(*root),
                            "slack"@,
                            |key: Seq<char>| key == "enabled"@ || key == "bot_token"@ || key == "app_token"@,
                        );
                        last = table_layout(*root);
                    }
                },
                Err(error) => {
                    return Err(error);
                },
            }
        },
        None => {},
    }
    let telegram_token = given(&credentials.telegram_token);
    match &telegram_token {
        Some(token) => {
            match write_credentials(root, "telegram", ("token", token.as_str()), None) {
                Ok(_) => {
                    proof {
                        lemma_one_platform(
                            *credentials,
                            from,
                            last,
                            table_layout(*root),
                            "telegram"@,
                            |key: Seq<char>| key == "enabled"@ || key == "token"@,
                        );
                        last = table_layout(*root);
                    }
                },
                Err(error) => {
                    return Err(error);
                },
            }
        },
        None => {},
    }
    let twitch_creds = given_pair(&credentials.twitch_username, &credentials.twitch_oauth_token);
    match &twitch_creds {
        Some((username, oauth_token)) => {
            match write_credentials(
                root,
                "twitch",
                ("username", username.as_str()),
                Some(("oauth_token", oauth_token.as_str())),
            ) {
                Ok(_) => {
                    proof {
                        lemma_one_platform(
                            *credentials,
                            from,
                            last,
                            table_layout(*root),
                            "twitch"@,
                            |key: Seq<char>| key == "enabled"@ || key == "username"@ || key == "oauth_token"@,
                        );
                        last = table_layout(*root);
                    }
                },
                Err(error) => {
                    return Err(error);
                },
            }
        },
        None => {},
    }
    Ok(NewCredentials { discord_token, slack_tokens, telegram_token, twitch_creds })
}

/// The table of a new binding.
fn binding_table(request: &CreateBindingRequest) -> (table: Table)
    ensures
        table_entries(table) == request.table(),
{
    let mut table = Table::new();
    set_text(&mut table, "agent_id", request.agent_id.as_str());
    set_text(&mut table, "channel", request.channel.as_str());
    set_text_if(&mut table, "guild_id", &request.guild_id);
    set_text_if(&mut table, "workspace_id", &request.workspace_id);
    set_text_if(&mut table, "chat_id", &request.chat_id);
    set_texts_if(&mut table, "channel_ids", &request.channel_ids);
    if request.require_mention {
        set_flag(&mut table, "require_mention", true);
    }
    set_texts_if(&mut table, "dm_allowed_users", &request.dm_allowed_users);
    table
}

/// The keys of the root table that a binding is written under are distinct.
proof fn lemma_root_keys()
    ensures
        "messaging"@ != "bindings"@,
{
    reveal_strlit("messaging");
    reveal_strlit("bindings");
    assert("messaging"@.len() == 9 && "bindings"@.len() == 8);
}

/// Appends a binding to a document, with the credentials that came with it.
pub fn insert_binding(doc: DocumentMut, request: &CreateBindingRequest) -> (result: Result<
    (DocumentMut, NewCredentials),
    ApiError,
>)
    requires
        root_is_table(doc),
    ensures
        match result {
            Ok((changed, new)) => {
                &&& request.created(document_entries(doc)) == Some(document_entries(changed))
                &&& root_is_table(changed)
                &&& new.are_of(request.platform_credentials)
                &&& request.keeps_created(document_layout(doc), document_layout(changed))
                &&& document_trailing(changed) == document_trailing(doc)
            },
            Err(error) => error == ApiError::Internal && request.created(document_entries(doc))
                is None,
        },
{
    proof {
        lemma_root_keys();
    }
    let mut doc = doc;
    let root = doc.as_table_mut();
    let new = match &request.platform_credentials {
        Some(credentials) => match apply_credentials(root, credentials) {
            Ok(new) => new,
            Err(error) => {
                return Err(error);
            },
        },
        None => NewCredentials {
            discord_token: None,
            slack_tokens: None,
            telegram_token: None,
            twitch_creds: None,
        },
    };
    match ensure_child_tables(root, "bindings") {
        Some(tables) => {
            let ghost before = tables_layout(*tables);
            tables.push(binding_table(request));
            assert(tables_layout(*tables).drop_last() =~= before);
        },
        None => {
            return Err(ApiError::Internal);
        },
    }
    Ok((doc, new))
}

/// Creates a binding in the configuration text, and where credentials came with
/// it, enables their platforms. A restart is required where there were any.
pub fn create_binding(content: &str, request: &CreateBindingRequest) -> (result: Result<
    CreatedBinding,
    ApiError,
>)
    ensures
        match result {
            Ok(created) => {
                &&& parsed_entries(content@) is Some
                &&& request.created(parsed_entries(content@)->0) is Some
                &&& prints_edit(
                    created.content@,
                    parsed_toml(content@)->0,
                    request.created(parsed_entries(content@)->0)->0,
                    |from: TableLayout, to: TableLayout| request.keeps_created(from, to),
                )
                &&& created.credentials.are_of(request.platform_credentials)
                &&& created.response.success
                &&& created.response.restart_required == created.credentials.any_given()
                &&& created.response.message@ == "Binding created and active."@
            },
            Err(error) => error == ApiError::Internal && (parsed_entries(content@) is None
                || request.created(parsed_entries(content@)->0) is None),
        },
{
    let doc = match parse_document(content) {
        Some(doc) => doc,
        None => {
            return Err(ApiError::Internal);
        },
    };
    match insert_binding(doc, request) {
        Ok((changed, credentials)) => {
            let text = document_text(&changed);
            assert(printed(changed) == text@);
            let restart_required = credentials.has_any();
            Ok(
                CreatedBinding {
                    content: text,
                    credentials,
                    response: CreateBindingResponse {
                        success: true,
                        restart_required,
                        message: "Binding created and active.".to_owned(),
                    },
                },
            )
        },
        Err(error) => Err(error),
    }
}

fn matches_identifier(table: &Table, key: &str, wanted: &Option<String>) -> (matches: bool)
    ensures
        matches == identifier_matches(table_entries(*table), key@, view_of(*wanted)),
{
    match wanted {
        Some(value) => has_text(table, key, value.as_str()),
        None => !table.contains_key(key),
    }
}

fn find_binding(
    tables: &toml_edit::ArrayOfTables,
    wanted: &DeleteBindingRequest,
) -> (found: Option<usize>)
    ensures
        match found {
            Some(i) => first_binding(tables_of(*tables), 0, wanted.identity()) == Some(i as int) && i
                < tables_of(*tables).len() && tables_of(*tables)[i as int] is Section,
            None => first_binding(tables_of(*tables), 0, wanted.identity()) is None,
        },
{
    let count: usize = tables.len();
    let mut i: usize = 0;
    while i < count
        invariant
            i <= count,
            count == tables_of(*tables).len(),
            first_binding(tables_of(*tables), 0, wanted.identity()) == first_binding(
                tables_of(*tables),
                i as int,
                wanted.identity(),
            ),
        decreases count - i,
    {
        match tables.get(i) {
            Some(table) => {
                if has_text(table, "agent_id", wanted.agent_id.as_str()) && has_text(
                    table,
                    "channel",
                    wanted.channel.as_str(),
                ) && matches_identifier(table, "guild_id", &wanted.guild_id) && matches_identifier(
                    table,
                    "workspace_id",
                    &wanted.workspace_id,
                ) && matches_identifier(table, "chat_id", &wanted.chat_id) {
                    return Some(i);
                }
            },
            None => {},
        }
        i = i + 1;
    }
    None
}

/// What a change of one binding does to the root table: the error where there
/// are no bindings, `Ok(None)` where none matches, and the changed table.
pub open spec fn changed_bindings(
    root: Entries,
    identity: BindingIdentity,
    change: spec_fn(Seq<TomlNode>, int) -> Seq<TomlNode>,
) -> Result<Option<Entries>, ApiError> {
    match node_at(root, "bindings"@) {
        TomlNode::Sections(tables) => match first_binding(tables, 0, identity) {
            Some(i) => Ok(Some(root.insert("bindings"@, TomlNode::Sections(change(tables, i))))),
            None => Ok(None),
        },
        _ => Err(ApiError::NotFound),
    }
}

/// Where the first binding with this identity stands.
pub open spec fn binding_position(root: Entries, identity: BindingIdentity) -> int {
    match node_at(root, "bindings"@) {
        TomlNode::Sections(tables) => match first_binding(tables, 0, identity) {
            Some(i) => i,
            None => -1,
        },
        _ => -1,
    }
}

impl UpdateBindingRequest {
    /// What the change does to the root table.
    pub open spec fn updated(self, root: Entries) -> Result<Option<Entries>, ApiError> {
        changed_bindings(
            root,
            self.original_identity(),
            |tables: Seq<TomlNode>, i: int|
                tables.update(i, TomlNode::Section(self.changed(section_entries(tables[i])))),
        )
    }

    /// Whether the change sets a key of the binding's table.
    pub open spec fn sets(self, key: Seq<char>) -> bool {
        ||| key == "agent_id"@ || key == "channel"@
        ||| key == "channel_ids"@ && self.channel_ids@.len() > 0
        ||| key == "require_mention"@ && self.require_mention
        ||| key == "dm_allowed_users"@ && self.dm_allowed_users@.len() > 0
    }

    /// Whether the change takes a key out of the binding's table. The identifiers
    /// are taken out first, and then put in again where they are given.
    pub open spec fn clears(self, key: Seq<char>) -> bool {
        ||| key == "guild_id"@ || key == "workspace_id"@ || key == "chat_id"@
        ||| key == "channel_ids"@ && self.channel_ids@.len() == 0
        ||| key == "require_mention"@ && !self.require_mention
        ||| key == "dm_allowed_users"@ && self.dm_allowed_users@.len() == 0
    }

    /// Whether a document is written as before, but for what the change sets and
    /// clears in the table of the binding that it found.
    pub open spec fn keeps_updated(self, root: Entries, from: TableLayout, to: TableLayout) -> bool {
        &&& kept_but(from, to, only("bindings"@, true))
        &&& sections_layout(from, "bindings"@) is Some
        &&& sections_layout(to, "bindings"@) is Some
        &&& one_edited(
            sections_layout(from, "bindings"@)->0,
            sections_layout(to, "bindings"@)->0,
            binding_position(root, self.original_identity()),
            |key: Seq<char>| self.sets(key),
            |key: Seq<char>| self.clears(key),
        )
    }
}

impl DeleteBindingRequest {
    /// What the deletion does to the root table.
    pub open spec fn deleted(self, root: Entries) -> Result<Option<Entries>, ApiError> {
        changed_bindings(root, self.identity(), |tables: Seq<TomlNode>, i: int| tables.remove(i))
    }

    /// Whether a document is written as before, but for the binding that was found,
    /// which was taken out.
    pub open spec fn keeps_deleted(self, root: Entries, from: TableLayout, to: TableLayout) -> bool {
        &&& kept_but(from, to, only("bindings"@, true))
        &&& sections_layout(from, "bindings"@) is Some
        &&& sections_layout(to, "bindings"@) == Some(
            sections_layout(from, "bindings"@)->0.remove(binding_position(root, self.identity())),
        )
    }
}

/// Changes the table of a binding.
fn apply_change(binding: &mut Table, request: &UpdateBindingRequest)
    ensures
        table_entries(*final(binding)) == request.changed(table_entries(*old(binding))),
        edited(
            table_layout(*old(binding)),
            table_layout(*final(binding)),
            |key: Seq<char>| request.sets(key),
            |key: Seq<char>| request.clears(key),
        ),
{
    let ghost sets = |key: Seq<char>| request.sets(key);
    let ghost clears = |key: Seq<char>| request.clears(key);
    let ghost from = table_layout(*binding);
    let ghost mut last = from;
    set_text(binding, "agent_id", request.agent_id.as_str());
    proof {
        lemma_kept_is_edited(last, table_layout(*binding), only("agent_id"@, true), sets, clears);
        lemma_edited_further(
            from,
            last,
            table_layout(*binding),
            sets,
            clears,
            sets,
            clears,
        );
        last = table_layout(*binding);
    }
    set_text(binding, "channel", request.channel.as_str());
    proof {
        lemma_kept_is_edited(last, table_layout(*binding), only("channel"@, true), sets, clears);
        lemma_edited_further(
            from,
            last,
            table_layout(*binding),
            sets,
            clears,
            sets,
            clears,
        );
        last = table_layout(*binding);
    }
    let _guild = binding.remove("guild_id");
    proof {
        lemma_edited_further(
            from,
            last,
            table_layout(*binding),
            sets,
            clears,
            no_key(),
            only("guild_id"@, true),
        );
        last = table_layout(*binding);
    }
    let _workspace = binding.remove("workspace_id");
    proof {
        lemma_edited_further(
            from,
            last,
            table_layout(*binding),
            sets,
            clears,
            no_key(),
            only("workspace_id"@, true),
        );
        last = table_layout(*binding);
    }
    let _chat = binding.remove("chat_id");
    proof {
        lemma_edited_further(
            from,
            last,
            table_layout(*binding),
            sets,
            clears,
            no_key(),
            only("chat_id"@, true),
        );
        last = table_layout(*binding);
    }
    let guild_id = given(&request.guild_id);
    set_text_if(binding, "guild_id", &guild_id);
    proof {
        lemma_kept_is_edited(last, table_layout(*binding), only("guild_id"@, guild_id is Some), sets, clears);
        lemma_edited_further(
            from,
            last,
            table_layout(*binding),
            sets,
            clears,
            sets,
            clears,
        );
        last = table_layout(*binding);
    }
    let workspace_id = given(&request.workspace_id);
    set_text_if(binding, "workspace_id", &workspace_id);
    proof {
        lemma_kept_is_edited(last, table_layout(*binding), only("workspace_id"@, workspace_id is Some), sets, clears);
        lemma_edited_further(
            from,
            last,
            table_layout(*binding),
            sets,
            clears,
            sets,
            clears,
        );
        last = table_layout(*binding);
    }
    let chat_id = given(&request.chat_id);
    set_text_if(binding, "chat_id", &chat_id);
    proof {
        lemma_kept_is_edited(last, table_layout(*binding), only("chat_id"@, chat_id is Some), sets, clears);
        lemma_edited_further(
            from,
            last,
            table_layout(*binding),
            sets,
            clears,
            sets,
            clears,
        );
        last = table_layout(*binding);
    }
    set_texts_or_remove(binding, "channel_ids", &request.channel_ids);
    proof {
        lemma_edited_further(
            from,
            last,
            table_layout(*binding),
            sets,
            clears,
            only("channel_ids"@, request.channel_ids@.len() > 0),
            only("channel_ids"@, request.channel_ids@.len() == 0),
        );
        last = table_layout(*binding);
    }
    if request.require_mention {
        set_flag(binding, "require_mention", true);
        proof {
            lemma_kept_is_edited(
                last,
                table_layout(*binding),
                only("require_mention"@, true),
                sets,
                clears,
            );
        }
    } else {
        let _mention = binding.remove("require_mention");
    }
    proof {
        if !request.require_mention {
            lemma_edited_further(
                from,
                last,
                table_layout(*binding),
                sets,
                clears,
                no_key(),
                only("require_mention"@, true),
            );
        } else {
            lemma_edited_further(from, last, table_layout(*binding), sets, clears, sets, clears);
        }
        last = table_layout(*binding);
    }
    set_texts_or_remove(binding, "dm_allowed_users", &request.dm_allowed_users);
    proof {
        lemma_edited_further(
            from,
            last,
            table_layout(*binding),
            sets,
            clears,
            only("dm_allowed_users"@, request.dm_allowed_users@.len() > 0),
            only("dm_allowed_users"@, request.dm_allowed_users@.len() == 0),
        );
        last = table_layout(*binding);
    }
}

/// Changes the first binding of a document that matches.
pub fn change_binding(doc: DocumentMut, request: &UpdateBindingRequest) -> (result: Result<
    Option<DocumentMut>,
    ApiError,
>)
    requires
        root_is_table(doc),
    ensures
        match result {
            Ok(Some(changed)) => {
                &&& request.updated(document_entries(doc)) == Ok::<_, ApiError>(
                    Some(document_entries(changed)),
                )
                &&& root_is_table(changed)
                &&& request.keeps_updated(
                    document_entries(doc),
                    document_layout(doc),
                    document_layout(changed),
                )
                &&& document_trailing(changed) == document_trailing(doc)
            },
            Ok(None) => request.updated(document_entries(doc)) == Ok::<_, ApiError>(
                None::<Entries>,
            ),
            Err(error) => request.updated(document_entries(doc)) == Err::<Option<Entries>, _>(error),
        },
{
    let mut doc = doc;
    let root = doc.as_table_mut();
    let tables = match child_tables_mut(root, "bindings") {
        Some(tables) => tables,
        None => {
            return Err(ApiError::NotFound);
        },
    };
    let wanted = DeleteBindingRequest {
        agent_id: request.original_agent_id.clone(),
        channel: request.original_channel.clone(),
        guild_id: clone_option(&request.original_guild_id),
        workspace_id: clone_option(&request.original_workspace_id),
        chat_id: clone_option(&request.original_chat_id),
    };
    let index: usize = match find_binding(tables, &wanted) {
        Some(index) => index,
        None => {
            return Ok(None);
        },
    };
    match tables.get_mut(index) {
        Some(binding) => apply_change(binding, request),
        None => {},
    }
    Ok(Some(doc))
}

/// Takes the first binding that matches out of a document.
pub fn remove_binding(doc: DocumentMut, request: &DeleteBindingRequest) -> (result: Result<
    Option<DocumentMut>,
    ApiError,
>)
    requires
        root_is_table(doc),
    ensures
        match result {
            Ok(Some(changed)) => {
                &&& request.deleted(document_entries(doc)) == Ok::<_, ApiError>(
                    Some(document_entries(changed)),
                )
                &&& root_is_table(changed)
                &&& request.keeps_deleted(
                    document_entries(doc),
                    document_layout(doc),
                    document_layout(changed),
                )
                &&& document_trailing(changed) == document_trailing(doc)
            },
            Ok(None) => request.deleted(document_entries(doc)) == Ok::<_, ApiError>(
                None::<Entries>,
            ),
            Err(error) => request.deleted(document_entries(doc)) == Err::<Option<Entries>, _>(error),
        },
{
    let mut doc = doc;
    let root = doc.as_table_mut();
    let tables = match child_tables_mut(root, "bindings") {
        Some(tables) => tables,
        None => {
            return Err(ApiError::NotFound);
        },
    };
    match find_binding(tables, request) {
        Some(index) => {
            tables.remove(index);
        },
        None => {
            return Ok(None);
        },
    }
    Ok(Some(doc))
}

/// Whether an answer is what a change of one binding gives, with these messages.
/// `keeps` tells how the new content is written.
pub open spec fn answers_change(
    result: Result<BindingChange, ApiError>,
    content: Seq<char>,
    outcome: spec_fn(Entries) -> Result<Option<Entries>, ApiError>,
    keeps: spec_fn(TableLayout, TableLayout) -> bool,
    done: Seq<char>,
) -> bool {
    match parsed_entries(content) {
        None => result == Err::<BindingChange, _>(ApiError::Internal),
        Some(root) => match outcome(root) {
            Err(error) => result == Err::<BindingChange, _>(error),
            Ok(None) => {
                &&& result is Ok
                &&& result->Ok_0.content is None
                &&& !result->Ok_0.success
                &&& result->Ok_0.message@ == "No matching binding found."@
            },
            Ok(Some(changed)) => {
                &&& result is Ok
                &&& result->Ok_0.content is Some
                &&& prints_edit(
                    result->Ok_0.content->0@,
                    parsed_toml(content)->0,
                    changed,
                    keeps,
                )
                &&& result->Ok_0.success
                &&& result->Ok_0.message@ == done
            },
        },
    }
}

fn no_match() -> (change: BindingChange)
    ensures
        change.content is None,
        !change.success,
        change.message@ == "No matching binding found."@,
{
    BindingChange {
        content: None,
        success: false,
        message: "No matching binding found.".to_owned(),
    }
}

/// Changes a binding in the configuration text.
pub fn update_binding(content: &str, request: &UpdateBindingRequest) -> (result: Result<
    BindingChange,
    ApiError,
>)
    ensures
        answers_change(
            result,
            content@,
            |root: Entries| request.updated(root),
            |from: TableLayout, to: TableLayout|
                request.keeps_updated(parsed_entries(content@)->0, from, to),
            "Binding updated."@,
        ),
{
    let doc = match parse_document(content) {
        Some(doc) => doc,
        None => {
            return Err(ApiError::Internal);
        },
    };
    match change_binding(doc, request) {
        Ok(Some(changed)) => {
            let text = document_text(&changed);
            assert(printed(changed) == text@);
            Ok(
                BindingChange {
                    content: Some(text),
                    success: true,
                    message: "Binding updated.".to_owned(),
                },
            )
        },
        Ok(None) => Ok(no_match()),
        Err(error) => Err(error),
    }
}

/// Deletes a binding in the configuration text.
pub fn delete_binding(content: &str, request: &DeleteBindingRequest) -> (result: Result<
    BindingChange,
    ApiError,
>)
    ensures
        answers_change(
            result,
            content@,
            |root: Entries| request.deleted(root),
            |from: TableLayout, to: TableLayout|
                request.keeps_deleted(parsed_entries(content@)->0, from, to),
            "Binding deleted."@,
        ),
{
    let doc = match parse_document(content) {
        Some(doc) => doc,
        None => {
            return Err(ApiError::Internal);
        },
    };
    match remove_binding(doc, request) {
        Ok(Some(changed)) => {
            let text = document_text(&changed);
            assert(printed(changed) == text@);
            Ok(
                BindingChange {
                    content: Some(text),
                    success: true,
                    message: "Binding deleted.".to_owned(),
                },
            )
        },
        Ok(None) => Ok(no_match()),
        Err(error) => Err(error),
    }
}

/// The keys of a binding are distinct.
proof fn lemma_binding_keys()
    ensures
        "agent_id"@ != "channel"@,
        "guild_id"@ != "agent_id"@ && "guild_id"@ != "channel"@,
        "workspace_id"@ != "agent_id"@ && "workspace_id"@ != "channel"@ && "workspace_id"@
            != "guild_id"@,
        "chat_id"@ != "agent_id"@ && "chat_id"@ != "channel"@ && "chat_id"@ != "guild_id"@
            && "chat_id"@ != "workspace_id"@,
        "channel_ids"@ != "agent_id"@ && "channel_ids"@ != "channel"@ && "channel_ids"@
            != "guild_id"@ && "channel_ids"@ != "workspace_id"@ && "channel_ids"@ != "chat_id"@,
        "require_mention"@ != "agent_id"@ && "require_mention"@ != "channel"@ && "require_mention"@
            != "guild_id"@ && "require_mention"@ != "workspace_id"@ && "require_mention"@
            != "chat_id"@,
        "dm_allowed_users"@ != "agent_id"@ && "dm_allowed_users"@ != "channel"@
            && "dm_allowed_users"@ != "guild_id"@ && "dm_allowed_users"@ != "workspace_id"@
            && "dm_allowed_users"@ != "chat_id"@,
{
    reveal_strlit("agent_id");
    reveal_strlit("channel");
    reveal_strlit("guild_id");
    reveal_strlit("workspace_id");
    reveal_strlit("chat_id");
    reveal_strlit("channel_ids");
    reveal_strlit("require_mention");
    reveal_strlit("dm_allowed_users");
    assert("agent_id"@.len() == 8 && "channel"@.len() == 7 && "guild_id"@.len() == 8);
    assert("workspace_id"@.len() == 12 && "chat_id"@.len() == 7 && "channel_ids"@.len() == 11);
    assert("require_mention"@.len() == 15 && "dm_allowed_users"@.len() == 16);
    assert("guild_id"@[0] != "agent_id"@[0]);
    assert("chat_id"@[3] != "channel"@[3]);
}

/// The table of a new binding has the identity of the request.
pub proof fn law_new_table_has_identity(request: CreateBindingRequest)
    ensures
        is_binding(request.table(), request.identity()),
{
    lemma_binding_keys();
}

/// A changed binding has the identity that the change asked for.
pub proof fn law_changed_table_has_identity(request: UpdateBindingRequest, table: Entries)
    ensures
        is_binding(request.changed(table), request.identity()),
{
    lemma_binding_keys();
}

proof fn lemma_first_binding(tables: Seq<TomlNode>, from: int, identity: BindingIdentity)
    requires
        0 <= from,
    ensures
        match first_binding(tables, from, identity) {
            Some(i) => from <= i < tables.len() && is_binding(section_entries(tables[i]), identity) && forall|j: int|
                from <= j < i ==> !is_binding(section_entries(#[trigger] tables[j]), identity),
            None => forall|j: int|
                from <= j < tables.len() ==> !is_binding(section_entries(#[trigger] tables[j]), identity),
        },
    decreases tables.len() - from,
{
    if from < tables.len() && !is_binding(section_entries(tables[from]), identity) {
        lemma_first_binding(tables, from + 1, identity);
    }
}

/// A created binding is found by its identity.
pub proof fn law_created_binding_is_found(request: CreateBindingRequest, root: Entries)
    requires
        request.created(root) is Some,
    ensures
        ({
            let bindings = node_at(request.created(root)->0, "bindings"@);
            bindings is Sections && first_binding(bindings->Sections_0, 0, request.identity())
                is Some
        }),
{
    law_new_table_has_identity(request);
    let tables = node_at(request.created(root)->0, "bindings"@)->Sections_0;
    assert(is_binding(section_entries(tables[tables.len() - 1]), request.identity()));
    lemma_first_binding(tables, 0, request.identity());
}

/// Deleting a binding that was just created, and that no other binding equals
/// in identity, gives back the bindings as they were.
pub proof fn law_delete_undoes_create(
    request: CreateBindingRequest,
    root: Entries,
    deletion: DeleteBindingRequest,
)
    requires
        request.created(root) is Some,
        deletion.identity() == request.identity(),
        first_binding(
            child_tables(request.with_new_credentials(root)->0, "bindings"@)->0,
            0,
            request.identity(),
        ) is None,
    ensures
        deletion.deleted(request.created(root)->0) == Ok::<_, ApiError>(
            Some(
                request.with_new_credentials(root)->0.insert(
                    "bindings"@,
                    TomlNode::Sections(
                        child_tables(request.with_new_credentials(root)->0, "bindings"@)->0,
                    ),
                ),
            ),
        ),
{
    let entries = request.with_new_credentials(root)->0;
    let before = child_tables(entries, "bindings"@)->0;
    let created = request.created(root)->0;
    let after = before.push(TomlNode::Section(request.table()));
    law_new_table_has_identity(request);
    lemma_first_binding(before, 0, request.identity());
    lemma_first_binding(after, 0, request.identity());
    assert(is_binding(section_entries(after[before.len() as int]), request.identity()));
    let i = first_binding(after, 0, request.identity())->0;
    assert(i == before.len()) by {
        if i < before.len() {
            assert(after[i] == before[i]);
        }
    }
    assert(after.remove(i) =~= before);
    assert(created.insert("bindings"@, TomlNode::Sections(before)) =~= entries.insert(
        "bindings"@,
        TomlNode::Sections(before),
    ));
}

/// A deletion takes out one binding with the identity asked for, and leaves
/// every other one, and everything else, in place.
pub proof fn law_delete_removes_one(request: DeleteBindingRequest, root: Entries)
    requires
        request.deleted(root) matches Ok(Some(_)),
    ensures
        ({
            let before = root["bindings"@]->Sections_0;
            let changed = request.deleted(root)->Ok_0->0;
            let after = changed["bindings"@]->Sections_0;
            let i = first_binding(before, 0, request.identity())->0;
            &&& 0 <= i < before.len()
            &&& is_binding(section_entries(before[i]), request.identity())
            &&& after == before.remove(i)
            &&& after.len() == before.len() - 1
            &&& forall|key: Seq<char>|
                key != "bindings"@ ==> node_at(changed, key) == #[trigger] node_at(root, key)
        }),
{
    lemma_first_binding(root["bindings"@]->Sections_0, 0, request.identity());
}

/// Creating a binding without credentials changes nothing but the bindings.
pub proof fn law_create_keeps_other_keys(
    request: CreateBindingRequest,
    root: Entries,
    key: Seq<char>,
)
    requires
        request.created(root) is Some,
        request.platform_credentials is None,
        key != "bindings"@,
    ensures
        node_at(request.created(root)->0, key) == node_at(root, key),
{
}

/// An update keeps the number of bindings and changes only the one it found.
pub proof fn law_update_changes_one(request: UpdateBindingRequest, root: Entries)
    requires
        request.updated(root) matches Ok(Some(_)),
    ensures
        ({
            let before = root["bindings"@]->Sections_0;
            let changed = request.updated(root)->Ok_0->0;
            let after = changed["bindings"@]->Sections_0;
            let i = first_binding(before, 0, request.original_identity())->0;
            &&& 0 <= i < before.len()
            &&& after.len() == before.len()
            &&& is_binding(section_entries(after[i]), request.identity())
            &&& forall|j: int| 0 <= j < after.len() && j != i ==> #[trigger] after[j] == before[j]
            &&& forall|key: Seq<char>|
                key != "bindings"@ ==> node_at(changed, key) == #[trigger] node_at(root, key)
        }),
{
    let before = root["bindings"@]->Sections_0;
    lemma_first_binding(before, 0, request.original_identity());
    let i = first_binding(before, 0, request.original_identity())->0;
    law_changed_table_has_identity(request, section_entries(before[i]));
}

/// A list of bindings as the API shows it, with only those of one agent where
/// one is asked for.
pub open spec fn listed(bindings: Seq<BindingResponse>, agent_id: Option<Seq<char>>) -> Seq<BindingResponse> {
    bindings.filter(of_agent(agent_id))
}

/// The bindings of one agent, or of any.
pub open spec fn of_agent(agent_id: Option<Seq<char>>) -> spec_fn(BindingResponse) -> bool {
    |binding: BindingResponse|
        match agent_id {
            Some(id) => binding.agent_id@ == id,
            None => true,
        }
}

/// The bindings, with only those of one agent where one is asked for.
pub fn list_bindings(bindings: Vec<BindingResponse>, agent_id: &Option<String>) -> (result: Vec<
    BindingResponse,
>)
    ensures
        result@ == listed(bindings@, view_of(*agent_id)),
{
    let mut bindings = bindings;
    let ghost all = bindings@;
    let ghost keep = of_agent(view_of(*agent_id));
    let mut result: Vec<BindingResponse> = Vec::new();
    let ghost mut taken: int = 0;
    assert(all.take(0).filter(keep) =~= Seq::<BindingResponse>::empty()) by {
        reveal(Seq::filter);
    }
    assert(all.skip(0) =~= all);
    while bindings.len() > 0
        invariant
            0 <= taken <= all.len(),
            bindings@ == all.skip(taken),
            keep == of_agent(view_of(*agent_id)),
            result@ == all.take(taken).filter(keep),
        decreases bindings.len(),
    {
        let binding = bindings.remove(0);
        proof {
            assert(binding == all[taken]);
            assert(all.take(taken + 1).drop_last() =~= all.take(taken));
            assert(all.take(taken + 1).last() == binding);
            reveal(Seq::filter);
            assert(bindings@ =~= all.skip(taken + 1));
            taken = taken + 1;
        }
        let wanted = match agent_id {
            Some(id) => text_eq(binding.agent_id.as_str(), id.as_str()),
            None => true,
        };
        if wanted {
            result.push(binding);
        }
    }
    assert(all.take(taken) =~= all);
    result
}

/// Whether a node is a list of just these texts, in order.
pub open spec fn lists_texts(node: TomlNode, texts: Seq<String>) -> bool {
    node matches TomlNode::List(nodes) && nodes.len() == texts.len() && forall|i: int|
        0 <= i < nodes.len() ==> #[trigger] nodes[i] == TomlNode::Text(texts[i]@)
}

proof fn lemma_all_binding_keys_differ()
    ensures
        "agent_id"@ != "channel"@,
        "agent_id"@ != "guild_id"@,
        "agent_id"@ != "workspace_id"@,
        "agent_id"@ != "chat_id"@,
        "agent_id"@ != "channel_ids"@,
        "agent_id"@ != "require_mention"@,
        "agent_id"@ != "dm_allowed_users"@,
        "channel"@ != "guild_id"@,
        "channel"@ != "workspace_id"@,
        "channel"@ != "chat_id"@,
        "channel"@ != "channel_ids"@,
        "channel"@ != "require_mention"@,
        "channel"@ != "dm_allowed_users"@,
        "guild_id"@ != "workspace_id"@,
        "guild_id"@ != "chat_id"@,
        "guild_id"@ != "channel_ids"@,
        "guild_id"@ != "require_mention"@,
        "guild_id"@ != "dm_allowed_users"@,
        "workspace_id"@ != "chat_id"@,
        "workspace_id"@ != "channel_ids"@,
        "workspace_id"@ != "require_mention"@,
        "workspace_id"@ != "dm_allowed_users"@,
        "chat_id"@ != "channel_ids"@,
        "chat_id"@ != "require_mention"@,
        "chat_id"@ != "dm_allowed_users"@,
        "channel_ids"@ != "require_mention"@,
        "channel_ids"@ != "dm_allowed_users"@,
        "require_mention"@ != "dm_allowed_users"@,
{
    reveal_strlit("agent_id");
    reveal_strlit("channel");
    reveal_strlit("guild_id");
    reveal_strlit("workspace_id");
    reveal_strlit("chat_id");
    reveal_strlit("channel_ids");
    reveal_strlit("require_mention");
    reveal_strlit("dm_allowed_users");
    assert("agent_id"@.len() == 8);
    assert("channel"@.len() == 7);
    assert("guild_id"@.len() == 8);
    assert("workspace_id"@.len() == 12);
    assert("chat_id"@.len() == 7);
    assert("channel_ids"@.len() == 11);
    assert("require_mention"@.len() == 15);
    assert("dm_allowed_users"@.len() == 16);
    assert("agent_id"@[0] != "guild_id"@[0]);
    assert("channel"@[3] != "chat_id"@[3]);
}

/// The table of a new binding has every value of the request under its name, has
/// no key for what is not given, and holds nothing else.
pub proof fn law_new_binding_is_read_back(request: CreateBindingRequest, key: Seq<char>)
    ensures
        node_at(request.table(), "agent_id"@) == TomlNode::Text(request.agent_id@),
        node_at(request.table(), "channel"@) == TomlNode::Text(request.channel@),
        request.guild_id matches Some(id)
            ==> node_at(request.table(), "guild_id"@) == TomlNode::Text(id@),
        request.guild_id is None ==> !request.table().contains_key("guild_id"@),
        request.workspace_id matches Some(id)
            ==> node_at(request.table(), "workspace_id"@) == TomlNode::Text(id@),
        request.workspace_id is None ==> !request.table().contains_key("workspace_id"@),
        request.chat_id matches Some(id)
            ==> node_at(request.table(), "chat_id"@) == TomlNode::Text(id@),
        request.chat_id is None ==> !request.table().contains_key("chat_id"@),
        request.channel_ids@.len() > 0
            ==> lists_texts(node_at(request.table(), "channel_ids"@), request.channel_ids@),
        request.channel_ids@.len() == 0 ==> !request.table().contains_key("channel_ids"@),
        request.dm_allowed_users@.len() > 0
            ==> lists_texts(node_at(request.table(), "dm_allowed_users"@),
            request.dm_allowed_users@),
        request.dm_allowed_users@.len() == 0 ==> !request.table().contains_key("dm_allowed_users"@),
        request.require_mention
            ==> node_at(request.table(), "require_mention"@) == TomlNode::Flag(true),
        !request.require_mention ==> !request.table().contains_key("require_mention"@),
        key != "agent_id"@ && key != "channel"@ && key != "guild_id"@ && key != "workspace_id"@
            && key != "chat_id"@ && key != "channel_ids"@ && key != "require_mention"@
            && key != "dm_allowed_users"@ ==> !request.table().contains_key(key),
{
    lemma_all_binding_keys_differ();
}

/// A changed binding has every value of the request under its name, loses what the
/// request leaves empty, and keeps all else.
pub proof fn law_changed_binding_is_read_back(
    request: UpdateBindingRequest,
    table: Entries,
    key: Seq<char>,
)
    ensures
        node_at(request.changed(table), "agent_id"@) == TomlNode::Text(request.agent_id@),
        node_at(request.changed(table), "channel"@) == TomlNode::Text(request.channel@),
        request.guild_id matches Some(id) ==> id@.len() > 0
            ==> node_at(request.changed(table), "guild_id"@) == TomlNode::Text(id@),
        (request.guild_id matches Some(id) ==> id@.len() == 0)
            ==> !request.changed(table).contains_key("guild_id"@),
        request.workspace_id matches Some(id) ==> id@.len() > 0
            ==> node_at(request.changed(table), "workspace_id"@) == TomlNode::Text(id@),
        (request.workspace_id matches Some(id) ==> id@.len() == 0)
            ==> !request.changed(table).contains_key("workspace_id"@),
        request.chat_id matches Some(id) ==> id@.len() > 0
            ==> node_at(request.changed(table), "chat_id"@) == TomlNode::Text(id@),
        (request.chat_id matches Some(id) ==> id@.len() == 0)
            ==> !request.changed(table).contains_key("chat_id"@),
        request.channel_ids@.len() > 0
            ==> lists_texts(node_at(request.changed(table), "channel_ids"@), request.channel_ids@),
        request.channel_ids@.len() == 0 ==> !request.changed(table).contains_key("channel_ids"@),
        request.dm_allowed_users@.len() > 0
            ==> lists_texts(node_at(request.changed(table), "dm_allowed_users"@),
            request.dm_allowed_users@),
        request.dm_allowed_users@.len() == 0
            ==> !request.changed(table).contains_key("dm_allowed_users"@),
        request.require_mention
            ==> node_at(request.changed(table), "require_mention"@) == TomlNode::Flag(true),
        !request.require_mention ==> !request.changed(table).contains_key("require_mention"@),
        key != "agent_id"@ && key != "channel"@ && key != "guild_id"@ && key != "workspace_id"@
            && key != "chat_id"@ && key != "channel_ids"@ && key != "require_mention"@
            && key != "dm_allowed_users"@
            ==> node_at(request.changed(table), key) == node_at(table, key),
{
    lemma_all_binding_keys_differ();
}

/// Whether a table is the one of a binding: its agent and its channel, and each of
/// the identifiers, which is absent where none is given.
pub open spec fn names_binding(
    table: Entries,
    agent_id: Seq<char>,
    channel: Seq<char>,
    guild_id: Option<String>,
    workspace_id: Option<String>,
    chat_id: Option<String>,
) -> bool {
    &&& node_at(table, "agent_id"@) == TomlNode::Text(agent_id)
    &&& node_at(table, "channel"@) == TomlNode::Text(channel)
    &&& guild_id matches Some(id) ==> node_at(table, "guild_id"@) == TomlNode::Text(id@)
    &&& guild_id is None ==> !table.contains_key("guild_id"@)
    &&& workspace_id matches Some(id) ==> node_at(table, "workspace_id"@) == TomlNode::Text(id@)
    &&& workspace_id is None ==> !table.contains_key("workspace_id"@)
    &&& chat_id matches Some(id) ==> node_at(table, "chat_id"@) == TomlNode::Text(id@)
    &&& chat_id is None ==> !table.contains_key("chat_id"@)
}

/// An update changes the first binding with the agent, the channel and all the
/// identifiers that it names as the original ones, and no other.
pub proof fn law_update_finds_its_binding(
    request: UpdateBindingRequest,
    root: Entries,
    tables: Seq<TomlNode>,
    at: int,
    table: Entries,
)
    requires
        root.contains_key("bindings"@),
        root["bindings"@] == TomlNode::Sections(tables),
        0 <= at < tables.len(),
        tables[at] == TomlNode::Section(table),
        names_binding(
            table,
            request.original_agent_id@,
            request.original_channel@,
            request.original_guild_id,
            request.original_workspace_id,
            request.original_chat_id,
        ),
        forall|i: int|
            0 <= i < at ==> ((#[trigger] tables[i]) matches TomlNode::Section(other)
                && !names_binding(
                other,
                request.original_agent_id@,
                request.original_channel@,
                request.original_guild_id,
                request.original_workspace_id,
                request.original_chat_id,
            )),
    ensures
        request.updated(root) matches Ok(Some(after)) && after == root.insert(
            "bindings"@,
            TomlNode::Sections(tables.update(at, TomlNode::Section(request.changed(table)))),
        ),
{
    let identity = request.original_identity();
    lemma_first_binding(tables, 0, identity);
    assert(is_binding(section_entries(tables[at]), identity));
    assert forall|i: int| 0 <= i < at implies !is_binding(
        section_entries(#[trigger] tables[i]),
        identity,
    ) by {
        let other = tables[i]->Section_0;
        if is_binding(other, identity) {
            assert(names_binding(
                other,
                request.original_agent_id@,
                request.original_channel@,
                request.original_guild_id,
                request.original_workspace_id,
                request.original_chat_id,
            ));
        }
    }
}

/// A deletion takes out the first binding with the agent, the channel and all the
/// identifiers that it names, and no other.
pub proof fn law_delete_finds_its_binding(
    request: DeleteBindingRequest,
    root: Entries,
    tables: Seq<TomlNode>,
    at: int,
    table: Entries,
)
    requires
        root.contains_key("bindings"@),
        root["bindings"@] == TomlNode::Sections(tables),
        0 <= at < tables.len(),
        tables[at] == TomlNode::Section(table),
        names_binding(
            table,
            request.agent_id@,
            request.channel@,
            request.guild_id,
            request.workspace_id,
            request.chat_id,
        ),
        forall|i: int|
            0 <= i < at ==> ((#[trigger] tables[i]) matches TomlNode::Section(other)
                && !names_binding(
                other,
                request.agent_id@,
                request.channel@,
                request.guild_id,
                request.workspace_id,
                request.chat_id,
            )),
    ensures
        request.deleted(root) matches Ok(Some(after)) && after == root.insert(
            "bindings"@,
            TomlNode::Sections(tables.remove(at)),
        ),
{
    let identity = request.identity();
    lemma_first_binding(tables, 0, identity);
    assert(is_binding(section_entries(tables[at]), identity));
    assert forall|i: int| 0 <= i < at implies !is_binding(
        section_entries(#[trigger] tables[i]),
        identity,
    ) by {
        let other = tables[i]->Section_0;
        if is_binding(other, identity) {
            assert(names_binding(
                other,
                request.agent_id@,
                request.channel@,
                request.guild_id,
                request.workspace_id,
                request.chat_id,
            ));
        }
    }
}

/// A binding that is not there is neither changed nor deleted, and without any
/// bindings there is nothing to look for.
pub proof fn law_absent_binding_is_not_found(
    update: UpdateBindingRequest,
    deletion: DeleteBindingRequest,
    root: Entries,
    tables: Seq<TomlNode>,
)
    ensures
        !root.contains_key("bindings"@)
            ==> update.updated(root) == Err::<Option<Entries>, ApiError>(
            ApiError::NotFound,
        ) && deletion.deleted(root) == Err::<Option<Entries>, ApiError>(ApiError::NotFound),
        root.contains_key("bindings"@) && root["bindings"@] == TomlNode::Sections(tables) && (
        forall|i: int|
            0 <= i < tables.len() ==> node_at(
                section_entries(#[trigger] tables[i]),
                "agent_id"@,
            ) != TomlNode::Text(update.original_agent_id@) && node_at(
                section_entries(tables[i]),
                "agent_id"@,
            ) != TomlNode::Text(deletion.agent_id@)) ==> update.updated(root) == Ok::<
            Option<Entries>,
            ApiError,
        >(None) && deletion.deleted(root) == Ok::<Option<Entries>, ApiError>(None),
{
    lemma_first_binding(tables, 0, update.original_identity());
    lemma_first_binding(tables, 0, deletion.identity());
}

/// A new binding comes behind those that are there, which stay as they are.
pub proof fn law_new_binding_comes_last(
    request: CreateBindingRequest,
    root: Entries,
    tables: Seq<TomlNode>,
)
    requires
        request.platform_credentials is None,
        root.contains_key("bindings"@) ==> root["bindings"@] == TomlNode::Sections(tables),
        !root.contains_key("bindings"@) ==> tables.len() == 0,
    ensures
        request.created(root) matches Some(after)
            && node_at(after, "bindings"@) == TomlNode::Sections(
            tables.push(TomlNode::Section(request.table())),
        ),
{
    if !root.contains_key("bindings"@) {
        assert(tables =~= Seq::<TomlNode>::empty());
    }
}

/// What stands under a key of a platform's table in `[messaging]`.
pub open spec fn platform_value(root: Entries, platform: Seq<char>, key: Seq<char>) -> TomlNode {
    match node_at(root, "messaging"@) {
        TomlNode::Section(messaging) => match node_at(messaging, platform) {
            TomlNode::Section(section) => node_at(section, key),
            _ => TomlNode::Absent,
        },
        _ => TomlNode::Absent,
    }
}

proof fn lemma_platforms_differ()
    ensures
        "discord"@ != "slack"@,
        "discord"@ != "telegram"@,
        "discord"@ != "twitch"@,
        "slack"@ != "telegram"@,
        "slack"@ != "twitch"@,
        "telegram"@ != "twitch"@,
{
    reveal_strlit("discord");
    reveal_strlit("slack");
    reveal_strlit("telegram");
    reveal_strlit("twitch");
    assert("discord"@.len() == 7);
    assert("slack"@.len() == 5);
    assert("telegram"@.len() == 8);
    assert("twitch"@.len() == 6);
}

proof fn lemma_credential_keys_differ()
    ensures
        "enabled"@ != "token"@,
        "enabled"@ != "bot_token"@,
        "enabled"@ != "app_token"@,
        "enabled"@ != "username"@,
        "enabled"@ != "oauth_token"@,
        "token"@ != "bot_token"@,
        "token"@ != "app_token"@,
        "token"@ != "username"@,
        "token"@ != "oauth_token"@,
        "bot_token"@ != "app_token"@,
        "bot_token"@ != "username"@,
        "bot_token"@ != "oauth_token"@,
        "app_token"@ != "username"@,
        "app_token"@ != "oauth_token"@,
        "username"@ != "oauth_token"@,
{
    reveal_strlit("enabled");
    reveal_strlit("token");
    reveal_strlit("bot_token");
    reveal_strlit("app_token");
    reveal_strlit("username");
    reveal_strlit("oauth_token");
    assert("enabled"@.len() == 7);
    assert("token"@.len() == 5);
    assert("bot_token"@.len() == 9);
    assert("app_token"@.len() == 9);
    assert("username"@.len() == 8);
    assert("oauth_token"@.len() == 11);
    assert("bot_token"@[0] != "app_token"@[0]);
}

/// The table of a platform is changed just where all of its credentials are given
/// and none is empty: it is then enabled and holds each of them under its name.
/// Whatever else is there stays.
pub proof fn law_credentials_are_read_back(
    credentials: PlatformCredentials,
    root: Entries,
    platform: Seq<char>,
    key: Seq<char>,
)
    requires
        credentials.applied(root) is Some,
    ensures
        ({
            let after = credentials.applied(root)->0;
            &&& credentials.discord_token is Some && credentials.discord_token->0@.len() > 0 ==> {
                &&& platform_value(after, "discord"@, "enabled"@) == TomlNode::Flag(true)
                &&& platform_value(after, "discord"@, "token"@)
                    == TomlNode::Text(credentials.discord_token->0@)
                &&& key != "enabled"@ && key != "token"@
                    ==> platform_value(after, "discord"@, key)
                    == platform_value(root, "discord"@, key)
            }
            &&& !(credentials.discord_token is Some && credentials.discord_token->0@.len() > 0)
                ==> platform_value(after, "discord"@, key) == platform_value(root, "discord"@, key)
            &&& credentials.slack_bot_token is Some && credentials.slack_bot_token->0@.len() > 0
                && credentials.slack_app_token is Some && credentials.slack_app_token->0@.len() > 0
                ==> {
                &&& platform_value(after, "slack"@, "enabled"@) == TomlNode::Flag(true)
                &&& platform_value(after, "slack"@, "bot_token"@)
                    == TomlNode::Text(credentials.slack_bot_token->0@)
                &&& platform_value(after, "slack"@, "app_token"@)
                    == TomlNode::Text(credentials.slack_app_token->0@)
                &&& key != "enabled"@ && key != "bot_token"@ && key != "app_token"@
                    ==> platform_value(after, "slack"@, key) == platform_value(root, "slack"@, key)
            }
            &&& !(credentials.slack_bot_token is Some && credentials.slack_bot_token->0@.len() > 0
                && credentials.slack_app_token is Some && credentials.slack_app_token->0@.len() > 0)
                ==> platform_value(after, "slack"@, key) == platform_value(root, "slack"@, key)
            &&& credentials.telegram_token is Some && credentials.telegram_token->0@.len() > 0 ==> {
                &&& platform_value(after, "telegram"@, "enabled"@) == TomlNode::Flag(true)
                &&& platform_value(after, "telegram"@, "token"@)
                    == TomlNode::Text(credentials.telegram_token->0@)
                &&& key != "enabled"@ && key != "token"@
                    ==> platform_value(after, "telegram"@, key)
                    == platform_value(root, "telegram"@, key)
            }
            &&& !(credentials.telegram_token is Some && credentials.telegram_token->0@.len() > 0)
                ==> platform_value(after, "telegram"@, key)
                == platform_value(root, "telegram"@, key)
            &&& credentials.twitch_username is Some && credentials.twitch_username->0@.len() > 0
                && credentials.twitch_oauth_token is Some
                && credentials.twitch_oauth_token->0@.len() > 0 ==> {
                &&& platform_value(after, "twitch"@, "enabled"@) == TomlNode::Flag(true)
                &&& platform_value(after, "twitch"@, "username"@)
                    == TomlNode::Text(credentials.twitch_username->0@)
                &&& platform_value(after, "twitch"@, "oauth_token"@)
                    == TomlNode::Text(credentials.twitch_oauth_token->0@)
                &&& key != "enabled"@ && key != "username"@ && key != "oauth_token"@
                    ==> platform_value(after, "twitch"@, key)
                    == platform_value(root, "twitch"@, key)
            }
            &&& !(credentials.twitch_username is Some && credentials.twitch_username->0@.len() > 0
                && credentials.twitch_oauth_token is Some
                && credentials.twitch_oauth_token->0@.len() > 0)
                ==> platform_value(after, "twitch"@, key) == platform_value(root, "twitch"@, key)
            &&& platform != "discord"@ && platform != "slack"@ && platform != "telegram"@
                && platform
                != "twitch"@ ==> platform_value(after, platform, key) == platform_value(
                root,
                platform,
                key,
            )
            &&& key != "messaging"@ ==> node_at(after, key) == node_at(root, key)
        }),
{
    lemma_platforms_differ();
    lemma_credential_keys_differ();
    let discord = with_token(Some(root), "discord"@, view_of(credentials.discord_token))->0;
    let slack = with_pair(
        Some(discord),
        "slack"@,
        ("bot_token"@, "app_token"@),
        credentials.slack(),
    )->0;
    let telegram = with_token(Some(slack), "telegram"@, view_of(credentials.telegram_token))->0;
    assert(with_pair(
        Some(telegram),
        "twitch"@,
        ("username"@, "oauth_token"@),
        credentials.twitch(),
    ) == credentials.applied(root));
}

/// All bindings are listed where no agent is asked for, and else just those of the
/// agent.
pub proof fn law_bindings_are_listed(
    bindings: Seq<BindingResponse>,
    agent_id: Seq<char>,
    binding: BindingResponse,
)
    ensures
        listed(bindings, None) == bindings,
        listed(bindings, Some(agent_id)).contains(binding) <==> bindings.contains(binding)
            && binding.agent_id@ == agent_id,
{
    lemma_all_listed(bindings);
    let shown = listed(bindings, Some(agent_id));
    if shown.contains(binding) {
        let i = choose|i: int| 0 <= i < shown.len() && shown[i] == binding;
        bindings.lemma_filter_contains_rev(of_agent(Some(agent_id)), binding);
        bindings.lemma_filter_pred(of_agent(Some(agent_id)), i);
    }
    if bindings.contains(binding) && binding.agent_id@ == agent_id {
        let i = choose|i: int| 0 <= i < bindings.len() && bindings[i] == binding;
        bindings.lemma_filter_contains(of_agent(Some(agent_id)), i);
    }
}

proof fn lemma_all_listed(bindings: Seq<BindingResponse>)
    ensures
        listed(bindings, None) == bindings,
    decreases bindings.len(),
{
    reveal(Seq::filter);
    if bindings.len() > 0 {
        lemma_all_listed(bindings.drop_last());
        assert(bindings.drop_last().push(bindings.last()) =~= bindings);
    }
}

/// What an update of a binding answers: that it could not be read or found, that no
/// binding matches, or the new content in which the binding is changed.
pub proof fn law_update_is_answered(
    content: &str,
    request: UpdateBindingRequest,
    result: Result<BindingChange, ApiError>,
    root: Entries,
)
    requires
        call_ensures(update_binding, (content, &request), result),
    ensures
        parsed_entries(content@) is None ==> result == Err::<BindingChange, ApiError>(
            ApiError::Internal,
        ),
        parsed_entries(content@) == Some(root) ==> {
            &&& request.updated(root) is Err ==> result is Err
            &&& request.updated(root) matches Ok(None) ==> (result matches Ok(change)
                && change.content is None && !change.success && change.message@
                == "No matching binding found."@)
            &&& request.updated(root) matches Ok(Some(changed)) ==> (result matches Ok(change)
                && change.success && change.message@ == "Binding updated."@ && (
            change.content matches Some(text) && exists|doc: DocumentMut| #[trigger]
                printed(doc) == text@ && document_entries(doc) == changed))
        },
{
}

/// What a deletion of a binding answers: that it could not be read or found, that no
/// binding matches, or the new content without the binding.
pub proof fn law_deletion_is_answered(
    content: &str,
    request: DeleteBindingRequest,
    result: Result<BindingChange, ApiError>,
    root: Entries,
)
    requires
        call_ensures(delete_binding, (content, &request), result),
    ensures
        parsed_entries(content@) is None ==> result == Err::<BindingChange, ApiError>(
            ApiError::Internal,
        ),
        parsed_entries(content@) == Some(root) ==> {
            &&& request.deleted(root) is Err ==> result is Err
            &&& request.deleted(root) matches Ok(None) ==> (result matches Ok(change)
                && change.content is None && !change.success && change.message@
                == "No matching binding found."@)
            &&& request.deleted(root) matches Ok(Some(changed)) ==> (result matches Ok(change)
                && change.success && change.message@ == "Binding deleted."@ && (
            change.content matches Some(text) && exists|doc: DocumentMut| #[trigger]
                printed(doc) == text@ && document_entries(doc) == changed))
        },
{
}

/// The new credentials are those that were given and are not empty; of a pair both.
pub proof fn law_new_credentials_are_the_given(
    new: NewCredentials,
    credentials: PlatformCredentials,
    token: String,
    other: String,
)
    requires
        new.are_of(Some(credentials)),
    ensures
        credentials.discord_token == Some(token) && token@.len() > 0 ==> (
        new.discord_token matches Some(kept) && kept@ == token@),
        credentials.discord_token is None ==> new.discord_token is None,
        credentials.telegram_token == Some(token) && token@.len() > 0 ==> (
        new.telegram_token matches Some(kept) && kept@ == token@),
        credentials.telegram_token is None ==> new.telegram_token is None,
        credentials.slack_bot_token == Some(token) && credentials.slack_app_token == Some(other)
            && token@.len() > 0 && other@.len() > 0
                ==> (new.slack_tokens matches Some(pair) && pair.0@
            == token@ && pair.1@ == other@),
        credentials.slack_bot_token is None || credentials.slack_app_token is None
            ==> new.slack_tokens is None,
        credentials.twitch_username == Some(token) && credentials.twitch_oauth_token == Some(other)
            && token@.len() > 0 && other@.len() > 0
                ==> (new.twitch_creds matches Some(pair) && pair.0@
            == token@ && pair.1@ == other@),
        credentials.twitch_username is None || credentials.twitch_oauth_token is None
            ==> new.twitch_creds is None,
{
}

/// A new binding brings the credentials that come with it into the configuration,
/// and changes nothing there beside them and the bindings.
pub proof fn law_new_binding_brings_its_credentials(
    request: CreateBindingRequest,
    credentials: PlatformCredentials,
    root: Entries,
    key: Seq<char>,
)
    requires
        request.created(root) is Some,
        request.platform_credentials == Some(credentials),
    ensures
        ({
            let after = request.created(root)->0;
            &&& credentials.discord_token is Some && credentials.discord_token->0@.len() > 0
                ==> platform_value(after, "discord"@, "token"@) == TomlNode::Text(
                credentials.discord_token->0@,
            )
            &&& credentials.telegram_token is Some && credentials.telegram_token->0@.len() > 0
                ==> platform_value(after, "telegram"@, "token"@) == TomlNode::Text(
                credentials.telegram_token->0@,
            )
            &&& credentials.slack_bot_token is Some && credentials.slack_bot_token->0@.len() > 0
                && credentials.slack_app_token is Some && credentials.slack_app_token->0@.len() > 0
                ==> platform_value(after, "slack"@, "bot_token"@) == TomlNode::Text(
                credentials.slack_bot_token->0@,
            ) && platform_value(after, "slack"@, "app_token"@) == TomlNode::Text(
                credentials.slack_app_token->0@,
            )
            &&& credentials.twitch_username is Some && credentials.twitch_username->0@.len() > 0
                && credentials.twitch_oauth_token is Some
                && credentials.twitch_oauth_token->0@.len() > 0 ==> platform_value(
                after,
                "twitch"@,
                "username"@,
            ) == TomlNode::Text(credentials.twitch_username->0@) && platform_value(
                after,
                "twitch"@,
                "oauth_token"@,
            ) == TomlNode::Text(credentials.twitch_oauth_token->0@)
            &&& key != "messaging"@ && key != "bindings"@ ==> node_at(after, key) == node_at(root, key)
        }),
{
    law_credentials_are_read_back(credentials, root, "discord"@, key);
    reveal_strlit("messaging");
    reveal_strlit("bindings");
    assert("messaging"@.len() == 9 && "bindings"@.len() == 8);
}

/// A new binding without credentials changes nothing beside the bindings.
pub proof fn law_new_binding_alone_keeps_the_rest(
    request: CreateBindingRequest,
    root: Entries,
    key: Seq<char>,
)
    requires
        request.created(root) is Some,
        request.platform_credentials is None,
        key != "bindings"@,
    ensures
        node_at(request.created(root)->0, key) == node_at(root, key),
{
}

/// A platform for which no token is given stays written as it is, down to its white
/// space and comments, and so does `[messaging]` as a whole where none is given at
/// all.
pub proof fn law_platforms_without_token_stay_as_written(
    credentials: PlatformCredentials,
    from: TableLayout,
    to: TableLayout,
    platform: Seq<char>,
)
    ensures
        credentials.keeps_sections(from, to) && from.entries.contains_key(platform) && {
            ||| platform == "discord"@ && credentials.discord_token is None
            ||| platform == "slack"@ && (credentials.slack_bot_token is None
                || credentials.slack_app_token is None)
            ||| platform == "telegram"@ && credentials.telegram_token is None
            ||| platform == "twitch"@ && (credentials.twitch_username is None
                || credentials.twitch_oauth_token is None)
            ||| platform != "discord"@ && platform != "slack"@ && platform != "telegram"@
                && platform != "twitch"@
        } ==> to.entries.contains_key(platform) && to.entries[platform].item
            == from.entries[platform].item,
        credentials.keeps_root(from, to) && from.entries.contains_key("messaging"@)
            && credentials.discord_token is None && credentials.slack_bot_token is None
            && credentials.telegram_token is None && credentials.twitch_username is None
            ==> to.entries.contains_key("messaging"@) && to.entries["messaging"@].item
            == from.entries["messaging"@].item,
{
    lemma_platforms_differ();
}

/// Where no credentials come with a binding, none are new.
pub proof fn law_no_credentials_are_made_up(new: NewCredentials)
    requires
        new.are_of(None),
    ensures
        new.discord_token is None,
        new.slack_tokens is None,
        new.telegram_token is None,
        new.twitch_creds is None,
        !new.any_given(),
{
}

} // verus!
