//! Messaging platforms: which are configured, switching one on or off, and
//! disconnecting one. Also what is to be reloaded after the configuration
//! changed.

use crate::api::bindings::{hot_reload_disposition, HotReloadDisposition, NewCredentials};
use crate::api::error::ApiError;
use crate::text::text_eq;
use crate::toml_doc::{
    child_table_mut, document_entries, document_layout, document_text, document_trailing, elements,
    flag_of_node, inline_text, inline_with, item_get, item_layout, item_node, left_of, like_at,
    node_at, optional_node, parse_document, parsed_entries, parsed_toml, printed, prints_edit,
    remove_inline, remove_inlines, remove_with_text, root_is_table, section_text, section_with,
    set_flag, text_of_node, without_inline, without_text, Entries, TomlNode,
};
use crate::toml_layout::{
    inner_kept_but, item_edited, kept_but, layout_at, no_key, only, section_layout, Layout,
    ListLayout, TableLayout,
};
use toml_edit::{DocumentMut, Item};
use vstd::prelude::*;
use vstd::string::*;

verus! {

/// Whether a platform has its credentials, and whether it is on.
#[derive(Clone, Copy, Debug, PartialEq, Eq, Structural)]
pub struct PlatformStatus {
    pub configured: bool,
    pub enabled: bool,
}

#[derive(Clone, Copy, Debug, PartialEq, Eq, Structural)]
pub struct MessagingStatusResponse {
    pub discord: PlatformStatus,
    pub slack: PlatformStatus,
    pub telegram: PlatformStatus,
    pub webhook: PlatformStatus,
    pub twitch: PlatformStatus,
}

/// Whether a section holds a text that is not empty under a key.
pub open spec fn has_credential(section: TomlNode, key: Seq<char>) -> bool {
    match text_of_node(like_at(section, key)) {
        Some(text) => text.len() > 0,
        None => false,
    }
}

/// The section of a platform.
pub open spec fn platform_section(root: Entries, platform: Seq<char>) -> TomlNode {
    like_at(node_at(root, "messaging"@), platform)
}

/// Whether a section is switched on.
pub open spec fn is_on(section: TomlNode) -> bool {
    flag_of_node(like_at(section, "enabled"@)) == Some(true)
}

/// The status of a platform with one credential.
pub open spec fn single_status(section: TomlNode, key: Seq<char>) -> PlatformStatus {
    PlatformStatus {
        configured: has_credential(section, key),
        enabled: has_credential(section, key) && is_on(section),
    }
}

/// The status of a platform with two credentials.
pub open spec fn double_status(section: TomlNode, first: Seq<char>, second: Seq<char>) -> PlatformStatus {
    PlatformStatus {
        configured: has_credential(section, first) && has_credential(section, second),
        enabled: has_credential(section, first) && has_credential(section, second) && is_on(section),
    }
}

/// The status of a platform that needs no credential.
pub open spec fn open_status(section: TomlNode) -> PlatformStatus {
    PlatformStatus { configured: section !is Absent, enabled: is_on(section) }
}

/// The status of every platform.
pub open spec fn statuses(root: Entries) -> MessagingStatusResponse {
    MessagingStatusResponse {
        discord: single_status(platform_section(root, "discord"@), "token"@),
        slack: double_status(platform_section(root, "slack"@), "bot_token"@, "app_token"@),
        telegram: single_status(platform_section(root, "telegram"@), "token"@),
        webhook: open_status(platform_section(root, "webhook"@)),
        twitch: double_status(platform_section(root, "twitch"@), "username"@, "oauth_token"@),
    }
}

fn section_of<'a>(doc: &'a DocumentMut, platform: &str) -> (section: Option<&'a Item>)
    requires
        root_is_table(*doc),
    ensures
        optional_node(section) == platform_section(document_entries(*doc), platform@),
        section is Some ==> optional_node(section) !is Absent,
{
    match doc.as_table().get("messaging") {
        Some(messaging) => item_get(messaging, platform),
        None => None,
    }
}

fn credential(section: Option<&Item>, key: &str) -> (given: bool)
    ensures
        given == has_credential(optional_node(section), key@),
{
    match section {
        Some(item) => match item_get(item, key) {
            Some(inner) => match inner.as_str() {
                Some(text) => !text.is_empty(),
                None => false,
            },
            None => false,
        },
        None => false,
    }
}

fn switched_on(section: Option<&Item>) -> (on: bool)
    ensures
        on == is_on(optional_node(section)),
{
    match section {
        Some(item) => match item_get(item, "enabled") {
            Some(inner) => match inner.as_bool() {
                Some(flag) => flag,
                None => false,
            },
            None => false,
        },
        None => false,
    }
}

fn single(section: Option<&Item>, key: &str) -> (status: PlatformStatus)
    ensures
        status == single_status(optional_node(section), key@),
{
    let configured = credential(section, key);
    PlatformStatus { configured, enabled: configured && switched_on(section) }
}

fn double(section: Option<&Item>, first: &str, second: &str) -> (status: PlatformStatus)
    ensures
        status == double_status(optional_node(section), first@, second@),
{
    let configured = credential(section, first) && credential(section, second);
    PlatformStatus { configured, enabled: configured && switched_on(section) }
}

/// The status of every platform in a document.
pub fn document_statuses(doc: &DocumentMut) -> (response: MessagingStatusResponse)
    requires
        root_is_table(*doc),
    ensures
        response == statuses(document_entries(*doc)),
{
    let webhook = section_of(doc, "webhook");
    let webhook_present = webhook.is_some();
    MessagingStatusResponse {
        discord: single(section_of(doc, "discord"), "token"),
        slack: double(section_of(doc, "slack"), "bot_token", "app_token"),
        telegram: single(section_of(doc, "telegram"), "token"),
        webhook: PlatformStatus { configured: webhook_present, enabled: switched_on(webhook) },
        twitch: double(section_of(doc, "twitch"), "username", "oauth_token"),
    }
}

/// The status of every platform. Without a configuration file none is
/// configured.
pub fn messaging_status(content: Option<&str>) -> (result: Result<MessagingStatusResponse, ApiError>)
    ensures
        match content {
            Some(text) => match parsed_entries(text@) {
                Some(root) => result == Ok::<_, ApiError>(statuses(root)),
                None => result == Err::<MessagingStatusResponse, _>(ApiError::Internal),
            },
            None => result == Ok::<_, ApiError>(statuses(Map::empty())),
        },
{
    match content {
        Some(text) => match parse_document(text) {
            Some(doc) => Ok(document_statuses(&doc)),
            None => Err(ApiError::Internal),
        },
        None => {
            let off = PlatformStatus { configured: false, enabled: false };
            Ok(
                MessagingStatusResponse {
                    discord: off,
                    slack: off,
                    telegram: off,
                    webhook: off,
                    twitch: off,
                },
            )
        },
    }
}

/// A table of either form without a key; anything else stays.
pub open spec fn without_key(node: TomlNode, key: Seq<char>) -> TomlNode {
    match node {
        TomlNode::Section(entries) => TomlNode::Section(entries.remove(key)),
        TomlNode::Inline(entries) => TomlNode::Inline(entries.remove(key)),
        _ => node,
    }
}

/// Bindings without those of a platform, be they tables of an array of tables or
/// inline tables in an array of values.
pub open spec fn without_platform(bindings: TomlNode, platform: Seq<char>) -> TomlNode {
    match bindings {
        TomlNode::Sections(tables) => TomlNode::Sections(
            without_text(tables, "channel"@, platform),
        ),
        TomlNode::List(nodes) => TomlNode::List(without_inline(nodes, "channel"@, platform)),
        _ => bindings,
    }
}

/// Changes the node under a key, where there is one.
pub open spec fn with_changed(entries: Entries, key: Seq<char>, node: TomlNode) -> Entries {
    if entries.contains_key(key) {
        entries.insert(key, node)
    } else {
        entries
    }
}

/// The root table without the platform's section and without its bindings.
pub open spec fn disconnected(root: Entries, platform: Seq<char>) -> Entries {
    let without_section = with_changed(
        root,
        "messaging"@,
        without_key(node_at(root, "messaging"@), platform),
    );
    with_changed(
        without_section,
        "bindings"@,
        without_platform(node_at(without_section, "bindings"@), platform),
    )
}

/// Whether bindings are written as before, but for those of the platform, which
/// were taken out.
pub open spec fn keeps_bindings(
    bindings: TomlNode,
    platform: Seq<char>,
    from: Layout,
    to: Layout,
) -> bool {
    match bindings {
        TomlNode::Sections(tables) => from is Sections && to == Layout::Sections(
            left_of(tables, from->Sections_0, section_with("channel"@, platform)),
        ),
        TomlNode::List(nodes) => from is List && to == Layout::List(
            ListLayout {
                values: left_of(nodes, from->List_0.values, inline_with("channel"@, platform)),
                ..from->List_0
            },
        ),
        _ => to == from,
    }
}

/// Whether a document is written as before, but for the platform's section and its
/// bindings, which were taken out.
pub open spec fn keeps_disconnected(
    root: Entries,
    platform: Seq<char>,
    from: TableLayout,
    to: TableLayout,
) -> bool {
    &&& kept_but(from, to, |key: Seq<char>| key == "messaging"@ || key == "bindings"@)
    &&& item_edited(
        layout_at(from, "messaging"@),
        layout_at(to, "messaging"@),
        no_key(),
        only(platform, true),
    )
    &&& keeps_bindings(
        node_at(root, "bindings"@),
        platform,
        layout_at(from, "bindings"@),
        layout_at(to, "bindings"@),
    )
}

fn remove_section(messaging: &mut Item, platform: &str)
    ensures
        item_node(*final(messaging)) == without_key(item_node(*old(messaging)), platform@),
        item_edited(
            item_layout(*old(messaging)),
            item_layout(*final(messaging)),
            no_key(),
            only(platform@, true),
        ),
{
    if messaging.as_table().is_some() {
        match messaging.as_table_mut() {
            Some(table) => {
                let _section = table.remove(platform);
            },
            None => {},
        }
    } else if messaging.is_table_like() {
        match messaging.as_inline_table_mut() {
            Some(table) => remove_inline(table, platform),
            None => {},
        }
    }
}

fn remove_bindings(bindings: &mut Item, platform: &str)
    ensures
        item_node(*final(bindings)) == without_platform(item_node(*old(bindings)), platform@),
        keeps_bindings(
            item_node(*old(bindings)),
            platform@,
            item_layout(*old(bindings)),
            item_layout(*final(bindings)),
        ),
{
    if bindings.as_array_of_tables().is_some() {
        match bindings.as_array_of_tables_mut() {
            Some(tables) => remove_with_text(tables, "channel", platform),
            None => {},
        }
    } else {
        remove_inlines(bindings, "channel", platform);
    }
}

/// Removes a platform's section and its bindings from a document.
pub fn remove_platform(doc: DocumentMut, platform: &str) -> (changed: DocumentMut)
    requires
        root_is_table(doc),
    ensures
        root_is_table(changed),
        document_entries(changed) == disconnected(document_entries(doc), platform@),
        keeps_disconnected(
            document_entries(doc),
            platform@,
            document_layout(doc),
            document_layout(changed),
        ),
        document_trailing(changed) == document_trailing(doc),
{
    proof {
        lemma_section_keys();
    }
    let mut doc = doc;
    let root = doc.as_table_mut();
    match root.get_mut("messaging") {
        Some(messaging) => remove_section(messaging, platform),
        None => {},
    }
    match root.get_mut("bindings") {
        Some(bindings) => remove_bindings(bindings, platform),
        None => {},
    }
    doc
}

/// An answer with the new content of the configuration, where it changes.
#[derive(Clone, Debug)]
pub struct PlatformChange {
    pub content: Option<String>,
    pub success: bool,
    pub message: String,
}

/// Disconnects a platform in the configuration text.
pub fn disconnect_platform(content: &str, platform: &str) -> (result: Result<PlatformChange, ApiError>)
    ensures
        match parsed_entries(content@) {
            None => result == Err::<PlatformChange, _>(ApiError::Internal),
            Some(root) => {
                &&& result is Ok
                &&& result->Ok_0.content is Some
                &&& prints_edit(
                    result->Ok_0.content->0@,
                    parsed_toml(content@)->0,
                    disconnected(root, platform@),
                    |from: TableLayout, to: TableLayout|
                        keeps_disconnected(root, platform@, from, to),
                )
                &&& result->Ok_0.success
                &&& result->Ok_0.message@ == platform@ + " disconnected"@
            },
        },
{
    let doc = match parse_document(content) {
        Some(doc) => doc,
        None => {
            return Err(ApiError::Internal);
        },
    };
    let changed = remove_platform(doc, platform);
    let text = document_text(&changed);
    assert(printed(changed) == text@);
    Ok(
        PlatformChange {
            content: Some(text),
            success: true,
            message: platform.to_owned().concat(" disconnected"),
        },
    )
}

/// The root table with the platform switched, or `None` where the platform has
/// no table.
pub open spec fn toggled(root: Entries, platform: Seq<char>, enabled: bool) -> Option<Entries> {
    match node_at(root, "messaging"@) {
        TomlNode::Section(messaging) => match node_at(messaging, platform) {
            TomlNode::Section(section) => Some(
                root.insert(
                    "messaging"@,
                    TomlNode::Section(
                        messaging.insert(
                            platform,
                            TomlNode::Section(section.insert("enabled"@, TomlNode::Flag(enabled))),
                        ),
                    ),
                ),
            ),
            _ => None,
        },
        _ => None,
    }
}

/// Whether a document is written as before, but for the switch of a platform.
pub open spec fn keeps_toggled(platform: Seq<char>, from: TableLayout, to: TableLayout) -> bool {
    &&& kept_but(from, to, only("messaging"@, true))
    &&& section_layout(from, "messaging"@) is Some
    &&& section_layout(to, "messaging"@) is Some
    &&& kept_but(
        section_layout(from, "messaging"@)->0,
        section_layout(to, "messaging"@)->0,
        only(platform, true),
    )
    &&& inner_kept_but(
        section_layout(from, "messaging"@)->0,
        section_layout(to, "messaging"@)->0,
        platform,
        only("enabled"@, true),
    )
}

/// Switches a platform in a document. `None` where it has no table.
pub fn switch_platform(doc: DocumentMut, platform: &str, enabled: bool) -> (changed: Option<DocumentMut>)
    requires
        root_is_table(doc),
    ensures
        match changed {
            Some(after) => {
                &&& toggled(document_entries(doc), platform@, enabled) == Some(
                    document_entries(after),
                )
                &&& root_is_table(after)
                &&& keeps_toggled(platform@, document_layout(doc), document_layout(after))
                &&& document_trailing(after) == document_trailing(doc)
            },
            None => toggled(document_entries(doc), platform@, enabled) is None,
        },
{
    let mut doc = doc;
    let root = doc.as_table_mut();
    match child_table_mut(root, "messaging") {
        Some(messaging) => match child_table_mut(messaging, platform) {
            Some(section) => {
                set_flag(section, "enabled", enabled);
            },
            None => {
                return None;
            },
        },
        None => {
            return None;
        },
    }
    Some(doc)
}

/// Switches a platform in the configuration text.
pub fn toggle_platform(content: &str, platform: &str, enabled: bool) -> (result: Result<
    PlatformChange,
    ApiError,
>)
    ensures
        match parsed_entries(content@) {
            None => result == Err::<PlatformChange, _>(ApiError::Internal),
            Some(root) => match toggled(root, platform@, enabled) {
                None => {
                    &&& result is Ok
                    &&& result->Ok_0.content is None
                    &&& !result->Ok_0.success
                    &&& result->Ok_0.message@ == platform@ + " is not configured"@
                },
                Some(changed) => {
                    &&& result is Ok
                    &&& result->Ok_0.content is Some
                    &&& prints_edit(
                        result->Ok_0.content->0@,
                        parsed_toml(content@)->0,
                        changed,
                        |from: TableLayout, to: TableLayout| keeps_toggled(platform@, from, to),
                    )
                    &&& result->Ok_0.success
                    &&& result->Ok_0.message@ == platform@ + (if enabled {
                        " enabled"@
                    } else {
                        " disabled"@
                    })
                },
            },
        },
{
    let doc = match parse_document(content) {
        Some(doc) => doc,
        None => {
            return Err(ApiError::Internal);
        },
    };
    match switch_platform(doc, platform, enabled) {
        Some(changed) => {
            let text = document_text(&changed);
            assert(printed(changed) == text@);
            let action = if enabled {
                " enabled"
            } else {
                " disabled"
            };
            Ok(
                PlatformChange {
                    content: Some(text),
                    success: true,
                    message: platform.to_owned().concat(action),
                },
            )
        },
        None => Ok(
            PlatformChange {
                content: None,
                success: false,
                message: platform.to_owned().concat(" is not configured"),
            },
        ),
    }
}

/// The platforms that have a section in a loaded configuration.
#[derive(Clone, Copy, Debug, PartialEq, Eq, Structural)]
pub struct ConfiguredPlatforms {
    pub discord: bool,
    pub slack: bool,
    pub telegram: bool,
    pub webhook: bool,
    pub twitch: bool,
}

/// What to do with an adapter after its platform was switched.
#[derive(Clone, Copy, Debug, PartialEq, Eq, Structural)]
pub enum AdapterAction {
    Nothing,
    StartDiscord,
    StartSlack,
    StartTelegram,
    StartWebhook,
    StartTwitch,
    Remove,
}

/// The adapter of a platform that was switched: one that was switched off is
/// shut down; one that was switched on starts where its section is there.
/// Without a manager nothing happens.
pub open spec fn adapter_action(
    platform: Seq<char>,
    enabled: bool,
    has_manager: bool,
    configured: ConfiguredPlatforms,
) -> AdapterAction {
    if !has_manager {
        AdapterAction::Nothing
    } else if !enabled {
        AdapterAction::Remove
    } else if platform == "discord"@ && configured.discord {
        AdapterAction::StartDiscord
    } else if platform == "slack"@ && configured.slack {
        AdapterAction::StartSlack
    } else if platform == "telegram"@ && configured.telegram {
        AdapterAction::StartTelegram
    } else if platform == "webhook"@ && configured.webhook {
        AdapterAction::StartWebhook
    } else if platform == "twitch"@ && configured.twitch {
        AdapterAction::StartTwitch
    } else {
        AdapterAction::Nothing
    }
}

/// What to do with the adapter of a platform that was switched.
pub fn toggle_action(
    platform: &str,
    enabled: bool,
    has_manager: bool,
    configured: &ConfiguredPlatforms,
) -> (action: AdapterAction)
    ensures
        action == adapter_action(platform@, enabled, has_manager, *configured),
{
    if !has_manager {
        AdapterAction::Nothing
    } else if !enabled {
        AdapterAction::Remove
    } else if text_eq(platform, "discord") && configured.discord {
        AdapterAction::StartDiscord
    } else if text_eq(platform, "slack") && configured.slack {
        AdapterAction::StartSlack
    } else if text_eq(platform, "telegram") && configured.telegram {
        AdapterAction::StartTelegram
    } else if text_eq(platform, "webhook") && configured.webhook {
        AdapterAction::StartWebhook
    } else if text_eq(platform, "twitch") && configured.twitch {
        AdapterAction::StartTwitch
    } else {
        AdapterAction::Nothing
    }
}

/// The parts of the running API that a reload can reach.
#[derive(Clone, Copy, Debug, PartialEq, Eq, Structural)]
pub struct ReloadTargets {
    pub bindings: bool,
    pub discord_permissions: bool,
    pub slack_permissions: bool,
    pub manager: bool,
}

/// What is to be done after a binding changed and the configuration was loaded
/// again.
#[derive(Clone, Copy, Debug, PartialEq, Eq, Structural)]
pub struct ReloadPlan {
    pub store_bindings: bool,
    pub store_discord_permissions: bool,
    pub store_slack_permissions: bool,
    /// Permissions that an adapter needs and nobody has made yet.
    pub make_discord_permissions: bool,
    pub make_slack_permissions: bool,
    pub start_discord: bool,
    pub start_slack: bool,
    pub start_telegram: bool,
    pub start_twitch: bool,
}

impl NewCredentials {
    /// The plan after a binding was created: what is stored goes where it has
    /// a place; an adapter starts where a manager runs, new credentials came
    /// and its section is there.
    pub open spec fn plan(self, configured: ConfiguredPlatforms, targets: ReloadTargets) -> ReloadPlan {
        let discord = targets.manager && self.discord_token is Some && configured.discord;
        let slack = targets.manager && self.slack_tokens is Some && configured.slack;
        ReloadPlan {
            store_bindings: targets.bindings,
            store_discord_permissions: configured.discord && targets.discord_permissions,
            store_slack_permissions: configured.slack && targets.slack_permissions,
            make_discord_permissions: discord && !targets.discord_permissions,
            make_slack_permissions: slack && !targets.slack_permissions,
            start_discord: discord,
            start_slack: slack,
            start_telegram: targets.manager && self.telegram_token is Some && configured.telegram,
            start_twitch: targets.manager && self.twitch_creds is Some && configured.twitch,
        }
    }
}

fn starts(platform: &str, has_credentials: bool, has_config: bool) -> (start: bool)
    ensures
        start == (has_credentials && has_config),
{
    match hot_reload_disposition(platform, has_credentials, has_config) {
        HotReloadDisposition::Start => true,
        _ => false,
    }
}

/// The plan after a binding was created.
pub fn reload_plan(
    new: &NewCredentials,
    configured: &ConfiguredPlatforms,
    targets: &ReloadTargets,
) -> (plan: ReloadPlan)
    ensures
        plan == new.plan(*configured, *targets),
{
    let start_discord = targets.manager && starts(
        "discord",
        new.discord_token.is_some(),
        configured.discord,
    );
    let start_slack = targets.manager && starts("slack", new.slack_tokens.is_some(), configured.slack);
    let start_telegram = targets.manager && starts(
        "telegram",
        new.telegram_token.is_some(),
        configured.telegram,
    );
    let start_twitch = targets.manager && starts(
        "twitch",
        new.twitch_creds.is_some(),
        configured.twitch,
    );
    ReloadPlan {
        store_bindings: targets.bindings,
        store_discord_permissions: configured.discord && targets.discord_permissions,
        store_slack_permissions: configured.slack && targets.slack_permissions,
        make_discord_permissions: start_discord && !targets.discord_permissions,
        make_slack_permissions: start_slack && !targets.slack_permissions,
        start_discord,
        start_slack,
        start_telegram,
        start_twitch,
    }
}

/// The keys of the sections are distinct.
proof fn lemma_section_keys()
    ensures
        "messaging"@ != "bindings"@,
{
    reveal_strlit("messaging");
    reveal_strlit("bindings");
    assert("messaging"@.len() == 9 && "bindings"@.len() == 8);
}

/// The channel that a binding names, be it a table of an array of tables or an
/// inline table in an array of values.
pub open spec fn bound_channel(bindings: TomlNode, i: int) -> Option<Seq<char>> {
    match bindings {
        TomlNode::Sections(tables) => section_text(tables[i], "channel"@),
        TomlNode::List(nodes) => inline_text(nodes[i], "channel"@),
        _ => None,
    }
}

/// After a platform was disconnected no binding of it is left, and every other
/// binding is.
pub proof fn law_disconnect_leaves_no_binding(root: Entries, platform: Seq<char>)
    ensures
        ({
            let before = node_at(root, "bindings"@);
            let left = node_at(disconnected(root, platform), "bindings"@);
            &&& forall|i: int|
                0 <= i < elements(left).len() ==> #[trigger] bound_channel(left, i) != Some(
                    platform,
                )
            &&& forall|i: int|
                0 <= i < elements(before).len() && #[trigger] bound_channel(before, i) != Some(
                    platform,
                ) ==> elements(left).contains(elements(before)[i])
            &&& elements(before).len() == 0 ==> left == before
        }),
{
    lemma_section_keys();
    let before = node_at(root, "bindings"@);
    let left = node_at(disconnected(root, platform), "bindings"@);
    broadcast use vstd::seq_lib::group_filter_ensures;
    match before {
        TomlNode::Sections(tables) => {
            let keep = |table: TomlNode| section_text(table, "channel"@) != Some(platform);
            assert(left == TomlNode::Sections(tables.filter(keep)));
            assert forall|i: int| 0 <= i < elements(left).len() implies #[trigger] bound_channel(
                left,
                i,
            ) != Some(platform) by {
                assert(keep(tables.filter(keep)[i]));
            }
            assert forall|i: int|
                0 <= i < tables.len() && #[trigger] bound_channel(before, i) != Some(
                    platform,
                ) implies elements(left).contains(tables[i]) by {
                assert(tables.contains(tables[i]));
                assert(keep(tables[i]));
            }
            if tables.len() == 0 {
                assert(tables.filter(keep) =~= tables) by {
                    reveal(Seq::filter);
                }
            }
        },
        TomlNode::List(nodes) => {
            let keep = |node: TomlNode| inline_text(node, "channel"@) != Some(platform);
            assert(left == TomlNode::List(nodes.filter(keep)));
            assert forall|i: int| 0 <= i < elements(left).len() implies #[trigger] bound_channel(
                left,
                i,
            ) != Some(platform) by {
                assert(keep(nodes.filter(keep)[i]));
            }
            assert forall|i: int|
                0 <= i < nodes.len() && #[trigger] bound_channel(before, i) != Some(
                    platform,
                ) implies elements(left).contains(nodes[i]) by {
                assert(nodes.contains(nodes[i]));
                assert(keep(nodes[i]));
            }
            if nodes.len() == 0 {
                assert(nodes.filter(keep) =~= nodes) by {
                    reveal(Seq::filter);
                }
            }
        },
        _ => {},
    }
}

/// After a platform was disconnected it has no section.
pub proof fn law_disconnect_removes_section(root: Entries, platform: Seq<char>)
    ensures
        platform_section(disconnected(root, platform), platform) is Absent,
{
    lemma_section_keys();
}

/// Switching a platform twice is the same as switching it once, to the second
/// setting.
pub proof fn law_toggle_last_wins(root: Entries, platform: Seq<char>, first: bool, second: bool)
    requires
        toggled(root, platform, first) is Some,
    ensures
        toggled(toggled(root, platform, first)->0, platform, second) == toggled(
            root,
            platform,
            second,
        ),
{
    let once = toggled(root, platform, first)->0;
    let messaging = root["messaging"@]->Section_0;
    let section = messaging[platform]->Section_0;
    let section_once = section.insert("enabled"@, TomlNode::Flag(first));
    let messaging_once = messaging.insert(platform, TomlNode::Section(section_once));
    assert(section_once.insert("enabled"@, TomlNode::Flag(second)) =~= section.insert(
        "enabled"@,
        TomlNode::Flag(second),
    ));
    let last = TomlNode::Section(section.insert("enabled"@, TomlNode::Flag(second)));
    assert(messaging_once.insert(platform, last) =~= messaging.insert(platform, last));
    let whole = TomlNode::Section(messaging.insert(platform, last));
    assert(once.insert("messaging"@, whole) =~= root.insert("messaging"@, whole));
}

/// Switching a platform changes what is reported of it in one way: with its
/// credential it is on exactly where it was switched on.
pub proof fn law_toggle_is_reported(
    root: Entries,
    platform: Seq<char>,
    key: Seq<char>,
    enabled: bool,
)
    requires
        toggled(root, platform, enabled) is Some,
        key != "enabled"@,
    ensures
        ({
            let before = platform_section(root, platform);
            let after = platform_section(toggled(root, platform, enabled)->0, platform);
            single_status(after, key) == (PlatformStatus {
                configured: single_status(before, key).configured,
                enabled: single_status(before, key).configured && enabled,
            })
        }),
{
}

proof fn lemma_all_platforms_differ()
    ensures
        "discord"@ != "slack"@,
        "discord"@ != "telegram"@,
        "discord"@ != "webhook"@,
        "discord"@ != "twitch"@,
        "slack"@ != "telegram"@,
        "slack"@ != "webhook"@,
        "slack"@ != "twitch"@,
        "telegram"@ != "webhook"@,
        "telegram"@ != "twitch"@,
        "webhook"@ != "twitch"@,
{
    reveal_strlit("discord");
    reveal_strlit("slack");
    reveal_strlit("telegram");
    reveal_strlit("webhook");
    reveal_strlit("twitch");
    assert("discord"@.len() == 7);
    assert("slack"@.len() == 5);
    assert("telegram"@.len() == 8);
    assert("webhook"@.len() == 7);
    assert("twitch"@.len() == 6);
    assert("discord"@[0] != "webhook"@[0]);
}

/// What stands under a key of a platform's section, of whatever form the two tables
/// are.
pub open spec fn setting_of(root: Entries, platform: Seq<char>, key: Seq<char>) -> TomlNode {
    let messaging = match node_at(root, "messaging"@) {
        TomlNode::Section(entries) => entries,
        TomlNode::Inline(entries) => entries,
        _ => Map::empty(),
    };
    let section = match node_at(messaging, platform) {
        TomlNode::Section(entries) => entries,
        TomlNode::Inline(entries) => entries,
        _ => Map::empty(),
    };
    node_at(section, key)
}

/// Whether a text that is not empty stands under a key of a platform's section.
pub open spec fn is_given(root: Entries, platform: Seq<char>, key: Seq<char>) -> bool {
    setting_of(root, platform, key) matches TomlNode::Text(text) && text.len() > 0
}

/// A platform is configured just where each of its credentials is given, and is on
/// where it is configured and its section says so. A webhook needs no credential:
/// its section alone is enough.
pub proof fn law_statuses_are_those_of_the_sections(root: Entries)
    ensures
        ({
            let all = statuses(root);
            &&& all.discord.configured == is_given(root, "discord"@, "token"@)
            &&& all.telegram.configured == is_given(root, "telegram"@, "token"@)
            &&& all.slack.configured == (is_given(root, "slack"@, "bot_token"@) && is_given(
                root,
                "slack"@,
                "app_token"@,
            ))
            &&& all.twitch.configured == (is_given(root, "twitch"@, "username"@) && is_given(
                root,
                "twitch"@,
                "oauth_token"@,
            ))
            &&& all.discord.enabled == (all.discord.configured && setting_of(
                root,
                "discord"@,
                "enabled"@,
            ) == TomlNode::Flag(true))
            &&& all.telegram.enabled == (all.telegram.configured && setting_of(
                root,
                "telegram"@,
                "enabled"@,
            ) == TomlNode::Flag(true))
            &&& all.slack.enabled == (all.slack.configured && setting_of(
                root,
                "slack"@,
                "enabled"@,
            ) == TomlNode::Flag(true))
            &&& all.twitch.enabled == (all.twitch.configured && setting_of(
                root,
                "twitch"@,
                "enabled"@,
            ) == TomlNode::Flag(true))
            &&& all.webhook.enabled == (setting_of(root, "webhook"@, "enabled"@) == TomlNode::Flag(
                true,
            ))
            &&& all.webhook.enabled ==> all.webhook.configured
            &&& node_at(root, "messaging"@) is Absent ==> !all.webhook.configured
            &&& node_at(root, "messaging"@) matches TomlNode::Section(messaging)
                ==> all.webhook.configured == !(node_at(messaging, "webhook"@) is Absent)
        }),
{
}

/// Switching a platform sets its flag and changes nothing else. It needs the
/// section of the platform to be there.
pub proof fn law_toggle_sets_the_flag(
    root: Entries,
    platform: Seq<char>,
    enabled: bool,
    other: Seq<char>,
    key: Seq<char>,
)
    ensures
        toggled(root, platform, enabled) is Some <==> (node_at(root, "messaging"@) matches
            TomlNode::Section(messaging) && node_at(messaging, platform) is Section),
        toggled(root, platform, enabled) matches Some(after) ==> {
            &&& setting_of(after, platform, "enabled"@) == TomlNode::Flag(enabled)
            &&& other != platform || key != "enabled"@ ==> setting_of(after, other, key) == setting_of(
                root,
                other,
                key,
            )
            &&& key != "messaging"@ ==> node_at(after, key) == node_at(root, key)
        },
{
}

/// Disconnecting a platform takes its section, and leaves those of the others and
/// all else but the bindings.
pub proof fn law_disconnect_spares_others(
    root: Entries,
    platform: Seq<char>,
    other: Seq<char>,
    key: Seq<char>,
)
    ensures
        setting_of(disconnected(root, platform), platform, key) is Absent,
        other != platform ==> setting_of(disconnected(root, platform), other, key) == setting_of(
            root,
            other,
            key,
        ),
        key != "messaging"@ && key != "bindings"@ ==> node_at(disconnected(root, platform), key)
            == node_at(root, key),
{
    lemma_section_keys();
}

/// The adapter of a platform that was switched off is removed, and that of one that
/// was switched on is started where its section is there: its own, and no other's.
pub proof fn law_adapter_follows_the_switch(
    platform: Seq<char>,
    enabled: bool,
    has_manager: bool,
    configured: ConfiguredPlatforms,
)
    ensures
        ({
            let action = adapter_action(platform, enabled, has_manager, configured);
            let on = has_manager && enabled;
            &&& action == AdapterAction::Remove <==> has_manager && !enabled
            &&& action == AdapterAction::StartDiscord <==> on && platform == "discord"@
                && configured.discord
            &&& action == AdapterAction::StartSlack <==> on && platform == "slack"@
                && configured.slack
            &&& action == AdapterAction::StartTelegram <==> on && platform == "telegram"@
                && configured.telegram
            &&& action == AdapterAction::StartWebhook <==> on && platform == "webhook"@
                && configured.webhook
            &&& action == AdapterAction::StartTwitch <==> on && platform == "twitch"@
                && configured.twitch
        }),
{
    lemma_all_platforms_differ();
}

/// After new credentials came, just those adapters start whose credentials are new
/// and whose section is there, given a manager. Permissions are stored where there
/// is a place for them, and made where an adapter starts without.
pub proof fn law_new_credentials_start_adapters(
    credentials: NewCredentials,
    configured: ConfiguredPlatforms,
    targets: ReloadTargets,
)
    ensures
        ({
            let plan = credentials.plan(configured, targets);
            &&& plan.start_discord <==> targets.manager && configured.discord
                && credentials.discord_token is Some
            &&& plan.start_slack <==> targets.manager && configured.slack
                && credentials.slack_tokens is Some
            &&& plan.start_telegram <==> targets.manager && configured.telegram
                && credentials.telegram_token is Some
            &&& plan.start_twitch <==> targets.manager && configured.twitch
                && credentials.twitch_creds is Some
            &&& plan.store_bindings <==> targets.bindings
            &&& plan.store_discord_permissions <==> configured.discord
                && targets.discord_permissions
            &&& plan.store_slack_permissions <==> configured.slack && targets.slack_permissions
            &&& plan.make_discord_permissions <==> plan.start_discord
                && !plan.store_discord_permissions
            &&& plan.make_slack_permissions <==> plan.start_slack && !plan.store_slack_permissions
        }),
{
}

/// Disconnecting a platform leaves `[messaging]` a table of the form that it had,
/// and anything else under that key as it is.
pub proof fn law_disconnect_keeps_the_form(root: Entries, platform: Seq<char>)
    ensures
        ({
            let before = node_at(root, "messaging"@);
            let after = node_at(disconnected(root, platform), "messaging"@);
            &&& after is Section == before is Section
            &&& after is Inline == before is Inline
            &&& !(before is Section) && !(before is Inline) ==> after == before
        }),
{
    lemma_section_keys();
}

} // verus!
