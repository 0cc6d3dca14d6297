//! The settings of the whole instance.

use crate::api::error::ApiError;
use crate::text::{is_prefix, strip_prefix, text_eq, view_of};
use crate::toml_doc::{
    document_entries, document_layout, document_text, document_trailing, ensure_like_section,
    ensure_section, flag_node, flag_of_node, integer_node, integer_of_node, item_get, item_layout,
    item_node, like_at, like_entries, like_section_or_new, node_at, optional_node, parse_document,
    parsed_entries, parsed_toml, printed, prints_edit, root_is_table, section_or_new, set_like,
    set_like_flag_if, set_like_integer_if, set_like_text_if, table_entries, table_layout, table_like,
    text_item, text_node, text_of_node, with_like_entry, with_like_node, Entries, TomlNode,
};
use crate::toml_layout::{
    item_kept_but, kept_but, layout_at, layout_in, lemma_edited_further,
    lemma_kept_is_edited, like_edited, like_layout, no_key, only, Layout, TableLayout,
};
use toml_edit::{DocumentMut, Item, Table};
use vstd::prelude::*;
use vstd::string::*;

verus! {

/// Where a key comes from.
#[derive(Clone, Debug)]
pub enum KeySource {
    /// No key is set.
    Missing,
    /// The key stands in the configuration.
    Literal(String),
    /// The key stands in an environment variable.
    Environment(String),
}

#[derive(Clone, Debug)]
pub struct OpenCodePermissions {
    pub edit: String,
    pub bash: String,
    pub webfetch: String,
}

#[derive(Clone, Debug)]
pub struct OpenCodeSettings {
    pub enabled: bool,
    pub path: String,
    pub max_servers: usize,
    pub server_startup_timeout_secs: u64,
    pub max_restart_retries: u32,
    pub permissions: OpenCodePermissions,
}

/// The settings as they stand in the configuration.
#[derive(Clone, Debug)]
pub struct GlobalSettings {
    pub brave_search_key: KeySource,
    pub api_enabled: bool,
    pub api_port: u16,
    pub api_bind: String,
    pub worker_log_mode: String,
    pub opencode: OpenCodeSettings,
}

#[derive(Clone, Debug)]
pub struct OpenCodePermissionsUpdate {
    pub edit: Option<String>,
    pub bash: Option<String>,
    pub webfetch: Option<String>,
}

#[derive(Clone, Debug)]
pub struct OpenCodeSettingsUpdate {
    pub enabled: Option<bool>,
    pub path: Option<String>,
    pub max_servers: Option<usize>,
    pub server_startup_timeout_secs: Option<u64>,
    pub max_restart_retries: Option<u32>,
    pub permissions: Option<OpenCodePermissionsUpdate>,
}

#[derive(Clone, Debug)]
pub struct GlobalSettingsUpdate {
    pub brave_search_key: Option<String>,
    pub api_enabled: Option<bool>,
    pub api_port: Option<u16>,
    pub api_bind: Option<String>,
    pub worker_log_mode: Option<String>,
    pub opencode: Option<OpenCodeSettingsUpdate>,
}

#[derive(Clone, Debug)]
pub struct GlobalSettingsUpdateResponse {
    pub success: bool,
    pub message: String,
    pub requires_restart: bool,
}

/// An answer, with the new content of the configuration where it changes.
pub struct SettingsChange {
    pub content: Option<String>,
    pub response: GlobalSettingsUpdateResponse,
}

/// Why settings were not changed.
#[derive(Clone, Copy, Debug, PartialEq, Eq, Structural)]
pub enum SettingsError {
    /// The configuration is not TOML.
    Malformed,
    /// A key that a setting belongs under holds something other than a table.
    NotATable,
}

// Reading.

pub open spec fn text_or(node: TomlNode, default: Seq<char>) -> Seq<char> {
    match text_of_node(node) {
        Some(text) => text,
        None => default,
    }
}

pub open spec fn flag_or(node: TomlNode, default: bool) -> bool {
    match flag_of_node(node) {
        Some(flag) => flag,
        None => default,
    }
}

/// The integer of a node, where it is one between zero and `max`.
pub open spec fn integer_or(node: TomlNode, max: int, default: int) -> int {
    match integer_of_node(node) {
        Some(number) => if 0 <= number <= max {
            number
        } else {
            default
        },
        None => default,
    }
}

/// Whether a key source is what a node says.
pub open spec fn is_source(source: KeySource, node: TomlNode) -> bool {
    match text_of_node(node) {
        None => source is Missing,
        Some(text) => if is_prefix("env:"@, text) {
            source is Environment && source->Environment_0@ == text.skip("env:"@.len() as int)
        } else {
            source is Literal && source->Literal_0@ == text
        },
    }
}

impl GlobalSettings {
    /// Whether these are the settings of a root table.
    pub open spec fn are_of(self, root: Entries) -> bool {
        let defaults = node_at(root, "defaults"@);
        let api = node_at(root, "api"@);
        let opencode = like_at(defaults, "opencode"@);
        let permissions = like_at(opencode, "permissions"@);
        &&& is_source(self.brave_search_key, like_at(defaults, "brave_search_key"@))
        &&& self.api_enabled == flag_or(like_at(api, "enabled"@), true)
        &&& self.api_port == integer_or(like_at(api, "port"@), u16::MAX as int, 19898)
        &&& self.api_bind@ == text_or(like_at(api, "bind"@), "127.0.0.1"@)
        &&& self.worker_log_mode@ == text_or(like_at(defaults, "worker_log_mode"@), "errors_only"@)
        &&& self.opencode.enabled == flag_or(like_at(opencode, "enabled"@), false)
        &&& self.opencode.path@ == text_or(like_at(opencode, "path"@), "opencode"@)
        &&& self.opencode.max_servers == integer_or(
            like_at(opencode, "max_servers"@),
            usize::MAX as int,
            5,
        )
        &&& self.opencode.server_startup_timeout_secs == integer_or(
            like_at(opencode, "server_startup_timeout_secs"@),
            u64::MAX as int,
            30,
        )
        &&& self.opencode.max_restart_retries == integer_or(
            like_at(opencode, "max_restart_retries"@),
            u32::MAX as int,
            5,
        )
        &&& self.opencode.permissions.edit@ == text_or(like_at(permissions, "edit"@), "allow"@)
        &&& self.opencode.permissions.bash@ == text_or(like_at(permissions, "bash"@), "allow"@)
        &&& self.opencode.permissions.webfetch@ == text_or(
            like_at(permissions, "webfetch"@),
            "allow"@,
        )
    }
}

fn inner<'a>(item: Option<&'a Item>, key: &str) -> (found: Option<&'a Item>)
    ensures
        optional_node(found) == like_at(optional_node(item), key@),
        found is Some <==> like_entries(optional_node(item)).contains_key(key@),
{
    match item {
        Some(value) => item_get(value, key),
        None => None,
    }
}

fn read_text(item: Option<&Item>, default: &str) -> (text: String)
    ensures
        text@ == text_or(optional_node(item), default@),
{
    match item {
        Some(value) => match value.as_str() {
            Some(text) => text.to_owned(),
            None => default.to_owned(),
        },
        None => default.to_owned(),
    }
}

fn read_flag(item: Option<&Item>, default: bool) -> (flag: bool)
    ensures
        flag == flag_or(optional_node(item), default),
{
    match item {
        Some(value) => match value.as_bool() {
            Some(flag) => flag,
            None => default,
        },
        None => default,
    }
}

fn read_integer(item: Option<&Item>, max: u64, default: u64) -> (number: u64)
    requires
        default <= max,
    ensures
        number == integer_or(optional_node(item), max as int, default as int),
        number <= max,
{
    match item {
        Some(value) => match value.as_integer() {
            Some(number) => if number >= 0 && number as u64 <= max {
                number as u64
            } else {
                default
            },
            None => default,
        },
        None => default,
    }
}

fn read_source(item: Option<&Item>) -> (source: KeySource)
    ensures
        is_source(source, optional_node(item)),
{
    match item {
        Some(value) => match value.as_str() {
            Some(text) => match strip_prefix(text, "env:") {
                Some(variable) => KeySource::Environment(variable.to_owned()),
                None => KeySource::Literal(text.to_owned()),
            },
            None => KeySource::Missing,
        },
        None => KeySource::Missing,
    }
}

/// The settings of a document.
pub fn document_settings(doc: &DocumentMut) -> (settings: GlobalSettings)
    requires
        root_is_table(*doc),
    ensures
        settings.are_of(document_entries(*doc)),
{
    let root = doc.as_table();
    settings_of(root.get("defaults"), root.get("api"), Ghost(document_entries(*doc)))
}

fn settings_of(
    defaults: Option<&Item>,
    api: Option<&Item>,
    root: Ghost<Entries>,
) -> (settings: GlobalSettings)
    requires
        optional_node(defaults) == node_at(root@, "defaults"@),
        optional_node(api) == node_at(root@, "api"@),
    ensures
        settings.are_of(root@),
{
    let opencode = inner(defaults, "opencode");
    let permissions = inner(opencode, "permissions");
    GlobalSettings {
        brave_search_key: read_source(inner(defaults, "brave_search_key")),
        api_enabled: read_flag(inner(api, "enabled"), true),
        api_port: read_integer(inner(api, "port"), u16::MAX as u64, 19898) as u16,
        api_bind: read_text(inner(api, "bind"), "127.0.0.1"),
        worker_log_mode: read_text(inner(defaults, "worker_log_mode"), "errors_only"),
        opencode: OpenCodeSettings {
            enabled: read_flag(inner(opencode, "enabled"), false),
            path: read_text(inner(opencode, "path"), "opencode"),
            max_servers: read_integer(inner(opencode, "max_servers"), usize::MAX as u64, 5) as usize,
            server_startup_timeout_secs: read_integer(
                inner(opencode, "server_startup_timeout_secs"),
                u64::MAX,
                30,
            ),
            max_restart_retries: read_integer(
                inner(opencode, "max_restart_retries"),
                u32::MAX as u64,
                5,
            ) as u32,
            permissions: OpenCodePermissions {
                edit: read_text(inner(permissions, "edit"), "allow"),
                bash: read_text(inner(permissions, "bash"), "allow"),
                webfetch: read_text(inner(permissions, "webfetch"), "allow"),
            },
        },
    }
}

/// The settings in the configuration text. Without a configuration file each
/// has its default.
pub fn get_global_settings(content: Option<&str>) -> (result: Result<GlobalSettings, ApiError>)
    ensures
        match content {
            Some(text) => match parsed_entries(text@) {
                Some(root) => result is Ok && result->Ok_0.are_of(root),
                None => result == Err::<GlobalSettings, _>(ApiError::Internal),
            },
            None => result is Ok && result->Ok_0.are_of(Map::empty()),
        },
{
    match content {
        Some(text) => match parse_document(text) {
            Some(doc) => Ok(document_settings(&doc)),
            None => Err(ApiError::Internal),
        },
        None => Ok(settings_of(None, None, Ghost(Map::empty()))),
    }
}

/// The key itself, where `variable` is the value of the environment variable
/// that the source names.
pub fn resolve_key(source: KeySource, variable: Option<String>) -> (key: Option<String>)
    ensures
        key == match source {
            KeySource::Missing => None,
            KeySource::Literal(text) => Some(text),
            KeySource::Environment(_) => variable,
        },
{
    match source {
        KeySource::Missing => None,
        KeySource::Literal(text) => Some(text),
        KeySource::Environment(_) => variable,
    }
}

// Writing.

/// The modes in which worker logs are kept.
pub open spec fn is_log_mode(mode: Seq<char>) -> bool {
    mode == "errors_only"@ || mode == "all_separate"@ || mode == "all_combined"@
}

impl OpenCodePermissionsUpdate {
    pub open spec fn is_empty(self) -> bool {
        self.edit is None && self.bash is None && self.webfetch is None
    }

    /// Whether the update sets a key of the permissions.
    pub open spec fn sets(self, key: Seq<char>) -> bool {
        ||| key == "edit"@ && self.edit is Some
        ||| key == "bash"@ && self.bash is Some
        ||| key == "webfetch"@ && self.webfetch is Some
    }

    pub open spec fn applied(self, node: TomlNode) -> TomlNode {
        let edit = with_like_node(node, "edit"@, text_node(view_of(self.edit)));
        let bash = with_like_node(edit, "bash"@, text_node(view_of(self.bash)));
        with_like_node(bash, "webfetch"@, text_node(view_of(self.webfetch)))
    }
}

impl OpenCodeSettingsUpdate {
    pub open spec fn is_empty(self) -> bool {
        self.enabled is None && self.path is None && self.max_servers is None
            && self.server_startup_timeout_secs is None && self.max_restart_retries is None
            && self.permissions is None
    }

    /// Whether the update touches what stands under a key of the `opencode` table.
    pub open spec fn touches(self, key: Seq<char>) -> bool {
        ||| key == "enabled"@ && self.enabled is Some
        ||| key == "path"@ && self.path is Some
        ||| key == "max_servers"@ && self.max_servers is Some
        ||| key == "server_startup_timeout_secs"@ && self.server_startup_timeout_secs is Some
        ||| key == "max_restart_retries"@ && self.max_restart_retries is Some
        ||| key == "permissions"@ && self.permissions is Some
    }

    /// Whether the `opencode` table is written as before, but for the values that
    /// the update sets in it and in its permissions.
    pub open spec fn keeps_layout(self, from: Layout, to: Layout) -> bool {
        &&& item_kept_but(from, to, |key: Seq<char>| self.touches(key))
        &&& item_kept_but(
            layout_in(from, "permissions"@),
            layout_in(to, "permissions"@),
            |key: Seq<char>| self.permissions is Some && self.permissions->0.sets(key),
        )
    }

    /// The `opencode` table after the update.
    pub open spec fn applied(self, node: TomlNode) -> TomlNode {
        let enabled = with_like_node(node, "enabled"@, flag_node(self.enabled));
        let path = with_like_node(enabled, "path"@, text_node(view_of(self.path)));
        let servers = with_like_node(
            path,
            "max_servers"@,
            integer_node(
                match self.max_servers {
                    Some(value) => Some(value as i64),
                    None => None,
                },
            ),
        );
        let timeout = with_like_node(
            servers,
            "server_startup_timeout_secs"@,
            integer_node(
                match self.server_startup_timeout_secs {
                    Some(value) => Some(value as i64),
                    None => None,
                },
            ),
        );
        let retries = with_like_node(
            timeout,
            "max_restart_retries"@,
            integer_node(
                match self.max_restart_retries {
                    Some(value) => Some(value as i64),
                    None => None,
                },
            ),
        );
        match self.permissions {
            Some(permissions) => with_like_entry(
                retries,
                "permissions"@,
                permissions.applied(like_section_or_new(retries, "permissions"@)),
            ),
            None => retries,
        }
    }

    /// Whether the tables that the update writes to are tables.
    pub open spec fn fits(self, node: TomlNode) -> bool {
        &&& self.is_empty() || table_like(node)
        &&& match self.permissions {
            Some(permissions) => permissions.is_empty() || table_like(
                like_section_or_new(node, "permissions"@),
            ),
            None => true,
        }
    }
}

impl GlobalSettingsUpdate {
    pub open spec fn touches_api(self) -> bool {
        self.api_enabled is Some || self.api_port is Some || self.api_bind is Some
    }

    /// Whether the update sets a key of the `api` table.
    pub open spec fn sets_api(self, key: Seq<char>) -> bool {
        ||| key == "enabled"@ && self.api_enabled is Some
        ||| key == "port"@ && self.api_port is Some
        ||| key == "bind"@ && self.api_bind is Some
    }

    /// Whether the update touches what stands under a key of the `defaults` table.
    pub open spec fn touches_default(self, key: Seq<char>) -> bool {
        ||| key == "brave_search_key"@ && self.brave_search_key is Some
            && self.brave_search_key->0@.len() > 0
        ||| key == "worker_log_mode"@ && self.worker_log_mode is Some
        ||| key == "opencode"@ && self.opencode is Some
    }

    /// Whether the update takes a key out of the `defaults` table.
    pub open spec fn clears_default(self, key: Seq<char>) -> bool {
        key == "brave_search_key"@ && self.brave_search_key is Some
            && self.brave_search_key->0@.len() == 0
    }

    /// Whether the update touches what stands under a key of the root table.
    pub open spec fn touches_root(self, key: Seq<char>) -> bool {
        ||| key == "api"@ && self.touches_api()
        ||| key == "defaults"@ && (self.brave_search_key is Some || self.worker_log_mode is Some
            || self.opencode is Some)
    }

    /// Whether the `defaults` table is written as before, but for what the update
    /// sets and clears in it.
    pub open spec fn keeps_defaults(self, from: Layout, to: Layout) -> bool {
        &&& like_edited(
            from,
            to,
            |key: Seq<char>| self.touches_default(key),
            |key: Seq<char>| self.clears_default(key),
        )
        &&& self.opencode is Some ==> self.opencode->0.keeps_layout(
            layout_in(from, "opencode"@),
            layout_in(to, "opencode"@),
        )
    }

    /// Whether a document is written as before, but for what the update sets and
    /// clears: all else keeps its form, its order and its comments.
    pub open spec fn keeps_layout(self, from: TableLayout, to: TableLayout) -> bool {
        &&& kept_but(from, to, |key: Seq<char>| self.touches_root(key))
        &&& item_kept_but(
            layout_at(from, "api"@),
            layout_at(to, "api"@),
            |key: Seq<char>| self.sets_api(key),
        )
        &&& self.keeps_defaults(layout_at(from, "defaults"@), layout_at(to, "defaults"@))
    }

    pub open spec fn has_invalid_mode(self) -> bool {
        match self.worker_log_mode {
            Some(mode) => !is_log_mode(mode@),
            None => false,
        }
    }

    pub open spec fn with_search_key(self, root: Entries) -> Entries {
        match self.brave_search_key {
            None => root,
            Some(key) => {
                let defaults = section_or_new(root, "defaults"@);
                if key@.len() > 0 {
                    root.insert(
                        "defaults"@,
                        with_like_entry(defaults, "brave_search_key"@, TomlNode::Text(key@)),
                    )
                } else {
                    match defaults {
                        TomlNode::Section(entries) => root.insert(
                            "defaults"@,
                            TomlNode::Section(entries.remove("brave_search_key"@)),
                        ),
                        _ => root,
                    }
                }
            },
        }
    }

    pub open spec fn with_api(self, root: Entries) -> Entries {
        if self.touches_api() {
            let api = section_or_new(root, "api"@);
            let enabled = with_like_node(api, "enabled"@, flag_node(self.api_enabled));
            let port = with_like_node(
                enabled,
                "port"@,
                integer_node(
                    match self.api_port {
                        Some(value) => Some(value as i64),
                        None => None,
                    },
                ),
            );
            root.insert("api"@, with_like_node(port, "bind"@, text_node(view_of(self.api_bind))))
        } else {
            root
        }
    }

    pub open spec fn with_log_mode(self, root: Entries) -> Entries {
        match self.worker_log_mode {
            None => root,
            Some(mode) => root.insert(
                "defaults"@,
                with_like_entry(
                    section_or_new(root, "defaults"@),
                    "worker_log_mode"@,
                    TomlNode::Text(mode@),
                ),
            ),
        }
    }

    pub open spec fn with_opencode(self, root: Entries) -> Entries {
        match self.opencode {
            None => root,
            Some(update) => {
                let defaults = section_or_new(root, "defaults"@);
                root.insert(
                    "defaults"@,
                    with_like_entry(
                        defaults,
                        "opencode"@,
                        update.applied(like_section_or_new(defaults, "opencode"@)),
                    ),
                )
            },
        }
    }

    /// The root table after the update.
    pub open spec fn applied(self, root: Entries) -> Entries {
        self.with_opencode(self.with_log_mode(self.with_api(self.with_search_key(root))))
    }

    /// Whether every key that the update writes under is free or holds a table.
    /// An invalid log mode stops the update before its own write.
    pub open spec fn fits(self, root: Entries) -> bool {
        &&& self.brave_search_key is Some && self.brave_search_key->0@.len() > 0 ==> table_like(
            section_or_new(root, "defaults"@),
        )
        &&& self.touches_api() ==> table_like(section_or_new(root, "api"@))
        &&& self.has_invalid_mode() || {
            &&& self.worker_log_mode is Some || self.opencode is Some ==> table_like(
                section_or_new(root, "defaults"@),
            )
            &&& match self.opencode {
                Some(update) => update.fits(
                    like_section_or_new(section_or_new(root, "defaults"@), "opencode"@),
                ),
                None => true,
            }
        }
    }
}

fn apply_permissions(item: &mut Item, update: &OpenCodePermissionsUpdate)
    requires
        update.is_empty() || table_like(item_node(*old(item))),
    ensures
        item_node(*final(item)) == update.applied(item_node(*old(item))),
        item_kept_but(
            item_layout(*old(item)),
            item_layout(*final(item)),
            |key: Seq<char>| update.sets(key),
        ),
{
    set_like_text_if(item, "edit", &update.edit);
    set_like_text_if(item, "bash", &update.bash);
    set_like_text_if(item, "webfetch", &update.webfetch);
}

proof fn lemma_opencode_keys()
    ensures
        "permissions"@ != "enabled"@ && "permissions"@ != "path"@ && "permissions"@
            != "max_servers"@ && "permissions"@ != "server_startup_timeout_secs"@
            && "permissions"@ != "max_restart_retries"@,
        "defaults"@ != "api"@,
        "opencode"@ != "brave_search_key"@ && "opencode"@ != "worker_log_mode"@,
{
    reveal_strlit("permissions");
    reveal_strlit("enabled");
    reveal_strlit("path");
    reveal_strlit("max_servers");
    reveal_strlit("server_startup_timeout_secs");
    reveal_strlit("max_restart_retries");
    reveal_strlit("defaults");
    reveal_strlit("api");
    reveal_strlit("opencode");
    reveal_strlit("brave_search_key");
    reveal_strlit("worker_log_mode");
    assert("permissions"@.len() == 11 && "enabled"@.len() == 7 && "path"@.len() == 4);
    assert("max_servers"@.len() == 11 && "server_startup_timeout_secs"@.len() == 27);
    assert("max_restart_retries"@.len() == 19 && "defaults"@.len() == 8 && "api"@.len() == 3);
    assert("opencode"@.len() == 8 && "brave_search_key"@.len() == 16 && "worker_log_mode"@.len()
        == 15);
    assert("permissions"@[0] != "max_servers"@[0]);
}

fn apply_opencode(item: &mut Item, update: &OpenCodeSettingsUpdate)
    requires
        update.fits(item_node(*old(item))),
        item_node(*old(item)) !is Absent,
    ensures
        item_node(*final(item)) == update.applied(item_node(*old(item))),
        item_node(*final(item)) !is Absent,
        update.keeps_layout(item_layout(*old(item)), item_layout(*final(item))),
{
    proof {
        lemma_opencode_keys();
    }
    set_like_flag_if(item, "enabled", update.enabled);
    set_like_text_if(item, "path", &update.path);
    set_like_integer_if(
        item,
        "max_servers",
        match update.max_servers {
            Some(value) => Some(value as i64),
            None => None,
        },
    );
    set_like_integer_if(
        item,
        "server_startup_timeout_secs",
        match update.server_startup_timeout_secs {
            Some(value) => Some(value as i64),
            None => None,
        },
    );
    set_like_integer_if(
        item,
        "max_restart_retries",
        match update.max_restart_retries {
            Some(value) => Some(value as i64),
            None => None,
        },
    );
    match &update.permissions {
        Some(permissions) => {
            let section = ensure_like_section(item, "permissions");
            apply_permissions(section, permissions);
        },
        None => {},
    }
}

fn log_mode_is_valid(mode: &str) -> (valid: bool)
    ensures
        valid == is_log_mode(mode@),
{
    text_eq(mode, "errors_only") || text_eq(mode, "all_separate") || text_eq(mode, "all_combined")
}

/// The parts of an update, one after the other, write no more than all of it.
proof fn lemma_steps(
    update: GlobalSettingsUpdate,
    from: TableLayout,
    mid: TableLayout,
    to: TableLayout,
)
    requires
        update.keeps_layout(from, mid),
        update.keeps_layout(mid, to),
    ensures
        update.keeps_layout(from, to),
{
    let touches = |key: Seq<char>| update.touches_default(key);
    let clears = |key: Seq<char>| update.clears_default(key);
    let before = layout_at(from, "defaults"@);
    if like_layout(before) is Some {
        lemma_edited_further(
            like_layout(before)->0,
            like_layout(layout_at(mid, "defaults"@))->0,
            like_layout(layout_at(to, "defaults"@))->0,
            touches,
            clears,
            touches,
            clears,
        );
    }
}

/// Setting one key of the `defaults` table writes no more than the whole update.
proof fn lemma_default_step(
    update: GlobalSettingsUpdate,
    from: TableLayout,
    to: TableLayout,
    found: Layout,
    key: Seq<char>,
)
    requires
        kept_but(from, to, only("defaults"@, true)),
        layout_at(from, "defaults"@) is Nothing || found == layout_at(from, "defaults"@),
        item_kept_but(found, layout_at(to, "defaults"@), only(key, true)),
        update.touches_root("defaults"@),
        update.touches_default(key),
        update.opencode is Some ==> key != "opencode"@ || update.opencode->0.keeps_layout(
            layout_in(found, key),
            layout_in(layout_at(to, "defaults"@), key),
        ),
    ensures
        update.keeps_layout(from, to),
{
    lemma_opencode_keys();
    let touches = |other: Seq<char>| update.touches_default(other);
    let clears = |other: Seq<char>| update.clears_default(other);
    let after = layout_at(to, "defaults"@);
    if like_layout(layout_at(from, "defaults"@)) is Some {
        lemma_kept_is_edited(
            like_layout(found)->0,
            like_layout(after)->0,
            only(key, true),
            touches,
            clears,
        );
        assert(from.entries.contains_key("defaults"@));
        if key != "opencode"@ && like_layout(layout_in(found, "opencode"@)) is Some {
            assert(like_layout(found)->0.entries.contains_key("opencode"@));
            assert(layout_in(after, "opencode"@) == layout_in(found, "opencode"@));
        }
    }
    if from.entries.contains_key("api"@) {
        assert(layout_at(to, "api"@) == layout_at(from, "api"@));
    }
}

fn apply_search_key(root: &mut Table, update: &GlobalSettingsUpdate)
    requires
        update.brave_search_key is Some && update.brave_search_key->0@.len() > 0 ==> table_like(
            section_or_new(table_entries(*old(root)), "defaults"@),
        ),
    ensures
        table_entries(*final(root)) == update.with_search_key(table_entries(*old(root))),
        update.keeps_layout(table_layout(*old(root)), table_layout(*final(root))),
{
    proof {
        lemma_opencode_keys();
    }
    let ghost before = table_entries(*root);
    let ghost from = table_layout(*root);
    match &update.brave_search_key {
        Some(text) => {
            let defaults = ensure_section(root, "defaults");
            let ghost found = item_layout(*defaults);
            if text.as_str().is_empty() {
                match defaults.as_table_mut() {
                    Some(table) => {
                        let _key = table.remove("brave_search_key");
                    },
                    None => {
                        assert(before.insert("defaults"@, before["defaults"@]) =~= before);
                    },
                }
                proof {
                    let after = item_layout(*defaults);
                    let touches = |key: Seq<char>| update.touches_default(key);
                    let clears = |key: Seq<char>| update.clears_default(key);
                    if found is Section {
                        lemma_edited_further(
                            found->Section_0,
                            found->Section_0,
                            after->Section_0,
                            touches,
                            clears,
                            no_key(),
                            only("brave_search_key"@, true),
                        );
                        if found->Section_0.entries.contains_key("opencode"@) {
                            assert(layout_in(after, "opencode"@) == layout_in(found, "opencode"@));
                        }
                    }
                    assert(update.keeps_defaults(found, after));
                }
            } else {
                set_like(defaults, "brave_search_key", text_item(text.as_str()));
                proof {
                    lemma_default_step(
                        *update,
                        from,
                        table_layout(*root),
                        found,
                        "brave_search_key"@,
                    );
                }
            }
            proof {
                if from.entries.contains_key("api"@) {
                    assert(layout_at(table_layout(*root), "api"@) == layout_at(from, "api"@));
                }
            }
        },
        None => {},
    }
}

fn apply_api(root: &mut Table, update: &GlobalSettingsUpdate)
    requires
        update.touches_api() ==> table_like(section_or_new(table_entries(*old(root)), "api"@)),
    ensures
        table_entries(*final(root)) == update.with_api(table_entries(*old(root))),
        update.keeps_layout(table_layout(*old(root)), table_layout(*final(root))),
{
    proof {
        lemma_opencode_keys();
    }
    let ghost from = table_layout(*root);
    if update.api_enabled.is_some() || update.api_port.is_some() || update.api_bind.is_some() {
        let api = ensure_section(root, "api");
        set_like_flag_if(api, "enabled", update.api_enabled);
        set_like_integer_if(
            api,
            "port",
            match update.api_port {
                Some(value) => Some(value as i64),
                None => None,
            },
        );
        set_like_text_if(api, "bind", &update.api_bind);
        proof {
            if from.entries.contains_key("defaults"@) {
                assert(layout_at(table_layout(*root), "defaults"@) == layout_at(from, "defaults"@));
            }
        }
    }
}

fn apply_log_mode(root: &mut Table, update: &GlobalSettingsUpdate)
    requires
        update.worker_log_mode is Some ==> table_like(
            section_or_new(table_entries(*old(root)), "defaults"@),
        ),
    ensures
        table_entries(*final(root)) == update.with_log_mode(table_entries(*old(root))),
        update.keeps_layout(table_layout(*old(root)), table_layout(*final(root))),
{
    proof {
        lemma_opencode_keys();
    }
    let ghost from = table_layout(*root);
    match &update.worker_log_mode {
        Some(mode) => {
            let defaults = ensure_section(root, "defaults");
            let ghost found = item_layout(*defaults);
            set_like(defaults, "worker_log_mode", text_item(mode.as_str()));
            proof {
                lemma_default_step(*update, from, table_layout(*root), found, "worker_log_mode"@);
            }
        },
        None => {},
    }
}

fn apply_opencode_section(root: &mut Table, update: &GlobalSettingsUpdate)
    requires
        update.opencode is Some ==> table_like(
            section_or_new(table_entries(*old(root)), "defaults"@),
        ) && update.opencode->0.fits(
            like_section_or_new(section_or_new(table_entries(*old(root)), "defaults"@), "opencode"@),
        ),
    ensures
        table_entries(*final(root)) == update.with_opencode(table_entries(*old(root))),
        update.keeps_layout(table_layout(*old(root)), table_layout(*final(root))),
{
    proof {
        lemma_opencode_keys();
    }
    let ghost from = table_layout(*root);
    match &update.opencode {
        Some(opencode) => {
            let defaults = ensure_section(root, "defaults");
            let ghost found = item_layout(*defaults);
            let section = ensure_like_section(defaults, "opencode");
            apply_opencode(section, opencode);
            proof {
                lemma_default_step(*update, from, table_layout(*root), found, "opencode"@);
            }
        },
        None => {},
    }
}

/// Changes the settings of a document. `None` where the log mode is not one:
/// nothing is changed then.
pub fn apply_settings(doc: DocumentMut, update: &GlobalSettingsUpdate) -> (changed: Option<DocumentMut>)
    requires
        root_is_table(doc),
        update.fits(document_entries(doc)),
    ensures
        changed is None <==> update.has_invalid_mode(),
        changed is Some ==> {
            &&& document_entries(changed->0) == update.applied(document_entries(doc))
            &&& root_is_table(changed->0)
            &&& update.keeps_layout(document_layout(doc), document_layout(changed->0))
            &&& document_trailing(changed->0) == document_trailing(doc)
        },
{
    proof {
        lemma_opencode_keys();
    }
    match &update.worker_log_mode {
        Some(mode) => {
            if !log_mode_is_valid(mode.as_str()) {
                return None;
            }
        },
        None => {},
    }
    let mut doc = doc;
    let root = doc.as_table_mut();
    let ghost from = table_layout(*root);
    apply_search_key(root, update);
    let ghost searched = table_layout(*root);
    apply_api(root, update);
    proof {
        lemma_steps(*update, from, searched, table_layout(*root));
    }
    let ghost served = table_layout(*root);
    apply_log_mode(root, update);
    proof {
        lemma_steps(*update, from, served, table_layout(*root));
    }
    let ghost logged = table_layout(*root);
    apply_opencode_section(root, update);
    proof {
        lemma_steps(*update, from, logged, table_layout(*root));
    }
    Some(doc)
}

fn section_is_table_like(root: &Table, key: &str) -> (result: bool)
    ensures
        result == table_like(section_or_new(table_entries(*root), key@)),
{
    match root.get(key) {
        Some(item) => item.is_table_like(),
        None => true,
    }
}

fn opencode_fits(root: &Table, update: &OpenCodeSettingsUpdate) -> (result: bool)
    requires
        table_like(section_or_new(table_entries(*root), "defaults"@)),
    ensures
        result == update.fits(
            like_section_or_new(section_or_new(table_entries(*root), "defaults"@), "opencode"@),
        ),
{
    let opencode = inner(root.get("defaults"), "opencode");
    let permissions = inner(opencode, "permissions");
    let empty = update.enabled.is_none() && update.path.is_none() && update.max_servers.is_none()
        && update.server_startup_timeout_secs.is_none() && update.max_restart_retries.is_none()
        && update.permissions.is_none();
    let own = match opencode {
        Some(item) => item.is_table_like(),
        None => true,
    };
    let below = match &update.permissions {
        Some(inside) => {
            let nothing = inside.edit.is_none() && inside.bash.is_none()
                && inside.webfetch.is_none();
            nothing || match permissions {
                Some(item) => item.is_table_like(),
                None => true,
            }
        },
        None => true,
    };
    (empty || own) && below
}

/// Whether every key that an update writes under is free or holds a table.
pub fn settings_fit(doc: &DocumentMut, update: &GlobalSettingsUpdate) -> (result: bool)
    requires
        root_is_table(*doc),
    ensures
        result == update.fits(document_entries(*doc)),
{
    let root = doc.as_table();
    let defaults = section_is_table_like(root, "defaults");
    let api = section_is_table_like(root, "api");
    let search = match &update.brave_search_key {
        Some(key) => key.as_str().is_empty() || defaults,
        None => true,
    };
    let touches_api = update.api_enabled.is_some() || update.api_port.is_some()
        || update.api_bind.is_some();
    let invalid_mode = match &update.worker_log_mode {
        Some(mode) => !log_mode_is_valid(mode.as_str()),
        None => false,
    };
    if !search || (touches_api && !api) {
        return false;
    }
    if invalid_mode {
        return true;
    }
    if (update.worker_log_mode.is_some() || update.opencode.is_some()) && !defaults {
        return false;
    }
    match &update.opencode {
        Some(opencode) => opencode_fits(root, opencode),
        None => true,
    }
}

/// The answer to an update.
pub open spec fn settings_message(restart: bool) -> Seq<char> {
    if restart {
        "Settings updated. API server changes require a restart to take effect."@
    } else {
        "Settings updated successfully."@
    }
}

/// Changes the settings in the configuration text.
pub fn update_global_settings(content: &str, update: &GlobalSettingsUpdate) -> (result: Result<
    SettingsChange,
    SettingsError,
>)
    ensures
        match parsed_entries(content@) {
            None => result == Err::<SettingsChange, _>(SettingsError::Malformed),
            Some(root) => if !update.fits(root) {
                result == Err::<SettingsChange, _>(SettingsError::NotATable)
            } else if update.has_invalid_mode() {
                &&& result is Ok
                &&& result->Ok_0.content is None
                &&& !result->Ok_0.response.success
                &&& !result->Ok_0.response.requires_restart
                &&& result->Ok_0.response.message@ == "Invalid worker log mode: "@
                    + update.worker_log_mode->0@
            } else {
                &&& result is Ok
                &&& result->Ok_0.content is Some
                &&& prints_edit(
                    result->Ok_0.content->0@,
                    parsed_toml(content@)->0,
                    update.applied(root),
                    |from: TableLayout, to: TableLayout| update.keeps_layout(from, to),
                )
                &&& result->Ok_0.response.success
                &&& result->Ok_0.response.requires_restart == update.touches_api()
                &&& result->Ok_0.response.message@ == settings_message(update.touches_api())
            },
        },
{
    let doc = match parse_document(content) {
        Some(doc) => doc,
        None => {
            return Err(SettingsError::Malformed);
        },
    };
    if !settings_fit(&doc, update) {
        return Err(SettingsError::NotATable);
    }
    match apply_settings(doc, update) {
        Some(changed) => {
            let text = document_text(&changed);
            assert(printed(changed) == text@);
            let requires_restart = update.api_enabled.is_some() || update.api_port.is_some()
                || update.api_bind.is_some();
            let message = if requires_restart {
                "Settings updated. API server changes require a restart to take effect.".to_owned()
            } else {
                "Settings updated successfully.".to_owned()
            };
            Ok(
                SettingsChange {
                    content: Some(text),
                    response: GlobalSettingsUpdateResponse {
                        success: true,
                        message,
                        requires_restart,
                    },
                },
            )
        },
        None => {
            let mode = match &update.worker_log_mode {
                Some(mode) => mode.as_str(),
                None => "",
            };
            Ok(
                SettingsChange {
                    content: None,
                    response: GlobalSettingsUpdateResponse {
                        success: false,
                        message: "Invalid worker log mode: ".to_owned().concat(mode),
                        requires_restart: false,
                    },
                },
            )
        },
    }
}

#[derive(Clone, Debug)]
pub struct RawConfigUpdateResponse {
    pub success: bool,
    pub message: String,
}

/// The answer to a replacement of the whole configuration, where `written` is
/// how validating and writing it went. A configuration that is not valid is
/// answered, not refused.
pub fn raw_config_response(written: Result<(), ApiError>) -> (result: Result<
    RawConfigUpdateResponse,
    ApiError,
>)
    ensures
        match written {
            Ok(_) => result is Ok && result->Ok_0.success && result->Ok_0.message@
                == "Config saved and reloaded."@,
            Err(ApiError::BadRequest) => result is Ok && !result->Ok_0.success
                && result->Ok_0.message@ == "Validation error: config could not be applied."@,
            Err(error) => result == Err::<RawConfigUpdateResponse, _>(error),
        },
{
    match written {
        Ok(_) => Ok(
            RawConfigUpdateResponse {
                success: true,
                message: "Config saved and reloaded.".to_owned(),
            },
        ),
        Err(ApiError::BadRequest) => Ok(
            RawConfigUpdateResponse {
                success: false,
                message: "Validation error: config could not be applied.".to_owned(),
            },
        ),
        Err(error) => Err(error),
    }
}

/// A log mode that was set is read back.
pub proof fn law_log_mode_is_read_back(
    update: GlobalSettingsUpdate,
    root: Entries,
    settings: GlobalSettings,
)
    requires
        update.fits(root),
        !update.has_invalid_mode(),
        update.worker_log_mode is Some,
        settings.are_of(update.applied(root)),
    ensures
        settings.worker_log_mode@ == update.worker_log_mode->0@,
{
    lemma_opencode_keys();
}

/// API settings that were set are read back, whatever else the update sets.
pub proof fn law_api_settings_are_read_back(
    update: GlobalSettingsUpdate,
    root: Entries,
    settings: GlobalSettings,
)
    requires
        update.fits(root),
        !update.has_invalid_mode(),
        settings.are_of(update.applied(root)),
    ensures
        update.api_enabled is Some ==> settings.api_enabled == update.api_enabled->0,
        update.api_port is Some ==> settings.api_port == update.api_port->0,
        update.api_bind is Some ==> settings.api_bind@ == update.api_bind->0@,
{
    lemma_opencode_keys();
    reveal_strlit("enabled");
    reveal_strlit("port");
    reveal_strlit("bind");
    assert("enabled"@.len() == 7 && "port"@.len() == 4 && "bind"@.len() == 4);
    assert("port"@[0] != "bind"@[0]);
}

/// An empty update changes nothing.
pub proof fn law_empty_update_keeps_everything(update: GlobalSettingsUpdate, root: Entries)
    requires
        update.brave_search_key is None,
        !update.touches_api(),
        update.worker_log_mode is None,
        update.opencode is None,
    ensures
        update.fits(root),
        update.applied(root) == root,
{
}

/// Each setting is read under its name in its table, of whatever form that is, and
/// has its default where no value of its kind stands there.
pub proof fn law_settings_are_read(settings: GlobalSettings, root: Entries)
    requires
        settings.are_of(root),
    ensures
        like_at(node_at(root, "api"@), "enabled"@) matches TomlNode::Flag(flag)
            ==> settings.api_enabled == flag,
        !(like_at(node_at(root, "api"@), "enabled"@) is Flag) ==> settings.api_enabled == true,
        like_at(node_at(root, "api"@), "port"@) matches TomlNode::Integer(number)
            ==> settings.api_port == if 0 <= number <= u16::MAX {
            number
        } else {
            19898
        },
        !(like_at(node_at(root, "api"@), "port"@) is Integer) ==> settings.api_port == 19898,
        like_at(node_at(root, "api"@), "bind"@) matches TomlNode::Text(text)
            ==> settings.api_bind@ == text,
        !(like_at(node_at(root, "api"@), "bind"@) is Text) ==> settings.api_bind@ == "127.0.0.1"@,
        like_at(node_at(root, "defaults"@), "worker_log_mode"@) matches TomlNode::Text(text)
            ==> settings.worker_log_mode@ == text,
        !(like_at(node_at(root, "defaults"@), "worker_log_mode"@) is Text)
            ==> settings.worker_log_mode@ == "errors_only"@,
        like_at(like_at(node_at(root, "defaults"@), "opencode"@),
            "enabled"@) matches TomlNode::Flag(flag) ==> settings.opencode.enabled == flag,
        !(like_at(like_at(node_at(root, "defaults"@), "opencode"@), "enabled"@) is Flag)
            ==> settings.opencode.enabled == false,
        like_at(like_at(node_at(root, "defaults"@), "opencode"@),
            "path"@) matches TomlNode::Text(text) ==> settings.opencode.path@ == text,
        !(like_at(like_at(node_at(root, "defaults"@), "opencode"@), "path"@) is Text)
            ==> settings.opencode.path@ == "opencode"@,
        like_at(like_at(node_at(root, "defaults"@), "opencode"@),
            "max_servers"@) matches TomlNode::Integer(number)
            ==> settings.opencode.max_servers == if 0 <= number <= usize::MAX {
            number
        } else {
            5
        },
        !(like_at(like_at(node_at(root, "defaults"@), "opencode"@), "max_servers"@) is Integer)
            ==> settings.opencode.max_servers == 5,
        like_at(like_at(node_at(root, "defaults"@), "opencode"@),
            "server_startup_timeout_secs"@) matches TomlNode::Integer(number)
            ==> settings.opencode.server_startup_timeout_secs == if 0 <= number <= u64::MAX {
            number
        } else {
            30
        },
        !(like_at(like_at(node_at(root, "defaults"@), "opencode"@),
            "server_startup_timeout_secs"@) is Integer)
            ==> settings.opencode.server_startup_timeout_secs == 30,
        like_at(like_at(node_at(root, "defaults"@), "opencode"@),
            "max_restart_retries"@) matches TomlNode::Integer(number)
            ==> settings.opencode.max_restart_retries == if 0 <= number <= u32::MAX {
            number
        } else {
            5
        },
        !(like_at(like_at(node_at(root, "defaults"@), "opencode"@),
            "max_restart_retries"@) is Integer) ==> settings.opencode.max_restart_retries == 5,
        like_at(like_at(like_at(node_at(root, "defaults"@), "opencode"@), "permissions"@),
            "edit"@) matches TomlNode::Text(text) ==> settings.opencode.permissions.edit@ == text,
        !(like_at(like_at(like_at(node_at(root, "defaults"@), "opencode"@), "permissions"@),
            "edit"@) is Text) ==> settings.opencode.permissions.edit@ == "allow"@,
        like_at(like_at(like_at(node_at(root, "defaults"@), "opencode"@), "permissions"@),
            "bash"@) matches TomlNode::Text(text) ==> settings.opencode.permissions.bash@ == text,
        !(like_at(like_at(like_at(node_at(root, "defaults"@), "opencode"@), "permissions"@),
            "bash"@) is Text) ==> settings.opencode.permissions.bash@ == "allow"@,
        like_at(like_at(like_at(node_at(root, "defaults"@), "opencode"@), "permissions"@),
            "webfetch"@) matches TomlNode::Text(text)
            ==> settings.opencode.permissions.webfetch@ == text,
        !(like_at(like_at(like_at(node_at(root, "defaults"@), "opencode"@), "permissions"@),
            "webfetch"@) is Text) ==> settings.opencode.permissions.webfetch@ == "allow"@,
        !(like_at(node_at(root, "defaults"@), "brave_search_key"@) is Text)
            ==> settings.brave_search_key is Missing,
        like_at(node_at(root, "defaults"@), "brave_search_key"@) matches TomlNode::Text(text) ==> {
            let variable = text.len() >= 4 && text[0] == 'e' && text[1] == 'n' && text[2] == 'v'
                && text[3]
                == ':';
            &&& variable ==> settings.brave_search_key is Environment
                && settings.brave_search_key->Environment_0@ == text.skip(4)
            &&& !variable ==> settings.brave_search_key is Literal
                && settings.brave_search_key->Literal_0@ == text
        },
{
    reveal_strlit("env:");
    if let TomlNode::Text(text) = like_at(node_at(root, "defaults"@), "brave_search_key"@) {
        if text.len() >= 4 {
            let start = text.take(4);
            assert(start[0] == text[0] && start[1] == text[1] && start[2] == text[2] && start[3]
                == text[3]);
            if text[0] == 'e' && text[1] == 'n' && text[2] == 'v' && text[3] == ':' {
                assert(start =~= "env:"@);
            } else {
                assert("env:"@[0] == 'e' && "env:"@[1] == 'n' && "env:"@[2] == 'v'
                    && "env:"@[3] == ':');
            }
        }
    }
}

proof fn lemma_api_keys_differ()
    ensures
        "enabled"@ != "port"@,
        "enabled"@ != "bind"@,
        "port"@ != "bind"@,
{
    reveal_strlit("enabled");
    reveal_strlit("port");
    reveal_strlit("bind");
    assert("enabled"@.len() == 7);
    assert("port"@.len() == 4);
    assert("bind"@.len() == 4);
    assert("port"@[0] != "bind"@[0]);
}

proof fn lemma_default_keys_differ()
    ensures
        "brave_search_key"@ != "worker_log_mode"@,
        "brave_search_key"@ != "opencode"@,
        "worker_log_mode"@ != "opencode"@,
{
    reveal_strlit("brave_search_key");
    reveal_strlit("worker_log_mode");
    reveal_strlit("opencode");
    assert("brave_search_key"@.len() == 16);
    assert("worker_log_mode"@.len() == 15);
    assert("opencode"@.len() == 8);
}

proof fn lemma_tables_differ()
    ensures
        "defaults"@ != "api"@,
{
    reveal_strlit("defaults");
    reveal_strlit("api");
    assert("defaults"@.len() == 8);
    assert("api"@.len() == 3);
}

proof fn lemma_opencode_keys_differ()
    ensures
        "enabled"@ != "path"@,
        "enabled"@ != "max_servers"@,
        "enabled"@ != "server_startup_timeout_secs"@,
        "enabled"@ != "max_restart_retries"@,
        "enabled"@ != "permissions"@,
        "path"@ != "max_servers"@,
        "path"@ != "server_startup_timeout_secs"@,
        "path"@ != "max_restart_retries"@,
        "path"@ != "permissions"@,
        "max_servers"@ != "server_startup_timeout_secs"@,
        "max_servers"@ != "max_restart_retries"@,
        "max_servers"@ != "permissions"@,
        "server_startup_timeout_secs"@ != "max_restart_retries"@,
        "server_startup_timeout_secs"@ != "permissions"@,
        "max_restart_retries"@ != "permissions"@,
{
    reveal_strlit("enabled");
    reveal_strlit("path");
    reveal_strlit("max_servers");
    reveal_strlit("server_startup_timeout_secs");
    reveal_strlit("max_restart_retries");
    reveal_strlit("permissions");
    assert("enabled"@.len() == 7);
    assert("path"@.len() == 4);
    assert("max_servers"@.len() == 11);
    assert("server_startup_timeout_secs"@.len() == 27);
    assert("max_restart_retries"@.len() == 19);
    assert("permissions"@.len() == 11);
    assert("max_servers"@[0] != "permissions"@[0]);
}

proof fn lemma_permission_keys_differ()
    ensures
        "edit"@ != "bash"@,
        "edit"@ != "webfetch"@,
        "bash"@ != "webfetch"@,
{
    reveal_strlit("edit");
    reveal_strlit("bash");
    reveal_strlit("webfetch");
    assert("edit"@.len() == 4);
    assert("bash"@.len() == 4);
    assert("webfetch"@.len() == 8);
    assert("edit"@[0] != "bash"@[0]);
}

/// Each permission that an update gives is read back under its name, each that it
/// does not give stays, and so does all else.
pub proof fn law_permissions_are_set(
    update: OpenCodePermissionsUpdate,
    node: TomlNode,
    key: Seq<char>,
)
    requires
        update.is_empty() || table_like(node),
    ensures
        update.edit matches Some(text)
            ==> like_at(update.applied(node), "edit"@) == TomlNode::Text(text@),
        update.edit is None ==> like_at(update.applied(node), "edit"@) == like_at(node, "edit"@),
        update.bash matches Some(text)
            ==> like_at(update.applied(node), "bash"@) == TomlNode::Text(text@),
        update.bash is None ==> like_at(update.applied(node), "bash"@) == like_at(node, "bash"@),
        update.webfetch matches Some(text)
            ==> like_at(update.applied(node), "webfetch"@) == TomlNode::Text(text@),
        update.webfetch is None
            ==> like_at(update.applied(node), "webfetch"@) == like_at(node, "webfetch"@),
        key != "edit"@ && key != "bash"@ && key != "webfetch"@
            ==> like_at(update.applied(node), key)
            == like_at(node, key),
{
    lemma_permission_keys_differ();
}

/// Each value that an update of OpenCode gives is read back under its name, each
/// that it does not give stays, and so does all else.
pub proof fn law_opencode_is_set(update: OpenCodeSettingsUpdate, node: TomlNode, key: Seq<char>)
    requires
        update.fits(node),
    ensures
        update.enabled matches Some(value)
            ==> like_at(update.applied(node), "enabled"@) == TomlNode::Flag(value),
        update.enabled is None
            ==> like_at(update.applied(node), "enabled"@) == like_at(node, "enabled"@),
        update.path matches Some(value)
            ==> like_at(update.applied(node), "path"@) == TomlNode::Text(value@),
        update.path is None ==> like_at(update.applied(node), "path"@) == like_at(node, "path"@),
        update.max_servers matches Some(value) ==> value <= i64::MAX
            ==> like_at(update.applied(node), "max_servers"@) == TomlNode::Integer(value as int),
        update.max_servers is None
            ==> like_at(update.applied(node), "max_servers"@) == like_at(node, "max_servers"@),
        update.server_startup_timeout_secs matches Some(value) ==> value <= i64::MAX
            ==> like_at(update.applied(node), "server_startup_timeout_secs"@)
            == TomlNode::Integer(value as int),
        update.server_startup_timeout_secs is None
            ==> like_at(update.applied(node), "server_startup_timeout_secs"@)
            == like_at(node, "server_startup_timeout_secs"@),
        update.max_restart_retries matches Some(value) ==> value <= i64::MAX
            ==> like_at(update.applied(node), "max_restart_retries"@)
            == TomlNode::Integer(value as int),
        update.max_restart_retries is None
            ==> like_at(update.applied(node), "max_restart_retries"@)
            == like_at(node, "max_restart_retries"@),
        update.permissions is None || update.permissions->0.edit is None
            ==> like_at(like_at(update.applied(node), "permissions"@), "edit"@)
            == like_at(like_at(node, "permissions"@), "edit"@),
        update.permissions is Some
            ==> (update.permissions->0.edit matches Some(text)
            ==> like_at(like_at(update.applied(node), "permissions"@), "edit"@)
            == TomlNode::Text(text@)),
        update.permissions is None || update.permissions->0.bash is None
            ==> like_at(like_at(update.applied(node), "permissions"@), "bash"@)
            == like_at(like_at(node, "permissions"@), "bash"@),
        update.permissions is Some
            ==> (update.permissions->0.bash matches Some(text)
            ==> like_at(like_at(update.applied(node), "permissions"@), "bash"@)
            == TomlNode::Text(text@)),
        update.permissions is None || update.permissions->0.webfetch is None
            ==> like_at(like_at(update.applied(node), "permissions"@), "webfetch"@)
            == like_at(like_at(node, "permissions"@), "webfetch"@),
        update.permissions is Some
            ==> (update.permissions->0.webfetch matches Some(text)
            ==> like_at(like_at(update.applied(node), "permissions"@), "webfetch"@)
            == TomlNode::Text(text@)),
        key != "enabled"@ && key != "path"@ && key != "max_servers"@
            && key != "server_startup_timeout_secs"@ && key != "max_restart_retries"@
            && key != "permissions"@ ==> like_at(update.applied(node), key) == like_at(node, key),
{
    lemma_opencode_keys_differ();
    lemma_permission_keys_differ();
    if let Some(permissions) = update.permissions {
        let inner = like_section_or_new(node, "permissions"@);
        law_permissions_are_set(permissions, inner, key);
    }
}

/// Each setting that an update gives is read back under its name in its table, and
/// each that it does not give is read as before. A search key that is given as an
/// empty text is taken out.
#[verifier::rlimit(60)]
pub proof fn law_settings_update_is_read_back(
    update: GlobalSettingsUpdate,
    root: Entries,
    key: Seq<char>,
)
    requires
        update.fits(root),
        !update.has_invalid_mode(),
    ensures
        update.api_enabled matches Some(value)
            ==> like_at(node_at(update.applied(root), "api"@), "enabled"@) == TomlNode::Flag(value),
        update.api_enabled is None
            ==> like_at(node_at(update.applied(root), "api"@), "enabled"@)
            == like_at(node_at(root, "api"@), "enabled"@),
        update.api_port matches Some(value)
            ==> like_at(node_at(update.applied(root), "api"@), "port"@)
            == TomlNode::Integer(value as int),
        update.api_port is None
            ==> like_at(node_at(update.applied(root), "api"@), "port"@)
            == like_at(node_at(root, "api"@), "port"@),
        update.api_bind matches Some(value)
            ==> like_at(node_at(update.applied(root), "api"@), "bind"@) == TomlNode::Text(value@),
        update.api_bind is None
            ==> like_at(node_at(update.applied(root), "api"@), "bind"@)
            == like_at(node_at(root, "api"@), "bind"@),
        update.worker_log_mode matches Some(value)
            ==> like_at(node_at(update.applied(root), "defaults"@), "worker_log_mode"@)
            == TomlNode::Text(value@),
        update.worker_log_mode is None
            ==> like_at(node_at(update.applied(root), "defaults"@), "worker_log_mode"@)
            == like_at(node_at(root, "defaults"@), "worker_log_mode"@),
        update.brave_search_key is None
            ==> like_at(node_at(update.applied(root), "defaults"@), "brave_search_key"@)
            == like_at(node_at(root, "defaults"@), "brave_search_key"@),
        update.brave_search_key matches Some(value) ==> {
            &&& value@.len() > 0
                ==> like_at(node_at(update.applied(root), "defaults"@), "brave_search_key"@)
                == TomlNode::Text(value@)
            &&& value@.len() == 0
                && (node_at(root, "defaults"@) is Section || node_at(root, "defaults"@) is Absent)
                ==> like_at(node_at(update.applied(root), "defaults"@),
                "brave_search_key"@) is Absent
        },
        update.opencode is None
            ==> like_at(node_at(update.applied(root), "defaults"@), "opencode"@)
            == like_at(node_at(root, "defaults"@), "opencode"@),
        update.opencode matches Some(opencode)
            ==> like_at(node_at(update.applied(root), "defaults"@), "opencode"@)
            == opencode.applied(like_section_or_new(section_or_new(root, "defaults"@),
            "opencode"@)),
        key != "defaults"@ && key != "api"@
            ==> node_at(update.applied(root), key) == node_at(root, key),
        key != "enabled"@ && key != "port"@ && key != "bind"@
            ==> like_at(node_at(update.applied(root), "api"@), key)
            == like_at(node_at(root, "api"@), key),
        key != "brave_search_key"@ && key != "worker_log_mode"@ && key != "opencode"@
            ==> like_at(node_at(update.applied(root), "defaults"@), key)
            == like_at(node_at(root, "defaults"@), key),
{
    lemma_api_keys_differ();
    lemma_default_keys_differ();
    lemma_tables_differ();
}

/// An update is refused for its mode just where it gives one, and one that is none
/// of the three.
pub proof fn law_unknown_mode_is_refused(update: GlobalSettingsUpdate, mode: String)
    ensures
        update.worker_log_mode is None ==> !update.has_invalid_mode(),
        update.worker_log_mode == Some(mode) ==> (update.has_invalid_mode() <==> mode@
            != "errors_only"@ && mode@ != "all_separate"@ && mode@ != "all_combined"@),
{
}

/// An update that fits is answered with the new content, in which the settings are
/// changed, and says that a restart is needed just where it changes those of the API.
/// A mode that is not known is answered without a change, and what does not fit or
/// cannot be read is refused.
pub proof fn law_settings_update_is_answered(
    content: &str,
    update: &GlobalSettingsUpdate,
    result: Result<SettingsChange, SettingsError>,
    root: Entries,
)
    requires
        call_ensures(update_global_settings, (content, update), result),
    ensures
        parsed_entries(content@) is None ==> result == Err::<SettingsChange, SettingsError>(
            SettingsError::Malformed,
        ),
        parsed_entries(content@) == Some(root) ==> {
            let restart = update.api_enabled is Some || update.api_port is Some || update.api_bind
                is Some;
            &&& !update.fits(root) ==> result == Err::<SettingsChange, SettingsError>(
                SettingsError::NotATable,
            )
            &&& update.fits(root) && update.has_invalid_mode() ==> (result matches Ok(change)
                && change.content is None && !change.response.success
                && change.response.message@ == "Invalid worker log mode: "@
                + update.worker_log_mode->0@)
            &&& update.fits(root) && !update.has_invalid_mode() ==> (result matches Ok(change)
                && change.response.success && change.response.requires_restart == restart
                && change.response.message@ == (if restart {
                "Settings updated. API server changes require a restart to take effect."@
            } else {
                "Settings updated successfully."@
            }) && (change.content matches Some(text) && exists|doc: DocumentMut| #[trigger]
                printed(doc) == text@ && document_entries(doc) == update.applied(root)))
        },
{
}

} // verus!
