use spacebot::agent::cortex::CortexEvent;
use spacebot::api::agents::{
    activity_daily, activity_sparkline, admit_agent, count_memories, counts_of, create_agent,
    created_message, delete_agent, deleted_message, find_agent, forget_agent, hosted_agent_limit,
    identity_writes, insert_agent, last_activity_at, latest_bulletin, latest_time, parse_number,
    remove_agent, AgentInfo, CronRow, IdentityUpdateRequest,
};
use spacebot::api::bindings::{
    create_binding, delete_binding, hot_reload_disposition, list_bindings, update_binding,
    BindingResponse, CreateBindingRequest, DeleteBindingRequest, HotReloadDisposition,
    NewCredentials, PlatformCredentials, UpdateBindingRequest,
};
use spacebot::api::config::{
    discord_section, update_agent_config, AgentConfigUpdateRequest, BrowserUpdate, CoalesceUpdate,
    CompactionUpdate, CortexUpdate, DiscordUpdate, MemoryPersistenceUpdate, RoutingUpdate,
    TuningUpdate,
};
use spacebot::api::error::ApiError;
use spacebot::api::mcp::{
    agent_status, create_mcp_server, delete_mcp_server, get_server_state, list_mcp_servers,
    reconnect_response, update_mcp_server, CreateMcpServerRequest, McpConnectionState,
    McpServerStatus,
};
use spacebot::api::messaging::{
    disconnect_platform, messaging_status, reload_plan, toggle_action, toggle_platform,
    AdapterAction, ConfiguredPlatforms, PlatformStatus, ReloadTargets,
};
use spacebot::api::server::{
    asset_name, asset_response, is_authorized, static_response, StaticResponse,
};
use spacebot::api::settings::{
    get_global_settings, raw_config_response, resolve_key, update_global_settings,
    GlobalSettingsUpdate, KeySource, OpenCodePermissionsUpdate, OpenCodeSettingsUpdate,
    SettingsError,
};
use spacebot::clock::Timestamp;

#[test]
fn hot_reload_disposition_starts_when_credentials_and_config_exist() {
    assert_eq!(
        hot_reload_disposition("discord", true, true),
        HotReloadDisposition::Start
    );
    assert_eq!(
        hot_reload_disposition("slack", true, true),
        HotReloadDisposition::Start
    );
    assert_eq!(
        hot_reload_disposition("telegram", true, true),
        HotReloadDisposition::Start
    );
    assert_eq!(
        hot_reload_disposition("twitch", true, true),
        HotReloadDisposition::Start
    );
}

#[test]
fn hot_reload_disposition_skips_when_credentials_missing() {
    assert_eq!(
        hot_reload_disposition("discord", false, true),
        HotReloadDisposition::NoCredentials
    );
    assert_eq!(
        hot_reload_disposition("slack", false, false),
        HotReloadDisposition::NoCredentials
    );
}

#[test]
fn hot_reload_disposition_marks_missing_config_when_token_present() {
    assert_eq!(
        hot_reload_disposition("discord", true, false),
        HotReloadDisposition::MissingConfig
    );
    assert_eq!(
        hot_reload_disposition("slack", true, false),
        HotReloadDisposition::MissingConfig
    );
    assert_eq!(
        hot_reload_disposition("telegram", true, false),
        HotReloadDisposition::MissingConfig
    );
    assert_eq!(
        hot_reload_disposition("twitch", true, false),
        HotReloadDisposition::MissingConfig
    );
}

fn read(content: &str) -> toml_edit::DocumentMut {
    content.parse().unwrap()
}

fn binding(agent: &str, channel: &str) -> CreateBindingRequest {
    CreateBindingRequest {
        agent_id: agent.to_string(),
        channel: channel.to_string(),
        guild_id: None,
        workspace_id: None,
        chat_id: None,
        channel_ids: Vec::new(),
        require_mention: false,
        dm_allowed_users: Vec::new(),
        platform_credentials: None,
    }
}

fn no_credentials() -> PlatformCredentials {
    PlatformCredentials {
        discord_token: None,
        slack_bot_token: None,
        slack_app_token: None,
        telegram_token: None,
        twitch_username: None,
        twitch_oauth_token: None,
    }
}

fn deletion(agent: &str, channel: &str, guild: Option<&str>) -> DeleteBindingRequest {
    DeleteBindingRequest {
        agent_id: agent.to_string(),
        channel: channel.to_string(),
        guild_id: guild.map(|id| id.to_string()),
        workspace_id: None,
        chat_id: None,
    }
}

#[test]
fn bindings_are_created() {
    let request = CreateBindingRequest {
        guild_id: Some("7".to_string()),
        channel_ids: vec!["1".to_string(), "2".to_string()],
        require_mention: true,
        dm_allowed_users: vec!["ann".to_string()],
        ..binding("main", "discord")
    };
    let created = create_binding("# kept\n[api]\nport = 1\n", &request).unwrap();
    assert_eq!(
        created.content,
        "# kept\n[api]\nport = 1\n\n[[bindings]]\nagent_id = \"main\"\nchannel = \"discord\"\nguild_id = \"7\"\nchannel_ids = [\"1\", \"2\"]\nrequire_mention = true\ndm_allowed_users = [\"ann\"]\n"
    );
    assert!(created.response.success);
    assert!(!created.response.restart_required);
    assert_eq!(created.response.message, "Binding created and active.");
    assert_eq!(created.credentials.discord_token, None);

    assert_eq!(create_binding("= broken", &request).err(), Some(ApiError::Internal));
    assert_eq!(create_binding("bindings = 1\n", &request).err(), Some(ApiError::Internal));
}

#[test]
fn credentials_are_stored_with_a_binding() {
    let request = CreateBindingRequest {
        platform_credentials: Some(PlatformCredentials {
            discord_token: Some("d".to_string()),
            slack_bot_token: Some("b".to_string()),
            slack_app_token: Some("a".to_string()),
            telegram_token: Some(String::new()),
            twitch_username: Some("t".to_string()),
            ..no_credentials()
        }),
        ..binding("main", "slack")
    };
    let created = create_binding("", &request).unwrap();
    assert!(created.response.success);
    assert!(created.response.restart_required);
    assert!(created.credentials.has_any());
    let doc = read(&created.content);
    assert_eq!(doc["messaging"]["discord"]["token"].as_str(), Some("d"));
    assert_eq!(doc["messaging"]["discord"]["enabled"].as_bool(), Some(true));
    assert_eq!(doc["messaging"]["slack"]["bot_token"].as_str(), Some("b"));
    assert_eq!(doc["messaging"]["slack"]["app_token"].as_str(), Some("a"));
    assert!(doc["messaging"].get("telegram").is_none());
    assert!(doc["messaging"].get("twitch").is_none());
    assert_eq!(created.credentials.discord_token.as_deref(), Some("d"));
    assert_eq!(
        created.credentials.slack_tokens,
        Some(("b".to_string(), "a".to_string()))
    );
    assert_eq!(created.credentials.telegram_token, None);
    assert_eq!(created.credentials.twitch_creds, None);
    assert_eq!(
        create_binding("messaging = 1\n", &request).err(),
        Some(ApiError::Internal)
    );
}

#[test]
fn bindings_are_found_by_all_their_identifiers() {
    let with_guild = CreateBindingRequest {
        guild_id: Some("7".to_string()),
        ..binding("main", "discord")
    };
    let content = create_binding("", &with_guild).unwrap().content;

    let missed = delete_binding(&content, &deletion("main", "discord", None)).unwrap();
    assert!(!missed.success);
    assert_eq!(missed.message, "No matching binding found.");
    assert_eq!(missed.content, None);

    let deleted = delete_binding(&content, &deletion("main", "discord", Some("7"))).unwrap();
    assert!(deleted.success);
    assert_eq!(deleted.message, "Binding deleted.");
    assert!(read(&deleted.content.unwrap()).get("bindings").map_or(true, |bindings| bindings
        .as_array_of_tables()
        .map_or(true, |tables| tables.is_empty())));
    assert_eq!(
        delete_binding("", &deletion("main", "discord", None)).err(),
        Some(ApiError::NotFound)
    );
}

#[test]
fn bindings_are_updated() {
    let content = create_binding(
        "",
        &CreateBindingRequest { require_mention: true, ..binding("main", "discord") },
    )
    .unwrap()
    .content;
    let request = UpdateBindingRequest {
        original_agent_id: "main".to_string(),
        original_channel: "discord".to_string(),
        original_guild_id: None,
        original_workspace_id: None,
        original_chat_id: None,
        agent_id: "other".to_string(),
        channel: "slack".to_string(),
        guild_id: Some(String::new()),
        workspace_id: Some("w".to_string()),
        chat_id: None,
        channel_ids: vec!["1".to_string()],
        require_mention: false,
        dm_allowed_users: Vec::new(),
    };
    let updated = update_binding(&content, &request).unwrap();
    assert!(updated.success);
    assert_eq!(updated.message, "Binding updated.");
    assert_eq!(
        updated.content.as_deref(),
        Some("[[bindings]]\nagent_id = \"other\"\nchannel = \"slack\"\nworkspace_id = \"w\"\nchannel_ids = [\"1\"]\n")
    );
    let missed = update_binding(updated.content.as_deref().unwrap(), &request).unwrap();
    assert!(!missed.success);
    assert_eq!(update_binding("", &request).err(), Some(ApiError::NotFound));
}

#[test]
fn bindings_are_listed_by_agent() {
    let row = |agent: &str| BindingResponse {
        agent_id: agent.to_string(),
        channel: "discord".to_string(),
        guild_id: None,
        workspace_id: None,
        chat_id: None,
        channel_ids: Vec::new(),
        require_mention: false,
        dm_allowed_users: Vec::new(),
    };
    let all = vec![row("a"), row("b"), row("a")];
    assert_eq!(list_bindings(all.clone(), &None).len(), 3);
    assert_eq!(list_bindings(all, &Some("a".to_string())).len(), 2);
}

fn server(name: &str) -> CreateMcpServerRequest {
    CreateMcpServerRequest {
        name: name.to_string(),
        transport: "stdio".to_string(),
        enabled: true,
        command: Some("run".to_string()),
        args: Vec::new(),
        env: Vec::new(),
        url: None,
        headers: Vec::new(),
    }
}

#[test]
fn servers_are_added_once() {
    let request = CreateMcpServerRequest {
        args: vec!["-x".to_string()],
        env: vec![("A".to_string(), "1".to_string())],
        ..server("files")
    };
    let added = create_mcp_server("", &request).unwrap();
    assert!(added.success);
    assert_eq!(added.message, "MCP server 'files' added");
    let content = added.content.unwrap();
    assert_eq!(
        content,
        "[[mcp_servers]]\nname = \"files\"\ntransport = \"stdio\"\ncommand = \"run\"\nargs = [\"-x\"]\nenv = { A = \"1\" }\n"
    );
    let again = create_mcp_server(&content, &request).unwrap();
    assert!(!again.success);
    assert_eq!(again.message, "MCP server 'files' already exists");
    assert_eq!(again.content, None);
    // An array of values takes an inline table; anything else has no room for one.
    let listed = create_mcp_server("# kept\nmcp_servers = []\n", &request).unwrap();
    assert!(listed.success);
    assert_eq!(listed.message, "MCP server 'files' added");
    assert_eq!(
        listed.content.as_deref(),
        Some("# kept\nmcp_servers = [{ name = \"files\", transport = \"stdio\", command = \"run\", args = [\"-x\"], env = { A = \"1\" } }]\n")
    );
    let other = create_mcp_server("mcp_servers = 1 # odd\n", &request).unwrap();
    assert!(other.success);
    assert_eq!(other.message, "MCP server 'files' added");
    assert_eq!(other.content.as_deref(), Some("mcp_servers = 1 # odd\n"));
    let nameless = create_mcp_server("", &server("  ")).unwrap();
    assert_eq!(nameless.message, "Server name cannot be empty");
    assert_eq!(create_mcp_server("= broken", &request).err(), Some(ApiError::Internal));

    let defs = list_mcp_servers(Some(&content)).unwrap();
    assert_eq!(defs.len(), 1);
    assert_eq!(defs[0].name, "files");
    assert!(defs[0].enabled);
    assert!(list_mcp_servers(None).unwrap().is_empty());
    let bare = list_mcp_servers(Some("[[mcp_servers]]\n")).unwrap();
    assert_eq!(bare[0].name, "");
    assert_eq!(bare[0].transport, "stdio");
}

#[test]
fn servers_are_changed_and_removed() {
    let content = create_mcp_server("", &server("files")).unwrap().content.unwrap();
    let request = CreateMcpServerRequest {
        transport: "http".to_string(),
        enabled: false,
        command: None,
        url: Some("http://localhost".to_string()),
        ..server("files")
    };
    let changed = update_mcp_server(Some(&content), &request).unwrap();
    assert_eq!(changed.message, "MCP server 'files' updated");
    assert_eq!(
        changed.content.as_deref(),
        Some("[[mcp_servers]]\nname = \"files\"\ntransport = \"http\"\nenabled = false\nurl = \"http://localhost\"\n")
    );
    assert_eq!(
        update_mcp_server(Some(&content), &server("other")).unwrap().message,
        "MCP server 'other' not found"
    );
    assert_eq!(
        update_mcp_server(None, &request).unwrap().message,
        "No config file found"
    );

    let removed = delete_mcp_server(Some(&content), "files").unwrap();
    assert!(removed.success);
    assert_eq!(removed.message, "MCP server 'files' removed");
    let missed = delete_mcp_server(Some(&content), "other").unwrap();
    assert!(!missed.success);
    assert_eq!(missed.message, "MCP server 'other' not found");
    assert_eq!(delete_mcp_server(None, "files").unwrap().message, "No config file found");
}

#[test]
fn connections_are_told() {
    let status = |name: &str, state: McpConnectionState| McpServerStatus {
        name: name.to_string(),
        transport: "stdio".to_string(),
        enabled: true,
        state,
    };
    let statuses = vec![
        status("a", McpConnectionState::Connected),
        status("b", McpConnectionState::Failed("gone".to_string())),
        status("c", McpConnectionState::Connecting),
        status("d", McpConnectionState::Disconnected),
    ];
    assert_eq!(get_server_state(&statuses, "a"), "connected");
    assert_eq!(get_server_state(&statuses, "b"), "failed: gone");
    assert_eq!(get_server_state(&statuses, "z"), "not_connected");
    let told = agent_status("main", &statuses);
    assert_eq!(told.agent_id, "main");
    assert_eq!(told.servers[2].state, "connecting");
    assert_eq!(told.servers[3].state, "disconnected");
    assert_eq!(reconnect_response("a", true).message, "Server 'a' reconnected");
    assert_eq!(
        reconnect_response("a", false).message,
        "Server 'a' not found in any agent"
    );
}

#[test]
fn platforms_are_told() {
    let content = "[messaging.discord]\ntoken = \"t\"\nenabled = true\n[messaging.slack]\nbot_token = \"b\"\nenabled = true\n[messaging.webhook]\n[messaging.telegram]\ntoken = \"\"\nenabled = true\n";
    let status = messaging_status(Some(content)).unwrap();
    assert_eq!(status.discord, PlatformStatus { configured: true, enabled: true });
    assert_eq!(status.slack, PlatformStatus { configured: false, enabled: false });
    assert_eq!(status.webhook, PlatformStatus { configured: true, enabled: false });
    assert_eq!(status.telegram, PlatformStatus { configured: false, enabled: false });
    assert_eq!(status.twitch, PlatformStatus { configured: false, enabled: false });
    assert!(!messaging_status(None).unwrap().discord.configured);
    assert_eq!(messaging_status(Some("= broken")).err(), Some(ApiError::Internal));
}

#[test]
fn platforms_are_disconnected_and_toggled() {
    let content = "[messaging.discord]\ntoken = \"t\"\n\n[[bindings]]\nchannel = \"discord\"\n\n[[bindings]]\nchannel = \"slack\"\n";
    let change = disconnect_platform(content, "discord").unwrap();
    assert_eq!(change.message, "discord disconnected");
    let doc = read(change.content.as_deref().unwrap());
    assert!(doc.get("messaging").map_or(true, |messaging| messaging.get("discord").is_none()));
    let bindings = doc["bindings"].as_array_of_tables().unwrap();
    assert_eq!(bindings.len(), 1);
    assert_eq!(bindings.get(0).unwrap()["channel"].as_str(), Some("slack"));

    let change = toggle_platform(content, "discord", false).unwrap();
    assert!(change.success);
    assert_eq!(change.message, "discord disabled");
    assert_eq!(
        read(change.content.as_deref().unwrap())["messaging"]["discord"]["enabled"].as_bool(),
        Some(false)
    );
    assert_eq!(toggle_platform(content, "discord", true).unwrap().message, "discord enabled");
    let missed = toggle_platform(content, "slack", true).unwrap();
    assert!(!missed.success);
    assert_eq!(missed.message, "slack is not configured");
    assert_eq!(toggle_platform("= broken", "slack", true).err(), Some(ApiError::Internal));
    assert_eq!(disconnect_platform("= broken", "slack").err(), Some(ApiError::Internal));
}

#[test]
fn platforms_are_taken_out_of_inline_values() {
    for (content, expected) in [
        (
            "messaging = { discord = { token = \"t\" }, slack = { token = 's' } } # m\n",
            "messaging = { slack = { token = 's' } } # m\n",
        ),
        (
            "bindings = [{ channel = \"discord\" }, { channel = 'slack' }, 1, { channel = \"discord\" }]\n",
            "bindings = [ { channel = 'slack' }, 1]\n",
        ),
        ("bindings = [{ channel = \"slack\" }, 1]\n", "bindings = [{ channel = \"slack\" }, 1]\n"),
        ("messaging = 1\nbindings = []\n", "messaging = 1\nbindings = []\n"),
        ("", ""),
    ] {
        let change = disconnect_platform(content, "discord").unwrap();
        assert!(change.success);
        assert_eq!(change.message, "discord disconnected");
        assert_eq!(change.content.as_deref(), Some(expected));
    }
}

/// A configuration with comments and forms of its own.
const WRITTEN: &str = "# top\n[api] # the api\nport   =   1 # odd\nbind = 'here' # b\n\n[defaults]\n# mode\nworker_log_mode = 'all' # w\nbrave_search_key = 'k'\nopencode = { path = 'p', enabled = false } # o\n\n[messaging.discord]\ntoken = 't' # secret\n\n# first\n[[bindings]]\nagent_id = 'a' # one\nchannel = 'discord'\nguild_id = '7'\nextra = 1 # kept\n\n# second\n[[bindings]]\nagent_id = 'b'\nchannel = 'slack'\n\n[[agents]]\nid = 'main' # mine\n\n[[mcp_servers]]\nname = 'files' # f\ntransport = 'stdio'\ncommand = 'run' # c\n# end\n";

#[test]
fn additions_keep_what_is_written() {
    let server = create_mcp_server(WRITTEN, &server("new")).unwrap().content.unwrap();
    let agent = create_agent(WRITTEN, "new").unwrap();
    let bound = create_binding(WRITTEN, &binding("new", "discord")).unwrap().content;
    for (written, added) in [
        (server, "\n[[mcp_servers]]\nname = \"new\"\ntransport = \"stdio\"\ncommand = \"run\"\n"),
        (agent, "\n[[agents]]\nid = \"new\"\n"),
        (bound, "\n[[bindings]]\nagent_id = \"new\"\nchannel = \"discord\"\n"),
    ] {
        assert!(written.contains(added));
        assert_eq!(written.replacen(added, "", 1), WRITTEN);
    }
}

#[test]
fn removals_keep_what_is_written() {
    assert_eq!(
        delete_agent(WRITTEN, "main").unwrap(),
        WRITTEN.replace("[[agents]]\nid = 'main' # mine\n\n", "")
    );
    assert_eq!(
        delete_mcp_server(Some(WRITTEN), "files").unwrap().content.unwrap(),
        WRITTEN.replace(
            "\n[[mcp_servers]]\nname = 'files' # f\ntransport = 'stdio'\ncommand = 'run' # c\n",
            ""
        )
    );
    assert_eq!(
        delete_binding(WRITTEN, &deletion("a", "discord", Some("7"))).unwrap().content.unwrap(),
        WRITTEN.replace(
            "\n# first\n[[bindings]]\nagent_id = 'a' # one\nchannel = 'discord'\nguild_id = '7'\nextra = 1 # kept\n",
            ""
        )
    );
    assert_eq!(
        disconnect_platform(WRITTEN, "slack").unwrap().content.unwrap(),
        WRITTEN.replace("\n# second\n[[bindings]]\nagent_id = 'b'\nchannel = 'slack'\n", "")
    );
}

#[test]
fn changes_keep_what_is_written() {
    assert_eq!(
        toggle_platform(WRITTEN, "discord", true).unwrap().content.unwrap(),
        WRITTEN.replace("token = 't' # secret\n", "token = 't' # secret\nenabled = true\n")
    );
    let update = CreateMcpServerRequest { command: Some("go".to_string()), ..server("files") };
    assert_eq!(
        update_mcp_server(Some(WRITTEN), &update).unwrap().content.unwrap(),
        WRITTEN
            .replace("transport = 'stdio'", "transport = \"stdio\"")
            .replace("command = 'run' # c", "command = \"go\"")
    );
    let update = UpdateBindingRequest {
        original_agent_id: "a".to_string(),
        original_channel: "discord".to_string(),
        original_guild_id: Some("7".to_string()),
        original_workspace_id: None,
        original_chat_id: None,
        agent_id: "c".to_string(),
        channel: "discord".to_string(),
        guild_id: None,
        workspace_id: None,
        chat_id: None,
        channel_ids: Vec::new(),
        require_mention: true,
        dm_allowed_users: Vec::new(),
    };
    assert_eq!(
        update_binding(WRITTEN, &update).unwrap().content.unwrap(),
        WRITTEN.replace(
            "agent_id = 'a' # one\nchannel = 'discord'\nguild_id = '7'\nextra = 1 # kept\n",
            "agent_id = \"c\"\nchannel = \"discord\"\nextra = 1 # kept\nrequire_mention = true\n"
        )
    );
    let update = GlobalSettingsUpdate {
        brave_search_key: Some(String::new()),
        api_port: Some(2),
        worker_log_mode: Some("errors_only".to_string()),
        opencode: Some(OpenCodeSettingsUpdate {
            enabled: Some(true),
            path: None,
            max_servers: None,
            server_startup_timeout_secs: None,
            max_restart_retries: None,
            permissions: None,
        }),
        ..no_settings()
    };
    assert_eq!(
        update_global_settings(WRITTEN, &update).unwrap().content.unwrap(),
        WRITTEN
            .replace("port   =   1 # odd", "port   = 2")
            .replace("worker_log_mode = 'all' # w", "worker_log_mode = \"errors_only\"")
            .replace("brave_search_key = 'k'\n", "")
            .replace("enabled = false }", "enabled = true }")
    );
}

const CONFIGURED: ConfiguredPlatforms = ConfiguredPlatforms {
    discord: true,
    slack: false,
    telegram: true,
    webhook: true,
    twitch: true,
};

#[test]
fn adapters_follow_their_platforms() {
    assert_eq!(
        toggle_action("discord", true, true, &CONFIGURED),
        AdapterAction::StartDiscord
    );
    assert_eq!(toggle_action("slack", true, true, &CONFIGURED), AdapterAction::Nothing);
    assert_eq!(
        toggle_action("webhook", true, true, &CONFIGURED),
        AdapterAction::StartWebhook
    );
    assert_eq!(toggle_action("email", true, true, &CONFIGURED), AdapterAction::Nothing);
    assert_eq!(toggle_action("email", false, true, &CONFIGURED), AdapterAction::Remove);
    assert_eq!(toggle_action("discord", false, false, &CONFIGURED), AdapterAction::Nothing);
    assert_eq!(toggle_action("discord", true, false, &CONFIGURED), AdapterAction::Nothing);

    let new = NewCredentials {
        discord_token: Some("d".to_string()),
        slack_tokens: Some(("b".to_string(), "a".to_string())),
        telegram_token: None,
        twitch_creds: None,
    };
    let targets = ReloadTargets {
        bindings: true,
        discord_permissions: false,
        slack_permissions: true,
        manager: true,
    };
    let plan = reload_plan(&new, &CONFIGURED, &targets);
    assert!(plan.store_bindings);
    assert!(plan.start_discord);
    assert!(plan.make_discord_permissions);
    assert!(!plan.store_discord_permissions);
    assert!(!plan.start_slack);
    assert!(!plan.store_slack_permissions);
    assert!(!plan.start_telegram);
    let plan = reload_plan(&new, &CONFIGURED, &ReloadTargets { manager: false, ..targets });
    assert!(!plan.start_discord);
}

fn no_settings() -> GlobalSettingsUpdate {
    GlobalSettingsUpdate {
        brave_search_key: None,
        api_enabled: None,
        api_port: None,
        api_bind: None,
        worker_log_mode: None,
        opencode: None,
    }
}

#[test]
fn settings_have_defaults() {
    let settings = get_global_settings(None).unwrap();
    assert!(settings.api_enabled);
    assert_eq!(settings.api_port, 19898);
    assert_eq!(settings.api_bind, "127.0.0.1");
    assert_eq!(settings.worker_log_mode, "errors_only");
    assert_eq!(settings.opencode.path, "opencode");
    assert_eq!(settings.opencode.max_servers, 5);
    assert_eq!(settings.opencode.permissions.bash, "allow");

    let settings = get_global_settings(Some(
        "[api]\nport = 70000\nenabled = false\n[defaults]\nbrave_search_key = \"env:KEY\"\n[defaults.opencode]\nmax_servers = 9\n",
    ))
    .unwrap();
    assert!(!settings.api_enabled);
    assert_eq!(settings.api_port, 19898);
    assert_eq!(settings.opencode.max_servers, 9);
    assert!(matches!(
        settings.brave_search_key,
        KeySource::Environment(ref name) if name == "KEY"
    ));
    assert_eq!(
        resolve_key(settings.brave_search_key, Some("v".to_string())),
        Some("v".to_string())
    );
    assert_eq!(resolve_key(KeySource::Environment("KEY".to_string()), None), None);
    assert_eq!(
        resolve_key(KeySource::Literal("k".to_string()), None),
        Some("k".to_string())
    );
    assert_eq!(resolve_key(KeySource::Missing, None), None);
    assert_eq!(get_global_settings(Some("= broken")).err(), Some(ApiError::Internal));
}

#[test]
fn settings_are_updated() {
    let update = GlobalSettingsUpdate {
        brave_search_key: Some("k".to_string()),
        api_port: Some(80),
        worker_log_mode: Some("all_combined".to_string()),
        opencode: Some(OpenCodeSettingsUpdate {
            enabled: Some(true),
            path: None,
            max_servers: None,
            server_startup_timeout_secs: Some(7),
            max_restart_retries: None,
            permissions: Some(OpenCodePermissionsUpdate {
                edit: Some("ask".to_string()),
                bash: None,
                webfetch: None,
            }),
        }),
        ..no_settings()
    };
    let change = update_global_settings("", &update).unwrap();
    assert!(change.response.success);
    assert!(change.response.requires_restart);
    assert_eq!(
        change.response.message,
        "Settings updated. API server changes require a restart to take effect."
    );
    let content = change.content.unwrap();
    let doc = read(&content);
    assert_eq!(doc["defaults"]["brave_search_key"].as_str(), Some("k"));
    assert_eq!(doc["api"]["port"].as_integer(), Some(80));
    assert_eq!(doc["defaults"]["worker_log_mode"].as_str(), Some("all_combined"));
    assert_eq!(doc["defaults"]["opencode"]["server_startup_timeout_secs"].as_integer(), Some(7));
    assert_eq!(doc["defaults"]["opencode"]["permissions"]["edit"].as_str(), Some("ask"));

    let cleared = GlobalSettingsUpdate {
        brave_search_key: Some(String::new()),
        ..no_settings()
    };
    let change = update_global_settings(&content, &cleared).unwrap();
    assert_eq!(change.response.message, "Settings updated successfully.");
    assert!(!change.response.requires_restart);
    assert!(read(change.content.as_deref().unwrap())["defaults"]
        .get("brave_search_key")
        .is_none());

    let invalid = GlobalSettingsUpdate {
        worker_log_mode: Some("loud".to_string()),
        ..no_settings()
    };
    let change = update_global_settings("", &invalid).unwrap();
    assert!(!change.response.success);
    assert_eq!(change.response.message, "Invalid worker log mode: loud");
    assert_eq!(change.content, None);

    assert_eq!(
        update_global_settings("= broken", &update).err(),
        Some(SettingsError::Malformed)
    );
    assert_eq!(
        update_global_settings("api = 1\n", &update).err(),
        Some(SettingsError::NotATable)
    );
}

#[test]
fn update_raw_config_returns_failure_without_persisting_on_invalid_content() {
    let response = raw_config_response(Err(ApiError::BadRequest))
        .expect("invalid raw config should return API response");

    assert!(!response.success);
    assert!(response.message.contains("Validation error"));
    assert_eq!(raw_config_response(Err(ApiError::Internal)).err(), Some(ApiError::Internal));
}

#[test]
fn update_raw_config_persists_valid_content() {
    let response = raw_config_response(Ok(())).expect("valid raw config should succeed");

    assert!(response.success);
    assert!(response.message.contains("saved and reloaded"));
}

fn no_update(agent: &str) -> AgentConfigUpdateRequest {
    AgentConfigUpdateRequest {
        agent_id: agent.to_string(),
        routing: None,
        tuning: None,
        compaction: None,
        cortex: None,
        coalesce: None,
        memory_persistence: None,
        browser: None,
        discord: None,
    }
}

#[test]
fn agents_are_configured() {
    let request = AgentConfigUpdateRequest {
        routing: Some(RoutingUpdate {
            channel: Some("fast".to_string()),
            branch: None,
            worker: None,
            compactor: None,
            cortex: None,
            voice: None,
            rate_limit_cooldown_secs: Some(60),
        }),
        tuning: Some(TuningUpdate {
            max_concurrent_branches: None,
            max_concurrent_workers: None,
            max_turns: Some(9),
            branch_max_turns: None,
            context_window: None,
            history_backfill_count: None,
        }),
        compaction: Some(CompactionUpdate {
            background_threshold: Some(toml_edit::value(0.5)),
            aggressive_threshold: None,
            emergency_threshold: None,
        }),
        cortex: Some(CortexUpdate {
            tick_interval_secs: Some(30),
            worker_timeout_secs: None,
            branch_timeout_secs: None,
            circuit_breaker_threshold: Some(3),
            bulletin_interval_secs: None,
            bulletin_max_words: None,
            bulletin_max_turns: None,
        }),
        coalesce: Some(CoalesceUpdate {
            enabled: Some(true),
            debounce_ms: Some(10),
            max_wait_ms: None,
            min_messages: None,
            multi_user_only: None,
        }),
        memory_persistence: Some(MemoryPersistenceUpdate {
            enabled: None,
            message_interval: Some(50),
        }),
        browser: Some(BrowserUpdate {
            enabled: None,
            headless: Some(false),
            evaluate_enabled: None,
        }),
        ..no_update("main")
    };
    let content = "[[agents]]\nid = \"other\"\n\n[[agents]]\nid = \"main\" # mine\nrouting = 1\n";
    let changed = update_agent_config(content, request).unwrap();
    assert!(changed.contains("# mine"));
    let doc = read(&changed);
    let agents = doc["agents"].as_array_of_tables().unwrap();
    assert_eq!(agents.len(), 2);
    let main = agents.get(1).unwrap();
    assert_eq!(main["routing"]["channel"].as_str(), Some("fast"));
    assert_eq!(main["routing"]["rate_limit_cooldown_secs"].as_integer(), Some(60));
    assert_eq!(main["max_turns"].as_integer(), Some(9));
    assert_eq!(main["compaction"]["background_threshold"].as_float(), Some(0.5));
    assert_eq!(main["cortex"]["circuit_breaker_threshold"].as_integer(), Some(3));
    assert_eq!(main["coalesce"]["enabled"].as_bool(), Some(true));
    assert_eq!(main["memory_persistence"]["message_interval"].as_integer(), Some(50));
    assert_eq!(main["browser"]["headless"].as_bool(), Some(false));
    assert_eq!(agents.get(0).unwrap().len(), 1);
}

#[test]
fn updates_keep_inline_tables() {
    let content = "[[agents]]\nid = 'main'\n# models\nrouting = { channel = 'a', worker = 'b' } # r\n";
    let request = AgentConfigUpdateRequest {
        routing: Some(RoutingUpdate {
            channel: Some("z".to_string()),
            branch: None,
            worker: None,
            compactor: None,
            cortex: None,
            voice: None,
            rate_limit_cooldown_secs: None,
        }),
        ..no_update("main")
    };
    assert_eq!(
        update_agent_config(content, request),
        Ok(content.replace("channel = 'a'", "channel = \"z\""))
    );
}

#[test]
fn updates_keep_formatting_and_comments() {
    let content = "# top\n[api] # the api\nport   =   1 # odd\n\n[messaging.discord]\ntoken = 't' # secret\nallow_bot_messages = false # off\n\n# first\n[[agents]]\nid = \"main\" # mine\n# models\n[agents.routing] # r\n# talk\nchannel = 'x' # old\nbranch = 'y' # kept\n\n# second\n[[agents]]\nid = 'other' # theirs\n# end\n";
    let request = AgentConfigUpdateRequest {
        routing: Some(RoutingUpdate {
            channel: Some("z".to_string()),
            branch: None,
            worker: None,
            compactor: None,
            cortex: None,
            voice: None,
            rate_limit_cooldown_secs: None,
        }),
        discord: Some(DiscordUpdate { allow_bot_messages: Some(true) }),
        ..no_update("main")
    };
    // A value that is set loses its own comment; all else is as it was.
    let expected = content
        .replace("channel = 'x' # old", "channel = \"z\"")
        .replace("allow_bot_messages = false # off", "allow_bot_messages = true");
    assert_eq!(update_agent_config(content, request), Ok(expected));
}

#[test]
fn agents_and_platforms_must_fit() {
    assert_eq!(
        update_agent_config("", no_update("new")).as_deref(),
        Ok("[[agents]]\nid = \"new\"\n")
    );
    assert_eq!(
        update_agent_config("agents = 1\n", no_update("new")).err(),
        Some(ApiError::Internal)
    );
    assert_eq!(
        update_agent_config("= broken", no_update("new")).err(),
        Some(ApiError::Internal)
    );
    let discord = || AgentConfigUpdateRequest {
        discord: Some(DiscordUpdate { allow_bot_messages: Some(true) }),
        ..no_update("main")
    };
    assert_eq!(update_agent_config("", discord()).err(), Some(ApiError::Internal));
    let changed =
        update_agent_config("[messaging.discord]\ntoken = \"t\"\n", discord()).unwrap();
    assert_eq!(
        read(&changed)["messaging"]["discord"]["allow_bot_messages"].as_bool(),
        Some(true)
    );
    assert!(discord_section(Some(true)).allow_bot_messages);
    assert!(!discord_section(None).enabled);
}

#[test]
fn agents_are_limited_where_hosted() {
    assert_eq!(hosted_agent_limit(Some("Hosted"), Some("3")), Some(3));
    assert_eq!(hosted_agent_limit(Some("hosted"), Some("0")), None);
    assert_eq!(hosted_agent_limit(Some("hosted"), Some("x")), None);
    assert_eq!(hosted_agent_limit(Some("local"), Some("3")), None);
    assert_eq!(hosted_agent_limit(None, Some("3")), None);
    assert_eq!(hosted_agent_limit(Some("hosted"), None), None);
    assert_eq!(parse_number("+42"), Some(42));
    assert_eq!(parse_number("+"), None);
    assert_eq!(parse_number(""), None);
    assert_eq!(parse_number("99999999999999999999999"), None);

    let existing = vec!["main".to_string()];
    assert_eq!(admit_agent(&existing, None, " new "), Ok("new".to_string()));
    assert_eq!(
        admit_agent(&existing, Some(1), "new"),
        Err("agent limit reached for this instance: up to 1 agent".to_string())
    );
    let two = vec!["a".to_string(), "b".to_string()];
    assert_eq!(
        admit_agent(&two, Some(2), "new"),
        Err("agent limit reached for this instance: up to 2 agents".to_string())
    );
    assert_eq!(
        admit_agent(&existing, None, "  "),
        Err("Agent ID cannot be empty".to_string())
    );
    assert_eq!(
        admit_agent(&existing, None, "main"),
        Err("Agent 'main' already exists".to_string())
    );
    assert_eq!(find_agent(&existing, " main"), Ok("main".to_string()));
    assert_eq!(find_agent(&existing, ""), Err("Agent ID cannot be empty".to_string()));
    assert_eq!(find_agent(&existing, "x"), Err("Agent 'x' not found".to_string()));
    assert_eq!(created_message("x"), "Agent 'x' created and running");
    assert_eq!(deleted_message("x"), "Agent 'x' deleted");
}

#[test]
fn deleting_an_agent_undoes_creating_it() {
    let before = "[[agents]]\nid = \"main\"\n";
    let created = create_agent(before, "new").unwrap();
    assert_eq!(created, "[[agents]]\nid = \"main\"\n\n[[agents]]\nid = \"new\"\n");
    assert_eq!(delete_agent(&created, "new").unwrap(), before);
    assert_eq!(delete_agent(before, "x").unwrap(), before);
    assert_eq!(create_agent("agents = 1\n", "x").err(), Some(ApiError::Internal));
    assert_eq!(create_agent("= broken", "x").err(), Some(ApiError::Internal));
    assert_eq!(delete_agent("= broken", "x").err(), Some(ApiError::Internal));
    // An agent in an array of values is taken out of it.
    let inline = "agents = [{ id = \"x\" }, { id = 'y' }] # two\n";
    assert_eq!(delete_agent(inline, "x").as_deref(), Ok("agents = [ { id = 'y' }] # two\n"));
    assert_eq!(delete_agent(inline, "z").as_deref(), Ok(inline));
    assert_eq!(delete_agent("agents = 1\n", "x").as_deref(), Ok("agents = 1\n"));

    let mut doc = read(before);
    insert_agent(&mut doc, "new").unwrap();
    remove_agent(&mut doc, "main");
    let agents = doc["agents"].as_array_of_tables().unwrap();
    assert_eq!(agents.len(), 1);
    assert_eq!(agents.get(0).unwrap()["id"].as_str(), Some("new"));
}

#[test]
fn agents_are_forgotten() {
    let info = |id: &str| AgentInfo {
        id: id.to_string(),
        workspace: "/w".to_string(),
        context_window: 1,
        max_turns: 1,
        max_concurrent_branches: 1,
        max_concurrent_workers: 1,
    };
    let kept = forget_agent(vec![info("a"), info("b"), info("a")], "a");
    assert_eq!(kept.len(), 1);
    assert_eq!(kept[0].id, "b");
}

#[test]
fn rows_are_summed_up() {
    let rows = vec![("fact".to_string(), 2), ("goal".to_string(), 3)];
    let (counts, total) = count_memories(&rows);
    assert_eq!(counts, rows);
    assert_eq!(total, 5);

    let row = CronRow {
        id: "c".to_string(),
        prompt: "p".to_string(),
        interval_secs: 60,
        delivery_target: "discord:1".to_string(),
        active_start_hour: Some(9),
        active_end_hour: Some(17),
        enabled: 1,
        run_once: 0,
        timeout_secs: None,
    };
    let info = row.clone().into_info();
    assert_eq!(info.interval_secs, 60);
    assert_eq!(info.active_hours, Some((9, 17)));
    assert!(info.enabled);
    assert!(!info.run_once);
    let wrapped = CronRow {
        interval_secs: -1,
        active_start_hour: Some(257),
        timeout_secs: Some(-1),
        ..row.clone()
    }
    .into_info();
    assert_eq!(wrapped.interval_secs, u64::MAX);
    assert_eq!(wrapped.active_hours, Some((1, 17)));
    assert_eq!(wrapped.timeout_secs, Some(u64::MAX));
    assert_eq!(CronRow { active_end_hour: None, ..row }.into_info().active_hours, None);
}

#[test]
fn bulletins_are_read_from_their_record() {
    let event = |details: Option<&str>| CortexEvent {
        id: "e".to_string(),
        event_type: "bulletin_generated".to_string(),
        summary: "s".to_string(),
        details: details.map(|text| text.to_string()),
        created_at: "now".to_string(),
    };
    assert_eq!(
        latest_bulletin(&Some(event(Some("{\"bulletin_text\": \"news\"}")))),
        Some("news".to_string())
    );
    assert_eq!(latest_bulletin(&Some(event(Some("{\"bulletin_text\": 1}")))), None);
    assert_eq!(latest_bulletin(&Some(event(None))), None);
    assert_eq!(latest_bulletin(&None), None);
}

#[test]
fn activity_is_counted_by_day() {
    let branches = vec![("2026-02-02".to_string(), 2), ("2026-02-01".to_string(), 1)];
    let workers = vec![("2026-02-02".to_string(), 5), ("2026-01-31".to_string(), 4)];
    let days: Vec<(String, i64, i64)> = activity_daily(&branches, &workers)
        .into_iter()
        .map(|day| (day.date, day.branches, day.workers))
        .collect();
    assert_eq!(
        days,
        vec![
            ("2026-01-31".to_string(), 0, 4),
            ("2026-02-01".to_string(), 1, 0),
            ("2026-02-02".to_string(), 2, 5),
        ]
    );

    // Noon of 15 January 1970.
    let now = Timestamp { seconds: 14 * 86_400 + 43_200, nanos: 0 };
    let activity = vec![
        ("1970-01-02".to_string(), 1),
        ("1970-01-15".to_string(), 9),
        ("1970-01-01".to_string(), 7),
    ];
    let sparkline = activity_sparkline(&activity, now);
    assert_eq!(sparkline.len(), 14);
    assert_eq!(sparkline[0], 1);
    assert_eq!(sparkline[13], 9);
    assert_eq!(sparkline.iter().sum::<i64>(), 10);
    assert_eq!(
        counts_of(&activity, &vec!["1970-01-01".to_string(), "x".to_string()]),
        vec![7, 0]
    );
}

#[test]
fn the_last_activity_counts() {
    let times = vec![
        Timestamp { seconds: 5, nanos: 7 },
        Timestamp { seconds: 60, nanos: 0 },
        Timestamp { seconds: 5, nanos: 9 },
    ];
    assert_eq!(latest_time(&times), Some(Timestamp { seconds: 60, nanos: 0 }));
    assert_eq!(last_activity_at(&times).as_deref(), Some("1970-01-01T00:01:00+00:00"));
    assert_eq!(last_activity_at(&Vec::new()), None);
}

#[test]
fn identities_are_written_to_files() {
    let writes = identity_writes(IdentityUpdateRequest {
        agent_id: "main".to_string(),
        soul: Some("kind".to_string()),
        identity: None,
        user: Some("ann".to_string()),
    });
    assert_eq!(
        writes,
        vec![("SOUL.md", "kind".to_string()), ("USER.md", "ann".to_string())]
    );
}

#[test]
fn tokens_are_checked() {
    assert!(is_authorized(None, "/api/agents", None));
    assert!(is_authorized(Some("t"), "/api/health", None));
    assert!(is_authorized(Some("t"), "/health", None));
    assert!(is_authorized(Some("t"), "/api/agents", Some("Bearer t")));
    assert!(!is_authorized(Some("t"), "/api/agents", Some("Bearer x")));
    assert!(!is_authorized(Some("t"), "/api/agents", Some("bearer t")));
    assert!(!is_authorized(Some("t"), "/api/agents", None));
}

#[test]
fn assets_have_a_media_type() {
    assert_eq!(asset_name("//app.js"), "app.js");
    let page = "<p>é</p>".as_bytes().to_vec();
    assert_eq!(
        static_response("style.css", true, Some(&page)),
        StaticResponse::Asset { content_type: "text/css".to_string() }
    );
    assert_eq!(
        static_response("data.unknownkind", true, None),
        StaticResponse::Asset { content_type: "application/octet-stream".to_string() }
    );
    // The extension is that of the last part of the path.
    for (name, expected) in [
        ("a/b.c/app.min.css", "text/css"),
        ("a.css/", "text/css"),
        ("a.css/file", "application/octet-stream"),
        (".css", "application/octet-stream"),
        ("file", "application/octet-stream"),
    ] {
        assert_eq!(
            static_response(name, true, None),
            StaticResponse::Asset { content_type: expected.to_string() }
        );
    }
    assert_eq!(
        asset_response(Some("image/png".to_string()), Some(&page)),
        StaticResponse::Asset { content_type: "image/png".to_string() }
    );
    assert_eq!(
        static_response("route", false, Some(&page)),
        StaticResponse::Page("<p>é</p>".to_string())
    );
    assert_eq!(
        static_response("route", false, Some(&vec![0xff])),
        StaticResponse::Page(String::new())
    );
    assert_eq!(static_response("route", false, None), StaticResponse::NotFound);
}
