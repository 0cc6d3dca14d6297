use spacebot::assoc::{find_member, find_position, remove_member, set_member};
use spacebot::base64_bytes::{deserialize, serialize, InvalidBase64};
use spacebot::clock::Timestamp;
use spacebot::config::toml_schema::{
    default_email_folders, default_email_max_attachment_bytes, default_email_max_body_bytes,
    default_api_bind, default_api_enabled, default_api_port, default_email_imap_port,
    default_email_imap_use_tls, default_email_poll_interval_secs, default_email_smtp_port,
    default_email_smtp_use_starttls, default_enabled, default_link_direction, default_link_kind,
    default_mcp_enabled, default_metrics_bind, default_metrics_port, default_webhook_bind,
    default_webhook_port, hosted_api_bind, merge_providers, ExtraValue, TomlApiConfig, TomlMetricsConfig,
    TomlProviderConfig,
};
use spacebot::events::{ProcessId, ProcessType};
use spacebot::json::{find_flag, find_text, is_json, parse_member_text, JsonValue};
use spacebot::messages::{default_poll_duration, Card, InboundMessage, MessageContent};
use spacebot::text::{
    contains, eq_ignore_ascii_case, i64_text, join, split, starts_with, strip_prefix, trim,
    truncate_to_bytes, truncate_to_chars, u64_text,
};

#[test]
fn processes_are_told() {
    assert_eq!(ProcessId::Channel("c".to_string()).display(), "channel:c");
    assert_eq!(
        ProcessId::Worker(0x0123456789abcdef0123456789abcdef).display(),
        "worker:01234567-89ab-cdef-0123-456789abcdef"
    );
    assert_eq!(
        ProcessId::Branch(u128::MAX).display(),
        "branch:ffffffff-ffff-ffff-ffff-ffffffffffff"
    );
    assert_eq!(ProcessType::Compactor.display(), "compactor");
}

fn message(source: &str, adapter: Option<&str>) -> InboundMessage {
    InboundMessage {
        id: "m".to_string(),
        source: source.to_string(),
        adapter: adapter.map(|name| name.to_string()),
        conversation_id: "c".to_string(),
        sender_id: "s".to_string(),
        agent_id: None,
        content: MessageContent::Text("x".to_string()),
        timestamp: Timestamp { seconds: 0, nanos: 0 },
        metadata: Vec::new(),
        formatted_author: None,
    }
}

#[test]
fn adapters_are_selected_by_name() {
    assert_eq!(message("telegram", None).adapter_key(), "telegram");
    assert_eq!(message("telegram", Some("  ")).adapter_key(), "telegram");
    assert_eq!(message("telegram", Some(" telegram:a ")).adapter_key(), "telegram:a");
    assert_eq!(
        message("telegram", Some("telegram:support")).adapter_selector(),
        Some("support")
    );
    assert_eq!(message("telegram", None).adapter_selector(), None);
    assert_eq!(message("telegram", Some("telegram:")).adapter_selector(), None);
    assert_eq!(message("telegram", Some("slack:a")).adapter_selector(), None);
}

#[test]
fn contents_are_displayed() {
    assert_eq!(MessageContent::Text("hi".to_string()).display(), "hi");
    let media = |text: Option<&str>| MessageContent::Media {
        text: text.map(|text| text.to_string()),
        attachments: Vec::new(),
    };
    assert_eq!(media(None).display(), "[media]");
    assert_eq!(media(Some("look")).display(), "look");
    let interaction = |values: Vec<String>, label: Option<&str>| MessageContent::Interaction {
        action_id: "vote".to_string(),
        block_id: None,
        values,
        label: label.map(|text| text.to_string()),
        message_ts: None,
    };
    assert_eq!(
        interaction(Vec::new(), Some("Yes")).display(),
        "[interaction: vote → Yes]"
    );
    assert_eq!(
        interaction(vec!["a".to_string(), "b\"c".to_string()], None).display(),
        "[interaction: vote → [\"a\", \"b\\\"c\"]]"
    );
    assert_eq!(interaction(Vec::new(), None).display(), "[interaction: vote]");
    assert_eq!(default_poll_duration(), 24);
    assert!(Card::default().fields.is_empty());
}

#[test]
fn bytes_come_back_from_base64() {
    let bytes: Vec<u8> = (0..=255).collect();
    let text = serialize(&bytes);
    assert_eq!(deserialize(&text), Ok(bytes));
    assert_eq!(serialize(b"hi!"), "aGkh");
    assert_eq!(serialize(b"hi"), "aGk=");
    assert_eq!(deserialize("aGk"), Err(InvalidBase64));
    assert_eq!(deserialize("*"), Err(InvalidBase64));
    // The bits behind the last byte are not all zero.
    assert_eq!(deserialize("aGl="), Err(InvalidBase64));
}

#[test]
fn members_are_kept_by_name() {
    let mut members: Vec<(String, u8)> = Vec::new();
    set_member(&mut members, "a".to_string(), 1);
    set_member(&mut members, "b".to_string(), 2);
    set_member(&mut members, "a".to_string(), 3);
    assert_eq!(members.len(), 2);
    assert_eq!(find_member(&members, "a"), Some(&3));
    assert_eq!(find_position(&members, "c"), None);
    assert!(remove_member(&mut members, "a"));
    assert!(!remove_member(&mut members, "a"));

    let values = vec![
        ("t".to_string(), JsonValue::Text("x".to_string())),
        ("f".to_string(), JsonValue::Bool(true)),
        ("n".to_string(), JsonValue::Null),
    ];
    assert_eq!(find_text(&values, "t"), Some("x"));
    assert_eq!(find_text(&values, "f"), None);
    assert_eq!(find_flag(&values, "f"), Some(true));
    assert_eq!(find_flag(&values, "n"), None);
}

#[test]
fn members_are_read_from_json() {
    let text = "{\"content\": \"h\\u00e9\", \"count\": 1}";
    assert!(is_json(text));
    assert_eq!(parse_member_text(text, "content").as_deref(), Some("hé"));
    assert_eq!(parse_member_text(text, "count"), None);
    assert_eq!(parse_member_text(text, "other"), None);
    assert_eq!(parse_member_text("[\"content\"]", "content"), None);
    assert!(!is_json("{content}"));
    assert_eq!(parse_member_text("{content}", "content"), None);
}

#[test]
fn texts_are_cut_between_characters() {
    assert_eq!(trim("\u{a0} a b\u{3000}\n"), "a b");
    assert_eq!(split("a::b", ':'), vec!["a", "", "b"]);
    assert_eq!(split("", ':'), vec![""]);
    assert_eq!(truncate_to_chars("ééé", 2), "éé");
    assert_eq!(truncate_to_bytes("ééé", 3), "é");
    assert!(starts_with("abc", "ab"));
    assert_eq!(strip_prefix("abc", "ab"), Some("c"));
    assert_eq!(strip_prefix("abc", "b"), None);
    assert!(contains("abc", ""));
    assert!(contains("aab", "ab"));
    assert!(!contains("ab", "abc"));
    assert_eq!(join(&vec!["a".to_string(), "b".to_string()], ", "), "a, b");
    assert_eq!(u64_text(u64::MAX), "18446744073709551615");
    assert_eq!(i64_text(i64::MIN), "-9223372036854775808");
    assert_eq!(i64_text(0), "0");
    assert!(eq_ignore_ascii_case("HoSTed", "hosted"));
    assert!(!eq_ignore_ascii_case("É", "é"));
}

#[test]
fn configuration_has_defaults() {
    let api = TomlApiConfig::default();
    assert!(api.enabled);
    assert_eq!(api.port, 19898);
    assert_eq!(api.bind, "127.0.0.1");
    assert_eq!(api.auth_token, None);
    let metrics = TomlMetricsConfig::default();
    assert!(!metrics.enabled);
    assert_eq!(metrics.port, 9090);
    assert_eq!(metrics.bind, "0.0.0.0");
    assert_eq!(hosted_api_bind("127.0.0.1".to_string(), Some("HOSTED")), "[::]");
    assert_eq!(hosted_api_bind("127.0.0.1".to_string(), Some("local")), "127.0.0.1");
    assert_eq!(hosted_api_bind("127.0.0.1".to_string(), None), "127.0.0.1");
    assert!(default_api_enabled() && default_enabled() && default_mcp_enabled());
    assert_eq!(default_api_port(), 19898);
    assert_eq!(default_api_bind(), "127.0.0.1");
    assert_eq!(default_metrics_port(), 9090);
    assert_eq!(default_metrics_bind(), "0.0.0.0");
    assert_eq!(default_webhook_port(), 18789);
    assert_eq!(default_webhook_bind(), "127.0.0.1");
    assert_eq!(default_email_imap_port(), 993);
    assert!(default_email_imap_use_tls() && default_email_smtp_use_starttls());
    assert_eq!(default_email_smtp_port(), 587);
    assert_eq!(default_link_direction(), "two_way");
    assert_eq!(default_link_kind(), "peer");
    assert_eq!(default_email_poll_interval_secs(), 30);
    assert_eq!(default_email_folders(), vec!["INBOX".to_string()]);
    assert_eq!(default_email_max_body_bytes(), 256 * 1024);
    assert_eq!(default_email_max_attachment_bytes(), 10 * 1024 * 1024);
}

fn provider(key: &str) -> TomlProviderConfig {
    TomlProviderConfig {
        api_type: "openai".to_string(),
        base_url: "https://example.com".to_string(),
        api_key: key.to_string(),
        name: None,
    }
}

fn value(key: &str) -> ExtraValue {
    ExtraValue { table: None, provider: Ok(provider(key)) }
}

#[test]
fn providers_are_merged() {
    let extra = vec![
        ("unknown".to_string(), value("0")),
        ("provider.b".to_string(), value("2")),
        (
            "provider".to_string(),
            ExtraValue {
                table: Some(vec![("c".to_string(), Ok(provider("3")))]),
                provider: Err("no provider".to_string()),
            },
        ),
        ("provider.a".to_string(), value("4")),
    ];
    let merged = merge_providers(vec![("a".to_string(), provider("1"))], extra).unwrap();
    let keys: Vec<(&str, &str)> = merged
        .iter()
        .map(|(id, provider)| (id.as_str(), provider.api_key.as_str()))
        .collect();
    assert_eq!(keys, vec![("a", "4"), ("b", "2"), ("c", "3")]);
}

#[test]
fn unreadable_providers_are_errors() {
    let broken = ExtraValue { table: None, provider: Err("bad key".to_string()) };
    assert_eq!(
        merge_providers(Vec::new(), vec![("provider.a".to_string(), broken)]).err(),
        Some("bad key".to_string())
    );
    assert_eq!(
        merge_providers(Vec::new(), vec![("provider".to_string(), value("1"))]).err(),
        Some("`llm.provider` must be a table".to_string())
    );
    let table = ExtraValue {
        table: Some(vec![("a".to_string(), Err("bad table".to_string()))]),
        provider: Ok(provider("1")),
    };
    assert_eq!(
        merge_providers(Vec::new(), vec![("provider".to_string(), table)]).err(),
        Some("bad table".to_string())
    );
}
