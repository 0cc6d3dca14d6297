//! What the configuration file means where it says nothing, and the providers
//! that it names.

use crate::assoc::{member, set_member};
use crate::text::{eq_ignore_ascii_case, is_prefix, same_ascii, strip_prefix, text_eq};
use vstd::prelude::*;
use vstd::string::*;

verus! {

/// Which way a link between agents goes.
pub fn default_link_direction() -> (direction: String)
    ensures
        direction@ == "two_way"@,
{
    "two_way".to_owned()
}

/// How linked agents stand to each other.
pub fn default_link_kind() -> (kind: String)
    ensures
        kind@ == "peer"@,
{
    "peer".to_owned()
}

/// How the HTTP API is served.
#[derive(Debug, Clone)]
pub struct TomlApiConfig {
    pub enabled: bool,
    pub port: u16,
    pub bind: String,
    pub auth_token: Option<String>,
}

impl Default for TomlApiConfig {
    fn default() -> (config: TomlApiConfig)
        ensures
            config.enabled && config.port == 19898 && config.bind@ == "127.0.0.1"@,
            config.auth_token is None,
    {
        TomlApiConfig {
            enabled: default_api_enabled(),
            port: default_api_port(),
            bind: default_api_bind(),
            auth_token: None,
        }
    }
}

pub fn default_api_enabled() -> (enabled: bool)
    ensures
        enabled,
{
    true
}

pub fn default_api_port() -> (port: u16)
    ensures
        port == 19898,
{
    19898
}

pub fn default_api_bind() -> (bind: String)
    ensures
        bind@ == "127.0.0.1"@,
{
    "127.0.0.1".to_owned()
}

/// The address that the API listens on: in a hosted deployment any, else the one
/// that is configured.
pub fn hosted_api_bind(bind: String, deployment: Option<&str>) -> (address: String)
    ensures
        address@ == if deployment is Some && same_ascii(deployment->0@, "hosted"@) {
            "[::]"@
        } else {
            bind@
        },
{
    match deployment {
        Some(kind) => if eq_ignore_ascii_case(kind, "hosted") {
            "[::]".to_owned()
        } else {
            bind
        },
        None => bind,
    }
}

/// How metrics are served.
#[derive(Debug, Clone)]
pub struct TomlMetricsConfig {
    pub enabled: bool,
    pub port: u16,
    pub bind: String,
}

impl Default for TomlMetricsConfig {
    fn default() -> (config: TomlMetricsConfig)
        ensures
            !config.enabled && config.port == 9090 && config.bind@ == "0.0.0.0"@,
    {
        TomlMetricsConfig {
            enabled: false,
            port: default_metrics_port(),
            bind: default_metrics_bind(),
        }
    }
}

pub fn default_metrics_port() -> (port: u16)
    ensures
        port == 9090,
{
    9090
}

pub fn default_metrics_bind() -> (bind: String)
    ensures
        bind@ == "0.0.0.0"@,
{
    "0.0.0.0".to_owned()
}

pub fn default_mcp_enabled() -> (enabled: bool)
    ensures
        enabled,
{
    true
}

/// Whether a scheduled job runs.
pub fn default_enabled() -> (enabled: bool)
    ensures
        enabled,
{
    true
}

pub fn default_webhook_port() -> (port: u16)
    ensures
        port == 18789,
{
    18789
}

pub fn default_webhook_bind() -> (bind: String)
    ensures
        bind@ == "127.0.0.1"@,
{
    "127.0.0.1".to_owned()
}

pub fn default_email_imap_port() -> (port: u16)
    ensures
        port == 993,
{
    993
}

pub fn default_email_imap_use_tls() -> (use_tls: bool)
    ensures
        use_tls,
{
    true
}

pub fn default_email_smtp_port() -> (port: u16)
    ensures
        port == 587,
{
    587
}

pub fn default_email_smtp_use_starttls() -> (use_starttls: bool)
    ensures
        use_starttls,
{
    true
}

pub fn default_email_poll_interval_secs() -> (secs: u64)
    ensures
        secs == 30,
{
    30
}

pub fn default_email_folders() -> (folders: Vec<String>)
    ensures
        folders@.len() == 1 && folders@[0]@ == "INBOX"@,
{
    let mut folders: Vec<String> = Vec::new();
    folders.push("INBOX".to_owned());
    folders
}

pub fn default_email_max_body_bytes() -> (bytes: usize)
    ensures
        bytes == 256 * 1024,
{
    256 * 1024
}

pub fn default_email_max_attachment_bytes() -> (bytes: usize)
    ensures
        bytes == 10 * 1024 * 1024,
{
    10 * 1024 * 1024
}

/// A provider of models.
#[derive(Debug, Clone)]
pub struct TomlProviderConfig {
    pub api_type: String,
    pub base_url: String,
    pub api_key: String,
    pub name: Option<String>,
}

/// A value under a key of the `llm` section that has no meaning of its own.
#[derive(Debug)]
pub struct ExtraValue {
    /// Where the value is a table: its keys, and each of its values read as a
    /// provider.
    pub table: Option<Vec<(String, Result<TomlProviderConfig, String>)>>,
    /// The value itself read as a provider.
    pub provider: Result<TomlProviderConfig, String>,
}

/// Providers by their identifiers.
pub type Providers = Map<Seq<char>, TomlProviderConfig>;

/// The providers of a list.
pub open spec fn providers_of(list: Seq<(String, TomlProviderConfig)>) -> Providers {
    Map::new(|id: Seq<char>| member(list, id) is Some, |id: Seq<char>| member(list, id)->0)
}

/// Providers with another one; what is wrong with it, where it could not be
/// read.
pub open spec fn with_provider(
    providers: Providers,
    id: Seq<char>,
    provider: Result<TomlProviderConfig, String>,
) -> Result<Providers, Seq<char>> {
    match provider {
        Ok(config) => Ok(providers.insert(id, config)),
        Err(message) => Err(message@),
    }
}

/// Providers with the first ones of a table.
pub open spec fn with_table(
    providers: Providers,
    table: Seq<(String, Result<TomlProviderConfig, String>)>,
    count: int,
) -> Result<Providers, Seq<char>>
    decreases count,
{
    if count <= 0 {
        Ok(providers)
    } else {
        match with_table(providers, table, count - 1) {
            Ok(before) => with_provider(before, table[count - 1].0@, table[count - 1].1),
            Err(message) => Err(message),
        }
    }
}

/// Providers with those that a value of the `llm` section names.
pub open spec fn with_extra(providers: Providers, key: Seq<char>, value: ExtraValue) -> Result<
    Providers,
    Seq<char>,
> {
    if key == "provider"@ {
        match value.table {
            Some(table) => with_table(providers, table@, table@.len() as int),
            None => Err("`llm.provider` must be a table"@),
        }
    } else if is_prefix("provider."@, key) {
        with_provider(providers, key.skip("provider."@.len() as int), value.provider)
    } else {
        Ok(providers)
    }
}

/// Providers with those that the first values of the `llm` section name. Where
/// two name one provider the later counts.
pub open spec fn with_extras(providers: Providers, extra: Seq<(String, ExtraValue)>, count: int) -> Result<
    Providers,
    Seq<char>,
>
    decreases count,
{
    if count <= 0 {
        Ok(providers)
    } else {
        match with_extras(providers, extra, count - 1) {
            Ok(before) => with_extra(before, extra[count - 1].0@, extra[count - 1].1),
            Err(message) => Err(message),
        }
    }
}

/// Whether a list of providers, or what is wrong, is as it should be.
pub open spec fn is_merged(
    result: Result<Vec<(String, TomlProviderConfig)>, String>,
    expected: Result<Providers, Seq<char>>,
) -> bool {
    match (result, expected) {
        (Ok(list), Ok(providers)) => providers_of(list@) == providers,
        (Err(message), Err(text)) => message@ == text,
        _ => false,
    }
}

fn add_provider(
    providers: Vec<(String, TomlProviderConfig)>,
    id: String,
    provider: Result<TomlProviderConfig, String>,
) -> (result: Result<Vec<(String, TomlProviderConfig)>, String>)
    ensures
        is_merged(result, with_provider(providers_of(providers@), id@, provider)),
{
    match provider {
        Ok(config) => {
            let mut list = providers;
            let ghost before = providers_of(list@);
            let ghost name = id@;
            set_member(&mut list, id, config);
            assert(providers_of(list@) =~= before.insert(name, config)) by {
                assert forall|other: Seq<char>| member(list@, other) is Some == (other == name
                    || before.contains_key(other)) by {
                    if other != name {
                        assert(member(list@, other) == member(providers@, other));
                    }
                }
            }
            Ok(list)
        },
        Err(message) => Err(message),
    }
}

fn add_table(
    providers: Vec<(String, TomlProviderConfig)>,
    table: Vec<(String, Result<TomlProviderConfig, String>)>,
) -> (result: Result<Vec<(String, TomlProviderConfig)>, String>)
    ensures
        is_merged(
            result,
            with_table(providers_of(providers@), table@, table@.len() as int),
        ),
{
    let ghost start = providers_of(providers@);
    let ghost all = table@;
    let mut rest = table;
    let mut list = providers;
    let ghost mut done: int = 0;
    assert(rest@ =~= all.skip(0));
    while rest.len() > 0
        invariant
            0 <= done <= all.len(),
            start == providers_of(providers@),
            all == table@,
            rest@ == all.skip(done),
            with_table(start, all, done) == Ok::<Providers, Seq<char>>(providers_of(list@)),
        decreases rest@.len(),
    {
        let (id, provider) = rest.remove(0);
        assert((id, provider) == all[done]);
        assert(rest@ =~= all.skip(done + 1));
        match add_provider(list, id, provider) {
            Ok(longer) => {
                list = longer;
            },
            Err(message) => {
                proof {
                    lemma_table_error_stays(start, all, done + 1, all.len() as int);
                }
                return Err(message);
            },
        }
        proof {
            done = done + 1;
        }
    }
    Ok(list)
}

proof fn lemma_table_error_stays(
    providers: Providers,
    table: Seq<(String, Result<TomlProviderConfig, String>)>,
    at: int,
    count: int,
)
    requires
        0 <= at <= count,
        with_table(providers, table, at) is Err,
    ensures
        with_table(providers, table, count) == with_table(providers, table, at),
    decreases count,
{
    if at < count {
        lemma_table_error_stays(providers, table, at, count - 1);
    }
}

proof fn lemma_extra_error_stays(
    providers: Providers,
    extra: Seq<(String, ExtraValue)>,
    at: int,
    count: int,
)
    requires
        0 <= at <= count,
        with_extras(providers, extra, at) is Err,
    ensures
        with_extras(providers, extra, count) == with_extras(providers, extra, at),
    decreases count,
{
    if at < count {
        lemma_extra_error_stays(providers, extra, at, count - 1);
    }
}

/// Adds the providers that a value of the `llm` section names.
fn add_extra(
    providers: Vec<(String, TomlProviderConfig)>,
    key: &str,
    value: ExtraValue,
) -> (result: Result<Vec<(String, TomlProviderConfig)>, String>)
    ensures
        is_merged(result, with_extra(providers_of(providers@), key@, value)),
{
    if text_eq(key, "provider") {
        return match value.table {
            Some(table) => add_table(providers, table),
            None => Err("`llm.provider` must be a table".to_owned()),
        };
    }
    match strip_prefix(key, "provider.") {
        Some(id) => add_provider(providers, id.to_owned(), value.provider),
        None => Ok(providers),
    }
}

/// Puts the providers of the `llm` section together: those of its `providers`
/// table, those of its `provider` table, and those of its `provider.<id>` keys.
/// The first value that cannot be read is an error.
pub fn merge_providers(
    providers: Vec<(String, TomlProviderConfig)>,
    extra: Vec<(String, ExtraValue)>,
) -> (result: Result<Vec<(String, TomlProviderConfig)>, String>)
    ensures
        is_merged(
            result,
            with_extras(providers_of(providers@), extra@, extra@.len() as int),
        ),
{
    let ghost start = providers_of(providers@);
    let ghost all = extra@;
    let mut rest = extra;
    let mut list = providers;
    let ghost mut done: int = 0;
    assert(rest@ =~= all.skip(0));
    while rest.len() > 0
        invariant
            0 <= done <= all.len(),
            start == providers_of(providers@),
            all == extra@,
            rest@ == all.skip(done),
            with_extras(start, all, done) == Ok::<Providers, Seq<char>>(providers_of(list@)),
        decreases rest@.len(),
    {
        let (key, value) = rest.remove(0);
        assert((key, value) == all[done]);
        assert(rest@ =~= all.skip(done + 1));
        match add_extra(list, key.as_str(), value) {
            Ok(longer) => {
                list = longer;
            },
            Err(message) => {
                proof {
                    lemma_extra_error_stays(start, all, done + 1, all.len() as int);
                }
                return Err(message);
            },
        }
        proof {
            done = done + 1;
        }
    }
    Ok(list)
}

/// A key of the `llm` section that names no provider changes none.
pub proof fn law_other_keys_are_ignored(providers: Providers, key: Seq<char>, value: ExtraValue)
    requires
        key != "provider"@,
        !is_prefix("provider."@, key),
    ensures
        with_extra(providers, key, value) == Ok::<Providers, Seq<char>>(providers),
{
}

/// A key `provider.<id>` and a `provider` table with that identifier mean the
/// same.
pub proof fn law_dotted_key_is_a_table(
    providers: Providers,
    id: String,
    dotted: ExtraValue,
    value: ExtraValue,
)
    requires
        value.table is Some,
        value.table->0@ == seq![(id, dotted.provider)],
    ensures
        with_extra(providers, "provider."@ + id@, dotted) == with_extra(
            providers,
            "provider"@,
            value,
        ),
{
    reveal_strlit("provider");
    reveal_strlit("provider.");
    let mark = "provider."@;
    let key = mark + id@;
    assert(key.len() >= 9);
    assert("provider"@.len() == 8);
    assert(key != "provider"@);
    assert(key.take(mark.len() as int) =~= mark);
    assert(key.skip(mark.len() as int) =~= id@);
    reveal_with_fuel(with_table, 2);
}

/// A provider under a key of its own is there in the end, as it is read, unless a
/// later value names it again.
pub proof fn law_dotted_provider_is_merged(
    providers: Providers,
    extra: Seq<(String, ExtraValue)>,
    at: int,
    count: int,
    id: Seq<char>,
)
    requires
        0 <= at < count <= extra.len(),
        extra[at].0@ == "provider."@ + id,
        forall|later: int|
            at < later < count ==> (#[trigger] extra[later]).0@ != "provider"@ && extra[later].0@
                != "provider."@ + id,
        with_extras(providers, extra, count) is Ok,
    ensures
        extra[at].1.provider is Ok,
        with_extras(providers, extra, count)->Ok_0.contains_key(id),
        with_extras(providers, extra, count)->Ok_0[id] == extra[at].1.provider->Ok_0,
    decreases count,
{
    reveal_strlit("provider");
    reveal_strlit("provider.");
    let mark = "provider."@;
    assert(mark.len() == 9 && "provider"@.len() == 8);
    if at == count - 1 {
        let key = extra[at].0@;
        assert(key.len() >= 9);
        assert(key.take(9) =~= mark);
        assert(key.skip(9) =~= id);
    } else {
        law_dotted_provider_is_merged(providers, extra, at, count - 1, id);
        let key = extra[count - 1].0@;
        assert(key != "provider"@ && key != mark + id);
        if is_prefix(mark, key) && key.skip(9) == id {
            assert(key =~= mark + id);
        }
    }
}

/// A provider of the section's own table stays, unless a value names it.
pub proof fn law_own_provider_stays(
    providers: Providers,
    extra: Seq<(String, ExtraValue)>,
    count: int,
    id: Seq<char>,
)
    requires
        0 <= count <= extra.len(),
        forall|i: int|
            0 <= i < count ==> (#[trigger] extra[i]).0@ != "provider"@ && extra[i].0@ != "provider."@
                + id,
        with_extras(providers, extra, count) is Ok,
    ensures
        with_extras(providers, extra, count)->Ok_0.contains_key(id) == providers.contains_key(id),
        providers.contains_key(id) ==> with_extras(providers, extra, count)->Ok_0[id]
            == providers[id],
    decreases count,
{
    reveal_strlit("provider.");
    let mark = "provider."@;
    assert(mark.len() == 9);
    if count > 0 {
        law_own_provider_stays(providers, extra, count - 1, id);
        let key = extra[count - 1].0@;
        assert(key != "provider"@ && key != mark + id);
        if is_prefix(mark, key) && key.skip(9) == id {
            assert(key =~= mark + id);
        }
    }
}

/// Every provider of the `provider` table is there, of two with one identifier the
/// later.
pub proof fn law_table_is_merged(
    providers: Providers,
    table: Seq<(String, Result<TomlProviderConfig, String>)>,
    at: int,
    count: int,
)
    requires
        0 <= at < count <= table.len(),
        forall|later: int| at < later < count ==> (#[trigger] table[later]).0@ != table[at].0@,
        with_table(providers, table, count) is Ok,
    ensures
        table[at].1 is Ok,
        with_table(providers, table, count)->Ok_0.contains_key(table[at].0@),
        with_table(providers, table, count)->Ok_0[table[at].0@] == table[at].1->Ok_0,
    decreases count,
{
    if at < count - 1 {
        law_table_is_merged(providers, table, at, count - 1);
        assert(table[count - 1].0@ != table[at].0@);
    }
}

/// The first value that cannot be read is what is told, whatever comes behind it.
pub proof fn law_first_error_is_told(
    providers: Providers,
    extra: Seq<(String, ExtraValue)>,
    at: int,
    count: int,
    id: Seq<char>,
    message: String,
)
    requires
        0 <= at < count <= extra.len(),
        with_extras(providers, extra, at) is Ok,
        extra[at].0@ == "provider."@ + id,
        extra[at].1.provider == Err::<TomlProviderConfig, String>(message),
    ensures
        with_extras(providers, extra, count) == Err::<Providers, Seq<char>>(message@),
{
    reveal_strlit("provider");
    reveal_strlit("provider.");
    let mark = "provider."@;
    assert(mark.len() == 9 && "provider"@.len() == 8);
    let key = extra[at].0@;
    assert(key.len() >= 9);
    assert(key.take(9) =~= mark);
    assert(with_extras(providers, extra, at + 1) is Err);
    lemma_extra_error_stays(providers, extra, at + 1, count);
}

} // verus!
