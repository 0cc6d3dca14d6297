//! Servers of the Model Context Protocol, as `[[mcp_servers]]` tables.

use crate::api::bindings::lists_texts;
use crate::api::error::ApiError;
use crate::text::{text_eq, trim, trimmed, view_of, views};
use crate::toml_doc::{
    child_tables_mut, document_entries, document_layout, document_text, document_trailing,
    find_with_text, first_with_text, flag_at, get_flag, get_text, holds_values, inline_entries,
    inline_item, inline_text, insert_text, item_layout, item_node, law_first_table_is_found,
        left_of,
    lemma_first_with_text,
    node_at, parse_document, parsed_entries, parsed_toml, printed, prints_edit, push_inline,
    remove_with_text, root_is_table, section_entries, section_text, section_with, set_flag, set_item,
    set_text, set_text_if, set_text_or_remove, set_texts_if, set_texts_or_remove, table_entries,
    table_layout, tables_item, tables_layout, tables_of, text_at, with_text, with_text_or_none,
    with_texts, with_texts_or_none, without_text, Entries, TomlNode, TomlText,
};
use crate::toml_layout::{
    adds_table, edited, kept_but, lemma_edited_further, lemma_kept_is_edited, list_layout,
    one_edited, one_more, only, sections_layout, Layout, TableLayout,
};
use toml_edit::{ArrayOfTables, DocumentMut, InlineTable, Item, Table};
use vstd::prelude::*;
use vstd::string::*;

verus! {

/// A server to be added or changed. The pairs of `env` and `headers` have
/// distinct names.
#[derive(Clone, Debug)]
pub struct CreateMcpServerRequest {
    pub name: String,
    pub transport: String,
    pub enabled: bool,
    pub command: Option<String>,
    pub args: Vec<String>,
    pub env: Vec<(String, String)>,
    pub url: Option<String>,
    pub headers: Vec<(String, String)>,
}

/// Whether a server is on where a request does not say.
pub fn default_enabled() -> (enabled: bool)
    ensures
        enabled,
{
    true
}

/// A server as it stands in the configuration.
#[derive(Clone, Debug)]
pub struct McpServerDef {
    pub name: String,
    pub transport: String,
    pub enabled: bool,
}

/// A server as the API lists it.
#[derive(Clone, Debug)]
pub struct McpServerInfo {
    pub name: String,
    pub transport: String,
    pub enabled: bool,
    pub state: String,
}

/// The servers of one agent, with their states.
#[derive(Clone, Debug)]
pub struct McpAgentStatus {
    pub agent_id: String,
    pub servers: Vec<McpServerInfo>,
}

/// The state of a connection to a server.
#[derive(Clone, Debug)]
pub enum McpConnectionState {
    Connected,
    Connecting,
    Disconnected,
    Failed(String),
}

/// A server as its manager reports it.
#[derive(Clone, Debug)]
pub struct McpServerStatus {
    pub name: String,
    pub transport: String,
    pub enabled: bool,
    pub state: McpConnectionState,
}

/// An answer, with the new content of the configuration where it changes.
#[derive(Clone, Debug)]
pub struct McpChange {
    pub content: Option<String>,
    pub success: bool,
    pub message: String,
}

/// The entries of an inline table of strings.
pub open spec fn pair_entries(pairs: Seq<(String, String)>) -> Entries
    decreases pairs.len(),
{
    if pairs.len() == 0 {
        Map::empty()
    } else {
        pair_entries(pairs.drop_last()).insert(pairs.last().0@, TomlNode::Text(pairs.last().1@))
    }
}

/// Sets an inline table of strings, unless it is empty.
pub open spec fn with_pairs(entries: Entries, key: Seq<char>, pairs: Seq<(String, String)>) -> Entries {
    if pairs.len() == 0 {
        entries
    } else {
        entries.insert(key, TomlNode::Inline(pair_entries(pairs)))
    }
}

impl CreateMcpServerRequest {
    /// The table of the new server.
    pub open spec fn table(self) -> Entries {
        let named = Map::<Seq<char>, TomlNode>::empty().insert(
            "name"@,
            TomlNode::Text(self.name@),
        ).insert("transport"@, TomlNode::Text(self.transport@));
        let switched = if self.enabled {
            named
        } else {
            named.insert("enabled"@, TomlNode::Flag(false))
        };
        let with_command = with_text(switched, "command"@, view_of(self.command));
        let with_args = with_texts(with_command, "args"@, views(self.args@));
        let with_url = with_text(with_args, "url"@, view_of(self.url));
        let with_env = with_pairs(with_url, "env"@, self.env@);
        with_pairs(with_env, "headers"@, self.headers@)
    }

    /// The table of the server after the change. Environment and headers stay.
    pub open spec fn changed(self, table: Entries) -> Entries {
        let moved = table.insert("transport"@, TomlNode::Text(self.transport@));
        let switched = if self.enabled {
            moved.remove("enabled"@)
        } else {
            moved.insert("enabled"@, TomlNode::Flag(false))
        };
        let with_command = with_text_or_none(switched, "command"@, view_of(self.command));
        let with_args = with_texts_or_none(with_command, "args"@, views(self.args@));
        with_text_or_none(with_args, "url"@, view_of(self.url))
    }
}

/// The position of the server with a name, where `mcp_servers` is an array of
/// tables.
pub open spec fn server_position(root: Entries, name: Seq<char>) -> Option<int> {
    match node_at(root, "mcp_servers"@) {
        TomlNode::Sections(tables) => first_with_text(tables, 0, "name"@, name),
        _ => None,
    }
}

impl CreateMcpServerRequest {
    /// The root table with the new server, `None` where the name is taken by a
    /// table of `mcp_servers`. The server becomes a table of an array of tables, or
    /// an inline table in an array of values; in anything else there is no room
    /// for it, and nothing changes.
    pub open spec fn added(self, root: Entries) -> Option<Entries> {
        if server_position(root, self.name@) is Some {
            None
        } else {
            match node_at(root, "mcp_servers"@) {
                TomlNode::Absent => Some(
                    root.insert("mcp_servers"@, TomlNode::Sections(seq![TomlNode::Section(self.table())])),
                ),
                TomlNode::Sections(tables) => Some(
                    root.insert(
                        "mcp_servers"@,
                        TomlNode::Sections(tables.push(TomlNode::Section(self.table()))),
                    ),
                ),
                TomlNode::List(nodes) => Some(
                    root.insert(
                        "mcp_servers"@,
                        TomlNode::List(nodes.push(TomlNode::Inline(self.table()))),
                    ),
                ),
                _ => Some(root),
            }
        }
    }

    /// Whether a document is written as before, with one more server.
    pub open spec fn keeps_added(self, from: TableLayout, to: TableLayout) -> bool {
        &&& adds_table(from, to, "mcp_servers"@)
        &&& list_layout(from, "mcp_servers"@) is Some ==> {
            &&& list_layout(to, "mcp_servers"@) is Some
            &&& list_layout(to, "mcp_servers"@)->0.frame == list_layout(
                from,
                "mcp_servers"@,
            )->0.frame
            &&& one_more(
                list_layout(from, "mcp_servers"@)->0.values,
                list_layout(to, "mcp_servers"@)->0.values,
            )
        }
    }

    /// Whether the change sets a key of the server's table.
    pub open spec fn sets(self, key: Seq<char>) -> bool {
        ||| key == "transport"@
        ||| key == "enabled"@ && !self.enabled
        ||| key == "command"@ && self.command is Some
        ||| key == "args"@ && self.args@.len() > 0
        ||| key == "url"@ && self.url is Some
    }

    /// Whether the change takes a key out of the server's table.
    pub open spec fn clears(self, key: Seq<char>) -> bool {
        ||| key == "enabled"@ && self.enabled
        ||| key == "command"@ && self.command is None
        ||| key == "args"@ && self.args@.len() == 0
        ||| key == "url"@ && self.url is None
    }

    /// Whether a document is written as before, but for what the change sets and
    /// clears in the server's table.
    pub open spec fn keeps_updated(self, root: Entries, from: TableLayout, to: TableLayout) -> bool {
        &&& kept_but(from, to, only("mcp_servers"@, true))
        &&& sections_layout(from, "mcp_servers"@) is Some
        &&& sections_layout(to, "mcp_servers"@) is Some
        &&& server_position(root, self.name@) is Some
        &&& one_edited(
            sections_layout(from, "mcp_servers"@)->0,
            sections_layout(to, "mcp_servers"@)->0,
            server_position(root, self.name@)->0,
            |key: Seq<char>| self.sets(key),
            |key: Seq<char>| self.clears(key),
        )
    }

    /// The root table with the server changed, `None` where there is none of
    /// that name.
    pub open spec fn updated(self, root: Entries) -> Option<Entries> {
        match server_position(root, self.name@) {
            Some(i) => {
                let tables = root["mcp_servers"@]->Sections_0;
                Some(
                    root.insert(
                        "mcp_servers"@,
                        TomlNode::Sections(
                            tables.update(
                                i,
                                TomlNode::Section(self.changed(section_entries(tables[i]))),
                            ),
                        ),
                    ),
                )
            },
            None => None,
        }
    }
}

/// The root table without the servers of a name, `None` where there is none.
pub open spec fn without_server(root: Entries, name: Seq<char>) -> Option<Entries> {
    match server_position(root, name) {
        Some(_) => Some(
            root.insert(
                "mcp_servers"@,
                TomlNode::Sections(
                    without_text(root["mcp_servers"@]->Sections_0, "name"@, name),
                ),
            ),
        ),
        None => None,
    }
}

/// Whether a document is written as before, but for the servers of a name, which
/// were taken out.
pub open spec fn keeps_without_server(
    root: Entries,
    name: Seq<char>,
    from: TableLayout,
    to: TableLayout,
) -> bool {
    &&& kept_but(from, to, only("mcp_servers"@, true))
    &&& sections_layout(from, "mcp_servers"@) is Some
    &&& sections_layout(to, "mcp_servers"@) == Some(
        left_of(
            root["mcp_servers"@]->Sections_0,
            sections_layout(from, "mcp_servers"@)->0,
            section_with("name"@, name),
        ),
    )
}

/// What the configuration says of one server.
pub open spec fn describes(def: McpServerDef, table: Entries) -> bool {
    &&& def.name@ == match text_at(table, "name"@) {
        Some(text) => text,
        None => ""@,
    }
    &&& def.transport@ == match text_at(table, "transport"@) {
        Some(text) => text,
        None => "stdio"@,
    }
    &&& def.enabled == match flag_at(table, "enabled"@) {
        Some(flag) => flag,
        None => true,
    }
}

fn text_or(table: &Table, key: &str, default: &str) -> (text: String)
    ensures
        text@ == match text_at(table_entries(*table), key@) {
            Some(value) => value,
            None => default@,
        },
{
    match get_text(table, key) {
        Some(value) => value.to_owned(),
        None => default.to_owned(),
    }
}

/// The tables among the elements of an array of tables, in order.
pub open spec fn only_sections(nodes: Seq<TomlNode>) -> Seq<TomlNode> {
    nodes.filter(|node: TomlNode| node is Section)
}

/// Whether the servers are those that the configuration lists, in order.
pub open spec fn lists(defs: Seq<McpServerDef>, servers: TomlNode) -> bool {
    match servers {
        TomlNode::Sections(nodes) => defs.len() == only_sections(nodes).len() && forall|i: int|
            0 <= i < defs.len() ==> describes(
                #[trigger] defs[i],
                section_entries(only_sections(nodes)[i]),
            ),
        _ => defs.len() == 0,
    }
}

/// The servers of a document.
pub fn document_servers(doc: &DocumentMut) -> (defs: Vec<McpServerDef>)
    requires
        root_is_table(*doc),
    ensures
        lists(defs@, node_at(document_entries(*doc), "mcp_servers"@)),
{
    let mut defs: Vec<McpServerDef> = Vec::new();
    let tables = match doc.as_table().get("mcp_servers") {
        Some(item) => match item.as_array_of_tables() {
            Some(tables) => tables,
            None => {
                return defs;
            },
        },
        None => {
            return defs;
        },
    };
    let count: usize = tables.len();
    let ghost nodes = tables_of(*tables);
    let mut i: usize = 0;
    proof {
        reveal(Seq::filter);
        assert(only_sections(nodes.take(0)).len() == 0);
    }
    while i < count
        invariant
            i <= count,
            nodes == tables_of(*tables),
            count == nodes.len(),
            lists(defs@, TomlNode::Sections(nodes.take(i as int))),
        decreases count - i,
    {
        proof {
            reveal(Seq::filter);
            assert(nodes.take(i + 1).drop_last() =~= nodes.take(i as int));
            assert(nodes.take(i + 1).last() == nodes[i as int]);
        }
        match tables.get(i) {
            Some(table) => {
                let enabled = match get_flag(table, "enabled") {
                    Some(flag) => flag,
                    None => true,
                };
                defs.push(
                    McpServerDef {
                        name: text_or(table, "name", ""),
                        transport: text_or(table, "transport", "stdio"),
                        enabled,
                    },
                );
            },
            None => {},
        }
        i = i + 1;
    }
    assert(nodes.take(i as int) =~= nodes);
    defs
}

/// The servers in the configuration text. Without a configuration file there
/// are none.
pub fn list_mcp_servers(content: Option<&str>) -> (result: Result<Vec<McpServerDef>, ApiError>)
    ensures
        match content {
            None => result is Ok && result->Ok_0@.len() == 0,
            Some(text) => match parsed_entries(text@) {
                None => result == Err::<Vec<McpServerDef>, _>(ApiError::Internal),
                Some(root) => result is Ok && lists(
                    result->Ok_0@,
                    node_at(root, "mcp_servers"@),
                ),
            },
        },
{
    match content {
        None => Ok(Vec::new()),
        Some(text) => match parse_document(text) {
            Some(doc) => Ok(document_servers(&doc)),
            None => Err(ApiError::Internal),
        },
    }
}

fn pairs_item(pairs: &Vec<(String, String)>) -> (item: Item)
    ensures
        crate::toml_doc::item_node(item) == TomlNode::Inline(pair_entries(pairs@)),
{
    let mut table = InlineTable::new();
    let mut i: usize = 0;
    while i < pairs.len()
        invariant
            i <= pairs.len(),
            inline_entries(table) == pair_entries(pairs@.take(i as int)),
        decreases pairs.len() - i,
    {
        assert(pairs@.take(i + 1).drop_last() =~= pairs@.take(i as int));
        insert_text(&mut table, pairs[i].0.as_str(), pairs[i].1.as_str());
        i = i + 1;
    }
    assert(pairs@.take(i as int) =~= pairs@);
    inline_item(table)
}

fn set_pairs_if(table: &mut Table, key: &str, pairs: &Vec<(String, String)>)
    ensures
        table_entries(*final(table)) == with_pairs(table_entries(*old(table)), key@, pairs@),
{
    if pairs.len() > 0 {
        set_item(table, key, pairs_item(pairs));
    }
}

fn server_table(request: &CreateMcpServerRequest) -> (table: Table)
    ensures
        table_entries(table) == request.table(),
        holds_values(table_entries(table)),
{
    let mut table = Table::new();
    table.set_implicit(true);
    set_text(&mut table, "name", request.name.as_str());
    set_text(&mut table, "transport", request.transport.as_str());
    if !request.enabled {
        set_flag(&mut table, "enabled", false);
    }
    set_text_if(&mut table, "command", &request.command);
    set_texts_if(&mut table, "args", &request.args);
    set_text_if(&mut table, "url", &request.url);
    set_pairs_if(&mut table, "env", &request.env);
    set_pairs_if(&mut table, "headers", &request.headers);
    table
}

/// What appending a server to `mcp_servers` gives.
pub open spec fn with_server(servers: TomlNode, table: Entries) -> TomlNode {
    match servers {
        TomlNode::Sections(tables) => TomlNode::Sections(tables.push(TomlNode::Section(table))),
        TomlNode::List(nodes) => TomlNode::List(nodes.push(TomlNode::Inline(table))),
        _ => servers,
    }
}

fn append_server(servers: &mut Item, table: Table)
    requires
        holds_values(table_entries(table)),
    ensures
        item_node(*final(servers)) == with_server(item_node(*old(servers)), table_entries(table)),
        match item_layout(*old(servers)) {
            Layout::Sections(tables) => item_layout(*final(servers)) is Sections && one_more(
                tables,
                item_layout(*final(servers))->Sections_0,
            ),
            Layout::List(list) => item_layout(*final(servers)) is List && item_layout(
                *final(servers),
            )->List_0.frame == list.frame && one_more(
                list.values,
                item_layout(*final(servers))->List_0.values,
            ),
            other => item_layout(*final(servers)) == other,
        },
{
    if servers.as_array_of_tables().is_some() {
        match servers.as_array_of_tables_mut() {
            Some(tables) => {
                let ghost before = tables_layout(*tables);
                tables.push(table);
                assert(tables_layout(*tables).drop_last() =~= before);
            },
            None => {},
        }
    } else {
        match servers.as_array_mut() {
            Some(array) => push_inline(array, table.into_inline_table()),
            None => {},
        }
    }
}

/// The position of the server with a name in a document.
fn find_server(doc: &DocumentMut, name: &str) -> (found: Option<usize>)
    requires
        root_is_table(*doc),
    ensures
        match found {
            Some(i) => server_position(document_entries(*doc), name@) == Some(i as int),
            None => server_position(document_entries(*doc), name@) is None,
        },
{
    match doc.as_table().get("mcp_servers") {
        Some(item) => match item.as_array_of_tables() {
            Some(tables) => find_with_text(tables, "name", name),
            None => None,
        },
        None => None,
    }
}

/// Adds a server to a document. `None` where the name is taken.
pub fn add_server(doc: DocumentMut, request: &CreateMcpServerRequest) -> (changed: Option<DocumentMut>)
    requires
        root_is_table(doc),
    ensures
        match changed {
            Some(after) => {
                &&& request.added(document_entries(doc)) == Some(document_entries(after))
                &&& root_is_table(after)
                &&& request.keeps_added(document_layout(doc), document_layout(after))
                &&& document_trailing(after) == document_trailing(doc)
            },
            None => request.added(document_entries(doc)) is None,
        },
{
    let mut doc = doc;
    if find_server(&doc, request.name.as_str()).is_some() {
        return None;
    }
    let table = server_table(request);
    let root = doc.as_table_mut();
    let ghost before = table_entries(*root);
    if root.get("mcp_servers").is_none() {
        let mut tables = ArrayOfTables::new();
        tables.push(table);
        assert(tables_of(tables) =~= seq![TomlNode::Section(request.table())]);
        set_item(root, "mcp_servers", tables_item(tables));
    } else {
        match root.get_mut("mcp_servers") {
            Some(item) => {
                assert(before.insert("mcp_servers"@, item_node(*item)) =~= before);
                append_server(item, table);
            },
            None => {},
        }
    }
    Some(doc)
}

/// Changes the table of a server.
fn apply_change(table: &mut Table, request: &CreateMcpServerRequest)
    ensures
        table_entries(*final(table)) == request.changed(table_entries(*old(table))),
        edited(
            table_layout(*old(table)),
            table_layout(*final(table)),
            |key: Seq<char>| request.sets(key),
            |key: Seq<char>| request.clears(key),
        ),
{
    let ghost sets = |key: Seq<char>| request.sets(key);
    let ghost clears = |key: Seq<char>| request.clears(key);
    let ghost from = table_layout(*table);
    set_text(table, "transport", request.transport.as_str());
    let ghost moved = table_layout(*table);
    proof {
        lemma_kept_is_edited(from, moved, only("transport"@, true), sets, clears);
    }
    if request.enabled {
        let _flag = table.remove("enabled");
    } else {
        set_flag(table, "enabled", false);
    }
    let ghost switched = table_layout(*table);
    proof {
        if !request.enabled {
            lemma_kept_is_edited(moved, switched, only("enabled"@, true), sets, clears);
        }
        lemma_edited_further(from, moved, switched, sets, clears, sets, clears);
    }
    set_text_or_remove(table, "command", &request.command);
    let ghost commanded = table_layout(*table);
    proof {
        lemma_edited_further(
            from,
            switched,
            commanded,
            sets,
            clears,
            only("command"@, request.command is Some),
            only("command"@, request.command is None),
        );
    }
    set_texts_or_remove(table, "args", &request.args);
    let ghost given = table_layout(*table);
    proof {
        lemma_edited_further(
            from,
            commanded,
            given,
            sets,
            clears,
            only("args"@, request.args@.len() > 0),
            only("args"@, request.args@.len() == 0),
        );
    }
    set_text_or_remove(table, "url", &request.url);
    proof {
        lemma_edited_further(
            from,
            given,
            table_layout(*table),
            sets,
            clears,
            only("url"@, request.url is Some),
            only("url"@, request.url is None),
        );
    }
}

/// Changes the server of a name in a document. `None` where there is none.
pub fn change_server(doc: DocumentMut, request: &CreateMcpServerRequest) -> (changed: Option<
    DocumentMut,
>)
    requires
        root_is_table(doc),
    ensures
        match changed {
            Some(after) => {
                &&& request.updated(document_entries(doc)) == Some(document_entries(after))
                &&& root_is_table(after)
                &&& request.keeps_updated(
                    document_entries(doc),
                    document_layout(doc),
                    document_layout(after),
                )
                &&& document_trailing(after) == document_trailing(doc)
            },
            None => request.updated(document_entries(doc)) is None,
        },
{
    let mut doc = doc;
    let index: usize = match find_server(&doc, request.name.as_str()) {
        Some(index) => index,
        None => {
            return None;
        },
    };
    proof {
        lemma_first_with_text(
            document_entries(doc)["mcp_servers"@]->Sections_0,
            0,
            "name"@,
            request.name@,
        );
    }
    let root = doc.as_table_mut();
    match child_tables_mut(root, "mcp_servers") {
        Some(tables) => match tables.get_mut(index) {
            Some(table) => apply_change(table, request),
            None => {},
        },
        None => {},
    }
    Some(doc)
}

/// Removes the servers of a name from a document. `None` where there is none.
pub fn remove_server(doc: DocumentMut, name: &str) -> (changed: Option<DocumentMut>)
    requires
        root_is_table(doc),
    ensures
        match changed {
            Some(after) => {
                &&& without_server(document_entries(doc), name@) == Some(document_entries(after))
                &&& root_is_table(after)
                &&& keeps_without_server(
                    document_entries(doc),
                    name@,
                    document_layout(doc),
                    document_layout(after),
                )
                &&& document_trailing(after) == document_trailing(doc)
            },
            None => without_server(document_entries(doc), name@) is None,
        },
{
    let mut doc = doc;
    if find_server(&doc, name).is_none() {
        return None;
    }
    let root = doc.as_table_mut();
    match child_tables_mut(root, "mcp_servers") {
        Some(tables) => {
            remove_with_text(tables, "name", name);
        },
        None => {},
    }
    Some(doc)
}

/// `MCP server '<name>' <what>`.
pub open spec fn server_message(name: Seq<char>, what: Seq<char>) -> Seq<char> {
    "MCP server '"@ + name + "' "@ + what
}

fn message_for(name: &str, what: &str) -> (message: String)
    ensures
        message@ == server_message(name@, what@),
{
    "MCP server '".to_owned().concat(name).concat("' ").concat(what)
}

/// Whether an answer reports a change, with the new content, or that there was
/// none to make. `keeps` tells how the new content is written.
pub open spec fn answers(
    change: McpChange,
    before: TomlText,
    outcome: Option<Entries>,
    keeps: spec_fn(TableLayout, TableLayout) -> bool,
    done: Seq<char>,
    refused: Seq<char>,
) -> bool {
    match outcome {
        Some(changed) => {
            &&& change.content is Some
            &&& prints_edit(change.content->0@, before, changed, keeps)
            &&& change.success
            &&& change.message@ == done
        },
        None => {
            &&& change.content is None
            &&& !change.success
            &&& change.message@ == refused
        },
    }
}

fn answer(changed: Option<DocumentMut>, done: String, refused: String) -> (change: McpChange)
    requires
        changed is Some ==> root_is_table(changed->0),
    ensures
        match changed {
            Some(doc) => change.content is Some && change.content->0@ == printed(doc)
                && change.success && change.message == done,
            None => change.content is None && !change.success && change.message == refused,
        },
{
    match changed {
        Some(doc) => McpChange {
            content: Some(document_text(&doc)),
            success: true,
            message: done,
        },
        None => McpChange { content: None, success: false, message: refused },
    }
}

/// Adds a server to the configuration text.
pub fn create_mcp_server(content: &str, request: &CreateMcpServerRequest) -> (result: Result<
    McpChange,
    ApiError,
>)
    ensures
        if trimmed(request.name@).len() == 0 {
            result is Ok && result->Ok_0.content is None && !result->Ok_0.success
                && result->Ok_0.message@ == "Server name cannot be empty"@
        } else {
            match parsed_entries(content@) {
                None => result == Err::<McpChange, _>(ApiError::Internal),
                Some(root) => result is Ok && answers(
                    result->Ok_0,
                    parsed_toml(content@)->0,
                    request.added(root),
                    |from: TableLayout, to: TableLayout| request.keeps_added(from, to),
                    server_message(request.name@, "added"@),
                    server_message(request.name@, "already exists"@),
                ),
            }
        },
{
    if trim(request.name.as_str()).is_empty() {
        return Ok(
            McpChange {
                content: None,
                success: false,
                message: "Server name cannot be empty".to_owned(),
            },
        );
    }
    match parse_document(content) {
        Some(doc) => Ok(
            answer(
                add_server(doc, request),
                message_for(request.name.as_str(), "added"),
                message_for(request.name.as_str(), "already exists"),
            ),
        ),
        None => Err(ApiError::Internal),
    }
}

fn no_config_file() -> (change: McpChange)
    ensures
        change.content is None,
        !change.success,
        change.message@ == "No config file found"@,
{
    McpChange { content: None, success: false, message: "No config file found".to_owned() }
}

/// Changes a server in the configuration text, where there is a configuration
/// file.
pub fn update_mcp_server(content: Option<&str>, request: &CreateMcpServerRequest) -> (result: Result<
    McpChange,
    ApiError,
>)
    ensures
        match content {
            None => result is Ok && result->Ok_0.content is None && !result->Ok_0.success
                && result->Ok_0.message@ == "No config file found"@,
            Some(text) => match parsed_entries(text@) {
                None => result == Err::<McpChange, _>(ApiError::Internal),
                Some(root) => result is Ok && answers(
                    result->Ok_0,
                    parsed_toml(text@)->0,
                    request.updated(root),
                    |from: TableLayout, to: TableLayout| request.keeps_updated(root, from, to),
                    server_message(request.name@, "updated"@),
                    server_message(request.name@, "not found"@),
                ),
            },
        },
{
    match content {
        None => Ok(no_config_file()),
        Some(text) => match parse_document(text) {
            Some(doc) => Ok(
                answer(
                    change_server(doc, request),
                    message_for(request.name.as_str(), "updated"),
                    message_for(request.name.as_str(), "not found"),
                ),
            ),
            None => Err(ApiError::Internal),
        },
    }
}

/// Removes a server from the configuration text, where there is a configuration
/// file.
pub fn delete_mcp_server(content: Option<&str>, name: &str) -> (result: Result<McpChange, ApiError>)
    ensures
        match content {
            None => result is Ok && result->Ok_0.content is None && !result->Ok_0.success
                && result->Ok_0.message@ == "No config file found"@,
            Some(text) => match parsed_entries(text@) {
                None => result == Err::<McpChange, _>(ApiError::Internal),
                Some(root) => result is Ok && answers(
                    result->Ok_0,
                    parsed_toml(text@)->0,
                    without_server(root, name@),
                    |from: TableLayout, to: TableLayout|
                        keeps_without_server(root, name@, from, to),
                    server_message(name@, "removed"@),
                    server_message(name@, "not found"@),
                ),
            },
        },
{
    match content {
        None => Ok(no_config_file()),
        Some(text) => match parse_document(text) {
            Some(doc) => Ok(
                answer(
                    remove_server(doc, name),
                    message_for(name, "removed"),
                    message_for(name, "not found"),
                ),
            ),
            None => Err(ApiError::Internal),
        },
    }
}

/// A connection state in words.
pub open spec fn state_words(state: McpConnectionState) -> Seq<char> {
    match state {
        McpConnectionState::Connected => "connected"@,
        McpConnectionState::Connecting => "connecting"@,
        McpConnectionState::Disconnected => "disconnected"@,
        McpConnectionState::Failed(error) => "failed: "@ + error@,
    }
}

/// A connection state in words.
pub fn connection_state_text(state: &McpConnectionState) -> (text: String)
    ensures
        text@ == state_words(*state),
{
    match state {
        McpConnectionState::Connected => "connected".to_owned(),
        McpConnectionState::Connecting => "connecting".to_owned(),
        McpConnectionState::Disconnected => "disconnected".to_owned(),
        McpConnectionState::Failed(error) => "failed: ".to_owned().concat(error.as_str()),
    }
}

/// The state of the first server of a name, in words.
pub open spec fn server_state(statuses: Seq<McpServerStatus>, name: Seq<char>) -> Seq<char>
    decreases statuses.len(),
{
    if statuses.len() == 0 {
        "not_connected"@
    } else if statuses[0].name@ == name {
        state_words(statuses[0].state)
    } else {
        server_state(statuses.drop_first(), name)
    }
}

/// The state of a server among the statuses of all agents.
pub fn get_server_state(statuses: &Vec<McpServerStatus>, server_name: &str) -> (text: String)
    ensures
        text@ == server_state(statuses@, server_name@),
{
    let mut i: usize = 0;
    assert(statuses@.skip(0) =~= statuses@);
    while i < statuses.len()
        invariant
            i <= statuses.len(),
            server_state(statuses@, server_name@) == server_state(
                statuses@.skip(i as int),
                server_name@,
            ),
        decreases statuses.len() - i,
    {
        if text_eq(statuses[i].name.as_str(), server_name) {
            return connection_state_text(&statuses[i].state);
        }
        assert(statuses@.skip(i as int).drop_first() =~= statuses@.skip(i + 1));
        i = i + 1;
    }
    "not_connected".to_owned()
}

/// Whether an entry of the list shows a status.
pub open spec fn shows(info: McpServerInfo, status: McpServerStatus) -> bool {
    &&& info.name@ == status.name@
    &&& info.transport@ == status.transport@
    &&& info.enabled == status.enabled
    &&& info.state@ == state_words(status.state)
}

/// The servers of one agent, with their states in words.
pub fn agent_status(agent_id: &str, statuses: &Vec<McpServerStatus>) -> (status: McpAgentStatus)
    ensures
        status.agent_id@ == agent_id@,
        status.servers@.len() == statuses@.len(),
        forall|i: int|
            0 <= i < statuses@.len() ==> shows(#[trigger] status.servers@[i], statuses@[i]),
{
    let mut servers: Vec<McpServerInfo> = Vec::new();
    let mut i: usize = 0;
    while i < statuses.len()
        invariant
            i <= statuses.len(),
            servers@.len() == i,
            forall|k: int| 0 <= k < i ==> shows(#[trigger] servers@[k], statuses@[k]),
        decreases statuses.len() - i,
    {
        servers.push(
            McpServerInfo {
                name: statuses[i].name.clone(),
                transport: statuses[i].transport.clone(),
                enabled: statuses[i].enabled,
                state: connection_state_text(&statuses[i].state),
            },
        );
        i = i + 1;
    }
    McpAgentStatus { agent_id: agent_id.to_owned(), servers }
}

/// The answer to a reconnection: whether any agent's manager knew the server.
pub fn reconnect_response(server_name: &str, reconnected: bool) -> (change: McpChange)
    ensures
        change.content is None,
        change.success == reconnected,
        change.message@ == "Server '"@ + server_name@ + (if reconnected {
            "' reconnected"@
        } else {
            "' not found in any agent"@
        }),
{
    let ending = if reconnected {
        "' reconnected"
    } else {
        "' not found in any agent"
    };
    McpChange {
        content: None,
        success: reconnected,
        message: "Server '".to_owned().concat(server_name).concat(ending),
    }
}

proof fn lemma_server_keys()
    ensures
        "name"@ != "transport"@ && "name"@ != "enabled"@ && "name"@ != "command"@ && "name"@
            != "args"@ && "name"@ != "url"@ && "name"@ != "env"@ && "name"@ != "headers"@,
        "transport"@ != "enabled"@ && "transport"@ != "command"@ && "transport"@ != "args"@
            && "transport"@ != "url"@,
{
    reveal_strlit("name");
    reveal_strlit("transport");
    reveal_strlit("enabled");
    reveal_strlit("command");
    reveal_strlit("args");
    reveal_strlit("url");
    reveal_strlit("env");
    reveal_strlit("headers");
    assert("name"@.len() == 4 && "transport"@.len() == 9 && "enabled"@.len() == 7);
    assert("command"@.len() == 7 && "args"@.len() == 4 && "url"@.len() == 3 && "env"@.len() == 3);
    assert("headers"@.len() == 7);
    assert("name"@[0] != "args"@[0]);
}

/// A server that was added to an array of tables, or that starts one, is found by
/// its name, and adding it again is refused.
pub proof fn law_added_server_is_found(request: CreateMcpServerRequest, root: Entries)
    requires
        request.added(root) is Some,
        node_at(root, "mcp_servers"@) is Absent || node_at(root, "mcp_servers"@) is Sections,
    ensures
        server_position(request.added(root)->0, request.name@) is Some,
        request.added(request.added(root)->0) is None,
{
    lemma_server_keys();
    let after = request.added(root)->0["mcp_servers"@]->Sections_0;
    assert(text_at(request.table(), "name"@) == Some(request.name@));
    assert(after.last() == TomlNode::Section(request.table()));
    lemma_first_with_text(after, 0, "name"@, request.name@);
    assert(section_text(after[after.len() - 1], "name"@) == Some(request.name@));
}

/// A server that was added to an array of values stands in it, behind the others,
/// under its name.
pub proof fn law_added_server_is_listed(request: CreateMcpServerRequest, root: Entries)
    requires
        node_at(root, "mcp_servers"@) is List,
    ensures
        request.added(root) is Some,
        ({
            let before = root["mcp_servers"@]->List_0;
            let after = node_at(request.added(root)->0, "mcp_servers"@);
            &&& after is List
            &&& after->List_0.len() == before.len() + 1
            &&& after->List_0.drop_last() == before
            &&& inline_text(after->List_0.last(), "name"@) == Some(request.name@)
        }),
{
    lemma_server_keys();
    let before = root["mcp_servers"@]->List_0;
    assert(text_at(request.table(), "name"@) == Some(request.name@));
    assert(before.push(TomlNode::Inline(request.table())).drop_last() =~= before);
}

/// A changed server keeps its name, so that it is still found.
pub proof fn law_updated_server_is_found(request: CreateMcpServerRequest, root: Entries)
    requires
        request.updated(root) is Some,
    ensures
        server_position(request.updated(root)->0, request.name@) is Some,
{
    lemma_server_keys();
    let before = root["mcp_servers"@]->Sections_0;
    lemma_first_with_text(before, 0, "name"@, request.name@);
    let i = server_position(root, request.name@)->0;
    let after = request.updated(root)->0["mcp_servers"@]->Sections_0;
    assert(section_text(after[i], "name"@) == Some(request.name@));
    lemma_first_with_text(after, 0, "name"@, request.name@);
}

/// A removed server is found no more.
pub proof fn law_removed_server_is_gone(root: Entries, name: Seq<char>)
    requires
        without_server(root, name) is Some,
    ensures
        server_position(without_server(root, name)->0, name) is None,
{
    let before = root["mcp_servers"@]->Sections_0;
    let keep = |table: TomlNode| section_text(table, "name"@) != Some(name);
    broadcast use vstd::seq_lib::group_filter_ensures;
    let after = without_server(root, name)->0["mcp_servers"@]->Sections_0;
    assert(after == before.filter(keep));
    lemma_first_with_text(after, 0, "name"@, name);
    match first_with_text(after, 0, "name"@, name) {
        Some(i) => {
            assert(keep(before.filter(keep)[i]));
        },
        None => {},
    }
}

proof fn lemma_all_server_keys_differ()
    ensures
        "name"@ != "transport"@,
        "name"@ != "enabled"@,
        "name"@ != "command"@,
        "name"@ != "args"@,
        "name"@ != "url"@,
        "name"@ != "env"@,
        "name"@ != "headers"@,
        "transport"@ != "enabled"@,
        "transport"@ != "command"@,
        "transport"@ != "args"@,
        "transport"@ != "url"@,
        "transport"@ != "env"@,
        "transport"@ != "headers"@,
        "enabled"@ != "command"@,
        "enabled"@ != "args"@,
        "enabled"@ != "url"@,
        "enabled"@ != "env"@,
        "enabled"@ != "headers"@,
        "command"@ != "args"@,
        "command"@ != "url"@,
        "command"@ != "env"@,
        "command"@ != "headers"@,
        "args"@ != "url"@,
        "args"@ != "env"@,
        "args"@ != "headers"@,
        "url"@ != "env"@,
        "url"@ != "headers"@,
        "env"@ != "headers"@,
{
    reveal_strlit("name");
    reveal_strlit("transport");
    reveal_strlit("enabled");
    reveal_strlit("command");
    reveal_strlit("args");
    reveal_strlit("url");
    reveal_strlit("env");
    reveal_strlit("headers");
    assert("name"@.len() == 4);
    assert("transport"@.len() == 9);
    assert("enabled"@.len() == 7);
    assert("command"@.len() == 7);
    assert("args"@.len() == 4);
    assert("url"@.len() == 3);
    assert("env"@.len() == 3);
    assert("headers"@.len() == 7);
    assert("name"@[0] != "args"@[0]);
    assert("enabled"@[0] != "command"@[0]);
    assert("enabled"@[0] != "headers"@[0]);
    assert("command"@[0] != "headers"@[0]);
    assert("url"@[0] != "env"@[0]);
}

/// Whether a node is an inline table of just these pairs, of two with one name the
/// later.
pub open spec fn holds_pairs(node: TomlNode, pairs: Seq<(String, String)>) -> bool {
    node matches TomlNode::Inline(entries) && (forall|i: int|
        0 <= i < pairs.len() && (forall|later: int|
            i < later < pairs.len() ==> (#[trigger] pairs[later]).0@ != pairs[i].0@) ==> node_at(
            entries,
            (#[trigger] pairs[i]).0@,
        ) == TomlNode::Text(pairs[i].1@)) && (forall|name: Seq<char>| #[trigger]
        entries.contains_key(name) ==> exists|i: int|
            0 <= i < pairs.len() && (#[trigger] pairs[i]).0@ == name)
}

proof fn lemma_pair_entries(pairs: Seq<(String, String)>)
    ensures
        holds_pairs(TomlNode::Inline(pair_entries(pairs)), pairs),
    decreases pairs.len(),
{
    let entries = pair_entries(pairs);
    if pairs.len() > 0 {
        let shorter = pairs.drop_last();
        let before = pair_entries(shorter);
        lemma_pair_entries(shorter);
        assert forall|i: int|
            0 <= i < pairs.len() && (forall|later: int|
                i < later < pairs.len()
                    ==> (#[trigger] pairs[later]).0@ != pairs[i].0@) implies node_at(
            entries,
            (#[trigger] pairs[i]).0@,
        ) == TomlNode::Text(pairs[i].1@) by {
            if i < shorter.len() {
                assert(pairs[pairs.len() - 1].0@ != pairs[i].0@);
                assert(shorter[i] == pairs[i]);
                assert forall|later: int| i < later < shorter.len() implies (
                #[trigger] shorter[later]).0@ != shorter[i].0@ by {
                    assert(pairs[later].0@ != pairs[i].0@);
                }
                assert(node_at(before, shorter[i].0@) == TomlNode::Text(shorter[i].1@));
            }
        }
        assert forall|name: Seq<char>| #[trigger] entries.contains_key(name) implies exists|i: int|
            0 <= i < pairs.len() && (#[trigger] pairs[i]).0@ == name by {
            if before.contains_key(name) {
                let i = choose|i: int| 0 <= i < shorter.len() && (#[trigger] shorter[i]).0@ == name;
                assert(pairs[i].0@ == name);
            } else {
                assert(pairs[pairs.len() - 1].0@ == name);
            }
        }
    }
}

/// The table of a new server has every value of the request under its name, no key
/// for what is not given, and nothing else. That it is on goes without saying.
pub proof fn law_new_server_is_read_back(request: CreateMcpServerRequest, key: Seq<char>)
    ensures
        node_at(request.table(), "name"@) == TomlNode::Text(request.name@),
        node_at(request.table(), "transport"@) == TomlNode::Text(request.transport@),
        request.enabled ==> !request.table().contains_key("enabled"@),
        !request.enabled ==> node_at(request.table(), "enabled"@) == TomlNode::Flag(false),
        request.command matches Some(text)
            ==> node_at(request.table(), "command"@) == TomlNode::Text(text@),
        request.command is None ==> !request.table().contains_key("command"@),
        request.url matches Some(text)
            ==> node_at(request.table(), "url"@) == TomlNode::Text(text@),
        request.url is None ==> !request.table().contains_key("url"@),
        request.args@.len() > 0 ==> lists_texts(node_at(request.table(), "args"@), request.args@),
        request.args@.len() == 0 ==> !request.table().contains_key("args"@),
        request.env@.len() > 0 ==> holds_pairs(node_at(request.table(), "env"@), request.env@),
        request.env@.len() == 0 ==> !request.table().contains_key("env"@),
        request.headers@.len() > 0
            ==> holds_pairs(node_at(request.table(), "headers"@), request.headers@),
        request.headers@.len() == 0 ==> !request.table().contains_key("headers"@),
        key != "name"@ && key != "transport"@ && key != "enabled"@ && key != "command"@
            && key != "args"@ && key != "url"@ && key != "env"@ && key != "headers"@
            ==> !request.table().contains_key(key),
{
    lemma_all_server_keys_differ();
    lemma_pair_entries(request.env@);
    lemma_pair_entries(request.headers@);
}

/// A changed server has the transport, the command, the arguments and the address
/// of the request, loses those that are not given, and keeps all else.
pub proof fn law_changed_server_is_read_back(
    request: CreateMcpServerRequest,
    table: Entries,
    key: Seq<char>,
)
    ensures
        node_at(request.changed(table), "transport"@) == TomlNode::Text(request.transport@),
        request.enabled ==> !request.changed(table).contains_key("enabled"@),
        !request.enabled ==> node_at(request.changed(table), "enabled"@) == TomlNode::Flag(false),
        request.command matches Some(text)
            ==> node_at(request.changed(table), "command"@) == TomlNode::Text(text@),
        request.command is None ==> !request.changed(table).contains_key("command"@),
        request.url matches Some(text)
            ==> node_at(request.changed(table), "url"@) == TomlNode::Text(text@),
        request.url is None ==> !request.changed(table).contains_key("url"@),
        request.args@.len() > 0
            ==> lists_texts(node_at(request.changed(table), "args"@), request.args@),
        request.args@.len() == 0 ==> !request.changed(table).contains_key("args"@),
        key != "transport"@ && key != "enabled"@ && key != "command"@ && key != "args"@
            && key != "url"@ ==> node_at(request.changed(table), key) == node_at(table, key),
{
    lemma_all_server_keys_differ();
}

/// A server is shown as it was added: with its name and its transport, and on or
/// off.
pub proof fn law_added_server_is_shown(request: CreateMcpServerRequest, def: McpServerDef)
    requires
        describes(def, request.table()),
    ensures
        def.name@ == request.name@,
        def.transport@ == request.transport@,
        def.enabled == request.enabled,
{
    lemma_all_server_keys_differ();
}

/// A table that does not say so is a server without a name, over standard input and
/// output, that is on.
pub proof fn law_silent_table_is_shown(table: Entries, def: McpServerDef)
    requires
        describes(def, table),
    ensures
        !table.contains_key("name"@) ==> def.name@.len() == 0,
        !table.contains_key("transport"@) ==> def.transport@ == "stdio"@,
        !table.contains_key("enabled"@) ==> def.enabled,
        node_at(table, "enabled"@) matches TomlNode::Flag(flag) ==> def.enabled == flag,
        node_at(table, "name"@) matches TomlNode::Text(text) ==> def.name@ == text,
        node_at(table, "transport"@) matches TomlNode::Text(text) ==> def.transport@ == text,
{
    reveal_strlit("");
}

/// Every server of the configuration is listed, in order.
pub proof fn law_every_server_is_listed(
    defs: Seq<McpServerDef>,
    tables: Seq<TomlNode>,
    at: int,
)
    requires
        lists(defs, TomlNode::Sections(tables)),
        forall|i: int| 0 <= i < tables.len() ==> #[trigger] tables[i] is Section,
        0 <= at < tables.len(),
    ensures
        defs.len() == tables.len(),
        describes(defs[at], tables[at]->Section_0),
{
    lemma_all_sections(tables);
    assert(describes(defs[at], section_entries(only_sections(tables)[at])));
}

proof fn lemma_all_sections(nodes: Seq<TomlNode>)
    requires
        forall|i: int| 0 <= i < nodes.len() ==> #[trigger] nodes[i] is Section,
    ensures
        only_sections(nodes) == nodes,
    decreases nodes.len(),
{
    reveal(Seq::filter);
    if nodes.len() > 0 {
        let shorter = nodes.drop_last();
        assert forall|i: int| 0 <= i < shorter.len() implies #[trigger] shorter[i] is Section by {
            assert(nodes[i] is Section);
        }
        lemma_all_sections(shorter);
        assert(nodes[nodes.len() - 1] is Section);
        assert(shorter.push(nodes.last()) =~= nodes);
    }
}

/// An update changes the first server with the name of the request, and no other.
pub proof fn law_update_finds_its_server(
    request: CreateMcpServerRequest,
    root: Entries,
    tables: Seq<TomlNode>,
    at: int,
    table: Entries,
)
    requires
        root.contains_key("mcp_servers"@),
        root["mcp_servers"@] == TomlNode::Sections(tables),
        0 <= at < tables.len(),
        tables[at] == TomlNode::Section(table),
        node_at(table, "name"@) == TomlNode::Text(request.name@),
        forall|i: int|
            0 <= i < at ==> ((#[trigger] tables[i]) matches TomlNode::Section(other) ==> node_at(
                other,
                "name"@,
            ) != TomlNode::Text(request.name@)),
    ensures
        request.updated(root) == Some(
            root.insert(
                "mcp_servers"@,
                TomlNode::Sections(tables.update(at, TomlNode::Section(request.changed(table)))),
            ),
        ),
        request.added(root) is None,
{
    law_first_table_is_found(tables, 0, at, "name"@, request.name@);
    assert(node_at(root, "mcp_servers"@) == TomlNode::Sections(tables));
    assert(server_position(root, request.name@) == Some(at));
    assert(section_entries(tables[at]) == table);
}

/// A server whose name no other has comes behind those that are there, which stay
/// as they are; it can be neither changed nor removed before.
pub proof fn law_new_server_comes_last(
    request: CreateMcpServerRequest,
    root: Entries,
    tables: Seq<TomlNode>,
)
    requires
        root.contains_key("mcp_servers"@),
        root["mcp_servers"@] == TomlNode::Sections(tables),
        forall|i: int|
            0 <= i < tables.len() ==> ((#[trigger] tables[i]) matches TomlNode::Section(other)
                ==> node_at(other, "name"@) != TomlNode::Text(request.name@)),
    ensures
        request.added(root) == Some(
            root.insert(
                "mcp_servers"@,
                TomlNode::Sections(tables.push(TomlNode::Section(request.table()))),
            ),
        ),
        request.updated(root) is None,
        without_server(root, request.name@) is None,
{
    lemma_first_with_text(tables, 0, "name"@, request.name@);
    if first_with_text(tables, 0, "name"@, request.name@) is Some {
        let i = first_with_text(tables, 0, "name"@, request.name@)->0;
        assert(tables[i] is Section);
    }
}

/// Removing a server takes out all tables with its name, and keeps every other
/// table and all else.
pub proof fn law_remove_keeps_other_servers(
    root: Entries,
    name: Seq<char>,
    tables: Seq<TomlNode>,
    table: TomlNode,
    key: Seq<char>,
)
    requires
        without_server(root, name) is Some,
        root.contains_key("mcp_servers"@),
        root["mcp_servers"@] == TomlNode::Sections(tables),
    ensures
        node_at(without_server(root, name)->0, "mcp_servers"@) matches TomlNode::Sections(left) && (
        left.contains(table) <==> tables.contains(table)
            && !(table matches TomlNode::Section(entries)
            && node_at(entries, "name"@) == TomlNode::Text(name))),
        key != "mcp_servers"@ ==> node_at(without_server(root, name)->0, key) == node_at(root, key),
{
    let keep = |node: TomlNode| section_text(node, "name"@) != Some(name);
    let left = tables.filter(keep);
    assert(without_text(tables, "name"@, name) == left);
    if left.contains(table) {
        tables.lemma_filter_contains_rev(keep, table);
        let i = choose|i: int| 0 <= i < left.len() && left[i] == table;
        tables.lemma_filter_pred(keep, i);
        assert(keep(table));
    }
    if tables.contains(table) && !(table matches TomlNode::Section(entries) && node_at(
        entries,
        "name"@,
    ) == TomlNode::Text(name)) {
        let i = choose|i: int| 0 <= i < tables.len() && tables[i] == table;
        assert(keep(tables[i]));
        tables.lemma_filter_contains(keep, i);
    }
}

/// The state of a server is that of the first connection with its name, in words,
/// however far down it stands.
pub proof fn law_server_state_is_found(statuses: Seq<McpServerStatus>, name: Seq<char>, at: int)
    requires
        0 <= at <= statuses.len(),
        forall|i: int| 0 <= i < at ==> (#[trigger] statuses[i]).name@ != name,
        at < statuses.len() ==> statuses[at].name@ == name,
    ensures
        server_state(statuses, name) == if at < statuses.len() {
            match statuses[at].state {
                McpConnectionState::Connected => "connected"@,
                McpConnectionState::Connecting => "connecting"@,
                McpConnectionState::Disconnected => "disconnected"@,
                McpConnectionState::Failed(error) => "failed: "@ + error@,
            }
        } else {
            "not_connected"@
        },
    decreases at,
{
    if at > 0 {
        assert(statuses[0].name@ != name);
        let rest = statuses.drop_first();
        assert forall|i: int| 0 <= i < at - 1 implies (#[trigger] rest[i]).name@ != name by {
            assert(statuses[i + 1].name@ != name);
        }
        law_server_state_is_found(rest, name, at - 1);
    }
}

/// What a change of the servers answers: the new content where there is a change to
/// make, and else that there is none.
pub proof fn law_change_is_answered(
    change: McpChange,
    before: TomlText,
    outcome: Option<Entries>,
    keeps: spec_fn(TableLayout, TableLayout) -> bool,
    done: Seq<char>,
    refused: Seq<char>,
)
    requires
        answers(change, before, outcome, keeps, done, refused),
    ensures
        outcome matches Some(changed) ==> change.success && change.message@ == done && (
        change.content matches Some(text) && exists|doc: DocumentMut| #[trigger]
            printed(doc) == text@ && document_entries(doc) == changed),
        outcome is None ==> !change.success && change.content is None && change.message@ == refused,
{
}

/// What is said of a server names it.
pub proof fn law_server_is_named(name: Seq<char>)
    ensures
        server_message(name, "added"@) == "MCP server '"@ + name + "' added"@,
        server_message(name, "removed"@) == "MCP server '"@ + name + "' removed"@,
        server_message(name, "not found"@) == "MCP server '"@ + name + "' not found"@,
{
    reveal_strlit("' ");
    reveal_strlit("added");
    reveal_strlit("removed");
    reveal_strlit("not found");
    reveal_strlit("' added");
    reveal_strlit("' removed");
    reveal_strlit("' not found");
    let start = "MCP server '"@ + name;
    assert(start + "' "@ + "added"@ =~= start + "' added"@);
    assert(start + "' "@ + "removed"@ =~= start + "' removed"@);
    assert(start + "' "@ + "not found"@ =~= start + "' not found"@);
}

/// The servers of an agent are listed as they are, in order, each with its state in
/// words.
pub proof fn law_every_status_is_listed(
    agent_id: &str,
    statuses: &Vec<McpServerStatus>,
    status: McpAgentStatus,
    at: int,
)
    requires
        call_ensures(agent_status, (agent_id, statuses), status),
        0 <= at < statuses@.len(),
    ensures
        status.agent_id@ == agent_id@,
        status.servers@.len() == statuses@.len(),
        status.servers@[at].name@ == statuses@[at].name@,
        status.servers@[at].transport@ == statuses@[at].transport@,
        status.servers@[at].enabled == statuses@[at].enabled,
        status.servers@[at].state@ == match statuses@[at].state {
            McpConnectionState::Connected => "connected"@,
            McpConnectionState::Connecting => "connecting"@,
            McpConnectionState::Disconnected => "disconnected"@,
            McpConnectionState::Failed(error) => "failed: "@ + error@,
        },
{
    assert(shows(status.servers@[at], statuses@[at]));
}

} // verus!
