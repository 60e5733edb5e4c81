//! The documents kept on disk (tool preferences and MCP servers): how they are
//! written and how a stored text is read back. Reading and writing the files
//! themselves is the caller's part.
use vstd::prelude::*;

use crate::chat::mcp::{generate_id, headers_of, is_uuid_text, lemma_headers_of_distinct_pairs, names_distinct, Headers, McpServerConfig, McpTransport};
use crate::chat::mcp_client::texts;
use crate::chat::tools::{flags_map, ToolPreferences};
use crate::json::{
    depth_bound, keys_distinct, plain_json, items_model, json_text_pretty, json_parse, lemma_items_model, lemma_members_model, member,
    members_model, spec_json_parse, spec_json_text_pretty, Json, JsonValue,
};
use crate::text::owned;

verus! {

/// The directory, under the user's data directory, that holds the documents.
pub const STORAGE_DIR: &'static str = "cast_client";

/// The file of the saved conversations.
pub const CONVERSATIONS_FILE: &'static str = "conversations.json";

/// The file of the tool preferences.
pub const TOOL_PREFERENCES_FILE: &'static str = "tool_preferences.json";

/// The file of the configured MCP servers.
pub const MCP_SERVERS_FILE: &'static str = "mcp_servers.json";

// ---------------------------------------------------------------------------
// Tool preferences: an object mapping tool names to booleans.
// ---------------------------------------------------------------------------

/// The preferences held by the members of a stored object, if every member is a
/// boolean (a later member for the same name wins).
pub open spec fn bool_members(ms: Seq<(Seq<char>, Json)>) -> Option<Map<Seq<char>, bool>>
    decreases ms.len(),
{
    if ms.len() == 0 {
        Some(Map::empty())
    } else {
        match (bool_members(ms.drop_last()), ms.last().1) {
            (Some(m), Json::Bool(b)) => Some(m.insert(ms.last().0, b)),
            _ => None,
        }
    }
}

/// The preferences a stored document holds: `None` unless it is an object of
/// booleans.
pub open spec fn stored_preferences(doc: Json) -> Option<Map<Seq<char>, bool>> {
    match doc {
        Json::Object(ms) => bool_members(ms),
        _ => None,
    }
}

/// The preferences loaded from a stored text: those of the document, or none
/// where the text is not JSON or not an object of booleans.
pub open spec fn preferences_from_text(text: Seq<char>) -> Map<Seq<char>, bool> {
    match spec_json_parse(text) {
        Some(doc) => match stored_preferences(doc) {
            Some(m) => m,
            None => Map::empty(),
        },
        None => Map::empty(),
    }
}

/// The document that stores a list of (name, flag) pairs.
pub open spec fn preferences_document(listed: Seq<(Seq<char>, bool)>) -> Json {
    Json::Object(listed.map_values(|e: (Seq<char>, bool)| (e.0, Json::Bool(e.1))))
}

/// Reads the preferences out of a stored document.
pub fn preferences_from_json(doc: &JsonValue) -> (r: Option<ToolPreferences>)
    ensures
        r matches Some(p) ==> stored_preferences(doc@) == Some(p@) && p.wf(),
        r is None ==> stored_preferences(doc@) is None,
{
    match doc {
        JsonValue::Object(members) => {
            let ghost ms = members_model(members@);
            proof {
                lemma_members_model(members@);
            }
            assert(doc@ == Json::Object(ms));
            let mut prefs = ToolPreferences::new();
            let mut i: usize = 0;
            while i < members.len()
                invariant
                    i <= members.len(),
                    doc@ == Json::Object(ms),
                    ms == members_model(members@),
                    ms.len() == members@.len(),
                    forall|j: int|
                        0 <= j < members@.len() ==> #[trigger] ms[j] == (members@[j].0@, members@[j].1@),
                    bool_members(ms.subrange(0, i as int)) == Some(prefs@),
                    prefs.wf(),
                decreases members.len() - i,
            {
                let ghost sub = ms.subrange(0, i + 1);
                assert(sub.drop_last() =~= ms.subrange(0, i as int));
                assert(sub.last() == ms[i as int]);
                match &members[i].1 {
                    JsonValue::Bool(b) => {
                        prefs.insert(members[i].0.clone(), *b);
                    },
                    _ => {
                        assert(bool_members(sub) is None);
                        proof {
                            lemma_bool_members_prefix(ms, i + 1);
                        }
                        assert(bool_members(ms) is None);
                        assert(stored_preferences(doc@) is None);
                        return None;
                    },
                }
                i = i + 1;
            }
            assert(ms.subrange(0, ms.len() as int) =~= ms);
            Some(prefs)
        },
        _ => None,
    }
}

/// A document with a member that is not a boolean stays refused whatever follows.
proof fn lemma_bool_members_prefix(ms: Seq<(Seq<char>, Json)>, n: int)
    requires
        0 <= n <= ms.len(),
        bool_members(ms.subrange(0, n)) is None,
    ensures
        bool_members(ms) is None,
    decreases ms.len() - n,
{
    if n < ms.len() {
        assert(ms.subrange(0, n + 1).drop_last() =~= ms.subrange(0, n));
        lemma_bool_members_prefix(ms, n + 1);
    } else {
        assert(ms.subrange(0, n) =~= ms);
    }
}

/// Loads the tool preferences from the stored text, if there is one; a missing,
/// unreadable or malformed document gives no preferences.
pub fn load_tool_preferences(stored: Option<&str>) -> (r: ToolPreferences)
    ensures
        r.wf(),
        match stored {
            Some(text) => r@ == preferences_from_text(text@),
            None => r@ == Map::<Seq<char>, bool>::empty(),
        },
{
    match stored {
        None => ToolPreferences::new(),
        Some(text) => match json_parse(text) {
            Ok(doc) => match preferences_from_json(&doc) {
                Some(p) => p,
                None => ToolPreferences::new(),
            },
            Err(_) => ToolPreferences::new(),
        },
    }
}

/// The document that stores the preferences.
pub fn preferences_to_json(preferences: &ToolPreferences) -> (r: JsonValue)
    ensures
        r@ == preferences_document(preferences.listed()),
{
    let entries = preferences.entries();
    let ghost h = |e: (String, bool)| (e.0@, Json::Bool(e.1));
    let mut out: Vec<(String, JsonValue)> = Vec::new();
    let mut i: usize = 0;
    while i < entries.len()
        invariant
            i <= entries.len(),
            h == (|e: (String, bool)| (e.0@, Json::Bool(e.1))),
            members_model(out@) == entries@.subrange(0, i as int).map_values(h),
        decreases entries.len() - i,
    {
        let ghost before = out@;
        let flag = JsonValue::Bool(entries[i].1);
        assert(flag@ == Json::Bool(entries@[i as int].1));
        out.push((entries[i].0.clone(), flag));
        assert(out@.drop_last() =~= before);
        assert(members_model(out@) == members_model(before).push((entries@[i as int].0@, Json::Bool(entries@[i as int].1))));
        assert(entries@.subrange(0, i + 1).map_values(h) =~= entries@.subrange(0, i as int).map_values(h).push(
            h(entries@[i as int]),
        ));
        i = i + 1;
    }
    assert(entries@.subrange(0, entries@.len() as int) =~= entries@);
    assert(entries@.map_values(h) =~= preferences.listed().map_values(
        |e: (Seq<char>, bool)| (e.0, Json::Bool(e.1)),
    ));
    JsonValue::Object(out)
}

/// The text saved for the preferences: their document, indented.
pub fn save_tool_preferences(preferences: &ToolPreferences) -> (r: String)
    ensures
        r@ == spec_json_text_pretty(preferences_document(preferences.listed())),
        preferences.wf() ==> preferences_from_text(r@) == preferences@,
{
    let doc = preferences_to_json(preferences);
    proof {
        if preferences.wf() {
            lemma_preferences_document_plain(preferences);
            law_preferences_round_trip(preferences);
        }
    }
    json_text_pretty(&doc)
}

/// The document of well-formed preferences is one `serde_json` reads back.
proof fn lemma_preferences_document_plain(preferences: &ToolPreferences)
    requires
        preferences.wf(),
    ensures
        plain_json(preferences_document(preferences.listed()), depth_bound()),
{
    preferences.lemma_listed_distinct();
    let listed = preferences.listed();
    let ms = listed.map_values(|e: (Seq<char>, bool)| (e.0, Json::Bool(e.1)));
    assert forall|i: int, j: int| 0 <= i < j < ms.len() implies #[trigger] ms[i].0 != #[trigger] ms[j].0 by {
        assert(ms[i].0 == listed[i].0);
        assert(ms[j].0 == listed[j].0);
    }
    assert forall|i: int| 0 <= i < ms.len() implies plain_json(#[trigger] ms[i].1, (depth_bound() - 1) as nat) by {
        assert(ms[i].1 == Json::Bool(listed[i].1));
    }
}

proof fn lemma_bool_members_document(listed: Seq<(Seq<char>, bool)>)
    ensures
        bool_members(listed.map_values(|e: (Seq<char>, bool)| (e.0, Json::Bool(e.1)))) == Some(
            flags_map(listed),
        ),
    decreases listed.len(),
{
    let g = |e: (Seq<char>, bool)| (e.0, Json::Bool(e.1));
    if listed.len() > 0 {
        lemma_bool_members_document(listed.drop_last());
        assert(listed.drop_last().map_values(g) =~= listed.map_values(g).drop_last());
    }
}

/// The document saved for some preferences reads back as the same preferences.
pub proof fn law_preferences_round_trip(preferences: &ToolPreferences)
    ensures
        stored_preferences(preferences_document(preferences.listed())) == Some(preferences@),
{
    lemma_bool_members_document(preferences.listed());
    preferences.lemma_listed();
}

// ---------------------------------------------------------------------------
// MCP servers: an array of server objects.
// ---------------------------------------------------------------------------

/// A server configuration as a stored document gives it (`id` is `None` where
/// the document has none).
pub struct ServerRecord {
    pub id: Option<Seq<char>>,
    pub name: Seq<char>,
    pub transport: McpTransport,
    pub command: Option<Seq<char>>,
    pub args: Seq<Seq<char>>,
    pub url: Option<Seq<char>>,
    pub headers: Seq<(Seq<char>, Seq<char>)>,
    pub enabled: bool,
    pub tool_filter: Option<Seq<Seq<char>>>,
}

/// The texts of an array whose elements are all strings.
pub open spec fn text_items(items: Seq<Json>) -> Option<Seq<Seq<char>>>
    decreases items.len(),
{
    if items.len() == 0 {
        Some(Seq::empty())
    } else {
        match (text_items(items.drop_last()), items.last()) {
            (Some(s), Json::Str(t)) => Some(s.push(t)),
            _ => None,
        }
    }
}

/// The (name, text) pairs of an object whose members are all strings.
pub open spec fn text_pairs(ms: Seq<(Seq<char>, Json)>) -> Option<Seq<(Seq<char>, Seq<char>)>>
    decreases ms.len(),
{
    if ms.len() == 0 {
        Some(Seq::empty())
    } else {
        match (text_pairs(ms.drop_last()), ms.last().1) {
            (Some(s), Json::Str(t)) => Some(s.push((ms.last().0, t))),
            _ => None,
        }
    }
}

/// An optional text member: absent or `null` is `None`, a string is its text.
pub open spec fn optional_text(v: Option<Json>) -> Option<Option<Seq<char>>> {
    match v {
        None => Some(None),
        Some(Json::Null) => Some(None),
        Some(Json::Str(t)) => Some(Some(t)),
        _ => None,
    }
}

/// A list of texts that defaults to empty.
pub open spec fn text_list(v: Option<Json>) -> Option<Seq<Seq<char>>> {
    match v {
        None => Some(Seq::empty()),
        Some(Json::Array(items)) => text_items(items),
        _ => None,
    }
}

/// An optional list of texts: absent or `null` is `None`.
pub open spec fn optional_text_list(v: Option<Json>) -> Option<Option<Seq<Seq<char>>>> {
    match v {
        None => Some(None),
        Some(Json::Null) => Some(None),
        Some(Json::Array(items)) => match text_items(items) {
            Some(s) => Some(Some(s)),
            None => None,
        },
        _ => None,
    }
}

/// Header pairs that default to none.
pub open spec fn header_list(v: Option<Json>) -> Option<Seq<(Seq<char>, Seq<char>)>> {
    match v {
        None => Some(Seq::empty()),
        Some(Json::Object(ms)) => match text_pairs(ms) {
            Some(p) => Some(headers_of(p)),
            None => None,
        },
        _ => None,
    }
}

/// A flag that defaults to `true`.
pub open spec fn flag_or_true(v: Option<Json>) -> Option<bool> {
    match v {
        None => Some(true),
        Some(Json::Bool(b)) => Some(b),
        _ => None,
    }
}

/// An id that may be absent (a fresh one is made for it) but not `null`.
pub open spec fn optional_id(v: Option<Json>) -> Option<Option<Seq<char>>> {
    match v {
        None => Some(None),
        Some(Json::Str(t)) => Some(Some(t)),
        _ => None,
    }
}

/// How a transport is named in a stored document.
pub open spec fn transport_name(t: McpTransport) -> Seq<char> {
    match t {
        McpTransport::Stdio => "stdio"@,
        McpTransport::Sse => "sse"@,
        McpTransport::StreamableHttp => "streamablehttp"@,
    }
}

/// The transport a stored name stands for.
pub open spec fn transport_named(v: Option<Json>) -> Option<McpTransport> {
    match v {
        Some(Json::Str(t)) => if t == "stdio"@ {
            Some(McpTransport::Stdio)
        } else if t == "sse"@ {
            Some(McpTransport::Sse)
        } else if t == "streamablehttp"@ {
            Some(McpTransport::StreamableHttp)
        } else {
            None
        },
        _ => None,
    }
}

/// The server configuration the stored fields give, each one absent where it
/// is `None`: a string `name`, a known `transport`, and each other field absent
/// or of its type.
pub open spec fn server_from_fields(
    id: Option<Json>,
    name: Option<Json>,
    transport: Option<Json>,
    command: Option<Json>,
    args: Option<Json>,
    url: Option<Json>,
    headers: Option<Json>,
    enabled: Option<Json>,
    tool_filter: Option<Json>,
) -> Option<ServerRecord> {
    let id = optional_id(id);
    let transport = transport_named(transport);
    let command = optional_text(command);
    let args = text_list(args);
    let url = optional_text(url);
    let headers = header_list(headers);
    let enabled = flag_or_true(enabled);
    let tool_filter = optional_text_list(tool_filter);
    if id is Some && (name matches Some(Json::Str(_))) && transport is Some && command is Some
        && args is Some && url is Some && headers is Some && enabled is Some
        && tool_filter is Some {
        Some(
            ServerRecord {
                id: id->0,
                name: name->0->Str_0,
                transport: transport->0,
                command: command->0,
                args: args->0,
                url: url->0,
                headers: headers->0,
                enabled: enabled->0,
                tool_filter: tool_filter->0,
            },
        )
    } else {
        None
    }
}

/// The element at `i` of an array, if there is one.
pub open spec fn element(items: Seq<Json>, i: int) -> Option<Json> {
    if 0 <= i < items.len() {
        Some(items[i])
    } else {
        None
    }
}

/// The server configuration a stored value holds, if it is well formed: an
/// object with the fields as members (others are ignored), or an array of at
/// most nine elements with the fields in order (`id`, `name`, `transport`,
/// `command`, `args`, `url`, `headers`, `enabled`, `tool_filter`), a missing
/// tail standing for absent fields.
pub open spec fn stored_server(doc: Json) -> Option<ServerRecord> {
    match doc {
        Json::Object(ms) => server_from_fields(
            member(ms, "id"@),
            member(ms, "name"@),
            member(ms, "transport"@),
            member(ms, "command"@),
            member(ms, "args"@),
            member(ms, "url"@),
            member(ms, "headers"@),
            member(ms, "enabled"@),
            member(ms, "tool_filter"@),
        ),
        Json::Array(items) => if items.len() <= 9 {
            server_from_fields(
                element(items, 0),
                element(items, 1),
                element(items, 2),
                element(items, 3),
                element(items, 4),
                element(items, 5),
                element(items, 6),
                element(items, 7),
                element(items, 8),
            )
        } else {
            None
        },
        _ => None,
    }
}

/// The configurations of a stored array whose elements are all well formed.
pub open spec fn stored_server_items(items: Seq<Json>) -> Option<Seq<ServerRecord>>
    decreases items.len(),
{
    if items.len() == 0 {
        Some(Seq::empty())
    } else {
        match (stored_server_items(items.drop_last()), stored_server(items.last())) {
            (Some(s), Some(c)) => Some(s.push(c)),
            _ => None,
        }
    }
}

/// The configurations a stored document holds: `None` unless it is an array of
/// well-formed server objects.
pub open spec fn stored_servers(doc: Json) -> Option<Seq<ServerRecord>> {
    match doc {
        Json::Array(items) => stored_server_items(items),
        _ => None,
    }
}

/// The configurations in a stored text: `None` where it is not JSON or not a
/// well-formed list.
pub open spec fn servers_from_text(text: Seq<char>) -> Option<Seq<ServerRecord>> {
    match spec_json_parse(text) {
        Some(doc) => stored_servers(doc),
        None => None,
    }
}

/// The text of an optional string.
pub open spec fn optional_view(o: Option<String>) -> Option<Seq<char>> {
    match o {
        Some(t) => Some(t@),
        None => None,
    }
}

/// The texts of an optional list of strings.
pub open spec fn optional_texts(o: Option<Vec<String>>) -> Option<Seq<Seq<char>>> {
    match o {
        Some(v) => Some(texts(v@)),
        None => None,
    }
}

/// The texts of some (name, value) pairs.
pub open spec fn pair_texts(s: Seq<(String, String)>) -> Seq<(Seq<char>, Seq<char>)> {
    s.map_values(|h: (String, String)| (h.0@, h.1@))
}

/// What a configuration holds besides its id, as a record with the given id.
pub open spec fn record_with_id(c: McpServerConfig, id: Option<Seq<char>>) -> ServerRecord {
    ServerRecord {
        id,
        name: c.name@,
        transport: c.transport,
        command: optional_view(c.command),
        args: texts(c.args@),
        url: optional_view(c.url),
        headers: c.headers@,
        enabled: c.enabled,
        tool_filter: optional_texts(c.tool_filter),
    }
}

/// The record of a configuration, its id included.
pub open spec fn server_record(c: McpServerConfig) -> ServerRecord {
    record_with_id(c, Some(c.id@))
}

/// A configuration read from a record: the record's fields, and its id, or
/// `fresh` where it has none.
pub open spec fn read_as(c: McpServerConfig, rec: ServerRecord, fresh: Seq<char>) -> bool {
    &&& record_with_id(c, rec.id) == rec
    &&& c.id@ == match rec.id {
        Some(id) => id,
        None => fresh,
    }
}

/// A configuration loaded from a record: the record's fields, and its id, or a
/// generated one where it has none.
pub open spec fn loaded_as(c: McpServerConfig, rec: ServerRecord) -> bool {
    &&& record_with_id(c, rec.id) == rec
    &&& (rec.id matches Some(id) ==> c.id@ == id)
    &&& (rec.id is None ==> is_uuid_text(c.id@))
}

/// The optional JSON value at hand.
pub open spec fn found(v: Option<&JsonValue>) -> Option<Json> {
    match v {
        Some(x) => Some(x@),
        None => None,
    }
}

fn text_items_from(items: &Vec<JsonValue>) -> (r: Option<Vec<String>>)
    ensures
        match r {
            Some(v) => text_items(items_model(items@)) == Some(texts(v@)),
            None => text_items(items_model(items@)) is None,
        },
{
    let ghost js = items_model(items@);
    proof {
        lemma_items_model(items@);
    }
    let mut out: Vec<String> = Vec::new();
    let mut i: usize = 0;
    while i < items.len()
        invariant
            i <= items.len(),
            js == items_model(items@),
            js.len() == items@.len(),
            forall|j: int| 0 <= j < items@.len() ==> #[trigger] js[j] == items@[j]@,
            text_items(js.subrange(0, i as int)) == Some(texts(out@)),
        decreases items.len() - i,
    {
        let ghost sub = js.subrange(0, i + 1);
        assert(sub.drop_last() =~= js.subrange(0, i as int));
        match &items[i] {
            JsonValue::Str(t) => {
                let ghost before = out@;
                out.push(t.clone());
                assert(texts(out@) =~= texts(before).push(t@));
            },
            _ => {
                assert(text_items(sub) is None);
                proof {
                    lemma_text_items_prefix(js, i + 1);
                }
                return None;
            },
        }
        i = i + 1;
    }
    assert(js.subrange(0, js.len() as int) =~= js);
    Some(out)
}

proof fn lemma_text_items_prefix(js: Seq<Json>, n: int)
    requires
        0 <= n <= js.len(),
        text_items(js.subrange(0, n)) is None,
    ensures
        text_items(js) is None,
    decreases js.len() - n,
{
    if n < js.len() {
        assert(js.subrange(0, n + 1).drop_last() =~= js.subrange(0, n));
        lemma_text_items_prefix(js, n + 1);
    } else {
        assert(js.subrange(0, n) =~= js);
    }
}

fn text_pairs_from(members: &Vec<(String, JsonValue)>) -> (r: Option<Vec<(String, String)>>)
    ensures
        match r {
            Some(v) => text_pairs(members_model(members@)) == Some(pair_texts(v@)),
            None => text_pairs(members_model(members@)) is None,
        },
{
    let ghost ms = members_model(members@);
    proof {
        lemma_members_model(members@);
    }
    let mut out: Vec<(String, String)> = Vec::new();
    let mut i: usize = 0;
    while i < members.len()
        invariant
            i <= members.len(),
            ms == members_model(members@),
            ms.len() == members@.len(),
            forall|j: int| 0 <= j < members@.len() ==> #[trigger] ms[j] == (members@[j].0@, members@[j].1@),
            text_pairs(ms.subrange(0, i as int)) == Some(pair_texts(out@)),
        decreases members.len() - i,
    {
        let ghost sub = ms.subrange(0, i + 1);
        assert(sub.drop_last() =~= ms.subrange(0, i as int));
        assert(sub.last() == ms[i as int]);
        match &members[i].1 {
            JsonValue::Str(t) => {
                let ghost before = out@;
                out.push((members[i].0.clone(), t.clone()));
                assert(pair_texts(out@) =~= pair_texts(before).push((members@[i as int].0@, t@)));
            },
            _ => {
                assert(text_pairs(sub) is None);
                proof {
                    lemma_text_pairs_prefix(ms, i + 1);
                }
                return None;
            },
        }
        i = i + 1;
    }
    assert(ms.subrange(0, ms.len() as int) =~= ms);
    Some(out)
}

proof fn lemma_text_pairs_prefix(ms: Seq<(Seq<char>, Json)>, n: int)
    requires
        0 <= n <= ms.len(),
        text_pairs(ms.subrange(0, n)) is None,
    ensures
        text_pairs(ms) is None,
    decreases ms.len() - n,
{
    if n < ms.len() {
        assert(ms.subrange(0, n + 1).drop_last() =~= ms.subrange(0, n));
        lemma_text_pairs_prefix(ms, n + 1);
    } else {
        assert(ms.subrange(0, n) =~= ms);
    }
}

/// The (name, text) pairs of a document that is an object of strings.
pub open spec fn string_object(doc: Json) -> Option<Seq<(Seq<char>, Seq<char>)>> {
    match doc {
        Json::Object(ms) => text_pairs(ms),
        _ => None,
    }
}

/// Reads an object of strings as (name, text) pairs, in document order.
pub fn string_pairs_from_json(doc: &JsonValue) -> (r: Option<Vec<(String, String)>>)
    ensures
        match r {
            Some(v) => string_object(doc@) == Some(pair_texts(v@)),
            None => string_object(doc@) is None,
        },
{
    match doc {
        JsonValue::Object(ms) => text_pairs_from(ms),
        _ => None,
    }
}

fn optional_text_from(v: Option<&JsonValue>) -> (r: Option<Option<String>>)
    ensures
        match r {
            Some(o) => optional_text(found(v)) == Some(optional_view(o)),
            None => optional_text(found(v)) is None,
        },
{
    match v {
        None => Some(None),
        Some(JsonValue::Null) => Some(None),
        Some(JsonValue::Str(t)) => Some(Some(t.clone())),
        Some(_) => None,
    }
}

fn text_list_from(v: Option<&JsonValue>) -> (r: Option<Vec<String>>)
    ensures
        match r {
            Some(l) => text_list(found(v)) == Some(texts(l@)),
            None => text_list(found(v)) is None,
        },
{
    match v {
        None => Some(Vec::new()),
        Some(JsonValue::Array(items)) => text_items_from(items),
        Some(_) => None,
    }
}

fn optional_text_list_from(v: Option<&JsonValue>) -> (r: Option<Option<Vec<String>>>)
    ensures
        match r {
            Some(o) => optional_text_list(found(v)) == Some(optional_texts(o)),
            None => optional_text_list(found(v)) is None,
        },
{
    match v {
        None => Some(None),
        Some(JsonValue::Null) => Some(None),
        Some(JsonValue::Array(items)) => match text_items_from(items) {
            Some(l) => Some(Some(l)),
            None => None,
        },
        Some(_) => None,
    }
}

fn header_list_from(v: Option<&JsonValue>) -> (r: Option<Headers>)
    ensures
        match r {
            Some(h) => header_list(found(v)) == Some(h@),
            None => header_list(found(v)) is None,
        },
{
    match v {
        None => Some(Headers::new()),
        Some(JsonValue::Object(ms)) => match text_pairs_from(ms) {
            Some(p) => Some(Headers::from_pairs(p)),
            None => None,
        },
        Some(_) => None,
    }
}

fn flag_or_true_from(v: Option<&JsonValue>) -> (r: Option<bool>)
    ensures
        r == flag_or_true(found(v)),
{
    match v {
        None => Some(true),
        Some(JsonValue::Bool(b)) => Some(*b),
        Some(_) => None,
    }
}

fn optional_id_from(v: Option<&JsonValue>) -> (r: Option<Option<String>>)
    ensures
        match r {
            Some(o) => optional_id(found(v)) == Some(optional_view(o)),
            None => optional_id(found(v)) is None,
        },
{
    match v {
        None => Some(None),
        Some(JsonValue::Str(t)) => Some(Some(t.clone())),
        Some(_) => None,
    }
}

fn transport_named_from(v: Option<&JsonValue>) -> (r: Option<McpTransport>)
    ensures
        r == transport_named(found(v)),
{
    match v {
        Some(JsonValue::Str(t)) => {
            if *t == owned("stdio") {
                Some(McpTransport::Stdio)
            } else if *t == owned("sse") {
                Some(McpTransport::Sse)
            } else if *t == owned("streamablehttp") {
                Some(McpTransport::StreamableHttp)
            } else {
                None
            }
        },
        _ => None,
    }
}

/// Reads one server configuration out of its stored fields; `fresh_id` is the
/// id it gets where it has none.
fn server_from_parts(
    id: Option<&JsonValue>,
    name: Option<&JsonValue>,
    transport: Option<&JsonValue>,
    command: Option<&JsonValue>,
    args: Option<&JsonValue>,
    url: Option<&JsonValue>,
    headers: Option<&JsonValue>,
    enabled: Option<&JsonValue>,
    tool_filter: Option<&JsonValue>,
    fresh_id: String,
) -> (r: Option<McpServerConfig>)
    ensures
        match server_from_fields(
            found(id),
            found(name),
            found(transport),
            found(command),
            found(args),
            found(url),
            found(headers),
            found(enabled),
            found(tool_filter),
        ) {
            Some(rec) => r matches Some(c) && read_as(c, rec, fresh_id@),
            None => r is None,
        },
{
    let id = optional_id_from(id);
    let transport = transport_named_from(transport);
    let command = optional_text_from(command);
    let args = text_list_from(args);
    let url = optional_text_from(url);
    let headers = header_list_from(headers);
    let enabled = flag_or_true_from(enabled);
    let tool_filter = optional_text_list_from(tool_filter);
    match (id, name, transport, command, args, url, headers, enabled, tool_filter) {
        (
            Some(id),
            Some(JsonValue::Str(name)),
            Some(transport),
            Some(command),
            Some(args),
            Some(url),
            Some(headers),
            Some(enabled),
            Some(tool_filter),
        ) => {
            let id = match id {
                Some(t) => t,
                None => fresh_id,
            };
            Some(
                McpServerConfig {
                    id,
                    name: name.clone(),
                    transport,
                    command,
                    args,
                    url,
                    headers,
                    enabled,
                    tool_filter,
                },
            )
        },
        _ => None,
    }
}

/// The element at `i` of an array, if there is one.
fn element_at(items: &Vec<JsonValue>, i: usize) -> (r: Option<&JsonValue>)
    ensures
        found(r) == element(items_model(items@), i as int),
{
    proof {
        lemma_items_model(items@);
    }
    if i < items.len() {
        Some(&items[i])
    } else {
        None
    }
}

/// Reads one server configuration out of a stored value (an object, or an
/// array of its fields in order); `fresh_id` is the id it gets where it has
/// none.
pub fn server_from_json(doc: &JsonValue, fresh_id: String) -> (r: Option<McpServerConfig>)
    ensures
        match stored_server(doc@) {
            Some(rec) => r matches Some(c) && read_as(c, rec, fresh_id@),
            None => r is None,
        },
{
    match doc {
        JsonValue::Object(_) => server_from_parts(
            doc.get("id"),
            doc.get("name"),
            doc.get("transport"),
            doc.get("command"),
            doc.get("args"),
            doc.get("url"),
            doc.get("headers"),
            doc.get("enabled"),
            doc.get("tool_filter"),
            fresh_id,
        ),
        JsonValue::Array(items) => {
            proof {
                lemma_items_model(items@);
            }
            if items.len() <= 9 {
                server_from_parts(
                    element_at(items, 0),
                    element_at(items, 1),
                    element_at(items, 2),
                    element_at(items, 3),
                    element_at(items, 4),
                    element_at(items, 5),
                    element_at(items, 6),
                    element_at(items, 7),
                    element_at(items, 8),
                    fresh_id,
                )
            } else {
                None
            }
        },
        _ => None,
    }
}

/// Reads the server configurations out of a stored document, giving each one
/// without an id a freshly generated one.
pub fn servers_from_json(doc: &JsonValue) -> (r: Option<Vec<McpServerConfig>>)
    ensures
        match stored_servers(doc@) {
            Some(recs) => r matches Some(v) && v@.len() == recs.len() && forall|i: int|
                0 <= i < recs.len() ==> loaded_as(#[trigger] v@[i], recs[i]),
            None => r is None,
        },
{
    let items = match doc {
        JsonValue::Array(items) => items,
        _ => return None,
    };
    let ghost js = items_model(items@);
    proof {
        lemma_items_model(items@);
    }
    assert(doc@ == Json::Array(js));
    let mut out: Vec<McpServerConfig> = Vec::new();
    let mut i: usize = 0;
    while i < items.len()
        invariant
            i <= items.len(),
            doc@ == Json::Array(js),
            js == items_model(items@),
            js.len() == items@.len(),
            forall|j: int| 0 <= j < items@.len() ==> #[trigger] js[j] == items@[j]@,
            stored_server_items(js.subrange(0, i as int)) matches Some(recs) && recs.len() == out@.len()
                && forall|j: int| 0 <= j < recs.len() ==> loaded_as(#[trigger] out@[j], recs[j]),
        decreases items.len() - i,
    {
        let ghost sub = js.subrange(0, i + 1);
        assert(sub.drop_last() =~= js.subrange(0, i as int));
        assert(sub.last() == items@[i as int]@);
        let fresh = generate_id();
        match server_from_json(&items[i], fresh) {
            Some(c) => {
                out.push(c);
            },
            None => {
                assert(stored_server_items(sub) is None);
                proof {
                    lemma_server_items_prefix(js, i + 1);
                }
                return None;
            },
        }
        i = i + 1;
    }
    assert(js.subrange(0, js.len() as int) =~= js);
    Some(out)
}

proof fn lemma_server_items_prefix(js: Seq<Json>, n: int)
    requires
        0 <= n <= js.len(),
        stored_server_items(js.subrange(0, n)) is None,
    ensures
        stored_server_items(js) is None,
    decreases js.len() - n,
{
    if n < js.len() {
        assert(js.subrange(0, n + 1).drop_last() =~= js.subrange(0, n));
        lemma_server_items_prefix(js, n + 1);
    } else {
        assert(js.subrange(0, n) =~= js);
    }
}

/// Loads the MCP server configurations from the stored text, if there is one; a
/// missing, unreadable or malformed document gives none.
pub fn load_mcp_servers(stored: Option<&str>) -> (r: Vec<McpServerConfig>)
    ensures
        match stored {
            Some(text) => match servers_from_text(text@) {
                Some(recs) => r@.len() == recs.len() && forall|i: int|
                    0 <= i < recs.len() ==> loaded_as(#[trigger] r@[i], recs[i]),
                None => r@.len() == 0,
            },
            None => r@.len() == 0,
        },
{
    match stored {
        None => Vec::new(),
        Some(text) => match json_parse(text) {
            Ok(doc) => match servers_from_json(&doc) {
                Some(v) => v,
                None => Vec::new(),
            },
            Err(_) => Vec::new(),
        },
    }
}

/// A member `key: value` where there is a value, nothing otherwise.
pub open spec fn optional_member(key: Seq<char>, v: Option<Json>) -> Seq<(Seq<char>, Json)> {
    match v {
        Some(j) => seq![(key, j)],
        None => Seq::empty(),
    }
}

/// An array of strings.
pub open spec fn text_array(s: Seq<Seq<char>>) -> Json {
    Json::Array(s.map_values(|t: Seq<char>| Json::Str(t)))
}

/// An object of strings.
pub open spec fn text_object(s: Seq<(Seq<char>, Seq<char>)>) -> Json {
    Json::Object(s.map_values(|p: (Seq<char>, Seq<char>)| (p.0, Json::Str(p.1))))
}

/// A string, where there is one.
pub open spec fn optional_str(t: Option<Seq<char>>) -> Option<Json> {
    match t {
        Some(x) => Some(Json::Str(x)),
        None => None,
    }
}

/// The stored object of a configuration: its members in field order, leaving
/// out a missing id, command or url, empty args or headers, and a missing tool
/// filter.
pub open spec fn record_document(rec: ServerRecord) -> Json {
    Json::Object(
        optional_member("id"@, optional_str(rec.id))
            + seq![("name"@, Json::Str(rec.name)), ("transport"@, Json::Str(transport_name(rec.transport)))]
            + optional_member("command"@, optional_str(rec.command))
            + optional_member("args"@, if rec.args.len() == 0 { None } else { Some(text_array(rec.args)) })
            + optional_member("url"@, optional_str(rec.url))
            + optional_member("headers"@, if rec.headers.len() == 0 { None } else { Some(text_object(rec.headers)) })
            + seq![("enabled"@, Json::Bool(rec.enabled))]
            + optional_member(
                "tool_filter"@,
                match rec.tool_filter {
                    Some(l) => Some(text_array(l)),
                    None => None,
                },
            ),
    )
}

/// The stored document of a list of configurations.
pub open spec fn servers_document(servers: Seq<McpServerConfig>) -> Json {
    Json::Array(servers.map_values(|c: McpServerConfig| record_document(server_record(c))))
}

fn push_member(out: &mut Vec<(String, JsonValue)>, key: &str, value: JsonValue)
    ensures
        members_model(final(out)@) == members_model(old(out)@).push((key@, value@)),
{
    let ghost before = out@;
    out.push((owned(key), value));
    assert(out@.drop_last() =~= before);
}

fn strings_to_json(v: &Vec<String>) -> (r: JsonValue)
    ensures
        r@ == text_array(texts(v@)),
{
    let mut out: Vec<JsonValue> = Vec::new();
    let mut i: usize = 0;
    while i < v.len()
        invariant
            i <= v.len(),
            items_model(out@) == texts(v@.subrange(0, i as int)).map_values(|t: Seq<char>| Json::Str(t)),
        decreases v.len() - i,
    {
        let ghost before = out@;
        let item = JsonValue::Str(v[i].clone());
        assert(item@ == Json::Str(v@[i as int]@));
        out.push(item);
        assert(out@.drop_last() =~= before);
        assert(texts(v@.subrange(0, i + 1)).map_values(|t: Seq<char>| Json::Str(t)) =~= texts(
            v@.subrange(0, i as int),
        ).map_values(|t: Seq<char>| Json::Str(t)).push(Json::Str(v@[i as int]@)));
        i = i + 1;
    }
    assert(v@.subrange(0, v@.len() as int) =~= v@);
    JsonValue::Array(out)
}

fn pairs_to_json(v: &Vec<(String, String)>) -> (r: JsonValue)
    ensures
        r@ == text_object(pair_texts(v@)),
{
    let mut out: Vec<(String, JsonValue)> = Vec::new();
    let mut i: usize = 0;
    while i < v.len()
        invariant
            i <= v.len(),
            members_model(out@) == pair_texts(v@.subrange(0, i as int)).map_values(
                |p: (Seq<char>, Seq<char>)| (p.0, Json::Str(p.1)),
            ),
        decreases v.len() - i,
    {
        let item = JsonValue::Str(v[i].1.clone());
        assert(item@ == Json::Str(v@[i as int].1@));
        let ghost before = out@;
        out.push((v[i].0.clone(), item));
        assert(out@.drop_last() =~= before);
        assert(pair_texts(v@.subrange(0, i + 1)).map_values(|p: (Seq<char>, Seq<char>)| (p.0, Json::Str(p.1)))
            =~= pair_texts(v@.subrange(0, i as int)).map_values(
            |p: (Seq<char>, Seq<char>)| (p.0, Json::Str(p.1)),
        ).push((v@[i as int].0@, Json::Str(v@[i as int].1@))));
        i = i + 1;
    }
    assert(v@.subrange(0, v@.len() as int) =~= v@);
    JsonValue::Object(out)
}

fn transport_text(t: McpTransport) -> (r: &'static str)
    ensures
        r@ == transport_name(t),
{
    match t {
        McpTransport::Stdio => "stdio",
        McpTransport::Sse => "sse",
        McpTransport::StreamableHttp => "streamablehttp",
    }
}

fn push_optional_text(out: &mut Vec<(String, JsonValue)>, key: &str, v: &Option<String>)
    ensures
        members_model(final(out)@) == members_model(old(out)@) + optional_member(key@, optional_str(optional_view(*v))),
{
    let ghost before = members_model(out@);
    match v {
        Some(t) => push_member(out, key, JsonValue::Str(t.clone())),
        None => {},
    }
    assert(members_model(out@) =~= before + optional_member(key@, optional_str(optional_view(*v))));
}

fn push_nonempty_texts(out: &mut Vec<(String, JsonValue)>, key: &str, v: &Vec<String>)
    ensures
        members_model(final(out)@) == members_model(old(out)@) + optional_member(
            key@,
            if texts(v@).len() == 0 { None } else { Some(text_array(texts(v@))) },
        ),
{
    let ghost before = members_model(out@);
    if v.len() > 0 {
        push_member(out, key, strings_to_json(v));
    }
    assert(members_model(out@) =~= before + optional_member(
        key@,
        if texts(v@).len() == 0 { None } else { Some(text_array(texts(v@))) },
    ));
}

fn push_nonempty_pairs(out: &mut Vec<(String, JsonValue)>, key: &str, v: &Vec<(String, String)>)
    ensures
        members_model(final(out)@) == members_model(old(out)@) + optional_member(
            key@,
            if pair_texts(v@).len() == 0 { None } else { Some(text_object(pair_texts(v@))) },
        ),
{
    let ghost before = members_model(out@);
    if v.len() > 0 {
        push_member(out, key, pairs_to_json(v));
    }
    assert(members_model(out@) =~= before + optional_member(
        key@,
        if pair_texts(v@).len() == 0 { None } else { Some(text_object(pair_texts(v@))) },
    ));
}

fn push_optional_texts(out: &mut Vec<(String, JsonValue)>, key: &str, v: &Option<Vec<String>>)
    ensures
        members_model(final(out)@) == members_model(old(out)@) + optional_member(
            key@,
            match optional_texts(*v) {
                Some(l) => Some(text_array(l)),
                None => None,
            },
        ),
{
    let ghost before = members_model(out@);
    match v {
        Some(l) => push_member(out, key, strings_to_json(l)),
        None => {},
    }
    assert(members_model(out@) =~= before + optional_member(
        key@,
        match optional_texts(*v) {
            Some(l) => Some(text_array(l)),
            None => None,
        },
    ));
}

/// The stored object of one configuration.
pub fn server_to_json(c: &McpServerConfig) -> (r: JsonValue)
    ensures
        r@ == record_document(server_record(*c)),
{
    let ghost rec = server_record(*c);
    let mut out: Vec<(String, JsonValue)> = Vec::new();
    push_member(&mut out, "id", JsonValue::Str(c.id.clone()));
    let ghost m0 = members_model(out@);
    assert(m0 =~= optional_member("id"@, optional_str(rec.id)));
    push_member(&mut out, "name", JsonValue::Str(c.name.clone()));
    push_member(&mut out, "transport", JsonValue::Str(owned(transport_text(c.transport))));
    let ghost m1 = members_model(out@);
    assert(m1 =~= m0 + seq![("name"@, Json::Str(rec.name)), ("transport"@, Json::Str(transport_name(rec.transport)))]);
    push_optional_text(&mut out, "command", &c.command);
    push_nonempty_texts(&mut out, "args", &c.args);
    push_optional_text(&mut out, "url", &c.url);
    push_nonempty_pairs(&mut out, "headers", c.headers.pairs());
    let ghost m5 = members_model(out@);
    push_member(&mut out, "enabled", JsonValue::Bool(c.enabled));
    push_optional_texts(&mut out, "tool_filter", &c.tool_filter);
    assert(members_model(out@) == m5 + seq![("enabled"@, Json::Bool(rec.enabled))] + optional_member(
        "tool_filter"@,
        match rec.tool_filter {
            Some(l) => Some(text_array(l)),
            None => None,
        },
    ));
    JsonValue::Object(out)
}

/// The stored document of a list of configurations.
pub fn servers_to_json(servers: &[McpServerConfig]) -> (r: JsonValue)
    ensures
        r@ == servers_document(servers@),
{
    let ghost f = |c: McpServerConfig| record_document(server_record(c));
    let mut out: Vec<JsonValue> = Vec::new();
    let mut i: usize = 0;
    while i < servers.len()
        invariant
            i <= servers@.len(),
            f == (|c: McpServerConfig| record_document(server_record(c))),
            items_model(out@) == servers@.subrange(0, i as int).map_values(f),
        decreases servers@.len() - i,
    {
        let item = server_to_json(&servers[i]);
        let ghost before = out@;
        out.push(item);
        assert(out@.drop_last() =~= before);
        assert(servers@.subrange(0, i + 1).map_values(f) =~= servers@.subrange(0, i as int).map_values(f).push(
            f(servers@[i as int]),
        ));
        i = i + 1;
    }
    assert(servers@.subrange(0, servers@.len() as int) =~= servers@);
    JsonValue::Array(out)
}

/// The text saved for the configurations: their document, indented.
pub fn save_mcp_servers(servers: &[McpServerConfig]) -> (r: String)
    ensures
        r@ == spec_json_text_pretty(servers_document(servers@)),
        servers_from_text(r@) == Some(servers@.map_values(|c: McpServerConfig| server_record(c))),
{
    let mut i: usize = 0;
    while i < servers.len()
        invariant
            i <= servers@.len(),
            forall|k: int| 0 <= k < i ==> names_distinct(#[trigger] servers@[k].headers@),
        decreases servers.len() - i,
    {
        let _ = servers[i].headers.pairs();
        i = i + 1;
    }
    let doc = servers_to_json(servers);
    proof {
        lemma_servers_document_plain(servers@);
        law_servers_round_trip(servers@);
    }
    json_text_pretty(&doc)
}

/// Every member name of `ms` is one of `names`.
spec fn names_within(ms: Seq<(Seq<char>, Json)>, names: Seq<Seq<char>>) -> bool {
    forall|i: int| 0 <= i < ms.len() ==> names.contains(#[trigger] ms[i].0)
}

/// Two lists of members with distinct names and no name in common put
/// together have distinct names.
proof fn lemma_keys_distinct_concat(
    a: Seq<(Seq<char>, Json)>,
    b: Seq<(Seq<char>, Json)>,
    na: Seq<Seq<char>>,
    nb: Seq<Seq<char>>,
)
    requires
        keys_distinct(a),
        keys_distinct(b),
        names_within(a, na),
        names_within(b, nb),
        forall|i: int, j: int| 0 <= i < na.len() && 0 <= j < nb.len() ==> #[trigger] na[i] != #[trigger] nb[j],
    ensures
        keys_distinct(a + b),
        names_within(a + b, na + nb),
{
    let c = a + b;
    assert forall|i: int, j: int| 0 <= i < j < c.len() implies #[trigger] c[i].0 != #[trigger] c[j].0 by {
        if j < a.len() {
            assert(c[i] == a[i] && c[j] == a[j]);
        } else if i >= a.len() {
            assert(c[i] == b[i - a.len()] && c[j] == b[j - a.len()]);
        } else {
            assert(c[i] == a[i] && c[j] == b[j - a.len()]);
            assert(na.contains(a[i].0));
            assert(nb.contains(b[j - a.len()].0));
        }
    }
    assert forall|i: int| 0 <= i < c.len() implies (na + nb).contains(#[trigger] c[i].0) by {
        if i < a.len() {
            assert(c[i] == a[i]);
            let k = choose|k: int| 0 <= k < na.len() && na[k] == a[i].0;
            assert((na + nb)[k] == na[k]);
        } else {
            assert(c[i] == b[i - a.len()]);
            let k = choose|k: int| 0 <= k < nb.len() && nb[k] == b[i - a.len()].0;
            assert((na + nb)[na.len() + k] == nb[k]);
        }
    }
}

/// An optional member has distinct names, all its own.
proof fn lemma_optional_member(key: Seq<char>, v: Option<Json>)
    ensures
        keys_distinct(optional_member(key, v)),
        names_within(optional_member(key, v), seq![key]),
        optional_member(key, v).len() <= 1,
{
    if v is Some {
        assert(optional_member(key, v)[0].0 == key);
        assert(seq![key][0] == key);
    }
}

/// A stored server object is one `serde_json` reads back.
proof fn lemma_record_document_plain(rec: ServerRecord, depth: nat)
    requires
        depth >= 2,
        forall|i: int, j: int| 0 <= i < j < rec.headers.len() ==> #[trigger] rec.headers[i].0 != #[trigger] rec.headers[j].0,
    ensures
        plain_json(record_document(rec), depth),
{
    reveal_strlit("id");
    reveal_strlit("name");
    reveal_strlit("transport");
    reveal_strlit("command");
    reveal_strlit("args");
    reveal_strlit("url");
    reveal_strlit("headers");
    reveal_strlit("enabled");
    reveal_strlit("tool_filter");
    assert("id"@.len() == 2 && "name"@.len() == 4 && "transport"@.len() == 9 && "command"@.len() == 7);
    assert("args"@.len() == 4 && "url"@.len() == 3 && "headers"@.len() == 7 && "enabled"@.len() == 7);
    assert("tool_filter"@.len() == 11);
    assert("name"@[0] == 'n' && "args"@[0] == 'a');
    assert("command"@[0] == 'c' && "headers"@[0] == 'h' && "enabled"@[0] == 'e');
    let a0 = optional_member("id"@, optional_str(rec.id));
    let a1 = seq![("name"@, Json::Str(rec.name)), ("transport"@, Json::Str(transport_name(rec.transport)))];
    let a2 = optional_member("command"@, optional_str(rec.command));
    let a3 = optional_member("args"@, if rec.args.len() == 0 { None } else { Some(text_array(rec.args)) });
    let a4 = optional_member("url"@, optional_str(rec.url));
    let a5 = optional_member(
        "headers"@,
        if rec.headers.len() == 0 { None } else { Some(text_object(rec.headers)) },
    );
    let a6 = seq![("enabled"@, Json::Bool(rec.enabled))];
    let a7 = optional_member(
        "tool_filter"@,
        match rec.tool_filter {
            Some(l) => Some(text_array(l)),
            None => None,
        },
    );
    lemma_optional_member("id"@, optional_str(rec.id));
    lemma_optional_member("command"@, optional_str(rec.command));
    lemma_optional_member("args"@, if rec.args.len() == 0 { None } else { Some(text_array(rec.args)) });
    lemma_optional_member("url"@, optional_str(rec.url));
    lemma_optional_member(
        "headers"@,
        if rec.headers.len() == 0 { None } else { Some(text_object(rec.headers)) },
    );
    lemma_optional_member(
        "tool_filter"@,
        match rec.tool_filter {
            Some(l) => Some(text_array(l)),
            None => None,
        },
    );
    let n0 = seq!["id"@];
    let n1 = seq!["name"@, "transport"@];
    assert(keys_distinct(a1));
    assert(names_within(a1, n1)) by {
        assert(n1[0] == "name"@ && n1[1] == "transport"@);
    }
    lemma_keys_distinct_concat(a0, a1, n0, n1);
    let n01 = n0 + n1;
    lemma_keys_distinct_concat(a0 + a1, a2, n01, seq!["command"@]);
    let n2 = n01 + seq!["command"@];
    lemma_keys_distinct_concat(a0 + a1 + a2, a3, n2, seq!["args"@]);
    let n3 = n2 + seq!["args"@];
    lemma_keys_distinct_concat(a0 + a1 + a2 + a3, a4, n3, seq!["url"@]);
    let n4 = n3 + seq!["url"@];
    lemma_keys_distinct_concat(a0 + a1 + a2 + a3 + a4, a5, n4, seq!["headers"@]);
    let n5 = n4 + seq!["headers"@];
    assert(names_within(a6, seq!["enabled"@])) by {
        assert(seq!["enabled"@][0] == "enabled"@);
    }
    lemma_keys_distinct_concat(a0 + a1 + a2 + a3 + a4 + a5, a6, n5, seq!["enabled"@]);
    let n6 = n5 + seq!["enabled"@];
    lemma_keys_distinct_concat(a0 + a1 + a2 + a3 + a4 + a5 + a6, a7, n6, seq!["tool_filter"@]);
    let ms = a0 + a1 + a2 + a3 + a4 + a5 + a6 + a7;
    assert(record_document(rec) == Json::Object(ms));
    let d1 = (depth - 1) as nat;
    assert forall|t: Seq<Seq<char>>| true implies plain_json(#[trigger] text_array(t), d1) by {
        let items = t.map_values(|x: Seq<char>| Json::Str(x));
        assert forall|i: int| 0 <= i < items.len() implies plain_json(#[trigger] items[i], (d1 - 1) as nat) by {
            assert(items[i] == Json::Str(t[i]));
        }
    }
    let hs = rec.headers.map_values(|p: (Seq<char>, Seq<char>)| (p.0, Json::Str(p.1)));
    assert(keys_distinct(hs)) by {
        assert forall|i: int, j: int| 0 <= i < j < hs.len() implies #[trigger] hs[i].0 != #[trigger] hs[j].0 by {
            assert(hs[i].0 == rec.headers[i].0 && hs[j].0 == rec.headers[j].0);
        }
    }
    assert forall|i: int| 0 <= i < hs.len() implies plain_json(#[trigger] hs[i].1, (d1 - 1) as nat) by {
        assert(hs[i].1 == Json::Str(rec.headers[i].1));
    }
    assert(plain_json(text_object(rec.headers), d1));
    assert forall|i: int| 0 <= i < ms.len() implies plain_json(#[trigger] ms[i].1, d1) by {
        assert(ms.len() == a0.len() + a1.len() + a2.len() + a3.len() + a4.len() + a5.len() + a6.len() + a7.len());
    }
}

/// The stored document of configurations whose header names are distinct is
/// one `serde_json` reads back.
proof fn lemma_servers_document_plain(servers: Seq<McpServerConfig>)
    requires
        forall|i: int| 0 <= i < servers.len() ==> names_distinct(#[trigger] servers[i].headers@),
    ensures
        plain_json(servers_document(servers), depth_bound()),
{
    let items = servers.map_values(|c: McpServerConfig| record_document(server_record(c)));
    assert forall|i: int| 0 <= i < items.len() implies plain_json(#[trigger] items[i], (depth_bound() - 1) as nat) by {
        let c = servers[i];
        let rec = server_record(c);
        assert(names_distinct(c.headers@));
        assert(rec.headers == c.headers@);
        lemma_record_document_plain(rec, (depth_bound() - 1) as nat);
    }
}

/// The first member named `key` of two member lists put together.
proof fn lemma_member_concat(a: Seq<(Seq<char>, Json)>, b: Seq<(Seq<char>, Json)>, key: Seq<char>)
    ensures
        member(a + b, key) == if member(a, key) is Some {
            member(a, key)
        } else {
            member(b, key)
        },
    decreases a.len(),
{
    if a.len() > 0 {
        assert((a + b).drop_first() =~= a.drop_first() + b);
        assert((a + b)[0] == a[0]);
        lemma_member_concat(a.drop_first(), b, key);
    } else {
        assert(a + b =~= b);
    }
}

proof fn lemma_text_items_of_array(s: Seq<Seq<char>>)
    ensures
        text_items(s.map_values(|t: Seq<char>| Json::Str(t))) == Some(s),
    decreases s.len(),
{
    let f = |t: Seq<char>| Json::Str(t);
    if s.len() > 0 {
        lemma_text_items_of_array(s.drop_last());
        assert(s.drop_last().map_values(f) =~= s.map_values(f).drop_last());
        assert(s.drop_last().push(s.last()) =~= s);
    }
}

proof fn lemma_text_pairs_of_object(s: Seq<(Seq<char>, Seq<char>)>)
    ensures
        text_pairs(s.map_values(|p: (Seq<char>, Seq<char>)| (p.0, Json::Str(p.1)))) == Some(s),
    decreases s.len(),
{
    let f = |p: (Seq<char>, Seq<char>)| (p.0, Json::Str(p.1));
    if s.len() > 0 {
        lemma_text_pairs_of_object(s.drop_last());
        assert(s.drop_last().map_values(f) =~= s.map_values(f).drop_last());
        assert(s.drop_last().push(s.last()) =~= s);
    }
}

/// A stored server object reads back as the record it was written from.
#[verifier::spinoff_prover]
#[verifier::rlimit(40)]
pub proof fn law_server_round_trip(rec: ServerRecord)
    requires
        names_distinct(rec.headers),
    ensures
        stored_server(record_document(rec)) == Some(rec),
{
    assert(headers_of(rec.headers) == rec.headers) by {
        lemma_headers_of_distinct_pairs(rec.headers);
    }
    reveal_strlit("id");
    reveal_strlit("name");
    reveal_strlit("transport");
    reveal_strlit("command");
    reveal_strlit("args");
    reveal_strlit("url");
    reveal_strlit("headers");
    reveal_strlit("enabled");
    reveal_strlit("tool_filter");
    reveal_strlit("stdio");
    reveal_strlit("sse");
    reveal_strlit("streamablehttp");
    reveal_with_fuel(member, 3);
    let a0 = optional_member("id"@, optional_str(rec.id));
    let a1 = seq![("name"@, Json::Str(rec.name)), ("transport"@, Json::Str(transport_name(rec.transport)))];
    let a2 = optional_member("command"@, optional_str(rec.command));
    let a3 = optional_member("args"@, if rec.args.len() == 0 { None } else { Some(text_array(rec.args)) });
    let a4 = optional_member("url"@, optional_str(rec.url));
    let a5 = optional_member(
        "headers"@,
        if rec.headers.len() == 0 { None } else { Some(text_object(rec.headers)) },
    );
    let a6 = seq![("enabled"@, Json::Bool(rec.enabled))];
    let a7 = optional_member(
        "tool_filter"@,
        match rec.tool_filter {
            Some(l) => Some(text_array(l)),
            None => None,
        },
    );
    assert forall|a: Seq<(Seq<char>, Json)>, b: Seq<(Seq<char>, Json)>, k: Seq<char>| #[trigger]
        member(a + b, k) == if member(a, k) is Some {
            member(a, k)
        } else {
            member(b, k)
        } by {
        lemma_member_concat(a, b, k);
    }
    lemma_text_items_of_array(rec.args);
    lemma_text_pairs_of_object(rec.headers);
    if rec.tool_filter is Some {
        lemma_text_items_of_array(rec.tool_filter->0);
    }
    let ms = a0 + a1 + a2 + a3 + a4 + a5 + a6 + a7;
    assert(record_document(rec) == Json::Object(ms));
    assert(a1.drop_first() =~= seq![("transport"@, Json::Str(transport_name(rec.transport)))]);
    assert("id"@.len() == 2 && "name"@.len() == 4 && "transport"@.len() == 9 && "command"@.len() == 7);
    assert("args"@.len() == 4 && "url"@.len() == 3 && "headers"@.len() == 7 && "enabled"@.len() == 7);
    assert("tool_filter"@.len() == 11);
    assert("name"@[0] == 'n' && "args"@[0] == 'a');
    assert("command"@[0] == 'c' && "headers"@[0] == 'h' && "enabled"@[0] == 'e');
    assert(member(a1, "name"@) == Some(Json::Str(rec.name)));
    assert(member(a1, "transport"@) == Some(Json::Str(transport_name(rec.transport))));
    assert(member(a1, "id"@) is None);
    assert(member(a6, "enabled"@) == Some(Json::Bool(rec.enabled)));
    assert(member(ms, "id"@) == match rec.id {
        Some(t) => Some(Json::Str(t)),
        None => None::<Json>,
    });
    assert(member(ms, "name"@) == Some(Json::Str(rec.name)));
    assert(member(ms, "transport"@) == Some(Json::Str(transport_name(rec.transport))));
    assert(member(ms, "command"@) == optional_str(rec.command));
    assert(member(ms, "args"@) == if rec.args.len() == 0 { None } else { Some(text_array(rec.args)) });
    assert(member(ms, "url"@) == optional_str(rec.url));
    assert(member(ms, "headers"@) == if rec.headers.len() == 0 { None } else { Some(text_object(rec.headers)) });
    assert(member(ms, "enabled"@) == Some(Json::Bool(rec.enabled)));
    assert(member(ms, "tool_filter"@) == match rec.tool_filter {
        Some(l) => Some(text_array(l)),
        None => None::<Json>,
    });
    assert(text_list(member(ms, "args"@)) == Some(rec.args));
    assert(header_list(member(ms, "headers"@)) == Some(rec.headers));
    assert("stdio"@.len() == 5 && "sse"@.len() == 3 && "streamablehttp"@.len() == 14);
    assert(transport_named(member(ms, "transport"@)) == Some(rec.transport));
    assert(optional_text_list(member(ms, "tool_filter"@)) == Some(rec.tool_filter));
}

/// A saved list of configurations reads back as their records, in order.
pub proof fn law_servers_round_trip(servers: Seq<McpServerConfig>)
    requires
        forall|i: int| 0 <= i < servers.len() ==> names_distinct(#[trigger] servers[i].headers@),
    ensures
        stored_servers(servers_document(servers)) == Some(
            servers.map_values(|c: McpServerConfig| server_record(c)),
        ),
    decreases servers.len(),
{
    let f = |c: McpServerConfig| record_document(server_record(c));
    let g = |c: McpServerConfig| server_record(c);
    if servers.len() > 0 {
        let init = servers.drop_last();
        assert forall|i: int| 0 <= i < init.len() implies names_distinct(#[trigger] init[i].headers@) by {
            assert(init[i] == servers[i]);
        }
        law_servers_round_trip(init);
        assert(names_distinct(servers[servers.len() - 1].headers@));
        law_server_round_trip(server_record(servers.last()));
        assert(servers.drop_last().map_values(f) =~= servers.map_values(f).drop_last());
        assert(servers.drop_last().map_values(g).push(g(servers.last())) =~= servers.map_values(g));
    } else {
        assert(servers.map_values(g) =~= Seq::<ServerRecord>::empty());
    }
}

} // verus!
