//! The MCP client's protocol logic: tool names, endpoints, JSON-RPC messages and
//! the bookkeeping of configured servers.
use vstd::prelude::*;

use crate::chat::mcp::{
    is_uuid_text, mcp_prefix, mcp_tool_name, name_separator, McpServerConfig, McpServerTool,
    McpToolModel,
};
use crate::json::{
    empty_object, entry, object2, object3, object4, json_as_str, json_as_u64, json_clone, json_error_text, json_field, json_get, json_parse,
    json_text, lemma_items_model, lemma_members_model, members_model, spec_json_parse,
    spec_json_text, string_value, to_serde, Json, JsonNumber, JsonValue,
};
use crate::text::{
    concat, find, first_occurrence, lemma_first_occurrence, from_chars, is_ws, occurs_at, owned, starts_with,
    strip_leading, to_chars, trim, trim_str,
};

verus! {

/// `server_id` has no `__` in it and does not end with `_`, so that the first
/// `__` after it in a tool name is the separator.
pub open spec fn plain_server_id(server_id: Seq<char>) -> bool {
    &&& forall|i: int| 0 <= i < server_id.len() - 1 ==> !(#[trigger] server_id[i] == '_' && server_id[i + 1] == '_')
    &&& (server_id.len() > 0 ==> server_id.last() != '_')
}

/// What `execute_tool` makes of a tool name: the server id and the tool name, or
/// the error it reports.
pub open spec fn spec_parse_tool_name(full: Seq<char>) -> Result<(Seq<char>, Seq<char>), Seq<char>> {
    if !mcp_prefix().is_prefix_of(full) {
        Err("Not an MCP tool: "@ + full)
    } else {
        let rest = full.subrange(mcp_prefix().len() as int, full.len() as int);
        match first_occurrence(rest, name_separator()) {
            Some(i) => Ok((rest.subrange(0, i), rest.subrange(i + 2, rest.len() as int))),
            None => Err("Malformed MCP tool name: "@ + full),
        }
    }
}

/// Splits `mcp__{server_id}__{tool_name}` into server id and tool name.
pub fn parse_tool_name(full_name: &str) -> (r: Result<(String, String), String>)
    ensures
        match (r, spec_parse_tool_name(full_name@)) {
            (Ok((s, t)), Ok((s2, t2))) => s@ == s2 && t@ == t2,
            (Err(e), Err(e2)) => e@ == e2,
            _ => false,
        },
{
    let v = to_chars(full_name);
    let prefix = to_chars("mcp__");
    let sep = to_chars("__");
    proof {
        reveal_strlit("mcp__");
        reveal_strlit("__");
        assert(prefix@ =~= mcp_prefix());
        assert(sep@ =~= name_separator());
    }
    if !starts_with(&v, &prefix) {
        return Err(concat("Not an MCP tool: ", full_name));
    }
    let rest_s = from_chars(&v, 5, v.len());
    let rest = to_chars(rest_s.as_str());
    match find(&rest, &sep) {
        Some(i) => {
            let server = from_chars(&rest, 0, i);
            let tool = from_chars(&rest, i + 2, rest.len());
            Ok((server, tool))
        },
        None => Err(concat("Malformed MCP tool name: ", full_name)),
    }
}

/// Where the separator can stand in `mcp_prefix() + s + "__" + t` once the
/// prefix is gone.
proof fn lemma_separator_position(s: Seq<char>, t: Seq<char>)
    requires
        plain_server_id(s),
    ensures
        first_occurrence(s + name_separator() + t, name_separator()) == Some(s.len() as int),
{
    let rest = s + name_separator() + t;
    let sep = name_separator();
    assert(rest.subrange(s.len() as int, s.len() + 2int) =~= sep);
    assert(occurs_at(rest, sep, s.len() as int));
    assert forall|j: int| 0 <= j < s.len() implies !occurs_at(rest, sep, j) by {
        if occurs_at(rest, sep, j) {
            assert(rest.subrange(j, j + 2)[0] == rest[j]);
            assert(rest.subrange(j, j + 2)[1] == rest[j + 1]);
            assert(rest[j] == '_' && rest[j + 1] == '_');
            if j + 1 < s.len() {
                assert(s[j] == '_' && s[j + 1] == '_');
            } else {
                assert(s.last() == s[j]);
            }
        }
    }
    lemma_first_occurrence(rest, sep, s.len() as int);
}

/// Naming a tool and parsing the name back gives the server id and the tool
/// name again, for every server id without `__` that does not end with `_`.
pub proof fn law_tool_name_round_trip(server_id: Seq<char>, tool: Seq<char>)
    requires
        plain_server_id(server_id),
    ensures
        spec_parse_tool_name(mcp_tool_name(server_id, tool)) == Ok::<(Seq<char>, Seq<char>), Seq<char>>((server_id, tool)),
{
    let full = mcp_tool_name(server_id, tool);
    let rest = server_id + name_separator() + tool;
    assert(full =~= mcp_prefix() + rest);
    assert(mcp_prefix().is_prefix_of(full)) by {
        assert(full.subrange(0, 5) =~= mcp_prefix());
    }
    assert(full.subrange(5, full.len() as int) =~= rest);
    lemma_separator_position(server_id, tool);
    assert(rest.subrange(0, server_id.len() as int) =~= server_id);
    assert(rest.subrange(server_id.len() + 2int, rest.len() as int) =~= tool);
}

/// Server ids made by `generate_id` name their tools unambiguously.
pub proof fn law_generated_ids_are_plain(server_id: Seq<char>)
    requires
        is_uuid_text(server_id),
    ensures
        plain_server_id(server_id),
{
    assert forall|i: int| 0 <= i < server_id.len() - 1 implies !(#[trigger] server_id[i] == '_' && server_id[i + 1] == '_') by {
        assert(('0' <= server_id[i] <= '9') || ('a' <= server_id[i] <= 'f') || server_id[i] == '-');
    }
    assert(('0' <= server_id[35] <= '9') || ('a' <= server_id[35] <= 'f') || server_id[35] == '-');
}

/// `http://`
pub open spec fn http_scheme() -> Seq<char> {
    seq!['h', 't', 't', 'p', ':', '/', '/']
}

/// `https://`
pub open spec fn https_scheme() -> Seq<char> {
    seq!['h', 't', 't', 'p', 's', ':', '/', '/']
}

/// `://`
pub open spec fn scheme_separator() -> Seq<char> {
    seq![':', '/', '/']
}

/// Where the origin (scheme and authority) of `base` ends: at the first `/`
/// after `://`, or at the end; `None` where `base` has no `://`.
pub open spec fn origin_end(base: Seq<char>) -> Option<int> {
    match first_occurrence(base, scheme_separator()) {
        Some(i) => match first_occurrence(base.subrange(i + 3, base.len() as int), seq!['/']) {
            Some(j) => Some(i + 3 + j),
            None => Some(base.len() as int),
        },
        None => None,
    }
}

/// The POST endpoint announced by an SSE `endpoint` event with data `data`, for
/// a stream opened at `base`.
pub open spec fn spec_resolve_endpoint(base: Seq<char>, data: Seq<char>) -> Result<Seq<char>, Seq<char>> {
    let d = trim(data);
    if d.len() == 0 {
        Err("Empty endpoint event data"@)
    } else if http_scheme().is_prefix_of(d) || https_scheme().is_prefix_of(d) {
        Ok(d)
    } else {
        match origin_end(base) {
            Some(end) => Ok(base.subrange(0, end) + seq!['/'] + strip_leading(d, '/')),
            None => Err("Cannot resolve endpoint '"@ + d + "' against '"@ + base + "'"@),
        }
    }
}

/// The index of the first character at or after `lo` that is not `c`.
fn skip_char(v: &Vec<char>, c: char) -> (r: usize)
    ensures
        r <= v.len(),
        strip_leading(v@, c) == v@.subrange(r as int, v.len() as int),
{
    let n = v.len();
    let mut i: usize = 0;
    assert(v@.subrange(0, n as int) =~= v@);
    while i < n && v[i] == c
        invariant
            n == v.len(),
            i <= n,
            strip_leading(v@, c) == strip_leading(v@.subrange(i as int, n as int), c),
        decreases n - i,
    {
        assert(v@.subrange(i as int, n as int).drop_first() =~= v@.subrange(i + 1, n as int));
        i = i + 1;
    }
    proof {
        lemma_strip_stop(v@, c, i as int);
    }
    i
}

proof fn lemma_strip_stop(s: Seq<char>, c: char, i: int)
    requires
        0 <= i <= s.len(),
        i < s.len() ==> s[i] != c,
    ensures
        strip_leading(s.subrange(i, s.len() as int), c) == s.subrange(i, s.len() as int),
{
}

/// Resolves the POST endpoint of an SSE server from the data of its `endpoint`
/// event: an absolute URL is taken as it is, a path is joined to the origin of
/// `base_url`.
pub fn resolve_endpoint(base_url: &str, data: &str) -> (r: Result<String, String>)
    ensures
        match (r, spec_resolve_endpoint(base_url@, data@)) {
            (Ok(s), Ok(s2)) => s@ == s2,
            (Err(e), Err(e2)) => e@ == e2,
            _ => false,
        },
{
    let d = trim_str(data);
    let dv = to_chars(d.as_str());
    if dv.len() == 0 {
        return Err(owned("Empty endpoint event data"));
    }
    let http = to_chars("http://");
    let https = to_chars("https://");
    let sep = to_chars("://");
    proof {
        reveal_strlit("http://");
        reveal_strlit("https://");
        reveal_strlit("://");
        assert(http@ =~= http_scheme());
        assert(https@ =~= https_scheme());
        assert(sep@ =~= scheme_separator());
        assert(sep@.len() == 3);
    }
    if starts_with(&dv, &http) || starts_with(&dv, &https) {
        return Ok(d);
    }
    let bv = to_chars(base_url);
    match find(&bv, &sep) {
        Some(i) => {
            assert(occurs_at(bv@, sep@, i as int));
            assert(i + 3 <= bv.len());
            let tail_s = from_chars(&bv, i + 3, bv.len());
            let tail = to_chars(tail_s.as_str());
            let mut slash: Vec<char> = Vec::new();
            slash.push('/');
            assert(slash@ =~= seq!['/']);
            let end = match find(&tail, &slash) {
                Some(j) => i + 3 + j,
                None => bv.len(),
            };
            let mut out = from_chars(&bv, 0, end);
            crate::text::push_char(&mut out, '/');
            let k = skip_char(&dv, '/');
            let path = from_chars(&dv, k, dv.len());
            out.append(path.as_str());
            Ok(out)
        },
        None => {
            let mut e = concat("Cannot resolve endpoint '", d.as_str());
            e.append("' against '");
            e.append(base_url);
            e.append("'");
            Err(e)
        },
    }
}


/// A JSON-RPC 2.0 request.
pub open spec fn rpc_request(id: u64, method: Seq<char>, params: Json) -> Json {
    Json::Object(
        seq![
            ("jsonrpc"@, Json::Str("2.0"@)),
            ("id"@, Json::PosInt(id)),
            ("method"@, Json::Str(method)),
            ("params"@, params),
        ],
    )
}

/// A JSON-RPC 2.0 notification.
pub open spec fn rpc_notification(method: Seq<char>, params: Json) -> Json {
    Json::Object(
        seq![("jsonrpc"@, Json::Str("2.0"@)), ("method"@, Json::Str(method)), ("params"@, params)],
    )
}

/// The parameters of the `initialize` request.
pub open spec fn initialize_params() -> Json {
    Json::Object(
        seq![
            ("protocolVersion"@, Json::Str("2024-11-05"@)),
            ("capabilities"@, Json::Object(Seq::empty())),
            (
                "clientInfo"@,
                Json::Object(
                    seq![("name"@, Json::Str("Cast Client"@)), ("version"@, Json::Str("0.2.0"@))],
                ),
            ),
        ],
    )
}

/// The parameters of a `tools/call` request.
pub open spec fn tool_call_params(tool: Seq<char>, arguments: Json) -> Json {
    Json::Object(seq![("name"@, Json::Str(tool)), ("arguments"@, arguments)])
}

/// A JSON-RPC request with id `id`.
pub fn request(id: u64, method: &str, params: JsonValue) -> (r: JsonValue)
    ensures
        r@ == rpc_request(id, method@, params@),
{
    object4(
        entry("jsonrpc", string_value("2.0")),
        entry("id", JsonValue::Number(JsonNumber::PosInt(id))),
        entry("method", string_value(method)),
        entry("params", params),
    )
}

/// The `initialize` request, which always has id 1.
pub fn initialize_request() -> (r: JsonValue)
    ensures
        r@ == rpc_request(1, "initialize"@, initialize_params()),
{
    let info = object2(entry("name", string_value("Cast Client")), entry("version", string_value("0.2.0")));
    let params = object3(
        entry("protocolVersion", string_value("2024-11-05")),
        entry("capabilities", empty_object()),
        entry("clientInfo", info),
    );
    request(1, "initialize", params)
}

/// The `notifications/initialized` notification.
pub fn initialized_notification() -> (r: JsonValue)
    ensures
        r@ == rpc_notification("notifications/initialized"@, Json::Object(Seq::empty())),
{
    object3(
        entry("jsonrpc", string_value("2.0")),
        entry("method", string_value("notifications/initialized")),
        entry("params", empty_object()),
    )
}

/// The `tools/list` request, which always has id 2.
pub fn tools_list_request() -> (r: JsonValue)
    ensures
        r@ == rpc_request(2, "tools/list"@, Json::Object(Seq::empty())),
{
    request(2, "tools/list", empty_object())
}

/// The `tools/call` request calling `tool_name` with `arguments`.
pub fn tool_call_request(id: u64, tool_name: &str, arguments: JsonValue) -> (r: JsonValue)
    ensures
        r@ == rpc_request(id, "tools/call"@, tool_call_params(tool_name@, arguments@)),
{
    let params = object2(entry("name", string_value(tool_name)), entry("arguments", arguments));
    request(id, "tools/call", params)
}

/// Request ids of a connection; ids 1 and 2 go to the handshake.
#[derive(Debug)]
pub struct IdAllocator {
    pub next: u64,
}

impl IdAllocator {
    /// The allocator of a connection whose handshake is done: the next id is 3.
    pub fn after_handshake() -> (r: Self)
        ensures
            r.next == 3,
    {
        IdAllocator { next: 3 }
    }

    /// Hands out the next id.
    pub fn allocate_id(&mut self) -> (r: u64)
        requires
            old(self).next < u64::MAX,
        ensures
            r == old(self).next,
            final(self).next == old(self).next + 1,
    {
        let current = self.next;
        self.next = self.next + 1;
        current
    }
}

/// Ids handed out one after another are all different.
pub proof fn law_allocated_ids_distinct(first: u64, count: nat, i: nat, j: nat)
    requires
        i < count,
        j < count,
        i != j,
        first + count <= u64::MAX,
    ensures
        first + i != first + j,
{
}

/// The line written to a process for one message: its JSON text and a newline.
pub fn frame_message(v: &JsonValue) -> (r: String)
    ensures
        r@ == spec_json_text(v@).push('\n'),
{
    let mut line = json_text(v);
    crate::text::push_char(&mut line, '\n');
    line
}

/// What is made of a line read from a process: `read_line` gives an empty line
/// only at the end of the stream.
pub fn line_from_stdout(line: &str) -> (r: Result<String, String>)
    ensures
        line@.len() == 0 ==> (r matches Err(e) && e@ == "Server closed stdout"@),
        line@.len() != 0 ==> (r matches Ok(s) && s@ == trim(line@)),
{
    if line.is_empty() {
        Err(owned("Server closed stdout"))
    } else {
        Ok(trim_str(line))
    }
}

/// Parses one JSON-RPC message.
pub fn parse_jsonrpc(line: &str) -> (r: Result<JsonValue, String>)
    ensures
        r matches Ok(v) ==> spec_json_parse(line@) == Some(v@),
        r is Err ==> spec_json_parse(line@) is None,
        r matches Err(e) ==> "Failed to parse JSON-RPC message: "@.is_prefix_of(e@) && (", raw: "@ + line@).is_suffix_of(e@),
{
    match json_parse(line) {
        Ok(v) => Ok(v),
        Err(e) => {
            let mut m = owned("Failed to parse JSON-RPC message: ");
            let detail = json_error_text(&e);
            m.append(detail.as_str());
            m.append(", raw: ");
            m.append(line);
            proof {
                let a = "Failed to parse JSON-RPC message: "@;
                let b = ", raw: "@ + line@;
                assert(m@ =~= a + detail@ + b);
                assert(m@.subrange(0, a.len() as int) =~= a);
                assert(m@.subrange(m@.len() - b.len(), m@.len() as int) =~= b);
            }
            Err(m)
        },
    }
}

/// The error a JSON-RPC response reports, if it has an `error` member:
/// `MCP {what} error: {error}`.
pub open spec fn spec_rpc_error(response: Json, what: Seq<char>) -> Option<Seq<char>> {
    match json_get(response, "error"@) {
        Some(e) => Some("MCP "@ + what + " error: "@ + spec_json_text(e)),
        None => None,
    }
}

/// The error a JSON-RPC response reports, if any.
pub fn rpc_error(response: &JsonValue, what: &str) -> (r: Option<String>)
    ensures
        r matches Some(m) ==> spec_rpc_error(response@, what@) == Some(m@),
        r is None ==> spec_rpc_error(response@, what@) is None,
{
    match response.get("error") {
        Some(e) => {
            let mut m = concat("MCP ", what);
            m.append(" error: ");
            let t = json_text(e);
            m.append(t.as_str());
            Some(m)
        },
        None => None,
    }
}

/// The tool described by one element of a `tools/list` result: it needs a
/// string `name`; the description defaults to empty and a schema that is not
/// an object to `{}`.
pub open spec fn tool_from_json(server_id: Seq<char>, t: Json) -> Option<McpToolModel> {
    match json_as_str(json_field(t, "name"@)) {
        Some(name) => Some(
            McpToolModel {
                server_id,
                name,
                description: Some(
                    match json_as_str(json_field(t, "description"@)) {
                        Some(d) => d,
                        None => Seq::empty(),
                    },
                ),
                input_schema: match json_field(t, "inputSchema"@) {
                    Json::Object(m) => Json::Object(m),
                    _ => Json::Object(Seq::empty()),
                },
            },
        ),
        None => None,
    }
}

/// The tools described by the elements of a `tools/list` result, in order,
/// skipping those without a name.
pub open spec fn tools_from_json(server_id: Seq<char>, items: Seq<Json>) -> Seq<McpToolModel>
    decreases items.len(),
{
    if items.len() == 0 {
        Seq::empty()
    } else {
        let prev = tools_from_json(server_id, items.drop_last());
        match tool_from_json(server_id, items.last()) {
            Some(t) => prev.push(t),
            None => prev,
        }
    }
}

/// The contents of a list of tools.
pub open spec fn tools_view(v: Seq<McpServerTool>) -> Seq<McpToolModel> {
    v.map_values(|t: McpServerTool| t@)
}

/// What a `tools/list` response gives: its error, the tools of
/// `result.tools`, or `no_tools` where that is not an array.
pub open spec fn spec_tools_list(server_id: Seq<char>, response: Json, no_tools: Seq<char>) -> Result<Seq<McpToolModel>, Seq<char>> {
    match spec_rpc_error(response, "tools/list"@) {
        Some(e) => Err(e),
        None => match json_field(json_field(response, "result"@), "tools"@) {
            Json::Array(items) => Ok(tools_from_json(server_id, items)),
            _ => Err(no_tools),
        },
    }
}

/// The tool described by one element of a `tools/list` result.
pub fn tool_from_value(server_id: &str, t: &JsonValue) -> (r: Option<McpServerTool>)
    ensures
        r matches Some(x) ==> tool_from_json(server_id@, t@) == Some(x@),
        r is None ==> tool_from_json(server_id@, t@) is None,
{
    let name_v = t.field("name");
    let name = match name_v.as_str() {
        Some(n) => n.clone(),
        None => return None,
    };
    let desc_v = t.field("description");
    let description = match desc_v.as_str() {
        Some(d) => d.clone(),
        None => String::new(),
    };
    let schema_v = t.field("inputSchema");
    let input_schema = match schema_v {
        JsonValue::Object(m) => JsonValue::Object(m),
        _ => empty_object(),
    };
    Some(McpServerTool { server_id: owned(server_id), name, description: Some(description), input_schema })
}

/// The tools of a `tools/list` response, or the error to report;
/// `no_tools` is the error where the response has no array of tools.
pub fn parse_tools_list(server_id: &str, response: &JsonValue, no_tools: &str) -> (r: Result<Vec<McpServerTool>, String>)
    ensures
        match (r, spec_tools_list(server_id@, response@, no_tools@)) {
            (Ok(v), Ok(s)) => tools_view(v@) == s,
            (Err(e), Err(e2)) => e@ == e2,
            _ => false,
        },
{
    if let Some(e) = rpc_error(response, "tools/list") {
        return Err(e);
    }
    let result = response.field("result");
    let tools = result.field("tools");
    match &tools {
        JsonValue::Array(items) => {
            proof {
                lemma_items_model(items@);
            }
            let ghost model = crate::json::items_model(items@);
            let mut out: Vec<McpServerTool> = Vec::new();
            let mut i: usize = 0;
            while i < items.len()
                invariant
                    i <= items.len(),
                    model == crate::json::items_model(items@),
                    model.len() == items@.len(),
                    forall|j: int| 0 <= j < items@.len() ==> #[trigger] model[j] == items@[j]@,
                    tools_view(out@) == tools_from_json(server_id@, model.subrange(0, i as int)),
                decreases items.len() - i,
            {
                let ghost before = out@;
                assert(model.subrange(0, i + 1).drop_last() =~= model.subrange(0, i as int));
                match tool_from_value(server_id, &items[i]) {
                    Some(t) => {
                        out.push(t);
                        assert(tools_view(out@) =~= tools_view(before).push(out@.last()@));
                    },
                    None => {},
                }
                i = i + 1;
            }
            assert(model.subrange(0, items@.len() as int) =~= model);
            Ok(out)
        },
        _ => Err(owned(no_tools)),
    }
}

/// Where the handshake with a stdio or SSE server stands.
#[derive(Debug, Clone, Copy, PartialEq, Eq, Structural)]
pub enum HandshakePhase {
    /// `initialize` was sent; its response is awaited.
    Initializing,
    /// The server was told it is initialized and `tools/list` was sent; its
    /// response is awaited.
    Listing,
}

/// What the caller does next in a handshake.
#[derive(Debug)]
pub enum HandshakeAction {
    /// Send the request and report its response.
    Request(JsonValue),
    /// Send the notification, then the request, and report the request's response.
    NotifyThenRequest(JsonValue, JsonValue),
    /// The handshake is over; these are the server's tools.
    Finished(Vec<McpServerTool>),
    /// The handshake failed with this message.
    Failed(String),
}

/// A handshake begins by sending `initialize`.
pub fn start_handshake() -> (r: (HandshakePhase, HandshakeAction))
    ensures
        r.0 == HandshakePhase::Initializing,
        r.1 matches HandshakeAction::Request(q) && q@ == rpc_request(1, "initialize"@, initialize_params()),
{
    (HandshakePhase::Initializing, HandshakeAction::Request(initialize_request()))
}

/// Takes the response to the last request of a handshake and decides what
/// comes next: after `initialize`, the server's error ends the handshake, and
/// otherwise the `initialized` notification and `tools/list` follow; after
/// `tools/list`, its tools end the handshake (`no_tools` is the error where
/// the response has no array of tools).
pub fn handshake_step(phase: HandshakePhase, server_id: &str, response: &JsonValue, no_tools: &str) -> (r: (HandshakePhase, HandshakeAction))
    ensures
        phase == HandshakePhase::Initializing ==> match spec_rpc_error(response@, "initialize"@) {
            Some(m) => r.1 matches HandshakeAction::Failed(e) && e@ == m,
            None => {
                &&& r.0 == HandshakePhase::Listing
                &&& r.1 matches HandshakeAction::NotifyThenRequest(n, q)
                    && n@ == rpc_notification("notifications/initialized"@, Json::Object(Seq::empty()))
                    && q@ == rpc_request(2, "tools/list"@, Json::Object(Seq::empty()))
            },
        },
        phase == HandshakePhase::Listing ==> match spec_tools_list(server_id@, response@, no_tools@) {
            Ok(s) => r.1 matches HandshakeAction::Finished(v) && tools_view(v@) == s,
            Err(m) => r.1 matches HandshakeAction::Failed(e) && e@ == m,
        },
{
    match phase {
        HandshakePhase::Initializing => match rpc_error(response, "initialize") {
            Some(e) => (phase, HandshakeAction::Failed(e)),
            None => (
                HandshakePhase::Listing,
                HandshakeAction::NotifyThenRequest(initialized_notification(), tools_list_request()),
            ),
        },
        HandshakePhase::Listing => match parse_tools_list(server_id, response, no_tools) {
            Ok(v) => (phase, HandshakeAction::Finished(v)),
            Err(e) => (phase, HandshakeAction::Failed(e)),
        },
    }
}

/// The type of tool results in `rmcp`, carried opaquely.
#[verifier::external_type_specification]
#[verifier::external_body]
pub struct ExCallToolResult(rmcp::model::CallToolResult);

/// What `serde_json::from_value::<rmcp::model::CallToolResult>` gives for a JSON
/// value: the tool result, or the text of serde's error.
pub uninterp spec fn spec_call_tool_result(v: Json) -> Result<rmcp::model::CallToolResult, Seq<char>>;

/// Deserializes an `rmcp::model::CallToolResult` with `serde_json::from_value`,
/// turning serde's error into its display text. The contract claims only that
/// the outcome is a function of the value (the name above): serde's derived
/// deserializer is deterministic and does not panic.
#[verifier::external_body]
fn call_tool_result_from_json(v: &JsonValue) -> (r: Result<rmcp::model::CallToolResult, String>)
    ensures
        r matches Ok(c) ==> (spec_call_tool_result(v@) matches Ok(d) && d == c),
        r matches Err(e) ==> (spec_call_tool_result(v@) matches Err(t) && t == e@),
{
    match serde_json::from_value(to_serde(v)) {
        Ok(c) => Ok(c),
        Err(e) => Err(e.to_string()),
    }
}

/// What becomes of a parsed tool result: kept as it is, or its parse error
/// reported as `Failed to parse CallToolResult: ` and serde's text.
pub open spec fn spec_call_tool_outcome(parsed: Result<rmcp::model::CallToolResult, Seq<char>>) -> Result<rmcp::model::CallToolResult, Seq<char>> {
    match parsed {
        Ok(c) => Ok(c),
        Err(t) => Err("Failed to parse CallToolResult: "@ + t),
    }
}

/// Turns the outcome of parsing a tool result into the tool call's result.
pub fn call_tool_outcome(parsed: Result<rmcp::model::CallToolResult, String>) -> (r: Result<rmcp::model::CallToolResult, String>)
    ensures
        parsed matches Ok(c) ==> (r matches Ok(d) && d == c),
        parsed matches Err(t) ==> (r matches Err(e) && e@ == "Failed to parse CallToolResult: "@ + t@),
{
    match parsed {
        Ok(c) => Ok(c),
        Err(t) => {
            let mut m = owned("Failed to parse CallToolResult: ");
            m.append(t.as_str());
            Err(m)
        },
    }
}

/// What `execute_tool` makes of the response to a `tools/call` request: the
/// server's error, a missing result, or the parsed `result` member.
pub open spec fn spec_tool_call_result(response: Json) -> Result<rmcp::model::CallToolResult, Seq<char>> {
    match spec_rpc_error(response, "tool"@) {
        Some(m) => Err(m),
        None => match json_get(response, "result"@) {
            None => Err("No result in tool response"@),
            Some(x) => spec_call_tool_outcome(spec_call_tool_result(x)),
        },
    }
}

/// Turns the response to a `tools/call` request into the tool's result: a
/// response with an `error` member, or without a `result`, is an error; the
/// `result` member is parsed as a `CallToolResult`.
pub fn jsonrpc_result_to_call_tool_result(response: &JsonValue) -> (r: Result<rmcp::model::CallToolResult, String>)
    ensures
        r matches Ok(c) ==> (spec_tool_call_result(response@) matches Ok(d) && d == c),
        r matches Err(e) ==> (spec_tool_call_result(response@) matches Err(t) && t == e@),
{
    if let Some(e) = rpc_error(response, "tool") {
        return Err(e);
    }
    let result = match response.get("result") {
        Some(x) => x,
        None => return Err(owned("No result in tool response")),
    };
    call_tool_outcome(call_tool_result_from_json(result))
}

/// The id of a request, which must be a non-negative integer.
pub fn request_id(request: &JsonValue) -> (r: Result<u64, String>)
    ensures
        json_as_u64(json_field(request@, "id"@)) matches Some(n) ==> r == Ok::<u64, String>(n),
        json_as_u64(json_field(request@, "id"@)) is None ==> (r matches Err(e) && e@ == "Request has no numeric id"@),
{
    let id = request.field("id");
    match id.as_u64() {
        Some(n) => Ok(n),
        None => Err(owned("Request has no numeric id")),
    }
}

/// The response an SSE event carries, with the id of the request it answers:
/// only `message` events (or unnamed ones) whose data is JSON with a numeric `id`.
pub open spec fn spec_sse_response(event: Seq<char>, data: Seq<char>) -> Option<(u64, Json)> {
    if event != "message"@ && event.len() != 0 {
        None
    } else {
        match spec_json_parse(data) {
            Some(v) => match json_get(v, "id"@) {
                Some(id) => match json_as_u64(id) {
                    Some(n) => Some((n, v)),
                    None => None,
                },
                None => None,
            },
            None => None,
        }
    }
}

/// The response an SSE event carries and the id of the request it answers.
pub fn sse_response(event: &str, data: &str) -> (r: Option<(u64, JsonValue)>)
    ensures
        r matches Some((n, v)) ==> spec_sse_response(event@, data@) == Some((n, v@)),
        r is None ==> spec_sse_response(event@, data@) is None,
{
    let name = owned(event);
    let message = owned("message");
    if !(name == message) && !event.is_empty() {
        return None;
    }
    let v = match json_parse(data) {
        Ok(v) => v,
        Err(_) => return None,
    };
    let n = match v.get("id") {
        Some(id) => match id.as_u64() {
            Some(n) => n,
            None => return None,
        },
        None => return None,
    };
    Some((n, v))
}


/// The texts of a list of strings.
pub open spec fn texts(v: Seq<String>) -> Seq<Seq<char>> {
    v.map_values(|s: String| s@)
}

/// `parts` joined with single spaces.
pub open spec fn join_space(parts: Seq<Seq<char>>) -> Seq<char>
    decreases parts.len(),
{
    if parts.len() == 0 {
        Seq::empty()
    } else if parts.len() == 1 {
        parts[0]
    } else {
        join_space(parts.drop_last()) + seq![' '] + parts.last()
    }
}

/// `parts.join(" ")`.
pub fn join_with_space(parts: &Vec<String>) -> (r: String)
    ensures
        r@ == join_space(texts(parts@)),
{
    let mut r = String::new();
    let mut i: usize = 0;
    while i < parts.len()
        invariant
            i <= parts.len(),
            r@ == join_space(texts(parts@.subrange(0, i as int))),
        decreases parts.len() - i,
    {
        let ghost prev = texts(parts@.subrange(0, i as int));
        let ghost next = texts(parts@.subrange(0, i + 1));
        assert(next.drop_last() =~= prev);
        assert(next.last() == parts@[i as int]@);
        if i > 0 {
            crate::text::push_char(&mut r, ' ');
        }
        r.append(parts[i].as_str());
        i = i + 1;
    }
    assert(parts@.subrange(0, parts@.len() as int) =~= parts@);
    r
}

/// How a local server is started: a command starting with `npx` runs through
/// `cmd.exe /c` with the command and its arguments as one string; any other
/// command runs directly with its arguments.
pub open spec fn spec_launch(command: Seq<char>, args: Seq<Seq<char>>) -> (Seq<char>, Seq<Seq<char>>) {
    if seq!['n', 'p', 'x'].is_prefix_of(trim(command)) {
        ("cmd.exe"@, seq!["/c"@, command + seq![' '] + join_space(args)])
    } else {
        (command, args)
    }
}

/// The program and arguments that start a local server.
pub fn stdio_launch(command: &str, args: &Vec<String>) -> (r: (String, Vec<String>))
    ensures
        (r.0@, texts(r.1@)) == spec_launch(command@, texts(args@)),
{
    let trimmed = trim_str(command);
    let tv = to_chars(trimmed.as_str());
    let npx = to_chars("npx");
    proof {
        reveal_strlit("npx");
        assert(npx@ =~= seq!['n', 'p', 'x']);
    }
    if starts_with(&tv, &npx) {
        let mut full = owned(command);
        crate::text::push_char(&mut full, ' ');
        let joined = join_with_space(args);
        full.append(joined.as_str());
        assert(full@ =~= command@ + seq![' '] + join_space(texts(args@)));
        let mut out: Vec<String> = Vec::new();
        out.push(owned("/c"));
        out.push(full);
        assert(texts(out@)[0] == "/c"@);
        assert(texts(out@)[1] == command@ + seq![' '] + join_space(texts(args@)));
        assert(texts(out@) =~= seq!["/c"@, command@ + seq![' '] + join_space(texts(args@))]);
        (owned("cmd.exe"), out)
    } else {
        let mut out: Vec<String> = Vec::new();
        let mut i: usize = 0;
        while i < args.len()
            invariant
                i <= args.len(),
                texts(out@) == texts(args@.subrange(0, i as int)),
            decreases args.len() - i,
        {
            let ghost before = out@;
            out.push(args[i].clone());
            assert(out@ == before.push(out@.last()));
            assert(texts(out@) =~= texts(before).push(args@[i as int]@));
            assert(texts(args@.subrange(0, i + 1)) =~= texts(args@.subrange(0, i as int)).push(args@[i as int]@));
            i = i + 1;
        }
        assert(args@.subrange(0, args@.len() as int) =~= args@);
        (owned(command), out)
    }
}

/// The position of the first configuration with id `id`.
pub open spec fn index_of_id(s: Seq<McpServerConfig>, id: Seq<char>) -> Option<int>
    decreases s.len(),
{
    if s.len() == 0 {
        None
    } else if s[0].id@ == id {
        Some(0)
    } else {
        match index_of_id(s.drop_first(), id) {
            Some(i) => Some(i + 1),
            None => None,
        }
    }
}

/// The position of the first configuration with id `id`.
pub fn find_config(configs: &Vec<McpServerConfig>, id: &str) -> (r: Option<usize>)
    ensures
        r matches Some(i) ==> index_of_id(configs@, id@) == Some(i as int) && i < configs@.len(),
        r is None ==> index_of_id(configs@, id@) is None,
{
    let key = owned(id);
    let mut i: usize = 0;
    assert(configs@.skip(0) =~= configs@);
    while i < configs.len()
        invariant
            i <= configs.len(),
            key@ == id@,
            forall|j: int| 0 <= j < i ==> configs@[j].id@ != id@,
            index_of_id(configs@, id@) == match index_of_id(configs@.skip(i as int), id@) {
                Some(k) => Some(k + i),
                None => None,
            },
        decreases configs.len() - i,
    {
        assert(configs@.skip(i as int).drop_first() =~= configs@.skip(i + 1));
        assert(configs@.skip(i as int)[0] == configs@[i as int]);
        if configs[i].id == key {
            return Some(i);
        }
        i = i + 1;
    }
    None
}

/// What happens to a server's connection when its configuration changes.
#[derive(Debug, Clone, Copy, PartialEq, Eq, Structural)]
pub enum ConnectionChange {
    /// It was enabled and is now disabled.
    Disconnect,
    /// It was disabled (or unknown) and is now enabled.
    Connect,
    /// It stays enabled: connect again with the new configuration.
    Reconnect,
    /// It stays disabled.
    Keep,
}

/// The change of connection from the old `enabled` flag to the new one.
pub open spec fn change_for(was_enabled: bool, enabled: bool) -> ConnectionChange {
    if was_enabled && !enabled {
        ConnectionChange::Disconnect
    } else if !was_enabled && enabled {
        ConnectionChange::Connect
    } else if was_enabled && enabled {
        ConnectionChange::Reconnect
    } else {
        ConnectionChange::Keep
    }
}

/// Whether the configuration with id `id` was enabled (false where there is none).
pub open spec fn was_enabled(s: Seq<McpServerConfig>, id: Seq<char>) -> bool {
    match index_of_id(s, id) {
        Some(i) => s[i].enabled,
        None => false,
    }
}

/// Stores `config`, replacing the first configuration with the same id or
/// appending it, and says what to do with the server's connection.
pub fn update_server_config(configs: &mut Vec<McpServerConfig>, config: McpServerConfig) -> (r: ConnectionChange)
    ensures
        r == change_for(was_enabled(old(configs)@, config.id@), config.enabled),
        match index_of_id(old(configs)@, config.id@) {
            Some(i) => final(configs)@ == old(configs)@.update(i, config),
            None => final(configs)@ == old(configs)@.push(config),
        },
{
    let enabled = config.enabled;
    let found = find_config(configs, config.id.as_str());
    let was = match found {
        Some(i) => configs[i].enabled,
        None => false,
    };
    match found {
        Some(i) => {
            configs.set(i, config);
        },
        None => {
            configs.push(config);
        },
    }
    if was && !enabled {
        ConnectionChange::Disconnect
    } else if !was && enabled {
        ConnectionChange::Connect
    } else if was && enabled {
        ConnectionChange::Reconnect
    } else {
        ConnectionChange::Keep
    }
}

/// The configurations whose id is not `id`, in order.
pub open spec fn without_id(s: Seq<McpServerConfig>, id: Seq<char>) -> Seq<McpServerConfig>
    decreases s.len(),
{
    if s.len() == 0 {
        s
    } else if s.last().id@ != id {
        without_id(s.drop_last(), id).push(s.last())
    } else {
        without_id(s.drop_last(), id)
    }
}

/// Drops every configuration with id `id`.
pub fn remove_server(configs: &mut Vec<McpServerConfig>, id: &str)
    ensures
        final(configs)@ == without_id(old(configs)@, id@),
{
    let key = owned(id);
    let mut old_items: Vec<McpServerConfig> = Vec::new();
    std::mem::swap(configs, &mut old_items);
    let ghost orig = old_items@;
    for c in it: old_items.into_iter()
        invariant
            it.seq() == orig,
            key@ == id@,
            configs@ == without_id(orig.take(it.index() as int), id@),
    {
        assert(orig.take(it.index() + 1).drop_last() =~= orig.take(it.index() as int));
        if !(c.id == key) {
            configs.push(c);
        }
    }
    assert(orig.take(orig.len() as int) =~= orig);
}


/// The tools whose server is not `server_id`, in order.
pub open spec fn without_server(s: Seq<McpServerTool>, server_id: Seq<char>) -> Seq<McpServerTool>
    decreases s.len(),
{
    if s.len() == 0 {
        s
    } else if s.last().server_id@ != server_id {
        without_server(s.drop_last(), server_id).push(s.last())
    } else {
        without_server(s.drop_last(), server_id)
    }
}

/// Drops every tool of server `server_id`, as disconnecting the server does.
pub fn remove_server_tools(tools: &mut Vec<McpServerTool>, server_id: &str)
    ensures
        final(tools)@ == without_server(old(tools)@, server_id@),
{
    let key = owned(server_id);
    let mut old_items: Vec<McpServerTool> = Vec::new();
    std::mem::swap(tools, &mut old_items);
    let ghost orig = old_items@;
    for t in it: old_items.into_iter()
        invariant
            it.seq() == orig,
            key@ == server_id@,
            tools@ == without_server(orig.take(it.index() as int), server_id@),
    {
        assert(orig.take(it.index() + 1).drop_last() =~= orig.take(it.index() as int));
        if !(t.server_id == key) {
            tools.push(t);
        }
    }
    assert(orig.take(orig.len() as int) =~= orig);
}

/// The positions of the enabled configurations, in order.
pub open spec fn enabled_positions(s: Seq<McpServerConfig>) -> Seq<int>
    decreases s.len(),
{
    if s.len() == 0 {
        Seq::empty()
    } else if s.last().enabled {
        enabled_positions(s.drop_last()).push(s.len() - 1)
    } else {
        enabled_positions(s.drop_last())
    }
}

/// The positions of the servers to connect at start-up: the enabled ones, in order.
pub fn servers_to_connect(configs: &Vec<McpServerConfig>) -> (r: Vec<usize>)
    ensures
        r@.map_values(|i: usize| i as int) == enabled_positions(configs@),
{
    let mut out: Vec<usize> = Vec::new();
    let mut i: usize = 0;
    while i < configs.len()
        invariant
            i <= configs.len(),
            out@.map_values(|k: usize| k as int) == enabled_positions(configs@.subrange(0, i as int)),
        decreases configs.len() - i,
    {
        let ghost before = out@;
        assert(configs@.subrange(0, i + 1).drop_last() =~= configs@.subrange(0, i as int));
        if configs[i].enabled {
            out.push(i);
            assert(out@.map_values(|k: usize| k as int) =~= before.map_values(|k: usize| k as int).push(i as int));
        }
        i = i + 1;
    }
    assert(configs@.subrange(0, configs@.len() as int) =~= configs@);
    out
}

/// `index_of_id` finds a configuration with that id, and none before it.
proof fn lemma_index_of_id(s: Seq<McpServerConfig>, id: Seq<char>)
    ensures
        index_of_id(s, id) matches Some(i) ==> 0 <= i < s.len() && s[i].id@ == id && forall|j: int| 0 <= j < i ==> s[j].id@ != id,
        index_of_id(s, id) is None ==> forall|j: int| 0 <= j < s.len() ==> s[j].id@ != id,
    decreases s.len(),
{
    if s.len() > 0 {
        lemma_index_of_id(s.drop_first(), id);
        if s[0].id@ != id {
            assert forall|j: int| 0 < j < s.len() implies s[j] == s.drop_first()[j - 1] by {}
        }
    }
}

/// After a configuration is stored, looking up its id gives it back.
pub proof fn law_update_then_lookup(configs: Seq<McpServerConfig>, config: McpServerConfig)
    ensures
        ({
            let after = match index_of_id(configs, config.id@) {
                Some(i) => configs.update(i, config),
                None => configs.push(config),
            };
            index_of_id(after, config.id@) matches Some(k) && after[k] == config
        }),
{
    lemma_index_of_id(configs, config.id@);
    let after = match index_of_id(configs, config.id@) {
        Some(i) => configs.update(i, config),
        None => configs.push(config),
    };
    lemma_index_of_id(after, config.id@);
    match index_of_id(configs, config.id@) {
        Some(i) => {
            assert(after[i].id@ == config.id@);
        },
        None => {
            assert(after[configs.len() as int].id@ == config.id@);
        },
    }
}

/// After a server is removed, no configuration with its id is left, and every
/// configuration kept was there before.
pub proof fn law_remove_leaves_none(configs: Seq<McpServerConfig>, id: Seq<char>)
    ensures
        forall|i: int| 0 <= i < without_id(configs, id).len() ==> without_id(configs, id)[i].id@ != id,
        forall|i: int| 0 <= i < without_id(configs, id).len() ==> configs.contains(#[trigger] without_id(configs, id)[i]),
    decreases configs.len(),
{
    if configs.len() > 0 {
        law_remove_leaves_none(configs.drop_last(), id);
        let prev = without_id(configs.drop_last(), id);
        assert forall|i: int| 0 <= i < prev.len() implies configs.contains(#[trigger] prev[i]) by {
            let k = choose|k: int| 0 <= k < configs.drop_last().len() && configs.drop_last()[k] == prev[i];
            assert(configs[k] == prev[i]);
        }
        if configs.last().id@ != id {
            assert(configs[configs.len() - 1] == configs.last());
        }
    }
}

/// Removing a server twice is removing it once.
pub proof fn law_remove_server_idempotent(configs: Seq<McpServerConfig>, id: Seq<char>)
    ensures
        without_id(without_id(configs, id), id) == without_id(configs, id),
    decreases configs.len(),
{
    if configs.len() > 0 {
        law_remove_server_idempotent(configs.drop_last(), id);
        let prev = without_id(configs.drop_last(), id);
        if configs.last().id@ != id {
            assert(prev.push(configs.last()).drop_last() =~= prev);
        }
    }
}

/// Disconnecting a server twice drops its tools once: the second time changes
/// nothing.
pub proof fn law_remove_server_tools_idempotent(tools: Seq<McpServerTool>, server_id: Seq<char>)
    ensures
        without_server(without_server(tools, server_id), server_id) == without_server(tools, server_id),
    decreases tools.len(),
{
    if tools.len() > 0 {
        law_remove_server_tools_idempotent(tools.drop_last(), server_id);
        let prev = without_server(tools.drop_last(), server_id);
        if tools.last().server_id@ != server_id {
            assert(prev.push(tools.last()).drop_last() =~= prev);
        }
    }
}

/// The tools of server `server_id`, in order.
pub open spec fn of_server(s: Seq<McpServerTool>, server_id: Seq<char>) -> Seq<McpServerTool>
    decreases s.len(),
{
    if s.len() == 0 {
        s
    } else if s.last().server_id@ == server_id {
        of_server(s.drop_last(), server_id).push(s.last())
    } else {
        of_server(s.drop_last(), server_id)
    }
}

/// Adds the tools a connection listed to those offered.
pub fn add_server_tools(tools: &mut Vec<McpServerTool>, listed: Vec<McpServerTool>)
    ensures
        final(tools)@ == old(tools)@ + listed@,
{
    let mut listed = listed;
    tools.append(&mut listed);
}

/// The tools offered once a configuration change is carried out: a
/// disconnection drops the server's tools, a connection adds those it listed
/// (`None` where connecting failed), and a reconnection does both in turn.
pub open spec fn tools_after_change(
    tools: Seq<McpServerTool>,
    change: ConnectionChange,
    server_id: Seq<char>,
    listed: Option<Seq<McpServerTool>>,
) -> Seq<McpServerTool> {
    let added = match listed {
        Some(l) => l,
        None => Seq::empty(),
    };
    match change {
        ConnectionChange::Disconnect => without_server(tools, server_id),
        ConnectionChange::Connect => tools + added,
        ConnectionChange::Reconnect => without_server(tools, server_id) + added,
        ConnectionChange::Keep => tools,
    }
}

proof fn lemma_filters_concat(a: Seq<McpServerTool>, b: Seq<McpServerTool>, server_id: Seq<char>)
    ensures
        without_server(a + b, server_id) == without_server(a, server_id) + without_server(b, server_id),
        of_server(a + b, server_id) == of_server(a, server_id) + of_server(b, server_id),
    decreases b.len(),
{
    if b.len() == 0 {
        assert(a + b =~= a);
        assert(without_server(a, server_id) + without_server(b, server_id) =~= without_server(a, server_id));
        assert(of_server(a, server_id) + of_server(b, server_id) =~= of_server(a, server_id));
    } else {
        lemma_filters_concat(a, b.drop_last(), server_id);
        assert((a + b).drop_last() =~= a + b.drop_last());
        assert((a + b).last() == b.last());
        let w = without_server(a, server_id);
        let o = of_server(a, server_id);
        assert((w + without_server(b.drop_last(), server_id)).push(b.last()) =~= w + without_server(b.drop_last(), server_id).push(b.last()));
        assert((o + of_server(b.drop_last(), server_id)).push(b.last()) =~= o + of_server(b.drop_last(), server_id).push(b.last()));
    }
}

proof fn lemma_filters_all_of(s: Seq<McpServerTool>, server_id: Seq<char>)
    requires
        forall|i: int| 0 <= i < s.len() ==> (#[trigger] s[i]).server_id@ == server_id,
    ensures
        without_server(s, server_id) == Seq::<McpServerTool>::empty(),
        of_server(s, server_id) == s,
    decreases s.len(),
{
    if s.len() > 0 {
        lemma_filters_all_of(s.drop_last(), server_id);
        assert(s[s.len() - 1] == s.last());
        assert(s.drop_last().push(s.last()) =~= s);
    }
}

proof fn lemma_filters_none_of(s: Seq<McpServerTool>, server_id: Seq<char>)
    requires
        forall|i: int| 0 <= i < s.len() ==> (#[trigger] s[i]).server_id@ != server_id,
    ensures
        without_server(s, server_id) == s,
        of_server(s, server_id) == Seq::<McpServerTool>::empty(),
    decreases s.len(),
{
    if s.len() > 0 {
        lemma_filters_none_of(s.drop_last(), server_id);
        assert(s[s.len() - 1] == s.last());
        assert(s.drop_last().push(s.last()) =~= s);
    }
}

proof fn lemma_none_of_after_removal(s: Seq<McpServerTool>, server_id: Seq<char>)
    ensures
        of_server(without_server(s, server_id), server_id) == Seq::<McpServerTool>::empty(),
        without_server(without_server(s, server_id), server_id) == without_server(s, server_id),
    decreases s.len(),
{
    if s.len() > 0 {
        lemma_none_of_after_removal(s.drop_last(), server_id);
        let prev = without_server(s.drop_last(), server_id);
        if s.last().server_id@ != server_id {
            assert(prev.push(s.last()).drop_last() =~= prev);
        }
    }
}

/// Storing a configuration and carrying out the change it calls for leaves one
/// set of tools for the server: a disabled server has none; enabling it, or
/// changing an enabled one, leaves exactly the tools the new connection listed
/// (none if it failed), never the old ones beside them; a server that stays
/// disabled changes nothing. The tools of other servers are untouched. (A disabled server has no tools, and a
/// connection lists only tools of its own server.)
pub proof fn law_update_leaves_one_set_of_tools(
    configs: Seq<McpServerConfig>,
    config: McpServerConfig,
    tools: Seq<McpServerTool>,
    listed: Option<Seq<McpServerTool>>,
)
    requires
        !was_enabled(configs, config.id@) ==> forall|i: int| 0 <= i < tools.len() ==> (#[trigger] tools[i]).server_id@ != config.id@,
        listed matches Some(l) ==> forall|i: int| 0 <= i < l.len() ==> (#[trigger] l[i]).server_id@ == config.id@,
    ensures
        ({
            let id = config.id@;
            let change = change_for(was_enabled(configs, id), config.enabled);
            let after = tools_after_change(tools, change, id, listed);
            let added = match listed {
                Some(l) => l,
                None => Seq::<McpServerTool>::empty(),
            };
            &&& without_server(after, id) == without_server(tools, id)
            &&& (!config.enabled ==> of_server(after, id) == Seq::<McpServerTool>::empty())
            &&& (config.enabled ==> of_server(after, id) == added)
            &&& (!was_enabled(configs, id) && !config.enabled ==> after == tools)
        }),
{
    let id = config.id@;
    let added = match listed {
        Some(l) => l,
        None => Seq::<McpServerTool>::empty(),
    };
    if let Some(l) = listed {
        lemma_filters_all_of(l, id);
    } else {
        lemma_filters_all_of(added, id);
    }
    lemma_none_of_after_removal(tools, id);
    lemma_filters_concat(tools, added, id);
    lemma_filters_concat(without_server(tools, id), added, id);
    if !was_enabled(configs, id) {
        lemma_filters_none_of(tools, id);
    }
    assert(without_server(tools, id) + Seq::<McpServerTool>::empty() =~= without_server(tools, id));
    assert(Seq::<McpServerTool>::empty() + added =~= added);
    let w = was_enabled(configs, id);
    let after = tools_after_change(tools, change_for(w, config.enabled), id, listed);
    if w && !config.enabled {
        assert(after == without_server(tools, id));
    } else if !w && config.enabled {
        assert(after == tools + added);
        assert(of_server(tools, id) == Seq::<McpServerTool>::empty());
        assert(without_server(added, id) == Seq::<McpServerTool>::empty());
        assert(without_server(after, id) == without_server(tools, id) + Seq::<McpServerTool>::empty());
        assert(of_server(after, id) == Seq::<McpServerTool>::empty() + added);
    } else if w && config.enabled {
        assert(after == without_server(tools, id) + added);
        assert(without_server(after, id) == without_server(tools, id) + Seq::<McpServerTool>::empty());
        assert(of_server(after, id) == Seq::<McpServerTool>::empty() + added);
    } else {
        assert(after == tools);
    }
}

/// The hint added where a streamable HTTP server answered 404.
pub open spec fn not_found_hint() -> Seq<char> {
    ". Hint: the server's MCP endpoint is usually at a path like /mcp \u{2014} try http://host:port/mcp"@
}

/// The error for a streamable HTTP connection that could not be set up, with a
/// hint about the endpoint's path where the error mentions `404`.
pub open spec fn spec_init_error(detail: Seq<char>) -> Seq<char> {
    let msg = "Failed to initialize StreamableHTTP connection: "@ + detail;
    if first_occurrence(msg, "404"@) is Some {
        msg + not_found_hint()
    } else {
        msg
    }
}

/// The error for a streamable HTTP connection that could not be set up.
pub fn init_error(detail: &str) -> (r: String)
    ensures
        r@ == spec_init_error(detail@),
{
    let msg = concat("Failed to initialize StreamableHTTP connection: ", detail);
    let hay = to_chars(msg.as_str());
    let needle = to_chars("404");
    if find(&hay, &needle).is_some() {
        let mut m = msg;
        m.append(". Hint: the server's MCP endpoint is usually at a path like /mcp \u{2014} try http://host:port/mcp");
        m
    } else {
        msg
    }
}


/// The servers connected at start-up are exactly the enabled ones: a position
/// is listed if and only if its configuration is enabled, each listed position
/// is a configuration, and they come in increasing order.
pub proof fn law_enabled_servers_connect(s: Seq<McpServerConfig>)
    ensures
        forall|i: int| 0 <= i < s.len() ==> (enabled_positions(s).contains(i) <==> #[trigger] s[i].enabled),
        forall|k: int| 0 <= k < enabled_positions(s).len() ==> 0 <= #[trigger] enabled_positions(s)[k] < s.len(),
        forall|a: int, b: int| 0 <= a < b < enabled_positions(s).len() ==> #[trigger] enabled_positions(s)[a] < #[trigger] enabled_positions(s)[b],
    decreases s.len(),
{
    if s.len() > 0 {
        let init = s.drop_last();
        law_enabled_servers_connect(init);
        let p = enabled_positions(init);
        let q = enabled_positions(s);
        assert forall|i: int| 0 <= i < s.len() implies (q.contains(i) <==> #[trigger] s[i].enabled) by {
            if i < s.len() - 1 {
                assert(s[i] == init[i]);
                if q.contains(i) {
                    let k = choose|k: int| 0 <= k < q.len() && q[k] == i;
                    if s.last().enabled && k == q.len() - 1 {
                        assert(q[k] == s.len() - 1);
                    } else {
                        assert(q[k] == p[k]);
                    }
                }
                if p.contains(i) {
                    let k = choose|k: int| 0 <= k < p.len() && p[k] == i;
                    assert(q[k] == p[k]);
                }
            } else {
                if s.last().enabled {
                    assert(q[q.len() - 1] == s.len() - 1);
                } else if q.contains(i) {
                    let k = choose|k: int| 0 <= k < q.len() && q[k] == i;
                    assert(q[k] == p[k]);
                }
            }
        }
    }
}

/// Removing a server keeps every configuration with another id, in order, and
/// only those.
pub proof fn law_remove_server_keeps_the_others(s: Seq<McpServerConfig>, id: Seq<char>)
    ensures
        without_id(s, id) == s.filter(|c: McpServerConfig| c.id@ != id),
    decreases s.len(),
{
    reveal(Seq::filter);
    if s.len() > 0 {
        law_remove_server_keeps_the_others(s.drop_last(), id);
    }
}

/// Disconnecting a server keeps every tool of another server, in order, and
/// only those.
pub proof fn law_remove_server_tools_keeps_the_others(s: Seq<McpServerTool>, server_id: Seq<char>)
    ensures
        without_server(s, server_id) == s.filter(|t: McpServerTool| t.server_id@ != server_id),
    decreases s.len(),
{
    reveal(Seq::filter);
    if s.len() > 0 {
        law_remove_server_tools_keeps_the_others(s.drop_last(), server_id);
    }
}

} // verus!
