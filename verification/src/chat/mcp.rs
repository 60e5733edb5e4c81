//! MCP server configurations and the tools they offer.
use vstd::prelude::*;

use crate::json::{Json, JsonValue, json_clone, to_serde};
use crate::storage::pair_texts;
use crate::text::{concat, owned};

verus! {

/// How the client talks to an MCP server.
#[derive(Debug, Clone, Copy, PartialEq, Eq, Structural)]
pub enum McpTransport {
    /// A local process, JSON-RPC over its stdin and stdout.
    Stdio,
    /// Server-sent events for responses, HTTP POST for requests.
    Sse,
    /// The streamable HTTP transport.
    StreamableHttp,
}

impl Default for McpTransport {
    fn default() -> (r: Self)
        ensures
            r == McpTransport::Stdio,
    {
        McpTransport::Stdio
    }
}

/// No name is given twice among some (name, value) pairs.
pub open spec fn names_distinct(h: Seq<(Seq<char>, Seq<char>)>) -> bool {
    forall|i: int, j: int| 0 <= i < j < h.len() ==> #[trigger] h[i].0 != #[trigger] h[j].0
}

/// The position of the pair named `name`, if there is one (the last such).
pub open spec fn pair_index(h: Seq<(Seq<char>, Seq<char>)>, name: Seq<char>) -> Option<int>
    decreases h.len(),
{
    if h.len() == 0 {
        None
    } else if h.last().0 == name {
        Some(h.len() - 1)
    } else {
        pair_index(h.drop_last(), name)
    }
}

/// Headers after `name` is set to `value`: the value replaces that of the
/// header of the same name, in its place, or the header is added at the end.
pub open spec fn with_header(h: Seq<(Seq<char>, Seq<char>)>, name: Seq<char>, value: Seq<char>) -> Seq<(Seq<char>, Seq<char>)> {
    match pair_index(h, name) {
        Some(i) => h.update(i, (name, value)),
        None => h.push((name, value)),
    }
}

/// The headers that some pairs give when set one after the other: a later
/// value of a name replaces an earlier one.
pub open spec fn headers_of(pairs: Seq<(Seq<char>, Seq<char>)>) -> Seq<(Seq<char>, Seq<char>)>
    decreases pairs.len(),
{
    if pairs.len() == 0 {
        Seq::empty()
    } else {
        with_header(headers_of(pairs.drop_last()), pairs.last().0, pairs.last().1)
    }
}

/// Where `pair_index` finds a name, and that it finds every name there is.
pub proof fn lemma_pair_index(h: Seq<(Seq<char>, Seq<char>)>, name: Seq<char>)
    ensures
        pair_index(h, name) matches Some(i) ==> 0 <= i < h.len() && h[i].0 == name,
        pair_index(h, name) is None ==> forall|k: int| 0 <= k < h.len() ==> #[trigger] h[k].0 != name,
    decreases h.len(),
{
    if h.len() > 0 {
        lemma_pair_index(h.drop_last(), name);
        if h.last().0 != name {
            assert forall|k: int| 0 <= k < h.len() - 1 implies #[trigger] h[k] == h.drop_last()[k] by {}
        }
    }
}

/// Setting a header keeps the names distinct.
pub proof fn lemma_with_header_distinct(h: Seq<(Seq<char>, Seq<char>)>, name: Seq<char>, value: Seq<char>)
    requires
        names_distinct(h),
    ensures
        names_distinct(with_header(h, name, value)),
{
    lemma_pair_index(h, name);
    let r = with_header(h, name, value);
    match pair_index(h, name) {
        Some(i) => {
            assert forall|a: int, b: int| 0 <= a < b < r.len() implies #[trigger] r[a].0 != #[trigger] r[b].0 by {
                assert(r[a].0 == h[a].0 && r[b].0 == h[b].0);
            }
        },
        None => {
            assert forall|a: int, b: int| 0 <= a < b < r.len() implies #[trigger] r[a].0 != #[trigger] r[b].0 by {
                if b < h.len() {
                    assert(r[a] == h[a] && r[b] == h[b]);
                } else {
                    assert(r[a] == h[a]);
                }
            }
        },
    }
}

/// The headers given by any pairs have distinct names.
pub proof fn lemma_headers_of_distinct(pairs: Seq<(Seq<char>, Seq<char>)>)
    ensures
        names_distinct(headers_of(pairs)),
    decreases pairs.len(),
{
    if pairs.len() > 0 {
        lemma_headers_of_distinct(pairs.drop_last());
        lemma_with_header_distinct(headers_of(pairs.drop_last()), pairs.last().0, pairs.last().1);
    }
}

/// Pairs whose names are distinct give exactly themselves as headers.
pub proof fn lemma_headers_of_distinct_pairs(pairs: Seq<(Seq<char>, Seq<char>)>)
    requires
        names_distinct(pairs),
    ensures
        headers_of(pairs) == pairs,
    decreases pairs.len(),
{
    if pairs.len() > 0 {
        let init = pairs.drop_last();
        assert(names_distinct(init)) by {
            assert forall|a: int, b: int| 0 <= a < b < init.len() implies #[trigger] init[a].0 != #[trigger] init[b].0 by {
                assert(init[a] == pairs[a] && init[b] == pairs[b]);
            }
        }
        lemma_headers_of_distinct_pairs(init);
        lemma_pair_index(init, pairs.last().0);
        match pair_index(init, pairs.last().0) {
            Some(i) => {
                assert(init[i] == pairs[i]);
                assert(pairs[i].0 != pairs[pairs.len() - 1].0);
            },
            None => {},
        }
        assert(init.push(pairs.last()) =~= pairs);
    }
}

/// The HTTP headers of a remote server: (name, value) pairs in the order their
/// names were first given, no name twice.
#[derive(Debug, PartialEq, Eq)]
pub struct Headers {
    pairs: Vec<(String, String)>,
}

impl View for Headers {
    type V = Seq<(Seq<char>, Seq<char>)>;

    closed spec fn view(&self) -> Seq<(Seq<char>, Seq<char>)> {
        pair_texts(self.pairs@)
    }
}

impl Headers {
    /// No header name is given twice.
    #[verifier::type_invariant]
    spec fn names_unique(self) -> bool {
        names_distinct(pair_texts(self.pairs@))
    }

    /// No headers.
    pub fn new() -> (r: Headers)
        ensures
            r@ == Seq::<(Seq<char>, Seq<char>)>::empty(),
    {
        let r = Headers { pairs: Vec::new() };
        assert(r@ =~= Seq::<(Seq<char>, Seq<char>)>::empty());
        r
    }

    /// How many headers there are.
    pub fn len(&self) -> (r: usize)
        ensures
            r == self@.len(),
    {
        self.pairs.len()
    }

    /// Whether there are no headers.
    pub fn is_empty(&self) -> (r: bool)
        ensures
            r == (self@.len() == 0),
    {
        self.pairs.len() == 0
    }

    /// The headers as (name, value) pairs, in order.
    pub fn pairs(&self) -> (r: &Vec<(String, String)>)
        ensures
            pair_texts(r@) == self@,
            names_distinct(pair_texts(r@)),
    {
        proof {
            use_type_invariant(self);
        }
        &self.pairs
    }

    /// Sets header `name` to `value`, in place of its earlier value if it has one.
    pub fn insert(&mut self, name: String, value: String)
        ensures
            final(self)@ == with_header(old(self)@, name@, value@),
    {
        proof {
            use_type_invariant(&*self);
        }
        let ghost h = self@;
        let mut v: Vec<(String, String)> = Vec::new();
        std::mem::swap(&mut v, &mut self.pairs);
        assert(pair_texts(v@) == h);
        proof {
            lemma_pair_index(h, name@);
        }
        let mut i: usize = v.len();
        let mut found = false;
        while i > 0 && !found
            invariant
                i <= v.len(),
                pair_texts(v@) == h,
                found ==> i > 0 && h[i - 1].0 == name@,
                !found ==> forall|k: int| i <= k < v.len() ==> #[trigger] h[k].0 != name@,
            decreases i + (if found { 0int } else { 1int }),
        {
            assert(h[i - 1].0 == v@[i - 1].0@);
            if v[i - 1].0 == name {
                found = true;
            } else {
                i = i - 1;
            }
        }
        proof {
            lemma_with_header_distinct(h, name@, value@);
        }
        if found {
            assert(h[i - 1].0 == name@);
            assert(pair_index(h, name@) == Some((i - 1) as int)) by {
                assert(names_distinct(h));
                lemma_pair_index(h, name@);
            }
            v.set(i - 1, (name, value));
            assert(pair_texts(v@) =~= with_header(h, name@, value@));
        } else {
            assert(pair_index(h, name@) is None) by {
                match pair_index(h, name@) {
                    Some(j) => {
                        assert(h[j].0 == name@);
                    },
                    None => {},
                }
            }
            v.push((name, value));
            assert(pair_texts(v@) =~= with_header(h, name@, value@));
        }
        self.pairs = v;
    }

    /// The headers some pairs give when set one after the other.
    pub fn from_pairs(pairs: Vec<(String, String)>) -> (r: Headers)
        ensures
            r@ == headers_of(pair_texts(pairs@)),
    {
        let mut r = Headers::new();
        let ghost p = pair_texts(pairs@);
        for x in it: pairs.into_iter()
            invariant
                p == pair_texts(it.seq()),
                r@ == headers_of(p.take(it.index() as int)),
        {
            assert(p.take(it.index() + 1).drop_last() =~= p.take(it.index() as int));
            assert(p[it.index() as int] == (x.0@, x.1@));
            r.insert(x.0, x.1);
        }
        assert(p.take(p.len() as int) =~= p);
        r
    }
}

impl Clone for Headers {
    fn clone(&self) -> (r: Self)
        ensures
            r@ == self@,
    {
        proof {
            use_type_invariant(self);
        }
        Headers { pairs: clone_pairs(&self.pairs) }
    }
}

/// One configured MCP server.
#[derive(Debug)]
pub struct McpServerConfig {
    pub id: String,
    pub name: String,
    pub transport: McpTransport,
    pub command: Option<String>,
    pub args: Vec<String>,
    pub url: Option<String>,
    /// HTTP headers sent to remote servers.
    pub headers: Headers,
    pub enabled: bool,
    pub tool_filter: Option<Vec<String>>,
}

/// A lowercase hexadecimal digit.
pub open spec fn is_lower_hex(c: char) -> bool {
    ('0' <= c <= '9') || ('a' <= c <= 'f')
}

/// A server id as `uuid` prints a version-4 id: 32 lowercase hex digits in
/// groups of 8, 4, 4, 4 and 12 joined by hyphens, with the version digit `4`
/// and a variant digit of `8`, `9`, `a` or `b`.
pub open spec fn is_uuid_text(s: Seq<char>) -> bool {
    &&& s.len() == 36
    &&& forall|i: int|
        0 <= i < s.len() ==> if i == 8 || i == 13 || i == 18 || i == 23 {
            #[trigger] s[i] == '-'
        } else {
            is_lower_hex(s[i])
        }
    &&& s[14] == '4'
    &&& (s[19] == '8' || s[19] == '9' || s[19] == 'a' || s[19] == 'b')
}

/// Generates a fresh id with `uuid::Uuid::new_v4()` and prints it; the text is
/// random, and the contract states only its layout: hyphenated lowercase hex
/// with the version and variant digits that `new_v4` sets.
#[verifier::external_body]
pub(crate) fn generate_id() -> (r: String)
    ensures
        is_uuid_text(r@),
{
    uuid::Uuid::new_v4().to_string()
}

/// The default of the `enabled` flag of a stored configuration.
pub fn default_true() -> (r: bool)
    ensures
        r,
{
    true
}

/// Whether an optional text is missing or empty.
pub open spec fn missing(t: Option<String>) -> bool {
    match t {
        Some(s) => s@.len() == 0,
        None => true,
    }
}

/// The error `validate` reports for a configuration, if any.
pub open spec fn config_error(c: McpServerConfig) -> Option<Seq<char>> {
    match c.transport {
        McpTransport::Stdio => if missing(c.command) {
            Some("Stdio transport requires a command"@)
        } else {
            None
        },
        _ => if missing(c.url) {
            Some("SSE/StreamableHTTP transport requires a URL"@)
        } else {
            None
        },
    }
}

impl McpServerConfig {
    /// A new enabled server started as a local process.
    pub fn new_stdio(name: String, command: String, args: Vec<String>) -> (r: Self)
        ensures
            is_uuid_text(r.id@),
            r.name == name,
            r.transport == McpTransport::Stdio,
            r.command == Some(command),
            r.args == args,
            r.url is None,
            r.headers@.len() == 0,
            r.enabled,
            r.tool_filter is None,
    {
        McpServerConfig {
            id: generate_id(),
            name,
            transport: McpTransport::Stdio,
            command: Some(command),
            args,
            url: None,
            headers: Headers::new(),
            enabled: true,
            tool_filter: None,
        }
    }

    /// A new enabled server reached over SSE at `url`.
    pub fn new_sse(name: String, url: String) -> (r: Self)
        ensures
            is_uuid_text(r.id@),
            r.name == name,
            r.transport == McpTransport::Sse,
            r.command is None,
            r.args@.len() == 0,
            r.url == Some(url),
            r.headers@.len() == 0,
            r.enabled,
            r.tool_filter is None,
    {
        McpServerConfig {
            id: generate_id(),
            name,
            transport: McpTransport::Sse,
            command: None,
            args: Vec::new(),
            url: Some(url),
            headers: Headers::new(),
            enabled: true,
            tool_filter: None,
        }
    }

    /// A new enabled server reached over streamable HTTP at `url`.
    pub fn new_streamable_http(name: String, url: String) -> (r: Self)
        ensures
            is_uuid_text(r.id@),
            r.name == name,
            r.transport == McpTransport::StreamableHttp,
            r.command is None,
            r.args@.len() == 0,
            r.url == Some(url),
            r.headers@.len() == 0,
            r.enabled,
            r.tool_filter is None,
    {
        McpServerConfig {
            id: generate_id(),
            name,
            transport: McpTransport::StreamableHttp,
            command: None,
            args: Vec::new(),
            url: Some(url),
            headers: Headers::new(),
            enabled: true,
            tool_filter: None,
        }
    }

    /// Checks that the transport has what it needs: a command for a local
    /// process, a URL for a remote server.
    pub fn validate(&self) -> (r: Result<(), String>)
        ensures
            r is Ok <==> config_error(*self) is None,
            r matches Err(e) ==> config_error(*self) == Some(e@),
    {
        match self.transport {
            McpTransport::Stdio => {
                let empty = match &self.command {
                    Some(c) => c.as_str().is_empty(),
                    None => true,
                };
                if empty {
                    return Err(owned("Stdio transport requires a command"));
                }
            },
            McpTransport::Sse | McpTransport::StreamableHttp => {
                let empty = match &self.url {
                    Some(u) => u.as_str().is_empty(),
                    None => true,
                };
                if empty {
                    return Err(owned("SSE/StreamableHTTP transport requires a URL"));
                }
            },
        }
        Ok(())
    }
}

/// A copy of a list of strings.
pub fn clone_strings(v: &Vec<String>) -> (r: Vec<String>)
    ensures
        r@ == v@,
{
    let mut out: Vec<String> = Vec::new();
    let mut i: usize = 0;
    while i < v.len()
        invariant
            i <= v.len(),
            out@ == v@.subrange(0, i as int),
        decreases v.len() - i,
    {
        out.push(v[i].clone());
        assert(out@ =~= v@.subrange(0, i + 1));
        i = i + 1;
    }
    assert(out@ =~= v@);
    out
}

/// A copy of a list of string pairs.
pub fn clone_pairs(v: &Vec<(String, String)>) -> (r: Vec<(String, String)>)
    ensures
        r@ == v@,
{
    let mut out: Vec<(String, String)> = Vec::new();
    let mut i: usize = 0;
    while i < v.len()
        invariant
            i <= v.len(),
            out@ == v@.subrange(0, i as int),
        decreases v.len() - i,
    {
        out.push((v[i].0.clone(), v[i].1.clone()));
        assert(out@ =~= v@.subrange(0, i + 1));
        i = i + 1;
    }
    assert(out@ =~= v@);
    out
}

impl Clone for McpServerConfig {
    fn clone(&self) -> (r: Self)
        ensures
            r.id == self.id,
            r.name == self.name,
            r.transport == self.transport,
            r.command == self.command,
            r.args@ == self.args@,
            r.url == self.url,
            r.headers@ == self.headers@,
            r.enabled == self.enabled,
            match (r.tool_filter, self.tool_filter) {
                (Some(a), Some(b)) => a@ == b@,
                (None, None) => true,
                _ => false,
            },
    {
        McpServerConfig {
            id: self.id.clone(),
            name: self.name.clone(),
            transport: self.transport,
            command: match &self.command {
                Some(c) => Some(c.clone()),
                None => None,
            },
            args: clone_strings(&self.args),
            url: match &self.url {
                Some(u) => Some(u.clone()),
                None => None,
            },
            headers: self.headers.clone(),
            enabled: self.enabled,
            tool_filter: match &self.tool_filter {
                Some(l) => Some(clone_strings(l)),
                None => None,
            },
        }
    }
}

/// `mcp__`, the prefix of the names under which MCP tools are offered to the model.
pub open spec fn mcp_prefix() -> Seq<char> {
    seq!['m', 'c', 'p', '_', '_']
}

/// `__`, the separator between server id and tool name.
pub open spec fn name_separator() -> Seq<char> {
    seq!['_', '_']
}

/// The name under which tool `tool` of server `server_id` is offered:
/// `mcp__{server_id}__{tool}`.
pub open spec fn mcp_tool_name(server_id: Seq<char>, tool: Seq<char>) -> Seq<char> {
    mcp_prefix() + server_id + name_separator() + tool
}

/// `mcp__{server_id}__{tool_name}`.
pub fn full_tool_name(server_id: &str, tool_name: &str) -> (r: String)
    ensures
        r@ == mcp_tool_name(server_id@, tool_name@),
{
    let mut r = concat("mcp__", server_id);
    r.append("__");
    r.append(tool_name);
    proof {
        reveal_strlit("mcp__");
        reveal_strlit("__");
        assert("mcp__"@ =~= mcp_prefix());
        assert("__"@ =~= name_separator());
    }
    r
}

/// A tool offered by an MCP server.
#[derive(Debug)]
pub struct McpServerTool {
    pub server_id: String,
    pub name: String,
    pub description: Option<String>,
    /// The JSON schema of the tool's arguments.
    pub input_schema: JsonValue,
}

/// The content of an `McpServerTool`.
pub struct McpToolModel {
    pub server_id: Seq<char>,
    pub name: Seq<char>,
    pub description: Option<Seq<char>>,
    pub input_schema: Json,
}

impl View for McpServerTool {
    type V = McpToolModel;

    open spec fn view(&self) -> McpToolModel {
        McpToolModel {
            server_id: self.server_id@,
            name: self.name@,
            description: match self.description {
                Some(d) => Some(d@),
                None => None,
            },
            input_schema: self.input_schema@,
        }
    }
}

/// What is handed to the model for one tool: its name, description and schema.
#[derive(Debug)]
pub struct ToolSpec {
    pub name: String,
    pub description: String,
    pub schema: JsonValue,
}

/// The type of tool definitions in `genai`, carried opaquely.
#[verifier::external_type_specification]
#[verifier::external_body]
pub struct ExGenaiTool(genai::chat::Tool);

/// The tool `genai::chat::Tool::new(name).with_description(description).with_schema(schema)`
/// builds: a plain value made of the three arguments alone.
pub uninterp spec fn spec_genai_tool(name: Seq<char>, description: Seq<char>, schema: Json) -> genai::chat::Tool;

/// Builds `genai::chat::Tool::new(name).with_description(description).with_schema(schema)`;
/// the contract names the result as a function of the three arguments.
#[verifier::external_body]
pub(crate) fn genai_tool(name: String, description: String, schema: &JsonValue) -> (r: genai::chat::Tool)
    ensures
        r == spec_genai_tool(name@, description@, schema@),
{
    genai::chat::Tool::new(name).with_description(description).with_schema(to_serde(schema))
}

/// The `genai` tool built from a definition's name, description and schema.
pub open spec fn genai_tool_of(spec: (Seq<char>, Seq<char>, Json)) -> genai::chat::Tool {
    spec_genai_tool(spec.0, spec.1, spec.2)
}

impl ToolSpec {
    /// The `genai` tool built from this definition: its name, description and schema.
    pub fn to_genai(&self) -> (r: genai::chat::Tool)
        ensures
            r == spec_genai_tool(self.name@, self.description@, self.schema@),
    {
        genai_tool(self.name.clone(), self.description.clone(), &self.schema)
    }
}

impl Clone for McpServerTool {
    fn clone(&self) -> (r: Self)
        ensures
            r@ == self@,
    {
        McpServerTool {
            server_id: self.server_id.clone(),
            name: self.name.clone(),
            description: match &self.description {
                Some(d) => Some(d.clone()),
                None => None,
            },
            input_schema: json_clone(&self.input_schema),
        }
    }
}

/// The content of a tool definition handed to the model: name, description
/// and schema.
pub open spec fn spec_view(t: ToolSpec) -> (Seq<char>, Seq<char>, Json) {
    (t.name@, t.description@, t.schema@)
}

/// The definition under which an MCP tool is offered.
pub open spec fn mcp_tool_spec(t: McpToolModel) -> (Seq<char>, Seq<char>, Json) {
    (
        mcp_tool_name(t.server_id, t.name),
        match t.description {
            Some(d) => d,
            None => Seq::empty(),
        },
        t.input_schema,
    )
}

impl McpServerTool {
    /// The definition offered to the model: the prefixed name, the description
    /// (empty where there is none) and the schema.
    pub fn tool_spec(&self) -> (r: ToolSpec)
        ensures
            r.name@ == mcp_tool_name(self.server_id@, self.name@),
            r.description@ == match self.description {
                Some(d) => d@,
                None => Seq::<char>::empty(),
            },
            r.schema@ == self.input_schema@,
    {
        let name = full_tool_name(self.server_id.as_str(), self.name.as_str());
        let description = match &self.description {
            Some(d) => d.clone(),
            None => String::new(),
        };
        ToolSpec { name, description, schema: json_clone(&self.input_schema) }
    }

    /// This tool as a `genai` tool: the prefixed name, the description (empty
    /// where there is none) and the schema.
    pub fn to_genai_tool(&self) -> (r: genai::chat::Tool)
        ensures
            r == genai_tool_of(mcp_tool_spec(self@)),
    {
        self.tool_spec().to_genai()
    }
}

/// Every tool, in order, as a `genai` tool.
pub fn convert_mcp_tools_to_genai(tools: &[McpServerTool]) -> (r: Vec<genai::chat::Tool>)
    ensures
        r@ == tools@.map_values(|t: McpServerTool| genai_tool_of(mcp_tool_spec(t@))),
{
    let mut out: Vec<genai::chat::Tool> = Vec::new();
    let mut i: usize = 0;
    while i < tools.len()
        invariant
            i <= tools@.len(),
            out@ == tools@.subrange(0, i as int).map_values(|t: McpServerTool| genai_tool_of(mcp_tool_spec(t@))),
        decreases tools@.len() - i,
    {
        out.push(tools[i].to_genai_tool());
        assert(tools@.subrange(0, i + 1).map_values(|t: McpServerTool| genai_tool_of(mcp_tool_spec(t@))) =~= tools@.subrange(
            0,
            i as int,
        ).map_values(|t: McpServerTool| genai_tool_of(mcp_tool_spec(t@))).push(genai_tool_of(mcp_tool_spec(tools@[i as int]@))));
        i = i + 1;
    }
    assert(tools@.subrange(0, tools@.len() as int) =~= tools@);
    out
}

} // verus!
