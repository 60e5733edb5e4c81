//! The built-in tools: their definitions, which of them are enabled, and the
//! decisions and messages of running them (the file and network work itself is
//! done by the caller).
use vstd::prelude::*;

use crate::chat::agent::decimal;
use crate::chat::agent::to_decimal;
use crate::chat::mcp::{genai_tool_of, mcp_tool_spec, spec_view, McpServerTool, ToolSpec};
use crate::chat::ExecMode;
use crate::json::{
    entry, json_as_str, json_clone, json_get, object1, object2, object3, string_array, string_value,
    Json, JsonValue,
};
use crate::text::{concat, owned, push_char};
use crate::types::ToolCall;
use vstd::string::StringSliceAdditionalSpecFns;
use vstd::utf8::{decode_utf8, encode_utf8, is_char_boundary};

verus! {

/// A tool the client runs itself.
#[derive(Debug)]
pub struct BuiltinTool {
    pub name: &'static str,
    pub description: &'static str,
    /// The JSON schema of the tool's arguments.
    pub schema: JsonValue,
    pub enabled_by_default: bool,
}

/// `{"type": "string", "description": desc}`
pub open spec fn string_prop(desc: Seq<char>) -> Json {
    Json::Object(seq![("type"@, Json::Str("string"@)), ("description"@, Json::Str(desc))])
}

/// An object schema with the given properties and, where given, required names.
pub open spec fn object_schema(props: Seq<(Seq<char>, Json)>, required: Option<Seq<Seq<char>>>) -> Json {
    match required {
        Some(names) => Json::Object(
            seq![
                ("type"@, Json::Str("object"@)),
                ("properties"@, Json::Object(props)),
                ("required"@, Json::Array(names.map_values(|n: Seq<char>| Json::Str(n)))),
            ],
        ),
        None => Json::Object(seq![("type"@, Json::Str("object"@)), ("properties"@, Json::Object(props))]),
    }
}

/// The schema of `read_file`.
pub open spec fn read_file_schema() -> Json {
    object_schema(seq![("path"@, string_prop("Relative or absolute file path"@))], Some(seq!["path"@]))
}

/// The schema of `write_file`.
pub open spec fn write_file_schema() -> Json {
    object_schema(
        seq![
            ("path"@, string_prop("Target file path"@)),
            ("content"@, string_prop("Text content to write"@)),
        ],
        Some(seq!["path"@, "content"@]),
    )
}

/// The schema of `list_directory`.
pub open spec fn list_directory_schema() -> Json {
    object_schema(
        seq![("path"@, string_prop("Directory path (defaults to current directory '.')"@))],
        None,
    )
}

/// The schema of `web_fetch`.
pub open spec fn web_fetch_schema() -> Json {
    object_schema(
        seq![("url"@, string_prop("Full URL including protocol, e.g. https://example.com"@))],
        Some(seq!["url"@]),
    )
}

/// The content of a built-in tool definition.
pub struct BuiltinModel {
    pub name: Seq<char>,
    pub description: Seq<char>,
    pub schema: Json,
    pub enabled_by_default: bool,
}

impl View for BuiltinTool {
    type V = BuiltinModel;

    open spec fn view(&self) -> BuiltinModel {
        BuiltinModel {
            name: self.name@,
            description: self.description@,
            schema: self.schema@,
            enabled_by_default: self.enabled_by_default,
        }
    }
}

/// The built-in tools, in the order they are offered.
pub open spec fn builtin_defs() -> Seq<BuiltinModel> {
    seq![
        BuiltinModel {
            name: "read_file"@,
            description: "Read the text content of a file from the local filesystem"@,
            schema: read_file_schema(),
            enabled_by_default: true,
        },
        BuiltinModel {
            name: "write_file"@,
            description: "Write content to a file on the local filesystem (creates or overwrites)"@,
            schema: write_file_schema(),
            enabled_by_default: true,
        },
        BuiltinModel {
            name: "list_directory"@,
            description: "List files and subdirectories inside a directory path"@,
            schema: list_directory_schema(),
            enabled_by_default: true,
        },
        BuiltinModel {
            name: "web_fetch"@,
            description: "Fetch raw text/HTML response from a web URL"@,
            schema: web_fetch_schema(),
            enabled_by_default: true,
        },
    ]
}

/// The contents of a list of built-in tools.
pub open spec fn defs_view(s: Seq<BuiltinTool>) -> Seq<BuiltinModel> {
    s.map_values(|t: BuiltinTool| t@)
}

/// `{"type": "string", "description": desc}`
fn string_prop_value(desc: &str) -> (r: JsonValue)
    ensures
        r@ == string_prop(desc@),
{
    object2(entry("type", string_value("string")), entry("description", string_value(desc)))
}

/// The definitions of the built-in tools.
pub fn get_builtin_tool_defs() -> (r: Vec<BuiltinTool>)
    ensures
        defs_view(r@) == builtin_defs(),
{
    let mut out: Vec<BuiltinTool> = Vec::new();

    let mut req: Vec<&str> = Vec::new();
    req.push("path");
    assert(req@.map_values(|n: &str| Json::Str(n@)) =~= seq!["path"@].map_values(|n: Seq<char>| Json::Str(n)));
    let schema = object3(
        entry("type", string_value("object")),
        entry("properties", object1(entry("path", string_prop_value("Relative or absolute file path")))),
        entry("required", string_array(req)),
    );
    out.push(BuiltinTool {
        name: "read_file",
        description: "Read the text content of a file from the local filesystem",
        schema,
        enabled_by_default: true,
    });

    let mut req: Vec<&str> = Vec::new();
    req.push("path");
    req.push("content");
    assert(req@.map_values(|n: &str| Json::Str(n@)) =~= seq!["path"@, "content"@].map_values(|n: Seq<char>| Json::Str(n)));
    let schema = object3(
        entry("type", string_value("object")),
        entry(
            "properties",
            object2(
                entry("path", string_prop_value("Target file path")),
                entry("content", string_prop_value("Text content to write")),
            ),
        ),
        entry("required", string_array(req)),
    );
    out.push(BuiltinTool {
        name: "write_file",
        description: "Write content to a file on the local filesystem (creates or overwrites)",
        schema,
        enabled_by_default: true,
    });

    let schema = object2(
        entry("type", string_value("object")),
        entry(
            "properties",
            object1(entry("path", string_prop_value("Directory path (defaults to current directory '.')"))),
        ),
    );
    out.push(BuiltinTool {
        name: "list_directory",
        description: "List files and subdirectories inside a directory path",
        schema,
        enabled_by_default: true,
    });

    let mut req: Vec<&str> = Vec::new();
    req.push("url");
    assert(req@.map_values(|n: &str| Json::Str(n@)) =~= seq!["url"@].map_values(|n: Seq<char>| Json::Str(n)));
    let schema = object3(
        entry("type", string_value("object")),
        entry(
            "properties",
            object1(entry("url", string_prop_value("Full URL including protocol, e.g. https://example.com"))),
        ),
        entry("required", string_array(req)),
    );
    out.push(BuiltinTool {
        name: "web_fetch",
        description: "Fetch raw text/HTML response from a web URL",
        schema,
        enabled_by_default: true,
    });
    assert(defs_view(out@) =~= builtin_defs());
    out
}


/// The map a list of (name, flag) entries stands for: a later entry for the
/// same name wins.
pub open spec fn prefs_map(s: Seq<(String, bool)>) -> Map<Seq<char>, bool>
    decreases s.len(),
{
    if s.len() == 0 {
        Map::empty()
    } else {
        prefs_map(s.drop_last()).insert(s.last().0@, s.last().1)
    }
}

/// The map a list of (name, flag) pairs stands for: a later pair for the same
/// name wins.
pub open spec fn flags_map(s: Seq<(Seq<char>, bool)>) -> Map<Seq<char>, bool>
    decreases s.len(),
{
    if s.len() == 0 {
        Map::empty()
    } else {
        flags_map(s.drop_last()).insert(s.last().0, s.last().1)
    }
}

proof fn lemma_prefs_flags(s: Seq<(String, bool)>)
    ensures
        prefs_map(s) == flags_map(s.map_values(|e: (String, bool)| (e.0@, e.1))),
    decreases s.len(),
{
    let f = |e: (String, bool)| (e.0@, e.1);
    if s.len() > 0 {
        lemma_prefs_flags(s.drop_last());
        assert(s.drop_last().map_values(f) =~= s.map_values(f).drop_last());
    }
}

/// Which tools the user enabled or disabled, by name.
#[derive(Debug)]
pub struct ToolPreferences {
    entries: Vec<(String, bool)>,
}

impl View for ToolPreferences {
    type V = Map<Seq<char>, bool>;

    closed spec fn view(&self) -> Map<Seq<char>, bool> {
        prefs_map(self.entries@)
    }
}

/// An entry for another name does not change what is known of `key`.
proof fn lemma_prefs_other(s: Seq<(String, bool)>, key: Seq<char>)
    requires
        s.len() > 0,
        s.last().0@ != key,
    ensures
        prefs_map(s).contains_key(key) == prefs_map(s.drop_last()).contains_key(key),
        prefs_map(s).contains_key(key) ==> prefs_map(s)[key] == prefs_map(s.drop_last())[key],
{
}

/// Updating the last entry for a name is inserting into the map.
proof fn lemma_prefs_update(s: Seq<(String, bool)>, k: int, e: (String, bool))
    requires
        0 <= k < s.len(),
        s[k].0@ == e.0@,
        forall|j: int| k < j < s.len() ==> s[j].0@ != e.0@,
    ensures
        prefs_map(s.update(k, e)) == prefs_map(s).insert(e.0@, e.1),
    decreases s.len(),
{
    let u = s.update(k, e);
    if k == s.len() - 1 {
        assert(u.drop_last() =~= s.drop_last());
        assert(prefs_map(u) =~= prefs_map(s).insert(e.0@, e.1));
    } else {
        assert(u.drop_last() =~= s.drop_last().update(k, e));
        lemma_prefs_update(s.drop_last(), k, e);
        assert(u.last() == s.last());
        assert(prefs_map(u) =~= prefs_map(s).insert(e.0@, e.1));
    }
}

impl ToolPreferences {
    /// The stored (name, flag) entries in the order they were first set.
    pub closed spec fn listed(&self) -> Seq<(Seq<char>, bool)> {
        self.entries@.map_values(|e: (String, bool)| (e.0@, e.1))
    }

    /// No name is listed twice.
    pub closed spec fn wf(&self) -> bool {
        forall|i: int, j: int| 0 <= i < j < self.entries@.len() ==> #[trigger] self.entries@[i].0@ != #[trigger] self.entries@[j].0@
    }

    /// The names listed are all different.
    pub proof fn lemma_listed_distinct(&self)
        requires
            self.wf(),
        ensures
            forall|i: int, j: int| 0 <= i < j < self.listed().len() ==> #[trigger] self.listed()[i].0 != #[trigger] self.listed()[j].0,
    {
    }

    /// The listed entries stand for the preferences.
    pub proof fn lemma_listed(&self)
        ensures
            flags_map(self.listed()) == self@,
    {
        lemma_prefs_flags(self.entries@);
    }

    /// No preferences.
    pub fn new() -> (r: Self)
        ensures
            r@ == Map::<Seq<char>, bool>::empty(),
            r.wf(),
    {
        ToolPreferences { entries: Vec::new() }
    }

    /// Whether a built-in tool is on: the user's preference for it, else its
    /// default.
    pub fn is_enabled(&self, tool: &BuiltinTool) -> (r: bool)
        ensures
            r == tool_enabled(self@, tool@),
    {
        match self.get(tool.name) {
            Some(b) => b,
            None => tool.enabled_by_default,
        }
    }

    /// The preference stored for `name`.
    pub fn get(&self, name: &str) -> (r: Option<bool>)
        ensures
            r == if self@.contains_key(name@) {
                Some(self@[name@])
            } else {
                None::<bool>
            },
    {
        let key = owned(name);
        let mut i = self.entries.len();
        assert(self.entries@.subrange(0, i as int) =~= self.entries@);
        while i > 0
            invariant
                i <= self.entries@.len(),
                key@ == name@,
                prefs_map(self.entries@).contains_key(name@) == prefs_map(self.entries@.subrange(0, i as int)).contains_key(name@),
                prefs_map(self.entries@).contains_key(name@) ==> prefs_map(self.entries@)[name@] == prefs_map(self.entries@.subrange(0, i as int))[name@],
            decreases i,
        {
            let ghost sub = self.entries@.subrange(0, i as int);
            assert(sub.drop_last() =~= self.entries@.subrange(0, i - 1));
            if self.entries[i - 1].0 == key {
                return Some(self.entries[i - 1].1);
            }
            proof {
                lemma_prefs_other(sub, name@);
            }
            i = i - 1;
        }
        None
    }

    /// The position of the last entry for `key`.
    fn last_index(&self, key: &String) -> (r: Option<usize>)
        ensures
            r matches Some(k) ==> k < self.entries@.len() && self.entries@[k as int].0@ == key@ && forall|j: int|
                k < j < self.entries@.len() ==> self.entries@[j].0@ != key@,
            r is None ==> forall|j: int| 0 <= j < self.entries@.len() ==> self.entries@[j].0@ != key@,
    {
        let mut i = self.entries.len();
        while i > 0
            invariant
                i <= self.entries@.len(),
                forall|j: int| i <= j < self.entries@.len() ==> self.entries@[j].0@ != key@,
            decreases i,
        {
            if self.entries[i - 1].0 == *key {
                return Some(i - 1);
            }
            i = i - 1;
        }
        None
    }

    /// Stores the preference `value` for `name`.
    pub fn insert(&mut self, name: String, value: bool)
        ensures
            final(self)@ == old(self)@.insert(name@, value),
            old(self).wf() ==> final(self).wf(),
    {
        match self.last_index(&name) {
            Some(k) => {
                proof {
                    lemma_prefs_update(self.entries@, k as int, (name, value));
                }
                self.entries.set(k, (name, value));
            },
            None => {
                let ghost before = self.entries@;
                self.entries.push((name, value));
                assert(self.entries@.drop_last() =~= before);
            },
        }
    }

    /// The stored entries, in the order they were first set.
    pub fn entries(&self) -> (r: &Vec<(String, bool)>)
        ensures
            prefs_map(r@) == self@,
            r@.map_values(|e: (String, bool)| (e.0@, e.1)) == self.listed(),
    {
        &self.entries
    }
}

/// Whether a tool is enabled: the user's preference, else its default.
pub open spec fn tool_enabled(prefs: Map<Seq<char>, bool>, def: BuiltinModel) -> bool {
    if prefs.contains_key(def.name) {
        prefs[def.name]
    } else {
        def.enabled_by_default
    }
}

/// The definitions of the enabled tools, in order.
pub open spec fn enabled_defs(prefs: Map<Seq<char>, bool>, defs: Seq<BuiltinModel>) -> Seq<BuiltinModel>
    decreases defs.len(),
{
    if defs.len() == 0 {
        defs
    } else if tool_enabled(prefs, defs.last()) {
        enabled_defs(prefs, defs.drop_last()).push(defs.last())
    } else {
        enabled_defs(prefs, defs.drop_last())
    }
}

/// The content of a tool definition handed to the model.
pub open spec fn spec_of(d: BuiltinModel) -> (Seq<char>, Seq<char>, Json) {
    (d.name, d.description, d.schema)
}

/// The definitions handed to the model: the enabled built-in tools, in order.
pub fn enabled_builtin_tool_specs(preferences: &ToolPreferences) -> (r: Vec<ToolSpec>)
    ensures
        r@.map_values(|t: ToolSpec| (t.name@, t.description@, t.schema@)) == enabled_defs(
            preferences@,
            builtin_defs(),
        ).map_values(|d: BuiltinModel| spec_of(d)),
{
    let defs = get_builtin_tool_defs();
    let mut out: Vec<ToolSpec> = Vec::new();
    let mut i: usize = 0;
    while i < defs.len()
        invariant
            i <= defs.len(),
            defs_view(defs@) == builtin_defs(),
            out@.map_values(|t: ToolSpec| (t.name@, t.description@, t.schema@)) == enabled_defs(
                preferences@,
                defs_view(defs@).subrange(0, i as int),
            ).map_values(|d: BuiltinModel| spec_of(d)),
        decreases defs.len() - i,
    {
        let ghost before = out@;
        let ghost sub = defs_view(defs@).subrange(0, i + 1);
        assert(sub.drop_last() =~= defs_view(defs@).subrange(0, i as int));
        assert(sub.last() == defs@[i as int]@);
        let d = &defs[i];
        let enabled = match preferences.get(d.name) {
            Some(v) => v,
            None => d.enabled_by_default,
        };
        if enabled {
            out.push(ToolSpec { name: owned(d.name), description: owned(d.description), schema: json_clone(&d.schema) });
            assert(out@.map_values(|t: ToolSpec| (t.name@, t.description@, t.schema@)) =~= before.map_values(
                |t: ToolSpec| (t.name@, t.description@, t.schema@),
            ).push(spec_of(defs@[i as int]@)));
            assert(enabled_defs(preferences@, sub).map_values(|d: BuiltinModel| spec_of(d)) =~= enabled_defs(
                preferences@,
                sub.drop_last(),
            ).map_values(|d: BuiltinModel| spec_of(d)).push(spec_of(defs@[i as int]@)));
        }
        i = i + 1;
    }
    assert(defs_view(defs@).subrange(0, defs@.len() as int) =~= defs_view(defs@));
    out
}

/// The tools offered to the model: none in chat mode; in agent mode the
/// enabled built-in tools, in order, then the tools of the connected MCP
/// servers, in order.
pub fn agent_tool_specs(mode: ExecMode, preferences: &ToolPreferences, mcp_tools: &[McpServerTool]) -> (r: Vec<ToolSpec>)
    ensures
        r@.map_values(|t: ToolSpec| spec_view(t)) == match mode {
            ExecMode::Chat => Seq::empty(),
            ExecMode::Agent => enabled_defs(preferences@, builtin_defs()).map_values(|d: BuiltinModel| spec_of(d))
                + mcp_tools@.map_values(|t: McpServerTool| mcp_tool_spec(t@)),
        },
{
    let mut out: Vec<ToolSpec> = Vec::new();
    if mode == ExecMode::Chat {
        assert(out@.map_values(|t: ToolSpec| spec_view(t)) =~= Seq::<(Seq<char>, Seq<char>, Json)>::empty());
        return out;
    }
    out = enabled_builtin_tool_specs(preferences);
    let ghost head = out@.map_values(|t: ToolSpec| spec_view(t));
    assert(head == enabled_defs(preferences@, builtin_defs()).map_values(|d: BuiltinModel| spec_of(d))) by {
        assert(head =~= out@.map_values(|t: ToolSpec| (t.name@, t.description@, t.schema@)));
    }
    let mut i: usize = 0;
    while i < mcp_tools.len()
        invariant
            i <= mcp_tools@.len(),
            out@.map_values(|t: ToolSpec| spec_view(t)) == head + mcp_tools@.subrange(0, i as int).map_values(
                |t: McpServerTool| mcp_tool_spec(t@),
            ),
        decreases mcp_tools@.len() - i,
    {
        let ghost before = out@;
        let spec = mcp_tools[i].tool_spec();
        out.push(spec);
        assert(out@.map_values(|t: ToolSpec| spec_view(t)) =~= before.map_values(|t: ToolSpec| spec_view(t)).push(
            mcp_tool_spec(mcp_tools@[i as int]@),
        ));
        assert(mcp_tools@.subrange(0, i + 1).map_values(|t: McpServerTool| mcp_tool_spec(t@)) =~= mcp_tools@.subrange(
            0,
            i as int,
        ).map_values(|t: McpServerTool| mcp_tool_spec(t@)).push(mcp_tool_spec(mcp_tools@[i as int]@)));
        i = i + 1;
    }
    assert(mcp_tools@.subrange(0, mcp_tools@.len() as int) =~= mcp_tools@);
    out
}

/// The `genai` tools built from some definitions, in order.
fn specs_to_genai(specs: &Vec<ToolSpec>) -> (r: Vec<genai::chat::Tool>)
    ensures
        r@ == specs@.map_values(|t: ToolSpec| spec_view(t)).map_values(
            |d: (Seq<char>, Seq<char>, Json)| genai_tool_of(d),
        ),
{
    let ghost want = specs@.map_values(|t: ToolSpec| spec_view(t)).map_values(
        |d: (Seq<char>, Seq<char>, Json)| genai_tool_of(d),
    );
    let mut out: Vec<genai::chat::Tool> = Vec::new();
    let mut i: usize = 0;
    while i < specs.len()
        invariant
            i <= specs.len(),
            want == specs@.map_values(|t: ToolSpec| spec_view(t)).map_values(
                |d: (Seq<char>, Seq<char>, Json)| genai_tool_of(d),
            ),
            out@ == want.subrange(0, i as int),
        decreases specs.len() - i,
    {
        out.push(specs[i].to_genai());
        assert(out@ =~= want.subrange(0, i + 1));
        i = i + 1;
    }
    assert(out@ =~= want);
    out
}

/// The tools offered to the model, as `genai` tools built from `agent_tool_specs`.
pub fn agent_tools(mode: ExecMode, preferences: &ToolPreferences, mcp_tools: &[McpServerTool]) -> (r: Vec<genai::chat::Tool>)
    ensures
        r@ == (match mode {
            ExecMode::Chat => Seq::empty(),
            ExecMode::Agent => enabled_defs(preferences@, builtin_defs()).map_values(|d: BuiltinModel| spec_of(d))
                + mcp_tools@.map_values(|t: McpServerTool| mcp_tool_spec(t@)),
        }).map_values(|d: (Seq<char>, Seq<char>, Json)| genai_tool_of(d)),
{
    let specs = agent_tool_specs(mode, preferences, mcp_tools);
    specs_to_genai(&specs)
}

/// The enabled built-in tools as `genai` tools, built from `enabled_builtin_tool_specs`:
/// each enabled definition's name, description and schema, in order.
pub fn get_enabled_builtin_tools(preferences: &ToolPreferences) -> (r: Vec<genai::chat::Tool>)
    ensures
        r@ == enabled_defs(preferences@, builtin_defs()).map_values(|d: BuiltinModel| spec_of(d)).map_values(
            |d: (Seq<char>, Seq<char>, Json)| genai_tool_of(d),
        ),
{
    let specs = enabled_builtin_tool_specs(preferences);
    assert(specs@.map_values(|t: ToolSpec| spec_view(t)) =~= specs@.map_values(
        |t: ToolSpec| (t.name@, t.description@, t.schema@),
    ));
    specs_to_genai(&specs)
}


/// A tool the user turned off is not offered, whatever the other preferences.
pub proof fn law_disabled_tool_not_offered(prefs: Map<Seq<char>, bool>, name: Seq<char>, defs: Seq<BuiltinModel>)
    ensures
        forall|i: int|
            0 <= i < enabled_defs(prefs.insert(name, false), defs).len() ==> #[trigger] enabled_defs(
                prefs.insert(name, false),
                defs,
            )[i].name != name,
    decreases defs.len(),
{
    if defs.len() > 0 {
        law_disabled_tool_not_offered(prefs, name, defs.drop_last());
    }
}

/// Every offered tool is enabled, and every enabled tool is offered.
pub proof fn law_offered_iff_enabled(prefs: Map<Seq<char>, bool>, defs: Seq<BuiltinModel>)
    ensures
        forall|i: int| 0 <= i < enabled_defs(prefs, defs).len() ==> tool_enabled(prefs, #[trigger] enabled_defs(prefs, defs)[i]),
        forall|j: int| 0 <= j < defs.len() && tool_enabled(prefs, #[trigger] defs[j]) ==> enabled_defs(prefs, defs).contains(defs[j]),
    decreases defs.len(),
{
    if defs.len() > 0 {
        law_offered_iff_enabled(prefs, defs.drop_last());
        let prev = enabled_defs(prefs, defs.drop_last());
        assert forall|j: int| 0 <= j < defs.len() && tool_enabled(prefs, #[trigger] defs[j]) implies enabled_defs(prefs, defs).contains(defs[j]) by {
            if j < defs.len() - 1 {
                assert(defs.drop_last()[j] == defs[j]);
                let k = choose|k: int| 0 <= k < prev.len() && prev[k] == defs[j];
                if tool_enabled(prefs, defs.last()) {
                    assert(enabled_defs(prefs, defs)[k] == defs[j]);
                }
            } else {
                assert(enabled_defs(prefs, defs).last() == defs[j]);
            }
        }
    }
}

/// What running a built-in tool comes down to.
#[derive(Debug)]
pub enum ToolAction {
    ReadFile { path: String },
    WriteFile { path: String, content: String },
    ListDirectory { path: String },
    WebFetch { url: String },
}

/// The content of a `ToolAction`.
pub enum ActionModel {
    ReadFile(Seq<char>),
    WriteFile(Seq<char>, Seq<char>),
    ListDirectory(Seq<char>),
    WebFetch(Seq<char>),
}

impl View for ToolAction {
    type V = ActionModel;

    open spec fn view(&self) -> ActionModel {
        match self {
            ToolAction::ReadFile { path } => ActionModel::ReadFile(path@),
            ToolAction::WriteFile { path, content } => ActionModel::WriteFile(path@, content@),
            ToolAction::ListDirectory { path } => ActionModel::ListDirectory(path@),
            ToolAction::WebFetch { url } => ActionModel::WebFetch(url@),
        }
    }
}

/// The text of the string argument `key`, if the arguments have one.
pub open spec fn str_arg(args: Json, key: Seq<char>) -> Option<Seq<char>> {
    match json_get(args, key) {
        Some(v) => json_as_str(v),
        None => None,
    }
}

/// `Missing required '{key}' argument`
pub open spec fn missing_arg(key: Seq<char>) -> Seq<char> {
    "Missing required '"@ + key + "' argument"@
}

/// What a call of a built-in tool asks for, or why it cannot run.
pub open spec fn spec_plan(name: Seq<char>, args: Json) -> Result<ActionModel, Seq<char>> {
    if name == "read_file"@ {
        match str_arg(args, "path"@) {
            Some(p) => Ok(ActionModel::ReadFile(p)),
            None => Err(missing_arg("path"@)),
        }
    } else if name == "write_file"@ {
        match str_arg(args, "path"@) {
            Some(p) => match str_arg(args, "content"@) {
                Some(c) => Ok(ActionModel::WriteFile(p, c)),
                None => Err(missing_arg("content"@)),
            },
            None => Err(missing_arg("path"@)),
        }
    } else if name == "list_directory"@ {
        match str_arg(args, "path"@) {
            Some(p) => Ok(ActionModel::ListDirectory(p)),
            None => Ok(ActionModel::ListDirectory("."@)),
        }
    } else if name == "web_fetch"@ {
        match str_arg(args, "url"@) {
            Some(u) => Ok(ActionModel::WebFetch(u)),
            None => Err(missing_arg("url"@)),
        }
    } else {
        Err("Unknown tool: "@ + name)
    }
}

/// The string argument `key` of a call.
fn string_arg(args: &JsonValue, key: &str) -> (r: Option<String>)
    ensures
        r matches Some(s) ==> str_arg(args@, key@) == Some(s@),
        r is None ==> str_arg(args@, key@) is None,
{
    match args.get(key) {
        Some(v) => match v.as_str() {
            Some(s) => Some(s.clone()),
            None => None,
        },
        None => None,
    }
}

/// `Missing required '{key}' argument`
fn missing(key: &str) -> (r: String)
    ensures
        r@ == missing_arg(key@),
{
    let mut m = concat("Missing required '", key);
    m.append("' argument");
    m
}

/// Decides what a call of a built-in tool asks for.
pub fn plan_tool_call(call: &ToolCall) -> (r: Result<ToolAction, String>)
    ensures
        match (r, spec_plan(call.fn_name@, call.fn_arguments@)) {
            (Ok(a), Ok(m)) => a@ == m,
            (Err(e), Err(m)) => e@ == m,
            _ => false,
        },
{
    let args = &call.fn_arguments;
    if call.fn_name == owned("read_file") {
        match string_arg(args, "path") {
            Some(path) => Ok(ToolAction::ReadFile { path }),
            None => Err(missing("path")),
        }
    } else if call.fn_name == owned("write_file") {
        match string_arg(args, "path") {
            Some(path) => match string_arg(args, "content") {
                Some(content) => Ok(ToolAction::WriteFile { path, content }),
                None => Err(missing("content")),
            },
            None => Err(missing("path")),
        }
    } else if call.fn_name == owned("list_directory") {
        match string_arg(args, "path") {
            Some(path) => Ok(ToolAction::ListDirectory { path }),
            None => Ok(ToolAction::ListDirectory { path: owned(".") }),
        }
    } else if call.fn_name == owned("web_fetch") {
        match string_arg(args, "url") {
            Some(url) => Ok(ToolAction::WebFetch { url }),
            None => Err(missing("url")),
        }
    } else {
        Err(concat("Unknown tool: ", call.fn_name.as_str()))
    }
}

/// `{prefix}'{path}': {error}`
fn quoted_failure(prefix: &str, path: &str, error: &str) -> (r: String)
    ensures
        r@ == prefix@ + "'"@ + path@ + "': "@ + error@,
{
    let mut m = concat(prefix, "'");
    m.append(path);
    m.append("': ");
    m.append(error);
    m
}

/// The answer of `read_file`: the text read, or the failure.
pub fn read_file_result(path: &str, read: Result<String, String>) -> (r: Result<String, String>)
    ensures
        match (read, r) {
            (Ok(t), Ok(o)) => o == t,
            (Err(e), Err(m)) => m@ == "Failed to read "@ + "'"@ + path@ + "': "@ + e@,
            _ => false,
        },
{
    match read {
        Ok(t) => Ok(t),
        Err(e) => Err(quoted_failure("Failed to read ", path, e.as_str())),
    }
}

/// The answer of `write_file`: how many bytes were written, or the failure.
pub fn write_file_result(path: &str, content: &str, written: Result<(), String>) -> (r: Result<String, String>)
    ensures
        match (written, r) {
            (Ok(_), Ok(o)) => o@ == "Successfully wrote "@ + decimal(content.len() as nat) + " bytes to '"@
                + path@ + "'"@,
            (Err(e), Err(m)) => m@ == "Failed to write to "@ + "'"@ + path@ + "': "@ + e@,
            _ => false,
        },
{
    match written {
        Ok(_) => {
            let mut m = concat("Successfully wrote ", to_decimal(content.len()).as_str());
            m.append(" bytes to '");
            m.append(path);
            m.append("'");
            Ok(m)
        },
        Err(e) => Err(quoted_failure("Failed to write to ", path, e.as_str())),
    }
}

/// One line of a directory listing: a folder mark and a trailing `/` for a
/// directory, a file mark otherwise.
pub open spec fn listing_line(name: Seq<char>, is_dir: bool) -> Seq<char> {
    if is_dir {
        seq!['\u{1F4C1}', ' '] + name + seq!['/']
    } else {
        seq!['\u{1F4C4}', ' '] + name
    }
}

/// The lines of a listing joined with newlines.
pub open spec fn listing_text(entries: Seq<(Seq<char>, bool)>) -> Seq<char>
    decreases entries.len(),
{
    if entries.len() == 0 {
        Seq::empty()
    } else if entries.len() == 1 {
        listing_line(entries[0].0, entries[0].1)
    } else {
        listing_text(entries.drop_last()) + seq!['\n'] + listing_line(entries.last().0, entries.last().1)
    }
}

/// The contents of directory entries.
pub open spec fn entries_view(s: Seq<(String, bool)>) -> Seq<(Seq<char>, bool)> {
    s.map_values(|e: (String, bool)| (e.0@, e.1))
}

/// The answer of `list_directory`: one line per entry, a note for an empty
/// directory, or the failure.
pub fn list_directory_result(path: &str, listed: Result<Vec<(String, bool)>, String>) -> (r: Result<String, String>)
    ensures
        match (listed, r) {
            (Ok(v), Ok(o)) => if v@.len() == 0 {
                o@ == "Directory '"@ + path@ + "' is empty."@
            } else {
                o@ == listing_text(entries_view(v@))
            },
            (Err(e), Err(m)) => m@ == "Failed to read directory "@ + "'"@ + path@ + "': "@ + e@,
            _ => false,
        },
{
    match listed {
        Err(e) => Err(quoted_failure("Failed to read directory ", path, e.as_str())),
        Ok(items) => {
            if items.len() == 0 {
                let mut m = concat("Directory '", path);
                m.append("' is empty.");
                return Ok(m);
            }
            let mut out = String::new();
            let mut i: usize = 0;
            while i < items.len()
                invariant
                    i <= items.len(),
                    out@ == listing_text(entries_view(items@.subrange(0, i as int))),
                decreases items.len() - i,
            {
                let ghost sub = entries_view(items@.subrange(0, i + 1));
                assert(sub.drop_last() =~= entries_view(items@.subrange(0, i as int)));
                assert(sub.last() == (items@[i as int].0@, items@[i as int].1));
                if i > 0 {
                    push_char(&mut out, '\n');
                }
                if items[i].1 {
                    push_char(&mut out, '\u{1F4C1}');
                    push_char(&mut out, ' ');
                    out.append(items[i].0.as_str());
                    push_char(&mut out, '/');
                } else {
                    push_char(&mut out, '\u{1F4C4}');
                    push_char(&mut out, ' ');
                    out.append(items[i].0.as_str());
                }
                assert(out@ =~= listing_text(sub));
                i = i + 1;
            }
            assert(items@.subrange(0, items@.len() as int) =~= items@);
            Ok(out)
        },
    }
}

/// How fetching a URL went.
#[derive(Debug)]
pub enum FetchOutcome {
    /// The request failed.
    RequestFailed(String),
    /// The response came but its body could not be read.
    BodyFailed(String),
    /// The body's text.
    Body(String),
}

/// More bytes than this are cut off from a fetched page.
pub const FETCH_LIMIT: usize = 8000;

/// The note that ends a cut-off page.
pub open spec fn truncation_note() -> Seq<char> {
    "...\n\n[Content truncated at 8000 characters]"@
}

/// The answer of `web_fetch`: the page, its first 8000 bytes followed by a
/// note where it is longer, or the failure.
pub fn web_fetch_result(fetched: FetchOutcome) -> (r: Result<String, String>)
    requires
        fetched matches FetchOutcome::Body(t) ==> encode_utf8(t@).len() <= usize::MAX,
        fetched matches FetchOutcome::Body(t) ==> (encode_utf8(t@).len() > FETCH_LIMIT ==> is_char_boundary(
            encode_utf8(t@),
            FETCH_LIMIT as int,
        )),
    ensures
        match fetched {
            FetchOutcome::RequestFailed(e) => r matches Err(m) && m@ == "HTTP request failed: "@ + e@,
            FetchOutcome::BodyFailed(e) => r matches Err(m) && m@ == "Failed to read body: "@ + e@,
            FetchOutcome::Body(t) => r matches Ok(o) && if encode_utf8(t@).len() > FETCH_LIMIT {
                o@ == decode_utf8(encode_utf8(t@).subrange(0, FETCH_LIMIT as int)) + truncation_note()
            } else {
                o@ == t@
            },
        },
{
    match fetched {
        FetchOutcome::RequestFailed(e) => Err(concat("HTTP request failed: ", e.as_str())),
        FetchOutcome::BodyFailed(e) => Err(concat("Failed to read body: ", e.as_str())),
        FetchOutcome::Body(text) => {
            if text.as_str().len() > FETCH_LIMIT {
                let (head, _) = text.as_str().split_at(FETCH_LIMIT);
                proof {
                    vstd::utf8::encode_utf8_decode_utf8(head@);
                    assert(head.spec_bytes() == encode_utf8(text@).subrange(0, FETCH_LIMIT as int));
                }
                let mut o = owned(head);
                o.append("...\n\n[Content truncated at 8000 characters]");
                assert(o@ == head@ + truncation_note());
                Ok(o)
            } else {
                Ok(text)
            }
        },
    }
}


/// A built-in tool works on the argument it was given: a string `path` (or
/// `url`) is what is read, written, listed or fetched, and a directory listing
/// without a `path` lists `.`.
pub proof fn law_tools_use_their_arguments(args: Json, p: Seq<char>, c: Seq<char>)
    ensures
        json_get(args, "path"@) == Some(Json::Str(p)) ==> spec_plan("list_directory"@, args) == Ok::<ActionModel, Seq<char>>(ActionModel::ListDirectory(p)),
        json_get(args, "path"@) is None ==> spec_plan("list_directory"@, args) == Ok::<ActionModel, Seq<char>>(ActionModel::ListDirectory("."@)),
        json_get(args, "path"@) == Some(Json::Str(p)) ==> spec_plan("read_file"@, args) == Ok::<ActionModel, Seq<char>>(ActionModel::ReadFile(p)),
        json_get(args, "path"@) == Some(Json::Str(p)) && json_get(args, "content"@) == Some(Json::Str(c))
            ==> spec_plan("write_file"@, args) == Ok::<ActionModel, Seq<char>>(ActionModel::WriteFile(p, c)),
        json_get(args, "url"@) == Some(Json::Str(p)) ==> spec_plan("web_fetch"@, args) == Ok::<ActionModel, Seq<char>>(ActionModel::WebFetch(p)),
{
    reveal_strlit("read_file");
    reveal_strlit("write_file");
    reveal_strlit("list_directory");
    reveal_strlit("web_fetch");
    assert("list_directory"@.len() == 14 && "read_file"@.len() == 9 && "write_file"@.len() == 10);
    assert("list_directory"@ != "read_file"@ && "list_directory"@ != "write_file"@);
    assert("web_fetch"@.len() == 9 && "web_fetch"@[0] == 'w' && "read_file"@[0] == 'r');
    assert("web_fetch"@ != "read_file"@ && "web_fetch"@ != "write_file"@ && "web_fetch"@ != "list_directory"@);
}

} // verus!
