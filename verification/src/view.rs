//! What the interface shows and accepts: message bubbles, the input line, the
//! MCP server list and the form that adds a server. Drawing is the caller's.
use vstd::prelude::*;

use crate::chat::agent::{decimal, to_decimal};
use crate::chat::mcp::{headers_of, is_uuid_text, Headers, McpServerConfig, McpTransport};
use crate::chat::mcp_client::{join_space, join_with_space, texts};
use crate::chat::ExecMode;
use crate::json::{json_parse, spec_json_parse};
use crate::storage::{pair_texts, string_object, string_pairs_from_json};
use crate::text::{concat, owned, is_blank, is_whitespace, is_ws, push_char, to_chars, trim};
use crate::types::{ChatRole, ContentPart, Message, MessageModel, PartModel, parts_text};

verus! {

// ---------------------------------------------------------------------------
// Settings
// ---------------------------------------------------------------------------

/// Whether the model client must be built again: the adapter (by its name) or
/// the API key differs from those it was built with.
pub fn client_outdated(built_adapter: &str, adapter: &str, built_key: &str, key: &str) -> (r: bool)
    ensures
        r == (built_adapter@ != adapter@ || built_key@ != key@),
{
    !(owned(built_adapter) == owned(adapter)) || !(owned(built_key) == owned(key))
}

// ---------------------------------------------------------------------------
// Message bubbles
// ---------------------------------------------------------------------------

/// What a message bubble shows.
#[derive(Debug)]
pub enum BubbleContent {
    /// Nothing: tool answers and the assistant's tool requests are not shown.
    Hidden,
    /// An assistant reply with no text yet.
    Thinking,
    /// An assistant reply, rendered as markdown, with a note of the tools it
    /// called.
    Markdown { text: String, tools_note: Option<String> },
    /// Any other message, as plain text.
    Plain(String),
}

/// The content of a `BubbleContent`.
pub enum BubbleModel {
    Hidden,
    Thinking,
    Markdown(Seq<char>, Option<Seq<char>>),
    Plain(Seq<char>),
}

/// The text of an optional string.
pub open spec fn optional_text(o: Option<String>) -> Option<Seq<char>> {
    match o {
        Some(t) => Some(t@),
        None => None,
    }
}

impl View for BubbleContent {
    type V = BubbleModel;

    open spec fn view(&self) -> BubbleModel {
        match self {
            BubbleContent::Hidden => BubbleModel::Hidden,
            BubbleContent::Thinking => BubbleModel::Thinking,
            BubbleContent::Markdown { text, tools_note } => BubbleModel::Markdown(text@, optional_text(*tools_note)),
            BubbleContent::Plain(t) => BubbleModel::Plain(t@),
        }
    }
}

/// Whether some part of a message is a tool call.
pub open spec fn has_tool_call(parts: Seq<PartModel>) -> bool {
    exists|i: int| 0 <= i < parts.len() && #[trigger] parts[i] is ToolCall
}

/// `🔧 {n} tool called` or `🔧 {n} tools called`.
pub open spec fn tools_note(n: nat) -> Seq<char> {
    "\u{1F527} "@ + decimal(n) + (if n == 1 {
        " tool called"@
    } else {
        " tools called"@
    })
}

/// What the bubble of a message shows.
pub open spec fn bubble(m: MessageModel) -> BubbleModel {
    let role = m.message.role;
    let text = parts_text(m.message.content);
    if role == ChatRole::Tool {
        BubbleModel::Hidden
    } else if role == ChatRole::Assistant && has_tool_call(m.message.content) {
        BubbleModel::Hidden
    } else if role == ChatRole::Assistant && text.len() == 0 {
        BubbleModel::Thinking
    } else if role == ChatRole::Assistant {
        BubbleModel::Markdown(
            text,
            if m.tools_called > 0 {
                Some(tools_note(m.tools_called as nat))
            } else {
                None
            },
        )
    } else {
        BubbleModel::Plain(text)
    }
}

/// `🔧 {n} tool(s) called`.
pub fn tools_called_note(n: usize) -> (r: String)
    ensures
        r@ == tools_note(n as nat),
{
    let mut r = concat("\u{1F527} ", to_decimal(n).as_str());
    if n == 1 {
        r.append(" tool called");
    } else {
        r.append(" tools called");
    }
    r
}

fn calls_a_tool(parts: &Vec<ContentPart>) -> (r: bool)
    ensures
        r == has_tool_call(parts@.map_values(|p: ContentPart| p@)),
{
    let ghost v = parts@.map_values(|p: ContentPart| p@);
    let mut i: usize = 0;
    while i < parts.len()
        invariant
            i <= parts.len(),
            v == parts@.map_values(|p: ContentPart| p@),
            forall|j: int| 0 <= j < i ==> !(#[trigger] v[j] is ToolCall),
        decreases parts.len() - i,
    {
        if let ContentPart::ToolCall(_) = &parts[i] {
            assert(v[i as int] is ToolCall);
            return true;
        }
        i = i + 1;
    }
    false
}

/// What the bubble of `msg` shows.
pub fn bubble_content(msg: &Message) -> (r: BubbleContent)
    ensures
        r@ == bubble(msg@),
{
    let role = msg.message.role;
    if role == ChatRole::Tool {
        return BubbleContent::Hidden;
    }
    if role == ChatRole::Assistant && calls_a_tool(&msg.message.content) {
        return BubbleContent::Hidden;
    }
    let text = msg.message.text();
    if role == ChatRole::Assistant {
        if text.as_str().is_empty() {
            return BubbleContent::Thinking;
        }
        let tools_note = if msg.tools_called > 0 {
            Some(tools_called_note(msg.tools_called))
        } else {
            None
        };
        return BubbleContent::Markdown { text, tools_note };
    }
    BubbleContent::Plain(text)
}

/// Whether the bubble of `msg` stands on the user's side.
pub fn is_user_bubble(msg: &Message) -> (r: bool)
    ensures
        r == (msg@.message.role == ChatRole::User),
{
    msg.message.role == ChatRole::User
}

/// `Executing tool `{name}`...`, the note shown while a tool runs.
pub fn executing_tool_label(tool_name: &str) -> (r: String)
    ensures
        r@ == "Executing tool `"@ + tool_name@ + "`..."@,
{
    let mut r = concat("Executing tool `", tool_name);
    r.append("`...");
    r
}

// ---------------------------------------------------------------------------
// The input line
// ---------------------------------------------------------------------------

/// Shift+Enter starts a new line, unless sending is disabled.
pub fn new_line(input: &mut String, sending_disabled: bool)
    ensures
        final(input)@ == if sending_disabled {
            old(input)@
        } else {
            old(input)@.push('\n')
        },
{
    if !sending_disabled {
        push_char(input, '\n');
    }
}

/// Takes the typed text out of the input line when sending is asked for and
/// allowed and the text is not blank; otherwise leaves it there.
pub fn take_submission(input: &mut String, sending_disabled: bool, requested: bool) -> (r: Option<String>)
    ensures
        if !sending_disabled && requested && trim(old(input)@).len() > 0 {
            r matches Some(t) && t@ == old(input)@ && final(input)@.len() == 0
        } else {
            r is None && final(input)@ == old(input)@
        },
{
    if !sending_disabled && requested && !is_blank(input.as_str()) {
        let t = input.clone();
        *input = String::new();
        Some(t)
    } else {
        None
    }
}

/// The hint of the input line.
pub fn input_hint(sending_disabled: bool) -> (r: &'static str)
    ensures
        r@ == if sending_disabled {
            "Waiting for response..."@
        } else {
            "Message..."@
        },
{
    if sending_disabled {
        "Waiting for response..."
    } else {
        "Message..."
    }
}

/// The note beside the mode switch.
pub fn mode_note(mode: ExecMode) -> (r: &'static str)
    ensures
        r@ == match mode {
            ExecMode::Chat => "Tools disabled"@,
            ExecMode::Agent => "Tools active"@,
        },
{
    match mode {
        ExecMode::Chat => "Tools disabled",
        ExecMode::Agent => "Tools active",
    }
}

// ---------------------------------------------------------------------------
// The MCP server list
// ---------------------------------------------------------------------------

/// How the server list names a transport.
pub open spec fn transport_label_text(t: McpTransport) -> Seq<char> {
    match t {
        McpTransport::Stdio => "stdio"@,
        McpTransport::Sse => "SSE"@,
        McpTransport::StreamableHttp => "StreamableHTTP"@,
    }
}

/// `Transport: {name}`.
pub fn transport_line(t: McpTransport) -> (r: String)
    ensures
        r@ == "Transport: "@ + transport_label_text(t),
{
    let label = match t {
        McpTransport::Stdio => "stdio",
        McpTransport::Sse => "SSE",
        McpTransport::StreamableHttp => "StreamableHTTP",
    };
    concat("Transport: ", label)
}

/// The mark of an enabled or disabled server.
pub fn status_label(enabled: bool) -> (r: &'static str)
    ensures
        r@ == if enabled {
            "\u{1F7E2} Enabled"@
        } else {
            "\u{1F534} Disabled"@
        },
{
    if enabled {
        "\u{1F7E2} Enabled"
    } else {
        "\u{1F534} Disabled"
    }
}

/// The second line of a server's entry: its command line for a local process,
/// its URL for a remote one, where it has one.
pub open spec fn server_detail_text(c: McpServerConfig) -> Option<Seq<char>> {
    match c.transport {
        McpTransport::Stdio => match c.command {
            Some(cmd) => Some("Command: "@ + cmd@ + " "@ + join_space(texts(c.args@))),
            None => None,
        },
        _ => match c.url {
            Some(u) => Some("URL: "@ + u@),
            None => None,
        },
    }
}

/// The second line of a server's entry.
pub fn server_detail(c: &McpServerConfig) -> (r: Option<String>)
    ensures
        optional_text(r) == server_detail_text(*c),
{
    match c.transport {
        McpTransport::Stdio => match &c.command {
            Some(cmd) => {
                let mut line = concat("Command: ", cmd.as_str());
                line.append(" ");
                line.append(join_with_space(&c.args).as_str());
                Some(line)
            },
            None => None,
        },
        _ => match &c.url {
            Some(u) => Some(concat("URL: ", u.as_str())),
            None => None,
        },
    }
}

// ---------------------------------------------------------------------------
// The form that adds an MCP server
// ---------------------------------------------------------------------------

/// The words of a text: its runs of non-whitespace characters, in order
/// (`str::split_whitespace`). `word` is the run being read and `done` the runs
/// already read.
pub open spec fn words_from(s: Seq<char>, word: Seq<char>, done: Seq<Seq<char>>) -> Seq<Seq<char>>
    decreases s.len(),
{
    let closed = if word.len() > 0 {
        done.push(word)
    } else {
        done
    };
    if s.len() == 0 {
        closed
    } else if is_ws(s[0]) {
        words_from(s.drop_first(), Seq::empty(), closed)
    } else {
        words_from(s.drop_first(), word.push(s[0]), done)
    }
}

/// The words of a text, split at whitespace.
pub open spec fn words(s: Seq<char>) -> Seq<Seq<char>> {
    words_from(s, Seq::empty(), Seq::empty())
}

/// The arguments typed in the form, split at whitespace.
pub fn split_args(text: &str) -> (r: Vec<String>)
    ensures
        texts(r@) == words(text@),
{
    let chars = to_chars(text);
    let ghost s = text@;
    let mut out: Vec<String> = Vec::new();
    let mut word = String::new();
    let mut i: usize = 0;
    assert(s.skip(0) =~= s);
    assert(texts(out@) =~= Seq::<Seq<char>>::empty());
    while i < chars.len()
        invariant
            chars@ == s,
            i <= s.len(),
            words(s) == words_from(s.skip(i as int), word@, texts(out@)),
        decreases chars.len() - i,
    {
        let c = chars[i];
        assert(s.skip(i as int).drop_first() =~= s.skip(i + 1));
        assert(s.skip(i as int)[0] == c);
        if is_whitespace(c) {
            if !word.as_str().is_empty() {
                let ghost before = out@;
                out.push(word);
                assert(texts(out@) =~= texts(before).push(word@));
            }
            word = String::new();
            assert(word@ =~= Seq::<char>::empty());
        } else {
            push_char(&mut word, c);
        }
        i = i + 1;
    }
    assert(s.skip(i as int) =~= Seq::<char>::empty());
    if !word.as_str().is_empty() {
        let ghost before = out@;
        out.push(word);
        assert(texts(out@) =~= texts(before).push(word@));
    }
    out
}

/// The headers typed in the form: the pairs of a JSON object of strings, or
/// none where the text is blank or not such an object.
pub open spec fn form_headers_text(text: Seq<char>) -> Seq<(Seq<char>, Seq<char>)> {
    if trim(text).len() == 0 {
        Seq::empty()
    } else {
        match spec_json_parse(text) {
            Some(doc) => match string_object(doc) {
                Some(pairs) => pairs,
                None => Seq::empty(),
            },
            None => Seq::empty(),
        }
    }
}

/// The headers typed in the form.
pub fn form_headers(text: &str) -> (r: Vec<(String, String)>)
    ensures
        pair_texts(r@) == form_headers_text(text@),
{
    if is_blank(text) {
        return Vec::new();
    }
    match json_parse(text) {
        Ok(doc) => match string_pairs_from_json(&doc) {
            Some(pairs) => pairs,
            None => Vec::new(),
        },
        Err(_) => Vec::new(),
    }
}

/// What the user typed to add an MCP server.
#[derive(Debug)]
pub struct AddMcpForm {
    pub name: String,
    pub transport: McpTransport,
    pub command: String,
    /// Arguments separated by whitespace.
    pub args: String,
    pub url: String,
    /// An optional JSON object of header values.
    pub headers: String,
}

impl Default for AddMcpForm {
    fn default() -> (r: Self)
        ensures
            r.name@.len() == 0,
            r.transport == McpTransport::Stdio,
            r.command@.len() == 0,
            r.args@.len() == 0,
            r.url@.len() == 0,
            r.headers@.len() == 0,
    {
        AddMcpForm {
            name: String::new(),
            transport: McpTransport::Stdio,
            command: String::new(),
            args: String::new(),
            url: String::new(),
            headers: String::new(),
        }
    }
}

/// Whether the form may be submitted: a name, and a command for a local
/// process or a URL for a remote server.
pub open spec fn form_complete(f: AddMcpForm) -> bool {
    f.name@.len() > 0 && match f.transport {
        McpTransport::Stdio => f.command@.len() > 0,
        _ => f.url@.len() > 0,
    }
}

/// The error the form's server fails validation with, if any.
pub open spec fn form_error(f: AddMcpForm) -> Option<Seq<char>> {
    match f.transport {
        McpTransport::Stdio => if f.command@.len() == 0 {
            Some("Stdio transport requires a command"@)
        } else {
            None
        },
        _ => if f.url@.len() == 0 {
            Some("SSE/StreamableHTTP transport requires a URL"@)
        } else {
            None
        },
    }
}

/// The server a form describes: a fresh id, the typed name and transport, the
/// command and its arguments for a local process or the URL otherwise, the
/// typed headers, enabled, with no tool filter.
pub open spec fn server_from_form(c: McpServerConfig, f: AddMcpForm) -> bool {
    &&& is_uuid_text(c.id@)
    &&& c.name@ == f.name@
    &&& c.transport == f.transport
    &&& c.command == (match f.transport {
        McpTransport::Stdio => Some(f.command),
        _ => None,
    })
    &&& texts(c.args@) == (match f.transport {
        McpTransport::Stdio => words(f.args@),
        _ => Seq::empty(),
    })
    &&& c.url == (match f.transport {
        McpTransport::Stdio => None,
        _ => Some(f.url),
    })
    &&& c.headers@ == headers_of(form_headers_text(f.headers@))
    &&& c.enabled
    &&& c.tool_filter is None
}

impl AddMcpForm {
    /// Whether the form may be submitted.
    pub fn can_save(&self) -> (r: bool)
        ensures
            r == form_complete(*self),
    {
        !self.name.as_str().is_empty() && match self.transport {
            McpTransport::Stdio => !self.command.as_str().is_empty(),
            _ => !self.url.as_str().is_empty(),
        }
    }

    /// The server the form describes, once it passes validation.
    pub fn to_server(&self) -> (r: Result<McpServerConfig, String>)
        ensures
            match r {
                Ok(c) => form_error(*self) is None && server_from_form(c, *self),
                Err(e) => form_error(*self) == Some(e@),
            },
    {
        let headers = form_headers(self.headers.as_str());
        let mut server = match self.transport {
            McpTransport::Stdio => McpServerConfig::new_stdio(
                self.name.clone(),
                self.command.clone(),
                split_args(self.args.as_str()),
            ),
            McpTransport::Sse => McpServerConfig::new_sse(self.name.clone(), self.url.clone()),
            McpTransport::StreamableHttp => McpServerConfig::new_streamable_http(
                self.name.clone(),
                self.url.clone(),
            ),
        };
        if self.transport != McpTransport::Stdio {
            assert(texts(server.args@) =~= Seq::<Seq<char>>::empty());
        }
        server.headers = Headers::from_pairs(headers);
        match server.validate() {
            Ok(()) => Ok(server),
            Err(e) => Err(e),
        }
    }
}

} // verus!
