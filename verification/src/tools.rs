//! Tool results, tool configuration and the tool definitions offered to the model.
use vstd::prelude::*;
use crate::json::{Json, JsonValue};
use crate::text::{
    can_shorten, cat, chars_of, decimal, decimal_string, lowercase, owned, same_chars, shorten,
    shortened, to_lowercase, trim, trim_chars, string_of,
};

verus! {

/// The most model requests one prompt may take.
pub const MAX_TOOL_ITERATIONS: u32 = 25;

/// The outcome of running a tool.
#[derive(Clone, Debug, PartialEq)]
pub enum ToolResult {
    Success(String),
    Error(String),
}

/// The text of a tool result as the model receives it.
pub open spec fn result_content(r: ToolResult) -> Seq<char> {
    match r {
        ToolResult::Success(m) => m@,
        ToolResult::Error(m) => "Error: "@ + m@,
    }
}

impl ToolResult {
    /// The message, with `"Error: "` before it for an error.
    pub fn to_content(&self) -> (r: String)
        ensures
            r@ == result_content(*self),
    {
        match self {
            ToolResult::Success(msg) => msg.clone(),
            ToolResult::Error(msg) => cat("Error: ", msg.as_str()),
        }
    }

    /// Whether the result is an error.
    pub fn is_error(&self) -> (b: bool)
        ensures
            b == (*self is Error),
    {
        match self {
            ToolResult::Success(_) => false,
            ToolResult::Error(_) => true,
        }
    }
}

/// A tool call as the tools see it.
#[derive(Clone, Debug, PartialEq)]
pub struct ToolCallInfo {
    pub id: String,
    pub name: String,
    pub arguments: String,
}

/// How a tool call is confirmed with the user.
#[derive(Clone, Copy, Debug, PartialEq)]
pub enum ConfirmMode {
    Prompt,
    Chat,
    Tui,
}

/// How tools run in this session.
#[derive(Clone, Debug, PartialEq)]
pub struct ToolConfig {
    pub auto_approve: bool,
    pub shell_timeout: u64,
    pub mode: ConfirmMode,
}

impl ToolConfig {
    /// A copy of the configuration.
    pub fn duplicate(&self) -> (r: ToolConfig)
        ensures
            r == *self,
    {
        ToolConfig { auto_approve: self.auto_approve, shell_timeout: self.shell_timeout, mode: self.mode }
    }
}

/// A string value.
pub open spec fn jstr(s: Seq<char>) -> Json {
    Json::Str(s)
}

/// The schema of one string parameter.
pub open spec fn param_schema(p: (Seq<char>, Seq<char>)) -> (Seq<char>, Json) {
    (p.0, Json::Object(seq![("type"@, jstr("string"@)), ("description"@, jstr(p.1))]))
}

/// A function tool with string parameters, all of them required.
pub open spec fn function_tool(name: Seq<char>, description: Seq<char>, params: Seq<(Seq<char>, Seq<char>)>) -> Json {
    Json::Object(
        seq![
            ("type"@, jstr("function"@)),
            ("function"@, Json::Object(
                seq![
                    ("name"@, jstr(name)),
                    ("description"@, jstr(description)),
                    ("parameters"@, Json::Object(
                        seq![
                            ("type"@, jstr("object"@)),
                            ("properties"@, Json::Object(params.map_values(|p: (Seq<char>, Seq<char>)| param_schema(p)))),
                            ("required"@, Json::Array(params.map_values(|p: (Seq<char>, Seq<char>)| jstr(p.0)))),
                        ],
                    )),
                ],
            )),
        ],
    )
}

/// The four tools that run on this machine: read, write, shell and web_fetch.
pub open spec fn native_tools() -> Seq<Json> {
    seq![
        function_tool(
            "read"@,
            "Read the contents of a file from the local filesystem. Returns the file content as a string. Use this to examine source code, configuration files, or any text file."@,
            seq![("path"@, "Absolute or relative path to the file to read"@)],
        ),
        function_tool(
            "write"@,
            "Write content to a file on the local filesystem. Creates parent directories if needed. This will overwrite existing files. Use with caution."@,
            seq![
                ("path"@, "Absolute or relative path to the file to write"@),
                ("content"@, "The content to write to the file"@),
            ],
        ),
        function_tool(
            "shell"@,
            "Execute a shell command and return its stdout and stderr. Use for running build commands, tests, git operations, or any CLI tool. Commands run in the user's working directory."@,
            seq![("command"@, "The shell command to execute"@)],
        ),
        function_tool(
            "web_fetch"@,
            "Fetch content from a URL. Returns the response body as text. Useful for retrieving web pages, API responses, or documentation."@,
            seq![("url"@, "The URL to fetch content from"@)],
        ),
    ]
}

/// An object with one member.
pub fn obj1(k1: &str, v1: JsonValue) -> (r: JsonValue)
    ensures
        r@ == Json::Object(seq![(k1@, v1@)]),
{
    let mut ms: Vec<(String, JsonValue)> = Vec::new();
    ms.push((owned(k1), v1));
    proof {
        crate::json::lemma_members_of(ms@);
        assert(crate::json::members_of(ms@) =~= seq![(k1@, v1@)]);
    }
    JsonValue::Object(ms)
}

/// An object with two members.
pub fn obj2(k1: &str, v1: JsonValue, k2: &str, v2: JsonValue) -> (r: JsonValue)
    ensures
        r@ == Json::Object(seq![(k1@, v1@), (k2@, v2@)]),
{
    let mut ms: Vec<(String, JsonValue)> = Vec::new();
    ms.push((owned(k1), v1));
    ms.push((owned(k2), v2));
    proof {
        crate::json::lemma_members_of(ms@);
        assert(crate::json::members_of(ms@) =~= seq![(k1@, v1@), (k2@, v2@)]);
    }
    JsonValue::Object(ms)
}

/// An object with three members.
pub fn obj3(k1: &str, v1: JsonValue, k2: &str, v2: JsonValue, k3: &str, v3: JsonValue) -> (r: JsonValue)
    ensures
        r@ == Json::Object(seq![(k1@, v1@), (k2@, v2@), (k3@, v3@)]),
{
    let mut ms: Vec<(String, JsonValue)> = Vec::new();
    ms.push((owned(k1), v1));
    ms.push((owned(k2), v2));
    ms.push((owned(k3), v3));
    proof {
        crate::json::lemma_members_of(ms@);
        assert(crate::json::members_of(ms@) =~= seq![(k1@, v1@), (k2@, v2@), (k3@, v3@)]);
    }
    JsonValue::Object(ms)
}

fn jstring(s: &str) -> (r: JsonValue)
    ensures
        r@ == jstr(s@),
{
    JsonValue::Str(owned(s))
}

fn function_tool_exec(name: &str, description: &str, params: &[(&str, &str)]) -> (r: JsonValue)
    ensures
        r@ == function_tool(
            name@,
            description@,
            params@.map_values(|p: (&str, &str)| (p.0@, p.1@)),
        ),
{
    let ghost ps = params@.map_values(|p: (&str, &str)| (p.0@, p.1@));
    let mut props: Vec<(String, JsonValue)> = Vec::new();
    let mut required: Vec<JsonValue> = Vec::new();
    let mut i: usize = 0;
    while i < params.len()
        invariant
            i <= params@.len(),
            ps == params@.map_values(|p: (&str, &str)| (p.0@, p.1@)),
            props@.len() == i,
            required@.len() == i,
            crate::json::members_of(props@) == ps.take(i as int).map_values(
                |p: (Seq<char>, Seq<char>)| param_schema(p),
            ),
            crate::json::jsons_of(required@) == ps.take(i as int).map_values(
                |p: (Seq<char>, Seq<char>)| jstr(p.0),
            ),
        decreases params@.len() - i,
    {
        let (pname, pdesc) = params[i];
        let schema = obj2("type", jstring("string"), "description", jstring(pdesc));
        let ghost old_props = props@;
        let ghost old_required = required@;
        props.push((owned(pname), schema));
        required.push(jstring(pname));
        proof {
            assert(ps.take(i + 1) == ps.take(i as int).push(ps[i as int]));
            assert(props@.drop_last() == old_props);
            assert(required@.drop_last() == old_required);
            assert(ps.take(i + 1).map_values(|p: (Seq<char>, Seq<char>)| param_schema(p)) =~= ps.take(
                i as int,
            ).map_values(|p: (Seq<char>, Seq<char>)| param_schema(p)).push(param_schema(ps[i as int])));
            assert(ps.take(i + 1).map_values(|p: (Seq<char>, Seq<char>)| jstr(p.0)) =~= ps.take(
                i as int,
            ).map_values(|p: (Seq<char>, Seq<char>)| jstr(p.0)).push(jstr(ps[i as int].0)));
        }
        i = i + 1;
    }
    let parameters = obj3(
        "type",
        jstring("object"),
        "properties",
        JsonValue::Object(props),
        "required",
        JsonValue::Array(required),
    );
    let function = obj3("name", jstring(name), "description", jstring(description), "parameters", parameters);
    proof {
        assert(ps.take(params@.len() as int) == ps);
    }
    obj2("type", jstring("function"), "function", function)
}

/// The definitions of the four tools that run on this machine.
pub fn get_native_tool_definitions() -> (r: Vec<JsonValue>)
    ensures
        crate::json::jsons_of(r@) == native_tools(),
{
    let mut r: Vec<JsonValue> = Vec::new();
    let read_params = [("path", "Absolute or relative path to the file to read")];
    r.push(function_tool_exec(
        "read",
        "Read the contents of a file from the local filesystem. Returns the file content as a string. Use this to examine source code, configuration files, or any text file.",
        &read_params,
    ));
    let write_params = [
        ("path", "Absolute or relative path to the file to write"),
        ("content", "The content to write to the file"),
    ];
    r.push(function_tool_exec(
        "write",
        "Write content to a file on the local filesystem. Creates parent directories if needed. This will overwrite existing files. Use with caution.",
        &write_params,
    ));
    let shell_params = [("command", "The shell command to execute")];
    r.push(function_tool_exec(
        "shell",
        "Execute a shell command and return its stdout and stderr. Use for running build commands, tests, git operations, or any CLI tool. Commands run in the user's working directory.",
        &shell_params,
    ));
    let fetch_params = [("url", "The URL to fetch content from")];
    r.push(function_tool_exec(
        "web_fetch",
        "Fetch content from a URL. Returns the response body as text. Useful for retrieving web pages, API responses, or documentation.",
        &fetch_params,
    ));
    proof {
        crate::json::lemma_jsons_of(r@);
        assert(read_params@.map_values(|p: (&str, &str)| (p.0@, p.1@)) =~= seq![("path"@, "Absolute or relative path to the file to read"@)]);
        assert(write_params@.map_values(|p: (&str, &str)| (p.0@, p.1@)) =~= seq![
            ("path"@, "Absolute or relative path to the file to write"@),
            ("content"@, "The content to write to the file"@),
        ]);
        assert(shell_params@.map_values(|p: (&str, &str)| (p.0@, p.1@)) =~= seq![("command"@, "The shell command to execute"@)]);
        assert(fetch_params@.map_values(|p: (&str, &str)| (p.0@, p.1@)) =~= seq![("url"@, "The URL to fetch content from"@)]);
        assert(crate::json::jsons_of(r@) =~= native_tools());
    }
    r
}

/// The web search tool, with parameters where they differ from the defaults
/// (engine `"auto"`, 5 results).
pub open spec fn web_search_tool(engine: Seq<char>, max_results: u32) -> Json {
    let base = seq![("type"@, jstr("openrouter:web_search"@))];
    if engine != "auto"@ || max_results != 5 {
        let p1 = if engine != "auto"@ {
            seq![("engine"@, jstr(engine))]
        } else {
            Seq::empty()
        };
        let p2 = if max_results != 5 {
            seq![("max_results"@, Json::Number(decimal(max_results as nat)))]
        } else {
            Seq::empty()
        };
        Json::Object(base.push(("parameters"@, Json::Object(p1 + p2))))
    } else {
        Json::Object(base)
    }
}

/// The plain web search tool.
pub open spec fn plain_web_search_tool() -> Json {
    Json::Object(seq![("type"@, jstr("openrouter:web_search"@))])
}

/// The date-and-time tool.
pub open spec fn datetime_tool() -> Json {
    Json::Object(seq![("type"@, jstr("openrouter:datetime"@))])
}

/// The tools offered to the model: the native ones, then web search, then
/// the date tool, each where it is included.
pub open spec fn tools_array(
    include_native: bool,
    include_web_search: bool,
    include_datetime: bool,
    engine: Seq<char>,
    max_results: u32,
) -> Seq<Json> {
    (if include_native {
        native_tools()
    } else {
        Seq::empty()
    }) + (if include_web_search {
        seq![web_search_tool(engine, max_results)]
    } else {
        Seq::empty()
    }) + (if include_datetime {
        seq![datetime_tool()]
    } else {
        Seq::empty()
    })
}

fn web_search_tool_exec(search_engine: &str, max_search_results: u32) -> (r: JsonValue)
    ensures
        r@ == web_search_tool(search_engine@, max_search_results),
{
    let engine = chars_of(search_engine);
    let auto = chars_of("auto");
    let is_auto = same_chars(&engine, &auto);
    if !is_auto || max_search_results != 5 {
        let mut params: Vec<(String, JsonValue)> = Vec::new();
        if !is_auto {
            params.push((owned("engine"), jstring(search_engine)));
        }
        if max_search_results != 5 {
            params.push((owned("max_results"), JsonValue::Number(decimal_string(max_search_results as u128))));
        }
        proof {
            crate::json::lemma_members_of(params@);
            let p1 = if search_engine@ != "auto"@ {
                seq![("engine"@, jstr(search_engine@))]
            } else {
                Seq::<(Seq<char>, Json)>::empty()
            };
            let p2 = if max_search_results != 5 {
                seq![("max_results"@, Json::Number(decimal(max_search_results as nat)))]
            } else {
                Seq::<(Seq<char>, Json)>::empty()
            };
            assert(crate::json::members_of(params@) =~= p1 + p2);
        }
        let ghost pv = JsonValue::Object(params)@;
        let r = obj2("type", jstring("openrouter:web_search"), "parameters", JsonValue::Object(params));
        proof {
            let base = seq![("type"@, jstr("openrouter:web_search"@))];
            assert(base.push(("parameters"@, pv)) =~= seq![("type"@, jstr("openrouter:web_search"@)), ("parameters"@, pv)]);
        }
        r
    } else {
        obj1("type", jstring("openrouter:web_search"))
    }
}

/// The tools array that a session offers to the model.
pub fn build_tools_array(
    include_native: bool,
    include_web_search: bool,
    include_datetime: bool,
    search_engine: &str,
    max_search_results: u32,
) -> (r: Vec<JsonValue>)
    ensures
        crate::json::jsons_of(r@) == tools_array(
            include_native,
            include_web_search,
            include_datetime,
            search_engine@,
            max_search_results,
        ),
{
    let mut tools: Vec<JsonValue> = if include_native {
        get_native_tool_definitions()
    } else {
        Vec::new()
    };
    let ghost first = tools@;
    if include_web_search {
        tools.push(web_search_tool_exec(search_engine, max_search_results));
    }
    let ghost second = tools@;
    if include_datetime {
        tools.push(obj1("type", jstring("openrouter:datetime")));
    }
    proof {
        crate::json::lemma_jsons_of(first);
        crate::json::lemma_jsons_of(second);
        crate::json::lemma_jsons_of(tools@);
        assert(crate::json::jsons_of(tools@) =~= tools_array(
            include_native,
            include_web_search,
            include_datetime,
            search_engine@,
            max_search_results,
        ));
    }
    tools
}

/// The server-side tools without parameters.
pub fn get_server_tools(include_web_search: bool, include_datetime: bool) -> (r: Vec<JsonValue>)
    ensures
        crate::json::jsons_of(r@) == (if include_web_search {
            seq![plain_web_search_tool()]
        } else {
            Seq::empty()
        }) + (if include_datetime {
            seq![datetime_tool()]
        } else {
            Seq::empty()
        }),
{
    let mut tools: Vec<JsonValue> = Vec::new();
    if include_web_search {
        tools.push(obj1("type", jstring("openrouter:web_search")));
    }
    let ghost first = tools@;
    if include_datetime {
        tools.push(obj1("type", jstring("openrouter:datetime")));
    }
    proof {
        crate::json::lemma_jsons_of(first);
        crate::json::lemma_jsons_of(tools@);
        assert(crate::json::jsons_of(tools@) =~= (if include_web_search {
            seq![plain_web_search_tool()]
        } else {
            Seq::empty()
        }) + (if include_datetime {
            seq![datetime_tool()]
        } else {
            Seq::empty()
        }));
    }
    tools
}

/// The server-side tools, with the web search configured.
pub fn get_server_tools_with_config(
    include_web_search: bool,
    include_datetime: bool,
    search_engine: &str,
    max_search_results: u32,
) -> (r: Vec<JsonValue>)
    ensures
        crate::json::jsons_of(r@) == tools_array(
            false,
            include_web_search,
            include_datetime,
            search_engine@,
            max_search_results,
        ),
{
    build_tools_array(false, include_web_search, include_datetime, search_engine, max_search_results)
}

/// The reply accepts with yes: `"y"` or `"yes"`, in any case, around white space.
pub open spec fn says_yes(reply: Seq<char>) -> bool {
    let l = lowercase(trim(reply));
    l == "y"@ || l == "yes"@
}

/// The reply accepts this call or all calls: yes, `"a"` or `"all"`.
pub open spec fn says_yes_or_all(reply: Seq<char>) -> bool {
    let l = lowercase(trim(reply));
    l == "y"@ || l == "yes"@ || l == "a"@ || l == "all"@
}

/// Whether a reply to the prompt confirmation approves the call.
pub fn confirm_prompt_accepts(reply: &str) -> (b: bool)
    ensures
        b == says_yes(reply@),
{
    let t = string_of(&trim_chars(&chars_of(reply)));
    let l = chars_of(to_lowercase(t.as_str()).as_str());
    same_chars(&l, &chars_of("y")) || same_chars(&l, &chars_of("yes"))
}

/// Whether a reply to the confirmation in a chat session approves the
/// call; chat asks as the prompt session does.
pub fn confirm_chat(reply: &str) -> (b: bool)
    ensures
        b == says_yes(reply@),
{
    confirm_prompt_accepts(reply)
}

/// Whether a reply to the terminal-UI confirmation approves the call.
pub fn confirm_tui_accepts(reply: &str) -> (b: bool)
    ensures
        b == says_yes_or_all(reply@),
{
    let t = string_of(&trim_chars(&chars_of(reply)));
    let l = chars_of(to_lowercase(t.as_str()).as_str());
    same_chars(&l, &chars_of("y")) || same_chars(&l, &chars_of("yes")) || same_chars(&l, &chars_of("a"))
        || same_chars(&l, &chars_of("all"))
}

/// An answer to the terminal-UI confirmation.
#[derive(Clone, Copy, Debug, PartialEq)]
pub enum TuiAnswer {
    /// Do not run this call.
    Deny,
    /// Run this call.
    Approve,
    /// Run this call and every later one of the session without asking.
    ApproveAll,
}

/// What a reply to the terminal-UI confirmation answers: `"y"` or `"yes"`
/// approve this call, `"a"` or `"all"` every remaining call, in any case and
/// around white space; anything else denies it.
pub open spec fn tui_answer_of(reply: Seq<char>) -> TuiAnswer {
    let l = lowercase(trim(reply));
    if l == "y"@ || l == "yes"@ {
        TuiAnswer::Approve
    } else if l == "a"@ || l == "all"@ {
        TuiAnswer::ApproveAll
    } else {
        TuiAnswer::Deny
    }
}

/// What a reply to the terminal-UI confirmation answers.
pub fn tui_answer(reply: &str) -> (r: TuiAnswer)
    ensures
        r == tui_answer_of(reply@),
{
    let t = string_of(&trim_chars(&chars_of(reply)));
    let l = chars_of(to_lowercase(t.as_str()).as_str());
    if same_chars(&l, &chars_of("y")) || same_chars(&l, &chars_of("yes")) {
        TuiAnswer::Approve
    } else if same_chars(&l, &chars_of("a")) || same_chars(&l, &chars_of("all")) {
        TuiAnswer::ApproveAll
    } else {
        TuiAnswer::Deny
    }
}

/// The session's tool configuration after an answer: approving all makes
/// it approve every call from then on.
pub open spec fn after_answer(config: ToolConfig, answer: TuiAnswer) -> ToolConfig {
    ToolConfig { auto_approve: config.auto_approve || answer == TuiAnswer::ApproveAll, ..config }
}

/// Takes an answer to a confirmation: whether the call runs; approving all
/// makes the session approve every later call.
pub fn record_answer(config: &mut ToolConfig, answer: TuiAnswer) -> (approved: bool)
    ensures
        approved == (answer != TuiAnswer::Deny),
        *final(config) == after_answer(*old(config), answer),
{
    match answer {
        TuiAnswer::Deny => false,
        TuiAnswer::Approve => true,
        TuiAnswer::ApproveAll => {
            config.auto_approve = true;
            true
        },
    }
}

/// The arguments shown in a confirmation: at most 100 bytes, then `"..."`.
pub fn truncate_args(args: &str) -> (r: String)
    requires
        can_shorten(args@, 100),
    ensures
        r@ == shortened(args@, 100),
{
    shorten(args, 100)
}

/// The question asked before a call runs, in prompt and chat sessions.
pub fn confirm_prompt_message(tool_name: &str, arguments: &str) -> (r: String)
    requires
        can_shorten(arguments@, 100),
    ensures
        r@ == "\n\u{2699} "@ + tool_name@ + "("@ + shortened(arguments@, 100) + ")\nAllow? [y/N] "@,
{
    let a = cat("\n\u{2699} ", tool_name);
    let b = cat(a.as_str(), "(");
    let c = cat(b.as_str(), truncate_args(arguments).as_str());
    cat(c.as_str(), ")\nAllow? [y/N] ")
}

/// The question asked before a call runs, in the terminal UI.
pub fn confirm_tui_message(tool_name: &str, arguments: &str) -> (r: String)
    requires
        can_shorten(arguments@, 100),
    ensures
        r@ == "\n\u{2699} Tool call: "@ + tool_name@ + "("@ + shortened(arguments@, 100) + ")\n"@
            + "Allow? [y/N/a(ll)] "@,
{
    let a = cat("\n\u{2699} Tool call: ", tool_name);
    let b = cat(a.as_str(), "(");
    let c = cat(b.as_str(), truncate_args(arguments).as_str());
    let d = cat(c.as_str(), ")\n");
    cat(d.as_str(), "Allow? [y/N/a(ll)] ")
}

/// The tools that run on this machine.
#[derive(Clone, Copy, Debug, PartialEq)]
pub enum NativeTool {
    Read,
    Write,
    Shell,
    WebFetch,
}

/// The native tool of a name.
pub open spec fn native_tool_named(name: Seq<char>) -> Option<NativeTool> {
    if name == "read"@ {
        Some(NativeTool::Read)
    } else if name == "write"@ {
        Some(NativeTool::Write)
    } else if name == "shell"@ {
        Some(NativeTool::Shell)
    } else if name == "web_fetch"@ {
        Some(NativeTool::WebFetch)
    } else {
        None
    }
}

/// Writing files and running commands need the user's approval.
pub open spec fn needs_confirmation(name: Seq<char>) -> bool {
    name == "write"@ || name == "shell"@
}

/// How a call of a tool is confirmed in a session: writing and shell
/// commands in the session's way of asking, unless it approves everything.
pub open spec fn confirmation(name: Seq<char>, config: ToolConfig) -> Option<ConfirmMode> {
    if needs_confirmation(name) && !config.auto_approve {
        Some(config.mode)
    } else {
        None
    }
}

/// A tool call ready to run, once confirmed where `confirm` asks for it.
#[derive(Debug, PartialEq)]
pub struct ToolRequest {
    pub tool: Option<NativeTool>,
    pub args: Vec<(String, JsonValue)>,
    pub confirm: Option<ConfirmMode>,
}

/// The first steps of running a tool call: its arguments must be a JSON
/// object; writing and shell commands are confirmed unless the session
/// approves everything.
pub fn prepare_native_tool(name: &str, arguments: &str, config: &ToolConfig) -> (r: Result<ToolRequest, ToolResult>)
    ensures
        match crate::json::serde_parse_object(arguments@) {
            Err(e) => r matches Err(ToolResult::Error(m)) && m@ == "Invalid JSON arguments: "@ + e,
            Ok(ms) => r matches Ok(req) && crate::json::members_of(req.args@) == ms && req.tool
                == native_tool_named(name@) && req.confirm == confirmation(name@, *config),
        },
{
    let args = match crate::json::parse_json_object(arguments) {
        Ok(a) => a,
        Err(e) => return Err(ToolResult::Error(cat("Invalid JSON arguments: ", e.as_str()))),
    };
    let n = chars_of(name);
    let tool = if same_chars(&n, &chars_of("read")) {
        Some(NativeTool::Read)
    } else if same_chars(&n, &chars_of("write")) {
        Some(NativeTool::Write)
    } else if same_chars(&n, &chars_of("shell")) {
        Some(NativeTool::Shell)
    } else if same_chars(&n, &chars_of("web_fetch")) {
        Some(NativeTool::WebFetch)
    } else {
        None
    };
    let needs = same_chars(&n, &chars_of("write")) || same_chars(&n, &chars_of("shell"));
    let confirm = if needs && !config.auto_approve {
        Some(config.mode)
    } else {
        None
    };
    Ok(ToolRequest { tool, args, confirm })
}

/// The result of a call the user did not approve.
pub fn denied_result() -> (r: ToolResult)
    ensures
        r matches ToolResult::Error(m) && m@ == "User denied this tool call."@,
{
    ToolResult::Error(owned("User denied this tool call."))
}

/// The result of a call to a tool that does not exist.
pub fn unknown_tool_result(name: &str) -> (r: ToolResult)
    ensures
        r matches ToolResult::Error(m) && m@ == "Unknown tool: "@ + name@,
{
    ToolResult::Error(cat("Unknown tool: ", name))
}

/// The text of the argument `key`, where it is a string.
pub open spec fn arg_text(args: Seq<(Seq<char>, Json)>, key: Seq<char>) -> Option<Seq<char>> {
    match crate::json::member_value(args, key) {
        Some(Json::Str(s)) => Some(s),
        _ => None,
    }
}

/// The string argument `key`, or the error that it is missing.
pub fn required_arg(args: &Vec<(String, JsonValue)>, key: &str) -> (r: Result<String, ToolResult>)
    ensures
        match arg_text(crate::json::members_of(args@), key@) {
            Some(s) => r matches Ok(v) && v@ == s,
            None => r matches Err(ToolResult::Error(m)) && m@ == "Missing '"@ + key@ + "' argument"@,
        },
{
    let found = match crate::json::member(args, key) {
        Some(JsonValue::Str(s)) => Some(s.clone()),
        _ => None,
    };
    match found {
        Some(s) => Ok(s),
        None => {
            let a = cat("Missing '", key);
            Err(ToolResult::Error(cat(a.as_str(), "' argument")))
        },
    }
}

/// Once a session approves every call, no later call asks: whatever the
/// tool, its confirmation is none.
pub proof fn lemma_approve_all_remaining(config: ToolConfig, name: Seq<char>)
    requires
        config.auto_approve,
    ensures
        confirmation(name, config) is None,
{
}

/// Answering "all" approves the call at hand and every remaining call of
/// the session: no later call, of any tool, asks again.
pub proof fn lemma_all_answer_approves_the_rest(config: ToolConfig, answer: TuiAnswer, name: Seq<char>)
    requires
        answer == TuiAnswer::ApproveAll,
    ensures
        confirmation(name, after_answer(config, answer)) is None,
{
}

/// The web search tool always names its type; it has parameters exactly
/// when the engine is not `"auto"` or the results are not 5, and then its
/// `"engine"` is the engine whenever that is not `"auto"`, and its
/// `"max_results"` is the number whenever that is not 5.
pub proof fn lemma_web_search_parameters(engine: Seq<char>, max_results: u32)
    ensures
        crate::json::get(web_search_tool(engine, max_results), "type"@) == Some(
            Json::Str("openrouter:web_search"@),
        ),
        (crate::json::get(web_search_tool(engine, max_results), "parameters"@) is Some) <==> (engine
            != "auto"@ || max_results != 5),
        engine != "auto"@ ==> (crate::json::get(web_search_tool(engine, max_results), "parameters"@)
            matches Some(p) && crate::json::get(p, "engine"@) == Some(Json::Str(engine))),
        max_results != 5 ==> (crate::json::get(web_search_tool(engine, max_results), "parameters"@)
            matches Some(p) && crate::json::get(p, "max_results"@) == Some(
            Json::Number(decimal(max_results as nat)),
        )),
        engine == "auto"@ ==> (crate::json::get(web_search_tool(engine, max_results), "parameters"@)
            matches Some(p) ==> crate::json::get(p, "engine"@) is None),
{
    reveal_strlit("type");
    reveal_strlit("parameters");
    reveal_strlit("engine");
    reveal_strlit("max_results");
    assert("type"@ != "parameters"@) by {
        assert("type"@[0] != "parameters"@[0]);
    }
    assert("engine"@ != "max_results"@) by {
        assert("engine"@[0] != "max_results"@[0]);
    }
    let base = seq![("type"@, jstr("openrouter:web_search"@))];
    assert(crate::json::member_value(base, "type"@) == Some(jstr("openrouter:web_search"@)));
    assert(base.last().0 != "parameters"@);
    assert(base.drop_last() =~= Seq::<(Seq<char>, Json)>::empty());
    assert(crate::json::member_value(base.drop_last(), "parameters"@) is None);
    assert(crate::json::member_value(base, "parameters"@) is None);
    if engine != "auto"@ || max_results != 5 {
        let p1 = if engine != "auto"@ {
            seq![("engine"@, jstr(engine))]
        } else {
            Seq::<(Seq<char>, Json)>::empty()
        };
        let p2 = if max_results != 5 {
            seq![("max_results"@, Json::Number(decimal(max_results as nat)))]
        } else {
            Seq::<(Seq<char>, Json)>::empty()
        };
        let ps = p1 + p2;
        let full = base.push(("parameters"@, Json::Object(ps)));
        assert(full.drop_last() =~= base);
        assert(crate::json::member_value(full, "type"@) == Some(jstr("openrouter:web_search"@)));
        if engine != "auto"@ {
            assert(p1.last().0 == "engine"@);
            assert(crate::json::member_value(p1, "engine"@) == Some(Json::Str(engine)));
            if max_results != 5 {
                assert(ps.drop_last() =~= p1);
                assert(ps.last().0 == "max_results"@);
            } else {
                assert(ps =~= p1);
                assert(p1.drop_last() =~= Seq::<(Seq<char>, Json)>::empty());
            }
            assert(crate::json::member_value(ps, "engine"@) == Some(Json::Str(engine)));
        } else {
            assert(ps =~= p2);
            assert(p2.drop_last() =~= Seq::<(Seq<char>, Json)>::empty());
            assert(crate::json::member_value(ps, "engine"@) is None);
        }
        if max_results != 5 {
            assert(ps.last() == ("max_results"@, Json::Number(decimal(max_results as nat))));
        }
    }
}

} // verus!
