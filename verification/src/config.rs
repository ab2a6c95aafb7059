//! Settings of the daemon, with their defaults.

use vstd::prelude::*;

use crate::text::texts;

verus! {

pub struct Config {
    pub data_dir: String,
    pub discord: DiscordCfg,
    pub mcp: McpCfg,
    pub claude: ClaudeCfg,
}

pub struct DiscordCfg {
    pub token_file: String,
}

pub struct McpCfg {
    pub port: u16,
}

pub struct ClaudeCfg {
    pub binary: String,
    pub model: String,
    pub session_max_wakes: u64,
    pub debounce_seconds: u64,
    pub turn_timeout_minutes: u64,
    pub disallowed_tools: Vec<String>,
    pub extra_args: Vec<String>,
}

impl Default for DiscordCfg {
    fn default() -> (c: Self)
        ensures
            c.token_file@ == "data/discord-token"@,
    {
        DiscordCfg { token_file: d_token_file() }
    }
}

impl Default for McpCfg {
    fn default() -> (c: Self)
        ensures
            c.port == 43117,
    {
        McpCfg { port: d_port() }
    }
}

impl ClaudeCfg {
    /// The defaults for sessions that run the command-line program `binary`.
    pub fn with_binary(binary: String) -> (c: Self)
        ensures
            c.binary@ == binary@,
            c.model@ == "sonnet"@,
            c.session_max_wakes == 50,
            c.debounce_seconds == 3,
            c.turn_timeout_minutes == 30,
            texts(c.disallowed_tools@) == builtin_tools(),
            texts(c.disallowed_tools@).no_duplicates(),
            c.extra_args@.len() == 0,
    {
        ClaudeCfg {
            binary,
            model: d_model(),
            session_max_wakes: d_session_max_wakes(),
            debounce_seconds: d_debounce(),
            turn_timeout_minutes: d_turn_timeout(),
            disallowed_tools: d_disallowed(),
            extra_args: Vec::new(),
        }
    }
}

pub fn d_data_dir() -> (s: String)
    ensures
        s@ == "data"@,
{
    "data".to_owned()
}

pub fn d_token_file() -> (s: String)
    ensures
        s@ == "data/discord-token"@,
{
    "data/discord-token".to_owned()
}

pub fn d_port() -> (n: u16)
    ensures
        n == 43117,
{
    43117
}

pub fn d_model() -> (s: String)
    ensures
        s@ == "sonnet"@,
{
    "sonnet".to_owned()
}

pub fn d_session_max_wakes() -> (n: u64)
    ensures
        n == 50,
{
    50
}

pub fn d_debounce() -> (n: u64)
    ensures
        n == 3,
{
    3
}

pub fn d_turn_timeout() -> (n: u64)
    ensures
        n == 30,
{
    30
}

/// Every tool that a session would have of its own.
pub open spec fn builtin_tools() -> Seq<Seq<char>> {
    seq![
        "Bash"@,
        "Edit"@,
        "Write"@,
        "Read"@,
        "Glob"@,
        "Grep"@,
        "LS"@,
        "NotebookEdit"@,
        "NotebookRead"@,
        "Task"@,
        "WebFetch"@,
        "WebSearch"@,
    ]
}

/// No built-in tool at all by default: a session has the discord tools and
/// nothing else.
pub fn d_disallowed() -> (v: Vec<String>)
    ensures
        texts(v@) == builtin_tools(),
        texts(v@).no_duplicates(),
{
    let mut v: Vec<String> = Vec::new();
    v.push("Bash".to_owned());
    v.push("Edit".to_owned());
    v.push("Write".to_owned());
    v.push("Read".to_owned());
    v.push("Glob".to_owned());
    v.push("Grep".to_owned());
    v.push("LS".to_owned());
    v.push("NotebookEdit".to_owned());
    v.push("NotebookRead".to_owned());
    v.push("Task".to_owned());
    v.push("WebFetch".to_owned());
    v.push("WebSearch".to_owned());
    assert(texts(v@) =~= builtin_tools());
    proof {
        builtin_tools_are_distinct();
    }
    v
}

/// No built-in tool is listed twice.
pub proof fn builtin_tools_are_distinct()
    ensures
        builtin_tools().no_duplicates(),
{
    reveal_strlit("Bash");
    reveal_strlit("Edit");
    reveal_strlit("Write");
    reveal_strlit("Read");
    reveal_strlit("Glob");
    reveal_strlit("Grep");
    reveal_strlit("LS");
    reveal_strlit("NotebookEdit");
    reveal_strlit("NotebookRead");
    reveal_strlit("Task");
    reveal_strlit("WebFetch");
    reveal_strlit("WebSearch");
    let n = builtin_tools();
    assert forall|i: int, j: int| 0 <= i < j < n.len() implies n[i].len() != n[j].len() || n[i][0]
        != n[j][0] || n[i][1] != n[j][1] || n[i][8] != n[j][8] by {}
}

/// What a session may do with the machine, or on the web, by tools of its own is
/// on the list of what it may not use.
pub proof fn no_builtin_tool_is_left()
    ensures
        builtin_tools().contains("Bash"@),
        builtin_tools().contains("Edit"@),
        builtin_tools().contains("Write"@),
        builtin_tools().contains("Read"@),
        builtin_tools().contains("Glob"@),
        builtin_tools().contains("Grep"@),
        builtin_tools().contains("LS"@),
        builtin_tools().contains("NotebookEdit"@),
        builtin_tools().contains("NotebookRead"@),
        builtin_tools().contains("Task"@),
        builtin_tools().contains("WebFetch"@),
        builtin_tools().contains("WebSearch"@),
{
    let n = builtin_tools();
    assert(n[0] == "Bash"@ && n[1] == "Edit"@ && n[2] == "Write"@ && n[3] == "Read"@ && n[4]
        == "Glob"@ && n[5] == "Grep"@ && n[6] == "LS"@ && n[7] == "NotebookEdit"@ && n[8]
        == "NotebookRead"@ && n[9] == "Task"@ && n[10] == "WebFetch"@ && n[11] == "WebSearch"@);
}

} // verus!
