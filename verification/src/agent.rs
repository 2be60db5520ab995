use vstd::prelude::*;
use crate::json::{JsonValue, JsonModel, string_from_chars, str_chars, str_eq};
use crate::text::{spec_contains, contains_pat, spec_find, find_from, copy_range, spec_dec, dec_chars};
use crate::extract::{ToolCall, FunctionCall, calls_model};
use vstd::string::StrSliceExecFns;

verus! {

broadcast use vstd::seq::group_seq_axioms, vstd::std_specs::vec::group_vec_axioms, vstd::string::group_string_axioms;

/// The deployment profile: the restricted profile forcibly disables a few
/// tools and narrows where files may be written.
#[derive(Debug, Clone, Copy, PartialEq, Eq, Structural)]
pub enum AppMode {
    Developer,
    Student,
}

impl AppMode {
    /// The path prefixes the restricted profile may write under; the
    /// developer profile is not narrowed here.
    pub fn allowed_write_prefixes(self) -> (r: Vec<String>)
        ensures
            self is Student ==> r@.len() == 2 && r@[0]@ == "research"@ && r@[1]@
                == "generated-guides"@,
            self is Developer ==> r@.len() == 0,
    {
        let mut r: Vec<String> = Vec::new();
        match self {
            AppMode::Student => {
                r.push(string_from_chars(&str_chars("research")));
                r.push(string_from_chars(&str_chars("generated-guides")));
            }
            AppMode::Developer => {
            }
        }
        r
    }
}

/// The chat-completion provider driven by the agent.
#[derive(Debug, Clone, Copy, PartialEq, Eq, Structural)]
pub enum AIProvider {
    Minimax,
    Grok,
    Gemini,
}

impl AIProvider {
    /// The service's endpoint root.
    pub fn base_url(&self) -> (r: &'static str)
        ensures
            r@ == spec_base_url(*self),
    {
        match self {
            AIProvider::Minimax => "https://api.minimax.io/v1",
            AIProvider::Grok => "https://api.x.ai/v1",
            AIProvider::Gemini => "https://generativelanguage.googleapis.com/v1beta",
        }
    }

    /// The model requested from the service.
    pub fn model_name(&self) -> (r: &'static str)
        ensures
            r@ == spec_model_name(*self),
    {
        match self {
            AIProvider::Minimax => "MiniMax-M2",
            AIProvider::Grok => "grok-4-1-fast",
            AIProvider::Gemini => "gemini-1.5-flash",
        }
    }

    /// The provider's name as shown to the user.
    pub fn display_name(&self) -> (r: &'static str)
        ensures
            r@ == spec_display_name(*self),
    {
        match self {
            AIProvider::Minimax => "MiniMax M2",
            AIProvider::Grok => "Grok 4.1",
            AIProvider::Gemini => "Gemini 1.5 Flash",
        }
    }
}

pub open spec fn spec_base_url(p: AIProvider) -> Seq<char> {
    match p {
        AIProvider::Minimax => "https://api.minimax.io/v1"@,
        AIProvider::Grok => "https://api.x.ai/v1"@,
        AIProvider::Gemini => "https://generativelanguage.googleapis.com/v1beta"@,
    }
}

pub open spec fn spec_model_name(p: AIProvider) -> Seq<char> {
    match p {
        AIProvider::Minimax => "MiniMax-M2"@,
        AIProvider::Grok => "grok-4-1-fast"@,
        AIProvider::Gemini => "gemini-1.5-flash"@,
    }
}

pub open spec fn spec_display_name(p: AIProvider) -> Seq<char> {
    match p {
        AIProvider::Minimax => "MiniMax M2"@,
        AIProvider::Grok => "Grok 4.1"@,
        AIProvider::Gemini => "Gemini 1.5 Flash"@,
    }
}

/// One entry of the conversation history.
#[derive(Debug, Clone)]
pub struct Message {
    pub role: String,
    pub content: String,
    pub tool_calls: Option<Vec<ToolCall>>,
    pub tool_call_id: Option<String>,
    pub timestamp: Option<String>,
}

/// A tool as described to the completion service.
#[derive(Debug, Clone)]
pub struct Tool {
    pub tool_type: String,
    pub function: ToolFunction,
}

#[derive(Debug, Clone)]
pub struct ToolFunction {
    pub name: String,
    pub description: String,
    pub parameters: JsonValue,
}

/// The outcome of one finished conversational turn.
#[derive(Debug)]
pub struct ChatResponse {
    pub content: String,
    pub thinking: Vec<String>,
    pub tool_calls_made: usize,
    pub iterations: usize,
}

/// One increment of a streamed response.
#[derive(Debug, Clone)]
pub struct StreamChunk {
    pub content: String,
    pub is_thinking: bool,
    pub done: bool,
    pub tool_calls: Option<Vec<ToolCall>>,
}

/// A file listed from the blueprint browser.
#[derive(Debug, Clone)]
pub struct BlueprintFile {
    pub name: String,
    pub path: String,
    pub is_dir: bool,
    pub size: Option<u64>,
}

// ------------------------------------------------------------------
// Write-scope policy
// ------------------------------------------------------------------

/// Path separators normalized: every backslash becomes a forward slash.
pub open spec fn spec_normalize_path(s: Seq<char>) -> Seq<char> {
    Seq::new(s.len(), |i: int| if s[i] == '\\' { '/' } else { s[i] })
}

/// Leading `./` pairs removed, as `str::trim_start_matches` does.
pub open spec fn spec_trim_dot_slash(s: Seq<char>) -> Seq<char>
    decreases s.len(),
{
    if s.len() >= 2 && s[0] == '.' && s[1] == '/' {
        spec_trim_dot_slash(s.skip(2))
    } else {
        s
    }
}

pub open spec fn spec_starts_with(s: Seq<char>, prefix: Seq<char>) -> bool {
    prefix.len() <= s.len() && s.subrange(0, prefix.len() as int) == prefix
}

/// The write-scope allow list: the normalized path must sit under one of
/// these prefixes, or be one of the two root files.
pub open spec fn spec_scope_allowed(norm: Seq<char>) -> bool {
    spec_starts_with(norm, "src/"@) || spec_starts_with(norm, "src-tauri/"@) || spec_starts_with(
        norm,
        "public/"@,
    ) || spec_starts_with(norm, "docs/"@) || spec_starts_with(norm, "generated-guides/"@)
        || spec_starts_with(norm, "KnowledgeCompanion/"@) || norm == "README.md"@ || norm
        == "package.json"@
}

/// The path climbs out of its directory.
pub open spec fn spec_traversal(norm: Seq<char>) -> bool {
    spec_contains(norm, "../"@) || spec_contains(norm, "..\\"@)
}

/// The restricted profile may only write under its two subtrees: the
/// normalized, `./`-stripped path must equal a prefix or continue it with
/// a slash.
pub open spec fn spec_student_path_allowed(path: Seq<char>) -> bool {
    let t = spec_trim_dot_slash(spec_normalize_path(path));
    t == "research"@ || t == "generated-guides"@ || (spec_starts_with(t, "research"@) && t.len()
        > "research"@.len() && t["research"@.len() as int] == '/') || (spec_starts_with(
        t,
        "generated-guides"@,
    ) && t.len() > "generated-guides"@.len() && t["generated-guides"@.len() as int] == '/')
}

fn normalize_path(path: &Vec<char>) -> (r: Vec<char>)
    ensures
        r@ == spec_normalize_path(path@),
{
    let n = path.len();
    let mut r: Vec<char> = Vec::new();
    let mut i: usize = 0;
    while i < n
        invariant
            i <= n,
            n == path@.len(),
            r@.len() == i,
            forall|k: int| 0 <= k < i ==> r@[k] == (if path@[k] == '\\' { '/' } else { path@[k] }),
        decreases n - i,
    {
        if path[i] == '\\' {
            r.push('/');
        } else {
            r.push(path[i]);
        }
        i = i + 1;
    }
    proof {
        assert(r@ =~= spec_normalize_path(path@));
    }
    r
}

fn trim_dot_slash(path: &Vec<char>) -> (r: Vec<char>)
    ensures
        r@ == spec_trim_dot_slash(path@),
{
    let mut start: usize = 0;
    let n = path.len();
    proof {
        assert(path@.skip(0) =~= path@);
    }
    while n - start >= 2 && path[start] == '.' && path[start + 1] == '/'
        invariant
            start <= n,
            n == path@.len(),
            spec_trim_dot_slash(path@) == spec_trim_dot_slash(path@.skip(start as int)),
        decreases n - start,
    {
        proof {
            assert(path@.skip(start as int).skip(2) =~= path@.skip(start as int + 2));
        }
        start = start + 2;
    }
    proof {
        assert(spec_trim_dot_slash(path@.skip(start as int)) == path@.skip(start as int));
        assert(path@.skip(start as int) =~= path@.subrange(start as int, n as int));
    }
    copy_range(path, start, n)
}

fn starts_with(s: &Vec<char>, prefix: &Vec<char>) -> (b: bool)
    ensures
        b == spec_starts_with(s@, prefix@),
{
    let b = crate::text::matches_at(s, 0, prefix);
    proof {
        if b {
            assert(s@.subrange(0, prefix@.len() as int) =~= prefix@);
        } else {
            if prefix@.len() <= s@.len() {
                assert forall|k: int| 0 <= k < prefix@.len() implies s@[k] == #[trigger] s@.subrange(
                    0,
                    prefix@.len() as int,
                )[k] by {
                }
            }
        }
    }
    b
}

// ------------------------------------------------------------------
// The agent
// ------------------------------------------------------------------

/// The conversational controller: it owns the message history, the system
/// prompt, the tool catalog and the policy switches, and drives the
/// iterate-until-no-more-tool-calls loop through the step methods of
/// `ChatTurn`.
pub struct MinimaxAgent {
    pub api_key: String,
    pub base_url: String,
    pub model: String,
    pub conversation_history: Vec<Message>,
    pub system_prompt: String,
    pub tools: Vec<Tool>,
    pub tavily_api_key: Option<String>,
    pub grok_api_key: Option<String>,
    pub gemini_api_key: Option<String>,
    pub provider: AIProvider,
    pub enabled_tools: Vec<(String, bool)>,
    pub safe_mode: bool,
    pub app_mode: AppMode,
    pub user_id: String,
    pub user_name: Option<String>,
}

/// Look a tool name up in the session's enabled-tools list: first match
/// wins, and a tool that is not listed is enabled.
pub open spec fn spec_enabled_lookup(pairs: Seq<(Seq<char>, bool)>, name: Seq<char>) -> bool
    decreases pairs.len(),
{
    if pairs.len() == 0 {
        true
    } else if pairs[0].0 == name {
        pairs[0].1
    } else {
        spec_enabled_lookup(pairs.drop_first(), name)
    }
}

/// The view of the enabled-tools list.
pub open spec fn spec_enabled_pairs(pairs: Seq<(String, bool)>) -> Seq<(Seq<char>, bool)> {
    Seq::new(pairs.len(), |i: int| (pairs[i].0@, pairs[i].1))
}

impl MinimaxAgent {
    /// A fresh agent for one conversation, under the given deployment
    /// profile; the restricted profile starts in safe mode.
    pub fn new(
        api_key: String,
        tavily_api_key: Option<String>,
        grok_api_key: Option<String>,
        gemini_api_key: Option<String>,
        app_mode: AppMode,
    ) -> (r: MinimaxAgent)
        ensures
            r.conversation_history@.len() == 0,
            r.provider == AIProvider::Minimax,
            r.app_mode == app_mode,
            r.safe_mode == (app_mode is Student),
            r.enabled_tools@.len() == 0,
            r.user_id@ == "guest"@,
    {
        MinimaxAgent {
            api_key,
            base_url: string_from_chars(&str_chars("https://api.minimax.io/v1")),
            model: string_from_chars(&str_chars("MiniMax-M2")),
            conversation_history: Vec::new(),
            system_prompt: default_system_prompt(),
            tools: crate::registry::register_tools(),
            tavily_api_key,
            grok_api_key,
            gemini_api_key,
            provider: AIProvider::Minimax,
            enabled_tools: Vec::new(),
            safe_mode: match app_mode {
                AppMode::Student => true,
                AppMode::Developer => false,
            },
            app_mode,
            user_id: string_from_chars(&str_chars("guest")),
            user_name: None,
        }
    }

    pub fn with_user_id(self, user_id: String) -> (r: Self)
        ensures
            r == (MinimaxAgent { user_id, ..self }),
    {
        MinimaxAgent { user_id, ..self }
    }

    pub fn with_user_name(self, user_name: Option<String>) -> (r: Self)
        ensures
            r == (MinimaxAgent { user_name, ..self }),
    {
        MinimaxAgent { user_name, ..self }
    }

    pub fn with_safe_mode(self, safe_mode: bool) -> (r: Self)
        ensures
            r == (MinimaxAgent { safe_mode, ..self }),
    {
        MinimaxAgent { safe_mode, ..self }
    }

    /// Switch the completion provider; the endpoint and model follow it.
    pub fn with_provider(self, provider: AIProvider) -> (r: Self)
        ensures
            r.provider == provider,
            r.base_url@ == spec_base_url(provider),
            r.model@ == spec_model_name(provider),
            r.conversation_history == self.conversation_history,
            r.enabled_tools == self.enabled_tools,
            r.safe_mode == self.safe_mode,
            r.app_mode == self.app_mode,
    {
        let base_url = string_from_chars(&str_chars(provider.base_url()));
        let model = string_from_chars(&str_chars(provider.model_name()));
        MinimaxAgent { provider, base_url, model, ..self }
    }

    /// Replace the session's enabled-tools list: an empty list means all
    /// tools are enabled.
    pub fn with_enabled_tools(self, enabled_tools: Vec<(String, bool)>) -> (r: Self)
        ensures
            r == (MinimaxAgent { enabled_tools, ..self }),
    {
        MinimaxAgent { enabled_tools, ..self }
    }

    pub fn with_system_prompt(self, system_prompt: String) -> (r: Self)
        ensures
            r == (MinimaxAgent { system_prompt, ..self }),
    {
        MinimaxAgent { system_prompt, ..self }
    }

    /// Append a user message without a creation timestamp.
    pub fn add_user_message(&mut self, content: String)
        ensures
            final(self).conversation_history@.len() == old(self).conversation_history@.len() + 1,
            final(self).conversation_history@.last().role@ == "user"@,
            final(self).conversation_history@.last().content@ == content@,
            final(self).conversation_history@.last().tool_calls is None,
            final(self).conversation_history@.last().tool_call_id is None,
            final(self).conversation_history@.subrange(
                0,
                old(self).conversation_history@.len() as int,
            ) == old(self).conversation_history@,
            *final(self) == (MinimaxAgent {
                conversation_history: final(self).conversation_history,
                ..*old(self)
            }),
    {
        self.add_user_message_at(content, None)
    }

    /// Append a user message stamped with a creation time the caller read
    /// from its clock.
    pub fn add_user_message_at(&mut self, content: String, timestamp: Option<String>)
        ensures
            final(self).conversation_history@.len() == old(self).conversation_history@.len() + 1,
            final(self).conversation_history@.last().role@ == "user"@,
            final(self).conversation_history@.last().content@ == content@,
            final(self).conversation_history@.last().tool_calls is None,
            final(self).conversation_history@.last().tool_call_id is None,
            final(self).conversation_history@.last().timestamp == timestamp,
            final(self).conversation_history@.subrange(
                0,
                old(self).conversation_history@.len() as int,
            ) == old(self).conversation_history@,
            *final(self) == (MinimaxAgent {
                conversation_history: final(self).conversation_history,
                ..*old(self)
            }),
    {
        let msg = Message {
            role: string_from_chars(&str_chars("user")),
            content,
            tool_calls: None,
            tool_call_id: None,
            timestamp,
        };
        self.conversation_history.push(msg);
        proof {
            assert(self.conversation_history@.subrange(
                0,
                old(self).conversation_history@.len() as int,
            ) =~= old(self).conversation_history@);
        }
    }

    /// The full history, in insertion order.
    pub fn get_conversation_history(&self) -> (r: &Vec<Message>)
        ensures
            r == self.conversation_history,
    {
        &self.conversation_history
    }

    pub fn clear_history(&mut self)
        ensures
            final(self).conversation_history@.len() == 0,
            *final(self) == (MinimaxAgent {
                conversation_history: final(self).conversation_history,
                ..*old(self)
            }),
    {
        self.conversation_history.clear();
    }

    /// Whether the deployment profile forbids this tool outright,
    /// whatever the session configuration says.
    pub fn is_forced_disabled_tool(&self, tool_name: &str) -> (b: bool)
        ensures
            b == (self.app_mode is Student && (tool_name@ == "run_terminal_command"@ || tool_name@
                == "write_file_batch"@)),
    {
        match self.app_mode {
            AppMode::Student => str_eq(tool_name, "run_terminal_command") || str_eq(
                tool_name,
                "write_file_batch",
            ),
            AppMode::Developer => false,
        }
    }

    /// Whether the session's enabled-tools list lets this tool run: an
    /// empty list enables everything, an unlisted tool is enabled.
    pub fn is_session_enabled(&self, tool_name: &str) -> (b: bool)
        ensures
            b == (self.enabled_tools@.len() == 0 || spec_enabled_lookup(
                spec_enabled_pairs(self.enabled_tools@),
                tool_name@,
            )),
    {
        if self.enabled_tools.len() == 0 {
            return true;
        }
        let ghost pairs = spec_enabled_pairs(self.enabled_tools@);
        proof {
            assert(pairs.skip(0) =~= pairs);
        }
        let n = self.enabled_tools.len();
        let mut i: usize = 0;
        while i < n
            invariant
                i <= n,
                n == self.enabled_tools@.len(),
                pairs == spec_enabled_pairs(self.enabled_tools@),
                spec_enabled_lookup(pairs, tool_name@) == spec_enabled_lookup(
                    pairs.skip(i as int),
                    tool_name@,
                ),
            decreases n - i,
        {
            proof {
                assert(pairs.skip(i as int)[0] == pairs[i as int]);
                assert(pairs.skip(i as int).drop_first() =~= pairs.skip(i as int + 1));
            }
            if str_eq(self.enabled_tools[i].0.as_str(), tool_name) {
                return self.enabled_tools[i].1;
            }
            i = i + 1;
        }
        proof {
            assert(pairs.skip(n as int) =~= Seq::<(Seq<char>, bool)>::empty());
        }
        true
    }

    /// Whether the restricted profile lets this relative path be written:
    /// the developer profile is not narrowed here.
    pub fn is_allowed_write_path(&self, rel_path: &str) -> (b: bool)
        ensures
            b == (self.app_mode is Developer || spec_student_path_allowed(rel_path@)),
    {
        match self.app_mode {
            AppMode::Developer => true,
            AppMode::Student => {
                let cs = str_chars(rel_path);
                let t = trim_dot_slash(&normalize_path(&cs));
                let research = str_chars("research");
                let guides = str_chars("generated-guides");
                proof {
                    reveal_strlit("research");
                    reveal_strlit("generated-guides");
                }
                let tr = starts_with(&t, &research);
                let tg = starts_with(&t, &guides);
                let r = (tr && t.len() == research.len()) || (tg && t.len() == guides.len()) || (tr
                    && t.len() > research.len() && t[research.len()] == '/') || (tg && t.len()
                    > guides.len() && t[guides.len()] == '/');
                proof {
                    if tr && t@.len() == "research"@.len() {
                        assert(t@ =~= "research"@);
                    }
                    if tg && t@.len() == "generated-guides"@.len() {
                        assert(t@ =~= "generated-guides"@);
                    }
                    if t@ == "research"@ {
                        assert(t@.subrange(0, "research"@.len() as int) =~= "research"@);
                    }
                    if t@ == "generated-guides"@ {
                        assert(t@.subrange(0, "generated-guides"@.len() as int)
                            =~= "generated-guides"@);
                    }
                }
                r
            }
        }
    }

    /// Check a path against the write-scope policy. A path containing a
    /// traversal segment, or falling outside the allow list, is rejected;
    /// an accepted path is returned as given.
    pub fn validate_write_scope(&self, path_str: &str) -> (r: Result<String, String>)
        ensures
            r is Ok <==> spec_scope_allowed(spec_normalize_path(path_str@)) && !spec_traversal(
                spec_normalize_path(path_str@),
            ),
            r is Ok ==> r->Ok_0@ == path_str@,
    {
        let cs = str_chars(path_str);
        let norm = normalize_path(&cs);
        let allowed = starts_with(&norm, &str_chars("src/")) || starts_with(
            &norm,
            &str_chars("src-tauri/"),
        ) || starts_with(&norm, &str_chars("public/")) || starts_with(&norm, &str_chars("docs/"))
            || starts_with(&norm, &str_chars("generated-guides/")) || starts_with(
            &norm,
            &str_chars("KnowledgeCompanion/"),
        ) || chars_eq_lit(&norm, "README.md") || chars_eq_lit(&norm, "package.json");
        if !allowed {
            Err(string_from_chars(&str_chars(
                "Security Error: Writing to this path is not allowed. Allowed directories: src/, src-tauri/, public/, docs/, generated-guides/, KnowledgeCompanion/",
            )))
        } else if contains_pat(&norm, &str_chars("../")) || contains_pat(&norm, &str_chars("..\\"))
        {
            Err(string_from_chars(&str_chars(
                "Security Error: Path traversal (../) is forbidden.",
            )))
        } else {
            Ok(string_from_chars(&cs))
        }
    }

    /// The policy applied before a single-file write: scope first, then
    /// the profile's own narrowing. `Ok` hands back the path to write.
    pub fn write_file_gate(&self, path_str: &str) -> (r: Result<String, String>)
        ensures
            r is Ok <==> spec_scope_allowed(spec_normalize_path(path_str@)) && !spec_traversal(
                spec_normalize_path(path_str@),
            ) && (self.app_mode is Developer || spec_student_path_allowed(path_str@)),
            r is Ok ==> r->Ok_0@ == path_str@,
    {
        match self.validate_write_scope(path_str) {
            Err(e) => Err(e),
            Ok(p) => {
                if !self.is_allowed_write_path(path_str) {
                    Err(string_from_chars(&str_chars(
                        "Student mode: AI may only write to 'research/' or 'generated-guides/'",
                    )))
                } else {
                    Ok(p)
                }
            }
        }
    }
}

/// Two character vectors hold the same text as a literal.
pub fn chars_eq_lit(s: &Vec<char>, lit: &str) -> (b: bool)
    ensures
        b == (s@ == lit@),
{
    let l = str_chars(lit);
    if s.len() != l.len() {
        return false;
    }
    let b = starts_with(s, &l);
    proof {
        if b {
            assert(s@.subrange(0, l@.len() as int) =~= s@);
        } else {
            if s@ == lit@ {
                assert(s@.subrange(0, l@.len() as int) =~= l@);
            }
        }
    }
    b
}

/// The default system prompt handed to the completion service.
pub fn default_system_prompt() -> (r: String)
{
    string_from_chars(&str_chars(
        "You are a helpful AI assistant with access to tools. Use the available tools to read and write knowledge files, search, calculate, and delegate research; think before each step and give clear final answers.",
    ))
}

// ------------------------------------------------------------------
// The calculate tool
// ------------------------------------------------------------------

/// What `meval` computes for an expression, printed as a JSON value: a
/// function of the expression text alone. `None` is an evaluation error.
pub uninterp spec fn eval_of(expr: Seq<char>) -> Option<Seq<char>>;

/// The expression is empty or holds a character that is not a space.
pub open spec fn spec_expr_nonblank(s: Seq<char>) -> bool {
    s.len() == 0 || (exists|k: int| 0 <= k < s.len() && s[k] != ' ')
}

/// Relies on `meval::eval_str` to evaluate the expression, and on
/// `serde_json`'s value printing for the result text (a plain number, or
/// `null` for a value with no JSON form). The conditions keep the input
/// to the calculator's characters and rule out blank (all-space)
/// expressions: on those the outside tokenizer aborts instead of
/// returning an error, and on characters outside this set it can do the
/// same at the end of the text.
#[verifier::external_body]
fn eval_expression(expr: &str) -> (r: Option<String>)
    requires
        spec_expr_ok(expr@),
        spec_expr_nonblank(expr@),
    ensures
        match r {
            Some(s) => eval_of(expr@) == Some(s@),
            None => eval_of(expr@) is None,
        },
{
    match meval::eval_str(expr) {
        Ok(v) => Some(serde_json::Value::from(v).to_string()),
        Err(_) => None,
    }
}

/// Whether the expression has a character that is not a space.
fn expr_nonblank(expr: &str) -> (b: bool)
    ensures
        b == spec_expr_nonblank(expr@),
{
    let cs = str_chars(expr);
    let n = cs.len();
    if n == 0 {
        return true;
    }
    let mut i: usize = 0;
    while i < n
        invariant
            i <= n,
            n == cs@.len(),
            cs@ == expr@,
            forall|k: int| 0 <= k < i ==> cs@[k] == ' ',
        decreases n - i,
    {
        if cs[i] != ' ' {
            proof {
                assert(expr@[i as int] != ' ');
            }
            return true;
        }
        i = i + 1;
    }
    false
}

/// The failure envelope every tool error is wrapped in.
pub open spec fn spec_err_envelope(msg: Seq<char>) -> Seq<char> {
    crate::json::spec_json_text(
        JsonModel::Obj {
            fields: seq![
                ("error"@, JsonModel::Str { text: msg }),
                ("success"@, JsonModel::Bool { b: false }),
            ],
        },
    )
}

/// Build the failure envelope around a message.
pub fn err_envelope(msg: &str) -> (r: String)
    ensures
        r@ == spec_err_envelope(msg@),
{
    let mut fields: Vec<(String, JsonValue)> = Vec::new();
    fields.push((string_from_chars(&str_chars("error")), JsonValue::Str(string_from_chars(
        &str_chars(msg),
    ))));
    fields.push((string_from_chars(&str_chars("success")), JsonValue::Bool(false)));
    let v = JsonValue::Obj(fields);
    let ghost fview = v->Obj_0@;
    proof {
        crate::json::lemma_field_models_of_len(fview);
        crate::json::lemma_field_models_of_index(fview, 0);
        crate::json::lemma_field_models_of_index(fview, 1);
        assert(crate::json::field_models_of(fview) =~= seq![
            ("error"@, JsonModel::Str { text: msg@ }),
            ("success"@, JsonModel::Bool { b: false }),
        ]);
    }
    crate::json::json_to_string(&v)
}

/// A character the calculator accepts: digits, the four operators,
/// parentheses, the dot and the space.
pub open spec fn spec_calc_char(c: char) -> bool {
    spec_contains("0123456789+-*/(). "@, seq![c])
}

pub open spec fn spec_expr_ok(expr: Seq<char>) -> bool {
    forall|i: int| 0 <= i < expr.len() ==> spec_calc_char(#[trigger] expr[i])
}

/// The argument object is an all-string map, as the calculator requires.
pub open spec fn spec_string_map(m: JsonModel) -> bool {
    m is Obj && (forall|i: int| 0 <= i < m->Obj_fields.len() ==> (#[trigger] m->Obj_fields[i]).1
        is Str)
}

/// The calculator's whole behaviour on an argument text.
pub open spec fn spec_calculate(args: Seq<char>) -> Seq<char> {
    match crate::json::spec_parse_json(args) {
        Some(m) => if !spec_string_map(m) {
            spec_err_envelope("Invalid arguments"@)
        } else {
            match crate::json::spec_get(m, "expression"@) {
                Some(JsonModel::Str { text: expr }) => if !spec_expr_ok(expr) {
                    spec_err_envelope("Expression contains invalid characters"@)
                } else if !spec_expr_nonblank(expr) {
                    spec_err_envelope("Calculation error"@)
                } else {
                    match eval_of(expr) {
                        Some(result) => crate::json::spec_json_text(
                            JsonModel::Obj {
                                fields: seq![
                                    ("expression"@, JsonModel::Str { text: expr }),
                                    ("result"@, JsonModel::Num { text: result }),
                                    ("success"@, JsonModel::Bool { b: true }),
                                ],
                            },
                        ),
                        None => spec_err_envelope("Calculation error"@),
                    }
                },
                _ => spec_err_envelope("Missing 'expression' argument"@),
            }
        },
        None => spec_err_envelope("Invalid arguments"@),
    }
}

fn expr_ok(expr: &str) -> (b: bool)
    ensures
        b == spec_expr_ok(expr@),
{
    let cs = str_chars(expr);
    let allowed = str_chars("0123456789+-*/(). ");
    let n = cs.len();
    let mut i: usize = 0;
    while i < n
        invariant
            i <= n,
            n == cs@.len(),
            cs@ == expr@,
            allowed@ == "0123456789+-*/(). "@,
            forall|k: int| 0 <= k < i ==> spec_calc_char(#[trigger] cs@[k]),
        decreases n - i,
    {
        let mut single: Vec<char> = Vec::new();
        single.push(cs[i]);
        proof {
            assert(single@ =~= seq![cs@[i as int]]);
        }
        if !contains_pat(&allowed, &single) {
            return false;
        }
        i = i + 1;
    }
    true
}

fn string_map_ok(v: &JsonValue) -> (b: bool)
    ensures
        b == spec_string_map(v.model()),
{
    match v {
        JsonValue::Obj(fields) => {
            let ghost fm = crate::json::field_models_of(fields@);
            proof {
                crate::json::lemma_field_models_of_len(fields@);
            }
            let n = fields.len();
            let mut i: usize = 0;
            while i < n
                invariant
                    i <= n,
                    n == fields@.len(),
                    *v == JsonValue::Obj(*fields),
                    fm == crate::json::field_models_of(fields@),
                    fm.len() == n,
                    forall|k: int| 0 <= k < i ==> (#[trigger] fm[k]).1 is Str,
                decreases n - i,
            {
                proof {
                    crate::json::lemma_field_models_of_index(fields@, i as int);
                }
                match &fields[i].1 {
                    JsonValue::Str(_) => {
                    }
                    _ => {
                        return false;
                    }
                }
                i = i + 1;
            }
            true
        }
        _ => false,
    }
}

impl MinimaxAgent {
    /// Evaluate the calculator tool on its JSON arguments: only plain
    /// arithmetic over the allowed characters, every error wrapped in the
    /// failure envelope.
    pub fn tool_calculate(&self, arguments: &str) -> (r: String)
        ensures
            r@ == spec_calculate(arguments@),
    {
        match crate::json::parse_json(arguments) {
            None => err_envelope("Invalid arguments"),
            Some(v) => {
                if !string_map_ok(&v) {
                    err_envelope("Invalid arguments")
                } else {
                    match v.get("expression") {
                        Some(ev) => match ev.as_str() {
                            Some(expr) => {
                                if !expr_ok(expr.as_str()) {
                                    err_envelope("Expression contains invalid characters")
                                } else if !expr_nonblank(expr.as_str()) {
                                    err_envelope("Calculation error")
                                } else {
                                    match eval_expression(expr.as_str()) {
                                        Some(result) => {
                                            let mut fields: Vec<(String, JsonValue)> = Vec::new();
                                            fields.push((
                                                string_from_chars(&str_chars("expression")),
                                                JsonValue::Str(expr.clone()),
                                            ));
                                            fields.push((
                                                string_from_chars(&str_chars("result")),
                                                JsonValue::Num(result),
                                            ));
                                            fields.push((
                                                string_from_chars(&str_chars("success")),
                                                JsonValue::Bool(true),
                                            ));
                                            let out = JsonValue::Obj(fields);
                                            let ghost fview = out->Obj_0@;
                                            proof {
                                                crate::json::lemma_field_models_of_len(fview);
                                                crate::json::lemma_field_models_of_index(fview, 0);
                                                crate::json::lemma_field_models_of_index(fview, 1);
                                                crate::json::lemma_field_models_of_index(fview, 2);
                                                assert(crate::json::field_models_of(fview) =~= seq![
                                                    (
                                                        "expression"@,
                                                        JsonModel::Str { text: expr@ },
                                                    ),
                                                    (
                                                        "result"@,
                                                        JsonModel::Num {
                                                            text: eval_of(expr@)->0,
                                                        },
                                                    ),
                                                    ("success"@, JsonModel::Bool { b: true }),
                                                ]);
                                            }
                                            crate::json::json_to_string(&out)
                                        }
                                        None => err_envelope("Calculation error"),
                                    }
                                }
                            }
                            None => err_envelope("Missing 'expression' argument"),
                        },
                        None => err_envelope("Missing 'expression' argument"),
                    }
                }
            }
        }
    }
}

// ------------------------------------------------------------------
// Dispatch
// ------------------------------------------------------------------

/// Where a tool call goes after the policy gates: rejected with an
/// envelope, computed here, or handed to the embedding application to
/// perform its I/O.
pub enum ToolDispatch {
    Rejected(String),
    Computed(String),
    External(String, String),
}

impl MinimaxAgent {
    /// Apply the policy gates to one tool call and dispatch it. The
    /// profile's hard disables come first, then the session's toggles,
    /// then safe mode for the tools that write files or run processes;
    /// the calculator runs here, every other tool is handed out with its
    /// arguments unchanged.
    pub fn execute_tool(&self, tool_name: &str, arguments: &str) -> (r: ToolDispatch)
        ensures
            ({
                let locked = self.app_mode is Student && (tool_name@ == "run_terminal_command"@
                    || tool_name@ == "write_file_batch"@);
                let enabled = self.enabled_tools@.len() == 0 || spec_enabled_lookup(
                    spec_enabled_pairs(self.enabled_tools@),
                    tool_name@,
                );
                let safe_write = self.safe_mode && (tool_name@ == "write_file"@ || tool_name@
                    == "write_file_batch"@);
                let safe_term = self.safe_mode && tool_name@ == "run_terminal_command"@;
                &&& (locked ==> r is Rejected && r->Rejected_0@ == spec_err_envelope(
                    spec_mode_reject_msg(tool_name@),
                ))
                &&& (!locked && !enabled ==> r is Rejected && r->Rejected_0@ == spec_err_envelope(
                    spec_session_reject_msg(tool_name@),
                ))
                &&& (!locked && enabled && safe_write ==> r is Rejected && r->Rejected_0@
                    == spec_err_envelope("Safe Mode is enabled. File writing is disabled."@))
                &&& (!locked && enabled && !safe_write && safe_term ==> r is Rejected
                    && r->Rejected_0@ == spec_err_envelope(
                    "Safe Mode is enabled. Terminal commands are disabled."@,
                ))
                &&& (!locked && enabled && !safe_write && !safe_term ==> (if tool_name@
                    == "calculate"@ {
                    r is Computed && r->Computed_0@ == spec_calculate(arguments@)
                } else {
                    r is External && r->External_0@ == tool_name@ && r->External_1@ == arguments@
                }))
            }),
    {
        if self.is_forced_disabled_tool(tool_name) {
            ToolDispatch::Rejected(mode_reject_envelope(tool_name))
        } else if !self.is_session_enabled(tool_name) {
            ToolDispatch::Rejected(session_reject_envelope(tool_name))
        } else if self.safe_mode && (str_eq(tool_name, "write_file") || str_eq(
            tool_name,
            "write_file_batch",
        )) {
            ToolDispatch::Rejected(err_envelope("Safe Mode is enabled. File writing is disabled."))
        } else if self.safe_mode && str_eq(tool_name, "run_terminal_command") {
            ToolDispatch::Rejected(
                err_envelope("Safe Mode is enabled. Terminal commands are disabled."),
            )
        } else if str_eq(tool_name, "calculate") {
            ToolDispatch::Computed(self.tool_calculate(arguments))
        } else {
            ToolDispatch::External(
                string_from_chars(&str_chars(tool_name)),
                string_from_chars(&str_chars(arguments)),
            )
        }
    }
}

/// The message rejecting a tool the profile hard-disables.
pub open spec fn spec_mode_reject_msg(name: Seq<char>) -> Seq<char> {
    "Tool '"@ + name + "' is not available in student mode"@
}

/// The message rejecting a tool the session disabled.
pub open spec fn spec_session_reject_msg(name: Seq<char>) -> Seq<char> {
    "Tool '"@ + name + "' is disabled in this session"@
}

fn mode_reject_envelope(name: &str) -> (r: String)
    ensures
        r@ == spec_err_envelope(spec_mode_reject_msg(name@)),
{
    let mut msg: Vec<char> = str_chars("Tool '");
    let mut mid = str_chars(name);
    msg.append(&mut mid);
    let mut tail = str_chars("' is not available in student mode");
    msg.append(&mut tail);
    proof {
        assert(msg@ =~= spec_mode_reject_msg(name@));
    }
    err_envelope(string_from_chars(&msg).as_str())
}

fn session_reject_envelope(name: &str) -> (r: String)
    ensures
        r@ == spec_err_envelope(spec_session_reject_msg(name@)),
{
    let mut msg: Vec<char> = str_chars("Tool '");
    let mut mid = str_chars(name);
    msg.append(&mut mid);
    let mut tail = str_chars("' is disabled in this session");
    msg.append(&mut tail);
    proof {
        assert(msg@ =~= spec_session_reject_msg(name@));
    }
    err_envelope(string_from_chars(&msg).as_str())
}

// ------------------------------------------------------------------
// Reasoning-markup stripping
// ------------------------------------------------------------------

/// Whether a newline stands strictly between `a` and `b`.
pub open spec fn spec_has_newline(s: Seq<char>, a: int, b: int) -> bool {
    exists|k: int| a <= k < b && s[k] == '\n'
}

/// The end of a single-line think block starting exactly at `p`, or -1.
pub open spec fn spec_think_match_at(s: Seq<char>, p: int) -> int {
    if !crate::text::spec_matches_at(s, p, "<think>"@) {
        -1
    } else {
        let q = spec_find(s, "</think>"@, p + 7);
        if q < p + 7 {
            -1
        } else if spec_has_newline(s, p + 7, q) {
            -1
        } else {
            q + 8
        }
    }
}

/// The text from `i` on with every single-line think block removed.
pub open spec fn spec_strip_think_from(s: Seq<char>, i: int) -> Seq<char>
    decreases s.len() - i,
{
    if i < 0 || i >= s.len() {
        Seq::<char>::empty()
    } else {
        let p = spec_find(s, "<think>"@, i);
        if p < 0 || p < i || p >= s.len() {
            s.skip(i)
        } else {
            let e = spec_think_match_at(s, p);
            if p < e && e <= s.len() {
                s.subrange(i, p) + spec_strip_think_from(s, e)
            } else {
                s.subrange(i, p + 1) + spec_strip_think_from(s, p + 1)
            }
        }
    }
}

/// The final content shown for an assistant message: when both think
/// markers occur, the think blocks are removed and the rest trimmed;
/// otherwise the text is kept as it is.
pub open spec fn spec_clean_content(s: Seq<char>) -> Seq<char> {
    if spec_contains(s, "<think>"@) && spec_contains(s, "</think>"@) {
        crate::text::spec_trim_range(spec_strip_think_from(s, 0), 0, spec_strip_think_from(s, 0).len() as int)
    } else {
        s
    }
}

fn think_match_at(s: &Vec<char>, p: usize) -> (r: Option<usize>)
    requires
        p <= s@.len(),
    ensures
        match r {
            Some(e) => e as int == spec_think_match_at(s@, p as int) && p < e <= s@.len(),
            None => spec_think_match_at(s@, p as int) == -1,
        },
{
    proof {
        reveal_strlit("<think>");
        reveal_strlit("</think>");
    }
    let n = s.len();
    let open_pat = str_chars("<think>");
    let close_pat = str_chars("</think>");
    if !crate::text::matches_at(s, p, &open_pat) {
        None
    } else {
        assert(p + 7 <= n);
        match find_from(s, &close_pat, p + 7) {
            None => None,
            Some(q) => {
                if has_newline_between(s, p + 7, q) {
                    None
                } else {
                    Some(q + 8)
                }
            }
        }
    }
}

fn has_newline_between(s: &Vec<char>, a: usize, b: usize) -> (r: bool)
    requires
        a <= b <= s@.len(),
    ensures
        r == spec_has_newline(s@, a as int, b as int),
{
    let mut k: usize = a;
    while k < b
        invariant
            a <= k <= b <= s@.len(),
            forall|j: int| a <= j < k ==> s@[j] != '\n',
        decreases b - k,
    {
        if s[k] == '\n' {
            proof {
                assert(s@[k as int] == '\n');
            }
            return true;
        }
        k = k + 1;
    }
    false
}

/// Remove every single-line think block and trim the result when both
/// markers occur; otherwise hand the text back unchanged.
pub fn clean_content(text: &str) -> (r: String)
    ensures
        r@ == spec_clean_content(text@),
{
    proof {
        reveal_strlit("<think>");
        reveal_strlit("</think>");
    }
    let cs = str_chars(text);
    let open_pat = str_chars("<think>");
    let close_pat = str_chars("</think>");
    if !(contains_pat(&cs, &open_pat) && contains_pat(&cs, &close_pat)) {
        return string_from_chars(&cs);
    }
    let n = cs.len();
    let mut out: Vec<char> = Vec::new();
    let mut i: usize = 0;
    proof {
        assert(out@ + spec_strip_think_from(cs@, 0) =~= spec_strip_think_from(cs@, 0));
    }
    while i < n
        invariant
            i <= n,
            n == cs@.len(),
            open_pat@ == "<think>"@,
            spec_strip_think_from(cs@, 0) == out@ + spec_strip_think_from(cs@, i as int),
        decreases n - i,
    {
        match find_from(&cs, &open_pat, i) {
            None => {
                let mut rest = copy_range(&cs, i, n);
                let ghost out_view = out@;
                out.append(&mut rest);
                proof {
                    assert(out@ =~= out_view + cs@.skip(i as int));
                }
                i = n;
            }
            Some(p) => {
                match think_match_at(&cs, p) {
                    Some(e) => {
                        let mut keep = copy_range(&cs, i, p);
                        let ghost out_view = out@;
                        out.append(&mut keep);
                        proof {
                            assert(out@ =~= out_view + cs@.subrange(i as int, p as int));
                        }
                        i = e;
                    }
                    None => {
                        let mut keep = copy_range(&cs, i, p + 1);
                        let ghost out_view = out@;
                        out.append(&mut keep);
                        proof {
                            assert(out@ =~= out_view + cs@.subrange(i as int, p as int + 1));
                        }
                        i = p + 1;
                    }
                }
            }
        }
    }
    proof {
        assert(spec_strip_think_from(cs@, n as int) =~= Seq::<char>::empty());
        assert(out@ =~= spec_strip_think_from(cs@, 0));
    }
    let trimmed = crate::text::trim_range(&out, 0, out.len());
    string_from_chars(&trimmed)
}

/// The end of a think block starting exactly at `p`, newlines allowed.
pub open spec fn spec_think_ml_match_at(s: Seq<char>, p: int) -> int {
    if !crate::text::spec_matches_at(s, p, "<think>"@) {
        -1
    } else {
        let q = spec_find(s, "</think>"@, p + 7);
        if q < p + 7 {
            -1
        } else {
            q + 8
        }
    }
}

/// The text from `i` on with every think block removed, however many
/// lines it spans.
pub open spec fn spec_strip_think_ml_from(s: Seq<char>, i: int) -> Seq<char>
    decreases s.len() - i,
{
    if i < 0 || i >= s.len() {
        Seq::<char>::empty()
    } else {
        let p = spec_find(s, "<think>"@, i);
        if p < 0 || p < i || p >= s.len() {
            s.skip(i)
        } else {
            let e = spec_think_ml_match_at(s, p);
            if p < e && e <= s.len() {
                s.subrange(i, p) + spec_strip_think_ml_from(s, e)
            } else {
                s.subrange(i, p + 1) + spec_strip_think_ml_from(s, p + 1)
            }
        }
    }
}

/// A debate reply as it enters the transcript: every think block removed,
/// lines and all, and the rest trimmed.
pub open spec fn spec_clean_reply(s: Seq<char>) -> Seq<char> {
    let stripped = spec_strip_think_ml_from(s, 0);
    crate::text::spec_trim_range(stripped, 0, stripped.len() as int)
}

fn think_ml_match_at(s: &Vec<char>, p: usize) -> (r: Option<usize>)
    requires
        p <= s@.len(),
    ensures
        match r {
            Some(e) => e as int == spec_think_ml_match_at(s@, p as int) && p < e <= s@.len(),
            None => spec_think_ml_match_at(s@, p as int) == -1,
        },
{
    proof {
        reveal_strlit("<think>");
        reveal_strlit("</think>");
    }
    let n = s.len();
    let open_pat = str_chars("<think>");
    let close_pat = str_chars("</think>");
    if !crate::text::matches_at(s, p, &open_pat) {
        None
    } else {
        assert(p + 7 <= n);
        match find_from(s, &close_pat, p + 7) {
            None => None,
            Some(q) => {
                assert(q + 8 <= n);
                Some(q + 8)
            }
        }
    }
}

/// Strip every think block, multi-line ones too, and trim the rest.
pub fn clean_reply(text: &str) -> (r: String)
    ensures
        r@ == spec_clean_reply(text@),
{
    proof {
        reveal_strlit("<think>");
    }
    let cs = str_chars(text);
    let open_pat = str_chars("<think>");
    let n = cs.len();
    let mut out: Vec<char> = Vec::new();
    let mut i: usize = 0;
    proof {
        assert(out@ + spec_strip_think_ml_from(cs@, 0) =~= spec_strip_think_ml_from(cs@, 0));
    }
    while i < n
        invariant
            i <= n,
            n == cs@.len(),
            open_pat@ == "<think>"@,
            spec_strip_think_ml_from(cs@, 0) == out@ + spec_strip_think_ml_from(cs@, i as int),
        decreases n - i,
    {
        match find_from(&cs, &open_pat, i) {
            None => {
                let mut rest = copy_range(&cs, i, n);
                let ghost out_view = out@;
                out.append(&mut rest);
                proof {
                    assert(out@ =~= out_view + cs@.skip(i as int));
                }
                i = n;
            }
            Some(p) => {
                match think_ml_match_at(&cs, p) {
                    Some(e) => {
                        let mut keep = copy_range(&cs, i, p);
                        let ghost out_view = out@;
                        out.append(&mut keep);
                        proof {
                            assert(out@ =~= out_view + cs@.subrange(i as int, p as int));
                        }
                        i = e;
                    }
                    None => {
                        let mut keep = copy_range(&cs, i, p + 1);
                        let ghost out_view = out@;
                        out.append(&mut keep);
                        proof {
                            assert(out@ =~= out_view + cs@.subrange(i as int, p as int + 1));
                        }
                        i = p + 1;
                    }
                }
            }
        }
    }
    proof {
        assert(spec_strip_think_ml_from(cs@, n as int) =~= Seq::<char>::empty());
        assert(out@ =~= spec_strip_think_ml_from(cs@, 0));
    }
    let trimmed = crate::text::trim_range(&out, 0, out.len());
    string_from_chars(&trimmed)
}

// ------------------------------------------------------------------
// Token estimate and history pruning
// ------------------------------------------------------------------

/// Addition that stops at the counter's ceiling, so the estimate is
/// well-defined for any ghost history.
pub open spec fn spec_sat_add(a: int, b: int) -> int {
    if a + b > 0xffff_ffff_ffff_ffff_ffff_ffff_ffff_ffff {
        0xffff_ffff_ffff_ffff_ffff_ffff_ffff_ffff
    } else {
        a + b
    }
}

/// The characters a list of tool calls contributes to the estimate.
pub open spec fn spec_calls_chars(calls: Seq<ToolCall>, n: int) -> int
    decreases n,
{
    if n <= 0 {
        0
    } else {
        spec_sat_add(spec_calls_chars(calls, n - 1), calls[n - 1].function.arguments@.len() as int)
    }
}

/// The characters one message contributes.
pub open spec fn spec_msg_chars(m: Message) -> int {
    spec_sat_add(
        m.content@.len() as int,
        match m.tool_calls {
            Some(calls) => spec_calls_chars(calls@, calls@.len() as int),
            None => 0,
        },
    )
}

/// The characters of the first `n` history entries.
pub open spec fn spec_history_chars(h: Seq<Message>, n: int) -> int
    decreases n,
{
    if n <= 0 {
        0
    } else {
        spec_sat_add(spec_history_chars(h, n - 1), spec_msg_chars(h[n - 1]))
    }
}

/// The token estimate: one token per four characters of message content
/// and tool-call arguments.
pub open spec fn spec_estimate(h: Seq<Message>) -> int {
    spec_history_chars(h, h.len() as int) / 4
}

/// The history left after pruning: drop the oldest message while the
/// estimate exceeds the ceiling and more than the floor remain.
pub open spec fn spec_prune(h: Seq<Message>) -> Seq<Message>
    decreases h.len(),
{
    if spec_estimate(h) > 90000 && h.len() > 10 {
        spec_prune(h.drop_first())
    } else {
        h
    }
}

fn sat_add_u128(a: u128, b: u128) -> (r: u128)
    ensures
        r as int == spec_sat_add(a as int, b as int),
{
    if b > 0xffff_ffff_ffff_ffff_ffff_ffff_ffff_ffff - a {
        0xffff_ffff_ffff_ffff_ffff_ffff_ffff_ffff
    } else {
        a + b
    }
}

fn calls_chars(calls: &Vec<ToolCall>) -> (r: u128)
    ensures
        r as int == spec_calls_chars(calls@, calls@.len() as int),
{
    let n = calls.len();
    let mut acc: u128 = 0;
    let mut i: usize = 0;
    while i < n
        invariant
            i <= n,
            n == calls@.len(),
            acc as int == spec_calls_chars(calls@, i as int),
        decreases n - i,
    {
        let l = calls[i].function.arguments.as_str().unicode_len();
        acc = sat_add_u128(acc, l as u128);
        i = i + 1;
    }
    acc
}

impl MinimaxAgent {
    /// The token estimate of the current history.
    pub fn estimate_tokens(&self) -> (r: u128)
        ensures
            r == spec_estimate(self.conversation_history@),
    {
        let h = &self.conversation_history;
        let n = h.len();
        let mut acc: u128 = 0;
        let mut i: usize = 0;
        while i < n
            invariant
                i <= n,
                n == h@.len(),
                h == self.conversation_history,
                acc as int == spec_history_chars(h@, i as int),
            decreases n - i,
        {
            let c = h[i].content.as_str().unicode_len();
            let t: u128 = match &h[i].tool_calls {
                Some(calls) => calls_chars(calls),
                None => 0,
            };
            let m = sat_add_u128(c as u128, t);
            acc = sat_add_u128(acc, m);
            i = i + 1;
        }
        acc / 4
    }

    /// Drop the oldest messages while the estimate exceeds the ceiling,
    /// never below the retained floor.
    pub fn prune_history(&mut self)
        ensures
            final(self).conversation_history@ == spec_prune(old(self).conversation_history@),
            *final(self) == (MinimaxAgent {
                conversation_history: final(self).conversation_history,
                ..*old(self)
            }),
    {
        loop
            invariant
                spec_prune(old(self).conversation_history@) == spec_prune(
                    self.conversation_history@,
                ),
                *self == (MinimaxAgent {
                    conversation_history: self.conversation_history,
                    ..*old(self)
                }),
            ensures
                self.conversation_history@ == spec_prune(old(self).conversation_history@),
            decreases self.conversation_history@.len(),
        {
            let over = self.estimate_tokens() > 90000;
            if over && self.conversation_history.len() > 10 {
                let ghost pre = self.conversation_history@;
                self.conversation_history.remove(0);
                proof {
                    assert(self.conversation_history@ =~= pre.drop_first());
                }
            } else {
                proof {
                    assert(spec_prune(self.conversation_history@) == self.conversation_history@);
                }
                break;
            }
        }
    }
}

// ------------------------------------------------------------------
// The agent loop, as a step machine
// ------------------------------------------------------------------

/// The (name, argument) pairs the agent takes from one completion: the
/// service's structured calls when there are any; otherwise the bracketed
/// text formats; on the streaming path the XML format as a last fallback.
pub open spec fn spec_extracted_pairs(
    content: Seq<char>,
    structured: Seq<ToolCall>,
    streaming: bool,
) -> Seq<(Seq<char>, Seq<char>)> {
    if structured.len() > 0 {
        calls_model(structured)
    } else {
        let t = crate::extract::spec_text_tool_calls(content);
        if t.len() > 0 {
            t
        } else if streaming {
            crate::extract::spec_grok_calls(content)
        } else {
            Seq::<(Seq<char>, Seq<char>)>::empty()
        }
    }
}

/// The loop-detection signature of a call: its name and arguments.
pub open spec fn spec_signature(c: ToolCall) -> Seq<char> {
    c.function.name@ + seq![':'] + c.function.arguments@
}

/// One conversational turn in flight: the iteration budget and counters,
/// the calls still to be executed, and the loop-detection state of the
/// streaming path.
pub struct ChatTurn {
    pub max_iterations: usize,
    pub iterations: usize,
    pub total_tool_calls: usize,
    pub pending: Vec<ToolCall>,
    pub streaming: bool,
    pub last_signature: Option<String>,
    pub consecutive_repeats: u64,
    pub stop_requested: bool,
}

/// What follows a completion: the turn is finished with a response, or
/// the extracted calls must be executed.
pub enum CompletionStep {
    Finished(ChatResponse),
    RunTools,
}

/// What to do with the next pending call: run it, stop the turn because
/// the model keeps repeating itself, or nothing is left.
pub enum PendingStep {
    Run(ToolCall),
    RepeatAbort,
    NoneLeft,
}

impl ChatTurn {
    /// Another completion may be requested.
    pub fn continue_allowed(&self) -> (b: bool)
        ensures
            b == (self.iterations < self.max_iterations),
    {
        self.iterations < self.max_iterations
    }

    /// Record the user's stop signal; the driver checks it at the top of
    /// every iteration and may also honour it mid-stream.
    pub fn request_stop(&mut self)
        ensures
            *final(self) == (ChatTurn { stop_requested: true, ..*old(self) }),
    {
        self.stop_requested = true;
    }

    /// Whether the user asked the turn to stop: once observed, the driver
    /// emits the stopped-by-user notice and returns cleanly.
    pub fn should_stop(&self) -> (b: bool)
        ensures
            b == self.stop_requested,
    {
        self.stop_requested
    }

    /// The terminal failure reported when the iteration budget is spent.
    pub fn budget_error(&self) -> (r: String)
        ensures
            r@ == "Maximum iterations ("@ + spec_dec(self.max_iterations as nat)
                + ") reached. The task may be too complex."@,
    {
        let mut msg: Vec<char> = str_chars("Maximum iterations (");
        let mut digits = dec_chars(self.max_iterations as u128);
        msg.append(&mut digits);
        let mut tail = str_chars(") reached. The task may be too complex.");
        msg.append(&mut tail);
        proof {
            assert(msg@ =~= "Maximum iterations ("@ + spec_dec(self.max_iterations as nat)
                + ") reached. The task may be too complex."@);
        }
        string_from_chars(&msg)
    }

    /// Take the next pending call. On the streaming path a call identical
    /// to the previous one twice over aborts the turn instead of running.
    pub fn next_pending(&mut self) -> (r: PendingStep)
        ensures
            old(self).pending@.len() == 0 ==> r is NoneLeft && *final(self) == *old(self),
            old(self).pending@.len() > 0 ==> final(self).pending@ == old(self).pending@
                .drop_first(),
            old(self).pending@.len() > 0 && !old(self).streaming ==> r == PendingStep::Run(
                old(self).pending@[0],
            ) && final(self).last_signature == old(self).last_signature
                && final(self).consecutive_repeats == old(self).consecutive_repeats,
            old(self).pending@.len() > 0 && old(self).streaming ==> {
                let sig = spec_signature(old(self).pending@[0]);
                let repeated = match old(self).last_signature {
                    Some(l) => l@ == sig,
                    None => false,
                };
                let new_repeats: u64 = if !repeated {
                    0u64
                } else if old(self).consecutive_repeats >= 2 {
                    old(self).consecutive_repeats
                } else {
                    (old(self).consecutive_repeats + 1) as u64
                };
                &&& final(self).consecutive_repeats == new_repeats
                &&& (match final(self).last_signature {
                    Some(l) => l@ == sig,
                    None => false,
                })
                &&& (if new_repeats >= 2 {
                    r is RepeatAbort
                } else {
                    r == PendingStep::Run(old(self).pending@[0])
                })
            },
            final(self).iterations == old(self).iterations,
            final(self).max_iterations == old(self).max_iterations,
            final(self).total_tool_calls == old(self).total_tool_calls,
            final(self).streaming == old(self).streaming,
            final(self).stop_requested == old(self).stop_requested,
    {
        if self.pending.len() == 0 {
            return PendingStep::NoneLeft;
        }
        let call = self.pending.remove(0);
        proof {
            assert(self.pending@ =~= old(self).pending@.drop_first());
        }
        if !self.streaming {
            return PendingStep::Run(call);
        }
        let mut sig: Vec<char> = str_chars(call.function.name.as_str());
        sig.push(':');
        let mut args = str_chars(call.function.arguments.as_str());
        sig.append(&mut args);
        proof {
            assert(sig@ =~= spec_signature(old(self).pending@[0]));
        }
        let sig_s = string_from_chars(&sig);
        let repeated = match &self.last_signature {
            Some(l) => str_eq(l.as_str(), sig_s.as_str()),
            None => false,
        };
        if repeated {
            if self.consecutive_repeats < 2 {
                self.consecutive_repeats = self.consecutive_repeats + 1;
            }
        } else {
            self.consecutive_repeats = 0;
        }
        let abort = self.consecutive_repeats >= 2;
        self.last_signature = Some(sig_s);
        if abort {
            PendingStep::RepeatAbort
        } else {
            PendingStep::Run(call)
        }
    }
}

/// The visible notice emitted when the loop detector stops a turn.
pub fn repeated_call_notice() -> (r: String)
    ensures
        r@ == "stopped: repeated call"@,
{
    string_from_chars(&str_chars("stopped: repeated call"))
}

/// The visible notice emitted when the user stops a streaming turn.
pub fn stopped_by_user_notice() -> (r: String)
    ensures
        r@ == "stopped by user"@,
{
    string_from_chars(&str_chars("stopped by user"))
}

impl MinimaxAgent {
    /// Open a turn with an iteration budget; the streaming flag selects
    /// the streaming path's extra guardrails.
    pub fn begin_turn(&self, max_iterations: usize, streaming: bool) -> (t: ChatTurn)
        ensures
            t.max_iterations == max_iterations,
            t.iterations == 0,
            t.total_tool_calls == 0,
            t.pending@.len() == 0,
            t.streaming == streaming,
            t.last_signature is None,
            t.consecutive_repeats == 0,
            !t.stop_requested,
    {
        ChatTurn {
            max_iterations,
            iterations: 0,
            total_tool_calls: 0,
            pending: Vec::new(),
            streaming,
            last_signature: None,
            consecutive_repeats: 0,
            stop_requested: false,
        }
    }

    /// Feed one completion into the turn. The assistant message is
    /// appended to the history before any tool runs; a completion with no
    /// calls finishes the turn with the cleaned content and the counters.
    pub fn on_completion(
        &mut self,
        turn: &mut ChatTurn,
        content: String,
        structured_calls: Vec<ToolCall>,
        timestamp: Option<String>,
    ) -> (r: CompletionStep)
        requires
            old(turn).iterations < old(turn).max_iterations,
        ensures
            final(turn).iterations == old(turn).iterations + 1,
            final(turn).max_iterations == old(turn).max_iterations,
            final(turn).streaming == old(turn).streaming,
            final(turn).last_signature == old(turn).last_signature,
            final(turn).consecutive_repeats == old(turn).consecutive_repeats,
            final(turn).stop_requested == old(turn).stop_requested,
            final(self).conversation_history@.len() == old(self).conversation_history@.len() + 1,
            final(self).conversation_history@.subrange(
                0,
                old(self).conversation_history@.len() as int,
            ) == old(self).conversation_history@,
            final(self).conversation_history@.last().role@ == "assistant"@,
            final(self).conversation_history@.last().content@ == content@,
            final(self).conversation_history@.last().timestamp == timestamp,
            *final(self) == (MinimaxAgent {
                conversation_history: final(self).conversation_history,
                ..*old(self)
            }),
            ({
                let pairs = spec_extracted_pairs(content@, structured_calls@, old(turn).streaming);
                &&& (pairs.len() == 0 ==> r is Finished && final(turn).pending@.len() == old(
                    turn,
                ).pending@.len() && final(turn).total_tool_calls == old(turn).total_tool_calls
                    && final(self).conversation_history@.last().tool_calls is None
                    && r->Finished_0.content@ == spec_clean_content(content@)
                    && r->Finished_0.thinking@.len() == 0
                    && r->Finished_0.tool_calls_made == old(turn).total_tool_calls
                    && r->Finished_0.iterations == old(turn).iterations + 1)
                &&& (pairs.len() > 0 ==> r is RunTools && calls_model(final(turn).pending@)
                    == calls_model(old(turn).pending@) + pairs && final(turn).total_tool_calls
                    == (if pairs.len() <= usize::MAX - old(turn).total_tool_calls {
                    (old(turn).total_tool_calls + pairs.len()) as usize
                } else {
                    usize::MAX
                }) && final(self).conversation_history@.last().tool_calls is Some && calls_model(
                    final(self).conversation_history@.last().tool_calls->0@,
                ) == pairs)
            }),
    {
        let ghost pairs = spec_extracted_pairs(content@, structured_calls@, turn.streaming);
        let mut calls: Vec<ToolCall> = structured_calls;
        if calls.len() == 0 {
            let text_calls = crate::extract::parse_text_tool_calls(
                content.as_str(),
                turn.total_tool_calls,
            );
            if text_calls.len() > 0 {
                calls = text_calls;
            } else if turn.streaming {
                calls = crate::extract::parse_grok_xml_tools(
                    content.as_str(),
                    turn.total_tool_calls,
                );
            }
        }
        proof {
            if calls@.len() > 0 {
                assert(calls_model(calls@) =~= pairs);
            } else {
                assert(pairs.len() == 0);
            }
        }
        if calls.len() == 0 {
            let msg = Message {
                role: string_from_chars(&str_chars("assistant")),
                content: clean_keep(content.as_str()),
                tool_calls: None,
                tool_call_id: None,
                timestamp,
            };
            let cleaned = clean_content(msg.content.as_str());
            let response = ChatResponse {
                content: cleaned,
                thinking: Vec::new(),
                tool_calls_made: turn.total_tool_calls,
                iterations: turn.iterations + 1,
            };
            self.conversation_history.push(msg);
            turn.iterations = turn.iterations + 1;
            proof {
                assert(self.conversation_history@.subrange(
                    0,
                    old(self).conversation_history@.len() as int,
                ) =~= old(self).conversation_history@);
            }
            CompletionStep::Finished(response)
        } else {
            let n = calls.len();
            let new_total: usize = if n <= usize::MAX - turn.total_tool_calls {
                turn.total_tool_calls + n
            } else {
                usize::MAX
            };
            let msg = Message {
                role: string_from_chars(&str_chars("assistant")),
                content: clean_keep(content.as_str()),
                tool_calls: Some(copy_calls(&calls)),
                tool_call_id: None,
                timestamp,
            };
            self.conversation_history.push(msg);
            let ghost old_pending = turn.pending@;
            let mut more = calls;
            turn.pending.append(&mut more);
            turn.total_tool_calls = new_total;
            turn.iterations = turn.iterations + 1;
            proof {
                assert(self.conversation_history@.subrange(
                    0,
                    old(self).conversation_history@.len() as int,
                ) =~= old(self).conversation_history@);
                assert(calls_model(turn.pending@) =~= calls_model(old_pending) + pairs);
            }
            CompletionStep::RunTools
        }
    }

    /// Append the result envelope of one executed call as a tool message.
    pub fn on_tool_result(&mut self, call_id: String, result: String, timestamp: Option<String>)
        ensures
            final(self).conversation_history@.len() == old(self).conversation_history@.len() + 1,
            final(self).conversation_history@.subrange(
                0,
                old(self).conversation_history@.len() as int,
            ) == old(self).conversation_history@,
            final(self).conversation_history@.last().role@ == "tool"@,
            final(self).conversation_history@.last().content@ == result@,
            final(self).conversation_history@.last().tool_call_id == Some(call_id),
            final(self).conversation_history@.last().tool_calls is None,
            final(self).conversation_history@.last().timestamp == timestamp,
            *final(self) == (MinimaxAgent {
                conversation_history: final(self).conversation_history,
                ..*old(self)
            }),
    {
        let msg = Message {
            role: string_from_chars(&str_chars("tool")),
            content: result,
            tool_calls: None,
            tool_call_id: Some(call_id),
            timestamp,
        };
        self.conversation_history.push(msg);
        proof {
            assert(self.conversation_history@.subrange(
                0,
                old(self).conversation_history@.len() as int,
            ) =~= old(self).conversation_history@);
        }
    }
}

/// A copy of a string that keeps its characters.
fn clean_keep(s: &str) -> (r: String)
    ensures
        r@ == s@,
{
    string_from_chars(&str_chars(s))
}

/// A copy of a call list whose names, arguments, ids and call types are
/// those of the original.
fn copy_calls(calls: &Vec<ToolCall>) -> (r: Vec<ToolCall>)
    ensures
        calls_model(r@) == calls_model(calls@),
        r@.len() == calls@.len(),
        forall|i: int| 0 <= i < calls@.len() ==> (#[trigger] r@[i]).id@ == calls@[i].id@
            && r@[i].tool_type@ == calls@[i].tool_type@,
{
    let n = calls.len();
    let mut r: Vec<ToolCall> = Vec::new();
    let mut i: usize = 0;
    while i < n
        invariant
            i <= n,
            n == calls@.len(),
            r@.len() == i,
            forall|k: int| 0 <= k < i ==> (#[trigger] r@[k]).id@ == calls@[k].id@
                && r@[k].tool_type@ == calls@[k].tool_type@ && r@[k].function.name@
                == calls@[k].function.name@ && r@[k].function.arguments@
                == calls@[k].function.arguments@,
        decreases n - i,
    {
        r.push(ToolCall {
            id: calls[i].id.clone(),
            tool_type: calls[i].tool_type.clone(),
            function: FunctionCall {
                name: calls[i].function.name.clone(),
                arguments: calls[i].function.arguments.clone(),
            },
        });
        i = i + 1;
    }
    proof {
        assert(calls_model(r@) =~= calls_model(calls@));
    }
    r
}

/// The content of a message as sent to the completion service when its
/// creation time is annotated into it for temporal grounding.
pub open spec fn spec_annotated_content(role: Seq<char>, content: Seq<char>, ts: Seq<char>) -> Seq<char> {
    seq!['['] + ts + "] "@ + content + "\n\n"@ + (if role == "user"@ {
        "\n(Please consider the timestamp above when responding)"@
    } else {
        Seq::<char>::empty()
    })
}

impl MinimaxAgent {
    /// The message list for the next completion request: the system
    /// prompt first, then the history; when `annotate` is set, each
    /// timestamped message carries its creation time inside its content.
    pub fn build_request_messages(&self, annotate: bool) -> (r: Vec<Message>)
        ensures
            r@.len() == 1 + self.conversation_history@.len(),
            r@[0].role@ == "system"@,
            r@[0].content@ == self.system_prompt@,
            r@[0].tool_calls is None,
            forall|i: int| 0 <= i < self.conversation_history@.len() ==> {
                let m = #[trigger] self.conversation_history@[i];
                let o = r@[i + 1];
                &&& o.role@ == m.role@
                &&& o.tool_call_id == m.tool_call_id
                &&& o.timestamp == m.timestamp
                &&& (match (o.tool_calls, m.tool_calls) {
                    (Some(a), Some(b)) => calls_model(a@) == calls_model(b@),
                    (None, None) => true,
                    _ => false,
                })
                &&& (match m.timestamp {
                    Some(ts) => o.content@ == (if annotate {
                        spec_annotated_content(m.role@, m.content@, ts@)
                    } else {
                        m.content@
                    }),
                    None => o.content@ == m.content@,
                })
            },
    {
        let mut r: Vec<Message> = Vec::new();
        r.push(Message {
            role: string_from_chars(&str_chars("system")),
            content: clean_keep(self.system_prompt.as_str()),
            tool_calls: None,
            tool_call_id: None,
            timestamp: None,
        });
        let n = self.conversation_history.len();
        let mut i: usize = 0;
        while i < n
            invariant
                i <= n,
                n == self.conversation_history@.len(),
                r@.len() == 1 + i,
                r@[0].role@ == "system"@,
                r@[0].content@ == self.system_prompt@,
                r@[0].tool_calls is None,
                forall|k: int| 0 <= k < i ==> {
                    let m = #[trigger] self.conversation_history@[k];
                    let o = r@[k + 1];
                    &&& o.role@ == m.role@
                    &&& o.tool_call_id == m.tool_call_id
                    &&& o.timestamp == m.timestamp
                    &&& (match (o.tool_calls, m.tool_calls) {
                        (Some(a), Some(b)) => calls_model(a@) == calls_model(b@),
                        (None, None) => true,
                        _ => false,
                    })
                    &&& (match m.timestamp {
                        Some(ts) => o.content@ == (if annotate {
                            spec_annotated_content(m.role@, m.content@, ts@)
                        } else {
                            m.content@
                        }),
                        None => o.content@ == m.content@,
                    })
                },
            decreases n - i,
        {
            let m = &self.conversation_history[i];
            let content: String = match &m.timestamp {
                Some(ts) => {
                    if annotate {
                        annotate_content(m.role.as_str(), m.content.as_str(), ts.as_str())
                    } else {
                        clean_keep(m.content.as_str())
                    }
                }
                None => clean_keep(m.content.as_str()),
            };
            let tool_calls: Option<Vec<ToolCall>> = match &m.tool_calls {
                Some(calls) => Some(copy_calls(calls)),
                None => None,
            };
            let tool_call_id: Option<String> = match &m.tool_call_id {
                Some(id) => Some(id.clone()),
                None => None,
            };
            let timestamp: Option<String> = match &m.timestamp {
                Some(ts) => Some(ts.clone()),
                None => None,
            };
            r.push(Message {
                role: clean_keep(m.role.as_str()),
                content,
                tool_calls,
                tool_call_id,
                timestamp,
            });
            i = i + 1;
        }
        r
    }
}

impl MinimaxAgent {
    /// Extract tool calls from free model text; see the extraction
    /// module for the format chain.
    pub fn parse_text_tool_calls(text: &str, base_call_index: usize) -> (calls: Vec<ToolCall>)
        ensures
            calls_model(calls@) == crate::extract::spec_text_tool_calls(text@),
            crate::extract::calls_well_formed(calls@, base_call_index as int),
    {
        crate::extract::parse_text_tool_calls(text, base_call_index)
    }

    /// Extract XML-style `<tool_code>` tool calls.
    pub fn parse_grok_xml_tools(text: &str, base_call_index: usize) -> (calls: Vec<ToolCall>)
        ensures
            calls_model(calls@) == crate::extract::spec_grok_calls(text@),
            crate::extract::xml_calls_well_formed(calls@, base_call_index as int),
    {
        crate::extract::parse_grok_xml_tools(text, base_call_index)
    }
}


/// Whether the policy lets a tool of this name be offered to the
/// completion service: not hard-disabled by the profile, and not switched
/// off by the session.
pub open spec fn spec_tool_offered(
    mode: AppMode,
    pairs: Seq<(Seq<char>, bool)>,
    name: Seq<char>,
) -> bool {
    !(mode is Student && (name == "run_terminal_command"@ || name == "write_file_batch"@)) && (
    pairs.len() == 0 || spec_enabled_lookup(pairs, name))
}

/// Everything a tool carries, at the granularity contracts speak of: the
/// call type, name, description and the schema's model.
pub open spec fn spec_tool_model(t: Tool) -> (Seq<char>, Seq<char>, Seq<char>, JsonModel) {
    (t.tool_type@, t.function.name@, t.function.description@, t.function.parameters.model())
}

/// The first `n` catalog entries that the policy offers, in catalog
/// order: the filtered subsequence of the catalog itself.
pub open spec fn spec_offered_tools(
    tools: Seq<Tool>,
    mode: AppMode,
    pairs: Seq<(Seq<char>, bool)>,
    n: int,
) -> Seq<Tool>
    decreases n,
{
    if n <= 0 {
        Seq::<Tool>::empty()
    } else {
        spec_offered_tools(tools, mode, pairs, n - 1) + (if spec_tool_offered(
            mode,
            pairs,
            tools[n - 1].function.name@,
        ) {
            seq![tools[n - 1]]
        } else {
            Seq::<Tool>::empty()
        })
    }
}

impl MinimaxAgent {
    /// The tool catalog as offered to the completion service this
    /// iteration: exactly the catalog's own entries that the profile's
    /// hard disables and the session's toggles let through, in catalog
    /// order, each carried over whole.
    pub fn get_enabled_tools(&self) -> (r: Vec<Tool>)
        ensures
            ({
                let offered = spec_offered_tools(
                    self.tools@,
                    self.app_mode,
                    spec_enabled_pairs(self.enabled_tools@),
                    self.tools@.len() as int,
                );
                r@.len() == offered.len() && forall|i: int| 0 <= i < offered.len()
                    ==> spec_tool_model(#[trigger] r@[i]) == spec_tool_model(offered[i])
            }),
    {
        let ghost pairs = spec_enabled_pairs(self.enabled_tools@);
        let n = self.tools.len();
        let mut r: Vec<Tool> = Vec::new();
        let mut i: usize = 0;
        while i < n
            invariant
                i <= n,
                n == self.tools@.len(),
                pairs == spec_enabled_pairs(self.enabled_tools@),
                r@.len() == spec_offered_tools(self.tools@, self.app_mode, pairs, i as int).len(),
                forall|k: int| 0 <= k < r@.len() ==> spec_tool_model(#[trigger] r@[k])
                    == spec_tool_model(
                    spec_offered_tools(self.tools@, self.app_mode, pairs, i as int)[k],
                ),
            decreases n - i,
        {
            let ghost before = spec_offered_tools(self.tools@, self.app_mode, pairs, i as int);
            let ghost after = spec_offered_tools(self.tools@, self.app_mode, pairs, i as int + 1);
            let name = &self.tools[i].function.name;
            let offered = !self.is_forced_disabled_tool(name.as_str()) && self.is_session_enabled(
                name.as_str(),
            );
            if offered {
                let t = &self.tools[i];
                let copied = Tool {
                    tool_type: t.tool_type.clone(),
                    function: ToolFunction {
                        name: t.function.name.clone(),
                        description: t.function.description.clone(),
                        parameters: t.function.parameters.clone(),
                    },
                };
                r.push(copied);
                proof {
                    assert(after =~= before.push(self.tools@[i as int]));
                    assert(spec_tool_model(r@[r@.len() - 1]) == spec_tool_model(
                        self.tools@[i as int],
                    ));
                }
            } else {
                proof {
                    assert(after =~= before);
                }
            }
            i = i + 1;
        }
        r
    }
}

/// Build the annotated form of a timestamped message's content.
fn annotate_content(role: &str, content: &str, ts: &str) -> (r: String)
    ensures
        r@ == spec_annotated_content(role@, content@, ts@),
{
    let mut out: Vec<char> = Vec::new();
    out.push('[');
    let mut ts_cs = str_chars(ts);
    out.append(&mut ts_cs);
    let mut mid = str_chars("] ");
    out.append(&mut mid);
    let mut content_cs = str_chars(content);
    out.append(&mut content_cs);
    let mut gap = str_chars("\n\n");
    out.append(&mut gap);
    if crate::json::str_eq(role, "user") {
        let mut tail = str_chars("\n(Please consider the timestamp above when responding)");
        out.append(&mut tail);
    }
    proof {
        assert(out@ =~= spec_annotated_content(role@, content@, ts@));
    }
    string_from_chars(&out)
}

} // verus!
