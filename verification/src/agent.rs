//! The chat agent's side of a conversation with an Ollama server: its
//! configuration, the messages it sends, where it sends them, what it takes
//! from the answer, and which tool a tool call names.

use vstd::prelude::*;
use crate::text::{concat, owned, same_text};

verus! {

/// Configuration for the agent.
pub struct AgentConfig {
    pub ollama_base_url: String,
    pub model: String,
    pub system_prompt: String,
    pub enable_tools: bool,
}

impl Default for AgentConfig {
    /// A local Ollama server, the `llama3` model, a helpful-assistant
    /// prompt, and tools on.
    fn default() -> (c: Self)
        ensures
            c.ollama_base_url@ == "http://localhost:11434"@,
            c.model@ == "llama3"@,
            c.system_prompt@ == "You are a helpful AI assistant. Use tools when needed."@,
            c.enable_tools,
    {
        proof {
            reveal_strlit("http://localhost:11434");
            reveal_strlit("llama3");
            reveal_strlit("You are a helpful AI assistant. Use tools when needed.");
        }
        AgentConfig {
            ollama_base_url: owned("http://localhost:11434"),
            model: owned("llama3"),
            system_prompt: owned("You are a helpful AI assistant. Use tools when needed."),
            enable_tools: true,
        }
    }
}

/// An Ollama chat message.
pub struct OllamaMessage {
    pub role: String,
    pub content: String,
}

/// `m` has this role and content.
pub open spec fn message_is(m: OllamaMessage, role: Seq<char>, content: Seq<char>) -> bool {
    m.role@ == role && m.content@ == content
}

/// The messages of a chat request: the system prompt, then the history in
/// order, then the user's new message.
pub fn build_messages(config: &AgentConfig, history: Vec<OllamaMessage>, user_message: &str) -> (m: Vec<OllamaMessage>)
    ensures
        m@.len() == history@.len() + 2,
        message_is(m@[0], "system"@, config.system_prompt@),
        forall|k: int| 0 <= k < history@.len() ==> #[trigger] m@[k + 1] == history@[k],
        message_is(m@[history@.len() as int + 1], "user"@, user_message@),
{
    proof {
        reveal_strlit("system");
        reveal_strlit("user");
    }
    let mut m: Vec<OllamaMessage> = Vec::new();
    m.push(OllamaMessage { role: owned("system"), content: owned(config.system_prompt.as_str()) });
    let ghost h = history@;
    let mut history = history;
    m.append(&mut history);
    assert(m@ == seq![m@[0]] + h);
    m.push(OllamaMessage { role: owned("user"), content: owned(user_message) });
    proof {
        assert forall|k: int| 0 <= k < h.len() implies #[trigger] m@[k + 1] == h[k] by {}
    }
    m
}

/// The chat endpoint of an Ollama server.
pub fn chat_url(base_url: &str) -> (u: String)
    ensures
        u@ == base_url@ + "/api/chat"@,
{
    concat(base_url, "/api/chat")
}

/// The text of an Ollama answer: the message content if there is a
/// message, else the `response` field, else the empty text.
pub fn reply_text(message: Option<OllamaMessage>, response: Option<String>) -> (t: String)
    ensures
        message matches Some(m) ==> t@ == m.content@,
        message is None && response is Some ==> t@ == response->0@,
        message is None && response is None ==> t@.len() == 0,
{
    match message {
        Some(m) => m.content,
        None => match response {
            Some(r) => r,
            None => String::new(),
        },
    }
}

/// The tools an agent can call.
#[derive(Clone, Copy, Debug, PartialEq, Eq, Structural)]
pub enum ToolKind {
    Calculator,
    WebSearch,
    CodeSandbox,
}

/// The tool a name selects.
pub open spec fn tool_named(name: Seq<char>) -> Option<ToolKind> {
    if name == "calculator"@ {
        Some(ToolKind::Calculator)
    } else if name == "web_search"@ {
        Some(ToolKind::WebSearch)
    } else if name == "code_sandbox"@ {
        Some(ToolKind::CodeSandbox)
    } else {
        None
    }
}

/// The tool a tool call names; `None` for an unknown tool.
pub fn tool_kind(name: &str) -> (k: Option<ToolKind>)
    ensures
        k == tool_named(name@),
{
    proof {
        reveal_strlit("calculator");
        reveal_strlit("web_search");
        reveal_strlit("code_sandbox");
    }
    if same_text(name, "calculator") {
        Some(ToolKind::Calculator)
    } else if same_text(name, "web_search") {
        Some(ToolKind::WebSearch)
    } else if same_text(name, "code_sandbox") {
        Some(ToolKind::CodeSandbox)
    } else {
        None
    }
}

/// The message of a call to an unknown tool: `Unknown tool: <name>`.
pub fn unknown_tool_message(name: &str) -> (s: String)
    ensures
        s@ == "Unknown tool: "@ + name@,
{
    concat("Unknown tool: ", name)
}

} // verus!
