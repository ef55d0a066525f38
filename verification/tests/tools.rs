use ragent::agent::{build_messages, chat_url, reply_text, tool_kind, unknown_tool_message, AgentConfig, OllamaMessage, ToolKind};
use ragent::code_sandbox::{
    compile_output, decimal_text, run_output, CodeSandboxInput, CodeSandboxTool, RunOutcome, Runtime,
};
use ragent::tools::ToolCall;
use ragent::web_search::{serper_output, OrganicItem, SearchPlan, WebSearchInput, WebSearchTool};

fn sandbox_input(lang: &str, timeout: Option<u64>) -> CodeSandboxInput {
    CodeSandboxInput { language: lang.into(), code: "print(1)".into(), stdin: Some("in".into()), timeout_secs: timeout }
}

#[test]
fn sandbox_selects_runtime_case_insensitively() {
    let t = CodeSandboxTool::new();
    let p = t.plan(sandbox_input("Python", None)).ok().unwrap();
    assert_eq!(p.runtime, Runtime::Python);
    assert_eq!(p.timeout_secs, 10);
    assert_eq!(p.code, "print(1)");
    assert_eq!(p.stdin.as_deref(), Some("in"));
    assert_eq!(t.plan(sandbox_input("JS", Some(5))).ok().unwrap().runtime, Runtime::Node);
    assert_eq!(t.plan(sandbox_input("node", Some(5))).ok().unwrap().timeout_secs, 5);
    assert_eq!(t.plan(sandbox_input("RS", Some(99))).ok().unwrap().timeout_secs, 30);
    assert_eq!(t.plan(sandbox_input("rust", Some(30))).ok().unwrap().runtime, Runtime::Rust);
    assert_eq!(t.plan(sandbox_input("py", Some(0))).ok().unwrap().timeout_secs, 0);
}

#[test]
fn sandbox_refuses_other_languages() {
    let t = CodeSandboxTool::new();
    let e = t.plan(sandbox_input("Go", None)).err().unwrap();
    assert_eq!(e.language, "go");
    assert_eq!(e.message(), "Unsupported language: go");
    assert!(t.plan(sandbox_input("python ", None)).is_err());
}

#[test]
fn sandbox_identity() {
    let t = CodeSandboxTool::new();
    assert_eq!(t.name(), "code_sandbox");
    assert!(t.description().starts_with("Execute a short code snippet"));
}

#[test]
fn run_outcomes() {
    let o = run_output(RunOutcome::TimedOut, 30);
    assert_eq!((o.stdout.as_str(), o.stderr.as_str(), o.exit_code, o.timed_out), ("", "Execution timed out after 30s", -1, true));
    let o = run_output(RunOutcome::Finished { stdout: b"hi\n".to_vec(), stderr: vec![0xff], code: Some(3) }, 5);
    assert_eq!((o.stdout.as_str(), o.stderr.as_str(), o.exit_code, o.timed_out), ("hi\n", "\u{fffd}", 3, false));
    let o = run_output(RunOutcome::Finished { stdout: vec![], stderr: vec![], code: None }, 5);
    assert_eq!(o.exit_code, -1);
    assert_eq!(decimal_text(0), "0");
    assert_eq!(decimal_text(18446744073709551615), "18446744073709551615");
}

#[test]
fn compile_outcomes() {
    assert!(compile_output(true, b"warn".to_vec(), Some(0)).is_none());
    let o = compile_output(false, b"error[E0425]".to_vec(), Some(1)).unwrap();
    assert_eq!((o.stdout.as_str(), o.stderr.as_str(), o.exit_code, o.timed_out), ("", "error[E0425]", 1, false));
}

#[test]
fn search_without_key_answers_notice() {
    let t = WebSearchTool::new();
    assert_eq!(t.name(), "web_search");
    match t.plan(WebSearchInput { query: "rust".into(), max_results: None }) {
        SearchPlan::Done(o) => {
            assert_eq!(o.query, "rust");
            assert_eq!(o.results.len(), 1);
            assert_eq!(o.results[0].title, "Search not configured");
            assert_eq!(o.results[0].url, "https://example.com");
        }
        _ => panic!("expected the notice"),
    }
}

#[test]
fn search_with_key_asks_serper() {
    let t = WebSearchTool::with_api_key("k1".to_string());
    match t.plan(WebSearchInput { query: "verus".into(), max_results: None }) {
        SearchPlan::Serper { query, num, api_key } => {
            assert_eq!((query.as_str(), num, api_key.as_str()), ("verus", 5, "k1"));
        }
        _ => panic!("expected a Serper request"),
    }
    match t.plan(WebSearchInput { query: "q".into(), max_results: Some(2) }) {
        SearchPlan::Serper { num, .. } => assert_eq!(num, 2),
        _ => panic!("expected a Serper request"),
    }
}

fn item(t: Option<&str>, l: Option<&str>, s: Option<&str>) -> OrganicItem {
    OrganicItem { title: t.map(String::from), link: l.map(String::from), snippet: s.map(String::from) }
}

#[test]
fn serper_answers_are_trimmed() {
    let items = vec![item(Some("a"), Some("u1"), None), item(None, Some("u2"), Some("s2")), item(Some("c"), None, None)];
    let o = serper_output(Some(items), 2, "q");
    assert_eq!(o.query, "q");
    assert_eq!(o.results.len(), 2);
    assert_eq!((o.results[0].title.as_str(), o.results[0].url.as_str(), o.results[0].snippet.as_str()), ("a", "u1", ""));
    assert_eq!((o.results[1].title.as_str(), o.results[1].url.as_str(), o.results[1].snippet.as_str()), ("", "u2", "s2"));
    assert_eq!(serper_output(None, 5, "q").results.len(), 0);
    assert_eq!(serper_output(Some(vec![item(None, None, None)]), 5, "q").results.len(), 1);
}

#[test]
fn agent_defaults() {
    let c = AgentConfig::default();
    assert_eq!(c.ollama_base_url, "http://localhost:11434");
    assert_eq!(c.model, "llama3");
    assert!(c.enable_tools);
}

#[test]
fn chat_request_messages() {
    let c = AgentConfig::default();
    let hist = vec![
        OllamaMessage { role: "user".into(), content: "hi".into() },
        OllamaMessage { role: "assistant".into(), content: "hello".into() },
    ];
    let m = build_messages(&c, hist, "2+2?");
    assert_eq!(m.len(), 4);
    assert_eq!((m[0].role.as_str(), m[0].content.as_str()), ("system", "You are a helpful AI assistant. Use tools when needed."));
    assert_eq!(m[2].content, "hello");
    assert_eq!((m[3].role.as_str(), m[3].content.as_str()), ("user", "2+2?"));
    assert_eq!(chat_url("http://h:1"), "http://h:1/api/chat");
}

#[test]
fn reply_text_fallbacks() {
    let m = OllamaMessage { role: "assistant".into(), content: "A".into() };
    assert_eq!(reply_text(Some(m), Some("B".into())), "A");
    assert_eq!(reply_text(None, Some("B".into())), "B");
    assert_eq!(reply_text(None, None), "");
}

#[test]
fn tool_names() {
    assert_eq!(tool_kind("calculator"), Some(ToolKind::Calculator));
    assert_eq!(tool_kind("web_search"), Some(ToolKind::WebSearch));
    assert_eq!(tool_kind("code_sandbox"), Some(ToolKind::CodeSandbox));
    assert_eq!(tool_kind("Calculator"), None);
    assert_eq!(unknown_tool_message("x"), "Unknown tool: x");
    let c = ToolCall::Calculator { expression: "1".into() };
    assert!(matches!(c, ToolCall::Calculator { .. }));
}
