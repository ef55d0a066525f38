//! The code-sandbox tool: which runtime a snippet goes to, its time limit,
//! and how the outcome of a run becomes the tool's output.

use vstd::prelude::*;
use crate::text::{concat, owned, same_text};

verus! {

/// The code-sandbox tool.
pub struct CodeSandboxTool;

/// A snippet to run.
pub struct CodeSandboxInput {
    /// Programming language: "python", "javascript", "rust", etc.
    pub language: String,
    /// Source code to execute.
    pub code: String,
    /// Optional stdin input.
    pub stdin: Option<String>,
    /// Timeout in seconds (max 30).
    pub timeout_secs: Option<u64>,
}

/// What a run produced.
pub struct CodeSandboxOutput {
    pub stdout: String,
    pub stderr: String,
    pub exit_code: i32,
    pub timed_out: bool,
}

/// The runtimes a snippet can go to.
#[derive(Clone, Copy, Debug, PartialEq, Eq, Structural)]
pub enum Runtime {
    /// `python3 -c <code>`, fed the stdin input.
    Python,
    /// `node -e <code>`, fed the stdin input.
    Node,
    /// `rustc --edition 2021`, then the binary, fed the stdin input.
    Rust,
}

/// A snippet with its runtime and time limit.
pub struct SandboxPlan {
    pub runtime: Runtime,
    pub code: String,
    pub stdin: Option<String>,
    pub timeout_secs: u64,
}

/// A language the sandbox does not run (lowercased as given).
pub struct UnsupportedLanguage {
    pub language: String,
}

/// How a program run ended.
pub enum RunOutcome {
    /// The program exited (with its exit code, unless a signal ended it).
    Finished { stdout: Vec<u8>, stderr: Vec<u8>, code: Option<i32> },
    /// The time limit passed first.
    TimedOut,
}

/// `str::to_lowercase` of std: the Unicode lowercase mapping of the text.
pub uninterp spec fn lowercase(s: Seq<char>) -> Seq<char>;

/// `String::from_utf8_lossy` of std: the bytes decoded as UTF-8, with each
/// invalid sequence replaced by U+FFFD.
pub uninterp spec fn utf8_lossy(b: Seq<u8>) -> Seq<char>;

/// The Unicode lowercase form of a string (`str::to_lowercase`).
#[verifier::external_body]
fn to_lowercase(s: &str) -> (r: String)
    ensures
        r@ == lowercase(s@),
{
    s.to_lowercase()
}

/// Bytes decoded as UTF-8, invalid sequences replaced
/// (`String::from_utf8_lossy`).
#[verifier::external_body]
fn decode_lossy(b: &[u8]) -> (r: String)
    ensures
        r@ == utf8_lossy(b@),
{
    String::from_utf8_lossy(b).into_owned()
}

/// The runtime a lowercased language name selects.
pub open spec fn runtime_for(lang: Seq<char>) -> Option<Runtime> {
    if lang == "python"@ || lang == "python3"@ || lang == "py"@ {
        Some(Runtime::Python)
    } else if lang == "javascript"@ || lang == "js"@ || lang == "node"@ {
        Some(Runtime::Node)
    } else if lang == "rust"@ || lang == "rs"@ {
        Some(Runtime::Rust)
    } else {
        None
    }
}

/// The language names the sandbox knows, each with the runtime it runs
/// on, and no others: `python`, `python3` and `py` run on Python;
/// `javascript`, `js` and `node` on Node; `rust` and `rs` on Rust.
pub proof fn law_language_names(lang: Seq<char>)
    ensures
        runtime_for(lang) == Some(Runtime::Python) <==> (lang == "python"@ || lang == "python3"@ || lang
            == "py"@),
        runtime_for(lang) == Some(Runtime::Node) <==> (lang == "javascript"@ || lang == "js"@ || lang
            == "node"@),
        runtime_for(lang) == Some(Runtime::Rust) <==> (lang == "rust"@ || lang == "rs"@),
{
    reveal_strlit("python");
    reveal_strlit("python3");
    reveal_strlit("py");
    reveal_strlit("javascript");
    reveal_strlit("js");
    reveal_strlit("node");
    reveal_strlit("rust");
    reveal_strlit("rs");
    assert("js"@[0] != "py"@[0]);
    assert("rs"@[0] != "py"@[0]);
    assert("rs"@[0] != "js"@[0]);
    assert("node"@[0] != "rust"@[0]);
    assert("javascript"@.len() == 10 && "node"@.len() == 4 && "python"@.len() == 6 && "python3"@.len()
        == 7 && "rust"@.len() == 4);
    assert("javascript"@ != "python"@ && "javascript"@ != "python3"@ && "javascript"@ != "py"@);
    assert("node"@ != "python"@ && "node"@ != "python3"@ && "node"@ != "py"@);
    assert("js"@ != "py"@);
}

/// The exit code reported for a process: its own, or -1 when a signal
/// ended it.
pub open spec fn exit_code_of(code: Option<i32>) -> i32 {
    match code {
        Some(c) => c,
        None => -1i32,
    }
}

/// The time limit of a run: 10 seconds unless asked otherwise, at most 30.
pub open spec fn time_limit(asked: Option<u64>) -> u64 {
    let t = match asked {
        Some(t) => t,
        None => 10,
    };
    if t < 30 {
        t
    } else {
        30
    }
}

/// No run is given more than 30 seconds, whatever the request asks.
pub proof fn law_time_limit_at_most_30(asked: Option<u64>)
    ensures
        time_limit(asked) <= 30,
        asked is None ==> time_limit(asked) == 10,
        asked is Some && asked->0 <= 30 ==> time_limit(asked) == asked->0,
{
}

/// The decimal digits of a number.
pub open spec fn decimal(n: nat) -> Seq<char>
    decreases n,
{
    if n < 10 {
        seq![digit_char(n)]
    } else {
        decimal(n / 10).push(digit_char(n % 10))
    }
}

pub open spec fn digit_char(d: nat) -> char {
    ('0' as u8 + d) as char
}

/// The message of a run stopped by its time limit.
pub open spec fn timeout_message(secs: u64) -> Seq<char> {
    "Execution timed out after "@ + decimal(secs as nat) + "s"@
}

/// The decimal digits of `n`, as a string.
pub fn decimal_text(n: u64) -> (s: String)
    ensures
        s@ == decimal(n as nat),
    decreases n,
{
    let d = (n % 10) as u8;
    let c = ('0' as u8 + d) as char;
    if n < 10 {
        let mut s = String::new();
        crate::text::push_char(&mut s, c);
        assert(s@ =~= decimal(n as nat));
        s
    } else {
        let mut s = decimal_text(n / 10);
        crate::text::push_char(&mut s, c);
        s
    }
}

impl CodeSandboxTool {
    pub fn new() -> (t: Self) {
        CodeSandboxTool
    }

    pub fn name(&self) -> (s: &str)
        ensures
            s@ == "code_sandbox"@,
    {
        "code_sandbox"
    }

    pub fn description(&self) -> (s: &str)
        ensures
            s@ == "Execute a short code snippet safely in a sandboxed environment. Supports python, javascript, and rust. Max timeout 30s."@,
    {
        "Execute a short code snippet safely in a sandboxed environment. Supports python, javascript, and rust. Max timeout 30s."
    }

    /// Where a snippet goes: the runtime its lowercased language names,
    /// with the time limit of `time_limit`; a language that names none is
    /// refused.
    pub fn plan(&self, args: CodeSandboxInput) -> (r: Result<SandboxPlan, UnsupportedLanguage>)
        ensures
            runtime_for(lowercase(args.language@)) matches Some(rt) ==> (r matches Ok(p) && p.runtime == rt
                && p.code == args.code && p.stdin == args.stdin && p.timeout_secs == time_limit(
                args.timeout_secs,
            )),
            runtime_for(lowercase(args.language@)) is None ==> (r matches Err(e) && e.language@
                == lowercase(args.language@)),
    {
        let asked = match args.timeout_secs {
            Some(t) => t,
            None => 10,
        };
        let timeout_secs = if asked < 30 { asked } else { 30 };
        let lang = to_lowercase(args.language.as_str());
        let l = lang.as_str();
        proof {
            reveal_strlit("python");
            reveal_strlit("python3");
            reveal_strlit("py");
            reveal_strlit("javascript");
            reveal_strlit("js");
            reveal_strlit("node");
            reveal_strlit("rust");
            reveal_strlit("rs");
        }
        let runtime = if same_text(l, "python") || same_text(l, "python3") || same_text(l, "py") {
            Runtime::Python
        } else if same_text(l, "javascript") || same_text(l, "js") || same_text(l, "node") {
            Runtime::Node
        } else if same_text(l, "rust") || same_text(l, "rs") {
            Runtime::Rust
        } else {
            return Err(UnsupportedLanguage { language: lang });
        };
        Ok(SandboxPlan { runtime, code: args.code, stdin: args.stdin, timeout_secs })
    }
}

impl UnsupportedLanguage {
    /// The refusal's message: `Unsupported language: <language>`.
    pub fn message(&self) -> (s: String)
        ensures
            s@ == "Unsupported language: "@ + self.language@,
    {
        concat("Unsupported language: ", self.language.as_str())
    }
}

/// The output of a run: what a finished program wrote (decoded lossily)
/// and its exit code (-1 when a signal ended it); or, past the time limit,
/// nothing on stdout, the timeout message on stderr and exit code -1.
pub fn run_output(outcome: RunOutcome, timeout_secs: u64) -> (o: CodeSandboxOutput)
    ensures
        outcome matches RunOutcome::Finished { stdout, stderr, code } ==> {
            &&& o.stdout@ == utf8_lossy(stdout@)
            &&& o.stderr@ == utf8_lossy(stderr@)
            &&& o.exit_code == exit_code_of(code)
            &&& !o.timed_out
        },
        outcome is TimedOut ==> {
            &&& o.stdout@.len() == 0
            &&& o.stderr@ == timeout_message(timeout_secs)
            &&& o.exit_code == -1
            &&& o.timed_out
        },
{
    match outcome {
        RunOutcome::Finished { stdout, stderr, code } => CodeSandboxOutput {
            stdout: decode_lossy(stdout.as_slice()),
            stderr: decode_lossy(stderr.as_slice()),
            exit_code: match code {
                Some(c) => c,
                None => -1,
            },
            timed_out: false,
        },
        RunOutcome::TimedOut => {
            proof {
                reveal_strlit("Execution timed out after ");
                reveal_strlit("s");
            }
            let digits = decimal_text(timeout_secs);
            let head = concat("Execution timed out after ", digits.as_str());
            let msg = concat(head.as_str(), "s");
            CodeSandboxOutput { stdout: String::new(), stderr: msg, exit_code: -1, timed_out: true }
        },
    }
}

/// After compiling a Rust snippet: a failed compilation is the tool's
/// output at once (nothing on stdout, the compiler's stderr, its exit code
/// or -1, not timed out); a successful one gives `None`, and the binary runs.
pub fn compile_output(success: bool, stderr: Vec<u8>, code: Option<i32>) -> (o: Option<CodeSandboxOutput>)
    ensures
        success ==> o is None,
        !success ==> (o matches Some(out) && out.stdout@.len() == 0 && out.stderr@ == utf8_lossy(
            stderr@,
        ) && out.exit_code == exit_code_of(code) && !out.timed_out),
{
    if success {
        None
    } else {
        Some(CodeSandboxOutput {
            stdout: String::new(),
            stderr: decode_lossy(stderr.as_slice()),
            exit_code: match code {
                Some(c) => c,
                None => -1,
            },
            timed_out: false,
        })
    }
}

} // verus!
