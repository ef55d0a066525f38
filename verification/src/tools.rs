//! The unified form of a tool call.

use vstd::prelude::*;

verus! {

/// A tool call, as the model asks for it.
pub enum ToolCall {
    Calculator { expression: String },
    WebSearch { query: String },
    CodeSandbox { language: String, code: String },
}

} // verus!
