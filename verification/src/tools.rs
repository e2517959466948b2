//! The interface of the tool executor that a caller supplies.

use crate::json::{Json, JsonValue};
use crate::text::concat2;
use vstd::prelude::*;

verus! {

/// Why a tool call failed.
#[derive(Debug, PartialEq, Eq)]
pub enum ToolError {
    NotFound(String),
    Execution(String),
}

/// The mathematical value of a `ToolError`.
pub enum ToolErrorView {
    NotFound(Seq<char>),
    Execution(Seq<char>),
}

impl View for ToolError {
    type V = ToolErrorView;

    open spec fn view(&self) -> ToolErrorView {
        match self {
            ToolError::NotFound(name) => ToolErrorView::NotFound(name@),
            ToolError::Execution(message) => ToolErrorView::Execution(message@),
        }
    }
}

impl Clone for ToolError {
    fn clone(&self) -> (r: Self)
        ensures
            r@ == self@,
    {
        match self {
            ToolError::NotFound(name) => ToolError::NotFound(name.clone()),
            ToolError::Execution(message) => ToolError::Execution(message.clone()),
        }
    }
}

impl ToolErrorView {
    /// The text shown to a user for this error.
    pub open spec fn message(self) -> Seq<char> {
        match self {
            ToolErrorView::NotFound(name) => "tool not found: "@ + name,
            ToolErrorView::Execution(message) => "tool execution failed: "@ + message,
        }
    }
}

impl ToolError {
    /// The text shown to a user for this error.
    pub fn message(&self) -> (r: String)
        ensures
            r@ == self@.message(),
    {
        match self {
            ToolError::NotFound(name) => concat2("tool not found: ", name.as_str()),
            ToolError::Execution(message) => concat2("tool execution failed: ", message.as_str()),
        }
    }
}

/// What an executor answered: the output of the tool, or why it failed.
pub type ToolOutcome = Result<JsonValue, ToolErrorView>;

/// The view of an executor's answer.
pub open spec fn outcome_view(outcome: Result<Json, ToolError>) -> ToolOutcome {
    match outcome {
        Ok(output) => Ok(output@),
        Err(e) => Err(e@),
    }
}

/// Executes the tools that a model asks for. Implemented by the caller.
pub trait ToolExecutor {
    /// Whether `outcome` is an answer of this executor to a call of the
    /// tool `name` on `input`. An executor that says nothing of its
    /// answers admits them all.
    open spec fn answers(&self, name: Seq<char>, input: JsonValue, outcome: ToolOutcome) -> bool {
        true
    }

    /// Runs the tool `name` on `input`.
    fn call(&self, name: &str, input: Json) -> (r: Result<Json, ToolError>)
        ensures
            self.answers(name@, input@, outcome_view(r)),
    ;
}

/// An executor that knows no tool: every call fails, the tool not being
/// found.
#[derive(Debug, Clone, Copy, PartialEq, Eq)]
pub struct NoTools;

impl ToolExecutor for NoTools {
    open spec fn answers(&self, name: Seq<char>, input: JsonValue, outcome: ToolOutcome) -> bool {
        outcome == Err::<JsonValue, ToolErrorView>(ToolErrorView::NotFound(name))
    }

    fn call(&self, name: &str, input: Json) -> (r: Result<Json, ToolError>) {
        Err(ToolError::NotFound(crate::text::owned(name)))
    }
}

} // verus!
