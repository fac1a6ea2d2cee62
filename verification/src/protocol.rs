//! What tools are called with and answer.

use crate::error::Error;
use crate::error::ErrorView;
use crate::json::JsonView;
use crate::json::Object;
use vstd::prelude::*;

verus! {

/// The kinds of error a caller is told of.
#[derive(Clone, Copy, Debug, PartialEq, Eq, Structural)]
pub enum McpErrorKind {
    /// The arguments of the call are at fault.
    InvalidParams,
    /// The server is at fault.
    InternalError,
    /// What was asked for does not exist.
    ResourceNotFound,
}

/// An error a caller is told of.
#[derive(Clone, Debug)]
pub struct McpError {
    /// The kind.
    pub kind: McpErrorKind,
    /// The message.
    pub message: String,
}

/// What such an error is.
#[verifier::ext_equal]
pub struct McpErrorView {
    /// The kind.
    pub kind: McpErrorKind,
    /// The message.
    pub message: Seq<char>,
}

impl View for McpError {
    type V = McpErrorView;

    open spec fn view(&self) -> McpErrorView {
        McpErrorView { kind: self.kind, message: self.message@ }
    }
}

/// An error in the arguments of a call.
pub open spec fn invalid(message: Seq<char>) -> McpErrorView {
    McpErrorView { kind: McpErrorKind::InvalidParams, message }
}

impl McpError {
    /// An error in the arguments of a call.
    pub fn invalid_params(message: String) -> (r: McpError)
        ensures
            r@ == invalid(message@),
    {
        McpError { kind: McpErrorKind::InvalidParams, message }
    }

    /// An error of the server.
    pub fn internal_error(message: String) -> (r: McpError)
        ensures
            r@ == (McpErrorView { kind: McpErrorKind::InternalError, message: message@ }),
    {
        McpError { kind: McpErrorKind::InternalError, message }
    }

    /// An error for something that does not exist.
    pub fn resource_not_found(message: String) -> (r: McpError)
        ensures
            r@ == (McpErrorView { kind: McpErrorKind::ResourceNotFound, message: message@ }),
    {
        McpError { kind: McpErrorKind::ResourceNotFound, message }
    }
}

/// What something that a caller may be told an error of gives.
pub open spec fn reply<T: View>(r: Result<T, McpError>) -> Result<T::V, McpErrorView> {
    match r {
        Ok(v) => Ok(v@),
        Err(e) => Err(e@),
    }
}

/// The error a caller is told of for a failure, under a message that tells of
/// it.
pub open spec fn told(e: ErrorView, message: Seq<char>) -> McpErrorView {
    McpErrorView {
        kind: if crate::error::callers_fault(e.kind) {
            McpErrorKind::InvalidParams
        } else {
            McpErrorKind::InternalError
        },
        message,
    }
}

/// The error a caller is told of for a failure. `message` tells of it.
pub fn into_mcp(err: &Error, message: String) -> (r: McpError)
    ensures
        r@ == told(err@, message@),
{
    if err.is_callers() {
        McpError::invalid_params(message)
    } else {
        McpError::internal_error(message)
    }
}

/// A tool that can be called.
#[derive(Debug)]
pub struct Tool {
    /// The name it is called by.
    pub name: String,
    /// What it does.
    pub description: String,
    /// The JSON Schema of its arguments.
    pub input_schema: Object,
}

/// What a tool is.
#[verifier::ext_equal]
pub struct ToolView {
    /// The name.
    pub name: Seq<char>,
    /// What the tool does.
    pub description: Seq<char>,
    /// The schema of its arguments.
    pub input_schema: Map<Seq<char>, JsonView>,
}

impl View for Tool {
    type V = ToolView;

    open spec fn view(&self) -> ToolView {
        ToolView {
            name: self.name@,
            description: self.description@,
            input_schema: self.input_schema@,
        }
    }
}

} // verus!
