//! Calls to the tools of the remote server, and what they answer.

use crate::json::Json;
use crate::json::JsonView;
use crate::json::Object;
use crate::text;
use crate::view;
use vstd::prelude::*;

verus! {

/// What can go wrong with a call.
#[derive(Debug, PartialEq, Eq)]
pub enum McpClientError {
    /// The remote server could not be reached.
    Connect {
        /// Where it should be.
        url: String,
        /// What went wrong.
        source: String,
    },
    /// The call did not come through.
    Call {
        /// The tool.
        tool: String,
        /// What went wrong.
        source: String,
    },
    /// The tool reported an error.
    ToolError {
        /// The tool.
        tool: String,
        /// What it said.
        message: String,
    },
    /// The tool answered nothing that can be read.
    EmptyResult {
        /// The tool.
        tool: String,
    },
    /// What the tool answered is not JSON, or not of the right shape.
    BadJson {
        /// The tool.
        tool: String,
        /// What is wrong with it.
        source: String,
    },
}

/// What such an error is.
#[verifier::ext_equal]
pub enum McpClientErrorView {
    /// The remote server could not be reached.
    Connect(Seq<char>, Seq<char>),
    /// The call did not come through.
    Call(Seq<char>, Seq<char>),
    /// The tool reported an error.
    ToolError(Seq<char>, Seq<char>),
    /// The tool answered nothing that can be read.
    EmptyResult(Seq<char>),
    /// What the tool answered is not JSON, or not of the right shape.
    BadJson(Seq<char>, Seq<char>),
}

impl View for McpClientError {
    type V = McpClientErrorView;

    open spec fn view(&self) -> McpClientErrorView {
        match self {
            McpClientError::Connect { url, source } => McpClientErrorView::Connect(url@, source@),
            McpClientError::Call { tool, source } => McpClientErrorView::Call(tool@, source@),
            McpClientError::ToolError { tool, message } => McpClientErrorView::ToolError(
                tool@,
                message@,
            ),
            McpClientError::EmptyResult { tool } => McpClientErrorView::EmptyResult(tool@),
            McpClientError::BadJson { tool, source } => McpClientErrorView::BadJson(tool@, source@),
        }
    }
}

impl McpClientErrorView {
    /// What is said of the error.
    pub open spec fn message(self) -> Seq<char> {
        match self {
            McpClientErrorView::Connect(url, source) => "cannot connect to henka at "@ + url + ": "@
                + source
                + ". Check HENKA_URL, that henka-server is running on the host, and that --allowed-host (HENKA_MCP_ALLOWED_HOST) accepts the container's Host header."@,
            McpClientErrorView::Call(tool, source) => "MCP call `"@ + tool + "` failed: "@ + source,
            McpClientErrorView::ToolError(tool, message) => "MCP tool `"@ + tool
                + "` returned an error: "@ + message,
            McpClientErrorView::EmptyResult(tool) => "MCP tool `"@ + tool
                + "` returned no text content"@,
            McpClientErrorView::BadJson(tool, source) => "MCP tool `"@ + tool
                + "` returned malformed JSON: "@ + source,
        }
    }
}

impl McpClientError {
    /// What is said of the error.
    pub fn message(&self) -> (r: String)
        ensures
            r@ == self@.message(),
    {
        match self {
            McpClientError::Connect { url, source } => text::cat(
                text::cat3(
                    text::cat("cannot connect to henka at ", url.as_str()).as_str(),
                    ": ",
                    source.as_str(),
                ).as_str(),
                ". Check HENKA_URL, that henka-server is running on the host, and that --allowed-host (HENKA_MCP_ALLOWED_HOST) accepts the container's Host header.",
            ),
            McpClientError::Call { tool, source } => text::cat(
                text::cat3("MCP call `", tool.as_str(), "` failed: ").as_str(),
                source.as_str(),
            ),
            McpClientError::ToolError { tool, message } => text::cat(
                text::cat3("MCP tool `", tool.as_str(), "` returned an error: ").as_str(),
                message.as_str(),
            ),
            McpClientError::EmptyResult { tool } => text::cat3(
                "MCP tool `",
                tool.as_str(),
                "` returned no text content",
            ),
            McpClientError::BadJson { tool, source } => text::cat(
                text::cat3("MCP tool `", tool.as_str(), "` returned malformed JSON: ").as_str(),
                source.as_str(),
            ),
        }
    }
}

/// The arguments of a call: the fields of an object, none for `null`. Any other
/// value is passed under the name `_`.
pub open spec fn arguments_of(args: JsonView) -> Option<Map<Seq<char>, JsonView>> {
    match args {
        JsonView::Object(m) => Some(m),
        JsonView::Null => None,
        other => Some(Map::empty().insert("_"@, other)),
    }
}

/// The arguments of a call.
pub fn tool_arguments(args: Json) -> (r: Option<Object>)
    ensures
        view::maybe(r) == arguments_of(args@),
{
    match args {
        Json::Object(o) => Some(o),
        Json::Null => None,
        other => Some(Object::new().with("_", other)),
    }
}

/// One block of what a tool answers.
#[derive(Debug)]
pub enum Block {
    /// Some text.
    Text(String),
    /// Anything else.
    Other,
}

/// What a tool answers.
#[derive(Debug)]
pub struct ToolResult {
    /// The blocks.
    pub content: Vec<Block>,
    /// Whether it is an error, if it says so.
    pub is_error: Option<bool>,
    /// A value beside the blocks.
    pub structured_content: Option<Json>,
}

/// The first text among some blocks, from `i` on.
pub open spec fn text_from(content: Seq<Block>, i: int) -> Option<Seq<char>>
    decreases content.len() - i,
{
    if i < 0 || i >= content.len() {
        None
    } else {
        match content[i] {
            Block::Text(t) => Some(t@),
            Block::Other => text_from(content, i + 1),
        }
    }
}

impl ToolResult {
    /// The first text that a tool answers.
    pub fn first_text(&self) -> (r: Option<&str>)
        ensures
            view::maybe(r) == text_from(self.content@, 0),
    {
        let mut i: usize = 0;
        while i < self.content.len()
            invariant
                i <= self.content@.len(),
                text_from(self.content@, 0) == text_from(self.content@, i as int),
            decreases self.content@.len() - i,
        {
            match &self.content[i] {
                Block::Text(t) => {
                    return Some(t.as_str());
                },
                Block::Other => {},
            }
            i += 1;
        }
        None
    }
}

/// The value that a tool answers. An error is one whatever it carries: its
/// message is the first text, or else the value written out as `shown`. Without
/// an error, the value is what was `read` of the first text, or else the one
/// beside it.
pub open spec fn answer_of(
    tool: Seq<char>,
    result: ToolResult,
    read: Result<JsonView, Seq<char>>,
    shown: Seq<char>,
) -> Result<JsonView, McpClientErrorView> {
    let text = text_from(result.content@, 0);
    if result.is_error == Some(true) {
        Err(
            McpClientErrorView::ToolError(
                tool,
                match text {
                    Some(t) => t,
                    None => if result.structured_content is Some {
                        shown
                    } else {
                        "no message"@
                    },
                },
            ),
        )
    } else if text is Some {
        match read {
            Ok(v) => Ok(v),
            Err(source) => Err(McpClientErrorView::BadJson(tool, source)),
        }
    } else {
        match result.structured_content {
            Some(v) => Ok(v@),
            None => Err(McpClientErrorView::EmptyResult(tool)),
        }
    }
}

/// What the result of reading a text is.
pub open spec fn read_view(read: Result<Json, String>) -> Result<JsonView, Seq<char>> {
    match read {
        Ok(v) => Ok(v@),
        Err(source) => Err(source@),
    }
}

/// What the outcome of a call is.
pub open spec fn answer_view(answer: Result<Json, McpClientError>) -> Result<
    JsonView,
    McpClientErrorView,
> {
    match answer {
        Ok(v) => Ok(v@),
        Err(e) => Err(e@),
    }
}

/// The value that a tool answers. `read` is what reading the first text as JSON
/// gives, and `shown` the value beside it, written out: each counts only where
/// there is such a text or value.
pub fn parse_result(
    tool: &str,
    result: ToolResult,
    read: Result<Json, String>,
    shown: &str,
) -> (r: Result<Json, McpClientError>)
    ensures
        answer_view(r) == answer_of(tool@, result, read_view(read), shown@),
{
    let is_error = match result.is_error {
        Some(e) => e,
        None => false,
    };
    if is_error {
        let message = match result.first_text() {
            Some(t) => t.to_owned(),
            None => match &result.structured_content {
                Some(_) => shown.to_owned(),
                None => "no message".to_owned(),
            },
        };
        return Err(McpClientError::ToolError { tool: tool.to_owned(), message });
    }
    if let Some(_) = result.first_text() {
        return match read {
            Ok(v) => Ok(v),
            Err(source) => Err(McpClientError::BadJson { tool: tool.to_owned(), source }),
        };
    }
    match result.structured_content {
        Some(v) => Ok(v),
        None => Err(McpClientError::EmptyResult { tool: tool.to_owned() }),
    }
}

/// What a tool reports as an error never counts as its answer.
pub proof fn errors_are_never_answers(
    tool: Seq<char>,
    result: ToolResult,
    read: Result<JsonView, Seq<char>>,
    shown: Seq<char>,
)
    requires
        result.is_error == Some(true),
    ensures
        answer_of(tool, result, read, shown) is Err,
{
}

} // verus!
