use vstd::prelude::*;
use vstd::string::*;

verus! {

/// Timing figures of one streamed response: time to the first frame, in
/// microseconds, and the rate of useful bytes after it.
#[derive(Clone, Copy, Debug, PartialEq, Eq, Structural)]
pub struct PerformanceStats {
    pub ttft_micros: u64,
    pub bytes_per_sec: u64,
}

/// One incremental unit of model output, in the order received.
#[derive(Debug)]
pub enum StreamChunk {
    SystemMessage(String),
    StartToolCall { index: u32, id: String, name: String },
    AppendToolCallArgs { index: u32, text: String },
    PerformanceStats(PerformanceStats),
}

pub enum ChunkView {
    Text(Seq<char>),
    Start { index: u32, id: Seq<char>, name: Seq<char> },
    Args { index: u32, text: Seq<char> },
    Stats(PerformanceStats),
}

impl View for StreamChunk {
    type V = ChunkView;

    open spec fn view(&self) -> ChunkView {
        match self {
            StreamChunk::SystemMessage(t) => ChunkView::Text(t@),
            StreamChunk::StartToolCall { index, id, name } => ChunkView::Start {
                index: *index,
                id: id@,
                name: name@,
            },
            StreamChunk::AppendToolCallArgs { index, text } => ChunkView::Args {
                index: *index,
                text: text@,
            },
            StreamChunk::PerformanceStats(s) => ChunkView::Stats(*s),
        }
    }
}

/// A tool call requested by the model: id, tool name and the argument text.
pub struct InvocationView {
    pub id: Seq<char>,
    pub name: Seq<char>,
    pub args: Seq<char>,
}

/// A request handed to the tool executor.
#[derive(Debug)]
pub enum ToolRequest {
    ToolCall { id: String, name: String, args: String },
}

impl View for ToolRequest {
    type V = InvocationView;

    open spec fn view(&self) -> InvocationView {
        match self {
            ToolRequest::ToolCall { id, name, args } => InvocationView {
                id: id@,
                name: name@,
                args: args@,
            },
        }
    }
}

/// What the tool executor reports for one request.
#[derive(Debug)]
pub enum ToolResponse {
    ToolCallResult { id: String, result: Result<String, String> },
}

pub open spec fn result_view(r: Result<String, String>) -> Result<Seq<char>, Seq<char>> {
    match r {
        Ok(s) => Ok(s@),
        Err(e) => Err(e@),
    }
}

impl ToolResponse {
    pub open spec fn id_view(&self) -> Seq<char> {
        match self {
            ToolResponse::ToolCallResult { id, .. } => id@,
        }
    }

    pub open spec fn result_view(&self) -> Result<Seq<char>, Seq<char>> {
        match self {
            ToolResponse::ToolCallResult { result, .. } => result_view(*result),
        }
    }
}

/// The text that the model sees for a tool result: the output itself on
/// success, the message behind `Error: ` on failure.
pub open spec fn formatted_result(result: Result<Seq<char>, Seq<char>>) -> Seq<char> {
    match result {
        Ok(s) => s,
        Err(e) => "Error: "@ + e,
    }
}

pub fn format_tool_result(result: &Result<String, String>) -> (r: String)
    ensures
        r@ == formatted_result(result_view(*result)),
{
    match result {
        Ok(s) => s.clone(),
        Err(e) => {
            let mut t = String::from_str("Error: ");
            t.append(e.as_str());
            t
        },
    }
}

/// Copies a result of the executor, keeping both arms.
pub fn copy_result(r: &Result<String, String>) -> (c: Result<String, String>)
    ensures
        c == *r,
{
    match r {
        Ok(s) => Ok(s.clone()),
        Err(e) => Err(e.clone()),
    }
}

} // verus!
