use vstd::prelude::*;
use vstd::string::*;

use crate::protocol::ToolResponse;

verus! {

/// Arguments of the `read_file` tool.
#[derive(Debug)]
pub struct ReadFileArgs {
    pub target_file: String,
}

/// Arguments of the `list_dir` tool.
#[derive(Debug)]
pub struct ListDirArgs {
    pub target_directory: String,
}

/// The tools that the executor knows.
#[derive(Clone, Copy, Debug, PartialEq, Eq, Structural)]
pub enum ToolKind {
    ListDir,
    ReadFile,
}

pub open spec fn spec_select_tool(name: Seq<char>) -> Result<ToolKind, Seq<char>> {
    if name == "list_dir"@ {
        Ok(ToolKind::ListDir)
    } else if name == "read_file"@ {
        Ok(ToolKind::ReadFile)
    } else {
        Err("Unknown tool: "@ + name)
    }
}

/// Picks the tool a request names; an unknown name is an error result, not
/// a failure of the executor.
pub fn select_tool(name: &str) -> (r: Result<ToolKind, String>)
    ensures
        match spec_select_tool(name@) {
            Ok(k) => r == Ok::<ToolKind, String>(k),
            Err(e) => r matches Err(m) && m@ == e,
        },
{
    let n = String::from_str(name);
    let list_dir = String::from_str("list_dir");
    let read_file = String::from_str("read_file");
    if n == list_dir {
        Ok(ToolKind::ListDir)
    } else if n == read_file {
        Ok(ToolKind::ReadFile)
    } else {
        let mut m = String::from_str("Unknown tool: ");
        m.append(name);
        Err(m)
    }
}

pub open spec fn spec_file_output(contents: Seq<char>) -> Seq<char> {
    if contents.len() == 0 {
        "File is empty."@
    } else {
        contents
    }
}

/// What `read_file` reports for a file's contents: an empty file is said to
/// be empty rather than given as empty text.
pub fn file_output(contents: String) -> (r: String)
    ensures
        r@ == spec_file_output(contents@),
{
    if contents.as_str().is_empty() {
        String::from_str("File is empty.")
    } else {
        contents
    }
}

/// One directory entry: its name and a description of its type.
#[derive(Debug)]
pub struct DirEntryInfo {
    pub name: String,
    pub kind: String,
}

pub open spec fn entry_line(e: DirEntryInfo) -> Seq<char> {
    "  "@ + e.name@ + " ("@ + e.kind@ + ")\n"@
}

pub open spec fn entry_lines(es: Seq<DirEntryInfo>) -> Seq<char>
    decreases es.len(),
{
    if es.len() == 0 {
        Seq::empty()
    } else {
        entry_lines(es.drop_last()) + entry_line(es.last())
    }
}

pub open spec fn spec_listing(dir: Seq<char>, es: Seq<DirEntryInfo>) -> Seq<char> {
    dir + ":\n"@ + entry_lines(es)
}

/// What `list_dir` reports: the directory, then one indented line per
/// entry with its type.
pub fn format_listing(dir: &str, entries: &Vec<DirEntryInfo>) -> (r: String)
    ensures
        r@ == spec_listing(dir@, entries@),
{
    let mut out = String::from_str(dir);
    out.append(":\n");
    let ghost head = out@;
    let mut i: usize = 0;
    assert(entries@.take(0) =~= Seq::<DirEntryInfo>::empty());
    assert(head + Seq::<char>::empty() =~= head);
    while i < entries.len()
        invariant
            i <= entries@.len(),
            head == dir@ + ":\n"@,
            out@ == head + entry_lines(entries@.take(i as int)),
        decreases entries@.len() - i,
    {
        let e = &entries[i];
        let ghost before = out@;
        out.append("  ");
        out.append(e.name.as_str());
        out.append(" (");
        out.append(e.kind.as_str());
        out.append(")\n");
        proof {
            let t = entries@.take(i + 1);
            assert(t.drop_last() =~= entries@.take(i as int));
            assert(t.last() == entries@[i as int]);
            assert(out@ =~= before + entry_line(entries@[i as int]));
            assert(out@ =~= head + entry_lines(t));
        }
        i = i + 1;
    }
    assert(entries@.take(i as int) =~= entries@);
    out
}

/// The response to a request: exactly one per request, with its id.
pub fn tool_response(id: String, result: Result<String, String>) -> (r: ToolResponse)
    ensures
        r == (ToolResponse::ToolCallResult { id, result }),
{
    ToolResponse::ToolCallResult { id, result }
}

} // verus!
