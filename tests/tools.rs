use agent::protocol::ToolResponse;
use agent::tools::{file_output, format_listing, select_tool, tool_response, DirEntryInfo, ToolKind};

#[test]
fn tools_are_chosen_by_name() {
    assert_eq!(select_tool("list_dir"), Ok(ToolKind::ListDir));
    assert_eq!(select_tool("read_file"), Ok(ToolKind::ReadFile));
    assert_eq!(select_tool("rm_rf"), Err("Unknown tool: rm_rf".to_string()));
}

#[test]
fn empty_file_is_reported_as_empty() {
    assert_eq!(file_output(String::new()), "File is empty.");
    assert_eq!(file_output("fn main() {}".to_string()), "fn main() {}");
}

#[test]
fn listing_shows_each_entry_with_its_type() {
    let entries = vec![
        DirEntryInfo { name: "src".to_string(), kind: "dir".to_string() },
        DirEntryInfo { name: "Cargo.toml".to_string(), kind: "file".to_string() },
    ];
    assert_eq!(format_listing(".", &entries), ".:\n  src (dir)\n  Cargo.toml (file)\n");
    assert_eq!(format_listing("/tmp", &vec![]), "/tmp:\n");
}

#[test]
fn response_carries_the_request_id() {
    match tool_response("call_9".to_string(), Ok("done".to_string())) {
        ToolResponse::ToolCallResult { id, result } => {
            assert_eq!(id, "call_9");
            assert_eq!(result, Ok("done".to_string()));
        }
    }
}
