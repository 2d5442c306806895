use vstd::prelude::*;
use vstd::string::*;

verus! {

/// The system message that opens every conversation.
pub const SYSTEM_PROMPT: &'static str = "
You are a powerful agentic AI coding assistant that optimizes for SPEED. Use tools as necessary but make
sure to run tools in parallel when possible. If you are unsure about the answer to the user's request,
gather more information by using additional tool calls or asking for clarification. Bias towards not asking
the user for help if you can find the answer yourself.
";

/// House rules handed to the model as context.
pub const RULES: &'static str = "
Be sure to include language specifiers in Markdown code blocks.
";

/// Closes the project layout.
pub const LAYOUT_FOOTER: &'static str = "</project_layout>\n";

/// A byte count as humansize writes it with its decimal options.
pub uninterp spec fn decimal_size(n: u64) -> Seq<char>;

/// Relies on `humansize::format_size` with `humansize::DECIMAL`: the count
/// in decimal units; the text depends on the number alone.
#[verifier::external_body]
fn format_size_decimal(n: u64) -> (r: String)
    ensures
        r@ == decimal_size(n),
{
    humansize::format_size(n, humansize::DECIMAL)
}

/// Two spaces per level of depth.
pub open spec fn indent(depth: nat) -> Seq<char>
    decreases depth,
{
    if depth == 0 {
        Seq::empty()
    } else {
        indent((depth - 1) as nat) + "  "@
    }
}

/// One entry of the project layout: indented by depth, a directory marked
/// by a slash and a file followed by its size.
pub open spec fn spec_layout_line(depth: nat, name: Seq<char>, is_dir: bool, size_text: Seq<char>) -> Seq<char> {
    indent(depth) + "- "@ + name + if is_dir {
        "/"@
    } else {
        " ("@ + size_text + ")"@
    } + "\n"@
}

/// A layout entry whose size is already written out.
pub fn layout_line_with_size(depth: usize, name: &str, is_dir: bool, size_text: &str) -> (r: String)
    ensures
        r@ == spec_layout_line(depth as nat, name@, is_dir, size_text@),
{
    let mut out = String::new();
    let mut i: usize = 0;
    while i < depth
        invariant
            i <= depth,
            out@ == indent(i as nat),
        decreases depth - i,
    {
        out.append("  ");
        i = i + 1;
    }
    out.append("- ");
    out.append(name);
    if is_dir {
        out.append("/");
    } else {
        out.append(" (");
        out.append(size_text);
        out.append(")");
    }
    out.append("\n");
    assert(out@ =~= spec_layout_line(depth as nat, name@, is_dir, size_text@));
    out
}

/// A layout entry for a file of `size` bytes, or a directory.
pub fn layout_line(depth: usize, name: &str, is_dir: bool, size: u64) -> (r: String)
    ensures
        r@ == spec_layout_line(depth as nat, name@, is_dir, decimal_size(size)),
{
    let size_text = format_size_decimal(size);
    layout_line_with_size(depth, name, is_dir, size_text.as_str())
}

pub open spec fn spec_layout_header(root: Seq<char>) -> Seq<char> {
    "<project_layout>\nBelow is a snapshot of the current workspace's file structure at the start of the conversation. This snapshot will NOT update during the conversation.\n\n"@
        + root + "\n"@
}

/// Opens the project layout, naming its root directory.
pub fn layout_header(root: &str) -> (r: String)
    ensures
        r@ == spec_layout_header(root@),
{
    let mut out = String::from_str(
        "<project_layout>\nBelow is a snapshot of the current workspace's file structure at the start of the conversation. This snapshot will NOT update during the conversation.\n\n",
    );
    out.append(root);
    out.append("\n");
    out
}

} // verus!
