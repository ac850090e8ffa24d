//! The clipboard tools that copying an entry's icon tries, in order.

use vstd::prelude::*;
use crate::text::owned;

verus! {

/// A command-line clipboard tool.
#[derive(Clone, Copy, Debug, PartialEq, Eq, Structural)]
pub enum ClipboardTool {
    /// `wl-copy`, for Wayland.
    WlCopy,
    /// `xclip -selection clipboard`, for X11.
    Xclip,
    /// `pbcopy`, for macOS.
    Pbcopy,
}

/// The tools in the order they are tried: the first one that can be started is used.
pub open spec fn tool_order() -> Seq<ClipboardTool> {
    seq![ClipboardTool::WlCopy, ClipboardTool::Xclip, ClipboardTool::Pbcopy]
}

/// The program and arguments of a tool; the text to copy goes to its standard input.
pub open spec fn tool_command(tool: ClipboardTool) -> Seq<Seq<char>> {
    match tool {
        ClipboardTool::WlCopy => seq!["wl-copy"@],
        ClipboardTool::Xclip => seq!["xclip"@, "-selection"@, "clipboard"@],
        ClipboardTool::Pbcopy => seq!["pbcopy"@],
    }
}

/// The tools to try, in order.
pub fn probe_order() -> (r: Vec<ClipboardTool>)
    ensures
        r@ == tool_order(),
{
    let mut r: Vec<ClipboardTool> = Vec::new();
    r.push(ClipboardTool::WlCopy);
    r.push(ClipboardTool::Xclip);
    r.push(ClipboardTool::Pbcopy);
    assert(r@ =~= tool_order());
    r
}

impl ClipboardTool {
    /// The program and arguments that run this tool.
    pub fn argv(&self) -> (r: Vec<String>)
        ensures
            r.deep_view() == tool_command(*self),
    {
        let mut r: Vec<String> = Vec::new();
        match self {
            ClipboardTool::WlCopy => {
                r.push(owned("wl-copy"));
            },
            ClipboardTool::Xclip => {
                r.push(owned("xclip"));
                r.push(owned("-selection"));
                r.push(owned("clipboard"));
            },
            ClipboardTool::Pbcopy => {
                r.push(owned("pbcopy"));
            },
        }
        assert(r.deep_view() =~= tool_command(*self));
        r
    }
}

/// The tool that is used, given whether each tool in order could be started (as far as
/// they were tried): the first that could.
pub open spec fn chosen_tool(started: Seq<bool>) -> Option<ClipboardTool> {
    if started.len() > 0 && started[0] {
        Some(ClipboardTool::WlCopy)
    } else if started.len() > 1 && started[1] {
        Some(ClipboardTool::Xclip)
    } else if started.len() > 2 && started[2] {
        Some(ClipboardTool::Pbcopy)
    } else {
        None
    }
}

/// The tool to copy with, given whether each tool, tried in order, could be started.
pub fn first_started(started: &Vec<bool>) -> (r: Option<ClipboardTool>)
    ensures
        r == chosen_tool(started@),
{
    let n = started.len();
    if n > 0 && started[0] {
        Some(ClipboardTool::WlCopy)
    } else if n > 1 && started[1] {
        Some(ClipboardTool::Xclip)
    } else if n > 2 && started[2] {
        Some(ClipboardTool::Pbcopy)
    } else {
        None
    }
}

/// The tool used is the first, in order, that could be started; none is used when none
/// of the three could.
pub proof fn law_first_started_tool_is_used(started: Seq<bool>, i: int)
    requires
        0 <= i < started.len(),
        i < tool_order().len(),
    ensures
        chosen_tool(started) == Some(tool_order()[i]) <==> (started[i] && forall|j: int|
            0 <= j < i ==> !#[trigger] started[j]),
        started.len() >= tool_order().len() && (forall|j: int| 0 <= j < tool_order().len() ==> !#[trigger] started[j])
            ==> chosen_tool(started) is None,
{
}

} // verus!
