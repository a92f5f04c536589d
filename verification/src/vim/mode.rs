//! The Vim modes.
use vstd::prelude::*;

verus! {

/// The mode that decides how keys are read.
#[derive(Debug, Clone, Copy, PartialEq, Eq, Structural)]
pub enum VimMode {
    Normal,
    Insert,
    Command,
    Visual,
    VisualLine,
    Search,
}

impl VimMode {
    /// The name shown in the status line.
    pub open spec fn label_spec(self) -> Seq<char> {
        match self {
            VimMode::Normal => "NORMAL"@,
            VimMode::Insert => "INSERT"@,
            VimMode::Command => "COMMAND"@,
            VimMode::Visual => "VISUAL"@,
            VimMode::VisualLine => "V-LINE"@,
            VimMode::Search => "SEARCH"@,
        }
    }

    /// The name shown in the status line.
    pub fn label(&self) -> (r: &'static str)
        ensures
            r@ == self.label_spec(),
    {
        match self {
            VimMode::Normal => "NORMAL",
            VimMode::Insert => "INSERT",
            VimMode::Command => "COMMAND",
            VimMode::Visual => "VISUAL",
            VimMode::VisualLine => "V-LINE",
            VimMode::Search => "SEARCH",
        }
    }
}

} // verus!
