//! Editor modes — modal (vim-style) editing.
use vstd::prelude::*;

verus! {

#[derive(Debug, Clone, Copy, PartialEq, Eq, Structural)]
pub enum Mode {
    Normal,
    Insert,
    /// The `:` command line is active (e.g. `:w`, `:q`, `:wq`).
    Command,
}

impl Mode {
    pub open spec fn label_spec(self) -> Seq<char> {
        match self {
            Mode::Normal => "NORMAL"@,
            Mode::Insert => "INSERT"@,
            Mode::Command => "COMMAND"@,
        }
    }

    /// The name shown in the status line's mode block.
    pub fn label(&self) -> (r: &'static str)
        ensures
            r@ == self.label_spec(),
    {
        match self {
            Mode::Normal => "NORMAL",
            Mode::Insert => "INSERT",
            Mode::Command => "COMMAND",
        }
    }
}

} // verus!
