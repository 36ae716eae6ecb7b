//! The editor's modes and their display names.

use vstd::prelude::*;

verus! {

/// The shape of a visual selection.
#[derive(Debug, Clone, Copy, PartialEq, Eq, Structural)]
pub enum VisualType {
    Character,
    Line,
    Block,
}

#[derive(Debug, Clone, Copy, PartialEq, Eq, Structural)]
pub enum Mode {
    Normal,
    Insert,
    Visual(VisualType),
    Command,
}

/// The display name of a mode.
pub open spec fn mode_name_spec(m: Mode) -> Seq<char> {
    match m {
        Mode::Normal => "NORMAL"@,
        Mode::Insert => "INSERT"@,
        Mode::Visual(VisualType::Character) => "VISUAL"@,
        Mode::Visual(VisualType::Line) => "VISUAL LINE"@,
        Mode::Visual(VisualType::Block) => "VISUAL BLOCK"@,
        Mode::Command => "COMMAND"@,
    }
}

impl Mode {
    pub fn name(&self) -> (r: &'static str)
        ensures
            r@ == mode_name_spec(*self),
    {
        match self {
            Mode::Normal => "NORMAL",
            Mode::Insert => "INSERT",
            Mode::Visual(VisualType::Character) => "VISUAL",
            Mode::Visual(VisualType::Line) => "VISUAL LINE",
            Mode::Visual(VisualType::Block) => "VISUAL BLOCK",
            Mode::Command => "COMMAND",
        }
    }
}

} // verus!
