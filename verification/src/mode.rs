//! Interaction modes, key events, and the intents a key press can raise.

use vstd::prelude::*;

verus! {

/// The four interaction modes of the screen. Exactly one is active at a
/// time; the initial mode is `Normal`.
#[derive(Clone, Copy, PartialEq, Eq, Structural, Debug)]
pub enum Mode {
    Normal,
    Editing,
    Browse,
    Help,
}

impl Mode {
    /// The display name of the mode, as shown in the mode indicator row.
    pub fn display_name(&self) -> (r: &'static str)
        ensures
            r@ == self.spec_display_name(),
    {
        match self {
            Mode::Normal => "Normal",
            Mode::Editing => "Editing",
            Mode::Browse => "Browsing",
            Mode::Help => "Help",
        }
    }

    pub open spec fn spec_display_name(&self) -> Seq<char> {
        match self {
            Mode::Normal => "Normal"@,
            Mode::Editing => "Editing"@,
            Mode::Browse => "Browsing"@,
            Mode::Help => "Help"@,
        }
    }
}

impl Default for Mode {
    /// The screen starts in `Normal` mode.
    fn default() -> (r: Self)
        ensures
            r == Mode::Normal,
    {
        Mode::Normal
    }
}

/// A key press, reduced to what the state machine reads of it. The harness
/// translates the terminal's raw key events into this type; any key the
/// screen does not distinguish arrives as `Other`.
#[derive(Clone, Copy, PartialEq, Eq, Structural, Debug)]
pub enum Key {
    Char(char),
    Enter,
    Esc,
    Backspace,
    Delete,
    Left,
    Right,
    Home,
    End,
    Other,
}

/// An intent: a discrete, named effect requested by user input, applied
/// atomically to the screen state by `update`.
#[derive(Clone, Copy, PartialEq, Eq, Structural, Debug)]
pub enum Action {
    EnterCommandMode,
    EnterBrowseMode,
    EnterHelpMode,
    ExitCurrentMode,
    AddTodo,
    BrowseListUp,
    BrowseListDown,
    Refresh,
}

} // verus!
