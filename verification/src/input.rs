//! What the tool pad's buttons ask of the shell.

use vstd::prelude::*;
use crate::sim::ShellCommand;
use crate::widget::ToolButton;

verus! {

/// The shell action a tool button stands for; `None` for the buttons whose screens are
/// still to come (they are painted dim and never clicked).
pub fn tool_for(button: ToolButton) -> (r: Option<ShellCommand>)
    ensures
        r == match button {
            ToolButton::Spells => Some(ShellCommand::Cast),
            ToolButton::Automap => Some(ShellCommand::ToggleAutomap),
            ToolButton::Menu => Some(ShellCommand::Pause),
            _ => None,
        },
{
    match button {
        ToolButton::Spells => Some(ShellCommand::Cast),
        ToolButton::Automap => Some(ShellCommand::ToggleAutomap),
        ToolButton::Menu => Some(ShellCommand::Pause),
        ToolButton::Items | ToolButton::Sheet | ToolButton::Look => None,
    }
}

} // verus!
