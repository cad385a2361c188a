//! The states a running game moves through, and the shell's own commands.

use vstd::prelude::*;

verus! {

/// Where a running game is.
#[derive(Debug, Clone, Copy, PartialEq, Eq, Hash, Default, Structural)]
pub enum PlayState {
    /// Building the party before the first step.
    #[default]
    CreateParty,
    /// Walking the map.
    Explore,
    /// Monsters ahead: attack, bribe, hide, or run.
    Encounter,
    /// The fight.
    Combat,
    /// The pause overlay.
    Paused,
    /// Every member is down: load or quit.
    Defeat,
    /// The debug menu over the world; commands still apply.
    Debug,
    /// The cast menu while exploring.
    Cast,
}

/// Something outside the simulation: saving, loading, overlays, pausing, quitting.
#[derive(Debug, Clone, Copy, PartialEq, Eq, Structural)]
pub enum ShellCommand {
    /// Write the quick save.
    Save,
    /// Read the quick save.
    Load,
    /// Show or hide the automap.
    ToggleAutomap,
    /// Open the pause overlay.
    Pause,
    /// Open the cast menu while exploring.
    Cast,
    /// Exit the application.
    Quit,
}

} // verus!
