use vstd::prelude::*;

verus! {

/// What the user has chosen in the settings window.
#[derive(Debug, Clone, Copy, Default, PartialEq, Eq, Structural)]
pub struct Settings {
    /// Whether each frame starts from the previous one, leaving a trail.
    pub is_overlay: bool,
}

/// Whether the settings window is shown.
#[derive(Debug)]
pub struct SettingsWindow {
    is_open: bool,
}

impl SettingsWindow {
    pub closed spec fn is_open_spec(&self) -> bool {
        self.is_open
    }

    /// A closed window.
    pub fn new() -> (r: SettingsWindow)
        ensures
            !r.is_open_spec(),
    {
        SettingsWindow { is_open: false }
    }

    /// Opens a closed window and closes an open one.
    pub fn toggle_open(&mut self)
        ensures
            final(self).is_open_spec() == !old(self).is_open_spec(),
    {
        self.is_open = !self.is_open;
    }

    pub fn is_open(&self) -> (r: bool)
        ensures
            r == self.is_open_spec(),
    {
        self.is_open
    }
}

/// What the control panel asks for after a frame of the interface.
#[derive(Debug, Clone, Copy, PartialEq, Eq, Structural)]
pub enum MusicControl {
    Settings,
    LoadMusic,
    Snapshot,
    TogglePause,
    Nothing,
}

/// The names under which a track is shown.
#[derive(Debug, Clone)]
pub struct MusicMeta {
    pub file_name: String,
    pub name: String,
}

} // verus!
