//! The configuration file.
use vstd::prelude::*;

verus! {

/// Which presence the client shows.
#[derive(PartialEq, Eq, Structural, Clone, Copy, Debug)]
pub enum PresenceKind {
    /// One preset, set once (and again on reload).
    CustomStatic,
    /// A list of presets shown in turn.
    CustomDynamic,
    /// System figures, with the images and buttons of one preset.
    SystemInfo,
}

/// The configuration file.
pub struct Config {
    /// The application id of the Discord developer portal.
    pub app_id: u64,
    pub kind: PresenceKind,
    /// The preset of `CustomStatic` and `SystemInfo`.
    pub static_preset_name: Option<String>,
    /// The presets of `CustomDynamic`, in the order in which they are shown.
    pub dynamic_preset_names: Option<Vec<String>>,
    pub cpu_freq_button: Option<bool>,
    /// Whether the presence shows the time elapsed since start.
    pub with_elapsed_time: Option<bool>,
}

} // verus!
