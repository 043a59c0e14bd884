//! Decision logic of a Discord Rich Presence client: presets, configuration,
//! the activity that a preset becomes, the preset rotation and the reconnect
//! policy, with their contracts.
pub mod text;
pub mod model;
pub mod presence;
pub mod util;
pub mod startup;
pub mod printing;
