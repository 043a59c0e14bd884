//! What is shown: the activity a preset becomes, the rotation of presets
//! and the reconnect policy.
pub mod activity;
pub mod reconnect;
pub mod cycle;
