//! The handlers of the application's events, one module per area.
pub mod audio_plugin_actions;
pub mod automation_actions;
pub mod automation_view_actions;
pub mod daw_actions;
pub mod file_operations;
pub mod loop_change_actions;
pub mod midi_actions;
pub mod piano_roll_actions;
pub mod riff_arrangement_actions;
pub mod riff_reference_actions;

