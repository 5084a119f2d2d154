//! Equalizer side: filter kinds and the preset names.
pub mod equalizer;
pub mod presets;
