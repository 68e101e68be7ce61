pub mod presets;
pub mod resolve;
