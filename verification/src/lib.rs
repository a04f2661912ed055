//! The computing core of a desktop monitoring overlay: configuration,
//! text handling, metric formatting, mail status parsing and the small
//! decision functions that the user interface drives.

pub mod config;
pub mod history;
pub mod hud;
pub mod overlay;
pub mod theme;
pub mod weather_fx;
pub mod metrics;
pub mod text;
