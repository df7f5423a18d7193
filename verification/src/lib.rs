//! Decisions and data of a utility that turns a display's HDR and console
//! mode on while a configured game runs, and off after the last one closes.
pub mod text;
pub mod path;
pub mod display;
pub mod config;
pub mod state;
pub mod wide;
pub mod shell;
