//! Selection capture, dictionary lookup and window placement logic of a
//! desktop word-lookup tool, with its contracts proved by Verus.
pub mod text;
pub mod selection;
pub mod config;
pub mod state;
pub mod window;
pub mod error;
pub mod dict;
pub mod store;
pub mod tts;
pub mod capture;
pub mod uia;
pub mod commands;
pub mod tray;
