//! Decision logic of the Focus Totem desktop client: totem polling, the focus
//! state machine, app configuration, session records, analytics and report text.
pub mod text;
pub mod totem;
pub mod cli;
pub mod session;
pub mod client;
pub mod config;
pub mod automation;
pub mod discovery;
pub mod mock;
pub mod analytics;
mod daily;
pub mod report;
pub mod gui_model;
pub mod summary;
pub mod page;
