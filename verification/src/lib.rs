//! WeChat automation on the desktop: the link between a sidecar that operates WeChat and a
//! server that gives the commands.

pub mod agent_link;
pub mod alert;
pub mod app_state;
pub mod bootstrap;
pub mod calendar;
pub mod cli;
pub mod commands;
pub mod config;
pub mod file_log;
pub mod files;
pub mod json;
pub mod outbox;
pub mod sidecar;
pub mod state;
pub mod text;
pub mod text_set;
pub mod transport;
pub mod ui_events;
pub mod ui_log;
pub mod wx;
