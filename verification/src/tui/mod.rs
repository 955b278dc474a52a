//! The terminal interface: actions, key bindings, the application state and
//! the decisions that turn key presses into state changes.

pub mod actions;
pub mod keys;
pub mod config;
pub mod table;
pub mod state;
pub mod listing;
pub mod transitions;
pub mod commands;
pub mod component;
pub mod widgets;
pub mod app;
pub mod external_command;
