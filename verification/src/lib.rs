//! A hotkey daemon core: tracks held modifier keys, matches key combinations
//! against a hot-reloadable binding table, and decides per input event whether
//! the event passes through to the OS or is blocked while an action fires.

pub mod action;
pub mod bind;
pub mod button_mapping;
pub mod cli;
pub mod config;
pub mod config_source;
pub mod interceptor;
pub mod keys;
pub mod modifiers;
pub mod store;
