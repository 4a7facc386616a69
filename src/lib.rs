//! Pattern resolution for a kubectl front end: fuzzy names of contexts, namespaces and
//! pods are narrowed by substring matching and resolved to one exact name, by asking
//! the user when several match. Around that core: the kubectl argument lists, the
//! parsing of kubectl's listings, the nickname configuration and the log line filter.
//! Running kubectl, the terminal and the configuration file are the caller's.

pub mod cli;
pub mod text;
pub mod matcher;
pub mod select;
pub mod kubectl;
pub mod listing;
pub mod config;
pub mod exec;
pub mod display;
pub mod logs;
pub mod smart;
