//! Verified core of a terminal log browser: the rules that decide what the
//! browser shows, how its state moves on each key press, how log sources are
//! found, filtered and ordered, and how Laravel log lines are styled.

pub mod app;
pub mod complete;
pub mod config;
pub mod export;
pub mod input;
pub mod laravel;
pub mod log_reader;
pub mod log_source;
pub mod order;
pub mod path;
pub mod text;
pub mod theme;
pub mod view;
