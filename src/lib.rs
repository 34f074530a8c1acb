//! A small interactive command interpreter: command parsing and dispatch,
//! the builtin commands, and a bounded, searchable command history.

pub mod text;
pub mod history;
pub mod error;
pub mod builtin;
pub mod external;
pub mod cmd;
pub mod shell;
