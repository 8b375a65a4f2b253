//! The raw-mode side of the terminal.

pub mod output;
