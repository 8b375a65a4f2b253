//! Runs a child process in a raw terminal, as a library of pure parts: the
//! events of the session, the relay that cuts a stream of the child into
//! lines, the buffer of the line being typed, the sink that queues what the
//! terminal is to show, the styling of lines by rules, and the render loop
//! that ties them together. Nothing here touches the terminal or the child:
//! a driver polls, hands over what it found, and carries out what it is
//! told.

pub mod ansi;
pub mod bus;
pub mod error;
pub mod event;
pub mod format;
pub mod input;
pub mod output;
pub mod pattern;
pub mod raw;
pub mod regex_style;
pub mod relay;
pub mod render_loop;
pub mod style;
pub mod text;

pub use crate::event::BioEvent;
