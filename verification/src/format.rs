//! How an event becomes the text of a line on screen.

use crate::ansi::{coloured, cyan};
use crate::event::{ProcessEvent, ProcessEventView};
use vstd::prelude::*;
use vstd::string::StringExecFns;

verus! {

/// Turns an event into the text that is printed for it.
pub trait EventFormat {
    /// The text of an event.
    spec fn formatted(&self, event: ProcessEventView) -> Seq<char>;

    fn format(&self, event: ProcessEvent) -> (text: String)
        ensures
            text@ == self.formatted(event@),
    ;
}

/// What `passthrough` gives: output as it is, input in cyan.
pub open spec fn passthrough_text(event: ProcessEventView) -> Seq<char> {
    match event {
        ProcessEventView::Terminate => "Process Terminated"@,
        ProcessEventView::Output(line) => line,
        ProcessEventView::Error(line) => line,
        ProcessEventView::Input(line) => coloured(14, line),
    }
}

/// The default format: lines of the child unchanged, submitted input in
/// cyan.
pub fn passthrough(e: ProcessEvent) -> (text: String)
    ensures
        text@ == passthrough_text(e@),
{
    match e {
        ProcessEvent::Terminate => String::from_str("Process Terminated"),
        ProcessEvent::Output(s) => s,
        ProcessEvent::Error(s) => s,
        ProcessEvent::Input(s) => cyan(s.as_str()),
    }
}

/// The format that `passthrough` is.
#[derive(Clone, Copy, Debug)]
pub struct Passthrough;

impl EventFormat for Passthrough {
    open spec fn formatted(&self, event: ProcessEventView) -> Seq<char> {
        passthrough_text(event)
    }

    fn format(&self, event: ProcessEvent) -> (text: String) {
        passthrough(event)
    }
}

} // verus!
