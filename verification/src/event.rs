//! The events that flow into the render loop, as plain values.

use vstd::prelude::*;

verus! {

/// Which piped stream of the child a line came from.
#[derive(Clone, Copy, Debug, PartialEq, Eq, Structural)]
pub enum StreamKind {
    Stdout,
    Stderr,
}

/// How the child ended: with a code, or without one (killed by a signal).
#[derive(Clone, Copy, Debug, PartialEq, Eq, Structural)]
pub enum ExitStatus {
    Code(i32),
    Abnormal,
}

/// One event in the life of the child process. Each line event carries a
/// complete line without its line ending.
#[derive(Debug, PartialEq, Eq)]
pub enum ProcessEvent {
    /// A stream of the child was closed.
    Terminate,
    /// A line written to the child's standard output.
    Output(String),
    /// A line written to the child's standard error.
    Error(String),
    /// A line the user submitted to the child's standard input.
    Input(String),
}

/// What a [`ProcessEvent`] is, with its text as a sequence of characters.
pub ghost enum ProcessEventView {
    Terminate,
    Output(Seq<char>),
    Error(Seq<char>),
    Input(Seq<char>),
}

impl View for ProcessEvent {
    type V = ProcessEventView;

    open spec fn view(&self) -> ProcessEventView {
        match *self {
            ProcessEvent::Terminate => ProcessEventView::Terminate,
            ProcessEvent::Output(line) => ProcessEventView::Output(line@),
            ProcessEvent::Error(line) => ProcessEventView::Error(line@),
            ProcessEvent::Input(line) => ProcessEventView::Input(line@),
        }
    }
}

impl DeepView for ProcessEvent {
    type V = ProcessEventView;

    open spec fn deep_view(&self) -> ProcessEventView {
        self@
    }
}

impl ProcessEvent {
    /// The event that a line of the given stream becomes.
    pub open spec fn line_view(kind: StreamKind, text: Seq<char>) -> ProcessEventView {
        match kind {
            StreamKind::Stdout => ProcessEventView::Output(text),
            StreamKind::Stderr => ProcessEventView::Error(text),
        }
    }

    /// Wraps a line of the given stream.
    pub fn line(kind: StreamKind, text: String) -> (event: ProcessEvent)
        ensures
            event@ == Self::line_view(kind, text@),
    {
        match kind {
            StreamKind::Stdout => ProcessEvent::Output(text),
            StreamKind::Stderr => ProcessEvent::Error(text),
        }
    }
}

/// The keys the render loop tells apart; every other key is `Other`.
#[derive(Clone, Copy, Debug, PartialEq, Eq, Structural)]
pub enum KeyCode {
    Char(char),
    Backspace,
    Enter,
    Other,
}

/// The modifier keys held while a key was pressed.
#[derive(Clone, Copy, Debug, PartialEq, Eq, Structural)]
pub struct KeyModifiers {
    pub shift: bool,
    pub control: bool,
    pub alt: bool,
}

impl KeyModifiers {
    pub open spec fn only_control(self) -> bool {
        self.control && !self.shift && !self.alt
    }

    /// No modifier held.
    pub fn none() -> (modifiers: KeyModifiers)
        ensures
            modifiers == (KeyModifiers { shift: false, control: false, alt: false }),
    {
        KeyModifiers { shift: false, control: false, alt: false }
    }

    /// Control alone.
    pub fn control() -> (modifiers: KeyModifiers)
        ensures
            modifiers == (KeyModifiers { shift: false, control: true, alt: false }),
            modifiers.only_control(),
    {
        KeyModifiers { shift: false, control: true, alt: false }
    }

    /// Whether control is held and nothing else.
    pub fn is_only_control(&self) -> (only: bool)
        ensures
            only == self.only_control(),
    {
        self.control && !self.shift && !self.alt
    }
}

/// An event from the terminal.
#[derive(Clone, Copy, Debug, PartialEq, Eq, Structural)]
pub enum TerminalEvent {
    Key { code: KeyCode, modifiers: KeyModifiers },
    Resize { columns: u16, rows: u16 },
    /// Any other input-device event; the render loop ignores it.
    Other,
}

impl ExitStatus {
    /// The status of a child whose exit code is `code`, or that has none.
    pub fn from_code(code: Option<i32>) -> (status: ExitStatus)
        ensures
            code matches Some(n) ==> status == ExitStatus::Code(n),
            code is None ==> status == ExitStatus::Abnormal,
    {
        match code {
            Some(n) => ExitStatus::Code(n),
            None => ExitStatus::Abnormal,
        }
    }

    /// The exit code, where the child ended with one.
    pub fn code(&self) -> (code: Option<i32>)
        ensures
            *self matches ExitStatus::Code(n) ==> code == Some(n),
            *self == ExitStatus::Abnormal ==> code is None,
    {
        match *self {
            ExitStatus::Code(n) => Some(n),
            ExitStatus::Abnormal => None,
        }
    }
}

/// Represents an I/O event that occurs on a child process.
///
/// Each event represents a line of data, e.g. an `Output(String)`
/// event only occurs if a complete line of output is written
/// to the `stdout` of the child process
#[derive(Debug, PartialEq, Eq)]
pub enum BioEvent {
    /// A terminal event has occured
    Terminal(TerminalEvent),
    /// The process has stopped
    Terminated(ExitStatus),
    /// A line has been written to the stdout of the child process
    Output(String),
    /// A line has been written to the stderr of the child process
    Error(String),
    /// A stream of the child was closed
    Terminate,
}

/// Watches for the end of the child. Once an exit status was seen it is
/// kept, and every later poll gives that same status.
pub struct ProcessMonitor {
    status: Option<ExitStatus>,
}

impl ProcessMonitor {
    /// The status seen so far.
    pub closed spec fn seen(&self) -> Option<ExitStatus> {
        self.status
    }

    pub fn new() -> (monitor: Self)
        ensures
            monitor.seen() is None,
    {
        ProcessMonitor { status: None }
    }

    /// Takes the result of one poll of the child and answers with the
    /// status to go by: the first status ever seen, or `None` while no poll
    /// has found the child ended.
    pub fn poll_exit(&mut self, polled: Option<ExitStatus>) -> (status: Option<ExitStatus>)
        ensures
            old(self).seen() is Some ==> status == old(self).seen(),
            old(self).seen() is None ==> status == polled,
            final(self).seen() == status,
    {
        if self.status.is_none() {
            self.status = polled;
        }
        self.status
    }

    /// Takes what one iteration found, whether the bus was empty and what
    /// the poll of the child gave, and answers with the exit status to hand
    /// to the loop in this iteration. The end of the child is handed on only
    /// in an iteration that found the bus empty, so that no line still on
    /// the bus comes after it; until then the status is kept.
    pub fn report(&mut self, bus_empty: bool, polled: Option<ExitStatus>) -> (status: Option<
        ExitStatus,
    >)
        ensures
            old(self).seen() is Some ==> final(self).seen() == old(self).seen(),
            old(self).seen() is None ==> final(self).seen() == polled,
            bus_empty ==> status == final(self).seen(),
            !bus_empty ==> status is None,
    {
        let seen = self.poll_exit(polled);
        if bus_empty {
            seen
        } else {
            None
        }
    }
}

/// What a poll of the child that found the bus empty hands to the loop:
/// the end of the child if it has ended, nothing while it runs, and the
/// failure of the poll itself as it is.
pub fn exit_event(polled: Result<Option<ExitStatus>, std::io::Error>) -> (event: Option<
    Result<BioEvent, std::io::Error>,
>)
    ensures
        polled matches Ok(Some(status)) ==> event == Some(
            Ok::<BioEvent, std::io::Error>(BioEvent::Terminated(status)),
        ),
        polled matches Ok(None) ==> event is None,
        polled matches Err(e) ==> event == Some(Err::<BioEvent, std::io::Error>(e)),
{
    match polled {
        Ok(Some(status)) => Some(Ok(BioEvent::Terminated(status))),
        Ok(None) => None,
        Err(e) => Some(Err(e)),
    }
}

impl BioEvent {
    /// The fan-in event of an event from a relay: its lines and the closing
    /// of its stream go on as they are. A submitted line has no fan-in
    /// event: no relay gives one.
    pub fn from_process_event(event: ProcessEvent) -> (fan_in: Option<BioEvent>)
        ensures
            event matches ProcessEvent::Output(line) ==> fan_in == Some(BioEvent::Output(line)),
            event matches ProcessEvent::Error(line) ==> fan_in == Some(BioEvent::Error(line)),
            event is Terminate ==> fan_in == Some(BioEvent::Terminate),
            event is Input ==> fan_in is None,
    {
        match event {
            ProcessEvent::Output(line) => Some(BioEvent::Output(line)),
            ProcessEvent::Error(line) => Some(BioEvent::Error(line)),
            ProcessEvent::Terminate => Some(BioEvent::Terminate),
            ProcessEvent::Input(_) => None,
        }
    }
}

} // verus!
