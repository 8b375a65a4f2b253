//! The render loop as a state machine: what each event does to the session
//! and what has to be done for it. A driver feeds it the events it polled
//! and carries out the actions and writes it gets back.

use crate::error::BioError;
use crate::event::{
    BioEvent, ExitStatus, KeyCode, ProcessEvent, ProcessEventView, TerminalEvent,
};
use crate::format::EventFormat;
use crate::input::InputLineBuffer;
use crate::raw::output::{render, QueueOperation, QueueOperationView, RawOutput};
use crate::text::{decimal, decimal_text};
use vstd::prelude::*;
use vstd::string::StringExecFns;

verus! {

/// Where the session stands.
#[derive(Clone, Copy, Debug, PartialEq, Eq, Structural)]
pub enum LoopState {
    /// The child runs and the user may type.
    Running,
    /// A stream of the child was closed; what is still queued on the bus is
    /// printed before the loop ends.
    Draining,
    /// The loop has ended.
    Exited,
}

/// What the driver has to do for the loop.
#[derive(Debug, PartialEq, Eq)]
pub enum Action {
    /// Ask the child to terminate.
    Kill,
    /// Write the line and a newline to the child's input, flush it, and put
    /// an `Input` event with the line on the bus; then tell the loop how it
    /// went, with `on_stdin_written` or `on_stdin_error`. The loop keeps the
    /// line until it is told.
    Submit(String),
}

/// An [`Action`] with its text as a sequence of characters.
pub ghost enum ActionView {
    Kill,
    Submit(Seq<char>),
}

impl View for Action {
    type V = ActionView;

    open spec fn view(&self) -> ActionView {
        match *self {
            Action::Kill => ActionView::Kill,
            Action::Submit(line) => ActionView::Submit(line@),
        }
    }
}

impl DeepView for Action {
    type V = ActionView;

    open spec fn deep_view(&self) -> ActionView {
        self@
    }
}

/// The line printed when the user asks for the child to be stopped.
pub open spec fn stopping_line() -> Seq<char> {
    "Stopping Process..."@
}

/// The line printed when a submitted line could not be written to the child.
pub open spec fn input_closed_line() -> Seq<char> {
    "Process input is closed"@
}

/// The line printed when the child has ended.
pub open spec fn exit_line(status: ExitStatus) -> Seq<char> {
    match status {
        ExitStatus::Code(code) => "Process exited with code "@ + decimal_text(code as int),
        ExitStatus::Abnormal => "Process exited abnormally"@,
    }
}

/// The prompt line for the given input.
pub open spec fn prompt_line(input: Seq<char>) -> Seq<char> {
    "> "@ + input
}

/// The status the wrapper leaves with when the child ended without a code.
pub const ABNORMAL_EXIT_CODE: i32 = 255i32;

/// The status the wrapper itself leaves with: the child's code, or
/// `ABNORMAL_EXIT_CODE` where it has none.
pub open spec fn wrapper_exit_code(status: ExitStatus) -> int {
    match status {
        ExitStatus::Code(code) => code as int,
        ExitStatus::Abnormal => ABNORMAL_EXIT_CODE as int,
    }
}

/// The session as the contracts see it.
pub ghost struct LoopView {
    pub state: LoopState,
    /// The line being typed.
    pub input: Seq<char>,
    /// Whether the prompt line on screen is out of date.
    pub redraw: bool,
    /// What is queued for the terminal since the last flush.
    pub operations: Seq<QueueOperationView>,
    /// Whether the terminal is held in raw mode.
    pub raw: bool,
    pub kill_requested: bool,
    /// The exit status, once it has been reported.
    pub status: Option<ExitStatus>,
    /// The failure that ended the session, if one did.
    pub failure: Option<BioError>,
    /// The lines handed out to be written to the child of which the driver
    /// has not yet said whether they were written, oldest first.
    pub submitted: Seq<Seq<char>>,
}

impl LoopView {
    /// A fresh session: running, in raw mode, with the prompt still to draw.
    pub open spec fn initial() -> LoopView {
        LoopView {
            state: LoopState::Running,
            input: Seq::empty(),
            redraw: true,
            operations: Seq::empty(),
            raw: true,
            kill_requested: false,
            status: None,
            failure: None,
            submitted: Seq::empty(),
        }
    }

    /// The terminal is in raw mode exactly until the loop has ended, and
    /// neither the line being typed nor a submitted line holds a newline.
    pub open spec fn wf(self) -> bool {
        &&& self.raw == (self.state != LoopState::Exited)
        &&& !self.input.contains('\n')
        &&& forall|i: int|
            0 <= i < self.submitted.len() ==> !(#[trigger] self.submitted[i]).contains('\n')
    }

    /// Queues a whole line. It overwrites the prompt line, which is then out
    /// of date.
    pub open spec fn print_line(self, text: Seq<char>) -> LoopView {
        LoopView {
            operations: self.operations.push(QueueOperationView::PrintLine(text)),
            redraw: true,
            ..self
        }
    }

    /// Ends the loop and gives the terminal back.
    pub open spec fn exit(self) -> LoopView {
        LoopView { state: LoopState::Exited, raw: false, ..self }
    }

    /// An event from the bus, with the text it is printed as. The first
    /// `Terminate` starts the draining; every line is printed; once the loop
    /// has ended nothing is.
    pub open spec fn on_event(self, event: ProcessEventView, text: Seq<char>) -> LoopView {
        if self.state == LoopState::Exited {
            self
        } else {
            match event {
                ProcessEventView::Terminate => LoopView { state: LoopState::Draining, ..self },
                _ => self.print_line(text),
            }
        }
    }

    /// The bus has nothing more queued: a draining loop ends.
    pub open spec fn drained(self) -> LoopView {
        if self.state == LoopState::Draining {
            self.exit()
        } else {
            self
        }
    }

    /// The child was seen to have ended. The first report prints the exit
    /// line and ends the loop; a later one changes nothing.
    pub open spec fn on_exit(self, status: ExitStatus) -> LoopView {
        if self.status is Some {
            self
        } else {
            LoopView { status: Some(status), ..self.print_line(exit_line(status)).exit() }
        }
    }

    /// An event from the terminal, and what the driver has to do for it.
    pub open spec fn on_terminal(self, event: TerminalEvent) -> (LoopView, Option<ActionView>) {
        if self.state != LoopState::Running {
            (self, None)
        } else {
            match event {
                TerminalEvent::Key { code: KeyCode::Char(c), modifiers } => {
                    if c == 'c' && modifiers.only_control() {
                        (
                            LoopView { kill_requested: true, ..self.print_line(stopping_line()) },
                            Some(ActionView::Kill),
                        )
                    } else if c == '\n' {
                        (self, None)
                    } else {
                        (LoopView { input: self.input.push(c), redraw: true, ..self }, None)
                    }
                },
                TerminalEvent::Key { code: KeyCode::Backspace, .. } => {
                    if self.input.len() > 0 {
                        (LoopView { input: self.input.drop_last(), redraw: true, ..self }, None)
                    } else {
                        (self, None)
                    }
                },
                TerminalEvent::Key { code: KeyCode::Enter, .. } => {
                    if self.input.len() > 0 {
                        (
                            LoopView {
                                input: Seq::empty(),
                                redraw: true,
                                submitted: self.submitted.push(self.input),
                                ..self
                            },
                            Some(ActionView::Submit(self.input)),
                        )
                    } else {
                        (self, None)
                    }
                },
                _ => (self, None),
            }
        }
    }

    /// The oldest submitted line was written to the child: it is submitted
    /// for good.
    pub open spec fn on_stdin_written(self) -> LoopView {
        if self.submitted.len() > 0 {
            LoopView { submitted: self.submitted.drop_first(), ..self }
        } else {
            self
        }
    }

    /// The oldest submitted line could not be written to the child: that is
    /// said on screen, the line is back in front of what has been typed
    /// since, and the loop goes on.
    pub open spec fn on_stdin_error(self) -> LoopView {
        if self.state == LoopState::Exited {
            self
        } else if self.submitted.len() > 0 {
            LoopView {
                input: self.submitted.first() + self.input,
                submitted: self.submitted.drop_first(),
                ..self.print_line(input_closed_line())
            }
        } else {
            self.print_line(input_closed_line())
        }
    }

    /// The terminal or the bus failed: the loop ends and keeps the first
    /// failure for the caller.
    pub open spec fn fail(self, error: BioError) -> LoopView {
        if self.failure is Some {
            self.exit()
        } else {
            LoopView { failure: Some(error), ..self.exit() }
        }
    }

    /// Redraws the prompt line where it is out of date and the loop runs.
    pub open spec fn redraw_prompt(self) -> LoopView {
        if self.state == LoopState::Running && self.redraw {
            LoopView {
                operations: self.operations.push(
                    QueueOperationView::Print(prompt_line(self.input)),
                ),
                redraw: false,
                ..self
            }
        } else {
            self
        }
    }

    /// Everything queued was handed out.
    pub open spec fn flushed(self) -> LoopView {
        LoopView { operations: Seq::empty(), ..self }
    }

    /// A batch of bus events, in order.
    pub open spec fn drain<F: EventFormat>(
        self,
        format: F,
        events: Seq<ProcessEventView>,
    ) -> LoopView
        decreases events.len(),
    {
        if events.len() == 0 {
            self
        } else {
            self.drain(format, events.drop_last()).on_event(
                events.last(),
                format.formatted(events.last()),
            )
        }
    }

    /// A batch of terminal events, in order, with the actions they ask for.
    pub open spec fn keys(self, events: Seq<TerminalEvent>) -> (LoopView, Seq<ActionView>)
        decreases events.len(),
    {
        if events.len() == 0 {
            (self, Seq::empty())
        } else {
            let (before, actions) = self.keys(events.drop_last());
            let (after, action) = before.on_terminal(events.last());
            match action {
                Some(action) => (after, actions.push(action)),
                None => (after, actions),
            }
        }
    }

    /// One iteration of the loop: the bus events, the end of the draining,
    /// the exit status if there is one, the terminal events, and the redraw
    /// of the prompt. What is then queued is the frame to write.
    pub open spec fn tick<F: EventFormat>(
        self,
        format: F,
        events: Seq<ProcessEventView>,
        exit: Option<ExitStatus>,
        terminal: Seq<TerminalEvent>,
    ) -> (LoopView, Seq<ActionView>) {
        let drained = self.drain(format, events).drained();
        let reported = match exit {
            Some(status) => drained.on_exit(status),
            None => drained,
        };
        let (typed, actions) = reported.keys(terminal);
        (typed.redraw_prompt(), actions)
    }
}

/// What one iteration asks of the driver: the actions to carry out, in
/// order, and the bytes to write to the terminal in one batch.
#[derive(Debug, PartialEq, Eq)]
pub struct Tick {
    pub actions: Vec<Action>,
    pub frame: Vec<u8>,
}

/// The view of an action that may be absent.
pub open spec fn action_view(action: Option<Action>) -> Option<ActionView> {
    match action {
        Some(action) => Some(action@),
        None => None,
    }
}

/// The render loop of one session.
pub struct RenderLoop<F: EventFormat> {
    format: F,
    state: LoopState,
    input: InputLineBuffer,
    output: RawOutput,
    stale: bool,
    kill_requested: bool,
    status: Option<ExitStatus>,
    failure: Option<BioError>,
    submitted: Vec<String>,
}

impl<F: EventFormat> View for RenderLoop<F> {
    type V = LoopView;

    closed spec fn view(&self) -> LoopView {
        LoopView {
            state: self.state,
            input: self.input@,
            redraw: self.stale || self.input.pending(),
            operations: self.output.operations(),
            raw: self.output.raw_mode(),
            kill_requested: self.kill_requested,
            status: self.status,
            failure: self.failure,
            submitted: self.submitted.deep_view(),
        }
    }
}

impl<F: EventFormat> RenderLoop<F> {
    /// The format that events are printed with.
    pub closed spec fn formatter(&self) -> F {
        self.format
    }

    /// The bytes queued are those of the operations queued.
    pub closed spec fn consistent(&self) -> bool {
        self.output.wf()
    }

    pub open spec fn wf(&self) -> bool {
        self.consistent() && self@.wf()
    }

    /// Starts a session with the given format.
    pub fn new(format: F) -> (session: Self)
        ensures
            session.wf(),
            session@ == LoopView::initial(),
            session.formatter() == format,
    {
        let session = RenderLoop {
            format,
            state: LoopState::Running,
            input: InputLineBuffer::new(),
            output: RawOutput::init(),
            stale: true,
            kill_requested: false,
            status: None,
            failure: None,
            submitted: Vec::new(),
        };
        assert(session.submitted.deep_view() =~= Seq::<Seq<char>>::empty());
        session
    }

    /// Replaces the format; the session is otherwise unchanged.
    pub fn set_event_format(&mut self, format: F)
        ensures
            final(self)@ == old(self)@,
            final(self).formatter() == format,
            final(self).consistent() == old(self).consistent(),
    {
        self.format = format;
    }

    fn print_line(&mut self, text: String)
        requires
            old(self).consistent(),
        ensures
            final(self).consistent(),
            final(self)@ == old(self)@.print_line(text@),
            final(self).formatter() == old(self).formatter(),
    {
        let _ = self.output.queue(QueueOperation::PrintLine(text));
        self.stale = true;
    }

    fn exit(&mut self)
        requires
            old(self).consistent(),
        ensures
            final(self).consistent(),
            final(self)@ == old(self)@.exit(),
            final(self).formatter() == old(self).formatter(),
    {
        self.state = LoopState::Exited;
        self.output.release();
    }

    /// Takes one event from the bus.
    pub fn on_process_event(&mut self, event: ProcessEvent)
        requires
            old(self).wf(),
        ensures
            final(self).wf(),
            final(self)@ == old(self)@.on_event(event@, old(self).formatter().formatted(event@)),
            final(self).formatter() == old(self).formatter(),
    {
        match self.state {
            LoopState::Exited => {},
            _ => {
                match event {
                    ProcessEvent::Terminate => {
                        self.state = LoopState::Draining;
                    },
                    event => {
                        let text = self.format.format(event);
                        self.print_line(text);
                    },
                }
            },
        }
    }

    /// Tells the loop that the bus has nothing more queued.
    pub fn drained(&mut self)
        requires
            old(self).wf(),
        ensures
            final(self).wf(),
            final(self)@ == old(self)@.drained(),
            final(self).formatter() == old(self).formatter(),
    {
        match self.state {
            LoopState::Draining => {
                self.exit();
            },
            _ => {},
        }
    }

    /// Reports that the child has ended.
    pub fn on_exit_status(&mut self, status: ExitStatus)
        requires
            old(self).wf(),
        ensures
            final(self).wf(),
            final(self)@ == old(self)@.on_exit(status),
            final(self).formatter() == old(self).formatter(),
    {
        if self.status.is_none() {
            let text = exit_message(status);
            self.print_line(text);
            self.exit();
            self.status = Some(status);
        }
    }

    /// Takes one event from the terminal and says what has to be done for it.
    pub fn on_terminal_event(&mut self, event: TerminalEvent) -> (action: Option<Action>)
        requires
            old(self).wf(),
        ensures
            final(self).wf(),
            final(self)@ == old(self)@.on_terminal(event).0,
            action_view(action) == old(self)@.on_terminal(event).1,
            final(self).formatter() == old(self).formatter(),
    {
        proof {
            lemma_step_keeps_wf(self@, LoopInput::Terminal(event));
        }
        match self.state {
            LoopState::Running => {},
            _ => {
                return None;
            },
        }
        match event {
            TerminalEvent::Key { code: KeyCode::Char(c), modifiers } => {
                if c == 'c' && modifiers.is_only_control() {
                    self.print_line(String::from_str("Stopping Process..."));
                    self.kill_requested = true;
                    Some(Action::Kill)
                } else if c == '\n' {
                    None
                } else {
                    proof {
                        lemma_push_keeps_single_line(self.input@, c);
                    }
                    self.input.insert(c);
                    None
                }
            },
            TerminalEvent::Key { code: KeyCode::Backspace, .. } => {
                proof {
                    if self.input@.len() > 0 {
                        lemma_drop_last_keeps_single_line(self.input@);
                    }
                }
                self.input.backspace();
                None
            },
            TerminalEvent::Key { code: KeyCode::Enter, .. } => {
                if self.input.is_empty() {
                    None
                } else {
                    let ghost before = self.submitted.deep_view();
                    let line = self.input.take();
                    self.submitted.push(line.clone());
                    self.stale = true;
                    assert(self.submitted.deep_view() =~= before.push(line@));
                    assert forall|i: int| 0 <= i < before.push(line@).len() implies !(
                    #[trigger] before.push(line@)[i]).contains('\n') by {
                        if i < before.len() {
                            assert(!before[i].contains('\n'));
                        }
                    }
                    assert(!Seq::<char>::empty().contains('\n'));
                    Some(Action::Submit(line))
                }
            },
            _ => None,
        }
    }

    /// Reports that the oldest submitted line was written to the child.
    pub fn on_stdin_written(&mut self)
        requires
            old(self).wf(),
        ensures
            final(self).wf(),
            final(self)@ == old(self)@.on_stdin_written(),
            final(self).formatter() == old(self).formatter(),
    {
        if self.submitted.len() > 0 {
            let ghost before = self.submitted.deep_view();
            let _ = self.submitted.remove(0);
            assert(self.submitted.deep_view() =~= before.drop_first());
        }
    }

    /// Reports that the oldest submitted line could not be written to the
    /// child.
    pub fn on_stdin_error(&mut self)
        requires
            old(self).wf(),
        ensures
            final(self).wf(),
            final(self)@ == old(self)@.on_stdin_error(),
            final(self).formatter() == old(self).formatter(),
    {
        match self.state {
            LoopState::Exited => {},
            _ => {
                self.print_line(String::from_str("Process input is closed"));
                if self.submitted.len() > 0 {
                    let ghost before = self.submitted.deep_view();
                    let line = self.submitted.remove(0);
                    assert(line@ == before.first());
                    assert(self.submitted.deep_view() =~= before.drop_first());
                    proof {
                        lemma_concat_keeps_single_line(line@, self.input@);
                    }
                    self.input.restore(line.as_str());
                }
            },
        }
    }

    /// Ends the loop on a failure of the terminal or the bus.
    pub fn fail(&mut self, error: BioError)
        requires
            old(self).wf(),
        ensures
            final(self).wf(),
            final(self)@ == old(self)@.fail(error),
            final(self).formatter() == old(self).formatter(),
    {
        self.exit();
        if self.failure.is_none() {
            self.failure = Some(error);
        }
    }

    /// Queues the prompt line if it is out of date.
    pub fn redraw(&mut self)
        requires
            old(self).wf(),
        ensures
            final(self).wf(),
            final(self)@ == old(self)@.redraw_prompt(),
            final(self).formatter() == old(self).formatter(),
    {
        let running = match self.state {
            LoopState::Running => true,
            _ => false,
        };
        if running && (self.stale || self.input.has_pending_edits()) {
            let mut text = String::from_str("> ");
            text.append(self.input.value());
            let _ = self.output.queue(QueueOperation::Print(text));
            self.stale = false;
            self.input.mark_drawn();
        }
    }

    /// Hands out everything queued for the terminal as one batch.
    pub fn flush(&mut self) -> (frame: Vec<u8>)
        requires
            old(self).wf(),
        ensures
            final(self).wf(),
            final(self)@ == old(self)@.flushed(),
            frame@ == render(old(self)@.operations),
            final(self).formatter() == old(self).formatter(),
    {
        self.output.flush()
    }
}

/// The exit line as a string.
pub fn exit_message(status: ExitStatus) -> (text: String)
    ensures
        text@ == exit_line(status),
{
    match status {
        ExitStatus::Code(code) => {
            let mut text = String::from_str("Process exited with code ");
            let digits = decimal(code);
            text.append(digits.as_str());
            text
        },
        ExitStatus::Abnormal => String::from_str("Process exited abnormally"),
    }
}

/// A line without a newline stays one when a character that is no newline
/// is appended.
pub proof fn lemma_push_keeps_single_line(line: Seq<char>, c: char)
    requires
        !line.contains('\n'),
        c != '\n',
    ensures
        !line.push(c).contains('\n'),
{
    assert forall|i: int| 0 <= i < line.push(c).len() implies line.push(c)[i] != '\n' by {
        if i < line.len() {
            assert(line.contains(line[i]));
        }
    }
}

/// Two lines without a newline make one without a newline.
pub proof fn lemma_concat_keeps_single_line(first: Seq<char>, second: Seq<char>)
    requires
        !first.contains('\n'),
        !second.contains('\n'),
    ensures
        !(first + second).contains('\n'),
{
    assert forall|i: int| 0 <= i < (first + second).len() implies (first + second)[i]
        != '\n' by {
        if i < first.len() {
            assert(first.contains(first[i]));
        } else {
            assert(second.contains(second[i - first.len()]));
        }
    }
}

/// A line without a newline stays one when its last character is removed.
pub proof fn lemma_drop_last_keeps_single_line(line: Seq<char>)
    requires
        !line.contains('\n'),
        line.len() > 0,
    ensures
        !line.drop_last().contains('\n'),
{
    assert forall|i: int| 0 <= i < line.drop_last().len() implies line.drop_last()[i]
        != '\n' by {
        assert(line.contains(line[i]));
    }
}

impl<F: EventFormat> RenderLoop<F> {
    /// One iteration of the loop, on what the driver polled: the events
    /// queued on the bus, the exit status if the child was seen to have
    /// ended, and the terminal events that came within the wait.
    pub fn tick(
        &mut self,
        events: Vec<ProcessEvent>,
        exit: Option<ExitStatus>,
        terminal: Vec<TerminalEvent>,
    ) -> (out: Tick)
        requires
            old(self).wf(),
        ensures
            final(self).wf(),
            final(self).formatter() == old(self).formatter(),
            final(self)@ == old(self)@.tick(
                old(self).formatter(),
                events.deep_view(),
                exit,
                terminal@,
            ).0.flushed(),
            out.actions.deep_view() == old(self)@.tick(
                old(self).formatter(),
                events.deep_view(),
                exit,
                terminal@,
            ).1,
            out.frame@ == render(
                old(self)@.tick(
                    old(self).formatter(),
                    events.deep_view(),
                    exit,
                    terminal@,
                ).0.operations,
            ),
    {
        let ghost start = self@;
        let ghost format = self.format;
        let ghost views = events.deep_view();
        let ghost all = events@;
        assert(views.subrange(0, 0) =~= Seq::<ProcessEventView>::empty());
        for event in it: events
            invariant
                self.wf(),
                self.format == format,
                it.seq() == all,
                views.len() == all.len(),
                forall|i: int| 0 <= i < all.len() ==> views[i] == (#[trigger] all[i])@,
                self@ == start.drain(format, views.subrange(0, it.index() as int)),
        {
            proof {
                let i = it.index() as int;
                assert(views.subrange(0, i + 1).drop_last() =~= views.subrange(0, i));
                assert(views.subrange(0, i + 1).last() == event@);
            }
            self.on_process_event(event);
        }
        assert(views.subrange(0, views.len() as int) =~= views);
        self.drained();
        match exit {
            Some(status) => {
                self.on_exit_status(status);
            },
            None => {},
        }
        let ghost reported = self@;
        let mut actions: Vec<Action> = Vec::new();
        let mut i: usize = 0;
        assert(terminal@.subrange(0, 0) =~= Seq::<TerminalEvent>::empty());
        assert(actions.deep_view() =~= Seq::<ActionView>::empty());
        while i < terminal.len()
            invariant
                i <= terminal.len(),
                self.wf(),
                self.format == format,
                self@ == reported.keys(terminal@.subrange(0, i as int)).0,
                actions.deep_view() == reported.keys(terminal@.subrange(0, i as int)).1,
            decreases terminal.len() - i,
        {
            proof {
                assert(terminal@.subrange(0, i + 1).drop_last() =~= terminal@.subrange(
                    0,
                    i as int,
                ));
                assert(terminal@.subrange(0, i + 1).last() == terminal@[i as int]);
            }
            let ghost before = actions.deep_view();
            match self.on_terminal_event(terminal[i]) {
                Some(action) => {
                    actions.push(action);
                    assert(actions.deep_view() =~= before.push(action@));
                },
                None => {},
            }
            i = i + 1;
        }
        assert(terminal@.subrange(0, terminal@.len() as int) =~= terminal@);
        self.redraw();
        let frame = self.flush();
        Tick { actions, frame }
    }

    pub fn state(&self) -> (state: LoopState)
        ensures
            state == self@.state,
    {
        self.state
    }

    /// Whether the loop has ended.
    pub fn is_exited(&self) -> (exited: bool)
        ensures
            exited == (self@.state == LoopState::Exited),
    {
        match self.state {
            LoopState::Exited => true,
            _ => false,
        }
    }

    /// Whether the terminal is held in raw mode.
    pub fn raw_mode(&self) -> (raw: bool)
        ensures
            raw == self@.raw,
    {
        self.output.is_raw()
    }

    /// Whether the user asked for the child to be stopped.
    pub fn kill_requested(&self) -> (requested: bool)
        ensures
            requested == self@.kill_requested,
    {
        self.kill_requested
    }

    /// The exit status, once it has been reported.
    pub fn exit_status(&self) -> (status: Option<ExitStatus>)
        ensures
            status == self@.status,
    {
        self.status
    }

    /// The line being typed.
    pub fn input(&self) -> (line: &str)
        ensures
            line@ == self@.input,
    {
        self.input.value()
    }

    /// Ends the session and surfaces the failure that ended it, if one did,
    /// or else the exit status if it was reported.
    pub fn finish(self) -> (outcome: Result<Option<ExitStatus>, BioError>)
        ensures
            self@.failure matches Some(error) ==> outcome == Err::<Option<ExitStatus>, BioError>(
                error,
            ),
            self@.failure is None ==> outcome == Ok::<Option<ExitStatus>, BioError>(
                self@.status,
            ),
    {
        match self.failure {
            Some(error) => Err(error),
            None => Ok(self.status),
        }
    }
}

/// The status the wrapper leaves with for a child that ended with `status`:
/// zero exactly when the child's code is zero.
pub fn exit_code(status: ExitStatus) -> (code: i32)
    ensures
        code == wrapper_exit_code(status),
        code == 0 <==> status == ExitStatus::Code(0),
{
    match status {
        ExitStatus::Code(code) => code,
        ExitStatus::Abnormal => ABNORMAL_EXIT_CODE,
    }
}

/// What is written to the child's input for a submitted line: the line and
/// a newline.
pub fn stdin_payload(line: &str) -> (bytes: Vec<u8>)
    ensures
        bytes@ == vstd::utf8::encode_utf8(line@).push(10u8),
{
    let mut bytes = vstd::string::StrSliceExecFns::as_bytes_vec(line);
    bytes.push(10u8);
    bytes
}

/// Anything that can happen to a session.
pub ghost enum LoopInput {
    /// An event from the bus, with the text it is printed as.
    Event(ProcessEventView, Seq<char>),
    Drained,
    Exit(ExitStatus),
    Terminal(TerminalEvent),
    StdinWritten,
    StdinError,
    Failure(BioError),
    Redraw,
    Flush,
}

impl LoopView {
    /// The session after one input.
    pub open spec fn step(self, input: LoopInput) -> LoopView {
        match input {
            LoopInput::Event(event, text) => self.on_event(event, text),
            LoopInput::Drained => self.drained(),
            LoopInput::Exit(status) => self.on_exit(status),
            LoopInput::Terminal(event) => self.on_terminal(event).0,
            LoopInput::StdinWritten => self.on_stdin_written(),
            LoopInput::StdinError => self.on_stdin_error(),
            LoopInput::Failure(error) => self.fail(error),
            LoopInput::Redraw => self.redraw_prompt(),
            LoopInput::Flush => self.flushed(),
        }
    }

    /// The session after a run of inputs.
    pub open spec fn run(self, inputs: Seq<LoopInput>) -> LoopView
        decreases inputs.len(),
    {
        if inputs.len() == 0 {
            self
        } else {
            self.run(inputs.drop_last()).step(inputs.last())
        }
    }

    /// How often the loop ends during a run of inputs: the number of inputs
    /// that take it from a state that is not `Exited` into `Exited`.
    pub open spec fn exits(self, inputs: Seq<LoopInput>) -> nat
        decreases inputs.len(),
    {
        if inputs.len() == 0 {
            0
        } else {
            let before = self.run(inputs.drop_last());
            let ended: nat = if before.state != LoopState::Exited && before.step(
                inputs.last(),
            ).state == LoopState::Exited {
                1
            } else {
                0
            };
            self.exits(inputs.drop_last()) + ended
        }
    }
}

/// Once the loop has ended it stays ended, whatever arrives: `Terminate`
/// again, an exit status, a key, a failure. Nothing but the exit line of a
/// first exit report is printed from then on.
pub proof fn lemma_exited_is_final(session: LoopView, input: LoopInput)
    requires
        session.state == LoopState::Exited,
    ensures
        session.step(input).state == LoopState::Exited,
        session.step(input).input == session.input,
        !(input is Exit) && !(input is Flush) ==> session.step(input).operations
            == session.operations,
{
}

/// Every input keeps the session well-formed: the terminal is in raw mode
/// exactly while the loop has not ended, and the line being typed never
/// holds a newline.
pub proof fn lemma_step_keeps_wf(session: LoopView, input: LoopInput)
    requires
        session.wf(),
    ensures
        session.step(input).wf(),
{
    match input {
        LoopInput::Terminal(TerminalEvent::Key { code: KeyCode::Char(c), modifiers }) => {
            if c != '\n' {
                lemma_push_keeps_single_line(session.input, c);
            }
        },
        LoopInput::Terminal(TerminalEvent::Key { code: KeyCode::Backspace, .. }) => {
            if session.input.len() > 0 {
                lemma_drop_last_keeps_single_line(session.input);
            }
        },
        LoopInput::StdinError => {
            if session.submitted.len() > 0 {
                lemma_concat_keeps_single_line(session.submitted.first(), session.input);
            }
        },
        _ => {},
    }
}

/// A run of inputs keeps the session well-formed. So raw mode is off after
/// every session that has ended: by the child's exit, after a kill, or by a
/// failure.
pub proof fn lemma_run_keeps_wf(session: LoopView, inputs: Seq<LoopInput>)
    requires
        session.wf(),
    ensures
        session.run(inputs).wf(),
        session.run(inputs).state == LoopState::Exited ==> !session.run(inputs).raw,
    decreases inputs.len(),
{
    if inputs.len() > 0 {
        lemma_run_keeps_wf(session, inputs.drop_last());
        lemma_step_keeps_wf(session.run(inputs.drop_last()), inputs.last());
    }
}

/// A session that has ended is still ended after any run of inputs.
pub proof fn lemma_run_stays_exited(session: LoopView, inputs: Seq<LoopInput>)
    requires
        session.state == LoopState::Exited,
    ensures
        session.run(inputs).state == LoopState::Exited,
        session.exits(inputs) == 0,
    decreases inputs.len(),
{
    if inputs.len() > 0 {
        lemma_run_stays_exited(session, inputs.drop_last());
        lemma_exited_is_final(session.run(inputs.drop_last()), inputs.last());
    }
}

/// The loop ends at most once in a session, however many `Terminate`
/// events and exit reports arrive; and it has ended after the run exactly
/// when it had ended before or ended on the way.
pub proof fn lemma_exits_at_most_once(session: LoopView, inputs: Seq<LoopInput>)
    ensures
        session.exits(inputs) <= 1,
        session.state != LoopState::Exited ==> (session.run(inputs).state == LoopState::Exited
            <==> session.exits(inputs) == 1),
    decreases inputs.len(),
{
    if session.state == LoopState::Exited {
        lemma_run_stays_exited(session, inputs);
    } else if inputs.len() > 0 {
        lemma_exits_at_most_once(session, inputs.drop_last());
        let before = session.run(inputs.drop_last());
        if before.state == LoopState::Exited {
            lemma_exited_is_final(before, inputs.last());
        }
    }
}

/// One iteration keeps the session well-formed.
pub proof fn lemma_tick_keeps_wf<F: EventFormat>(
    session: LoopView,
    format: F,
    events: Seq<ProcessEventView>,
    exit: Option<ExitStatus>,
    terminal: Seq<TerminalEvent>,
)
    requires
        session.wf(),
    ensures
        session.tick(format, events, exit, terminal).0.wf(),
{
    lemma_drain_keeps_wf(session, format, events);
    let drained = session.drain(format, events).drained();
    let reported = match exit {
        Some(status) => drained.on_exit(status),
        None => drained,
    };
    lemma_keys_keep_wf(reported, terminal);
}

/// A batch of bus events keeps the session well-formed.
pub proof fn lemma_drain_keeps_wf<F: EventFormat>(
    session: LoopView,
    format: F,
    events: Seq<ProcessEventView>,
)
    requires
        session.wf(),
    ensures
        session.drain(format, events).wf(),
    decreases events.len(),
{
    if events.len() > 0 {
        lemma_drain_keeps_wf(session, format, events.drop_last());
    }
}

/// A batch of terminal events keeps the session well-formed.
pub proof fn lemma_keys_keep_wf(session: LoopView, events: Seq<TerminalEvent>)
    requires
        session.wf(),
    ensures
        session.keys(events).0.wf(),
    decreases events.len(),
{
    if events.len() > 0 {
        lemma_keys_keep_wf(session, events.drop_last());
        lemma_step_keeps_wf(session.keys(events.drop_last()).0, LoopInput::Terminal(events.last()));
    }
}

impl LoopView {
    /// An event of the single queue into which a fan-in driver puts the
    /// lines of the child, the end of the child and the terminal events.
    pub open spec fn on_bio_event<F: EventFormat>(self, format: F, event: BioEvent) -> (
        LoopView,
        Option<ActionView>,
    ) {
        match event {
            BioEvent::Terminal(event) => self.on_terminal(event),
            BioEvent::Terminated(status) => (self.on_exit(status), None),
            BioEvent::Output(line) => (
                self.on_event(
                    ProcessEventView::Output(line@),
                    format.formatted(ProcessEventView::Output(line@)),
                ),
                None,
            ),
            BioEvent::Error(line) => (
                self.on_event(
                    ProcessEventView::Error(line@),
                    format.formatted(ProcessEventView::Error(line@)),
                ),
                None,
            ),
            BioEvent::Terminate => (
                self.on_event(
                    ProcessEventView::Terminate,
                    format.formatted(ProcessEventView::Terminate),
                ),
                None,
            ),
        }
    }
}

impl<F: EventFormat> RenderLoop<F> {
    /// Takes one event of a fan-in queue.
    pub fn handle(&mut self, event: BioEvent) -> (action: Option<Action>)
        requires
            old(self).wf(),
        ensures
            final(self).wf(),
            final(self).formatter() == old(self).formatter(),
            final(self)@ == old(self)@.on_bio_event(old(self).formatter(), event).0,
            action_view(action) == old(self)@.on_bio_event(old(self).formatter(), event).1,
    {
        match event {
            BioEvent::Terminal(event) => self.on_terminal_event(event),
            BioEvent::Terminated(status) => {
                self.on_exit_status(status);
                None
            },
            BioEvent::Output(line) => {
                self.on_process_event(ProcessEvent::Output(line));
                None
            },
            BioEvent::Error(line) => {
                self.on_process_event(ProcessEvent::Error(line));
                None
            },
            BioEvent::Terminate => {
                self.on_process_event(ProcessEvent::Terminate);
                None
            },
        }
    }
}

} // verus!
