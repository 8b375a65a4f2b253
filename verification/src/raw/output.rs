//! The sink through which everything reaches the terminal while it is in
//! raw mode: operations are queued as bytes and handed out in one batch.

use crate::ansi::{clear_sequence, write_clear, write_text, ClearType};
use vstd::prelude::*;
use vstd::string::StringExecFns;
use vstd::utf8::encode_utf8;

verus! {

/// One drawing operation.
#[derive(Debug, PartialEq, Eq)]
pub enum QueueOperation {
    /// Redraws the current line and leaves the cursor at its end.
    Print(String),
    /// Redraws the current line and moves on to a fresh one.
    PrintLine(String),
}

/// A [`QueueOperation`] with its text as a sequence of characters.
pub ghost enum QueueOperationView {
    Print(Seq<char>),
    PrintLine(Seq<char>),
}

impl View for QueueOperation {
    type V = QueueOperationView;

    open spec fn view(&self) -> QueueOperationView {
        match *self {
            QueueOperation::Print(line) => QueueOperationView::Print(line@),
            QueueOperation::PrintLine(line) => QueueOperationView::PrintLine(line@),
        }
    }
}

/// What every operation starts with: the sequence that erases the current
/// line.
pub open spec fn erase_line() -> Seq<u8> {
    clear_sequence(ClearType::CurrentLine)
}

impl QueueOperationView {
    /// The text the operation prints after erasing the line: a carriage
    /// return, the line, and for `PrintLine` a line feed and carriage return.
    pub open spec fn text(self) -> Seq<char> {
        match self {
            QueueOperationView::Print(line) => seq!['\r'] + line,
            QueueOperationView::PrintLine(line) => seq!['\r'] + line + seq!['\n', '\r'],
        }
    }

    /// The bytes the operation puts on the terminal.
    pub open spec fn sequence(self) -> Seq<u8> {
        erase_line() + encode_utf8(self.text())
    }
}

/// The bytes of a run of operations, in order.
pub open spec fn render(operations: Seq<QueueOperationView>) -> Seq<u8>
    decreases operations.len(),
{
    if operations.len() == 0 {
        Seq::empty()
    } else {
        render(operations.drop_last()) + operations.last().sequence()
    }
}

/// Every operation begins by erasing the current line, whatever it prints.
pub proof fn lemma_operation_erases_first(operation: QueueOperationView)
    ensures
        erase_line().len() == 4,
        operation.sequence().len() >= 4,
        operation.sequence().subrange(0, 4) == erase_line(),
{
    assert(erase_line() =~= seq![0x1bu8, 0x5bu8, 0x32u8, 0x4bu8]);
    assert(operation.sequence().subrange(0, 4) =~= erase_line());
}

/// Rendering one more operation appends its bytes.
pub proof fn lemma_render_push(operations: Seq<QueueOperationView>, next: QueueOperationView)
    ensures
        render(operations.push(next)) == render(operations) + next.sequence(),
{
    assert(operations.push(next).drop_last() =~= operations);
}

/// Rendering two runs one after the other.
pub proof fn lemma_render_concat(
    first: Seq<QueueOperationView>,
    second: Seq<QueueOperationView>,
)
    ensures
        render(first + second) == render(first) + render(second),
    decreases second.len(),
{
    if second.len() == 0 {
        assert(first + second =~= first);
        assert(render(first) + render(second) =~= render(first));
    } else {
        lemma_render_concat(first, second.drop_last());
        assert((first + second).drop_last() =~= first + second.drop_last());
        assert(render(first + second) =~= render(first) + render(second));
    }
}

/// The terminal writer of a session. It stands for the terminal being in
/// raw mode from `init` until `release`, and holds what was queued since the
/// last flush.
pub struct RawOutput {
    output: Vec<u8>,
    raw: bool,
    operations: Ghost<Seq<QueueOperationView>>,
}

impl RawOutput {
    /// The operations queued since the last flush.
    pub closed spec fn operations(&self) -> Seq<QueueOperationView> {
        self.operations@
    }

    /// The bytes queued since the last flush.
    pub closed spec fn queued(&self) -> Seq<u8> {
        self.output@
    }

    /// Whether the terminal is held in raw mode.
    pub closed spec fn raw_mode(&self) -> bool {
        self.raw
    }

    /// The queued bytes are those of the queued operations, in order.
    pub open spec fn wf(&self) -> bool {
        self.queued() == render(self.operations())
    }

    /// Starts a session: raw mode is on and nothing is queued.
    pub fn init() -> (sink: Self)
        ensures
            sink.wf(),
            sink.raw_mode(),
            sink.operations() == Seq::<QueueOperationView>::empty(),
    {
        RawOutput { output: Vec::new(), raw: true, operations: Ghost(Seq::empty()) }
    }

    /// Hands out everything queued as one batch for a single write, and
    /// starts a new batch.
    pub fn flush(&mut self) -> (batch: Vec<u8>)
        requires
            old(self).wf(),
        ensures
            final(self).wf(),
            batch@ == render(old(self).operations()),
            final(self).operations() == Seq::<QueueOperationView>::empty(),
            final(self).raw_mode() == old(self).raw_mode(),
    {
        let mut batch: Vec<u8> = Vec::new();
        std::mem::swap(&mut self.output, &mut batch);
        self.operations = Ghost(Seq::empty());
        batch
    }

    /// Queues one operation: the line is erased, then the text is printed
    /// from the first column.
    pub fn queue(&mut self, op: QueueOperation) -> (result: std::io::Result<()>)
        requires
            old(self).wf(),
        ensures
            final(self).wf(),
            result is Ok,
            final(self).operations() == old(self).operations().push(op@),
            final(self).queued() == old(self).queued() + op@.sequence(),
            final(self).raw_mode() == old(self).raw_mode(),
    {
        match write_clear(&mut self.output, ClearType::CurrentLine) {
            Ok(()) => {},
            Err(e) => {
                return Err(e);
            },
        }
        let mut text = String::from_str("\r");
        proof {
            reveal_strlit("\r");
            reveal_strlit("\n\r");
        }
        match &op {
            QueueOperation::Print(line) => {
                text.append(line.as_str());
            },
            QueueOperation::PrintLine(line) => {
                text.append(line.as_str());
                text.append("\n\r");
            },
        }
        assert(text@ =~= op@.text());
        let result = write_text(&mut self.output, text.as_str());
        proof {
            lemma_render_push(self.operations@, op@);
            assert(self.output@ =~= old(self).output@ + op@.sequence());
        }
        self.operations = Ghost(self.operations@.push(op@));
        result
    }

    /// Queues a whole line and flushes at once.
    pub fn println(&mut self, line: &str) -> (batch: Vec<u8>)
        requires
            old(self).wf(),
        ensures
            final(self).wf(),
            batch@ == render(old(self).operations().push(QueueOperationView::PrintLine(line@))),
            final(self).operations() == Seq::<QueueOperationView>::empty(),
            final(self).raw_mode() == old(self).raw_mode(),
    {
        let _ = self.queue(QueueOperation::PrintLine(line.to_owned()));
        self.flush()
    }

    /// Queues a redraw of the current line and flushes at once.
    pub fn print(&mut self, line: &str) -> (batch: Vec<u8>)
        requires
            old(self).wf(),
        ensures
            final(self).wf(),
            batch@ == render(old(self).operations().push(QueueOperationView::Print(line@))),
            final(self).operations() == Seq::<QueueOperationView>::empty(),
            final(self).raw_mode() == old(self).raw_mode(),
    {
        let _ = self.queue(QueueOperation::Print(line.to_owned()));
        self.flush()
    }

    /// Gives the terminal back: raw mode is off from here on. What is queued
    /// stays queued.
    pub fn release(&mut self)
        ensures
            !final(self).raw_mode(),
            final(self).operations() == old(self).operations(),
            final(self).queued() == old(self).queued(),
    {
        self.raw = false;
    }

    pub fn is_raw(&self) -> (raw: bool)
        ensures
            raw == self.raw_mode(),
    {
        self.raw
    }
}

/// Where the bytes of operation `index` start in the rendering of a run.
pub open spec fn operation_offset(operations: Seq<QueueOperationView>, index: int) -> int {
    render(operations.subrange(0, index)).len() as int
}

/// In what a run of operations puts on the terminal, the bytes of every
/// single operation begin with the erasing of the current line: nothing is
/// printed over what an earlier operation left on the line.
pub proof fn lemma_render_erases_before_each(operations: Seq<QueueOperationView>, index: int)
    requires
        0 <= index < operations.len(),
    ensures
        operation_offset(operations, index) + 4 <= render(operations).len(),
        render(operations).subrange(
            operation_offset(operations, index),
            operation_offset(operations, index) + 4,
        ) == erase_line(),
{
    let before = operations.subrange(0, index);
    let after = operations.subrange(index + 1, operations.len() as int);
    let this = operations[index];
    assert(operations =~= before.push(this) + after);
    lemma_render_concat(before.push(this), after);
    lemma_render_push(before, this);
    lemma_operation_erases_first(this);
    let offset = operation_offset(operations, index);
    assert(render(operations) =~= render(before) + this.sequence() + render(after));
    assert(render(operations).subrange(offset, offset + 4) =~= this.sequence().subrange(0, 4));
}

} // verus!
