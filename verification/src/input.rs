//! The line the user is typing and has not sent yet.

use vstd::prelude::*;
use vstd::string::StringExecFns;

verus! {

/// Unsent user input, with a flag that says whether it changed since it was
/// last drawn.
pub struct InputLineBuffer {
    content: String,
    dirty: bool,
}

impl View for InputLineBuffer {
    type V = Seq<char>;

    closed spec fn view(&self) -> Seq<char> {
        self.content@
    }
}

impl InputLineBuffer {
    /// Whether an edit happened that has not been drawn yet.
    pub closed spec fn pending(&self) -> bool {
        self.dirty
    }

    pub fn new() -> (buffer: Self)
        ensures
            buffer@ == Seq::<char>::empty(),
            !buffer.pending(),
    {
        InputLineBuffer { content: String::new(), dirty: false }
    }

    /// Appends one character. Any character is accepted.
    pub fn insert(&mut self, c: char)
        ensures
            final(self)@ == old(self)@.push(c),
            final(self).pending(),
    {
        self.content.push(c);
        self.dirty = true;
    }

    /// Removes the last character; does nothing at all on an empty buffer.
    pub fn backspace(&mut self)
        ensures
            final(self)@ == erased(old(self)@),
            final(self).pending() == (old(self).pending() || old(self)@.len() > 0),
    {
        let removed = self.content.pop();
        if removed.is_some() {
            self.dirty = true;
        }
    }

    /// Hands out the whole content and leaves the buffer empty, with no
    /// edit pending: content and flag are cleared together.
    pub fn take(&mut self) -> (line: String)
        ensures
            line@ == old(self)@,
            final(self)@ == Seq::<char>::empty(),
            !final(self).pending(),
    {
        let mut line = String::new();
        std::mem::swap(&mut self.content, &mut line);
        self.dirty = false;
        line
    }

    pub fn is_empty(&self) -> (empty: bool)
        ensures
            empty == (self@.len() == 0),
    {
        self.content.as_str().is_empty()
    }

    /// The current content.
    pub fn value(&self) -> (text: &str)
        ensures
            text@ == self@,
    {
        self.content.as_str()
    }

    pub fn has_pending_edits(&self) -> (pending: bool)
        ensures
            pending == self.pending(),
    {
        self.dirty
    }

    /// Puts a line back in front of the content.
    pub fn restore(&mut self, line: &str)
        ensures
            final(self)@ == line@ + old(self)@,
            final(self).pending(),
    {
        let mut content = String::from_str(line);
        content.append(self.content.as_str());
        self.content = content;
        self.dirty = true;
    }

    /// Records that the current content is on screen.
    pub fn mark_drawn(&mut self)
        ensures
            final(self)@ == old(self)@,
            !final(self).pending(),
    {
        self.dirty = false;
    }
}

/// The content after a run of insertions.
pub open spec fn inserted(content: Seq<char>, typed: Seq<char>) -> Seq<char>
    decreases typed.len(),
{
    if typed.len() == 0 {
        content
    } else {
        inserted(content, typed.drop_last()).push(typed.last())
    }
}

/// The content after one backspace.
pub open spec fn erased(content: Seq<char>) -> Seq<char> {
    if content.len() > 0 {
        content.drop_last()
    } else {
        content
    }
}

/// The content after `count` backspaces.
pub open spec fn erased_times(content: Seq<char>, count: nat) -> Seq<char>
    decreases count,
{
    if count == 0 {
        content
    } else {
        erased_times(erased(content), (count - 1) as nat)
    }
}

/// Inserting any characters and then pressing backspace once for each of
/// them gives back the content there was before.
pub proof fn lemma_backspace_undoes_insert(content: Seq<char>, typed: Seq<char>)
    ensures
        erased_times(inserted(content, typed), typed.len()) == content,
    decreases typed.len(),
{
    if typed.len() > 0 {
        let before = inserted(content, typed.drop_last());
        assert(erased(before.push(typed.last())) =~= before);
        lemma_backspace_undoes_insert(content, typed.drop_last());
    }
}

/// Insertions only append: what was typed follows what was there.
pub proof fn lemma_inserted_appends(content: Seq<char>, typed: Seq<char>)
    ensures
        inserted(content, typed) == content + typed,
    decreases typed.len(),
{
    if typed.len() == 0 {
        assert(content + typed =~= content);
    } else {
        lemma_inserted_appends(content, typed.drop_last());
        assert(content + typed =~= (content + typed.drop_last()).push(typed.last()));
    }
}

} // verus!
