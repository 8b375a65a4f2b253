//! Queueing whole lines on a writer that is a byte buffer.

use crate::ansi::{
    clear_sequence, coloured, dark_grey, move_to_column_sequence, write_clear,
    write_move_to_column, write_text, ClearType,
};
use crate::input::InputLineBuffer;
use std::io;
use vstd::prelude::*;
use vstd::utf8::encode_utf8;

verus! {

/// The column at the start of a line. The terminal counts columns from 1.
pub const FIRST_COLUMN: u16 = 1u16;

/// What `queue_clear_line` writes: the move to the first column, and the
/// erasing of the line from there on.
pub open spec fn clear_line_sequence() -> Seq<u8> {
    move_to_column_sequence(FIRST_COLUMN) + clear_sequence(ClearType::UntilNewLine)
}

/// What `queue_newline` writes: line feed, then carriage return.
pub open spec fn newline_sequence() -> Seq<u8> {
    seq![10u8, 13u8]
}

/// What `queue_line` writes for a line.
pub open spec fn line_sequence(line: Seq<char>) -> Seq<u8> {
    clear_line_sequence() + encode_utf8(line) + newline_sequence()
}

/// Clears the current line and moves the cursor to the start of the line
pub fn queue_clear_line(output: &mut Vec<u8>) -> (result: io::Result<()>)
    ensures
        result is Ok,
        final(output)@ == old(output)@ + clear_line_sequence(),
{
    match write_move_to_column(output, FIRST_COLUMN) {
        Ok(()) => {},
        Err(e) => {
            return Err(e);
        },
    }
    let result = write_clear(output, ClearType::UntilNewLine);
    assert(output@ =~= old(output)@ + clear_line_sequence());
    result
}

/// Moves the cursor to the start of the next line
pub fn queue_newline(output: &mut Vec<u8>) -> (result: io::Result<()>)
    ensures
        result is Ok,
        final(output)@ == old(output)@ + newline_sequence(),
{
    let result = write_text(output, "\n\r");
    proof {
        lemma_newline_bytes();
    }
    result
}

/// Queues a print operation to the given writer
pub fn queue_print(output: &mut Vec<u8>, line: &str) -> (result: io::Result<()>)
    ensures
        result is Ok,
        final(output)@ == old(output)@ + encode_utf8(line@),
{
    write_text(output, line)
}

/// Clears the line and draws to it, starting at the beginning of the line
pub fn queue_line(output: &mut Vec<u8>, line: &str) -> (result: io::Result<()>)
    ensures
        result is Ok,
        final(output)@ == old(output)@ + line_sequence(line@),
{
    match queue_clear_line(output) {
        Ok(()) => {},
        Err(e) => {
            return Err(e);
        },
    }
    match queue_print(output, line) {
        Ok(()) => {},
        Err(e) => {
            return Err(e);
        },
    }
    let result = queue_newline(output);
    assert(output@ =~= old(output)@ + line_sequence(line@));
    result
}

/// The two characters of the line break encode as themselves.
pub proof fn lemma_newline_bytes()
    ensures
        encode_utf8("\n\r"@) == newline_sequence(),
{
    reveal_strlit("\n\r");
    vstd::utf8::is_ascii_chars_encode_utf8("\n\r"@);
    assert(encode_utf8("\n\r"@) =~= newline_sequence());
}

/// What `draw_input` writes: the line is cleared, then comes the prompt
/// mark in dark grey, then the line being typed.
pub open spec fn input_sequence(input: Seq<char>) -> Seq<u8> {
    clear_line_sequence() + encode_utf8(coloured(8, "> "@)) + encode_utf8(input)
}

/// Redraws the line the user is typing.
pub fn draw_input(output: &mut Vec<u8>, input: &InputLineBuffer) -> (result: io::Result<()>)
    ensures
        result is Ok,
        final(output)@ == old(output)@ + input_sequence(input@),
{
    match queue_clear_line(output) {
        Ok(()) => {},
        Err(e) => {
            return Err(e);
        },
    }
    let mark = dark_grey("> ");
    match queue_print(output, mark.as_str()) {
        Ok(()) => {},
        Err(e) => {
            return Err(e);
        },
    }
    let result = queue_print(output, input.value());
    assert(output@ =~= old(output)@ + input_sequence(input@));
    result
}

} // verus!
