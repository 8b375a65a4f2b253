//! The terminal control sequences, written by crossterm into a byte buffer.
//!
//! What is said here of crossterm holds where it writes ANSI sequences: on
//! every system but a Windows console without support for them, where
//! crossterm calls the console instead and writes no sequence.

use crate::text::decimal_digits;
use crossterm::cursor::MoveToColumn;
use crossterm::style::Print;
use crossterm::terminal::Clear;
use crossterm::QueueableCommand;
use vstd::prelude::*;
use vstd::utf8::encode_utf8;

verus! {

/// What part of the screen a clear command wipes.
#[derive(Clone, Copy, Debug, PartialEq, Eq, Structural)]
pub enum ClearType {
    All,
    Purge,
    FromCursorDown,
    FromCursorUp,
    CurrentLine,
    UntilNewLine,
}

pub const ESCAPE: u8 = 0x1bu8;

/// `ESC [`, which opens every control sequence.
pub open spec fn csi() -> Seq<u8> {
    seq![ESCAPE, 0x5bu8]
}

/// The bytes that clear the given part of the screen.
pub open spec fn clear_sequence(kind: ClearType) -> Seq<u8> {
    match kind {
        ClearType::All => csi() + seq![0x32u8, 0x4au8],
        ClearType::Purge => csi() + seq![0x33u8, 0x4au8],
        ClearType::FromCursorDown => csi() + seq![0x4au8],
        ClearType::FromCursorUp => csi() + seq![0x31u8, 0x4au8],
        ClearType::CurrentLine => csi() + seq![0x32u8, 0x4bu8],
        ClearType::UntilNewLine => csi() + seq![0x4bu8],
    }
}

/// The bytes that move the cursor to a column of the current row: `ESC [`,
/// the column in decimal, and `G`. The terminal counts columns from 1.
/// Column 0 takes no bytes at all: the cursor then stays where it is.
pub open spec fn move_to_column_sequence(column: u16) -> Seq<u8> {
    if column == 0 {
        Seq::empty()
    } else {
        csi() + encode_utf8(decimal_digits(column as nat)) + seq![0x47u8]
    }
}

/// Queues crossterm's `MoveToColumn` on a byte buffer: the buffer grows by
/// `ESC [ column G`, or by nothing for column 0, and the call cannot fail.
/// This is what crossterm writes as ANSI; see the note on Windows above.
#[verifier::external_body]
pub(crate) fn write_move_to_column(output: &mut Vec<u8>, column: u16) -> (result: Result<
    (),
    std::io::Error,
>)
    ensures
        result is Ok,
        final(output)@ == old(output)@ + move_to_column_sequence(column),
{
    output.queue(MoveToColumn(column)).map(|_| ())
}

/// Queues crossterm's `Clear` on a byte buffer: the buffer grows by the
/// erase sequence of the given kind, and the call cannot fail. This is what
/// crossterm writes as ANSI; see the note on Windows above.
#[verifier::external_body]
pub(crate) fn write_clear(output: &mut Vec<u8>, kind: ClearType) -> (result: Result<
    (),
    std::io::Error,
>)
    ensures
        result is Ok,
        final(output)@ == old(output)@ + clear_sequence(kind),
{
    let kind = match kind {
        ClearType::All => crossterm::terminal::ClearType::All,
        ClearType::Purge => crossterm::terminal::ClearType::Purge,
        ClearType::FromCursorDown => crossterm::terminal::ClearType::FromCursorDown,
        ClearType::FromCursorUp => crossterm::terminal::ClearType::FromCursorUp,
        ClearType::CurrentLine => crossterm::terminal::ClearType::CurrentLine,
        ClearType::UntilNewLine => crossterm::terminal::ClearType::UntilNewLine,
    };
    output.queue(Clear(kind)).map(|_| ())
}

/// Queues crossterm's `Print` of a string on a byte buffer: the buffer
/// grows by the string's UTF-8 bytes, and the call cannot fail. `Print` is
/// written as it is on every system.
#[verifier::external_body]
pub(crate) fn write_text(output: &mut Vec<u8>, text: &str) -> (result: Result<(), std::io::Error>)
    ensures
        result is Ok,
        final(output)@ == old(output)@ + encode_utf8(text@),
{
    output.queue(Print(text)).map(|_| ())
}

/// `ESC [ 38 ; 5 ; n m`, which selects entry `n` of the palette as the
/// foreground colour.
pub open spec fn foreground_sequence(palette: nat) -> Seq<char> {
    seq!['\x1b', '[', '3', '8', ';', '5', ';'] + decimal_digits(palette) + seq!['m']
}

/// `ESC [ 39 m`, which puts the default foreground colour back.
pub open spec fn foreground_reset() -> Seq<char> {
    seq!['\x1b', '[', '3', '9', 'm']
}

/// Text shown in the given palette colour and nothing else changed: the
/// colour is selected before the text and reset after it.
pub open spec fn coloured(palette: nat, text: Seq<char>) -> Seq<char> {
    foreground_sequence(palette) + text + foreground_reset()
}

/// crossterm's `Stylize::cyan` on a string, written out: the text between
/// the selection of palette entry 14 and the foreground reset. This is what
/// crossterm writes as ANSI; see the note on Windows above.
#[verifier::external_body]
pub(crate) fn cyan(text: &str) -> (styled: String)
    ensures
        styled@ == coloured(14, text@),
{
    crossterm::style::Stylize::cyan(text).to_string()
}

/// crossterm's `Stylize::dark_grey` on a string, written out: the text
/// between the selection of palette entry 8 and the foreground reset. This
/// is what crossterm writes as ANSI; see the note on Windows above.
#[verifier::external_body]
pub(crate) fn dark_grey(text: &str) -> (styled: String)
    ensures
        styled@ == coloured(8, text@),
{
    crossterm::style::Stylize::dark_grey(text).to_string()
}

} // verus!
