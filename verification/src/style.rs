//! Colours and attributes of styled text, as plain values, and crossterm's
//! rendering of them.

use vstd::prelude::*;

verus! {

/// A colour: the terminal's default, an entry of the 256-colour palette, or
/// red, green and blue. The sixteen named colours are the palette entries 0
/// to 15.
#[derive(Clone, Copy, Debug, PartialEq, Eq, Structural)]
pub enum Color {
    Reset,
    AnsiValue(u8),
    Rgb { r: u8, g: u8, b: u8 },
}

/// A text attribute. The variants stand in crossterm's order.
#[derive(Clone, Copy, Debug, PartialEq, Eq, Structural)]
pub enum Attribute {
    Reset,
    Bold,
    Dim,
    Italic,
    Underlined,
    SlowBlink,
    RapidBlink,
    Reverse,
    Hidden,
    CrossedOut,
    Fraktur,
    NoBold,
    NormalIntensity,
    NoItalic,
    NoUnderline,
    NoBlink,
    NoReverse,
    NoHidden,
    NotCrossedOut,
    Framed,
    Encircled,
    OverLined,
    NotFramedOrEncircled,
    NotOverLined,
}

/// The style that can be put on content.
#[derive(Debug, PartialEq, Eq)]
pub struct ContentStyle {
    /// The foreground color.
    pub foreground_color: Option<Color>,
    /// The background color.
    pub background_color: Option<Color>,
    /// The attributes, in the order they were added.
    pub attributes: Vec<Attribute>,
}

/// A [`ContentStyle`] with its attributes as a sequence.
pub ghost struct ContentStyleView {
    pub foreground_color: Option<Color>,
    pub background_color: Option<Color>,
    pub attributes: Seq<Attribute>,
}

impl View for ContentStyle {
    type V = ContentStyleView;

    open spec fn view(&self) -> ContentStyleView {
        ContentStyleView {
            foreground_color: self.foreground_color,
            background_color: self.background_color,
            attributes: self.attributes@,
        }
    }
}

/// Text as crossterm prints it in a style: what `ContentStyle::apply`
/// displays for the text under the given colours and attributes, where
/// crossterm writes ANSI sequences (on every system but a Windows console
/// without support for them).
pub uninterp spec fn styled_text(
    foreground: Option<Color>,
    background: Option<Color>,
    attributes: Seq<Attribute>,
    text: Seq<char>,
) -> Seq<char>;

impl ContentStyleView {
    /// The text as it is printed in this style.
    pub open spec fn apply(self, text: Seq<char>) -> Seq<char> {
        styled_text(self.foreground_color, self.background_color, self.attributes, text)
    }
}

impl ContentStyle {
    /// Creates a new `ContentStyle`: no colour, no attribute.
    pub fn new() -> (style: ContentStyle)
        ensures
            style@ == (ContentStyleView {
                foreground_color: None,
                background_color: None,
                attributes: Seq::empty(),
            }),
    {
        ContentStyle { foreground_color: None, background_color: None, attributes: Vec::new() }
    }

    /// Styles the content with the attribute.
    pub fn attribute(self, attr: Attribute) -> (style: ContentStyle)
        ensures
            style@ == (ContentStyleView { attributes: self@.attributes.push(attr), ..self@ }),
    {
        let mut style = self;
        style.attributes.push(attr);
        style
    }

    /// The text as crossterm prints it in this style.
    pub fn apply(&self, text: &str) -> (styled: String)
        ensures
            styled@ == self@.apply(text@),
    {
        apply_style(self, text)
    }
}

/// crossterm's `ContentStyle::apply` and the `Display` of what it returns,
/// on the crossterm style with the same colours and with each of the
/// attributes set. An attribute is handed over by its place among the
/// variants, which stand here in the order of crossterm's own.
#[verifier::external_body]
fn apply_style(style: &ContentStyle, text: &str) -> (styled: String)
    ensures
        styled@ == styled_text(
            style.foreground_color,
            style.background_color,
            style.attributes@,
            text@,
        ),
{
    let color = |c: Color| match c {
        Color::Reset => crossterm::style::Color::Reset,
        Color::AnsiValue(v) => crossterm::style::Color::AnsiValue(v),
        Color::Rgb { r, g, b } => crossterm::style::Color::Rgb { r, g, b },
    };
    let mut out = crossterm::style::ContentStyle::new();
    out.foreground_color = style.foreground_color.map(color);
    out.background_color = style.background_color.map(color);
    let all = crossterm::style::Attribute::iterator;
    style.attributes.iter().filter_map(|a| all().nth(*a as usize)).for_each(
        |a| out.attributes.set(a),
    );
    out.apply(text).to_string()
}

/// crossterm's `Stylize::stylize` on a string, displayed: with no style set
/// the text comes out as it is, on every system.
#[verifier::external_body]
pub(crate) fn unstyled(text: &str) -> (styled: String)
    ensures
        styled@ == text@,
{
    crossterm::style::Stylize::stylize(text).to_string()
}

} // verus!
