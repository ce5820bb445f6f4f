//! Styled text: the colours and attributes of the interface, and the lines
//! of styled pieces that a frame is made of.

use crate::text::{frames, holds_text, join, joined};
use crossterm::style::{ContentStyle, Stylize};
use vstd::prelude::*;

verus! {

/// The colours the interface uses.
#[derive(Clone, Copy, Debug, PartialEq, Eq)]
pub enum Tint {
    Black,
    Blue,
    Cyan,
    DarkGreen,
    DarkYellow,
    Magenta,
    White,
}

/// How a piece of text is shown.
#[derive(Clone, Copy, Debug, PartialEq, Eq)]
pub struct Style {
    pub foreground: Option<Tint>,
    pub background: Option<Tint>,
    pub bold: bool,
    pub underlined: bool,
}

/// No colour and no attribute.
pub open spec fn plain() -> Style {
    Style { foreground: None, background: None, bold: false, underlined: false }
}

/// Text in the colour `color`.
pub open spec fn colored(color: Tint) -> Style {
    Style { foreground: Some(color), ..plain() }
}

/// Bold black text on the colour `color`, as the section titles are shown.
pub open spec fn badge(color: Tint) -> Style {
    Style { foreground: Some(Tint::Black), background: Some(color), bold: true, underlined: false }
}

/// Black text on white, as the highlighted key of a row is shown.
pub open spec fn highlighted() -> Style {
    Style { foreground: Some(Tint::Black), background: Some(Tint::White), ..plain() }
}

/// Underlined text in the colour `color`.
pub open spec fn underlined(color: Tint) -> Style {
    Style { foreground: Some(color), underlined: true, ..plain() }
}

impl Style {
    /// No colour and no attribute.
    pub fn plain() -> (style: Style)
        ensures
            style == plain(),
    {
        Style { foreground: None, background: None, bold: false, underlined: false }
    }

    /// Text in the colour `color`.
    pub fn colored(color: Tint) -> (style: Style)
        ensures
            style == colored(color),
    {
        Style { foreground: Some(color), background: None, bold: false, underlined: false }
    }

    /// Bold black text on the colour `color`.
    pub fn badge(color: Tint) -> (style: Style)
        ensures
            style == badge(color),
    {
        Style {
            foreground: Some(Tint::Black),
            background: Some(color),
            bold: true,
            underlined: false,
        }
    }

    /// Black text on white.
    pub fn highlighted() -> (style: Style)
        ensures
            style == highlighted(),
    {
        Style {
            foreground: Some(Tint::Black),
            background: Some(Tint::White),
            bold: false,
            underlined: false,
        }
    }

    /// Underlined text in the colour `color`.
    pub fn underlined(color: Tint) -> (style: Style)
        ensures
            style == underlined(color),
    {
        Style { foreground: Some(color), background: None, bold: false, underlined: true }
    }
}

/// A piece of text with its style.
#[derive(Debug, PartialEq, Eq)]
pub struct Span {
    pub text: String,
    pub style: Style,
}

/// Mathematical model of a [`Span`].
pub struct SpanView {
    pub text: Seq<char>,
    pub style: Style,
}

impl DeepView for Span {
    type V = SpanView;

    open spec fn deep_view(&self) -> SpanView {
        SpanView { text: self.text@, style: self.style }
    }
}

/// The piece `text`, shown as `style` says.
pub open spec fn piece(text: Seq<char>, style: Style) -> SpanView {
    SpanView { text, style }
}

impl Span {
    /// The piece `text`, shown as `style` says.
    pub fn new(text: String, style: Style) -> (span: Span)
        ensures
            span.deep_view() == piece(text@, style),
    {
        Span { text, style }
    }

    /// A piece of text without colour or attribute.
    pub fn plain(text: &str) -> (span: Span)
        ensures
            span.deep_view() == piece(text@, plain()),
    {
        Span { text: text.to_owned(), style: Style::plain() }
    }

    /// A piece of text in the given style.
    pub fn styled(text: &str, style: Style) -> (span: Span)
        ensures
            span.deep_view() == piece(text@, style),
    {
        Span { text: text.to_owned(), style }
    }
}

/// Trusted: makes `crossterm::style::ContentStyle`, the colours and
/// attributes that crossterm puts on a text, known as a type. Nothing is
/// known of what a value holds.
#[verifier::external_type_specification]
#[verifier::external_body]
pub struct ExContentStyle(ContentStyle);

/// Trusted: makes `crossterm::style::Color` known as a type. Nothing is
/// known of what a value holds.
#[verifier::external_type_specification]
#[verifier::external_body]
pub struct ExTermColor(crossterm::style::Color);

/// The terminal's colour for one of the interface's colours.
///
/// Trusted: builds the value of `crossterm::style::Color` that bears the
/// same name. Nothing is claimed of the value.
#[verifier::external_body]
fn term_color(tint: Tint) -> crossterm::style::Color {
    match tint {
        Tint::Black => crossterm::style::Color::Black,
        Tint::Blue => crossterm::style::Color::Blue,
        Tint::Cyan => crossterm::style::Color::Cyan,
        Tint::DarkGreen => crossterm::style::Color::DarkGreen,
        Tint::DarkYellow => crossterm::style::Color::DarkYellow,
        Tint::Magenta => crossterm::style::Color::Magenta,
        Tint::White => crossterm::style::Color::White,
    }
}

/// A terminal style that sets nothing.
///
/// Trusted: wraps `ContentStyle::new` of crossterm. Nothing is claimed of
/// the value.
#[verifier::external_body]
fn blank_style() -> ContentStyle {
    ContentStyle::new()
}

/// Trusted: wraps `Stylize::with` of crossterm, which sets the foreground
/// colour of a style. Nothing is claimed of the value.
#[verifier::external_body]
fn with_foreground(style: ContentStyle, color: crossterm::style::Color) -> ContentStyle {
    style.with(color)
}

/// Trusted: wraps `Stylize::on` of crossterm, which sets the background
/// colour of a style. Nothing is claimed of the value.
#[verifier::external_body]
fn with_background(style: ContentStyle, color: crossterm::style::Color) -> ContentStyle {
    style.on(color)
}

/// Trusted: wraps `Stylize::bold` of crossterm, which adds the bold
/// attribute to a style. Nothing is claimed of the value.
#[verifier::external_body]
fn with_bold(style: ContentStyle) -> ContentStyle {
    style.bold()
}

/// Trusted: wraps `Stylize::underlined` of crossterm, which adds the
/// underline attribute to a style. Nothing is claimed of the value.
#[verifier::external_body]
fn with_underline(style: ContentStyle) -> ContentStyle {
    style.underlined()
}

/// The text with the escape sequences that show it in the given style.
///
/// Trusted: wraps `ContentStyle::apply` of crossterm and the `Display` of
/// what it returns. Which sequences are written depends on a variable of
/// the process (colours can be switched off there); and on a Windows
/// console that takes no escape sequences, crossterm sets the style by
/// system calls and writes nothing at all, not even the text. So nothing
/// is claimed of the result.
#[verifier::external_body]
fn apply_style(style: ContentStyle, text: &str) -> String {
    style.apply(text).to_string()
}

/// What goes out for `text` once the terminal library has styled it to
/// `styled`: the styled text where the text stands in it, and the bare
/// text where the library wrote something that leaves the text out.
pub fn framed(styled: String, text: &str) -> (out: String)
    ensures
        out@ == if frames(styled@, text@) {
            styled@
        } else {
            text@
        },
{
    if holds_text(styled.as_str(), text) {
        styled
    } else {
        text.to_owned()
    }
}

/// The text of `span` as it goes to the terminal: the text itself, between
/// what the terminal library writes before and after it for the span's
/// style.
fn paint(span: &Span) -> (painted: String)
    ensures
        frames(painted@, span.text@),
{
    let mut style = blank_style();
    if let Some(color) = span.style.foreground {
        style = with_foreground(style, term_color(color));
    }
    if let Some(color) = span.style.background {
        style = with_background(style, term_color(color));
    }
    if span.style.bold {
        style = with_bold(style);
    }
    if span.style.underlined {
        style = with_underline(style);
    }
    let painted = framed(apply_style(style, span.text.as_str()), span.text.as_str());
    assert(span.text@ =~= Seq::<char>::empty() + span.text@ + Seq::<char>::empty());
    painted
}

/// `text` is a rendering of `line`: one painted text for each piece, in
/// order and with nothing between them, each holding the text of its piece
/// between what the terminal library wrote before and after it.
pub open spec fn renders(text: Seq<char>, line: Seq<SpanView>) -> bool {
    exists|painted: Seq<Seq<char>>|
        {
            &&& painted.len() == line.len()
            &&& text == #[trigger] joined(painted, Seq::empty())
            &&& forall|i: int| 0 <= i < line.len() ==> frames(#[trigger] painted[i], line[i].text)
        }
}

/// The pieces of `line` painted and put one after the other: the text that
/// goes to the terminal for this line.
pub fn render(line: &Vec<Span>) -> (text: String)
    ensures
        renders(text@, line.deep_view()),
{
    let mut pieces: Vec<String> = Vec::new();
    let mut i: usize = 0;
    while i < line.len()
        invariant
            i <= line.len(),
            pieces@.len() == i,
            forall|k: int| 0 <= k < i ==> frames(#[trigger] pieces@[k]@, line@[k].text@),
        decreases line.len() - i,
    {
        pieces.push(paint(&line[i]));
        i += 1;
    }
    let text = join(&pieces, "");
    proof {
        reveal_strlit("");
        assert(""@ =~= Seq::<char>::empty());
        let painted = pieces.deep_view();
        assert(text@ == joined(painted, Seq::empty()));
        assert forall|k: int| 0 <= k < line.deep_view().len() implies frames(
            #[trigger] painted[k],
            line.deep_view()[k].text,
        ) by {
            assert(painted[k] == pieces@[k]@);
        }
    }
    text
}

} // verus!
