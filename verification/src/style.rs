//! Terminal styling of report lines.
use vstd::prelude::*;

verus! {

#[derive(Clone, Copy, Debug, PartialEq, Eq, Structural)]
pub enum Color {
    Red,
    Yellow,
    Blue,
    Green,
}

/// How a stretch of text is set off on a terminal.
#[derive(Clone, Copy, Debug, PartialEq, Eq, Structural)]
pub struct TextStyle {
    pub color: Option<Color>,
    pub bold: bool,
    pub dimmed: bool,
}

pub open spec fn color_code(c: Color) -> Seq<char> {
    match c {
        Color::Red => "\x1b[31m"@,
        Color::Green => "\x1b[32m"@,
        Color::Yellow => "\x1b[33m"@,
        Color::Blue => "\x1b[34m"@,
    }
}

/// The escape codes that switch a style on: effects first, then the color.
pub open spec fn style_start(s: TextStyle) -> Seq<char> {
    (if s.bold {
        "\x1b[1m"@
    } else {
        seq![]
    }) + (if s.dimmed {
        "\x1b[2m"@
    } else {
        seq![]
    }) + (match s.color {
        Some(c) => color_code(c),
        None => seq![],
    })
}

/// The escape code that switches a style off, where there is anything to switch off.
pub open spec fn style_end(s: TextStyle) -> Seq<char> {
    if s.bold || s.dimmed || s.color is Some {
        "\x1b[0m"@
    } else {
        seq![]
    }
}

/// A text set in a style.
pub open spec fn styled(s: TextStyle, text: Seq<char>) -> Seq<char> {
    style_start(s) + text + style_end(s)
}

/// Formatting an `anstyle::Style` writes the escape codes that switch it on.
#[verifier::external_body]
fn ansi_start(s: TextStyle) -> (r: String)
    ensures
        r@ == style_start(s),
{
    let color = s.color.map(|c| match c {
        Color::Red => anstyle::AnsiColor::Red,
        Color::Yellow => anstyle::AnsiColor::Yellow,
        Color::Blue => anstyle::AnsiColor::Blue,
        Color::Green => anstyle::AnsiColor::Green,
    });
    let on = anstyle::Effects::new()
        .set(anstyle::Effects::BOLD, s.bold)
        .set(anstyle::Effects::DIMMED, s.dimmed);
    format!("{}", anstyle::Style::new().effects(on).fg_color(color.map(anstyle::Color::Ansi)))
}

/// Formatting an `anstyle::Style` with the alternate flag writes the reset code, or
/// nothing for the plain style.
#[verifier::external_body]
fn ansi_end(s: TextStyle) -> (r: String)
    ensures
        r@ == style_end(s),
{
    let color = s.color.map(|c| match c {
        Color::Red => anstyle::AnsiColor::Red,
        Color::Yellow => anstyle::AnsiColor::Yellow,
        Color::Blue => anstyle::AnsiColor::Blue,
        Color::Green => anstyle::AnsiColor::Green,
    });
    let on = anstyle::Effects::new()
        .set(anstyle::Effects::BOLD, s.bold)
        .set(anstyle::Effects::DIMMED, s.dimmed);
    format!("{:#}", anstyle::Style::new().effects(on).fg_color(color.map(anstyle::Color::Ansi)))
}

/// A text set in a style.
pub fn styled_text(s: TextStyle, text: &str) -> (r: String)
    ensures
        r@ == styled(s, text@),
{
    let mut out = ansi_start(s);
    out.append(text);
    out.append(ansi_end(s).as_str());
    out
}

pub open spec fn dim_style() -> TextStyle {
    TextStyle { color: None, bold: false, dimmed: true }
}

pub open spec fn bold_style() -> TextStyle {
    TextStyle { color: None, bold: true, dimmed: false }
}

pub open spec fn color_style(c: Color) -> TextStyle {
    TextStyle { color: Some(c), bold: false, dimmed: false }
}

pub open spec fn bold_red_style() -> TextStyle {
    TextStyle { color: Some(Color::Red), bold: true, dimmed: false }
}

pub fn dim() -> (r: TextStyle)
    ensures
        r == dim_style(),
{
    TextStyle { color: None, bold: false, dimmed: true }
}

pub fn bold() -> (r: TextStyle)
    ensures
        r == bold_style(),
{
    TextStyle { color: None, bold: true, dimmed: false }
}

pub fn colored(c: Color) -> (r: TextStyle)
    ensures
        r == color_style(c),
{
    TextStyle { color: Some(c), bold: false, dimmed: false }
}

pub fn bold_red() -> (r: TextStyle)
    ensures
        r == bold_red_style(),
{
    TextStyle { color: Some(Color::Red), bold: true, dimmed: false }
}

} // verus!
