//! How the lines of the panels look.
use crate::logger::Level;
use crate::text::contains;
use crate::text::ends_with;
use crate::text::occurs_in;
use crate::text::same_text;
use crate::text::starts_with;
use vstd::prelude::*;

verus! {

/// A colour of the terminal.
#[derive(Debug, Clone, Copy, PartialEq, Eq, Structural)]
pub enum Color {
    Green,
    Red,
    White,
    Cyan,
    Yellow,
    Blue,
    Gray,
    DarkGray,
}

/// How a line looks.
#[derive(Debug, Clone, Copy, PartialEq, Eq, Structural)]
pub struct Style {
    pub fg: Option<Color>,
    pub bg: Option<Color>,
    pub bold: bool,
}

/// Text in a colour.
pub open spec fn plain_style(color: Color) -> Style {
    Style { fg: Some(color), bg: None, bold: false }
}

/// Bold text in a colour.
pub open spec fn bold_style(color: Color) -> Style {
    Style { fg: Some(color), bg: None, bold: true }
}

/// Text in a colour.
fn plain(color: Color) -> (r: Style)
    ensures
        r == plain_style(color),
{
    Style { fg: Some(color), bg: None, bold: false }
}

/// Bold text in a colour.
fn bold(color: Color) -> (r: Style)
    ensures
        r == bold_style(color),
{
    Style { fg: Some(color), bg: None, bold: true }
}

/// What kind of lines a panel shows.
#[derive(Debug, Clone, Copy, PartialEq, Eq, Structural)]
pub enum LineKind {
    /// The summary of the execution state.
    Summary,
    /// Instructions or source code.
    Code,
    /// Signals and their values.
    Signals,
    /// Commands and their output.
    Commands,
    /// Help.
    Help,
}

/// How the line at position `i` of a panel looks.
pub open spec fn line_style(kind: LineKind, i: int, line: Seq<char>) -> Style {
    match kind {
        LineKind::Summary => code_style(line, "Error"@),
        LineKind::Code => code_style(line, "Error:"@),
        LineKind::Signals => if i == 0 && " ps"@.is_suffix_of(line) {
            bold_style(Color::Cyan)
        } else if "Error:"@.is_prefix_of(line) || "Error "@.is_prefix_of(line) {
            plain_style(Color::Red)
        } else if line == "no waves found"@ || line == "No signals selected"@ {
            plain_style(Color::Yellow)
        } else {
            plain_style(Color::White)
        },
        LineKind::Commands => if "(jpdb)"@.is_prefix_of(line) {
            bold_style(Color::Cyan)
        } else if "error:"@.is_prefix_of(line) {
            plain_style(Color::Red)
        } else {
            plain_style(Color::White)
        },
        LineKind::Help => if "Current command"@.is_prefix_of(line) || "Help for"@.is_prefix_of(
            line,
        ) {
            bold_style(Color::Cyan)
        } else if "  "@.is_prefix_of(line) && occurs_in("--"@, line) {
            plain_style(Color::Yellow)
        } else if is_help_heading(line) {
            bold_style(Color::Green)
        } else {
            plain_style(Color::White)
        },
    }
}

/// Where the program stands is green, what begins as an error does is red.
pub open spec fn code_style(line: Seq<char>, error: Seq<char>) -> Style {
    if "->"@.is_prefix_of(line) {
        bold_style(Color::Green)
    } else if error.is_prefix_of(line) {
        plain_style(Color::Red)
    } else {
        plain_style(Color::White)
    }
}

/// The lines that head a part of the help.
pub open spec fn is_help_heading(line: Seq<char>) -> bool {
    ||| "Keyboard shortcuts:"@.is_prefix_of(line)
    ||| "Description:"@.is_prefix_of(line)
    ||| "Usage:"@.is_prefix_of(line)
    ||| "Aliases:"@.is_prefix_of(line)
    ||| "Examples:"@.is_prefix_of(line)
}

/// How a line of code looks.
fn style_of_code(line: &str, error: &str) -> (r: Style)
    ensures
        r == code_style(line@, error@),
{
    if starts_with(line, "->") {
        bold(Color::Green)
    } else if starts_with(line, error) {
        plain(Color::Red)
    } else {
        plain(Color::White)
    }
}

/// How the line at position `i` of a panel looks.
pub fn style_of(kind: LineKind, i: usize, line: &str) -> (r: Style)
    ensures
        r == line_style(kind, i as int, line@),
{
    match kind {
        LineKind::Summary => style_of_code(line, "Error"),
        LineKind::Code => style_of_code(line, "Error:"),
        LineKind::Signals => if i == 0 && ends_with(line, " ps") {
            bold(Color::Cyan)
        } else if starts_with(line, "Error:") || starts_with(line, "Error ") {
            plain(Color::Red)
        } else if same_text(line, "no waves found") || same_text(line, "No signals selected") {
            plain(Color::Yellow)
        } else {
            plain(Color::White)
        },
        LineKind::Commands => if starts_with(line, "(jpdb)") {
            bold(Color::Cyan)
        } else if starts_with(line, "error:") {
            plain(Color::Red)
        } else {
            plain(Color::White)
        },
        LineKind::Help => if starts_with(line, "Current command") || starts_with(line, "Help for") {
            bold(Color::Cyan)
        } else if starts_with(line, "  ") && contains(line, "--") {
            plain(Color::Yellow)
        } else if starts_with(line, "Keyboard shortcuts:") || starts_with(line, "Description:")
            || starts_with(line, "Usage:") || starts_with(line, "Aliases:") || starts_with(
            line,
            "Examples:",
        ) {
            bold(Color::Green)
        } else {
            plain(Color::White)
        },
    }
}

/// How a log message looks.
pub open spec fn level_style(level: Level) -> Style {
    match level {
        Level::Error => plain_style(Color::Red),
        Level::Warn => plain_style(Color::Yellow),
        Level::Info => plain_style(Color::Blue),
        Level::Debug => plain_style(Color::Gray),
        Level::Trace => plain_style(Color::DarkGray),
    }
}

/// How a log message looks.
pub fn style_of_level(level: Level) -> (r: Style)
    ensures
        r == level_style(level),
{
    match level {
        Level::Error => plain(Color::Red),
        Level::Warn => plain(Color::Yellow),
        Level::Info => plain(Color::Blue),
        Level::Debug => plain(Color::Gray),
        Level::Trace => plain(Color::DarkGray),
    }
}

/// How an offered signal looks: the marked one stands on blue.
pub open spec fn match_style(marked: bool) -> Style {
    if marked {
        Style { fg: Some(Color::White), bg: Some(Color::Blue), bold: true }
    } else {
        plain_style(Color::White)
    }
}

/// How an offered signal looks: the marked one stands on blue.
pub fn style_of_match(marked: bool) -> (r: Style)
    ensures
        r == match_style(marked),
{
    if marked {
        Style { fg: Some(Color::White), bg: Some(Color::Blue), bold: true }
    } else {
        plain(Color::White)
    }
}

} // verus!
