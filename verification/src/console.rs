//! Console lines of the call channel: the direction marker and colour of each
//! kind of line, for ordinary lines and for errors.

use vstd::prelude::*;

use crate::logger::LogColor;
use crate::text::concat_text;

verus! {

/// What a console line is about, and in which direction it went.
#[derive(Debug, Clone, Copy, PartialEq, Eq, Structural)]
pub enum PrintType {
    IotaIn,
    IotaOut,
    OmegaIn,
    OmegaOut,
    ClientIn,
    ClientOut,
    General,
}

/// The colour of a line: yellow for iota inbound, purple for iota outbound,
/// cyan for omega, green for client inbound, blue for client outbound; white
/// for general lines, red for general errors.
pub open spec fn line_color(key: PrintType, is_error: bool) -> LogColor {
    match key {
        PrintType::IotaIn => LogColor::Yellow,
        PrintType::IotaOut => LogColor::Purple,
        PrintType::OmegaIn => LogColor::Cyan,
        PrintType::OmegaOut => LogColor::Cyan,
        PrintType::ClientIn => LogColor::Green,
        PrintType::ClientOut => LogColor::Blue,
        PrintType::General => if is_error {
            LogColor::Red
        } else {
            LogColor::White
        },
    }
}

/// The marker before a line: `>` inbound, `<` outbound, doubled for errors,
/// none for general lines.
pub open spec fn line_marker(key: PrintType, is_error: bool) -> Seq<char> {
    match key {
        PrintType::IotaIn | PrintType::OmegaIn | PrintType::ClientIn => if is_error {
            ">>"@
        } else {
            ">"@
        },
        PrintType::IotaOut | PrintType::OmegaOut | PrintType::ClientOut => if is_error {
            "<<"@
        } else {
            "<"@
        },
        PrintType::General => Seq::empty(),
    }
}

/// The colour and text of a line.
fn decorate(key: PrintType, message: &str, is_error: bool) -> (r: (LogColor, String))
    ensures
        r.0 == line_color(key, is_error),
        r.1@ == line_marker(key, is_error) + message@,
{
    proof {
        reveal_strlit(">>");
        reveal_strlit(">");
        reveal_strlit("<<");
        reveal_strlit("<");
        reveal_strlit("");
        assert(""@ =~= Seq::<char>::empty());
    }
    let (color, marker) = match key {
        PrintType::IotaIn => (LogColor::Yellow, if is_error { ">>" } else { ">" }),
        PrintType::IotaOut => (LogColor::Purple, if is_error { "<<" } else { "<" }),
        PrintType::OmegaIn => (LogColor::Cyan, if is_error { ">>" } else { ">" }),
        PrintType::OmegaOut => (LogColor::Cyan, if is_error { "<<" } else { "<" }),
        PrintType::ClientIn => (LogColor::Green, if is_error { ">>" } else { ">" }),
        PrintType::ClientOut => (LogColor::Blue, if is_error { "<<" } else { "<" }),
        PrintType::General => (if is_error { LogColor::Red } else { LogColor::White }, ""),
    };
    (color, concat_text(marker, message))
}

/// An ordinary line: its colour and text.
pub fn line(key: PrintType, message: &str) -> (r: (LogColor, String))
    ensures
        r.0 == line_color(key, false),
        r.1@ == line_marker(key, false) + message@,
{
    decorate(key, message, false)
}

/// An error line: its colour and text.
pub fn line_err(key: PrintType, message: &str) -> (r: (LogColor, String))
    ensures
        r.0 == line_color(key, true),
        r.1@ == line_marker(key, true) + message@,
{
    decorate(key, message, true)
}

} // verus!
