//! The log: its records, the line each becomes (a timestamp and a sender in
//! fixed-width boxes, a direction prefix, the message), the colour it is
//! printed in, and the one-line summary of a message.

use vstd::prelude::*;

use crate::communication::{CommunicationValue, MessageView};
use crate::json::{dump, spec_json_dump, Json, JsonView};
use crate::text::{
    chars_of, concat_text, decimal_int, decimal_nat, i64_to_string, join, join_texts, string_from_chars,
    u128_to_string,
};
use crate::wire::DataTypes;

verus! {

/// The part of the relay a log line is about.
#[derive(Debug, Clone, Copy, PartialEq, Eq, Structural)]
pub enum PrintType {
    Call,
    Client,
    Iota,
    Omikron,
    Omega,
    General,
}

/// The colours of the log.
#[derive(Debug, Clone, Copy, PartialEq, Eq, Structural)]
pub enum LogColor {
    Red,
    Purple,
    Green,
    Yellow,
    Blue,
    Cyan,
    White,
}

/// The colour of a line: red for errors, else by what it is about.
pub open spec fn spec_colorize(kind: PrintType, is_error: bool) -> LogColor {
    if is_error {
        LogColor::Red
    } else {
        match kind {
            PrintType::Call => LogColor::Purple,
            PrintType::Client => LogColor::Green,
            PrintType::Iota => LogColor::Yellow,
            PrintType::Omikron => LogColor::Blue,
            PrintType::Omega => LogColor::Cyan,
            PrintType::General => LogColor::White,
        }
    }
}

/// The colour of a line (see `spec_colorize`).
pub fn colorize(kind: PrintType, is_error: bool) -> (r: LogColor)
    ensures
        r == spec_colorize(kind, is_error),
{
    if is_error {
        return LogColor::Red;
    }
    match kind {
        PrintType::Call => LogColor::Purple,
        PrintType::Client => LogColor::Green,
        PrintType::Iota => LogColor::Yellow,
        PrintType::Omikron => LogColor::Blue,
        PrintType::Omega => LogColor::Cyan,
        PrintType::General => LogColor::White,
    }
}

/// `n` spaces.
pub open spec fn spaces(n: nat) -> Seq<char> {
    Seq::new(n, |i: int| ' ')
}

/// A text in a box of `width`: its first `width` characters; where it is
/// shorter, padded on the left with spaces and put in brackets.
pub open spec fn spec_fixed_box(content: Seq<char>, width: nat) -> Seq<char> {
    let s = if content.len() <= width {
        content
    } else {
        content.subrange(0, width as int)
    };
    if s.len() < width {
        seq!['['] + spaces((width - s.len()) as nat) + s + seq![']']
    } else {
        s
    }
}

/// A text in a box of `width` (see `spec_fixed_box`).
pub fn fixed_box(content: &str, width: usize) -> (r: String)
    requires
        width < usize::MAX,
    ensures
        r@ == spec_fixed_box(content@, width as nat),
{
    let cs = chars_of(content);
    let n: usize = if cs.len() <= width { cs.len() } else { width };
    let mut out: Vec<char> = Vec::new();
    if n < width {
        out.push('[');
        let mut k: usize = 0;
        while k < width - n
            invariant
                n < width,
                k <= width - n,
                out@ == seq!['['] + spaces(k as nat),
            decreases width - n - k,
        {
            out.push(' ');
            proof {
                assert(seq!['['] + spaces((k + 1) as nat) =~= (seq!['['] + spaces(k as nat)).push(' '));
            }
            k = k + 1;
        }
    }
    let ghost head = out@;
    let mut i: usize = 0;
    while i < n
        invariant
            i <= n,
            n <= cs.len(),
            out@ == head + cs@.subrange(0, i as int),
        decreases n - i,
    {
        out.push(cs[i]);
        proof {
            assert(head + cs@.subrange(0, i + 1) =~= (head + cs@.subrange(0, i as int)).push(cs@[i as int]));
        }
        i = i + 1;
    }
    proof {
        if cs.len() <= width {
            assert(cs@.subrange(0, n as int) =~= content@);
        } else {
            assert(cs@.subrange(0, n as int) =~= content@.subrange(0, width as int));
        }
    }
    if n < width {
        out.push(']');
    } else {
        proof {
            assert(head =~= Seq::<char>::empty());
            assert(out@ =~= cs@.subrange(0, n as int));
        }
    }
    string_from_chars(&out)
}

/// A record of the log.
pub struct LogMessage {
    pub timestamp_ms: u128,
    pub sender: Option<i64>,
    pub prefix: String,
    pub kind: PrintType,
    pub is_error: bool,
    pub message: String,
}

/// A record of the log at `timestamp_ms`; a sender of 0 stands for none.
pub fn log_internal(
    timestamp_ms: u128,
    sender: i64,
    kind: PrintType,
    prefix: &str,
    is_error: bool,
    message: String,
) -> (r: LogMessage)
    ensures
        r.timestamp_ms == timestamp_ms,
        r.sender == (if sender == 0 { None } else { Some(sender) }),
        r.prefix@ == prefix@,
        r.kind == kind,
        r.is_error == is_error,
        r.message@ == message@,
{
    let sender = if sender == 0 { None } else { Some(sender) };
    LogMessage { timestamp_ms, sender, prefix: String::from_str(prefix), kind, is_error, message }
}

/// The line a record becomes: its timestamp in a box of 13, its sender in a
/// box of 19 (empty where there is none), its prefix and its message,
/// separated by spaces.
pub open spec fn spec_log_line(m: LogMessage) -> Seq<char> {
    let ts = spec_fixed_box(decimal_nat(m.timestamp_ms as nat), 13);
    let sender = match m.sender {
        Some(id) => spec_fixed_box(decimal_int(id as int), 19),
        None => spec_fixed_box(Seq::empty(), 19),
    };
    ts + " "@ + sender + " "@ + m.prefix@ + " "@ + m.message@
}

/// The line a record becomes (see `spec_log_line`).
pub fn format_log_line(m: &LogMessage) -> (r: String)
    ensures
        r@ == spec_log_line(*m),
{
    proof {
        reveal_strlit(" ");
        reveal_strlit("");
        assert(""@ =~= Seq::<char>::empty());
    }
    let ts = fixed_box(u128_to_string(m.timestamp_ms).as_str(), 13);
    let sender = match m.sender {
        Some(id) => fixed_box(i64_to_string(id).as_str(), 19),
        None => fixed_box("", 19),
    };
    let a = concat_text(ts.as_str(), " ");
    let b = concat_text(a.as_str(), sender.as_str());
    let c = concat_text(b.as_str(), " ");
    let d = concat_text(c.as_str(), m.prefix.as_str());
    let e = concat_text(d.as_str(), " ");
    concat_text(e.as_str(), m.message.as_str())
}

/// How a value is written in a message summary: a string as it is, any
/// other value as compact JSON.
pub open spec fn value_text(v: JsonView) -> Seq<char> {
    match v {
        JsonView::Str(s) => s,
        _ => spec_json_dump(v),
    }
}

/// A datum in a message summary: its key's name, a space, its value.
pub open spec fn data_part(e: (DataTypes, JsonView)) -> Seq<char> {
    e.0.spec_name() + " "@ + value_text(e.1)
}

/// Who a message is from and to, where they are known: `sender > receiver`,
/// `sender` or `> receiver`.
pub open spec fn route_parts(sender: i64, receiver: i64) -> Seq<Seq<char>> {
    if sender > 0 && receiver > 0 {
        seq![decimal_int(sender as int) + " > "@ + decimal_int(receiver as int)]
    } else if sender > 0 {
        seq![decimal_int(sender as int)]
    } else if receiver > 0 {
        seq!["> "@ + decimal_int(receiver as int)]
    } else {
        Seq::empty()
    }
}

/// The one-line summary of a message: who it is from and to, its kind, and
/// its data (`key value` pairs separated by commas), joined by colons.
pub open spec fn spec_format_cv(m: MessageView) -> Seq<char> {
    let data = m.data.map_values(|e: (DataTypes, JsonView)| data_part(e));
    let parts = route_parts(m.sender, m.receiver).push(m.comm_type.spec_name());
    join(
        if data.len() > 0 {
            parts.push(join(data, ", "@))
        } else {
            parts
        },
        ": "@,
    )
}

/// The text of a value in a summary.
fn value_string(v: &Json) -> (r: String)
    ensures
        r@ == value_text(v@),
{
    match v {
        Json::Str(s) => s.clone(),
        _ => dump(v),
    }
}

/// The one-line summary of a message (see `spec_format_cv`).
pub fn format_cv(cv: &CommunicationValue) -> (r: String)
    ensures
        r@ == spec_format_cv(cv@),
{
    proof {
        reveal_strlit(" > ");
        reveal_strlit("> ");
        reveal_strlit(" ");
        reveal_strlit(", ");
        reveal_strlit(": ");
    }
    let sender = cv.get_sender();
    let receiver = cv.get_receiver();
    let mut parts: Vec<String> = Vec::new();
    if sender > 0 && receiver > 0 {
        let a = concat_text(i64_to_string(sender).as_str(), " > ");
        parts.push(concat_text(a.as_str(), i64_to_string(receiver).as_str()));
    } else if sender > 0 {
        parts.push(i64_to_string(sender));
    } else if receiver > 0 {
        parts.push(concat_text("> ", i64_to_string(receiver).as_str()));
    }
    assert(parts@.map_values(|p: String| p@) =~= route_parts(sender, receiver));
    parts.push(cv.get_type().to_string());
    let ghost head = parts@.map_values(|p: String| p@);
    assert(head =~= route_parts(sender, receiver).push(cv@.comm_type.spec_name()));
    let mut data_parts: Vec<String> = Vec::new();
    let n = cv.data_len();
    let mut i: usize = 0;
    while i < n
        invariant
            i <= n,
            n == cv@.data.len(),
            data_parts@.map_values(|p: String| p@) == cv@.data.subrange(0, i as int).map_values(
                |e: (DataTypes, JsonView)| data_part(e),
            ),
        decreases n - i,
    {
        let (key, value) = cv.data_at(i);
        let a = concat_text(key.name(), " ");
        let piece = concat_text(a.as_str(), value_string(value).as_str());
        let ghost before = data_parts@;
        data_parts.push(piece);
        proof {
            assert(data_parts@.map_values(|p: String| p@) =~= before.map_values(|p: String| p@).push(piece@));
            assert(cv@.data.subrange(0, i + 1).map_values(|e: (DataTypes, JsonView)| data_part(e))
                =~= cv@.data.subrange(0, i as int).map_values(|e: (DataTypes, JsonView)| data_part(e)).push(
                data_part(cv@.data[i as int]),
            ));
        }
        i = i + 1;
    }
    assert(cv@.data.subrange(0, n as int) =~= cv@.data);
    if data_parts.len() > 0 {
        let joined = join_texts(&data_parts, ", ");
        let ghost before = parts@;
        parts.push(joined);
        assert(parts@.map_values(|p: String| p@) =~= before.map_values(|p: String| p@).push(joined@));
    }
    join_texts(&parts, ": ")
}

/// The record of a message in the log: its summary, sent by its sender,
/// about `print_type` (general where none is given).
pub fn log_cv_internal(
    timestamp_ms: u128,
    prefix: &str,
    cv: &CommunicationValue,
    print_type: Option<PrintType>,
) -> (r: LogMessage)
    ensures
        r.timestamp_ms == timestamp_ms,
        r.sender == (if cv@.sender == 0 { None } else { Some(cv@.sender) }),
        r.prefix@ == prefix@,
        r.kind == (match print_type {
            Some(k) => k,
            None => PrintType::General,
        }),
        !r.is_error,
        r.message@ == spec_format_cv(cv@),
{
    let formatted = format_cv(cv);
    let kind = match print_type {
        Some(k) => k,
        None => PrintType::General,
    };
    log_internal(timestamp_ms, cv.get_sender(), kind, prefix, false, formatted)
}

} // verus!
