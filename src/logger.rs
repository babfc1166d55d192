//! Log annotations: a message, optionally tied to a place in a source file.

use vstd::prelude::*;
use crate::command::{argument, cmd_arg, joined};
use crate::text::{decimal, push_char, push_decimal, push_text};

verus! {

/// The severity of a log annotation.
#[derive(Debug, Clone, Copy, PartialEq, Eq, Structural)]
pub enum LogLevel {
    Debug,
    Error,
    Warning,
}

/// The command name of a level.
pub open spec fn level_name(level: LogLevel) -> Seq<char> {
    match level {
        LogLevel::Debug => "debug"@,
        LogLevel::Error => "error"@,
        LogLevel::Warning => "warning"@,
    }
}

impl LogLevel {
    /// The command name under which the level is written.
    pub fn as_str(&self) -> (r: &'static str)
        ensures
            r@ == level_name(*self),
    {
        match self {
            LogLevel::Debug => "debug",
            LogLevel::Error => "error",
            LogLevel::Warning => "warning",
        }
    }
}

/// A log message, with an optional file, line and column it refers to.
#[derive(Debug, Default)]
pub struct Log {
    pub message: String,
    pub file: Option<String>,
    pub line: Option<usize>,
    pub col: Option<usize>,
}

/// The location properties of a log entry that are present, in the order
/// file, line, column.
pub open spec fn location_args(log: Log) -> Seq<Seq<char>> {
    (match log.file {
        Some(f) => seq![argument("file"@, f@)],
        None => seq![],
    }) + (match log.line {
        Some(l) => seq![argument("line"@, decimal(l as nat))],
        None => seq![],
    }) + (match log.col {
        Some(c) => seq![argument("col"@, decimal(c as nat))],
        None => seq![],
    })
}

/// Whether the entry carries no location at all.
pub open spec fn is_bare(log: Log) -> bool {
    log.file is None && log.line is None && log.col is None
}

/// What follows the level on the line: `::message` for a bare entry, else a
/// space, the location properties and `::message`. The message is written
/// as it is, unescaped.
pub open spec fn rendered(log: Log) -> Seq<char> {
    if is_bare(log) {
        seq![':', ':'] + log.message@
    } else {
        seq![' '] + joined(location_args(log)) + seq![':', ':'] + log.message@
    }
}

/// The whole line of a log entry at a level.
pub open spec fn log_line(level: LogLevel, log: Log) -> Seq<char> {
    seq![':', ':'] + level_name(level) + rendered(log) + seq!['\n']
}

/// The views of the strings.
pub open spec fn views(items: Seq<String>) -> Seq<Seq<char>> {
    items.map_values(|s: String| s@)
}

/// Appends the items joined with commas.
fn push_joined(out: &mut String, items: &Vec<String>)
    ensures
        final(out)@ == old(out)@ + joined(views(items@)),
{
    let ghost start = out@;
    let ghost all = views(items@);
    let mut i: usize = 0;
    while i < items.len()
        invariant
            0 <= i <= items@.len(),
            all == views(items@),
            out@ == start + joined(all.take(i as int)),
        decreases items@.len() - i,
    {
        if i > 0 {
            push_char(out, ',');
        }
        push_text(out, items[i].as_str());
        proof {
            assert(all.take(i + 1).drop_last() =~= all.take(i as int));
            assert(all[i as int] == items@[i as int]@);
            if i == 0 {
                assert(joined(all.take(1)) == all[0]);
            }
            assert(out@ =~= start + joined(all.take(i + 1)));
        }
        i = i + 1;
    }
    assert(all.take(items@.len() as int) =~= all);
}

impl Log {
    /// An entry that holds only a message.
    pub fn message(message: String) -> (r: Log)
        ensures
            r.message == message,
            r.file is None,
            r.line is None,
            r.col is None,
    {
        Log { message, file: None, line: None, col: None }
    }

    /// The text that follows the level on the entry's line, without the line
    /// feed.
    pub fn render(&self) -> (r: String)
        ensures
            r@ == rendered(*self),
    {
        let mut out = String::new();
        if self.file.is_none() && self.line.is_none() && self.col.is_none() {
            push_char(&mut out, ':');
            push_char(&mut out, ':');
            push_text(&mut out, self.message.as_str());
            return out;
        }
        let mut args: Vec<String> = Vec::new();
        match &self.file {
            Some(f) => {
                args.push(cmd_arg("file", f.as_str()));
            },
            None => {},
        }
        match self.line {
            Some(l) => {
                let mut digits = String::new();
                push_decimal(&mut digits, l);
                args.push(cmd_arg("line", digits.as_str()));
            },
            None => {},
        }
        match self.col {
            Some(c) => {
                let mut digits = String::new();
                push_decimal(&mut digits, c);
                args.push(cmd_arg("col", digits.as_str()));
            },
            None => {},
        }
        assert(views(args@) =~= location_args(*self));
        push_char(&mut out, ' ');
        push_joined(&mut out, &args);
        push_char(&mut out, ':');
        push_char(&mut out, ':');
        push_text(&mut out, self.message.as_str());
        assert(out@ =~= rendered(*self));
        out
    }
}

/// Renders the line of a log entry at a level.
pub fn format_log(level: LogLevel, log: &Log) -> (r: String)
    ensures
        r@ == log_line(level, *log),
{
    let mut out = String::new();
    push_char(&mut out, ':');
    push_char(&mut out, ':');
    push_text(&mut out, level.as_str());
    let body = log.render();
    push_text(&mut out, body.as_str());
    push_char(&mut out, '\n');
    assert(out@ =~= log_line(level, *log));
    out
}

} // verus!
