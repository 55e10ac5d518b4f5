//! Decisions at the edge to the host's files: what a read means for the
//! parser, where a parser reads from and a writer writes to, and how much of
//! what was read fits a buffer.

use vstd::prelude::*;
use crate::parser::{PyParser, ParserStep, ParserState, StepModel, after_line, after_end, read_failure};

verus! {

/// The kinds of failure of a read or a write that are told apart.
#[derive(Clone, Copy, Debug, PartialEq, Eq, Structural)]
pub enum IoKind {
    /// The host failed.
    Other,
    /// The host gave something that is no text.
    InvalidData,
}

/// A failure of a read or a write.
#[derive(Clone, Debug, PartialEq, Eq)]
pub struct IoFailure {
    pub kind: IoKind,
    pub message: String,
}

/// What a call of the host's `readline` gave, as far as the library reads it.
#[derive(Clone, Debug, PartialEq, Eq)]
pub enum Readline {
    /// The call raised an error; with its text.
    Raised(String),
    /// The call returned something that is no string.
    NotAString,
    /// The length of the string could not be had; with the error's text.
    LengthFailed(String),
    /// The string is no valid text; with the error's text.
    NotText(String),
    /// The call returned this text.
    Text(String),
}

/// What the line source has for the parser.
#[derive(Clone, Debug, PartialEq, Eq)]
pub enum LineEvent {
    Line(String),
    /// The input has ended.
    End,
    Failed(IoFailure),
}

/// What a [`LineEvent`] stands for in contracts.
pub enum LineEventModel {
    Line(Seq<char>),
    End,
    Failed { kind: IoKind, message: Seq<char> },
}

impl View for LineEvent {
    type V = LineEventModel;

    open spec fn view(&self) -> LineEventModel {
        match self {
            LineEvent::Line(l) => LineEventModel::Line(l@),
            LineEvent::End => LineEventModel::End,
            LineEvent::Failed(f) => LineEventModel::Failed { kind: f.kind, message: f.message@ },
        }
    }
}

/// What a [`Readline`] stands for in contracts.
pub enum ReadlineModel {
    Raised(Seq<char>),
    NotAString,
    LengthFailed(Seq<char>),
    NotText(Seq<char>),
    Text(Seq<char>),
}

impl View for Readline {
    type V = ReadlineModel;

    open spec fn view(&self) -> ReadlineModel {
        match self {
            Readline::Raised(m) => ReadlineModel::Raised(m@),
            Readline::NotAString => ReadlineModel::NotAString,
            Readline::LengthFailed(m) => ReadlineModel::LengthFailed(m@),
            Readline::NotText(m) => ReadlineModel::NotText(m@),
            Readline::Text(t) => ReadlineModel::Text(t@),
        }
    }
}

/// What a call of `readline` means for the parser: an empty text is the end
/// of the input, any other text a line; an error of the host is a failure,
/// and so is a result that is no text.
pub open spec fn line_event(outcome: ReadlineModel) -> LineEventModel {
    match outcome {
        ReadlineModel::Raised(m) => LineEventModel::Failed { kind: IoKind::Other, message: m },
        ReadlineModel::NotAString => LineEventModel::Failed {
            kind: IoKind::InvalidData,
            message: "readline() returned non-string value"@,
        },
        ReadlineModel::LengthFailed(m) => LineEventModel::Failed { kind: IoKind::Other, message: m },
        ReadlineModel::NotText(m) => LineEventModel::Failed {
            kind: IoKind::InvalidData,
            message: "Invalid UTF-8 in input: "@ + m,
        },
        ReadlineModel::Text(t) => if t.len() == 0 {
            LineEventModel::End
        } else {
            LineEventModel::Line(t)
        },
    }
}

/// What the call of `readline` that gave `outcome` has for the parser.
pub fn next_line(outcome: Readline) -> (r: LineEvent)
    ensures
        r@ == line_event(outcome@),
{
    match outcome {
        Readline::Raised(message) => LineEvent::Failed(IoFailure { kind: IoKind::Other, message }),
        Readline::NotAString => LineEvent::Failed(
            IoFailure {
                kind: IoKind::InvalidData,
                message: "readline() returned non-string value".to_owned(),
            },
        ),
        Readline::LengthFailed(message) => LineEvent::Failed(
            IoFailure { kind: IoKind::Other, message },
        ),
        Readline::NotText(detail) => {
            let mut message = "Invalid UTF-8 in input: ".to_owned();
            message.append(detail.as_str());
            LineEvent::Failed(IoFailure { kind: IoKind::InvalidData, message })
        },
        Readline::Text(text) => if text.as_str().is_empty() {
            LineEvent::End
        } else {
            LineEvent::Line(text)
        },
    }
}

/// The name that a source without a name of its own goes by.
pub open spec fn unnamed_source() -> Seq<char> {
    "<string>"@
}

/// The name of a source: its `name` where it has one that is a string, else
/// the name of the unnamed.
pub fn source_name(name: Option<String>) -> (r: String)
    ensures
        r@ == match name {
            Some(n) => n@,
            None => unnamed_source(),
        },
{
    match name {
        Some(n) => n,
        None => "<string>".to_owned(),
    }
}

/// The parser after the event `event`, and what it says: a line and the end
/// of the input are taken as such, and a failure of the source is handed on.
pub open spec fn after_event(
    config: crate::line::ParserConfig,
    name: Seq<char>,
    st: ParserState,
    event: LineEventModel,
) -> (ParserState, StepModel) {
    match event {
        LineEventModel::Line(l) => after_line(config, name, st, l),
        LineEventModel::End => after_end(config, name, st),
        LineEventModel::Failed { kind, message } => (
            ParserState { pending: Seq::empty(), ..st },
            StepModel::Failed(read_failure(message)),
        ),
    }
}

impl PyParser {
    /// Takes what the line source had and says what it made.
    pub fn feed(&mut self, event: LineEvent) -> (r: ParserStep)
        requires
            old(self).wf(),
        ensures
            final(self).wf(),
            final(self).config == old(self).config,
            final(self).source_name == old(self).source_name,
            (final(self).state(), r@) == after_event(
                old(self).settings(),
                old(self).source_name@,
                old(self).state(),
                event@,
            ),
            r matches ParserStep::Failed(f) ==> f@.attached(),
    {
        match event {
            LineEvent::Line(l) => self.feed_line(l.as_str()),
            LineEvent::End => self.feed_end(),
            LineEvent::Failed(f) => ParserStep::Failed(self.feed_failure(f.message)),
        }
    }
}

/// Copies what a read gave into a buffer: as many bytes as the buffer holds,
/// from the first. Returns how many were copied; the rest of the buffer stays.
pub fn copy_read(bytes: &Vec<u8>, buf: &mut Vec<u8>) -> (r: usize)
    ensures
        r == if bytes.len() <= old(buf).len() {
            bytes.len()
        } else {
            old(buf).len()
        },
        final(buf).len() == old(buf).len(),
        forall|k: int| 0 <= k < r ==> final(buf)@[k] == bytes@[k],
        forall|k: int| r <= k < old(buf).len() ==> final(buf)@[k] == old(buf)@[k],
{
    let n = if bytes.len() <= buf.len() {
        bytes.len()
    } else {
        buf.len()
    };
    let mut i: usize = 0;
    while i < n
        invariant
            i <= n,
            n <= bytes.len(),
            n <= buf.len(),
            buf.len() == old(buf).len(),
            forall|k: int| 0 <= k < i ==> buf@[k] == bytes@[k],
            forall|k: int| i <= k < buf.len() ==> buf@[k] == old(buf)@[k],
        decreases n - i,
    {
        buf.set(i, bytes[i]);
        i += 1;
    }
    n
}

/// Where a parser reads from.
#[derive(Clone, Debug, PartialEq, Eq)]
pub enum SourceChoice {
    /// The file at this path, given as a string.
    PathText(String),
    /// The file at this path, given by an object that names one.
    PathObject(String),
    /// The object itself, read line by line.
    FileLike,
}

/// Where a parser reads from, given what its argument is: a string is a
/// path, an object that names a path is that path, and anything else is read
/// as a file.
pub fn choose_source(text: Option<String>, fspath: Option<String>) -> (r: SourceChoice)
    ensures
        match (text, fspath) {
            (Some(t), _) => r matches SourceChoice::PathText(p) && p@ == t@,
            (None, Some(f)) => r matches SourceChoice::PathObject(p) && p@ == f@,
            (None, None) => r is FileLike,
        },
{
    match (text, fspath) {
        (Some(t), _) => SourceChoice::PathText(t),
        (None, Some(f)) => SourceChoice::PathObject(f),
        (None, None) => SourceChoice::FileLike,
    }
}

/// Where a writer writes to.
#[derive(Clone, Debug, PartialEq, Eq)]
pub enum TargetChoice {
    /// The file at this path, made anew.
    Path(String),
    /// The object itself.
    FileLike,
    /// Nothing: the object can neither be written to nor flushed.
    Refused,
}

/// The message for an object that a writer cannot write to.
pub open spec fn refused_target_message() -> Seq<char> {
    "Object must be a string path, PathLike, or have write() and flush() methods"@
}

/// Where a writer writes to, given what its argument is: a string is a path,
/// an object that names a path is that path, and any other object must have
/// both `write` and `flush`.
pub fn choose_target(
    text: Option<String>,
    fspath: Option<String>,
    has_write: bool,
    has_flush: bool,
) -> (r: TargetChoice)
    ensures
        match (text, fspath) {
            (Some(t), _) => r matches TargetChoice::Path(p) && p@ == t@,
            (None, Some(f)) => r matches TargetChoice::Path(p) && p@ == f@,
            (None, None) => if has_write && has_flush {
                r is FileLike
            } else {
                r is Refused
            },
        },
{
    match (text, fspath) {
        (Some(t), _) => TargetChoice::Path(t),
        (None, Some(f)) => TargetChoice::Path(f),
        (None, None) => if has_write && has_flush {
            TargetChoice::FileLike
        } else {
            TargetChoice::Refused
        },
    }
}

/// The message of a failure to open or make a file: `lead`, then the text of
/// the error.
pub fn file_failure_message(lead: &str, detail: &str) -> (r: String)
    ensures
        r@ == lead@ + detail@,
{
    let mut out = lead.to_owned();
    out.append(detail);
    out
}

} // verus!
