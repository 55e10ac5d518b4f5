//! Parse failures and the diagnostics that travel with them.

use vstd::prelude::*;
use crate::engine::{display_traceback, displayed_traceback};
use crate::text::{
    decimal, trimmed_end, chars_of, string_of, trim_end, push_decimal, push_text,
};

verus! {

/// One frame of the diagnostics tree: the span of one parse attempt within a
/// line, what was being parsed there, and the nested attempts in the order in
/// which they were made. Columns are half-open: `[start_column, end_column)`.
#[derive(Debug, PartialEq, Eq)]
pub struct PyTracebackEntry {
    pub lineno: usize,
    pub start_column: usize,
    pub end_column: usize,
    pub context: String,
    pub children: Vec<PyTracebackEntry>,
}

/// What a [`PyTracebackEntry`] stands for in contracts.
pub struct TracebackModel {
    pub lineno: nat,
    pub start_column: nat,
    pub end_column: nat,
    pub context: Seq<char>,
    pub children: Seq<TracebackModel>,
}

/// The view of a frame, frame by frame down the tree.
pub open spec fn traceback_model(entry: PyTracebackEntry) -> TracebackModel
    decreases entry,
{
    TracebackModel {
        lineno: entry.lineno as nat,
        start_column: entry.start_column as nat,
        end_column: entry.end_column as nat,
        context: entry.context@,
        children: Seq::new(
            entry.children@.len(),
            |i: int|
                if 0 <= i < entry.children@.len() {
                    traceback_model(entry.children@[i])
                } else {
                    arbitrary()
                },
        ),
    }
}

impl View for PyTracebackEntry {
    type V = TracebackModel;

    open spec fn view(&self) -> TracebackModel {
        traceback_model(*self)
    }
}

/// The views of a sequence of frames, in order.
pub open spec fn frames_view(s: Seq<PyTracebackEntry>) -> Seq<TracebackModel> {
    Seq::new(s.len(), |i: int| s[i]@)
}

impl PyTracebackEntry {
    /// A copy with the same view.
    pub fn duplicate(&self) -> (r: PyTracebackEntry)
        ensures
            r@ == self@,
        decreases self,
    {
        let mut children: Vec<PyTracebackEntry> = Vec::new();
        let mut i: usize = 0;
        while i < self.children.len()
            invariant
                i <= self.children.len(),
                children.len() == i,
                forall|k: int| 0 <= k < i ==> (#[trigger] children@[k])@ == self.children@[k]@,
            decreases self.children.len() - i,
        {
            children.push(self.children[i].duplicate());
            i += 1;
        }
        let r = PyTracebackEntry {
            lineno: self.lineno,
            start_column: self.start_column,
            end_column: self.end_column,
            context: self.context.clone(),
            children,
        };
        assert(r@.children =~= self@.children);
        r
    }
}

impl Clone for PyTracebackEntry {
    fn clone(&self) -> (r: Self)
        ensures
            r@ == self@,
    {
        self.duplicate()
    }
}

/// Where a failing line came from: the source's name, the number of the line
/// (counted from 1) and its text.
#[derive(Clone, Debug, PartialEq, Eq)]
pub struct PyParserLineSource {
    pub filename: String,
    pub lineno: usize,
    pub text: Option<String>,
}

/// What a [`PyParserLineSource`] stands for in contracts.
pub struct LineSourceModel {
    pub filename: Seq<char>,
    pub lineno: nat,
    pub text: Option<Seq<char>>,
}

impl View for PyParserLineSource {
    type V = LineSourceModel;

    open spec fn view(&self) -> LineSourceModel {
        LineSourceModel {
            filename: self.filename@,
            lineno: self.lineno as nat,
            text: match self.text {
                Some(t) => Some(t@),
                None => None,
            },
        }
    }
}

/// The kinds of failure, each with what it carries.
#[derive(Clone, Debug, PartialEq, Eq)]
pub enum FailureInfo {
    /// A malformed literal or token sequence, with a message.
    SyntaxError { message: String },
    /// Text left over after a construct should have ended.
    UnexpectedInput { remaining: String },
    /// The input ended in the middle of a construct.
    UnexpectedEof { expected: String },
    /// The line source failed to produce a line.
    IoError { message: String },
}

/// What a [`FailureInfo`] stands for in contracts.
pub enum FailureInfoModel {
    SyntaxError { message: Seq<char> },
    UnexpectedInput { remaining: Seq<char> },
    UnexpectedEof { expected: Seq<char> },
    IoError { message: Seq<char> },
}

impl View for FailureInfo {
    type V = FailureInfoModel;

    open spec fn view(&self) -> FailureInfoModel {
        match self {
            FailureInfo::SyntaxError { message } => FailureInfoModel::SyntaxError {
                message: message@,
            },
            FailureInfo::UnexpectedInput { remaining } => FailureInfoModel::UnexpectedInput {
                remaining: remaining@,
            },
            FailureInfo::UnexpectedEof { expected } => FailureInfoModel::UnexpectedEof {
                expected: expected@,
            },
            FailureInfo::IoError { message } => FailureInfoModel::IoError { message: message@ },
        }
    }
}

/// A failure: its kind, the diagnostics tree at the point of failure, and the
/// line it happened on.
#[derive(Clone, Debug, PartialEq, Eq)]
pub struct ParseFailure {
    pub info: FailureInfo,
    pub traceback: Option<PyTracebackEntry>,
    pub source: Option<PyParserLineSource>,
}

/// What a [`ParseFailure`] stands for in contracts.
pub struct FailureModel {
    pub info: FailureInfoModel,
    pub traceback: Option<TracebackModel>,
    pub source: Option<LineSourceModel>,
}

impl View for ParseFailure {
    type V = FailureModel;

    open spec fn view(&self) -> FailureModel {
        FailureModel {
            info: self.info@,
            traceback: match self.traceback {
                Some(t) => Some(t@),
                None => None,
            },
            source: match self.source {
                Some(s) => Some(s@),
                None => None,
            },
        }
    }
}

impl FailureModel {
    /// A failure of the line source carries neither a line nor a diagnostics
    /// tree; every other failure carries the line it happened on.
    pub open spec fn attached(self) -> bool {
        if self.info is IoError {
            self.source is None && self.traceback is None
        } else {
            self.source is Some
        }
    }
}

/// The short description of a frame.
pub open spec fn traceback_repr(t: TracebackModel) -> Seq<char> {
    "TracebackEntry(lineno="@ + decimal(t.lineno) + ", column_range=("@ + decimal(t.start_column)
        + ", "@ + decimal(t.end_column) + "), context="@ + t.context + ", len(children)="@
        + decimal(t.children.len()) + ")"@
}

/// The short description of the line of a failure.
pub open spec fn line_source_repr(s: LineSourceModel) -> Seq<char> {
    "KoiParserLineSource(filename='"@ + s.filename + "', lineno="@ + decimal(s.lineno) + ")"@
}

impl PyTracebackEntry {
    /// A frame without children.
    pub fn new(lineno: usize, start_column: usize, end_column: usize, context: String) -> (r:
        PyTracebackEntry)
        ensures
            r@ == (TracebackModel {
                lineno: lineno as nat,
                start_column: start_column as nat,
                end_column: end_column as nat,
                context: context@,
                children: Seq::empty(),
            }),
    {
        let r = PyTracebackEntry { lineno, start_column, end_column, context, children: Vec::new() };
        assert(r@.children =~= Seq::empty());
        r
    }

    /// The line of the frame.
    pub fn lineno(&self) -> (r: usize)
        ensures
            r == self@.lineno,
    {
        self.lineno
    }

    /// The columns of the frame: where it starts, and where it ends.
    pub fn column_range(&self) -> (r: (usize, usize))
        ensures
            r.0 == self@.start_column,
            r.1 == self@.end_column,
    {
        (self.start_column, self.end_column)
    }

    /// What was being parsed in the frame.
    pub fn context(&self) -> (r: String)
        ensures
            r@ == self@.context,
    {
        self.context.clone()
    }

    /// The nested frames, in the order in which they were made.
    pub fn children(&self) -> (r: Vec<PyTracebackEntry>)
        ensures
            frames_view(r@) == self@.children,
    {
        let mut out: Vec<PyTracebackEntry> = Vec::new();
        let mut i: usize = 0;
        while i < self.children.len()
            invariant
                i <= self.children.len(),
                out.len() == i,
                forall|k: int| 0 <= k < i ==> (#[trigger] out@[k])@ == self.children@[k]@,
            decreases self.children.len() - i,
        {
            out.push(self.children[i].duplicate());
            i += 1;
        }
        assert(frames_view(out@) =~= self@.children);
        out
    }

    /// The column at which the frame starts.
    pub fn start_column(&self) -> (r: usize)
        ensures
            r == self@.start_column,
    {
        self.start_column
    }

    /// The column at which the frame ends.
    pub fn end_column(&self) -> (r: usize)
        ensures
            r == self@.end_column,
    {
        self.end_column
    }

    /// Whether the frame has nested frames.
    pub fn has_children(&self) -> (r: bool)
        ensures
            r == (self@.children.len() > 0),
    {
        self.children.len() > 0
    }

    /// The short description of the frame.
    pub fn repr(&self) -> (r: String)
        ensures
            r@ == traceback_repr(self@),
    {
        let mut out: Vec<char> = Vec::new();
        push_text("TracebackEntry(lineno=", &mut out);
        push_decimal(self.lineno, &mut out);
        push_text(", column_range=(", &mut out);
        push_decimal(self.start_column, &mut out);
        push_text(", ", &mut out);
        push_decimal(self.end_column, &mut out);
        push_text("), context=", &mut out);
        push_text(self.context.as_str(), &mut out);
        push_text(", len(children)=", &mut out);
        push_decimal(self.children.len(), &mut out);
        push_text(")", &mut out);
        assert(out@ =~= traceback_repr(self@));
        string_of(&out)
    }

    /// The drawing of the tree below the frame, without the white space at
    /// its end.
    pub fn to_text(&self) -> (r: String)
        ensures
            r@ == trimmed_end(displayed_traceback(self@)),
    {
        let drawn = display_traceback(self);
        string_of(&trim_end(&chars_of(drawn.as_str())))
    }
}

impl PyParserLineSource {
    /// The line `lineno` of the source called `filename`, with its text where
    /// it is known.
    pub fn new(filename: String, lineno: usize, text: Option<String>) -> (r: PyParserLineSource)
        ensures
            r.filename@ == filename@,
            r.lineno == lineno,
            r.text == text,
    {
        PyParserLineSource { filename, lineno, text }
    }

    /// The short description of the line.
    pub fn repr(&self) -> (r: String)
        ensures
            r@ == line_source_repr(self@),
    {
        let mut out: Vec<char> = Vec::new();
        push_text("KoiParserLineSource(filename='", &mut out);
        push_text(self.filename.as_str(), &mut out);
        push_text("', lineno=", &mut out);
        push_decimal(self.lineno, &mut out);
        push_text(")", &mut out);
        assert(out@ =~= line_source_repr(self@));
        string_of(&out)
    }
}

} // verus!
