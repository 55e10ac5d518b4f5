//! What the host is told of a failure: which error is raised, with what
//! message, and which frame of its own traceback goes with it.

use vstd::prelude::*;
use crate::text::chars_of;
use crate::error::{
    PyTracebackEntry, TracebackModel, PyParserLineSource, LineSourceModel, FailureInfo,
    FailureInfoModel, ParseFailure, FailureModel,
};

verus! {

/// What every parse error of the host carries: the diagnostics tree and the
/// line of the failure.
#[derive(Clone, Debug, PartialEq, Eq)]
pub struct PyParseError {
    pub traceback: Option<PyTracebackEntry>,
    pub source: Option<PyParserLineSource>,
}

/// The error for a malformed literal or token sequence.
#[derive(Clone, Debug, PartialEq, Eq)]
pub struct KoiParserSyntaxError {
    pub message: String,
}

/// The error for text that is left over after a construct has ended.
#[derive(Clone, Debug, PartialEq, Eq)]
pub struct KoiParserUnexpectedInputError {
    pub remaining: String,
}

/// The error for input that ends in the middle of a construct.
#[derive(Clone, Debug, PartialEq, Eq)]
pub struct KoiParserUnexpectedEofError {
    pub expected: String,
}

/// The error that the host raises for a failure.
#[derive(Clone, Debug, PartialEq, Eq)]
pub enum RaisedError {
    Syntax(KoiParserSyntaxError, PyParseError),
    UnexpectedInput(KoiParserUnexpectedInputError, PyParseError),
    UnexpectedEof(KoiParserUnexpectedEofError, PyParseError),
    /// The failure of the line source itself, handed on with its message.
    Io(String),
}

/// What a [`RaisedError`] stands for in contracts.
pub enum RaisedModel {
    Syntax { message: Seq<char>, traceback: Option<TracebackModel>, source: Option<LineSourceModel> },
    UnexpectedInput {
        remaining: Seq<char>,
        traceback: Option<TracebackModel>,
        source: Option<LineSourceModel>,
    },
    UnexpectedEof {
        expected: Seq<char>,
        traceback: Option<TracebackModel>,
        source: Option<LineSourceModel>,
    },
    Io { message: Seq<char> },
}

impl PyParseError {
    /// The view of the diagnostics tree.
    pub open spec fn traceback_view(&self) -> Option<TracebackModel> {
        match self.traceback {
            Some(t) => Some(t@),
            None => None,
        }
    }

    /// The view of the line.
    pub open spec fn source_view(&self) -> Option<LineSourceModel> {
        match self.source {
            Some(s) => Some(s@),
            None => None,
        }
    }

    /// The number of the line of the failure.
    pub fn lineno(&self) -> (r: Option<usize>)
        ensures
            r == match self.source {
                Some(s) => Some(s.lineno),
                None => None,
            },
    {
        match &self.source {
            Some(s) => Some(s.lineno),
            None => None,
        }
    }

    /// The name of the source of the failure.
    pub fn filename(&self) -> (r: Option<String>)
        ensures
            match r {
                Some(n) => self.source_view() is Some && n@ == self.source_view()->Some_0.filename,
                None => self.source is None,
            },
    {
        match &self.source {
            Some(s) => Some(s.filename.clone()),
            None => None,
        }
    }

    /// The line and the column at which the outermost frame starts.
    pub fn position(&self) -> (r: Option<(usize, usize)>)
        ensures
            r == match self.traceback {
                Some(t) => Some((t.lineno, t.start_column)),
                None => None,
            },
    {
        match &self.traceback {
            Some(t) => Some((t.lineno, t.start_column)),
            None => None,
        }
    }
}

impl View for RaisedError {
    type V = RaisedModel;

    open spec fn view(&self) -> RaisedModel {
        match self {
            RaisedError::Syntax(e, base) => RaisedModel::Syntax {
                message: e.message@,
                traceback: base.traceback_view(),
                source: base.source_view(),
            },
            RaisedError::UnexpectedInput(e, base) => RaisedModel::UnexpectedInput {
                remaining: e.remaining@,
                traceback: base.traceback_view(),
                source: base.source_view(),
            },
            RaisedError::UnexpectedEof(e, base) => RaisedModel::UnexpectedEof {
                expected: e.expected@,
                traceback: base.traceback_view(),
                source: base.source_view(),
            },
            RaisedError::Io(message) => RaisedModel::Io { message: message@ },
        }
    }
}

/// The error that is raised for the failure `f`: the one of its kind, with
/// what the failure carries; a failure of the line source is handed on by its
/// message alone.
pub open spec fn raised_for(f: FailureModel) -> RaisedModel {
    match f.info {
        FailureInfoModel::SyntaxError { message } => RaisedModel::Syntax {
            message,
            traceback: f.traceback,
            source: f.source,
        },
        FailureInfoModel::UnexpectedInput { remaining } => RaisedModel::UnexpectedInput {
            remaining,
            traceback: f.traceback,
            source: f.source,
        },
        FailureInfoModel::UnexpectedEof { expected } => RaisedModel::UnexpectedEof {
            expected,
            traceback: f.traceback,
            source: f.source,
        },
        FailureInfoModel::IoError { message } => RaisedModel::Io { message },
    }
}

impl KoiParserSyntaxError {
    /// The error with `message`, and what goes with it.
    pub fn new(
        message: String,
        koi_traceback: Option<PyTracebackEntry>,
        source: Option<PyParserLineSource>,
    ) -> (r: (KoiParserSyntaxError, PyParseError))
        ensures
            r.0.message@ == message@,
            r.1.traceback == koi_traceback,
            r.1.source == source,
    {
        (KoiParserSyntaxError { message }, PyParseError { traceback: koi_traceback, source })
    }

    /// The message of the error.
    pub fn message(&self) -> (r: String)
        ensures
            r@ == self.message@,
    {
        self.message.clone()
    }
}

/// The message of the error for left-over text.
pub open spec fn unexpected_input_message(remaining: Seq<char>) -> Seq<char> {
    "Unexpected input: '"@ + remaining + "'"@
}

/// The message of the error for input that ends too early.
pub open spec fn unexpected_eof_message(expected: Seq<char>) -> Seq<char> {
    "Unexpected end of input. Expected: "@ + expected
}

impl KoiParserUnexpectedInputError {
    /// The error for the left-over text `remaining`, and what goes with it.
    pub fn new(
        remaining: String,
        koi_traceback: Option<PyTracebackEntry>,
        source: Option<PyParserLineSource>,
    ) -> (r: (KoiParserUnexpectedInputError, PyParseError))
        ensures
            r.0.remaining@ == remaining@,
            r.1.traceback == koi_traceback,
            r.1.source == source,
    {
        (
            KoiParserUnexpectedInputError { remaining },
            PyParseError { traceback: koi_traceback, source },
        )
    }

    /// The message of the error: the left-over text, in quotes.
    pub fn message(&self) -> (r: String)
        ensures
            r@ == unexpected_input_message(self.remaining@),
    {
        let mut out = "Unexpected input: '".to_owned();
        out.append(self.remaining.as_str());
        out.append("'");
        out
    }
}

impl KoiParserUnexpectedEofError {
    /// The error for the missing `expected`, and what goes with it.
    pub fn new(
        expected: String,
        koi_traceback: Option<PyTracebackEntry>,
        source: Option<PyParserLineSource>,
    ) -> (r: (KoiParserUnexpectedEofError, PyParseError))
        ensures
            r.0.expected@ == expected@,
            r.1.traceback == koi_traceback,
            r.1.source == source,
    {
        (KoiParserUnexpectedEofError { expected }, PyParseError { traceback: koi_traceback, source })
    }

    /// The message of the error: what was expected.
    pub fn message(&self) -> (r: String)
        ensures
            r@ == unexpected_eof_message(self.expected@),
    {
        let mut out = "Unexpected end of input. Expected: ".to_owned();
        out.append(self.expected.as_str());
        out
    }
}

/// The error that the host raises for `error`.
pub fn raise_parser_err(error: ParseFailure) -> (r: RaisedError)
    ensures
        r@ == raised_for(error@),
{
    let ParseFailure { info, traceback, source } = error;
    match info {
        FailureInfo::SyntaxError { message } => {
            let (e, base) = KoiParserSyntaxError::new(message, traceback, source);
            RaisedError::Syntax(e, base)
        },
        FailureInfo::UnexpectedInput { remaining } => {
            let (e, base) = KoiParserUnexpectedInputError::new(remaining, traceback, source);
            RaisedError::UnexpectedInput(e, base)
        },
        FailureInfo::UnexpectedEof { expected } => {
            let (e, base) = KoiParserUnexpectedEofError::new(expected, traceback, source);
            RaisedError::UnexpectedEof(e, base)
        },
        FailureInfo::IoError { message } => RaisedError::Io(message),
    }
}

/// A frame of the host's own traceback: the file, the function and the line
/// that it shows.
#[derive(Clone, Debug, PartialEq, Eq)]
pub struct HostFrame {
    pub filename: String,
    pub funcname: String,
    pub lineno: i32,
}

/// The function that the frame of a failure shows.
pub open spec fn frame_function() -> Seq<char> {
    "<koilang>"@
}

/// The line number that a frame of the host can hold: the low 32 bits of
/// `n`, read as a signed number.
pub open spec fn frame_line(n: nat) -> int {
    let low = n % 0x1_0000_0000;
    if low < 0x8000_0000 {
        low as int
    } else {
        low - 0x1_0000_0000
    }
}

/// An error with what the host is to show with it.
#[derive(Clone, Debug, PartialEq, Eq)]
pub enum Traced {
    /// The error as it is.
    Plain(RaisedError),
    /// The error with a frame of the host's traceback.
    Framed(RaisedError, HostFrame),
    /// No frame can be made, because the name of the file holds a NUL; this
    /// is raised in place of the error.
    InvalidFilename,
    /// No frame can be made, because the name of the function holds a NUL;
    /// this is raised in place of the error.
    InvalidFuncname,
}

/// What a [`Traced`] stands for in contracts.
pub enum TracedModel {
    Plain(RaisedModel),
    Framed { error: RaisedModel, filename: Seq<char>, funcname: Seq<char>, lineno: int },
    InvalidFilename,
    InvalidFuncname,
}

impl View for Traced {
    type V = TracedModel;

    open spec fn view(&self) -> TracedModel {
        match self {
            Traced::Plain(e) => TracedModel::Plain(e@),
            Traced::Framed(e, frame) => TracedModel::Framed {
                error: e@,
                filename: frame.filename@,
                funcname: frame.funcname@,
                lineno: frame.lineno as int,
            },
            Traced::InvalidFilename => TracedModel::InvalidFilename,
            Traced::InvalidFuncname => TracedModel::InvalidFuncname,
        }
    }
}

/// The error `exc` with a frame for the line `lineno` of `filename`, in
/// `funcname`; where a name holds a NUL, that is reported in its place, the
/// name of the file first.
pub open spec fn with_frame(
    exc: RaisedModel,
    filename: Seq<char>,
    funcname: Seq<char>,
    lineno: nat,
) -> TracedModel {
    if filename.contains('\0') {
        TracedModel::InvalidFilename
    } else if funcname.contains('\0') {
        TracedModel::InvalidFuncname
    } else {
        TracedModel::Framed { error: exc, filename, funcname, lineno: frame_line(lineno) }
    }
}

/// What the host is to raise and show for the failure `f`: a failure of the
/// line source as it is; any other failure with a frame for its line, unless
/// it carries no line or frames are switched off.
pub open spec fn traced_for(f: FailureModel, skip_add_traceback: bool) -> TracedModel {
    if f.info is IoError {
        TracedModel::Plain(raised_for(f))
    } else {
        match f.source {
            Some(s) => if skip_add_traceback {
                TracedModel::Plain(raised_for(f))
            } else {
                with_frame(raised_for(f), s.filename, frame_function(), s.lineno)
            },
            None => TracedModel::Plain(raised_for(f)),
        }
    }
}

/// Whether `s` holds a NUL.
fn holds_nul(s: &str) -> (r: bool)
    ensures
        r == s@.contains('\0'),
{
    let chars = chars_of(s);
    let mut i: usize = 0;
    while i < chars.len()
        invariant
            i <= chars.len(),
            chars@ == s@,
            forall|k: int| 0 <= k < i ==> chars@[k] != '\0',
        decreases chars.len() - i,
    {
        if chars[i] == '\0' {
            assert(s@[i as int] == '\0');
            return true;
        }
        i += 1;
    }
    false
}

/// The low 32 bits of `lineno`, read as a signed number.
fn to_frame_line(lineno: usize) -> (r: i32)
    ensures
        r == frame_line(lineno as nat),
{
    let low: u64 = (lineno as u64) % 0x1_0000_0000u64;
    if low < 0x8000_0000u64 {
        low as i32
    } else {
        ((low as i64) - 0x1_0000_0000i64) as i32
    }
}

/// Gives `exc` a frame of the host's traceback.
pub fn add_traceback(exc: RaisedError, filename: &str, funcname: &str, lineno: usize) -> (r: Traced)
    ensures
        r@ == with_frame(exc@, filename@, funcname@, lineno as nat),
{
    if holds_nul(filename) {
        Traced::InvalidFilename
    } else if holds_nul(funcname) {
        Traced::InvalidFuncname
    } else {
        Traced::Framed(
            exc,
            HostFrame {
                filename: filename.to_owned(),
                funcname: funcname.to_owned(),
                lineno: to_frame_line(lineno),
            },
        )
    }
}

/// What the host is to raise and show for `failure`.
pub fn raise_with_traceback(failure: ParseFailure, skip_add_traceback: bool) -> (r: Traced)
    ensures
        r@ == traced_for(failure@, skip_add_traceback),
{
    let place = match (&failure.info, &failure.source) {
        (FailureInfo::IoError { .. }, _) => None,
        (_, None) => None,
        (_, Some(s)) => if skip_add_traceback {
            None
        } else {
            Some((s.filename.clone(), s.lineno))
        },
    };
    let exc = raise_parser_err(failure);
    match place {
        Some((filename, lineno)) => add_traceback(exc, filename.as_str(), "<koilang>", lineno),
        None => Traced::Plain(exc),
    }
}

} // verus!
