//! The parser: a state machine that is fed the lines of a source, one at a
//! time, and gives the commands in the order of their lines.
//!
//! Reading the source is not the parser's part. Whoever reads hands each line
//! to [`PyParser::feed_line`], the end of the input to [`PyParser::feed_end`]
//! and a failed read to [`PyParser::feed_failure`].

use vstd::prelude::*;
use crate::command::{PyCommand, CommandModel};
use crate::error::{
    FailureInfo, FailureInfoModel, ParseFailure, FailureModel, LineSourceModel,
};
use crate::line::{ParserConfig, LineOutcome, LineResult, line_outcome, parse_line, clamped};
use crate::text::{continues, chars_of, ends_with_continuation};

verus! {

/// The options of a parser as they are given to it. Without a threshold, one
/// marker makes a command line.
///
/// Where annotations are skipped, an annotation line gives nothing at all:
/// the parser reads on, and no call ever returns an annotation command.
#[derive(Clone, Copy, Debug, PartialEq, Eq)]
pub struct PyParserConfig {
    pub command_threshold: Option<usize>,
    pub skip_annotations: bool,
    pub convert_number_command: bool,
    /// Whether a failure is handed on without a frame of the host's own
    /// traceback. The parser itself does not read it.
    pub skip_add_traceback: bool,
}

/// How lines are read under `config`.
pub open spec fn settings_of(config: PyParserConfig) -> ParserConfig {
    ParserConfig {
        command_threshold: match config.command_threshold {
            Some(t) => t,
            None => 1,
        },
        skip_annotations: config.skip_annotations,
        convert_number_command: config.convert_number_command,
    }
}

impl Default for PyParserConfig {
    /// No threshold given, annotations kept, numbers converted, the host's
    /// traceback frame added.
    fn default() -> (r: PyParserConfig)
        ensures
            r.command_threshold is None,
            !r.skip_annotations,
            r.convert_number_command,
            !r.skip_add_traceback,
    {
        PyParserConfig {
            command_threshold: None,
            skip_annotations: false,
            convert_number_command: true,
            skip_add_traceback: false,
        }
    }
}

impl From<PyParserConfig> for ParserConfig {
    fn from(config: PyParserConfig) -> (r: ParserConfig) {
        ParserConfig {
            command_threshold: match config.command_threshold {
                Some(t) => t,
                None => 1,
            },
            skip_annotations: config.skip_annotations,
            convert_number_command: config.convert_number_command,
        }
    }
}

impl vstd::std_specs::convert::FromSpecImpl<PyParserConfig> for ParserConfig {
    open spec fn obeys_from_spec() -> bool {
        true
    }

    open spec fn from_spec(config: PyParserConfig) -> ParserConfig {
        settings_of(config)
    }
}

/// What changes in a parser from line to line: the number of the next line,
/// and the lines of a logical line that is not complete yet, with the number
/// of its first line.
pub struct ParserState {
    pub line_number: nat,
    pub pending: Seq<char>,
    pub pending_start: nat,
}

/// What the parser says after it was fed.
pub enum StepModel {
    /// Nothing to give yet: the next line is needed.
    NeedLine,
    Command(CommandModel),
    Failed(FailureModel),
    /// The input has ended and nothing is left.
    Finished,
}

/// The line at which the logical line that is being read starts.
pub open spec fn start_of(st: ParserState) -> nat {
    if st.pending.len() == 0 {
        st.line_number
    } else {
        st.pending_start
    }
}

/// What a complete logical line makes the parser say: a line that gives
/// nothing asks for the next line, or ends the parse at the end of the input.
pub open spec fn turned(outcome: LineOutcome, at_end: bool) -> StepModel {
    match outcome {
        LineOutcome::Skipped => if at_end {
            StepModel::Finished
        } else {
            StepModel::NeedLine
        },
        LineOutcome::Produced(c) => StepModel::Command(c),
        LineOutcome::Failed(f) => StepModel::Failed(f),
    }
}

/// The parser after the line `line`, and what it says.
///
/// The line is added to the logical line that is being read. Where the line
/// ends with a backslash and a line feed, the logical line goes on; else it is
/// complete and is parsed, as starting where its first line stood.
pub open spec fn after_line(
    config: ParserConfig,
    name: Seq<char>,
    st: ParserState,
    line: Seq<char>,
) -> (ParserState, StepModel) {
    let text = st.pending + line;
    let start = start_of(st);
    let next = clamped((st.line_number + 1) as int);
    if continues(line) {
        (ParserState { line_number: next, pending: text, pending_start: start }, StepModel::NeedLine)
    } else {
        (
            ParserState { line_number: next, pending: Seq::empty(), pending_start: start },
            turned(line_outcome(config, name, start, text), false),
        )
    }
}

/// The parser after the end of the input, and what it says: a logical line
/// that was still going on is complete and is parsed.
pub open spec fn after_end(config: ParserConfig, name: Seq<char>, st: ParserState) -> (
    ParserState,
    StepModel,
) {
    if st.pending.len() == 0 {
        (st, StepModel::Finished)
    } else {
        (
            ParserState { pending: Seq::empty(), ..st },
            turned(line_outcome(config, name, st.pending_start, st.pending), true),
        )
    }
}

/// The failure that a failed read of the source makes: its message, and
/// neither a line nor a diagnostics tree.
pub open spec fn read_failure(message: Seq<char>) -> FailureModel {
    FailureModel { info: FailureInfoModel::IoError { message }, traceback: None, source: None }
}

/// What the parser said.
#[derive(Debug, PartialEq, Eq)]
pub enum ParserStep {
    NeedLine,
    Command(PyCommand),
    Failed(ParseFailure),
    Finished,
}

impl View for ParserStep {
    type V = StepModel;

    open spec fn view(&self) -> StepModel {
        match self {
            ParserStep::NeedLine => StepModel::NeedLine,
            ParserStep::Command(c) => StepModel::Command(c@),
            ParserStep::Failed(f) => StepModel::Failed(f@),
            ParserStep::Finished => StepModel::Finished,
        }
    }
}

/// A parser: its options, the name of its source, the number of the next
/// line, and the logical line that is being read.
#[derive(Debug)]
pub struct PyParser {
    pub config: PyParserConfig,
    pub source_name: String,
    pub line_number: usize,
    pub pending: String,
    pub pending_start: usize,
}

/// What a complete logical line makes the parser say.
fn turn(result: LineResult, at_end: bool) -> (r: ParserStep)
    ensures
        r@ == turned(result@, at_end),
{
    match result {
        LineResult::Skipped => if at_end {
            ParserStep::Finished
        } else {
            ParserStep::NeedLine
        },
        LineResult::Produced(c) => ParserStep::Command(c),
        LineResult::Failed(f) => ParserStep::Failed(f),
    }
}

impl PyParser {
    /// The part of the parser that changes from line to line.
    pub open spec fn state(&self) -> ParserState {
        ParserState {
            line_number: self.line_number as nat,
            pending: self.pending@,
            pending_start: self.pending_start as nat,
        }
    }

    /// How this parser reads lines.
    pub open spec fn settings(&self) -> ParserConfig {
        settings_of(self.config)
    }

    /// Lines are counted from 1.
    pub open spec fn wf(&self) -> bool {
        self.line_number >= 1 && self.pending_start >= 1
    }

    /// A parser at the first line of the source called `source_name`.
    pub fn new(source_name: String, config: Option<PyParserConfig>) -> (r: PyParser)
        ensures
            r.wf(),
            r.source_name@ == source_name@,
            r.state() == (ParserState { line_number: 1, pending: Seq::empty(), pending_start: 1 }),
            match config {
                Some(c) => r.config == c,
                None => r.settings() == (ParserConfig {
                    command_threshold: 1,
                    skip_annotations: false,
                    convert_number_command: true,
                }),
            },
    {
        let config = match config {
            Some(c) => c,
            None => PyParserConfig::default(),
        };
        PyParser { config, source_name, line_number: 1, pending: String::new(), pending_start: 1 }
    }

    /// Takes the next line of the source and says what it made.
    pub fn feed_line(&mut self, line: &str) -> (r: ParserStep)
        requires
            old(self).wf(),
        ensures
            final(self).wf(),
            final(self).config == old(self).config,
            final(self).source_name == old(self).source_name,
            (final(self).state(), r@) == after_line(
                old(self).settings(),
                old(self).source_name@,
                old(self).state(),
                line@,
            ),
            !(r is Finished),
            r matches ParserStep::Failed(f) ==> f@.attached() && !(f.info is IoError),
    {
        let settings = ParserConfig::from(self.config);
        let start = if self.pending.as_str().is_empty() {
            self.line_number
        } else {
            self.pending_start
        };
        if self.line_number < usize::MAX {
            self.line_number += 1;
        }
        self.pending.append(line);
        self.pending_start = start;
        if ends_with_continuation(&chars_of(line)) {
            ParserStep::NeedLine
        } else {
            let r = turn(
                parse_line(&settings, self.source_name.as_str(), start, self.pending.as_str()),
                false,
            );
            self.pending = String::new();
            r
        }
    }

    /// Takes the end of the input and says what was left.
    pub fn feed_end(&mut self) -> (r: ParserStep)
        requires
            old(self).wf(),
        ensures
            final(self).wf(),
            final(self).config == old(self).config,
            final(self).source_name == old(self).source_name,
            (final(self).state(), r@) == after_end(
                old(self).settings(),
                old(self).source_name@,
                old(self).state(),
            ),
            !(r is NeedLine),
            final(self).pending@.len() == 0,
            r matches ParserStep::Failed(f) ==> f@.attached() && !(f.info is IoError),
    {
        if self.pending.as_str().is_empty() {
            ParserStep::Finished
        } else {
            let settings = ParserConfig::from(self.config);
            let r = turn(
                parse_line(
                    &settings,
                    self.source_name.as_str(),
                    self.pending_start,
                    self.pending.as_str(),
                ),
                true,
            );
            self.pending = String::new();
            r
        }
    }

    /// Takes a failed read of the source, with its message, and gives the
    /// failure to hand on. A logical line that was going on is given up.
    pub fn feed_failure(&mut self, message: String) -> (r: ParseFailure)
        requires
            old(self).wf(),
        ensures
            final(self).wf(),
            final(self).config == old(self).config,
            final(self).source_name == old(self).source_name,
            final(self).state() == (ParserState { pending: Seq::empty(), ..old(self).state() }),
            r@ == read_failure(message@),
            r@.attached(),
    {
        self.pending = String::new();
        ParseFailure { info: FailureInfo::IoError { message }, traceback: None, source: None }
    }
}

/// The lines of a text that is held in memory, and how far they were read.
///
/// A line ends with its line feed; the last line may lack one.
#[derive(Clone, Debug, PartialEq, Eq)]
pub struct TextSource {
    pub lines: Vec<String>,
    pub position: usize,
}

/// The views of a sequence of lines, in order.
pub open spec fn lines_view(lines: Seq<String>) -> Seq<Seq<char>> {
    lines.map_values(|l: String| l@)
}

/// The length of the first line of `s`: up to and with its first line feed,
/// or all of `s` where it has none.
pub open spec fn first_line_len(s: Seq<char>) -> nat {
    let n = crate::text::count_leading(s, |c: char| c != '\n');
    if n < s.len() {
        n + 1
    } else {
        s.len()
    }
}

/// The lines of `s`: each ends with its line feed, but for a last line that
/// lacks one; together they are `s`.
pub open spec fn split_lines(s: Seq<char>) -> Seq<Seq<char>>
    decreases s.len(),
{
    if s.len() == 0 {
        Seq::empty()
    } else {
        seq![s.take(first_line_len(s) as int)] + split_lines(s.skip(first_line_len(s) as int))
    }
}

impl TextSource {
    /// The lines of this source, as texts.
    pub open spec fn view_lines(&self) -> Seq<Seq<char>> {
        lines_view(self.lines@)
    }

    /// A source that reads the lines of `text` from the first.
    pub fn new(text: &str) -> (r: TextSource)
        ensures
            r.position == 0,
            r.view_lines() == split_lines(text@),
    {
        let chars = chars_of(text);
        let n = chars.len();
        let mut lines: Vec<String> = Vec::new();
        let mut begin: usize = 0;
        let mut i: usize = 0;
        proof {
            assert(chars@.skip(0) =~= chars@);
            assert(lines_view(lines@) + split_lines(chars@) =~= split_lines(chars@));
        }
        while i < n
            invariant
                begin <= i <= n,
                n == chars.len(),
                forall|k: int| begin <= k < i ==> chars@[k] != '\n',
                lines_view(lines@) + split_lines(chars@.skip(begin as int)) == split_lines(chars@),
            decreases n - i,
        {
            if chars[i] == '\n' {
                let line = crate::text::slice_of(&chars, begin, i + 1);
                proof {
                    let rest = chars@.skip(begin as int);
                    assert forall|k: int| 0 <= k < i - begin implies rest[k] != '\n' by {
                        assert(rest[k] == chars@[k + begin]);
                    }
                    assert(rest[i - begin] == '\n');
                    crate::text::lemma_count_leading(
                        rest,
                        |c: char| c != '\n',
                        (i - begin) as nat,
                    );
                    assert(rest.take(i + 1 - begin) =~= line@);
                    assert(rest.skip(i + 1 - begin) =~= chars@.skip(i + 1));
                }
                let text_line = crate::text::string_of(&line);
                proof {
                    assert(lines_view(lines@.push(text_line)) =~= lines_view(lines@) + seq![line@]);
                }
                lines.push(text_line);
                begin = i + 1;
            }
            i += 1;
        }
        if begin < n {
            let line = crate::text::slice_of(&chars, begin, n);
            let text_line = crate::text::string_of(&line);
            proof {
                let rest = chars@.skip(begin as int);
                assert forall|k: int| 0 <= k < n - begin implies rest[k] != '\n' by {
                    assert(rest[k] == chars@[k + begin]);
                }
                crate::text::lemma_count_leading(rest, |c: char| c != '\n', (n - begin) as nat);
                assert(rest.take(n - begin) =~= line@);
                assert(rest.skip(n - begin) =~= Seq::<char>::empty());
                assert(lines_view(lines@.push(text_line)) =~= lines_view(lines@) + seq![line@]);
                assert(first_line_len(rest) == n - begin);
                assert(split_lines(rest.skip(n - begin)) =~= Seq::<Seq<char>>::empty());
                assert(split_lines(rest) =~= seq![line@] + split_lines(rest.skip(n - begin)));
                assert(split_lines(rest) =~= seq![line@]);
            }
            lines.push(text_line);
        } else {
            proof {
                assert(chars@.skip(begin as int) =~= Seq::<char>::empty());
                assert(lines_view(lines@) + Seq::<Seq<char>>::empty() =~= lines_view(lines@));
            }
        }
        TextSource { lines, position: 0 }
    }

    /// The next line, if one is left.
    pub fn next_line(&mut self) -> (r: Option<String>)
        ensures
            final(self).lines == old(self).lines,
            old(self).position < old(self).lines.len() ==> (r matches Some(l) && l@
                == old(self).view_lines()[old(self).position as int]) && final(self).position
                == old(self).position + 1,
            old(self).position >= old(self).lines.len() ==> r is None && final(self).position
                == old(self).position,
    {
        if self.position < self.lines.len() {
            let line = self.lines[self.position].clone();
            self.position += 1;
            Some(line)
        } else {
            None
        }
    }
}

/// The parser after it took lines from `lines`, from the one at `pos` on,
/// until it had something to say; how far it read; and what it says.
///
/// At the end of the lines it says what the end of the input makes it say.
pub open spec fn run(
    config: ParserConfig,
    name: Seq<char>,
    st: ParserState,
    lines: Seq<Seq<char>>,
    pos: nat,
) -> (ParserState, nat, StepModel)
    decreases lines.len() - pos,
{
    if pos >= lines.len() {
        (after_end(config, name, st).0, pos, after_end(config, name, st).1)
    } else {
        let step = after_line(config, name, st, lines[pos as int]);
        if step.1 is NeedLine {
            run(config, name, step.0, lines, pos + 1)
        } else {
            (step.0, pos + 1, step.1)
        }
    }
}

/// What a call for the next command returned, as what the parser said.
pub open spec fn result_model(r: Result<Option<PyCommand>, ParseFailure>) -> StepModel {
    match r {
        Ok(Some(c)) => StepModel::Command(c@),
        Ok(None) => StepModel::Finished,
        Err(f) => StepModel::Failed(f@),
    }
}

impl PyParser {
    /// The next command of `source`: `Ok(None)` at the end of the input, the
    /// failure where a line fails.
    ///
    /// The parser reads on from where `source` stands until a logical line
    /// gives a command or fails, or the lines end. What it returns, how far it
    /// read and the state it is left in are those of [`run`].
    ///
    /// A line that fails is used up like any other: the call after a failure
    /// reads on with the line that follows the failed logical line.
    pub fn next_command(&mut self, source: &mut TextSource) -> (r: Result<
        Option<PyCommand>,
        ParseFailure,
    >)
        requires
            old(self).wf(),
        ensures
            final(self).wf(),
            final(self).config == old(self).config,
            final(self).source_name == old(self).source_name,
            final(source).lines == old(source).lines,
            (final(self).state(), final(source).position as nat, result_model(r)) == run(
                old(self).settings(),
                old(self).source_name@,
                old(self).state(),
                old(source).view_lines(),
                old(source).position as nat,
            ),
            r matches Err(f) ==> f@.attached() && !(f.info is IoError),
    {
        loop
            invariant
                self.wf(),
                self.config == old(self).config,
                self.source_name == old(self).source_name,
                source.lines == old(source).lines,
                run(
                    self.settings(),
                    self.source_name@,
                    self.state(),
                    source.view_lines(),
                    source.position as nat,
                ) == run(
                    old(self).settings(),
                    old(self).source_name@,
                    old(self).state(),
                    old(source).view_lines(),
                    old(source).position as nat,
                ),
            decreases source.lines.len() - source.position,
        {
            match source.next_line() {
                Some(line) => {
                    match self.feed_line(line.as_str()) {
                        ParserStep::NeedLine => {},
                        ParserStep::Command(c) => {
                            return Ok(Some(c));
                        },
                        ParserStep::Failed(f) => {
                            return Err(f);
                        },
                        ParserStep::Finished => {
                            return Ok(None);
                        },
                    }
                },
                None => {
                    match self.feed_end() {
                        ParserStep::Command(c) => {
                            return Ok(Some(c));
                        },
                        ParserStep::Failed(f) => {
                            return Err(f);
                        },
                        _ => {
                            return Ok(None);
                        },
                    }
                },
            }
        }
    }
}

/// Why the processing of all commands stopped with an error: a line failed,
/// or the handler did.
#[derive(Debug)]
pub enum ProcessError<E> {
    Parse(ParseFailure),
    Callback(E),
}

/// How many lines are left from `pos` on.
pub open spec fn lines_left(lines: Seq<Seq<char>>, pos: nat) -> nat {
    if pos < lines.len() {
        (lines.len() - pos) as nat
    } else {
        0
    }
}

/// A call for the next command reads on, and says something other than that
/// it needs a line. Where it has a command or a failure, it has read a line,
/// or it has taken up, at the end of the lines, the logical line that was
/// going on.
pub proof fn lemma_run_advances(
    config: ParserConfig,
    name: Seq<char>,
    st: ParserState,
    lines: Seq<Seq<char>>,
    pos: nat,
)
    ensures
        ({
            let out = run(config, name, st, lines, pos);
            &&& !(out.2 is NeedLine)
            &&& out.1 >= pos
            &&& lines_left(lines, out.1) <= lines_left(lines, pos)
            &&& !(out.2 is Finished) ==> lines_left(lines, out.1) < lines_left(lines, pos) || (
            st.pending.len() > 0 && out.0.pending.len() == 0)
        }),
    decreases lines.len() - pos,
{
    if pos < lines.len() {
        let step = after_line(config, name, st, lines[pos as int]);
        if step.1 is NeedLine {
            lemma_run_advances(config, name, step.0, lines, pos + 1);
        }
    }
}

/// Whether processing the lines from `pos` on with `handler`, from the state
/// `st`, can end in the state and at the position `end` with the result `r`.
///
/// Each command is handed to the handler in the order of the lines. The
/// processing goes on while the handler answers `Ok(true)`. It ends with
/// `Ok(true)` at the end of the input, with `Ok(false)` where the handler
/// answers so, with the handler's error where it fails, and with the failure
/// of the line where a line fails.
pub open spec fn processed<E, F: Fn(PyCommand) -> Result<bool, E>>(
    handler: F,
    config: ParserConfig,
    name: Seq<char>,
    st: ParserState,
    lines: Seq<Seq<char>>,
    pos: nat,
    end: (ParserState, nat),
    r: Result<bool, ProcessError<E>>,
) -> bool
    decreases lines_left(lines, pos), st.pending.len(),
{
    let out = run(config, name, st, lines, pos);
    match out.2 {
        StepModel::Command(c) => exists|cmd: PyCommand, reply: Result<bool, E>|
            {
                &&& cmd@ == c
                &&& #[trigger] call_ensures(handler, (cmd,), reply)
                &&& match reply {
                    Ok(true) => {
                        proof {
                            lemma_run_advances(config, name, st, lines, pos);
                        }
                        processed(handler, config, name, out.0, lines, out.1, end, r)
                    },
                    Ok(false) => end == (out.0, out.1) && r == Ok::<bool, ProcessError<E>>(false),
                    Err(e) => end == (out.0, out.1) && r == Err::<bool, ProcessError<E>>(
                        ProcessError::Callback(e),
                    ),
                }
            },
        StepModel::Failed(f) => end == (out.0, out.1) && (r matches Err(ProcessError::Parse(e))
            && e@ == f),
        _ => end == (out.0, out.1) && r == Ok::<bool, ProcessError<E>>(true),
    }
}

impl PyParser {
    /// Hands every command of `source` to `handler`, in the order of the
    /// lines, for as long as the handler answers `Ok(true)`.
    ///
    /// Returns `Ok(true)` where the end of the input was reached and
    /// `Ok(false)` where the handler stopped the processing; the handler's
    /// error and the failure of a line are handed on as they are.
    pub fn process_with<E, F: Fn(PyCommand) -> Result<bool, E>>(
        &mut self,
        source: &mut TextSource,
        handler: F,
    ) -> (r: Result<bool, ProcessError<E>>)
        requires
            old(self).wf(),
            forall|c: PyCommand| call_requires(handler, (c,)),
        ensures
            final(self).wf(),
            final(self).config == old(self).config,
            final(self).source_name == old(self).source_name,
            final(source).lines == old(source).lines,
            processed(
                handler,
                old(self).settings(),
                old(self).source_name@,
                old(self).state(),
                old(source).view_lines(),
                old(source).position as nat,
                (final(self).state(), final(source).position as nat),
                r,
            ),
            r matches Err(ProcessError::Parse(f)) ==> f@.attached() && !(f.info is IoError),
    {
        loop
            invariant
                self.wf(),
                self.config == old(self).config,
                self.source_name == old(self).source_name,
                source.lines == old(source).lines,
                forall|c: PyCommand| call_requires(handler, (c,)),
                forall|end: (ParserState, nat), r: Result<bool, ProcessError<E>>|
                    processed(
                        handler,
                        self.settings(),
                        self.source_name@,
                        self.state(),
                        source.view_lines(),
                        source.position as nat,
                        end,
                        r,
                    ) ==> #[trigger] processed(
                        handler,
                        old(self).settings(),
                        old(self).source_name@,
                        old(self).state(),
                        old(source).view_lines(),
                        old(source).position as nat,
                        end,
                        r,
                    ),
            decreases lines_left(source.view_lines(), source.position as nat), self.pending@.len(),
        {
            let ghost before = self.state();
            let ghost pos = source.position as nat;
            proof {
                lemma_run_advances(
                    self.settings(),
                    self.source_name@,
                    before,
                    source.view_lines(),
                    pos,
                );
            }
            match self.next_command(source) {
                Ok(Some(c)) => {
                    let ghost given = c;
                    match handler(c) {
                        Ok(true) => {
                            proof {
                                let reply: Result<bool, E> = Ok(true);
                                assert(call_ensures(handler, (given,), reply));
                                assert forall|end: (ParserState, nat), r: Result<bool, ProcessError<E>>|
                                    processed(
                                        handler,
                                        self.settings(),
                                        self.source_name@,
                                        self.state(),
                                        source.view_lines(),
                                        source.position as nat,
                                        end,
                                        r,
                                    ) implies #[trigger] processed(
                                    handler,
                                    self.settings(),
                                    self.source_name@,
                                    before,
                                    source.view_lines(),
                                    pos,
                                    end,
                                    r,
                                ) by {
                                    assert(call_ensures(handler, (given,), reply));
                                }
                            }
                        },
                        Ok(false) => {
                            let r = Ok(false);
                            proof {
                                let reply: Result<bool, E> = Ok(false);
                                assert(call_ensures(handler, (given,), reply));
                            }
                            return r;
                        },
                        Err(e) => {
                            let ghost reply: Result<bool, E> = Err(e);
                            proof {
                                assert(call_ensures(handler, (given,), reply));
                            }
                            return Err(ProcessError::Callback(e));
                        },
                    }
                },
                Ok(None) => {
                    return Ok(true);
                },
                Err(f) => {
                    return Err(ProcessError::Parse(f));
                },
            }
        }
    }
}

/// What the call number `k`, counted from 0, for the next command says, of
/// the calls made one after the other from the state `st` and the position
/// `pos`.
pub open spec fn nth_step(
    config: ParserConfig,
    name: Seq<char>,
    st: ParserState,
    lines: Seq<Seq<char>>,
    pos: nat,
    k: nat,
) -> StepModel
    decreases k,
{
    let out = run(config, name, st, lines, pos);
    if k == 0 {
        out.2
    } else {
        nth_step(config, name, out.0, lines, out.1, (k - 1) as nat)
    }
}

/// Commands come in the order of their lines, and then the end.
///
/// Let the parser stand before the line at `pos`, with no logical line going
/// on, and let every line from there on be a logical line of its own that
/// gives a command. Then, of the calls made one after the other, call number
/// `k` gives the command of the line `k` lines further on, and the call after
/// the last line says that the input has ended.
pub proof fn lemma_commands_in_source_order(
    config: ParserConfig,
    name: Seq<char>,
    st: ParserState,
    lines: Seq<Seq<char>>,
    pos: nat,
    k: nat,
)
    requires
        st.pending.len() == 0,
        st.line_number == pos + 1,
        pos + k <= lines.len() < usize::MAX,
        forall|i: int|
            pos <= i < lines.len() ==> !continues(#[trigger] lines[i]) && line_outcome(
                config,
                name,
                (i + 1) as nat,
                lines[i],
            ) is Produced,
    ensures
        pos + k < lines.len() ==> nth_step(config, name, st, lines, pos, k) == StepModel::Command(
            line_outcome(config, name, pos + k + 1, lines[(pos + k) as int])->Produced_0,
        ),
        pos + k == lines.len() ==> nth_step(config, name, st, lines, pos, k)
            == StepModel::Finished,
    decreases k,
{
    if pos < lines.len() {
        let step = after_line(config, name, st, lines[pos as int]);
        assert(st.pending + lines[pos as int] =~= lines[pos as int]);
        if k > 0 {
            lemma_commands_in_source_order(
                config,
                name,
                step.0,
                lines,
                pos + 1,
                (k - 1) as nat,
            );
        }
    }
}

/// Why an iteration over the commands gave no command.
#[derive(Debug, PartialEq, Eq)]
pub enum IterationEnd {
    /// The input has ended.
    Stop,
    Failed(ParseFailure),
}

impl PyParser {
    /// The next command of `source`, for an iteration: at the end of the
    /// input the iteration stops.
    pub fn next(&mut self, source: &mut TextSource) -> (r: Result<PyCommand, IterationEnd>)
        requires
            old(self).wf(),
        ensures
            final(self).wf(),
            final(self).config == old(self).config,
            final(self).source_name == old(self).source_name,
            final(source).lines == old(source).lines,
            ({
                let out = run(
                    old(self).settings(),
                    old(self).source_name@,
                    old(self).state(),
                    old(source).view_lines(),
                    old(source).position as nat,
                );
                &&& final(self).state() == out.0
                &&& final(source).position == out.1
                &&& match r {
                    Ok(c) => out.2 == StepModel::Command(c@),
                    Err(IterationEnd::Stop) => out.2 is Finished,
                    Err(IterationEnd::Failed(f)) => out.2 == StepModel::Failed(f@) && f@.attached(),
                }
            }),
    {
        match self.next_command(source) {
            Ok(Some(c)) => Ok(c),
            Ok(None) => Err(IterationEnd::Stop),
            Err(f) => Err(IterationEnd::Failed(f)),
        }
    }
}

/// Failures and their lines: the failure of a line carries that line, with
/// the name of the source and the number of the line; the failure of a read
/// is a failure of the line source and carries neither a line nor a
/// diagnostics tree.
pub proof fn lemma_failure_attachment(
    config: ParserConfig,
    name: Seq<char>,
    lineno: nat,
    line: Seq<char>,
    message: Seq<char>,
)
    ensures
        line_outcome(config, name, lineno, line) matches LineOutcome::Failed(f) ==> f.source
            == Some(LineSourceModel { filename: name, lineno, text: Some(line) }),
        read_failure(message).info is IoError,
        read_failure(message).source is None,
        read_failure(message).traceback is None,
        read_failure(message).attached(),
{
}

} // verus!
