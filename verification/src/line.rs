//! One logical line: what kind of line it is, and what parsing it gives.

use vstd::prelude::*;
use crate::command::{
    PyCommand, CommandModel, text_command, annotation_command, number_command,
};
use crate::engine::{parse_command_text, parsed_command};
use crate::error::{
    PyTracebackEntry, TracebackModel, PyParserLineSource, LineSourceModel, ParseFailure,
    FailureModel,
};
use crate::text::{
    is_space, count_leading, trimmed, leading_markers, unescaped, byte_len, chars_of, string_of,
    trim_bounds, slice_of, trim, count_markers, unescape, prefix_width, lemma_byte_len_bound,
    numeral_value, parse_numeral, escaped, annotation_body, markers, is_marker,
};

verus! {

/// How lines are read: the number of markers that makes a command line,
/// whether annotation lines are passed over, and whether a command whose name
/// is a number becomes a number command.
#[derive(Clone, Copy, Debug, PartialEq, Eq, Structural)]
pub struct ParserConfig {
    pub command_threshold: usize,
    pub skip_annotations: bool,
    pub convert_number_command: bool,
}

/// The kinds of line.
#[derive(Clone, Copy, Debug, PartialEq, Eq, Structural)]
pub enum LineKind {
    /// Nothing but white space.
    Blank,
    /// Fewer markers than the threshold: plain text.
    Text,
    /// More markers than the threshold: an annotation.
    Annotation,
    /// As many markers as the threshold: a command.
    Command,
}

/// The kind of `line` under `threshold`: by the number of markers that the
/// line, without the white space around it, starts with.
pub open spec fn line_kind(line: Seq<char>, threshold: nat) -> LineKind {
    let t = trimmed(line);
    if t.len() == 0 {
        LineKind::Blank
    } else if leading_markers(t) < threshold {
        LineKind::Text
    } else if leading_markers(t) > threshold {
        LineKind::Annotation
    } else {
        LineKind::Command
    }
}

/// The content of a text line.
pub open spec fn text_content(line: Seq<char>) -> Seq<char> {
    trimmed(unescaped(line))
}

/// `s` without its first `n` characters; nothing where it has fewer.
pub open spec fn without_first(s: Seq<char>, n: nat) -> Seq<char> {
    if n <= s.len() {
        s.skip(n as int)
    } else {
        Seq::empty()
    }
}

/// The content of an annotation line: what follows its markers.
pub open spec fn annotation_content(line: Seq<char>) -> Seq<char> {
    trimmed(without_first(trimmed(unescaped(line)), leading_markers(trimmed(line))))
}

/// The text of a command line: what follows its markers.
pub open spec fn command_text(line: Seq<char>) -> Seq<char> {
    trimmed(line).skip(leading_markers(trimmed(line)) as int)
}

/// The column at which the text of a command line starts: the bytes of the
/// white space before the markers, and the markers.
pub open spec fn command_column(line: Seq<char>) -> nat {
    byte_len(line.take(count_leading(line, |c: char| is_space(c)) as int)) + leading_markers(
        trimmed(line),
    )
}

/// `n`, or the largest `usize` where `n` is larger.
pub open spec fn clamped(n: int) -> nat {
    if n > usize::MAX {
        usize::MAX as nat
    } else if n < 0 {
        0
    } else {
        n as nat
    }
}

/// A diagnostics tree that was built for a text standing at line 1, column 0,
/// moved to where the text stands: to the line `base`, and, in its first
/// line, `offset` columns to the right.
pub open spec fn relocated(t: TracebackModel, base: nat, offset: nat) -> TracebackModel
    decreases t,
{
    TracebackModel {
        lineno: clamped(base - 1 + t.lineno),
        start_column: if t.lineno == 1 {
            clamped((t.start_column + offset) as int)
        } else {
            t.start_column
        },
        end_column: if t.lineno == 1 {
            clamped((t.end_column + offset) as int)
        } else {
            t.end_column
        },
        context: t.context,
        children: Seq::new(
            t.children.len(),
            |i: int|
                if 0 <= i < t.children.len() {
                    relocated(t.children[i], base, offset)
                } else {
                    arbitrary()
                },
        ),
    }
}

/// A failure to parse the text of a command, moved to where the text stands
/// and with the line it stands in attached.
pub open spec fn located(f: FailureModel, base: nat, offset: nat, source: LineSourceModel) -> FailureModel {
    FailureModel {
        info: f.info,
        traceback: match f.traceback {
            Some(t) => Some(relocated(t, base, offset)),
            None => None,
        },
        source: Some(source),
    }
}

/// What a logical line gives.
pub enum LineOutcome {
    /// Nothing: the line is blank, or an annotation that is passed over.
    Skipped,
    Produced(CommandModel),
    Failed(FailureModel),
}

/// What the logical line `line`, which starts at line `lineno` of the source
/// called `filename`, gives under `config`.
///
/// A blank line gives nothing. A text line gives the text command of its
/// content; but where numbers are converted, a line that is nothing but a
/// decimal integer gives the number command of that integer. An annotation
/// line gives nothing where annotations are passed
/// over, else the annotation command of its content. A command line gives what
/// the parse of its text gives: the command, or the failure, moved to where
/// the text stands and with the line attached.
pub open spec fn line_outcome(
    config: ParserConfig,
    filename: Seq<char>,
    lineno: nat,
    line: Seq<char>,
) -> LineOutcome {
    match line_kind(line, config.command_threshold as nat) {
        LineKind::Blank => LineOutcome::Skipped,
        LineKind::Text => if config.convert_number_command && numeral_value(trimmed(line))
            is Some {
            LineOutcome::Produced(
                number_command(numeral_value(trimmed(line))->Some_0, Seq::empty()),
            )
        } else {
            LineOutcome::Produced(text_command(text_content(line)))
        },
        LineKind::Annotation => if config.skip_annotations {
            LineOutcome::Skipped
        } else {
            LineOutcome::Produced(annotation_command(annotation_content(line)))
        },
        LineKind::Command => match parsed_command(
            command_text(line),
            config.convert_number_command,
        ) {
            Ok(Some(c)) => LineOutcome::Produced(c),
            Ok(None) => LineOutcome::Skipped,
            Err(f) => LineOutcome::Failed(
                located(
                    f,
                    lineno,
                    command_column(line),
                    LineSourceModel { filename, lineno, text: Some(line) },
                ),
            ),
        },
    }
}

/// What a logical line gave.
#[derive(Debug, PartialEq, Eq)]
pub enum LineResult {
    Skipped,
    Produced(PyCommand),
    Failed(ParseFailure),
}

impl View for LineResult {
    type V = LineOutcome;

    open spec fn view(&self) -> LineOutcome {
        match self {
            LineResult::Skipped => LineOutcome::Skipped,
            LineResult::Produced(c) => LineOutcome::Produced(c@),
            LineResult::Failed(f) => LineOutcome::Failed(f@),
        }
    }
}

/// The kind of `line` under `threshold`.
pub fn classify_line(line: &str, threshold: usize) -> (r: LineKind)
    ensures
        r == line_kind(line@, threshold as nat),
{
    let chars = chars_of(line);
    let t = trim(&chars);
    if t.len() == 0 {
        LineKind::Blank
    } else {
        let markers = count_markers(&t);
        if markers < threshold {
            LineKind::Text
        } else if markers > threshold {
            LineKind::Annotation
        } else {
            LineKind::Command
        }
    }
}

/// `a + b`, or the largest `usize` where the sum is larger.
fn add_clamped(a: usize, b: usize) -> (r: usize)
    ensures
        r == clamped(a + b),
{
    if a > usize::MAX - b {
        usize::MAX
    } else {
        a + b
    }
}

/// Moves a diagnostics tree to the line `base` and, in its first line,
/// `offset` columns to the right.
pub fn relocate(t: &PyTracebackEntry, base: usize, offset: usize) -> (r: PyTracebackEntry)
    requires
        base >= 1,
    ensures
        r@ == relocated(t@, base as nat, offset as nat),
    decreases t,
{
    let mut children: Vec<PyTracebackEntry> = Vec::new();
    let mut i: usize = 0;
    while i < t.children.len()
        invariant
            base >= 1,
            i <= t.children.len(),
            children.len() == i,
            forall|k: int|
                0 <= k < i ==> (#[trigger] children@[k])@ == relocated(
                    t.children@[k]@,
                    base as nat,
                    offset as nat,
                ),
        decreases t.children.len() - i,
    {
        children.push(relocate(&t.children[i], base, offset));
        i += 1;
    }
    let first = t.lineno == 1;
    let r = PyTracebackEntry {
        lineno: add_clamped(base - 1, t.lineno),
        start_column: if first {
            add_clamped(t.start_column, offset)
        } else {
            t.start_column
        },
        end_column: if first {
            add_clamped(t.end_column, offset)
        } else {
            t.end_column
        },
        context: t.context.clone(),
        children,
    };
    assert(r@.children =~= relocated(t@, base as nat, offset as nat).children);
    r
}

/// Parses the logical line `line`, which starts at line `lineno` of the
/// source called `filename`.
pub fn parse_line(config: &ParserConfig, filename: &str, lineno: usize, line: &str) -> (r:
    LineResult)
    requires
        lineno >= 1,
    ensures
        r@ == line_outcome(*config, filename@, lineno as nat, line@),
        r matches LineResult::Failed(f) ==> f@.attached() && !(f.info is IoError),
{
    let chars = chars_of(line);
    let (start, end) = trim_bounds(&chars);
    if start == end {
        return LineResult::Skipped;
    }
    let t = slice_of(&chars, start, end);
    let markers = count_markers(&t);
    if markers < config.command_threshold {
        let number = if config.convert_number_command {
            parse_numeral(&t)
        } else {
            None
        };
        match number {
            Some(v) => {
                let c = PyCommand::number_with_params(v, Vec::new());
                assert(crate::command::params_view(Seq::empty()) =~= Seq::empty());
                LineResult::Produced(c)
            },
            None => {
                let content = trim(&unescape(&chars));
                LineResult::Produced(PyCommand::new_text(string_of(&content)))
            },
        }
    } else if markers > config.command_threshold {
        if config.skip_annotations {
            LineResult::Skipped
        } else {
            let plain = trim(&unescape(&chars));
            let from = if markers <= plain.len() {
                markers
            } else {
                plain.len()
            };
            let rest = slice_of(&plain, from, plain.len());
            assert(rest@ =~= without_first(plain@, markers as nat));
            let content = trim(&rest);
            LineResult::Produced(PyCommand::new_annotation(string_of(&content)))
        }
    } else {
        let text = slice_of(&t, markers, t.len());
        assert(text@ =~= t@.skip(markers as int));
        proof {
            lemma_byte_len_bound(chars@.take(start as int));
        }
        let column = prefix_width(&chars, start) + markers;
        match parse_command_text(string_of(&text).as_str(), config.convert_number_command) {
            Ok(Some(c)) => LineResult::Produced(c),
            Ok(None) => LineResult::Skipped,
            Err(f) => {
                let traceback = match &f.traceback {
                    Some(t) => Some(relocate(t, lineno, column)),
                    None => None,
                };
                let source = PyParserLineSource {
                    filename: filename.to_owned(),
                    lineno,
                    text: Some(line.to_owned()),
                };
                LineResult::Failed(ParseFailure { info: f.info, traceback, source: Some(source) })
            },
        }
    }
}

/// The threshold is a sharp boundary: under a threshold of at least one, a
/// line that starts with one marker fewer than the threshold is never a
/// command line, and a line that starts with exactly as many always is.
pub proof fn lemma_threshold_boundary(line: Seq<char>, threshold: nat)
    requires
        threshold >= 1,
    ensures
        leading_markers(trimmed(line)) == threshold - 1 ==> line_kind(line, threshold)
            != LineKind::Command,
        leading_markers(trimmed(line)) == threshold ==> line_kind(line, threshold)
            == LineKind::Command,
{
    crate::text::lemma_count_leading_bounds(trimmed(line), |c: char| crate::text::is_marker(c));
}

/// A text that is written reads back as the same text command.
///
/// Let `t` be a text that neither starts nor ends with white space, that
/// starts with fewer markers than the threshold, and that, where numbers are
/// converted, is no decimal integer. Then the line that is written for the
/// text command of `t` (an indentation of blanks and tabs, `t` with its line
/// feeds escaped, and a line feed) gives the text command of `t`.
pub proof fn lemma_text_line_reads_back(
    config: ParserConfig,
    filename: Seq<char>,
    lineno: nat,
    indent: Seq<char>,
    t: Seq<char>,
)
    requires
        forall|k: int| 0 <= k < indent.len() ==> indent[k] == ' ' || indent[k] == '\t',
        t.len() > 0,
        !is_space(t[0]),
        !is_space(t.last()),
        leading_markers(t) < config.command_threshold,
        config.convert_number_command ==> numeral_value(t) is None,
    ensures
        line_outcome(config, filename, lineno, indent + escaped(t) + seq!['\n'])
            == LineOutcome::Produced(text_command(t)),
{
    let e = escaped(t);
    let feed = seq!['\n'];
    let line = indent + e + feed;
    crate::text::lemma_escaped_ends(t);
    assert(is_space(' ') && is_space('\t') && is_space('\n') && !is_space('\\'));
    assert forall|k: int| 0 <= k < indent.len() implies is_space(#[trigger] indent[k]) by {}
    assert(e[0] == t[0]);
    assert(!is_space(e.last())) by {
        let plain = crate::text::escaped_newlines(t);
        if plain.last() == '\\' {
            assert(e.last() == '\\');
        } else {
            assert(e.last() == t.last());
        }
    }
    crate::text::lemma_trimmed_padded(indent, e, feed);
    assert(trimmed(line) == e);
    crate::text::lemma_markers_escaped(t);
    assert(line_kind(line, config.command_threshold as nat) == LineKind::Text);
    if config.convert_number_command && numeral_value(e) is Some {
        crate::text::lemma_numeral_has_no_backslash(e);
        crate::text::lemma_escaped_without_backslash(t);
        assert(false);
    }
    assert(line =~= indent + (e + feed));
    assert forall|k: int| 0 <= k < indent.len() implies indent[k] != '\\' by {}
    crate::text::lemma_unescaped_plain_prefix(indent, e + feed);
    crate::text::lemma_unescaped_written(t);
    assert(unescaped(line) =~= indent + t + feed);
    crate::text::lemma_trimmed_padded(indent, t, feed);
    assert(text_content(line) == t);
}

/// An annotation that is written reads back as the same annotation command.
///
/// Let `t` be empty, or a text that neither starts nor ends with white space
/// and does not start with a marker, and let annotations not be passed over.
/// Then the line that is written for the annotation command of `t` under the
/// threshold of the parser (an indentation of blanks and tabs, the written
/// annotation, and a line feed) gives the annotation command of `t`.
pub proof fn lemma_annotation_line_reads_back(
    config: ParserConfig,
    filename: Seq<char>,
    lineno: nat,
    indent: Seq<char>,
    t: Seq<char>,
)
    requires
        forall|k: int| 0 <= k < indent.len() ==> indent[k] == ' ' || indent[k] == '\t',
        t.len() > 0 ==> !is_space(t[0]) && !is_space(t.last()) && !is_marker(t[0]),
        !config.skip_annotations,
    ensures
        line_outcome(
            config,
            filename,
            lineno,
            indent + annotation_body(t, config.command_threshold as nat) + seq!['\n'],
        ) == LineOutcome::Produced(annotation_command(t)),
{
    let threshold = config.command_threshold as nat;
    let e = escaped(t);
    let feed = seq!['\n'];
    let blank = seq![' '];
    let run = markers(threshold + 1);
    let space = |c: char| is_space(c);
    let marker = |c: char| is_marker(c);
    assert(is_space(' ') && is_space('\t') && is_space('\n') && !is_space('\\') && !is_space(
        '#',
    ));
    assert forall|k: int| 0 <= k < indent.len() implies is_space(#[trigger] indent[k]) by {}
    // The text brings no markers of its own, so the markers are written.
    assert(leading_markers(crate::text::trimmed_start(t)) == 0) by {
        if t.len() > 0 {
            crate::text::lemma_count_leading(t, space, 0);
            assert(crate::text::trimmed_start(t) =~= t);
            crate::text::lemma_count_leading(t, marker, 0);
        } else {
            assert(crate::text::trimmed_start(t) =~= t);
        }
    }
    let body = run + blank + e;
    assert(annotation_body(t, threshold) == body);
    let line = indent + body + feed;
    // What is left of the line and of its content when the escapes are taken out.
    let head = indent + run + blank;
    assert forall|k: int| 0 <= k < head.len() implies head[k] != '\\' by {}
    assert(line =~= head + (e + feed));
    crate::text::lemma_unescaped_plain_prefix(head, e + feed);
    crate::text::lemma_unescaped_written(t);
    let plain = indent + (run + blank + t) + feed;
    assert(unescaped(line) =~= plain);
    if t.len() > 0 {
        crate::text::lemma_escaped_ends(t);
        assert(e[0] == t[0]);
        assert(!is_space(e.last())) by {
            let inner = crate::text::escaped_newlines(t);
            if inner.last() == '\\' {
                assert(e.last() == '\\');
            } else {
                assert(e.last() == t.last());
            }
        }
        assert(body.last() == e.last());
        assert(body[0] == '#');
        crate::text::lemma_trimmed_padded(indent, body, feed);
        assert forall|k: int| 0 <= k < threshold + 1 implies marker(#[trigger] body[k]) by {
            assert(body[k] == run[k]);
        }
        assert(body[(threshold + 1) as int] == ' ');
        crate::text::lemma_count_leading(body, marker, threshold + 1);
        let core = run + blank + t;
        assert(core[0] == '#');
        assert(core.last() == t.last());
        crate::text::lemma_trimmed_padded(indent, core, feed);
        assert(without_first(core, threshold + 1) =~= blank + t);
        assert(blank + t =~= blank + t + Seq::<char>::empty());
        crate::text::lemma_trimmed_padded(blank, t, Seq::empty());
        assert(annotation_content(line) == t);
    } else {
        assert(crate::text::escaped_newlines(t) =~= Seq::empty());
        assert(e =~= Seq::empty());
        assert(line =~= indent + run + (blank + feed));
        assert(plain =~= indent + run + (blank + feed));
        assert(run[0] == '#' && run.last() == '#');
        crate::text::lemma_trimmed_padded(indent, run, blank + feed);
        assert forall|k: int| 0 <= k < threshold + 1 implies marker(#[trigger] run[k]) by {}
        crate::text::lemma_count_leading(run, marker, threshold + 1);
        assert(without_first(run, threshold + 1) =~= Seq::empty());
        assert(trimmed(Seq::<char>::empty()) =~= Seq::empty());
        assert(annotation_content(line) =~= t);
    }
}

} // verus!
