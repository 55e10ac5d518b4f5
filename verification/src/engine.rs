//! The calls into `koicore`, each behind a contract that is stated, not proved.
//!
//! `koicore` owns the grammar of a command line and the text of a written
//! command. What it returns is named here, as a function of what it is given,
//! and the rest of the library is verified against those names.

use vstd::prelude::*;
use crate::command::{
    Scalar, Composite, Param, PyCommand, CommandModel, carried_text, carried_annotation,
};
use crate::text::{escaped, annotation_body};
use crate::error::{PyTracebackEntry, TracebackModel, FailureInfo, ParseFailure, FailureModel};
use crate::options::{PyNumberFormat, PyFormatterOptions};

verus! {

/// `koicore`'s basic value, carried through without a look inside.
#[verifier::external_type_specification]
#[verifier::external_body]
pub struct ExValue(koicore::command::Value);

/// `koicore`'s composite value, carried through without a look inside.
#[verifier::external_type_specification]
#[verifier::external_body]
pub struct ExCompositeValue(koicore::command::CompositeValue);

/// `koicore`'s parameter, carried through without a look inside.
#[verifier::external_type_specification]
#[verifier::external_body]
pub struct ExParameter(koicore::command::Parameter);

/// `koicore`'s command, carried through without a look inside.
#[verifier::external_type_specification]
#[verifier::external_body]
pub struct ExCommand(koicore::command::Command);

/// `koicore`'s diagnostics frame, carried through without a look inside.
#[verifier::external_type_specification]
#[verifier::external_body]
pub struct ExTracebackEntry(koicore::parser::TracebackEntry);

/// `koicore`'s parse error, carried through without a look inside.
#[verifier::external_type_specification]
#[verifier::external_body]
pub struct ExParseError(koicore::parser::ParseError);

/// The kind of `koicore`'s parse error, carried through without a look
/// inside.
#[verifier::external_type_specification]
#[verifier::external_body]
pub struct ExErrorInfo(koicore::parser::ErrorInfo);

/// `koicore`'s formatting options, carried through without a look inside.
#[verifier::external_type_specification]
#[verifier::external_body]
pub struct ExFormatterOptions(koicore::writer::FormatterOptions);

/// `koicore`'s number format, carried through without a look inside.
#[verifier::external_type_specification]
#[verifier::external_body]
pub struct ExNumberFormat(koicore::writer::NumberFormat);

/// Hands a value to `koicore`, variant for variant. A numeral that does not
/// read as a number is handed over as zero.
#[verifier::external_body]
fn scalar_out(v: &Scalar) -> koicore::command::Value {
    match v {
        Scalar::Int(i) => koicore::command::Value::Int(*i),
        Scalar::Float(numeral) => koicore::command::Value::Float(
            numeral.parse().unwrap_or_default(),
        ),
        Scalar::Bool(b) => koicore::command::Value::Bool(*b),
        Scalar::String(s) => koicore::command::Value::String(s.clone()),
    }
}

/// Hands a composite value to `koicore`, variant for variant, items in order.
#[verifier::external_body]
fn composite_out(v: &Composite) -> koicore::command::CompositeValue {
    match v {
        Composite::Single(x) => koicore::command::CompositeValue::Single(scalar_out(x)),
        Composite::List(xs) => koicore::command::CompositeValue::List(
            xs.iter().map(scalar_out).collect(),
        ),
        Composite::Dict(es) => koicore::command::CompositeValue::Dict(
            es.iter().map(|e| (e.0.clone(), scalar_out(&e.1))).collect(),
        ),
    }
}

/// Hands a parameter to `koicore`, variant for variant.
#[verifier::external_body]
fn param_out(p: &Param) -> koicore::command::Parameter {
    match p {
        Param::Basic(v) => koicore::command::Parameter::Basic(scalar_out(v)),
        Param::Composite(name, v) => koicore::command::Parameter::Composite(
            name.clone(),
            composite_out(v),
        ),
    }
}

/// Hands a command to `koicore`: the same name, the parameters in order.
#[verifier::external_body]
fn command_out(c: &PyCommand) -> koicore::command::Command {
    koicore::command::Command::new(c.name.clone(), c.params.iter().map(param_out).collect())
}

/// Takes a value from `koicore`, variant for variant. A number is taken as
/// the numeral that `to_string` gives for it.
#[verifier::external_body]
fn scalar_in(v: &koicore::command::Value) -> Scalar {
    match v {
        koicore::command::Value::Int(i) => Scalar::Int(*i),
        koicore::command::Value::Float(x) => Scalar::Float(x.to_string()),
        koicore::command::Value::Bool(b) => Scalar::Bool(*b),
        koicore::command::Value::String(s) => Scalar::String(s.clone()),
    }
}

/// Takes a composite value from `koicore`, variant for variant, items in order.
#[verifier::external_body]
fn composite_in(v: &koicore::command::CompositeValue) -> Composite {
    match v {
        koicore::command::CompositeValue::Single(x) => Composite::Single(scalar_in(x)),
        koicore::command::CompositeValue::List(xs) => Composite::List(
            xs.iter().map(scalar_in).collect(),
        ),
        koicore::command::CompositeValue::Dict(es) => Composite::Dict(
            es.iter().map(|e| (e.0.clone(), scalar_in(&e.1))).collect(),
        ),
    }
}

/// Takes a parameter from `koicore`, variant for variant.
#[verifier::external_body]
fn param_in(p: &koicore::command::Parameter) -> Param {
    match p {
        koicore::command::Parameter::Basic(v) => Param::Basic(scalar_in(v)),
        koicore::command::Parameter::Composite(name, v) => Param::Composite(
            name.clone(),
            composite_in(v),
        ),
    }
}

/// Takes a command from `koicore`: the same name, the parameters in order.
#[verifier::external_body]
fn command_in(c: &koicore::command::Command) -> PyCommand {
    PyCommand { name: c.name.clone(), params: c.params.iter().map(param_in).collect() }
}

/// Takes a diagnostics frame from `koicore`, field for field, children in
/// order.
#[verifier::external_body]
fn traceback_in(t: &koicore::parser::TracebackEntry) -> PyTracebackEntry {
    PyTracebackEntry {
        lineno: t.lineno,
        start_column: t.column_range.0,
        end_column: t.column_range.1,
        context: t.context.clone(),
        children: t.children.iter().map(traceback_in).collect(),
    }
}

/// Takes the kind of a failure from `koicore`, variant for variant, with
/// what it carries. Of a failure of the line source the message is taken.
#[verifier::external_body]
fn info_in(info: &koicore::parser::ErrorInfo) -> FailureInfo {
    match info {
        koicore::parser::ErrorInfo::SyntaxError { message } => FailureInfo::SyntaxError {
            message: message.clone(),
        },
        koicore::parser::ErrorInfo::UnexpectedInput { remaining } => FailureInfo::UnexpectedInput {
            remaining: remaining.clone(),
        },
        koicore::parser::ErrorInfo::UnexpectedEof { expected } => FailureInfo::UnexpectedEof {
            expected: expected.clone(),
        },
        koicore::parser::ErrorInfo::IoError { error } => FailureInfo::IoError {
            message: error.to_string(),
        },
    }
}

/// Takes a failure from `koicore`: its kind and its diagnostics tree. The line
/// it happened on is not taken: the parser of this library attaches it.
#[verifier::external_body]
fn failure_in(e: &koicore::parser::ParseError) -> ParseFailure {
    ParseFailure {
        info: info_in(&e.error_info),
        traceback: e.traceback.as_ref().map(traceback_in),
        source: None,
    }
}

/// Hands a number format to `koicore`, variant for variant.
#[verifier::external_body]
fn number_format_out(f: PyNumberFormat) -> koicore::writer::NumberFormat {
    match f {
        PyNumberFormat::Unknown => koicore::writer::NumberFormat::Unknown,
        PyNumberFormat::Decimal => koicore::writer::NumberFormat::Decimal,
        PyNumberFormat::Hex => koicore::writer::NumberFormat::Hex,
        PyNumberFormat::Octal => koicore::writer::NumberFormat::Octal,
        PyNumberFormat::Binary => koicore::writer::NumberFormat::Binary,
    }
}

/// Hands one layer of options to `koicore`, field for field. The format of
/// floating-point numbers, of which this library's layers do not speak, is
/// left at its default.
#[verifier::external_body]
fn options_out(o: &PyFormatterOptions) -> koicore::writer::FormatterOptions {
    koicore::writer::FormatterOptions {
        indent: o.indent,
        use_tabs: o.use_tabs,
        newline_before: o.newline_before,
        newline_after: o.newline_after,
        compact: o.compact,
        force_quotes_for_vars: o.force_quotes_for_vars,
        number_format: number_format_out(o.number_format),
        float_format: Default::default(),
        newline_before_param: o.newline_before_param,
        newline_after_param: o.newline_after_param,
        should_override: o.should_override,
    }
}

/// What a parse of a command's text gave, in contracts.
pub type ParseOutcome = Result<Option<CommandModel>, FailureModel>;

/// The view of what a parse gave.
pub open spec fn outcome_view(r: Result<Option<PyCommand>, ParseFailure>) -> ParseOutcome {
    match r {
        Ok(Some(c)) => Ok(Some(c@)),
        Ok(None) => Ok(None),
        Err(e) => Err(e@),
    }
}

/// What `koicore` makes of the text of a command (the line without its
/// markers), parsed as the first line of an input and from column 0.
pub uninterp spec fn parsed_command(text: Seq<char>, convert_number: bool) -> ParseOutcome;

/// Parses the text of a command with `koicore::parser::Parser::parse_command_line`,
/// as line 1 and from column 0.
///
/// The contract names the result. It adds what the source of that function
/// shows of every outcome: a success carries a command; a failure is never a
/// failure of the line source, carries a diagnostics tree, and carries no line.
#[verifier::external_body]
pub(crate) fn parse_command_text(text: &str, convert_number: bool) -> (r: Result<
    Option<PyCommand>,
    ParseFailure,
>)
    ensures
        outcome_view(r) == parsed_command(text@, convert_number),
        r matches Ok(c) ==> c is Some,
        r matches Err(e) ==> !(e.info is IoError) && e.traceback is Some && e.source is None,
{
    let parser = koicore::parser::Parser::new(
        koicore::parser::StringInputSource::new(""),
        koicore::parser::ParserConfig::new(1, false, convert_number, false, false),
    );
    match parser.parse_command_line(text.to_string(), 1, 0) {
        Ok(c) => Ok(c.as_ref().map(command_in)),
        Err(e) => Err(failure_in(&e)),
    }
}

/// The text that `koicore` writes for a command line: its indentation, the
/// command with its parameters, and the line's end.
///
/// `level` is the indentation level, `line` the options of the command, and
/// `per_param` the options of each parameter, by position.
pub uninterp spec fn rendered_line(
    command: CommandModel,
    threshold: nat,
    level: nat,
    line: PyFormatterOptions,
    per_param: Seq<PyFormatterOptions>,
) -> Seq<char>;

/// The indentation that stands at the start of a line at `level`.
pub open spec fn indentation(level: nat, line: PyFormatterOptions) -> Seq<char> {
    if line.compact {
        Seq::empty()
    } else if line.use_tabs {
        Seq::new(level, |i: int| '\t')
    } else {
        Seq::new(level * line.indent as nat, |i: int| ' ')
    }
}

/// Whether the widest indentation that a command at `level` can need (one
/// level deeper, for a parameter on a line of its own) can be allocated.
pub open spec fn indentation_fits(level: nat, line: PyFormatterOptions) -> bool {
    line.compact || if line.use_tabs {
        level + 1 <= isize::MAX
    } else {
        (level + 1) * line.indent <= isize::MAX
    }
}

/// Writes one command line with `koicore::writer::Writer::write_command_with_options`,
/// into memory, from a fresh writer whose level was raised `level` times.
///
/// `koicore` is given `line` as the options of the call and `per_param[i]` as
/// the options selected by position `i`; both override whole, so that no other
/// layer takes part. The contract names the result. It adds what the source of
/// the writer shows: the line begins with its indentation and ends with a line
/// feed; the line of a text command is its indentation, the text with a
/// backslash before every line feed (and one more at the end where the text
/// ends with one), and a line feed; and the line of an annotation command is
/// the same with, before the text, one marker more than the threshold and a
/// blank, unless the text brings as many markers itself.
#[verifier::external_body]
pub(crate) fn render_line(
    command: &PyCommand,
    threshold: usize,
    level: usize,
    line: &PyFormatterOptions,
    per_param: &Vec<PyFormatterOptions>,
) -> (r: String)
    requires
        line.should_override,
        line.indent != 0,
        line.number_format != PyNumberFormat::Unknown,
        !line.newline_before,
        !line.newline_after,
        per_param.len() == command.params.len(),
        forall|i: int| 0 <= i < per_param.len() ==> (#[trigger] per_param[i]).should_override,
        threshold < isize::MAX,
        indentation_fits(level as nat, *line),
    ensures
        r@ == rendered_line(command@, threshold as nat, level as nat, *line, per_param@),
        indentation(level as nat, *line).is_prefix_of(r@),
        r@.len() > indentation(level as nat, *line).len(),
        r@.last() == '\n',
        carried_text(command@) matches Some(t) ==> r@ == indentation(level as nat, *line)
            + escaped(t) + seq!['\n'],
        carried_annotation(command@) matches Some(t) ==> r@ == indentation(level as nat, *line)
            + annotation_body(t, threshold as nat) + seq!['\n'],
{
    let mut config = koicore::writer::WriterConfig::default();
    config.command_threshold = threshold;
    let mut writer = koicore::writer::Writer::new(Vec::new(), config);
    for _ in 0..level {
        writer.inc_indent();
    }
    let owned: Vec<_> = per_param.iter().map(options_out).collect();
    let by_position = owned.iter().enumerate().map(
        |(i, o)| (koicore::writer::ParamFormatSelector::Position(i), o),
    ).collect();
    let line = options_out(line);
    writer.write_command_with_options(&command_out(command), Some(&line), Some(&by_position)).unwrap();
    String::from_utf8_lossy(writer.as_ref()).into_owned()
}

/// The one-line text that `koicore` gives for a command through `Display`.
pub uninterp spec fn displayed_command(command: CommandModel) -> Seq<char>;

/// The text of a command as `koicore`'s `Display` for `Command` gives it.
#[verifier::external_body]
pub(crate) fn display_command(command: &PyCommand) -> (r: String)
    ensures
        r@ == displayed_command(command@),
{
    command_out(command).to_string()
}

/// Hands a diagnostics frame to `koicore`, field for field, children in
/// order.
#[verifier::external_body]
fn traceback_out(t: &PyTracebackEntry) -> koicore::parser::TracebackEntry {
    koicore::parser::TracebackEntry {
        lineno: t.lineno,
        column_range: (t.start_column, t.end_column),
        context: t.context.clone(),
        children: t.children.iter().map(traceback_out).collect(),
    }
}

/// The tree that `koicore` draws of a diagnostics frame through `Display`:
/// one line for each frame, the children below their parent.
pub uninterp spec fn displayed_traceback(t: TracebackModel) -> Seq<char>;

/// The drawing of a diagnostics tree as `koicore`'s `Display` for
/// `TracebackEntry` gives it.
#[verifier::external_body]
pub(crate) fn display_traceback(t: &PyTracebackEntry) -> (r: String)
    ensures
        r@ == displayed_traceback(t@),
{
    traceback_out(t).to_string()
}

/// A text as `Debug` for `str` gives it: in double quotes, with escapes.
pub uninterp spec fn quoted(s: Seq<char>) -> Seq<char>;

/// The text `s` in double quotes, as `Debug` for `str` gives it.
#[verifier::external_body]
pub(crate) fn debug_quote(s: &str) -> (r: String)
    ensures
        r@ == quoted(s@),
{
    format!("{:?}", s)
}

/// An indentation is made of blanks and tabs.
pub proof fn lemma_indentation_is_blank(level: nat, line: PyFormatterOptions)
    ensures
        forall|k: int|
            0 <= k < indentation(level, line).len() ==> indentation(level, line)[k] == ' '
                || indentation(level, line)[k] == '\t',
{
}

} // verus!
