use koilang::command::{Composite, Param, PyCommand, Scalar};
use koilang::error::{FailureInfo, ParseFailure, PyParserLineSource, PyTracebackEntry};
use koilang::parser::{PyParser, PyParserConfig, TextSource};

fn scalar(v: &koicore::command::Value) -> Scalar {
    match v {
        koicore::command::Value::Int(i) => Scalar::Int(*i),
        koicore::command::Value::Float(x) => Scalar::Float(x.to_string()),
        koicore::command::Value::Bool(b) => Scalar::Bool(*b),
        koicore::command::Value::String(s) => Scalar::String(s.clone()),
    }
}

fn command(c: &koicore::command::Command) -> PyCommand {
    let params = c
        .params
        .iter()
        .map(|p| match p {
            koicore::command::Parameter::Basic(v) => Param::Basic(scalar(v)),
            koicore::command::Parameter::Composite(n, v) => Param::Composite(
                n.clone(),
                match v {
                    koicore::command::CompositeValue::Single(x) => Composite::Single(scalar(x)),
                    koicore::command::CompositeValue::List(xs) => {
                        Composite::List(xs.iter().map(scalar).collect())
                    }
                    koicore::command::CompositeValue::Dict(es) => {
                        Composite::Dict(es.iter().map(|e| (e.0.clone(), scalar(&e.1))).collect())
                    }
                },
            ),
        })
        .collect();
    PyCommand { name: c.name.clone(), params }
}

fn frame(t: &koicore::parser::TracebackEntry) -> PyTracebackEntry {
    PyTracebackEntry {
        lineno: t.lineno,
        start_column: t.column_range.0,
        end_column: t.column_range.1,
        context: t.context.clone(),
        children: t.children.iter().map(frame).collect(),
    }
}

fn failure(e: &koicore::parser::ParseError) -> ParseFailure {
    let info = match &e.error_info {
        koicore::parser::ErrorInfo::SyntaxError { message } => {
            FailureInfo::SyntaxError { message: message.clone() }
        }
        koicore::parser::ErrorInfo::UnexpectedInput { remaining } => {
            FailureInfo::UnexpectedInput { remaining: remaining.clone() }
        }
        koicore::parser::ErrorInfo::UnexpectedEof { expected } => {
            FailureInfo::UnexpectedEof { expected: expected.clone() }
        }
        koicore::parser::ErrorInfo::IoError { error } => {
            FailureInfo::IoError { message: error.to_string() }
        }
    };
    ParseFailure {
        info,
        traceback: e.traceback.as_ref().map(frame),
        source: e.source.as_ref().map(|s| PyParserLineSource {
            filename: s.filename.clone(),
            lineno: s.lineno,
            text: Some(s.text.clone()),
        }),
    }
}

fn both_agree(text: &str, threshold: usize, skip_annotations: bool, convert: bool) {
    let mut theirs = koicore::parser::Parser::new(
        koicore::parser::StringInputSource::new(text),
        koicore::parser::ParserConfig::new(threshold, skip_annotations, convert, false, false),
    );
    let mut ours = PyParser::new(
        "<string>".to_string(),
        Some(PyParserConfig {
            command_threshold: Some(threshold),
            skip_annotations,
            convert_number_command: convert,
            skip_add_traceback: false,
        }),
    );
    let mut source = TextSource::new(text);
    let mut count = 0;
    loop {
        let expected = theirs.next_command();
        let got = ours.next_command(&mut source);
        match (expected, got) {
            (Ok(None), Ok(None)) => break,
            (Ok(Some(c)), Ok(Some(d))) => assert_eq!(command(&c), d, "in {:?}", text),
            (Err(e), Err(f)) => assert_eq!(failure(&e), f, "in {:?}", text),
            (e, g) => panic!("in {:?}: koicore gave {:?}, the library {:?}", text, e.map(|c| c.map(|c| command(&c))), g),
        }
        assert_eq!(theirs.current_line(), ours.line_number, "line counter in {:?}", text);
        count += 1;
        assert!(count < 1000);
    }
}

const TEXTS: &[&str] = &[
    "",
    "\n",
    "hello world",
    "hello world\n",
    "  indented text  \n",
    "#cmd",
    "#cmd\n#next 1 2 3\n",
    "#draw Line 2 pos(x: 0, y: 0) thickness(2) color(255, 255, 255)\n",
    "##greet name(\"Ada\") tags(1, 2, 3)",
    "## an annotation\n### deeper\n",
    "#42\n#114 arg1 arg2\n",
    "#\n",
    "  #   \n",
    "#cmd a(1, 2",
    "   #cmd a(1, 2\n",
    "#cmd a(1, 2 3)\n",
    "#cmd e() 1\n",
    "#cmd \"unterminated\n",
    "#cmd 1.5 -2.25 1e3 true false \"a\\tb\" name\n",
    "#cmd 0x1F 0b101 0o17\n",
    "#cmd(a=[1,2\n",
    "##greet(name=\"Ada\", tags=[1,2,3])\n",
    "text one\\\ntext two\nthird\n",
    "#cmd first \\\n  second \\\n  third\nafter\n",
    "#cmd a(1, \\\n 2 3)\nafter\n",
    "#cmd first \\\n",
    "trailing backslash\\\\\n",
    "\u{3000}#cmd wide\n",
    "\t\u{a0}#cmd tab  \r\n",
    "é#cmd\n# é(1)\n#é\n",
    "#cmd é x(\n",
    "#cmd x(y: 1, z: \"s\") 5\n#cmd x(y: 1, z: )\n",
    "# \\\n#cmd\n",
    "###\n##\n#\n",
    "## note \\\n## more\n",
    "#99999999999999999999\n",
    "#-5 a\n",
    "\u{1680}\u{2000}\u{200a}\u{2028}\u{2029}\u{202f}\u{205f}\u{85}x\u{b}\u{c}\n",
    "\u{200b}#cmd\n",
    "\u{180e}#cmd\n",
];

#[test]
fn parser_agrees_with_koicore_threshold_one() {
    for text in TEXTS {
        both_agree(text, 1, false, true);
    }
}

#[test]
fn parser_agrees_with_koicore_threshold_two() {
    for text in TEXTS {
        both_agree(text, 2, false, true);
    }
}

#[test]
fn parser_agrees_with_koicore_skipping_annotations() {
    for text in TEXTS {
        both_agree(text, 1, true, true);
        both_agree(text, 2, true, false);
    }
}

#[test]
fn parser_agrees_with_koicore_without_number_conversion() {
    for text in TEXTS {
        both_agree(text, 1, false, false);
    }
}

#[test]
fn parser_agrees_with_koicore_threshold_zero_and_three() {
    for text in TEXTS {
        both_agree(text, 0, false, true);
        both_agree(text, 3, false, true);
    }
}
