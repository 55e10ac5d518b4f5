use koilang::command::{Param, PyCommand, Scalar};
use koilang::error::FailureInfo;
use koilang::io::{IoFailure, IoKind, LineEvent};
use koilang::line::ParserConfig;
use koilang::parser::{
    IterationEnd, ParserStep, ProcessError, PyParser, PyParserConfig, TextSource,
};

fn parser(threshold: usize) -> PyParser {
    PyParser::new(
        "<string>".to_string(),
        Some(PyParserConfig {
            command_threshold: Some(threshold),
            skip_annotations: false,
            convert_number_command: true,
            skip_add_traceback: false,
        }),
    )
}

fn named(name: &str) -> PyCommand {
    PyCommand::with_params(name.to_string(), vec![])
}

#[test]
fn default_options_of_a_parser() {
    let d = PyParserConfig::default();
    assert_eq!(d.command_threshold, None);
    assert!(!d.skip_annotations);
    assert!(d.convert_number_command);
    assert!(!d.skip_add_traceback);
    let settings = ParserConfig::from(d);
    assert_eq!(
        settings,
        ParserConfig { command_threshold: 1, skip_annotations: false, convert_number_command: true }
    );
    let given = PyParserConfig {
        command_threshold: Some(3),
        skip_annotations: true,
        convert_number_command: false,
        skip_add_traceback: true,
    };
    assert_eq!(
        ParserConfig::from(given),
        ParserConfig { command_threshold: 3, skip_annotations: true, convert_number_command: false }
    );
    let p = PyParser::new("name".to_string(), None);
    assert_eq!(p.config, d);
    assert_eq!(p.line_number, 1);
    assert_eq!(p.source_name, "name");
    assert_eq!(p.pending, "");
}

#[test]
fn text_is_split_into_lines_that_keep_their_line_feed() {
    assert_eq!(TextSource::new("").lines, Vec::<String>::new());
    assert_eq!(TextSource::new("a").lines, vec!["a".to_string()]);
    assert_eq!(TextSource::new("a\n").lines, vec!["a\n".to_string()]);
    assert_eq!(TextSource::new("\n").lines, vec!["\n".to_string()]);
    assert_eq!(
        TextSource::new("a\n\nb\r\nc").lines,
        vec!["a\n".to_string(), "\n".to_string(), "b\r\n".to_string(), "c".to_string()]
    );
    let mut s = TextSource::new("x\ny");
    assert_eq!(s.position, 0);
    assert_eq!(s.next_line(), Some("x\n".to_string()));
    assert_eq!(s.next_line(), Some("y".to_string()));
    assert_eq!(s.position, 2);
    assert_eq!(s.next_line(), None);
    assert_eq!(s.next_line(), None);
    assert_eq!(s.position, 2);
}

#[test]
fn commands_come_in_the_order_of_their_lines_and_then_the_end() {
    let names: Vec<String> = (0..25).map(|i| format!("cmd{}", i)).collect();
    let text: String = names.iter().map(|n| format!("#{} {}\n", n, n.len())).collect();
    let mut p = parser(1);
    let mut source = TextSource::new(&text);
    for (i, n) in names.iter().enumerate() {
        let c = p.next_command(&mut source).unwrap().unwrap();
        assert_eq!(
            c,
            PyCommand::with_params(n.clone(), vec![Param::Basic(Scalar::Int(n.len() as i64))])
        );
        assert_eq!(source.position, i + 1);
        assert_eq!(p.line_number, i + 2);
    }
    assert_eq!(p.next_command(&mut source), Ok(None));
    assert_eq!(p.next_command(&mut source), Ok(None));
}

#[test]
fn mixed_lines_in_order() {
    let mut p = parser(1);
    let mut source = TextSource::new("#first\n\nsome text\n## a note\n#second 2\n7\n");
    assert_eq!(p.next_command(&mut source), Ok(Some(named("first"))));
    assert_eq!(p.next_command(&mut source), Ok(Some(PyCommand::new_text("some text".to_string()))));
    assert_eq!(p.next_command(&mut source), Ok(Some(PyCommand::new_annotation("a note".to_string()))));
    assert_eq!(
        p.next_command(&mut source),
        Ok(Some(PyCommand::with_params("second".to_string(), vec![Param::Basic(Scalar::Int(2))])))
    );
    assert_eq!(p.next_command(&mut source), Ok(Some(PyCommand::number_with_params(7, vec![]))));
    assert_eq!(p.next_command(&mut source), Ok(None));
}

#[test]
fn skipped_annotations_are_not_handed_out() {
    let mut p = PyParser::new(
        "<string>".to_string(),
        Some(PyParserConfig {
            command_threshold: Some(1),
            skip_annotations: true,
            convert_number_command: true,
            skip_add_traceback: false,
        }),
    );
    let mut source = TextSource::new("#cmd1\n##annotation\n#cmd2\n## last");
    assert_eq!(p.next_command(&mut source), Ok(Some(named("cmd1"))));
    assert_eq!(p.next_command(&mut source), Ok(Some(named("cmd2"))));
    assert_eq!(p.next_command(&mut source), Ok(None));
    assert_eq!(source.position, 4);
}

#[test]
fn a_line_goes_on_after_a_backslash_at_its_end() {
    let mut p = parser(1);
    assert_eq!(p.feed_line("#cmd first \\\n"), ParserStep::NeedLine);
    assert_eq!(p.pending, "#cmd first \\\n");
    assert_eq!(p.pending_start, 1);
    assert_eq!(p.line_number, 2);
    assert_eq!(p.feed_line("  second \\\n"), ParserStep::NeedLine);
    assert_eq!(p.line_number, 3);
    let step = p.feed_line("  3\n");
    assert_eq!(
        step,
        ParserStep::Command(PyCommand::with_params(
            "cmd".to_string(),
            vec![
                Param::Basic(Scalar::String("first".to_string())),
                Param::Basic(Scalar::String("second".to_string())),
                Param::Basic(Scalar::Int(3)),
            ]
        ))
    );
    assert_eq!(p.pending, "");
    assert_eq!(p.line_number, 4);
    assert_eq!(p.feed_line("\n"), ParserStep::NeedLine);
    assert_eq!(p.feed_end(), ParserStep::Finished);
    assert_eq!(p.feed_end(), ParserStep::Finished);
}

#[test]
fn the_end_of_the_input_completes_a_line_that_was_going_on() {
    let mut p = parser(1);
    assert_eq!(p.feed_line("going on \\\n"), ParserStep::NeedLine);
    assert_eq!(p.feed_end(), ParserStep::Command(PyCommand::new_text("going on".to_string())));
    assert_eq!(p.feed_end(), ParserStep::Finished);
    let mut r = parser(1);
    assert_eq!(r.feed_line("#cmd a \\\n"), ParserStep::NeedLine);
    match r.feed_end() {
        ParserStep::Failed(f) => assert_eq!(f.source.unwrap().text, Some("#cmd a \\\n".to_string())),
        other => panic!("{:?}", other),
    }
    let mut q = parser(1);
    assert_eq!(q.feed_line("   \\\n"), ParserStep::NeedLine);
    assert_eq!(q.feed_end(), ParserStep::Command(PyCommand::new_text("".to_string())));
    assert_eq!(q.feed_end(), ParserStep::Finished);
}

#[test]
fn a_failure_names_the_first_line_of_its_logical_line() {
    let mut p = parser(1);
    let mut source = TextSource::new("ok\n#cmd a(1, \\\n 2 3)\n#after\n");
    assert_eq!(p.next_command(&mut source), Ok(Some(PyCommand::new_text("ok".to_string()))));
    let f = p.next_command(&mut source).unwrap_err();
    assert_eq!(f.info, FailureInfo::SyntaxError { message: "Command parsing error".to_string() });
    let s = f.source.unwrap();
    assert_eq!(s.lineno, 2);
    assert_eq!(s.filename, "<string>");
    assert_eq!(s.text, Some("#cmd a(1, \\\n 2 3)\n".to_string()));
    let tb = f.traceback.unwrap();
    assert_eq!(tb.lineno, 2);
    assert_eq!(tb.children[0].children[0].lineno, 3);
    assert_eq!(p.next_command(&mut source), Ok(Some(named("after"))));
    assert_eq!(p.next_command(&mut source), Ok(None));
}

#[test]
fn every_parse_failure_carries_its_line_and_a_read_failure_none() {
    for bad in ["#", "#cmd a(", "#cmd(x)", "#cmd \"open", "#99999999999999999999", "  #cmd a(x: )"] {
        let mut p = parser(1);
        let mut source = TextSource::new(bad);
        let f = p.next_command(&mut source).unwrap_err();
        assert!(!matches!(f.info, FailureInfo::IoError { .. }), "{:?}", bad);
        let s = f.source.expect("a line");
        assert_eq!(s.text, Some(bad.to_string()));
        assert_eq!(s.lineno, 1);
        assert!(f.traceback.is_some());
    }
    let mut p = parser(1);
    assert_eq!(p.feed_line("#cmd going \\\n"), ParserStep::NeedLine);
    let f = p.feed_failure("disk on fire".to_string());
    assert_eq!(f.info, FailureInfo::IoError { message: "disk on fire".to_string() });
    assert_eq!(f.source, None);
    assert_eq!(f.traceback, None);
    assert_eq!(p.pending, "");
    assert_eq!(p.line_number, 2);
}

#[test]
fn events_of_the_line_source() {
    let mut p = parser(1);
    assert_eq!(p.feed(LineEvent::Line("#a\n".to_string())), ParserStep::Command(named("a")));
    assert_eq!(p.feed(LineEvent::Line("\n".to_string())), ParserStep::NeedLine);
    match p.feed(LineEvent::Failed(IoFailure { kind: IoKind::Other, message: "gone".to_string() })) {
        ParserStep::Failed(f) => {
            assert_eq!(f.info, FailureInfo::IoError { message: "gone".to_string() });
            assert_eq!(f.source, None);
            assert_eq!(f.traceback, None);
        }
        other => panic!("{:?}", other),
    }
    assert_eq!(p.feed(LineEvent::End), ParserStep::Finished);
}

#[test]
fn iteration_stops_at_the_end() {
    let mut p = parser(1);
    let mut source = TextSource::new("#a\n#b(\n");
    assert_eq!(p.next(&mut source), Ok(named("a")));
    match p.next(&mut source) {
        Err(IterationEnd::Failed(f)) => assert_eq!(f.source.unwrap().lineno, 2),
        other => panic!("{:?}", other),
    }
    assert_eq!(p.next(&mut source), Err(IterationEnd::Stop));
}

#[test]
fn processing_reaches_the_end() {
    let mut p = parser(1);
    let mut source = TextSource::new("#cmd1\ntext\n#cmd2");
    let seen = std::cell::RefCell::new(Vec::new());
    let r: Result<bool, ProcessError<String>> = p.process_with(&mut source, |c: PyCommand| {
        seen.borrow_mut().push(c.name());
        Ok(true)
    });
    assert!(matches!(r, Ok(true)));
    assert_eq!(*seen.borrow(), vec!["cmd1", "@text", "cmd2"]);
    assert_eq!(p.next_command(&mut source), Ok(None));
}

#[test]
fn processing_stops_where_the_handler_says_so() {
    let mut p = parser(1);
    let mut source = TextSource::new("#cmd1\n#cmd2\n#cmd3");
    let seen = std::cell::RefCell::new(Vec::new());
    let r: Result<bool, ProcessError<String>> = p.process_with(&mut source, |c: PyCommand| {
        seen.borrow_mut().push(c.name());
        Ok(seen.borrow().len() < 2)
    });
    assert!(matches!(r, Ok(false)));
    assert_eq!(*seen.borrow(), vec!["cmd1", "cmd2"]);
    assert_eq!(p.next_command(&mut source), Ok(Some(named("cmd3"))));
}

#[test]
fn processing_hands_on_the_error_of_the_handler() {
    let mut p = parser(1);
    let mut source = TextSource::new("#cmd1\n#cmd2\n");
    let r: Result<bool, ProcessError<String>> =
        p.process_with(&mut source, |c: PyCommand| Err(format!("no {}", c.name())));
    match r {
        Err(ProcessError::Callback(e)) => assert_eq!(e, "no cmd1"),
        other => panic!("{:?}", other.is_ok()),
    }
    assert_eq!(source.position, 1);
}

#[test]
fn processing_hands_on_the_failure_of_a_line() {
    let mut p = parser(1);
    let mut source = TextSource::new("#cmd1\n#cmd2(\n#cmd3\n");
    let seen = std::cell::RefCell::new(Vec::new());
    let r: Result<bool, ProcessError<String>> = p.process_with(&mut source, |c: PyCommand| {
        seen.borrow_mut().push(c.name());
        Ok(true)
    });
    match r {
        Err(ProcessError::Parse(f)) => {
            assert_eq!(f.info, FailureInfo::UnexpectedInput { remaining: "(".to_string() });
            assert_eq!(f.source.unwrap().lineno, 2);
        }
        _ => panic!("expected the failure of line 2"),
    }
    assert_eq!(*seen.borrow(), vec!["cmd1"]);
}
