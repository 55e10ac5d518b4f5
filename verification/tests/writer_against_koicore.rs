use std::collections::HashMap;

use koilang::command::{Composite, Param, PyCommand, Scalar};
use koilang::options::{PyFormatterOptions, PyNumberFormat};
use koilang::writer::{PyParamFormatSelector, PyWriter, PyWriterConfig};

fn unset() -> PyFormatterOptions {
    PyFormatterOptions::unset()
}

fn their_scalar(v: &Scalar) -> koicore::command::Value {
    match v {
        Scalar::Int(i) => koicore::command::Value::Int(*i),
        Scalar::Float(s) => koicore::command::Value::Float(s.parse().unwrap()),
        Scalar::Bool(b) => koicore::command::Value::Bool(*b),
        Scalar::String(s) => koicore::command::Value::String(s.clone()),
    }
}

fn their_command(c: &PyCommand) -> koicore::command::Command {
    let params = c
        .params
        .iter()
        .map(|p| match p {
            Param::Basic(v) => koicore::command::Parameter::Basic(their_scalar(v)),
            Param::Composite(n, v) => koicore::command::Parameter::Composite(
                n.clone(),
                match v {
                    Composite::Single(x) => koicore::command::CompositeValue::Single(their_scalar(x)),
                    Composite::List(xs) => {
                        koicore::command::CompositeValue::List(xs.iter().map(their_scalar).collect())
                    }
                    Composite::Dict(es) => koicore::command::CompositeValue::Dict(
                        es.iter().map(|e| (e.0.clone(), their_scalar(&e.1))).collect(),
                    ),
                },
            ),
        })
        .collect();
    koicore::command::Command::new(c.name.clone(), params)
}

fn their_options(o: &PyFormatterOptions) -> koicore::writer::FormatterOptions {
    koicore::writer::FormatterOptions {
        indent: o.indent,
        use_tabs: o.use_tabs,
        newline_before: o.newline_before,
        newline_after: o.newline_after,
        compact: o.compact,
        force_quotes_for_vars: o.force_quotes_for_vars,
        number_format: match o.number_format {
            PyNumberFormat::Unknown => koicore::writer::NumberFormat::Unknown,
            PyNumberFormat::Decimal => koicore::writer::NumberFormat::Decimal,
            PyNumberFormat::Hex => koicore::writer::NumberFormat::Hex,
            PyNumberFormat::Octal => koicore::writer::NumberFormat::Octal,
            PyNumberFormat::Binary => koicore::writer::NumberFormat::Binary,
        },
        float_format: Default::default(),
        newline_before_param: o.newline_before_param,
        newline_after_param: o.newline_after_param,
        should_override: o.should_override,
    }
}

fn their_selector(s: &PyParamFormatSelector) -> koicore::writer::ParamFormatSelector {
    match s {
        PyParamFormatSelector::Position(p) => koicore::writer::ParamFormatSelector::Position(*p),
        PyParamFormatSelector::Name(n) => koicore::writer::ParamFormatSelector::Name(n.clone()),
    }
}

fn commands() -> Vec<PyCommand> {
    vec![
        PyCommand::with_params("plain".to_string(), vec![]),
        PyCommand::with_params(
            "character".to_string(),
            vec![
                Param::Basic(Scalar::String("Alice".to_string())),
                Param::Basic(Scalar::String("Hello, world!".to_string())),
            ],
        ),
        PyCommand::with_params(
            "test".to_string(),
            vec![
                Param::Basic(Scalar::Int(42)),
                Param::Basic(Scalar::Int(-255)),
                Param::Basic(Scalar::Float("1.5".to_string())),
                Param::Basic(Scalar::Bool(true)),
                Param::Composite("composite".to_string(), Composite::Single(Scalar::Int(42))),
                Param::Composite(
                    "list".to_string(),
                    Composite::List(vec![Scalar::Int(1), Scalar::String("two words".to_string())]),
                ),
                Param::Composite(
                    "dict".to_string(),
                    Composite::Dict(vec![
                        ("x".to_string(), Scalar::Int(16)),
                        ("y".to_string(), Scalar::String("v".to_string())),
                    ]),
                ),
                Param::Basic(Scalar::String("tail\n\t\"q\"\\".to_string())),
            ],
        ),
        PyCommand::new_text("Hello, world!".to_string()),
        PyCommand::new_text("two\nlines\\".to_string()),
        PyCommand::new_annotation("This is an annotation".to_string()),
        PyCommand::new_annotation("## already marked".to_string()),
        PyCommand::number_with_params(123, vec![Param::Basic(Scalar::String("extra".to_string()))]),
        PyCommand::number_with_params(
            7,
            vec![
                Param::Basic(Scalar::Int(255)),
                Param::Composite("n".to_string(), Composite::Single(Scalar::Int(8))),
            ],
        ),
        PyCommand::with_params("@number".to_string(), vec![Param::Basic(Scalar::String("x".to_string()))]),
        PyCommand::with_params("@text".to_string(), vec![]),
    ]
}

fn layers() -> Vec<PyFormatterOptions> {
    vec![
        unset(),
        PyFormatterOptions { indent: 2, ..unset() },
        PyFormatterOptions { use_tabs: true, ..unset() },
        PyFormatterOptions { compact: true, ..unset() },
        PyFormatterOptions { newline_before: true, ..unset() },
        PyFormatterOptions { newline_after: true, ..unset() },
        PyFormatterOptions { newline_before: true, newline_after: true, ..unset() },
        PyFormatterOptions { force_quotes_for_vars: true, ..unset() },
        PyFormatterOptions { number_format: PyNumberFormat::Hex, ..unset() },
        PyFormatterOptions { number_format: PyNumberFormat::Octal, newline_after_param: true, ..unset() },
        PyFormatterOptions { number_format: PyNumberFormat::Binary, newline_before_param: true, ..unset() },
        PyFormatterOptions { indent: 3, should_override: true, ..unset() },
        PyFormatterOptions { should_override: true, ..unset() },
        PyFormatterOptions { number_format: PyNumberFormat::Decimal, compact: true, should_override: true, ..unset() },
    ]
}

fn selections() -> Vec<Vec<(PyParamFormatSelector, PyFormatterOptions)>> {
    let l = layers();
    vec![
        vec![],
        vec![(PyParamFormatSelector::by_position(0), l[8])],
        vec![
            (PyParamFormatSelector::by_position(1), l[9]),
            (PyParamFormatSelector::by_position(4), l[10]),
            (PyParamFormatSelector::by_name("composite"), l[8]),
        ],
        vec![
            (PyParamFormatSelector::by_name("list"), l[3]),
            (PyParamFormatSelector::by_name("dict"), l[13]),
            (PyParamFormatSelector::by_position(6), l[7]),
            (PyParamFormatSelector::by_name("n"), l[10]),
            (PyParamFormatSelector::by_position(7), l[12]),
        ],
        vec![(PyParamFormatSelector::by_position(0), l[10]), (PyParamFormatSelector::by_position(1), l[11])],
    ]
}

fn same_text(
    config: &PyWriterConfig,
    level: usize,
    call: Option<&PyFormatterOptions>,
    selected: &Vec<(PyParamFormatSelector, PyFormatterOptions)>,
) {
    let their_config = koicore::writer::WriterConfig {
        global_options: their_options(&config.global_options),
        command_options: config
            .command_options
            .iter()
            .map(|(k, v)| (k.clone(), their_options(v)))
            .collect(),
        command_threshold: config.command_threshold,
    };
    let mut theirs = koicore::writer::Writer::new(Vec::new(), their_config);
    let mut ours = PyWriter::new(Some(config.clone()));
    for _ in 0..level {
        theirs.inc_indent();
        ours.inc_indent();
    }
    let their_call = call.map(their_options);
    let owned: Vec<_> = selected.iter().map(|(s, o)| (their_selector(s), their_options(o))).collect();
    let their_selected: HashMap<_, _> = owned.iter().map(|(s, o)| (s.clone(), o)).collect();
    let mut written = String::new();
    for round in 0..2 {
        for c in commands() {
            theirs
                .write_command_with_options(
                    &their_command(&c),
                    their_call.as_ref(),
                    if selected.is_empty() { None } else { Some(&their_selected) },
                )
                .unwrap();
            written.push_str(&ours.write_command_with_options(&c, call, Some(selected)));
            let expected = String::from_utf8(theirs.as_ref().clone()).unwrap();
            assert_eq!(
                expected, written,
                "round {} command {:?} level {} call {:?} selected {:?} config {:?}",
                round, c, level, call, selected, config
            );
        }
        theirs.newline().unwrap();
        written.push_str(&ours.newline());
    }
    assert_eq!(theirs.get_indent(), ours.get_indent());
}

#[test]
fn writer_agrees_with_koicore_on_global_layers() {
    for g in layers() {
        let config = PyWriterConfig { global_options: g, command_options: vec![], command_threshold: 1 };
        for level in 0..3 {
            same_text(&config, level, None, &vec![]);
        }
    }
}

#[test]
fn writer_agrees_with_koicore_on_call_layers() {
    for g in [layers()[0], layers()[1], layers()[9]] {
        for call in layers() {
            let config = PyWriterConfig { global_options: g, command_options: vec![], command_threshold: 2 };
            same_text(&config, 1, Some(&call), &vec![]);
        }
    }
}

#[test]
fn writer_agrees_with_koicore_on_registered_layers() {
    for registered in layers() {
        for call in [None, Some(layers()[2]), Some(layers()[11])] {
            let config = PyWriterConfig {
                global_options: PyWriterConfig::default_config().global_options,
                command_options: vec![
                    ("test".to_string(), layers()[5]),
                    ("test".to_string(), registered),
                    ("@number".to_string(), registered),
                    ("@text".to_string(), layers()[1]),
                ],
                command_threshold: 1,
            };
            same_text(&config, 2, call.as_ref(), &vec![]);
        }
    }
}

#[test]
fn writer_agrees_with_koicore_on_selected_layers() {
    for selected in selections() {
        for g in layers() {
            let config = PyWriterConfig { global_options: g, command_options: vec![], command_threshold: 1 };
            same_text(&config, 1, None, &selected);
            same_text(&config, 0, Some(&layers()[4]), &selected);
        }
    }
}

#[test]
fn writer_agrees_with_koicore_on_thresholds() {
    for threshold in 0..4 {
        let config = PyWriterConfig {
            global_options: PyWriterConfig::default_config().global_options,
            command_options: vec![],
            command_threshold: threshold,
        };
        same_text(&config, 0, None, &vec![]);
    }
}
