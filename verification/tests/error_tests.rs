use koilang::error::{PyParserLineSource, PyTracebackEntry};

fn tree() -> PyTracebackEntry {
    let mut root = PyTracebackEntry::new(1, 6, 13, "koicore.parameter".to_string());
    let mut middle = PyTracebackEntry::new(1, 6, 13, "koicore.composite_parameter".to_string());
    middle.children.push(PyTracebackEntry::new(1, 12, 13, "nom.char<')'>".to_string()));
    middle.children.push(PyTracebackEntry::new(2, 1, 2, "second".to_string()));
    root.children.push(middle);
    root
}

#[test]
fn a_frame_and_what_it_holds() {
    let t = PyTracebackEntry::new(4, 2, 7, "ctx".to_string());
    assert_eq!(t.lineno(), 4);
    assert_eq!(t.column_range(), (2, 7));
    assert_eq!(t.start_column(), 2);
    assert_eq!(t.end_column(), 7);
    assert_eq!(t.context(), "ctx");
    assert!(!t.has_children());
    assert_eq!(t.children(), vec![]);
    let r = tree();
    assert!(r.has_children());
    assert_eq!(r.children().len(), 1);
    assert_eq!(r.children()[0].children().len(), 2);
    assert_eq!(r.children()[0].children()[1], PyTracebackEntry::new(2, 1, 2, "second".to_string()));
    assert_eq!(r.clone(), r);
    assert_eq!(r.duplicate(), r);
}

#[test]
fn the_description_of_a_frame() {
    assert_eq!(
        PyTracebackEntry::new(4, 2, 7, "ctx".to_string()).repr(),
        "TracebackEntry(lineno=4, column_range=(2, 7), context=ctx, len(children)=0)"
    );
    assert_eq!(
        tree().repr(),
        "TracebackEntry(lineno=1, column_range=(6, 13), context=koicore.parameter, len(children)=1)"
    );
    assert_eq!(
        tree().children[0].repr(),
        "TracebackEntry(lineno=1, column_range=(6, 13), context=koicore.composite_parameter, len(children)=2)"
    );
}

#[test]
fn the_drawing_of_a_tree() {
    let theirs = koicore::parser::TracebackEntry {
        lineno: 1,
        column_range: (6, 13),
        context: "koicore.parameter".to_string(),
        children: vec![koicore::parser::TracebackEntry {
            lineno: 1,
            column_range: (6, 13),
            context: "koicore.composite_parameter".to_string(),
            children: vec![
                koicore::parser::TracebackEntry::new(1, (12, 13), "nom.char<')'>".to_string()),
                koicore::parser::TracebackEntry::new(2, (1, 2), "second".to_string()),
            ],
        }],
    };
    let drawn = tree().to_text();
    assert_eq!(drawn, theirs.to_string().trim_end());
    assert!(drawn.starts_with("├─ koicore.parameter (6–13)\n"));
    assert!(drawn.ends_with("second (1–2)"));
    assert_eq!(drawn.lines().count(), 4);
    assert_eq!(PyTracebackEntry::new(1, 0, 0, "x".to_string()).to_text(), "├─ x (0–0)");
}

#[test]
fn the_line_of_a_failure() {
    let s = PyParserLineSource::new("story.koi".to_string(), 12, Some("#cmd (".to_string()));
    assert_eq!(s.filename, "story.koi");
    assert_eq!(s.lineno, 12);
    assert_eq!(s.text, Some("#cmd (".to_string()));
    assert_eq!(s.repr(), "KoiParserLineSource(filename='story.koi', lineno=12)");
    assert_eq!(
        PyParserLineSource::new("".to_string(), 0, None).repr(),
        "KoiParserLineSource(filename='', lineno=0)"
    );
}
