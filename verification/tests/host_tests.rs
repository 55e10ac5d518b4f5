use koilang::command::{Composite, Param, PyCommand, Scalar};
use koilang::host::{
    py_to_rs_composite_value, py_to_rs_parameter, py_to_rs_parameters, py_to_rs_value,
    rs_composite_value_to_py, rs_parameter_to_py, rs_value_to_py, set_entry, ConversionError, PyAtom,
    PyItem, PyObject,
};

fn s(text: &str) -> PyAtom {
    PyAtom::Str(text.to_string())
}

fn atom(a: PyAtom) -> PyObject {
    PyObject::Atom(a)
}

#[test]
fn scalars_of_the_host_are_values() {
    assert_eq!(py_to_rs_value(&atom(PyAtom::Int(-5))), Ok(Scalar::Int(-5)));
    assert_eq!(py_to_rs_value(&atom(PyAtom::Float("2.5".to_string()))), Ok(Scalar::Float("2.5".to_string())));
    assert_eq!(py_to_rs_value(&atom(s("text"))), Ok(Scalar::String("text".to_string())));
    assert_eq!(py_to_rs_value(&atom(PyAtom::Bool(true))), Ok(Scalar::Bool(true)));
}

#[test]
fn other_types_are_no_values() {
    assert_eq!(
        py_to_rs_value(&atom(PyAtom::Other("NoneType".to_string()))),
        Err(ConversionError::UnsupportedType("NoneType".to_string()))
    );
    assert_eq!(
        py_to_rs_value(&PyObject::List(vec![PyAtom::Int(1)])),
        Err(ConversionError::UnsupportedType("list".to_string()))
    );
    assert_eq!(
        py_to_rs_value(&PyObject::Dict(vec![])),
        Err(ConversionError::UnsupportedType("dict".to_string()))
    );
    assert_eq!(PyAtom::Int(1).name_of_type(), "int");
    assert_eq!(PyAtom::Float("1".to_string()).name_of_type(), "float");
    assert_eq!(s("x").name_of_type(), "str");
    assert_eq!(PyAtom::Bool(false).name_of_type(), "bool");
    assert_eq!(PyAtom::Other("set".to_string()).name_of_type(), "set");
    assert_eq!(PyObject::List(vec![]).name_of_type(), "list");
    assert_eq!(PyObject::Dict(vec![]).name_of_type(), "dict");
}

#[test]
fn lists_and_dictionaries_are_composite_values() {
    assert_eq!(
        py_to_rs_composite_value(&PyObject::List(vec![PyAtom::Int(1), s("two"), PyAtom::Bool(false)])),
        Ok(Composite::List(vec![
            Scalar::Int(1),
            Scalar::String("two".to_string()),
            Scalar::Bool(false)
        ]))
    );
    assert_eq!(py_to_rs_composite_value(&PyObject::List(vec![])), Ok(Composite::List(vec![])));
    assert_eq!(
        py_to_rs_composite_value(&PyObject::Dict(vec![(s("x"), PyAtom::Int(1)), (s("x"), PyAtom::Int(2))])),
        Ok(Composite::Dict(vec![("x".to_string(), Scalar::Int(1)), ("x".to_string(), Scalar::Int(2))]))
    );
    assert_eq!(py_to_rs_composite_value(&atom(PyAtom::Int(3))), Ok(Composite::Single(Scalar::Int(3))));
}

#[test]
fn the_first_item_that_is_no_value_is_reported() {
    assert_eq!(
        py_to_rs_composite_value(&PyObject::List(vec![
            PyAtom::Int(1),
            PyAtom::Other("list".to_string()),
            PyAtom::Other("set".to_string())
        ])),
        Err(ConversionError::UnsupportedType("list".to_string()))
    );
    assert_eq!(
        py_to_rs_composite_value(&PyObject::Dict(vec![
            (s("ok"), PyAtom::Int(1)),
            (PyAtom::Int(2), PyAtom::Other("set".to_string())),
            (s("late"), PyAtom::Other("bytes".to_string())),
        ])),
        Err(ConversionError::NotAString("int".to_string()))
    );
    assert_eq!(
        py_to_rs_composite_value(&PyObject::Dict(vec![
            (s("ok"), PyAtom::Other("bytes".to_string())),
            (PyAtom::Int(2), PyAtom::Int(2)),
        ])),
        Err(ConversionError::UnsupportedType("bytes".to_string()))
    );
    assert_eq!(
        py_to_rs_composite_value(&atom(PyAtom::Other("object".to_string()))),
        Err(ConversionError::UnsupportedType("object".to_string()))
    );
}

#[test]
fn tuples_of_two_are_named_parameters() {
    assert_eq!(
        py_to_rs_parameter(&PyItem::Tuple(vec![atom(s("name")), atom(PyAtom::Int(1))])),
        Ok(Param::Composite("name".to_string(), Composite::Single(Scalar::Int(1))))
    );
    assert_eq!(
        py_to_rs_parameter(&PyItem::Tuple(vec![atom(s("tags")), PyObject::List(vec![PyAtom::Int(1)])])),
        Ok(Param::Composite("tags".to_string(), Composite::List(vec![Scalar::Int(1)])))
    );
    assert_eq!(
        py_to_rs_parameter(&PyItem::Object(atom(s("bare")))),
        Ok(Param::Basic(Scalar::String("bare".to_string())))
    );
    assert_eq!(
        py_to_rs_parameter(&PyItem::Tuple(vec![atom(PyAtom::Int(1)), atom(PyAtom::Int(1))])),
        Err(ConversionError::NotAString("int".to_string()))
    );
    assert_eq!(
        py_to_rs_parameter(&PyItem::Tuple(vec![PyObject::List(vec![]), atom(PyAtom::Int(1))])),
        Err(ConversionError::NotAString("list".to_string()))
    );
    assert_eq!(
        py_to_rs_parameter(&PyItem::Tuple(vec![atom(s("a"))])),
        Err(ConversionError::UnsupportedType("tuple".to_string()))
    );
    assert_eq!(
        py_to_rs_parameter(&PyItem::Tuple(vec![])),
        Err(ConversionError::UnsupportedType("tuple".to_string()))
    );
    assert_eq!(
        py_to_rs_parameter(&PyItem::Tuple(vec![atom(s("a")), atom(s("b")), atom(s("c"))])),
        Err(ConversionError::UnsupportedType("tuple".to_string()))
    );
    assert_eq!(
        py_to_rs_parameter(&PyItem::Object(PyObject::List(vec![]))),
        Err(ConversionError::UnsupportedType("list".to_string()))
    );
    assert_eq!(
        py_to_rs_parameter(&PyItem::Tuple(vec![atom(s("a")), atom(PyAtom::Other("set".to_string()))])),
        Err(ConversionError::UnsupportedType("set".to_string()))
    );
}

#[test]
fn parameters_in_order_or_the_first_error() {
    let items = vec![
        PyItem::Object(atom(PyAtom::Int(1))),
        PyItem::Tuple(vec![atom(s("k")), atom(PyAtom::Bool(true))]),
    ];
    assert_eq!(
        py_to_rs_parameters(&items),
        Ok(vec![
            Param::Basic(Scalar::Int(1)),
            Param::Composite("k".to_string(), Composite::Single(Scalar::Bool(true)))
        ])
    );
    let bad = vec![
        PyItem::Object(atom(PyAtom::Int(1))),
        PyItem::Object(atom(PyAtom::Other("first".to_string()))),
        PyItem::Object(atom(PyAtom::Other("second".to_string()))),
    ];
    assert_eq!(py_to_rs_parameters(&bad), Err(ConversionError::UnsupportedType("first".to_string())));
    assert_eq!(py_to_rs_parameters(&vec![]), Ok(vec![]));
}

#[test]
fn values_of_commands_as_values_of_the_host() {
    assert_eq!(rs_value_to_py(&Scalar::Int(7)), atom(PyAtom::Int(7)));
    assert_eq!(rs_value_to_py(&Scalar::Float("0.5".to_string())), atom(PyAtom::Float("0.5".to_string())));
    assert_eq!(rs_value_to_py(&Scalar::Bool(true)), atom(PyAtom::Bool(true)));
    assert_eq!(rs_value_to_py(&Scalar::String("s".to_string())), atom(s("s")));
    assert_eq!(
        rs_composite_value_to_py(&Composite::List(vec![Scalar::Int(1), Scalar::Int(2)])),
        PyObject::List(vec![PyAtom::Int(1), PyAtom::Int(2)])
    );
    assert_eq!(rs_composite_value_to_py(&Composite::Single(Scalar::Int(1))), atom(PyAtom::Int(1)));
    assert_eq!(
        rs_parameter_to_py(&Param::Composite("n".to_string(), Composite::Single(Scalar::Int(1)))),
        PyItem::Tuple(vec![atom(s("n")), atom(PyAtom::Int(1))])
    );
    assert_eq!(rs_parameter_to_py(&Param::Basic(Scalar::Int(1))), PyItem::Object(atom(PyAtom::Int(1))));
}

#[test]
fn a_key_keeps_its_first_place_and_its_last_value() {
    let d = Composite::Dict(vec![
        ("a".to_string(), Scalar::Int(1)),
        ("b".to_string(), Scalar::Int(2)),
        ("a".to_string(), Scalar::Int(3)),
        ("c".to_string(), Scalar::Int(4)),
        ("b".to_string(), Scalar::Int(5)),
    ]);
    assert_eq!(
        rs_composite_value_to_py(&d),
        PyObject::Dict(vec![
            (s("a"), PyAtom::Int(3)),
            (s("b"), PyAtom::Int(5)),
            (s("c"), PyAtom::Int(4)),
        ])
    );
    let mut entries: Vec<(String, Scalar)> = vec![];
    set_entry(&mut entries, "x".to_string(), Scalar::Int(1));
    set_entry(&mut entries, "y".to_string(), Scalar::Int(2));
    set_entry(&mut entries, "x".to_string(), Scalar::Int(3));
    assert_eq!(entries, vec![("x".to_string(), Scalar::Int(3)), ("y".to_string(), Scalar::Int(2))]);
}

#[test]
fn conversion_there_and_back() {
    let params = vec![
        Param::Basic(Scalar::Int(1)),
        Param::Basic(Scalar::Float("1.5".to_string())),
        Param::Basic(Scalar::Bool(false)),
        Param::Basic(Scalar::String("x".to_string())),
        Param::Composite("one".to_string(), Composite::Single(Scalar::Int(1))),
        Param::Composite("list".to_string(), Composite::List(vec![Scalar::Int(1), Scalar::Int(2)])),
        Param::Composite(
            "dict".to_string(),
            Composite::Dict(vec![("k".to_string(), Scalar::Int(1)), ("l".to_string(), Scalar::Int(2))]),
        ),
    ];
    for p in &params {
        assert_eq!(py_to_rs_parameter(&rs_parameter_to_py(p)), Ok(p.duplicate()));
    }
}

#[test]
fn commands_from_items_of_the_host() {
    let items = vec![
        PyItem::Object(atom(s("Alice"))),
        PyItem::Tuple(vec![atom(s("age")), atom(PyAtom::Int(30))]),
        PyItem::Object(atom(PyAtom::Int(2))),
        PyItem::Tuple(vec![atom(s("age")), atom(PyAtom::Int(31))]),
        PyItem::Tuple(vec![atom(s("tags")), PyObject::List(vec![s("a")])]),
    ];
    let c = PyCommand::new("character".to_string(), items.clone()).unwrap();
    assert_eq!(c.name(), "character");
    assert_eq!(c.params(), items);
    assert_eq!(c.args(), vec![atom(s("Alice")), atom(PyAtom::Int(2))]);
    assert_eq!(
        c.kwargs(),
        vec![
            ("age".to_string(), atom(PyAtom::Int(31))),
            ("tags".to_string(), PyObject::List(vec![s("a")])),
        ]
    );
    assert_eq!(
        PyCommand::new("x".to_string(), vec![PyItem::Object(atom(PyAtom::Other("set".to_string())))]),
        Err(ConversionError::UnsupportedType("set".to_string()))
    );
    let n = PyCommand::new_number(5, vec![PyItem::Object(atom(s("extra")))]).unwrap();
    assert_eq!(
        n,
        PyCommand::number_with_params(5, vec![Param::Basic(Scalar::String("extra".to_string()))])
    );
    assert_eq!(n.name(), "@number");
    assert_eq!(n.args(), vec![atom(PyAtom::Int(5)), atom(s("extra"))]);
    assert!(PyCommand::new_number(5, vec![PyItem::Tuple(vec![])]).is_err());
    assert_eq!(PyCommand::new_text("t".to_string()).name(), "@text");
    assert_eq!(PyCommand::new_annotation("t".to_string()).name(), "@annotation");
    assert_eq!(PyCommand::new_text("t".to_string()).args(), vec![atom(s("t"))]);
}

#[test]
fn changing_a_command() {
    let mut c = PyCommand::new("a".to_string(), vec![PyItem::Object(atom(PyAtom::Int(1)))]).unwrap();
    c.set_name("b".to_string());
    assert_eq!(c.name, "b");
    assert_eq!(c.add_param(&PyItem::Object(atom(s("x")))), Ok(()));
    assert_eq!(
        c.params,
        vec![Param::Basic(Scalar::Int(1)), Param::Basic(Scalar::String("x".to_string()))]
    );
    assert_eq!(c.parameters().len(), 2);
    assert_eq!(
        c.add_param(&PyItem::Object(PyObject::Dict(vec![]))),
        Err(ConversionError::UnsupportedType("dict".to_string()))
    );
    assert_eq!(c.params.len(), 2);
    assert_eq!(
        c.set_params(vec![PyItem::Object(atom(PyAtom::Int(9))), PyItem::Tuple(vec![])]),
        Err(ConversionError::UnsupportedType("tuple".to_string()))
    );
    assert_eq!(c.params.len(), 2);
    assert_eq!(c.set_params(vec![PyItem::Object(atom(PyAtom::Int(9)))]), Ok(()));
    assert_eq!(c.params, vec![Param::Basic(Scalar::Int(9))]);
    assert_eq!(c.name, "b");
}

#[test]
fn a_command_on_one_line() {
    let c = PyCommand::with_params(
        "hello".to_string(),
        vec![
            Param::Basic(Scalar::String("world".to_string())),
            Param::Basic(Scalar::Int(10)),
            Param::Composite("a".to_string(), Composite::Single(Scalar::Int(10))),
            Param::Composite("l".to_string(), Composite::List(vec![Scalar::Int(1), Scalar::Int(2)])),
        ],
    );
    assert_eq!(c.to_text(), "hello world 10 a(10) l(1, 2)");
    assert_eq!(PyCommand::new_text("hello world".to_string()).to_text(), "@text \"hello world\"");
    assert_eq!(
        PyCommand::with_params("f".to_string(), vec![Param::Basic(Scalar::Float("1.23".to_string()))]).to_text(),
        "f 1.23"
    );
}

#[test]
fn the_description_of_a_command() {
    let c = PyCommand::with_params("name".to_string(), vec![]);
    assert_eq!(c.repr(&vec![]), "Command('name', [])");
    assert_eq!(c.repr(&vec!["1".to_string()]), "Command('name', [1])");
    assert_eq!(
        c.repr(&vec!["1".to_string(), "'two'".to_string(), "('k', [3])".to_string()]),
        "Command('name', [1, 'two', ('k', [3])])"
    );
}
