//! Values of the host language, and how they become values of commands and
//! the other way round.
//!
//! The host's values are dynamic. What this library reads of one is held in
//! [`PyObject`]: a scalar, a list or a dictionary of scalars; and, for what
//! is given as a parameter, in [`PyItem`], which can also be a tuple. Whatever
//! lies deeper, or is of another type, is held by the name of its type alone.

use vstd::prelude::*;
use crate::engine::{display_command, displayed_command};
use crate::text::{string_of, push_text};
use crate::command::{
    Scalar, ScalarModel, Composite, CompositeModel, Param, ParamModel, PyCommand,
    scalars_view, entries_view, params_view, number_command,
};

verus! {

/// A scalar of the host, or the name of the type of a value that is none.
#[derive(Clone, Debug, PartialEq, Eq)]
pub enum PyAtom {
    Int(i64),
    /// A floating-point number, as its shortest decimal numeral.
    Float(String),
    Str(String),
    Bool(bool),
    Other(String),
}

/// What a [`PyAtom`] stands for in contracts.
pub enum AtomModel {
    Int(int),
    Float(Seq<char>),
    Str(Seq<char>),
    Bool(bool),
    Other(Seq<char>),
}

impl View for PyAtom {
    type V = AtomModel;

    open spec fn view(&self) -> AtomModel {
        match self {
            PyAtom::Int(i) => AtomModel::Int(*i as int),
            PyAtom::Float(x) => AtomModel::Float(x@),
            PyAtom::Str(s) => AtomModel::Str(s@),
            PyAtom::Bool(b) => AtomModel::Bool(*b),
            PyAtom::Other(n) => AtomModel::Other(n@),
        }
    }
}

/// A value of the host: a scalar, a list or a dictionary. The entries of a
/// dictionary stand in the order in which the host gives them.
#[derive(Clone, Debug, PartialEq, Eq)]
pub enum PyObject {
    Atom(PyAtom),
    List(Vec<PyAtom>),
    Dict(Vec<(PyAtom, PyAtom)>),
}

/// What a [`PyObject`] stands for in contracts.
pub enum ObjectModel {
    Atom(AtomModel),
    List(Seq<AtomModel>),
    Dict(Seq<(AtomModel, AtomModel)>),
}

/// The views of a sequence of scalars of the host, in order.
pub open spec fn atoms_view(s: Seq<PyAtom>) -> Seq<AtomModel> {
    s.map_values(|a: PyAtom| a@)
}

/// The views of a sequence of entries of a dictionary of the host, in order.
pub open spec fn pairs_view(s: Seq<(PyAtom, PyAtom)>) -> Seq<(AtomModel, AtomModel)> {
    s.map_values(|e: (PyAtom, PyAtom)| (e.0@, e.1@))
}

impl View for PyObject {
    type V = ObjectModel;

    open spec fn view(&self) -> ObjectModel {
        match self {
            PyObject::Atom(a) => ObjectModel::Atom(a@),
            PyObject::List(items) => ObjectModel::List(atoms_view(items@)),
            PyObject::Dict(entries) => ObjectModel::Dict(pairs_view(entries@)),
        }
    }
}

/// What is given or taken as a parameter: a value, or a tuple of values.
#[derive(Clone, Debug, PartialEq, Eq)]
pub enum PyItem {
    Object(PyObject),
    Tuple(Vec<PyObject>),
}

/// What a [`PyItem`] stands for in contracts.
pub enum ItemModel {
    Object(ObjectModel),
    Tuple(Seq<ObjectModel>),
}

/// The views of a sequence of values of the host, in order.
pub open spec fn objects_view(s: Seq<PyObject>) -> Seq<ObjectModel> {
    s.map_values(|o: PyObject| o@)
}

/// The views of a sequence of items, in order.
pub open spec fn items_view(s: Seq<PyItem>) -> Seq<ItemModel> {
    s.map_values(|i: PyItem| i@)
}

impl View for PyItem {
    type V = ItemModel;

    open spec fn view(&self) -> ItemModel {
        match self {
            PyItem::Object(o) => ItemModel::Object(o@),
            PyItem::Tuple(items) => ItemModel::Tuple(objects_view(items@)),
        }
    }
}

/// Why a value of the host is no value of a command.
#[derive(Clone, Debug, PartialEq, Eq)]
pub enum ConversionError {
    /// The value is of a type that no value of a command has; with the name
    /// of the type.
    UnsupportedType(String),
    /// A name or a key is no string; with the name of its type.
    NotAString(String),
}

/// What a [`ConversionError`] stands for in contracts.
pub enum ConversionErrorModel {
    UnsupportedType(Seq<char>),
    NotAString(Seq<char>),
}

impl View for ConversionError {
    type V = ConversionErrorModel;

    open spec fn view(&self) -> ConversionErrorModel {
        match self {
            ConversionError::UnsupportedType(n) => ConversionErrorModel::UnsupportedType(n@),
            ConversionError::NotAString(n) => ConversionErrorModel::NotAString(n@),
        }
    }
}

/// The name of the type of a scalar of the host.
pub open spec fn atom_type_name(a: AtomModel) -> Seq<char> {
    match a {
        AtomModel::Int(_) => "int"@,
        AtomModel::Float(_) => "float"@,
        AtomModel::Str(_) => "str"@,
        AtomModel::Bool(_) => "bool"@,
        AtomModel::Other(n) => n,
    }
}

/// The name of the type of a value of the host.
pub open spec fn object_type_name(o: ObjectModel) -> Seq<char> {
    match o {
        ObjectModel::Atom(a) => atom_type_name(a),
        ObjectModel::List(_) => "list"@,
        ObjectModel::Dict(_) => "dict"@,
    }
}

/// The value of a command that a scalar of the host is: an integer, a
/// number, a string and a truth value are values; nothing else is.
pub open spec fn scalar_of_atom(a: AtomModel) -> Result<ScalarModel, ConversionErrorModel> {
    match a {
        AtomModel::Int(i) => Ok(ScalarModel::Int(i)),
        AtomModel::Float(x) => Ok(ScalarModel::Float(x)),
        AtomModel::Str(s) => Ok(ScalarModel::String(s)),
        AtomModel::Bool(b) => Ok(ScalarModel::Bool(b)),
        AtomModel::Other(n) => Err(ConversionErrorModel::UnsupportedType(n)),
    }
}

/// The value of a command that a value of the host is. A list and a
/// dictionary are none.
pub open spec fn scalar_of_object(o: ObjectModel) -> Result<ScalarModel, ConversionErrorModel> {
    match o {
        ObjectModel::Atom(a) => scalar_of_atom(a),
        _ => Err(ConversionErrorModel::UnsupportedType(object_type_name(o))),
    }
}

/// The values of a list, in order; the error of the first item that is no
/// value.
pub open spec fn scalars_of_atoms(items: Seq<AtomModel>) -> Result<
    Seq<ScalarModel>,
    ConversionErrorModel,
>
    decreases items.len(),
{
    if items.len() == 0 {
        Ok(Seq::empty())
    } else {
        match scalars_of_atoms(items.drop_last()) {
            Err(e) => Err(e),
            Ok(before) => match scalar_of_atom(items.last()) {
                Ok(v) => Ok(before.push(v)),
                Err(e) => Err(e),
            },
        }
    }
}

/// The entry of a composite dictionary that an entry of a dictionary of the
/// host is: its key must be a string and its value a value.
pub open spec fn entry_of_pair(e: (AtomModel, AtomModel)) -> Result<
    (Seq<char>, ScalarModel),
    ConversionErrorModel,
> {
    match e.0 {
        AtomModel::Str(k) => match scalar_of_atom(e.1) {
            Ok(v) => Ok((k, v)),
            Err(err) => Err(err),
        },
        _ => Err(ConversionErrorModel::NotAString(atom_type_name(e.0))),
    }
}

/// The entries of a dictionary, in order; the error of the first entry that
/// is none.
pub open spec fn entries_of_pairs(pairs: Seq<(AtomModel, AtomModel)>) -> Result<
    Seq<(Seq<char>, ScalarModel)>,
    ConversionErrorModel,
>
    decreases pairs.len(),
{
    if pairs.len() == 0 {
        Ok(Seq::empty())
    } else {
        match entries_of_pairs(pairs.drop_last()) {
            Err(e) => Err(e),
            Ok(before) => match entry_of_pair(pairs.last()) {
                Ok(v) => Ok(before.push(v)),
                Err(e) => Err(e),
            },
        }
    }
}

/// The composite value that a value of the host is: a list is a list, a
/// dictionary a dictionary, and anything else a single value.
pub open spec fn composite_of_object(o: ObjectModel) -> Result<CompositeModel, ConversionErrorModel> {
    match o {
        ObjectModel::List(items) => match scalars_of_atoms(items) {
            Ok(vs) => Ok(CompositeModel::List(vs)),
            Err(e) => Err(e),
        },
        ObjectModel::Dict(pairs) => match entries_of_pairs(pairs) {
            Ok(es) => Ok(CompositeModel::Dict(es)),
            Err(e) => Err(e),
        },
        ObjectModel::Atom(a) => match scalar_of_atom(a) {
            Ok(v) => Ok(CompositeModel::Single(v)),
            Err(e) => Err(e),
        },
    }
}

/// The parameter that an item is: a tuple of two is a named parameter, whose
/// name must be a string; any other item is a bare value, which a tuple is
/// not.
pub open spec fn param_of_item(item: ItemModel) -> Result<ParamModel, ConversionErrorModel> {
    match item {
        ItemModel::Tuple(t) => if t.len() == 2 {
            match t[0] {
                ObjectModel::Atom(AtomModel::Str(name)) => match composite_of_object(t[1]) {
                    Ok(v) => Ok(ParamModel::Composite(name, v)),
                    Err(e) => Err(e),
                },
                _ => Err(ConversionErrorModel::NotAString(object_type_name(t[0]))),
            }
        } else {
            Err(ConversionErrorModel::UnsupportedType("tuple"@))
        },
        ItemModel::Object(o) => match scalar_of_object(o) {
            Ok(v) => Ok(ParamModel::Basic(v)),
            Err(e) => Err(e),
        },
    }
}

/// The parameters of a list of items, in order; the error of the first item
/// that is no parameter.
pub open spec fn params_of_items(items: Seq<ItemModel>) -> Result<
    Seq<ParamModel>,
    ConversionErrorModel,
>
    decreases items.len(),
{
    if items.len() == 0 {
        Ok(Seq::empty())
    } else {
        match params_of_items(items.drop_last()) {
            Err(e) => Err(e),
            Ok(before) => match param_of_item(items.last()) {
                Ok(v) => Ok(before.push(v)),
                Err(e) => Err(e),
            },
        }
    }
}

/// The scalar of the host that a value of a command is.
pub open spec fn atom_of_scalar(v: ScalarModel) -> AtomModel {
    match v {
        ScalarModel::Int(i) => AtomModel::Int(i),
        ScalarModel::Float(x) => AtomModel::Float(x),
        ScalarModel::Bool(b) => AtomModel::Bool(b),
        ScalarModel::String(s) => AtomModel::Str(s),
    }
}

/// A dictionary of the host after `key` was set to `value`: the entry with
/// that key has the new value and keeps its place; without such an entry, a
/// new one stands at the end.
pub open spec fn dict_set<V>(entries: Seq<(Seq<char>, V)>, key: Seq<char>, value: V) -> Seq<
    (Seq<char>, V),
>
    decreases entries.len(),
{
    if entries.len() == 0 {
        seq![(key, value)]
    } else if entries[0].0 == key {
        seq![(key, value)] + entries.drop_first()
    } else {
        seq![entries[0]] + dict_set(entries.drop_first(), key, value)
    }
}

/// The dictionary of the host that is built by setting the entries of
/// `entries` one after the other.
pub open spec fn dict_of<V>(entries: Seq<(Seq<char>, V)>) -> Seq<(Seq<char>, V)>
    decreases entries.len(),
{
    if entries.len() == 0 {
        Seq::empty()
    } else {
        dict_set(dict_of(entries.drop_last()), entries.last().0, entries.last().1)
    }
}

/// The value of the host that a composite value is. In the dictionary, a key
/// that occurs more than once keeps its first place and its last value.
pub open spec fn object_of_composite(v: CompositeModel) -> ObjectModel {
    match v {
        CompositeModel::Single(x) => ObjectModel::Atom(atom_of_scalar(x)),
        CompositeModel::List(xs) => ObjectModel::List(xs.map_values(|x| atom_of_scalar(x))),
        CompositeModel::Dict(es) => ObjectModel::Dict(
            dict_of(es).map_values(
                |e: (Seq<char>, ScalarModel)| (AtomModel::Str(e.0), atom_of_scalar(e.1)),
            ),
        ),
    }
}

/// The item that a parameter is: a bare value is a value, a named parameter
/// the tuple of its name and its value.
pub open spec fn item_of_param(p: ParamModel) -> ItemModel {
    match p {
        ParamModel::Basic(v) => ItemModel::Object(ObjectModel::Atom(atom_of_scalar(v))),
        ParamModel::Composite(name, v) => ItemModel::Tuple(
            seq![ObjectModel::Atom(AtomModel::Str(name)), object_of_composite(v)],
        ),
    }
}

impl PyAtom {
    /// The name of the type of this scalar.
    pub fn name_of_type(&self) -> (r: String)
        ensures
            r@ == atom_type_name(self@),
    {
        match self {
            PyAtom::Int(_) => "int".to_owned(),
            PyAtom::Float(_) => "float".to_owned(),
            PyAtom::Str(_) => "str".to_owned(),
            PyAtom::Bool(_) => "bool".to_owned(),
            PyAtom::Other(n) => n.clone(),
        }
    }

    /// The value of a command that this scalar is.
    pub fn to_scalar(&self) -> (r: Result<Scalar, ConversionError>)
        ensures
            match r {
                Ok(v) => scalar_of_atom(self@) == Ok::<ScalarModel, ConversionErrorModel>(v@),
                Err(e) => scalar_of_atom(self@) == Err::<ScalarModel, ConversionErrorModel>(e@),
            },
    {
        match self {
            PyAtom::Int(i) => Ok(Scalar::Int(*i)),
            PyAtom::Float(x) => Ok(Scalar::Float(x.clone())),
            PyAtom::Str(s) => Ok(Scalar::String(s.clone())),
            PyAtom::Bool(b) => Ok(Scalar::Bool(*b)),
            PyAtom::Other(n) => Err(ConversionError::UnsupportedType(n.clone())),
        }
    }
}

impl PyObject {
    /// The name of the type of this value.
    pub fn name_of_type(&self) -> (r: String)
        ensures
            r@ == object_type_name(self@),
    {
        match self {
            PyObject::Atom(a) => a.name_of_type(),
            PyObject::List(_) => "list".to_owned(),
            PyObject::Dict(_) => "dict".to_owned(),
        }
    }
}

/// The value of a command that `obj` is; the error names the type of a value
/// that is none.
pub fn py_to_rs_value(obj: &PyObject) -> (r: Result<Scalar, ConversionError>)
    ensures
        match r {
            Ok(v) => scalar_of_object(obj@) == Ok::<ScalarModel, ConversionErrorModel>(v@),
            Err(e) => scalar_of_object(obj@) == Err::<ScalarModel, ConversionErrorModel>(e@),
        },
{
    match obj {
        PyObject::Atom(a) => a.to_scalar(),
        _ => Err(ConversionError::UnsupportedType(obj.name_of_type())),
    }
}

/// The values of a list of the host, in order.
fn atoms_to_scalars(items: &Vec<PyAtom>) -> (r: Result<Vec<Scalar>, ConversionError>)
    ensures
        match r {
            Ok(vs) => scalars_of_atoms(atoms_view(items@)) == Ok::<
                Seq<ScalarModel>,
                ConversionErrorModel,
            >(scalars_view(vs@)),
            Err(e) => scalars_of_atoms(atoms_view(items@)) == Err::<
                Seq<ScalarModel>,
                ConversionErrorModel,
            >(e@),
        },
{
    let mut out: Vec<Scalar> = Vec::new();
    let mut i: usize = 0;
    proof {
        assert(atoms_view(items@).take(0) =~= Seq::empty());
        assert(scalars_view(out@) =~= Seq::empty());
    }
    while i < items.len()
        invariant
            i <= items.len(),
            scalars_of_atoms(atoms_view(items@).take(i as int)) == Ok::<
                Seq<ScalarModel>,
                ConversionErrorModel,
            >(scalars_view(out@)),
        decreases items.len() - i,
    {
        let ghost all = atoms_view(items@);
        proof {
            assert(all.take(i + 1).drop_last() =~= all.take(i as int));
            assert(all.take(i + 1).last() == items@[i as int]@);
        }
        match items[i].to_scalar() {
            Ok(v) => {
                proof {
                    assert(scalars_view(out@.push(v)) =~= scalars_view(out@).push(v@));
                }
                out.push(v);
            },
            Err(e) => {
                proof {
                    lemma_scalars_error_stays(all, (i + 1) as nat);
                }
                return Err(e);
            },
        }
        i += 1;
    }
    assert(atoms_view(items@).take(i as int) =~= atoms_view(items@));
    Ok(out)
}

/// An item that is no value stops the conversion of the list, however many
/// items follow.
proof fn lemma_scalars_error_stays(items: Seq<AtomModel>, n: nat)
    requires
        n <= items.len(),
        scalars_of_atoms(items.take(n as int)) is Err,
    ensures
        scalars_of_atoms(items) == scalars_of_atoms(items.take(n as int)),
    decreases items.len() - n,
{
    if n < items.len() {
        assert(items.take((n + 1) as int).drop_last() =~= items.take(n as int));
        lemma_scalars_error_stays(items, n + 1);
    } else {
        assert(items.take(n as int) =~= items);
    }
}

/// An entry that is none stops the conversion of the dictionary.
proof fn lemma_entries_error_stays(pairs: Seq<(AtomModel, AtomModel)>, n: nat)
    requires
        n <= pairs.len(),
        entries_of_pairs(pairs.take(n as int)) is Err,
    ensures
        entries_of_pairs(pairs) == entries_of_pairs(pairs.take(n as int)),
    decreases pairs.len() - n,
{
    if n < pairs.len() {
        assert(pairs.take((n + 1) as int).drop_last() =~= pairs.take(n as int));
        lemma_entries_error_stays(pairs, n + 1);
    } else {
        assert(pairs.take(n as int) =~= pairs);
    }
}

/// An item that is no parameter stops the conversion of the list.
proof fn lemma_params_error_stays(items: Seq<ItemModel>, n: nat)
    requires
        n <= items.len(),
        params_of_items(items.take(n as int)) is Err,
    ensures
        params_of_items(items) == params_of_items(items.take(n as int)),
    decreases items.len() - n,
{
    if n < items.len() {
        assert(items.take((n + 1) as int).drop_last() =~= items.take(n as int));
        lemma_params_error_stays(items, n + 1);
    } else {
        assert(items.take(n as int) =~= items);
    }
}

/// The entries of a dictionary of the host, in order.
fn pairs_to_entries(pairs: &Vec<(PyAtom, PyAtom)>) -> (r: Result<
    Vec<(String, Scalar)>,
    ConversionError,
>)
    ensures
        match r {
            Ok(es) => entries_of_pairs(pairs_view(pairs@)) == Ok::<
                Seq<(Seq<char>, ScalarModel)>,
                ConversionErrorModel,
            >(entries_view(es@)),
            Err(e) => entries_of_pairs(pairs_view(pairs@)) == Err::<
                Seq<(Seq<char>, ScalarModel)>,
                ConversionErrorModel,
            >(e@),
        },
{
    let mut out: Vec<(String, Scalar)> = Vec::new();
    let mut i: usize = 0;
    proof {
        assert(pairs_view(pairs@).take(0) =~= Seq::empty());
        assert(entries_view(out@) =~= Seq::empty());
    }
    while i < pairs.len()
        invariant
            i <= pairs.len(),
            entries_of_pairs(pairs_view(pairs@).take(i as int)) == Ok::<
                Seq<(Seq<char>, ScalarModel)>,
                ConversionErrorModel,
            >(entries_view(out@)),
        decreases pairs.len() - i,
    {
        let ghost all = pairs_view(pairs@);
        proof {
            assert(all.take(i + 1).drop_last() =~= all.take(i as int));
            assert(all.take(i + 1).last() == (pairs@[i as int].0@, pairs@[i as int].1@));
        }
        let key = match &pairs[i].0 {
            PyAtom::Str(k) => k.clone(),
            other => {
                proof {
                    lemma_entries_error_stays(all, (i + 1) as nat);
                }
                return Err(ConversionError::NotAString(other.name_of_type()));
            },
        };
        match pairs[i].1.to_scalar() {
            Ok(v) => {
                proof {
                    assert(entries_view(out@.push((key, v))) =~= entries_view(out@).push(
                        (key@, v@),
                    ));
                }
                out.push((key, v));
            },
            Err(e) => {
                proof {
                    lemma_entries_error_stays(all, (i + 1) as nat);
                }
                return Err(e);
            },
        }
        i += 1;
    }
    assert(pairs_view(pairs@).take(i as int) =~= pairs_view(pairs@));
    Ok(out)
}

/// The composite value that `obj` is.
pub fn py_to_rs_composite_value(obj: &PyObject) -> (r: Result<Composite, ConversionError>)
    ensures
        match r {
            Ok(v) => composite_of_object(obj@) == Ok::<CompositeModel, ConversionErrorModel>(v@),
            Err(e) => composite_of_object(obj@) == Err::<CompositeModel, ConversionErrorModel>(
                e@,
            ),
        },
{
    match obj {
        PyObject::List(items) => match atoms_to_scalars(items) {
            Ok(vs) => Ok(Composite::List(vs)),
            Err(e) => Err(e),
        },
        PyObject::Dict(pairs) => match pairs_to_entries(pairs) {
            Ok(es) => Ok(Composite::Dict(es)),
            Err(e) => Err(e),
        },
        PyObject::Atom(a) => match a.to_scalar() {
            Ok(v) => Ok(Composite::Single(v)),
            Err(e) => Err(e),
        },
    }
}

/// The parameter that `item` is.
pub fn py_to_rs_parameter(item: &PyItem) -> (r: Result<Param, ConversionError>)
    ensures
        match r {
            Ok(p) => param_of_item(item@) == Ok::<ParamModel, ConversionErrorModel>(p@),
            Err(e) => param_of_item(item@) == Err::<ParamModel, ConversionErrorModel>(e@),
        },
{
    match item {
        PyItem::Tuple(t) => {
            if t.len() == 2 {
                match &t[0] {
                    PyObject::Atom(PyAtom::Str(name)) => match py_to_rs_composite_value(&t[1]) {
                        Ok(v) => Ok(Param::Composite(name.clone(), v)),
                        Err(e) => Err(e),
                    },
                    other => Err(ConversionError::NotAString(other.name_of_type())),
                }
            } else {
                Err(ConversionError::UnsupportedType("tuple".to_owned()))
            }
        },
        PyItem::Object(o) => match py_to_rs_value(o) {
            Ok(v) => Ok(Param::Basic(v)),
            Err(e) => Err(e),
        },
    }
}

/// The parameters that the items of `items` are, in order.
pub fn py_to_rs_parameters(items: &Vec<PyItem>) -> (r: Result<Vec<Param>, ConversionError>)
    ensures
        match r {
            Ok(ps) => params_of_items(items_view(items@)) == Ok::<
                Seq<ParamModel>,
                ConversionErrorModel,
            >(params_view(ps@)),
            Err(e) => params_of_items(items_view(items@)) == Err::<
                Seq<ParamModel>,
                ConversionErrorModel,
            >(e@),
        },
{
    let mut out: Vec<Param> = Vec::new();
    let mut i: usize = 0;
    proof {
        assert(items_view(items@).take(0) =~= Seq::empty());
        assert(params_view(out@) =~= Seq::empty());
    }
    while i < items.len()
        invariant
            i <= items.len(),
            params_of_items(items_view(items@).take(i as int)) == Ok::<
                Seq<ParamModel>,
                ConversionErrorModel,
            >(params_view(out@)),
        decreases items.len() - i,
    {
        let ghost all = items_view(items@);
        proof {
            assert(all.take(i + 1).drop_last() =~= all.take(i as int));
            assert(all.take(i + 1).last() == items@[i as int]@);
        }
        match py_to_rs_parameter(&items[i]) {
            Ok(p) => {
                proof {
                    assert(params_view(out@.push(p)) =~= params_view(out@).push(p@));
                }
                out.push(p);
            },
            Err(e) => {
                proof {
                    lemma_params_error_stays(all, (i + 1) as nat);
                }
                return Err(e);
            },
        }
        i += 1;
    }
    assert(items_view(items@).take(i as int) =~= items_view(items@));
    Ok(out)
}

/// The views of a sequence of entries with string keys, in order.
pub open spec fn keyed_view<V: View>(s: Seq<(String, V)>) -> Seq<(Seq<char>, V::V)> {
    s.map_values(|e: (String, V)| (e.0@, e.1@))
}

/// Setting a key that an entry has gives that entry the new value.
pub proof fn lemma_dict_set_found<V>(s: Seq<(Seq<char>, V)>, key: Seq<char>, value: V, i: int)
    requires
        0 <= i < s.len(),
        s[i].0 == key,
        forall|k: int| 0 <= k < i ==> (#[trigger] s[k]).0 != key,
    ensures
        dict_set(s, key, value) == s.update(i, (key, value)),
    decreases s.len(),
{
    if i == 0 {
        assert(seq![(key, value)] + s.drop_first() =~= s.update(0, (key, value)));
    } else {
        let rest = s.drop_first();
        assert forall|k: int| 0 <= k < i - 1 implies (#[trigger] rest[k]).0 != key by {
            assert(rest[k] == s[k + 1]);
        }
        lemma_dict_set_found(rest, key, value, i - 1);
        assert(s[0].0 != key);
        assert(seq![s[0]] + rest.update(i - 1, (key, value)) =~= s.update(i, (key, value)));
    }
}

/// Setting a key that no entry has adds an entry at the end.
pub proof fn lemma_dict_set_absent<V>(s: Seq<(Seq<char>, V)>, key: Seq<char>, value: V)
    requires
        forall|k: int| 0 <= k < s.len() ==> (#[trigger] s[k]).0 != key,
    ensures
        dict_set(s, key, value) == s.push((key, value)),
    decreases s.len(),
{
    if s.len() > 0 {
        let rest = s.drop_first();
        assert forall|k: int| 0 <= k < rest.len() implies (#[trigger] rest[k]).0 != key by {
            assert(rest[k] == s[k + 1]);
        }
        lemma_dict_set_absent(rest, key, value);
        assert(s[0].0 != key);
        assert(seq![s[0]] + rest.push((key, value)) =~= s.push((key, value)));
    } else {
        assert(seq![(key, value)] =~= s.push((key, value)));
    }
}

/// Sets `key` to `value` in a dictionary of the host.
pub fn set_entry<V: View>(entries: &mut Vec<(String, V)>, key: String, value: V)
    ensures
        keyed_view(final(entries)@) == dict_set(keyed_view(old(entries)@), key@, value@),
{
    let ghost before = keyed_view(entries@);
    let mut i: usize = 0;
    while i < entries.len()
        invariant
            i <= entries.len(),
            entries@ == old(entries)@,
            before == keyed_view(entries@),
            forall|k: int| 0 <= k < i ==> (#[trigger] before[k]).0 != key@,
        decreases entries.len() - i,
    {
        if entries[i].0 == key {
            proof {
                assert(before[i as int].0 == key@);
                lemma_dict_set_found(before, key@, value@, i as int);
            }
            entries.set(i, (key, value));
            assert(keyed_view(entries@) =~= before.update(i as int, (key@, value@)));
            return ;
        }
        assert(before[i as int].0 != key@);
        i += 1;
    }
    proof {
        lemma_dict_set_absent(before, key@, value@);
    }
    entries.push((key, value));
    assert(keyed_view(entries@) =~= before.push((key@, value@)));
}

/// The scalar of the host that `v` is.
pub fn scalar_to_atom(v: &Scalar) -> (r: PyAtom)
    ensures
        r@ == atom_of_scalar(v@),
{
    match v {
        Scalar::Int(i) => PyAtom::Int(*i),
        Scalar::Float(x) => PyAtom::Float(x.clone()),
        Scalar::Bool(b) => PyAtom::Bool(*b),
        Scalar::String(s) => PyAtom::Str(s.clone()),
    }
}

/// The value of the host that `v` is.
pub fn rs_value_to_py(v: &Scalar) -> (r: PyObject)
    ensures
        r@ == ObjectModel::Atom(atom_of_scalar(v@)),
{
    PyObject::Atom(scalar_to_atom(v))
}

/// The value of the host that the composite value `v` is.
pub fn rs_composite_value_to_py(v: &Composite) -> (r: PyObject)
    ensures
        r@ == object_of_composite(v@),
{
    match v {
        Composite::Single(x) => rs_value_to_py(x),
        Composite::List(xs) => {
            let mut out: Vec<PyAtom> = Vec::new();
            let mut i: usize = 0;
            while i < xs.len()
                invariant
                    i <= xs.len(),
                    out.len() == i,
                    forall|k: int| 0 <= k < i ==> (#[trigger] out@[k])@ == atom_of_scalar(xs@[k]@),
                decreases xs.len() - i,
            {
                out.push(scalar_to_atom(&xs[i]));
                i += 1;
            }
            assert(atoms_view(out@) =~= scalars_view(xs@).map_values(|x| atom_of_scalar(x)));
            PyObject::List(out)
        },
        Composite::Dict(es) => {
            let mut set: Vec<(String, Scalar)> = Vec::new();
            let mut i: usize = 0;
            proof {
                assert(entries_view(es@).take(0) =~= Seq::empty());
                assert(keyed_view(set@) =~= Seq::empty());
            }
            while i < es.len()
                invariant
                    i <= es.len(),
                    keyed_view(set@) == dict_of(entries_view(es@).take(i as int)),
                decreases es.len() - i,
            {
                proof {
                    let all = entries_view(es@);
                    assert(all.take(i + 1).drop_last() =~= all.take(i as int));
                    assert(all.take(i + 1).last() == (es@[i as int].0@, es@[i as int].1@));
                }
                set_entry(&mut set, es[i].0.clone(), es[i].1.duplicate());
                i += 1;
            }
            assert(entries_view(es@).take(i as int) =~= entries_view(es@));
            let mut out: Vec<(PyAtom, PyAtom)> = Vec::new();
            let mut j: usize = 0;
            while j < set.len()
                invariant
                    j <= set.len(),
                    out.len() == j,
                    forall|k: int|
                        0 <= k < j ==> (#[trigger] out@[k]).0@ == AtomModel::Str(set@[k].0@)
                            && out@[k].1@ == atom_of_scalar(set@[k].1@),
                decreases set.len() - j,
            {
                out.push((PyAtom::Str(set[j].0.clone()), scalar_to_atom(&set[j].1)));
                j += 1;
            }
            assert(pairs_view(out@) =~= keyed_view(set@).map_values(
                |e: (Seq<char>, ScalarModel)| (AtomModel::Str(e.0), atom_of_scalar(e.1)),
            ));
            PyObject::Dict(out)
        },
    }
}

/// The item that the parameter `p` is.
pub fn rs_parameter_to_py(p: &Param) -> (r: PyItem)
    ensures
        r@ == item_of_param(p@),
{
    match p {
        Param::Basic(v) => PyItem::Object(rs_value_to_py(v)),
        Param::Composite(name, v) => {
            let mut pair: Vec<PyObject> = Vec::new();
            pair.push(PyObject::Atom(PyAtom::Str(name.clone())));
            pair.push(rs_composite_value_to_py(v));
            assert(objects_view(pair@) =~= seq![
                ObjectModel::Atom(AtomModel::Str(name@)),
                object_of_composite(v@),
            ]);
            PyItem::Tuple(pair)
        },
    }
}

/// The bare values among `params`, in order, as scalars of the host.
pub open spec fn args_of(params: Seq<ParamModel>) -> Seq<ObjectModel>
    decreases params.len(),
{
    if params.len() == 0 {
        Seq::empty()
    } else {
        match params.last() {
            ParamModel::Basic(v) => args_of(params.drop_last()).push(
                ObjectModel::Atom(atom_of_scalar(v)),
            ),
            ParamModel::Composite(_, _) => args_of(params.drop_last()),
        }
    }
}

/// The named parameters among `params`, in order, each as its name and value.
pub open spec fn named_params(params: Seq<ParamModel>) -> Seq<(Seq<char>, CompositeModel)>
    decreases params.len(),
{
    if params.len() == 0 {
        Seq::empty()
    } else {
        match params.last() {
            ParamModel::Basic(_) => named_params(params.drop_last()),
            ParamModel::Composite(name, v) => named_params(params.drop_last()).push((name, v)),
        }
    }
}

/// The named parameters among `params` as a dictionary of the host: a name
/// that occurs more than once keeps its first place and its last value.
pub open spec fn kwargs_of(params: Seq<ParamModel>) -> Seq<(Seq<char>, ObjectModel)> {
    dict_of(named_params(params)).map_values(
        |e: (Seq<char>, CompositeModel)| (e.0, object_of_composite(e.1)),
    )
}

impl PyCommand {
    /// The command with the name `name` whose parameters are the items of
    /// `params`; the error of the first item that is no parameter.
    pub fn new(name: String, params: Vec<PyItem>) -> (r: Result<PyCommand, ConversionError>)
        ensures
            match r {
                Ok(c) => c@.name == name@ && params_of_items(items_view(params@)) == Ok::<
                    Seq<ParamModel>,
                    ConversionErrorModel,
                >(c@.params),
                Err(e) => params_of_items(items_view(params@)) == Err::<
                    Seq<ParamModel>,
                    ConversionErrorModel,
                >(e@),
            },
    {
        match py_to_rs_parameters(&params) {
            Ok(ps) => Ok(PyCommand::with_params(name, ps)),
            Err(e) => Err(e),
        }
    }

    /// The number command for `value`, followed by the parameters that the
    /// items of `args` are.
    pub fn new_number(value: i64, args: Vec<PyItem>) -> (r: Result<PyCommand, ConversionError>)
        ensures
            match r {
                Ok(c) => params_of_items(items_view(args@)) is Ok && c@ == number_command(
                    value as int,
                    params_of_items(items_view(args@))->Ok_0,
                ),
                Err(e) => params_of_items(items_view(args@)) == Err::<
                    Seq<ParamModel>,
                    ConversionErrorModel,
                >(e@),
            },
    {
        match py_to_rs_parameters(&args) {
            Ok(ps) => Ok(PyCommand::number_with_params(value, ps)),
            Err(e) => Err(e),
        }
    }

    /// The parameters as items of the host, in order.
    pub fn params(&self) -> (r: Vec<PyItem>)
        ensures
            items_view(r@) == self@.params.map_values(|p: ParamModel| item_of_param(p)),
    {
        let mut out: Vec<PyItem> = Vec::new();
        let mut i: usize = 0;
        while i < self.params.len()
            invariant
                i <= self.params.len(),
                out.len() == i,
                forall|k: int| 0 <= k < i ==> (#[trigger] out@[k])@ == item_of_param(self.params@[k]@),
            decreases self.params.len() - i,
        {
            out.push(rs_parameter_to_py(&self.params[i]));
            i += 1;
        }
        assert(items_view(out@) =~= self@.params.map_values(|p: ParamModel| item_of_param(p)));
        out
    }

    /// The bare values among the parameters, in order.
    pub fn args(&self) -> (r: Vec<PyObject>)
        ensures
            objects_view(r@) == args_of(self@.params),
    {
        let mut out: Vec<PyObject> = Vec::new();
        let mut i: usize = 0;
        proof {
            assert(self@.params.take(0) =~= Seq::empty());
            assert(objects_view(out@) =~= Seq::empty());
        }
        while i < self.params.len()
            invariant
                i <= self.params.len(),
                objects_view(out@) == args_of(self@.params.take(i as int)),
            decreases self.params.len() - i,
        {
            proof {
                let all = self@.params;
                assert(all.take(i + 1).drop_last() =~= all.take(i as int));
                assert(all.take(i + 1).last() == self.params@[i as int]@);
            }
            match &self.params[i] {
                Param::Basic(v) => {
                    let o = rs_value_to_py(v);
                    proof {
                        assert(objects_view(out@.push(o)) =~= objects_view(out@).push(o@));
                    }
                    out.push(o);
                },
                Param::Composite(_, _) => {},
            }
            i += 1;
        }
        assert(self@.params.take(i as int) =~= self@.params);
        out
    }

    /// The named parameters as a dictionary of the host.
    pub fn kwargs(&self) -> (r: Vec<(String, PyObject)>)
        ensures
            keyed_view(r@) == kwargs_of(self@.params),
    {
        let mut named: Vec<(String, Composite)> = Vec::new();
        let mut i: usize = 0;
        proof {
            assert(self@.params.take(0) =~= Seq::empty());
            assert(keyed_view(named@) =~= Seq::empty());
        }
        while i < self.params.len()
            invariant
                i <= self.params.len(),
                keyed_view(named@) == dict_of(named_params(self@.params.take(i as int))),
            decreases self.params.len() - i,
        {
            proof {
                let all = self@.params;
                assert(all.take(i + 1).drop_last() =~= all.take(i as int));
                assert(all.take(i + 1).last() == self.params@[i as int]@);
            }
            match &self.params[i] {
                Param::Basic(_) => {},
                Param::Composite(name, v) => {
                    proof {
                        let before = named_params(self@.params.take(i as int));
                        assert(before.push((name@, v@)).drop_last() =~= before);
                    }
                    set_entry(&mut named, name.clone(), v.duplicate());
                },
            }
            i += 1;
        }
        assert(self@.params.take(i as int) =~= self@.params);
        let mut out: Vec<(String, PyObject)> = Vec::new();
        let mut j: usize = 0;
        while j < named.len()
            invariant
                j <= named.len(),
                out.len() == j,
                forall|k: int|
                    0 <= k < j ==> (#[trigger] out@[k]).0@ == named@[k].0@ && out@[k].1@
                        == object_of_composite(named@[k].1@),
            decreases named.len() - j,
        {
            out.push((named[j].0.clone(), rs_composite_value_to_py(&named[j].1)));
            j += 1;
        }
        assert(keyed_view(out@) =~= keyed_view(named@).map_values(
            |e: (Seq<char>, CompositeModel)| (e.0, object_of_composite(e.1)),
        ));
        out
    }

    /// Gives the command the parameters that the items of `params` are.
    /// Where an item is no parameter, the command stays as it is.
    pub fn set_params(&mut self, params: Vec<PyItem>) -> (r: Result<(), ConversionError>)
        ensures
            final(self)@.name == old(self)@.name,
            match r {
                Ok(_) => params_of_items(items_view(params@)) == Ok::<
                    Seq<ParamModel>,
                    ConversionErrorModel,
                >(final(self)@.params),
                Err(e) => params_of_items(items_view(params@)) == Err::<
                    Seq<ParamModel>,
                    ConversionErrorModel,
                >(e@) && final(self)@ == old(self)@,
            },
    {
        match py_to_rs_parameters(&params) {
            Ok(ps) => {
                self.params = ps;
                Ok(())
            },
            Err(e) => Err(e),
        }
    }

    /// Adds the parameter that `param` is at the end. Where it is none, the
    /// command stays as it is.
    pub fn add_param(&mut self, param: &PyItem) -> (r: Result<(), ConversionError>)
        ensures
            final(self)@.name == old(self)@.name,
            match r {
                Ok(_) => param_of_item(param@) is Ok && final(self)@.params
                    == old(self)@.params.push(param_of_item(param@)->Ok_0),
                Err(e) => param_of_item(param@) == Err::<ParamModel, ConversionErrorModel>(e@)
                    && final(self)@ == old(self)@,
            },
    {
        match py_to_rs_parameter(param) {
            Ok(p) => {
                proof {
                    assert(params_view(self.params@.push(p)) =~= params_view(self.params@).push(
                        p@,
                    ));
                }
                self.params.push(p);
                Ok(())
            },
            Err(e) => Err(e),
        }
    }

    /// The command on one line, as `koicore` displays it.
    pub fn to_text(&self) -> (r: String)
        ensures
            r@ == displayed_command(self@),
    {
        display_command(self)
    }
}

/// The texts of `parts`, one after the other, with `sep` between each two.
pub open spec fn joined(parts: Seq<Seq<char>>, sep: Seq<char>) -> Seq<char>
    decreases parts.len(),
{
    if parts.len() == 0 {
        Seq::empty()
    } else if parts.len() == 1 {
        parts[0]
    } else {
        joined(parts.drop_last(), sep) + sep + parts.last()
    }
}

/// The description of a command, given the descriptions of its parameters.
pub open spec fn command_repr(name: Seq<char>, params: Seq<Seq<char>>) -> Seq<char> {
    "Command('"@ + name + "', ["@ + joined(params, ", "@) + "])"@
}

impl PyCommand {
    /// The description of the command: its name and, in brackets, the
    /// descriptions of its parameters as the host gives them, in order.
    pub fn repr(&self, params: &Vec<String>) -> (r: String)
        ensures
            r@ == command_repr(self@.name, params@.map_values(|p: String| p@)),
    {
        let ghost parts = params@.map_values(|p: String| p@);
        let mut out: Vec<char> = Vec::new();
        push_text("Command('", &mut out);
        push_text(self.name.as_str(), &mut out);
        push_text("', [", &mut out);
        let ghost head = out@;
        let mut i: usize = 0;
        assert(parts.take(0) =~= Seq::empty());
        assert(out@ =~= head + joined(parts.take(0), ", "@));
        while i < params.len()
            invariant
                i <= params.len(),
                parts == params@.map_values(|p: String| p@),
                out@ == head + joined(parts.take(i as int), ", "@),
            decreases params.len() - i,
        {
            proof {
                assert(parts.take(i + 1).drop_last() =~= parts.take(i as int));
                assert(parts.take(i + 1).last() == params@[i as int]@);
                if i > 0 {
                    assert(parts.take(i + 1).len() > 1);
                } else {
                    assert(parts.take(1)[0] == params@[0]@);
                }
            }
            if i > 0 {
                push_text(", ", &mut out);
            }
            push_text(params[i].as_str(), &mut out);
            assert(out@ =~= head + joined(parts.take(i + 1), ", "@));
            i += 1;
        }
        assert(parts.take(i as int) =~= parts);
        push_text("])", &mut out);
        assert(out@ =~= command_repr(self@.name, parts));
        string_of(&out)
    }
}

} // verus!
