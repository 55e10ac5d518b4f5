//! The value model: values, composite values, parameters and commands.
//!
//! Every type has a view made of mathematical values (`int`, `Seq<char>`,
//! `Seq` of views); the contracts of the whole library are stated over these
//! views.

use vstd::prelude::*;

verus! {

/// A basic value.
///
/// A floating-point value is held as a decimal numeral: the shortest one that
/// reads back as the same number (`1.5`, `-0.25`, `inf`, `NaN`).
#[derive(Clone, Debug, PartialEq, Eq)]
pub enum Scalar {
    Int(i64),
    Float(String),
    Bool(bool),
    String(String),
}

/// What a [`Scalar`] stands for in contracts.
pub enum ScalarModel {
    Int(int),
    Float(Seq<char>),
    Bool(bool),
    String(Seq<char>),
}

impl View for Scalar {
    type V = ScalarModel;

    open spec fn view(&self) -> ScalarModel {
        match self {
            Scalar::Int(i) => ScalarModel::Int(*i as int),
            Scalar::Float(numeral) => ScalarModel::Float(numeral@),
            Scalar::Bool(b) => ScalarModel::Bool(*b),
            Scalar::String(s) => ScalarModel::String(s@),
        }
    }
}

/// The right-hand side of a named parameter.
///
/// The keys of a `Dict` need not be distinct; the entries keep their order.
#[derive(Clone, Debug, PartialEq, Eq)]
pub enum Composite {
    Single(Scalar),
    List(Vec<Scalar>),
    Dict(Vec<(String, Scalar)>),
}

/// What a [`Composite`] stands for in contracts.
pub enum CompositeModel {
    Single(ScalarModel),
    List(Seq<ScalarModel>),
    Dict(Seq<(Seq<char>, ScalarModel)>),
}

/// The views of a sequence of values, in order.
pub open spec fn scalars_view(s: Seq<Scalar>) -> Seq<ScalarModel> {
    s.map_values(|v: Scalar| v@)
}

/// The views of a sequence of dictionary entries, in order.
pub open spec fn entries_view(s: Seq<(String, Scalar)>) -> Seq<(Seq<char>, ScalarModel)> {
    s.map_values(|e: (String, Scalar)| (e.0@, e.1@))
}

impl View for Composite {
    type V = CompositeModel;

    open spec fn view(&self) -> CompositeModel {
        match self {
            Composite::Single(v) => CompositeModel::Single(v@),
            Composite::List(vs) => CompositeModel::List(scalars_view(vs@)),
            Composite::Dict(es) => CompositeModel::Dict(entries_view(es@)),
        }
    }
}

/// One argument of a command: a bare value, or a name with a composite value.
#[derive(Clone, Debug, PartialEq, Eq)]
pub enum Param {
    Basic(Scalar),
    Composite(String, Composite),
}

/// What a [`Param`] stands for in contracts.
pub enum ParamModel {
    Basic(ScalarModel),
    Composite(Seq<char>, CompositeModel),
}

impl View for Param {
    type V = ParamModel;

    open spec fn view(&self) -> ParamModel {
        match self {
            Param::Basic(v) => ParamModel::Basic(v@),
            Param::Composite(name, value) => ParamModel::Composite(name@, value@),
        }
    }
}

/// The views of a sequence of parameters, in order.
pub open spec fn params_view(s: Seq<Param>) -> Seq<ParamModel> {
    s.map_values(|p: Param| p@)
}

/// A command: a name and its parameters, whose order is significant.
#[derive(Clone, Debug, PartialEq, Eq)]
pub struct PyCommand {
    pub name: String,
    pub params: Vec<Param>,
}

/// What a [`PyCommand`] stands for in contracts.
pub struct CommandModel {
    pub name: Seq<char>,
    pub params: Seq<ParamModel>,
}

impl View for PyCommand {
    type V = CommandModel;

    open spec fn view(&self) -> CommandModel {
        CommandModel { name: self.name@, params: params_view(self.params@) }
    }
}

/// The name of the command that carries a line of plain text.
pub open spec fn text_name() -> Seq<char> {
    "@text"@
}

/// The name of the command that carries an annotation line.
pub open spec fn annotation_name() -> Seq<char> {
    "@annotation"@
}

/// The name of the command that carries a bare number and its arguments.
pub open spec fn number_name() -> Seq<char> {
    "@number"@
}

/// The text command for `content`.
pub open spec fn text_command(content: Seq<char>) -> CommandModel {
    CommandModel {
        name: text_name(),
        params: seq![ParamModel::Basic(ScalarModel::String(content))],
    }
}

/// The text that a command carries as a text command: its first parameter,
/// where the command has the name of text commands and that parameter is a
/// bare string.
pub open spec fn carried_text(c: CommandModel) -> Option<Seq<char>> {
    if c.name == text_name() && c.params.len() > 0 {
        match c.params[0] {
            ParamModel::Basic(ScalarModel::String(t)) => Some(t),
            _ => None,
        }
    } else {
        None
    }
}

/// The text that a command carries as an annotation command: its first
/// parameter, where the command has the name of annotation commands and that
/// parameter is a bare string.
pub open spec fn carried_annotation(c: CommandModel) -> Option<Seq<char>> {
    if c.name == annotation_name() && c.params.len() > 0 {
        match c.params[0] {
            ParamModel::Basic(ScalarModel::String(t)) => Some(t),
            _ => None,
        }
    } else {
        None
    }
}

/// The annotation command for `content`.
pub open spec fn annotation_command(content: Seq<char>) -> CommandModel {
    CommandModel {
        name: annotation_name(),
        params: seq![ParamModel::Basic(ScalarModel::String(content))],
    }
}

/// The number command for `value` followed by `args`.
pub open spec fn number_command(value: int, args: Seq<ParamModel>) -> CommandModel {
    CommandModel {
        name: number_name(),
        params: seq![ParamModel::Basic(ScalarModel::Int(value))] + args,
    }
}

impl Scalar {
    /// A copy with the same view.
    pub fn duplicate(&self) -> (r: Scalar)
        ensures
            r@ == self@,
    {
        match self {
            Scalar::Int(i) => Scalar::Int(*i),
            Scalar::Float(numeral) => Scalar::Float(numeral.clone()),
            Scalar::Bool(b) => Scalar::Bool(*b),
            Scalar::String(s) => Scalar::String(s.clone()),
        }
    }
}

/// A copy of a list of values, element by element.
pub fn duplicate_scalars(values: &Vec<Scalar>) -> (r: Vec<Scalar>)
    ensures
        scalars_view(r@) == scalars_view(values@),
{
    let mut out: Vec<Scalar> = Vec::new();
    let mut i: usize = 0;
    while i < values.len()
        invariant
            i <= values.len(),
            out.len() == i,
            forall|k: int| 0 <= k < i ==> (#[trigger] out@[k])@ == values@[k]@,
        decreases values.len() - i,
    {
        out.push(values[i].duplicate());
        i += 1;
    }
    assert(scalars_view(out@) =~= scalars_view(values@));
    out
}

/// A copy of a list of dictionary entries, entry by entry.
pub fn duplicate_entries(entries: &Vec<(String, Scalar)>) -> (r: Vec<(String, Scalar)>)
    ensures
        entries_view(r@) == entries_view(entries@),
{
    let mut out: Vec<(String, Scalar)> = Vec::new();
    let mut i: usize = 0;
    while i < entries.len()
        invariant
            i <= entries.len(),
            out.len() == i,
            forall|k: int|
                0 <= k < i ==> (#[trigger] out@[k]).0@ == entries@[k].0@ && out@[k].1@
                    == entries@[k].1@,
        decreases entries.len() - i,
    {
        let key = entries[i].0.clone();
        let value = entries[i].1.duplicate();
        out.push((key, value));
        i += 1;
    }
    assert(entries_view(out@) =~= entries_view(entries@));
    out
}

impl Composite {
    /// A copy with the same view.
    pub fn duplicate(&self) -> (r: Composite)
        ensures
            r@ == self@,
    {
        match self {
            Composite::Single(v) => Composite::Single(v.duplicate()),
            Composite::List(vs) => Composite::List(duplicate_scalars(vs)),
            Composite::Dict(es) => Composite::Dict(duplicate_entries(es)),
        }
    }
}

impl Param {
    /// A copy with the same view.
    pub fn duplicate(&self) -> (r: Param)
        ensures
            r@ == self@,
    {
        match self {
            Param::Basic(v) => Param::Basic(v.duplicate()),
            Param::Composite(name, value) => Param::Composite(
                name.clone(),
                value.duplicate(),
            ),
        }
    }
}

/// A copy of a list of parameters, element by element.
pub fn duplicate_params(params: &Vec<Param>) -> (r: Vec<Param>)
    ensures
        params_view(r@) == params_view(params@),
{
    let mut out: Vec<Param> = Vec::new();
    let mut i: usize = 0;
    while i < params.len()
        invariant
            i <= params.len(),
            out.len() == i,
            forall|k: int| 0 <= k < i ==> (#[trigger] out@[k])@ == params@[k]@,
        decreases params.len() - i,
    {
        out.push(params[i].duplicate());
        i += 1;
    }
    assert(params_view(out@) =~= params_view(params@));
    out
}

impl PyCommand {
    /// A command with the given name and parameters.
    pub fn with_params(name: String, params: Vec<Param>) -> (r: PyCommand)
        ensures
            r@.name == name@,
            r@.params == params_view(params@),
    {
        PyCommand { name, params }
    }

    /// The command that carries one line of plain text.
    pub fn new_text(content: String) -> (r: PyCommand)
        ensures
            r@ == text_command(content@),
    {
        let mut params: Vec<Param> = Vec::new();
        params.push(Param::Basic(Scalar::String(content)));
        let r = PyCommand { name: "@text".to_owned(), params };
        assert(r@.params =~= text_command(content@).params);
        r
    }

    /// The command that carries one annotation line.
    pub fn new_annotation(content: String) -> (r: PyCommand)
        ensures
            r@ == annotation_command(content@),
    {
        let mut params: Vec<Param> = Vec::new();
        params.push(Param::Basic(Scalar::String(content)));
        let r = PyCommand { name: "@annotation".to_owned(), params };
        assert(r@.params =~= annotation_command(content@).params);
        r
    }

    /// The command for a line that is a bare number: the number first, then
    /// the remaining arguments in their order.
    pub fn number_with_params(value: i64, args: Vec<Param>) -> (r: PyCommand)
        ensures
            r@ == number_command(value as int, params_view(args@)),
    {
        let mut params: Vec<Param> = Vec::new();
        params.push(Param::Basic(Scalar::Int(value)));
        let mut args = args;
        let ghost before = params_view(args@);
        params.append(&mut args);
        let r = PyCommand { name: "@number".to_owned(), params };
        assert(r@.params =~= number_command(value as int, before).params);
        r
    }

    /// The command's name.
    pub fn name(&self) -> (r: String)
        ensures
            r@ == self@.name,
    {
        self.name.clone()
    }

    /// Gives the command another name; its parameters stay.
    pub fn set_name(&mut self, name: String)
        ensures
            final(self)@.name == name@,
            final(self)@.params == old(self)@.params,
    {
        self.name = name;
    }

    /// The command's parameters, in order.
    pub fn parameters(&self) -> (r: &Vec<Param>)
        ensures
            params_view(r@) == self@.params,
    {
        &self.params
    }

    /// A copy with the same view.
    pub fn duplicate(&self) -> (r: PyCommand)
        ensures
            r@ == self@,
    {
        PyCommand { name: self.name.clone(), params: duplicate_params(&self.params) }
    }
}

} // verus!
