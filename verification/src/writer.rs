//! The writer: which options hold for a command and for each of its
//! parameters, and the text that a write sends to the sink.

use vstd::prelude::*;
use crate::command::{
    Param, ParamModel, PyCommand, CommandModel, carried_text, carried_annotation,
};
use crate::engine::{
    indentation, indentation_fits, render_line, rendered_line, debug_quote, quoted,
};
use crate::text::{decimal, escaped, annotation_body, string_of, push_decimal, push_text};
use crate::options::{PyNumberFormat, PyFormatterOptions, merged, settled};

verus! {

/// Selects the parameter that a layer of options is for: by its position in
/// the command, counted from 0, or by the name of a named parameter.
#[derive(Clone, Debug, PartialEq, Eq)]
pub enum PyParamFormatSelector {
    Position(usize),
    Name(String),
}

/// What a [`PyParamFormatSelector`] stands for in contracts.
pub enum SelectorModel {
    Position(nat),
    Name(Seq<char>),
}

impl View for PyParamFormatSelector {
    type V = SelectorModel;

    open spec fn view(&self) -> SelectorModel {
        match self {
            PyParamFormatSelector::Position(p) => SelectorModel::Position(*p as nat),
            PyParamFormatSelector::Name(n) => SelectorModel::Name(n@),
        }
    }
}

/// The configuration of a writer: the global options, the options registered
/// for command names, and the number of markers that starts a command line.
/// Where a name is registered more than once, the last entry holds.
#[derive(Clone, Debug, PartialEq, Eq)]
pub struct PyWriterConfig {
    pub global_options: PyFormatterOptions,
    pub command_options: Vec<(String, PyFormatterOptions)>,
    pub command_threshold: usize,
}

/// What a [`PyWriterConfig`] stands for in contracts.
pub struct WriterConfigModel {
    pub global_options: PyFormatterOptions,
    pub command_options: Seq<(Seq<char>, PyFormatterOptions)>,
    pub command_threshold: nat,
}

/// The views of the options registered for command names, in order.
pub open spec fn registered_view(s: Seq<(String, PyFormatterOptions)>) -> Seq<
    (Seq<char>, PyFormatterOptions),
> {
    s.map_values(|e: (String, PyFormatterOptions)| (e.0@, e.1))
}

/// The views of the options selected for parameters, in order.
pub open spec fn selections_view(s: Seq<(PyParamFormatSelector, PyFormatterOptions)>) -> Seq<
    (SelectorModel, PyFormatterOptions),
> {
    s.map_values(|e: (PyParamFormatSelector, PyFormatterOptions)| (e.0@, e.1))
}

impl View for PyWriterConfig {
    type V = WriterConfigModel;

    open spec fn view(&self) -> WriterConfigModel {
        WriterConfigModel {
            global_options: self.global_options,
            command_options: registered_view(self.command_options@),
            command_threshold: self.command_threshold as nat,
        }
    }
}

/// The options of the last entry of `entries` whose key is `key`.
pub open spec fn last_entry<K>(entries: Seq<(K, PyFormatterOptions)>, key: K) -> Option<
    PyFormatterOptions,
>
    decreases entries.len(),
{
    if entries.len() == 0 {
        None
    } else if entries.last().0 == key {
        Some(entries.last().1)
    } else {
        last_entry(entries.drop_last(), key)
    }
}

/// The global options with the options registered for `name` merged over them.
pub open spec fn command_layer(config: WriterConfigModel, name: Seq<char>) -> PyFormatterOptions {
    match last_entry(config.command_options, name) {
        Some(o) => merged(config.global_options, o),
        None => config.global_options,
    }
}

/// The options that hold for a command named `name`, written with the options
/// `call`: `call` over the options registered for the name, over the global
/// options, with the indentation step and the number format filled in.
pub open spec fn effective_options(
    config: WriterConfigModel,
    name: Seq<char>,
    call: Option<PyFormatterOptions>,
) -> PyFormatterOptions {
    settled(
        match call {
            Some(o) => merged(command_layer(config, name), o),
            None => command_layer(config, name),
        },
    )
}

/// The name of a named parameter.
pub open spec fn param_name(p: ParamModel) -> Option<Seq<char>> {
    match p {
        ParamModel::Basic(_) => None,
        ParamModel::Composite(name, _) => Some(name),
    }
}

/// The layer selected for the parameter at `position`: the one selected by
/// its name, if it has a name and a layer is selected by it, else the one
/// selected by its position.
pub open spec fn selected_layer(
    selections: Seq<(SelectorModel, PyFormatterOptions)>,
    position: nat,
    name: Option<Seq<char>>,
) -> Option<PyFormatterOptions> {
    let by_name = match name {
        Some(n) => last_entry(selections, SelectorModel::Name(n)),
        None => None,
    };
    if by_name is Some {
        by_name
    } else {
        last_entry(selections, SelectorModel::Position(position))
    }
}

/// The options that hold for the parameter at `position`, in a command for
/// which `command` holds: the selected layer merged over `command`.
pub open spec fn param_options(
    command: PyFormatterOptions,
    selections: Seq<(SelectorModel, PyFormatterOptions)>,
    position: nat,
    name: Option<Seq<char>>,
) -> PyFormatterOptions {
    match selected_layer(selections, position, name) {
        Some(o) => merged(command, o),
        None => command,
    }
}

/// The options that hold for each parameter of a command, by position.
pub open spec fn all_param_options(
    command: PyFormatterOptions,
    selections: Seq<(SelectorModel, PyFormatterOptions)>,
    params: Seq<ParamModel>,
) -> Seq<PyFormatterOptions> {
    Seq::new(
        params.len(),
        |i: int| param_options(command, selections, i as nat, param_name(params[i])),
    )
}

/// `options` as a layer that replaces any other.
pub open spec fn overriding(options: PyFormatterOptions) -> PyFormatterOptions {
    PyFormatterOptions { should_override: true, ..options }
}

/// The options of a command as they are given to the generator of the line:
/// overriding, and without the blank lines around the command, which the
/// writer adds itself.
pub open spec fn line_options(options: PyFormatterOptions) -> PyFormatterOptions {
    PyFormatterOptions {
        should_override: true,
        newline_before: false,
        newline_after: false,
        ..options
    }
}

/// The text of one write.
///
/// With `e` the options that hold for the command: a line feed first, if `e`
/// asks for a blank line before and the writer is not at one already; then the
/// generated line, under `e` and the options of each parameter; then a line
/// feed, if `e` asks for a blank line after.
pub open spec fn written_text(
    config: WriterConfigModel,
    level: nat,
    last_was_newline: bool,
    command: CommandModel,
    call: Option<PyFormatterOptions>,
    selections: Seq<(SelectorModel, PyFormatterOptions)>,
) -> Seq<char> {
    let e = effective_options(config, command.name, call);
    blank(e.newline_before && !last_was_newline) + rendered_line(
        command,
        config.command_threshold,
        level,
        line_options(e),
        all_param_options(e, selections, command.params).map_values(
            |o: PyFormatterOptions| overriding(o),
        ),
    ) + blank(e.newline_after)
}

impl PyParamFormatSelector {
    /// The selector of the parameter at `position`, counted from 0.
    pub fn by_position(position: usize) -> (r: PyParamFormatSelector)
        ensures
            r@ == SelectorModel::Position(position as nat),
    {
        PyParamFormatSelector::Position(position)
    }

    /// The selector of the named parameter called `name`.
    pub fn by_name(name: &str) -> (r: PyParamFormatSelector)
        ensures
            r@ == SelectorModel::Name(name@),
    {
        PyParamFormatSelector::Name(name.to_owned())
    }

    /// Whether two selectors select the same parameter.
    pub fn same(&self, other: &PyParamFormatSelector) -> (r: bool)
        ensures
            r == (self@ == other@),
    {
        match (self, other) {
            (PyParamFormatSelector::Position(a), PyParamFormatSelector::Position(b)) => *a == *b,
            (PyParamFormatSelector::Name(a), PyParamFormatSelector::Name(b)) => *a == *b,
            _ => false,
        }
    }
}

/// The options of the last entry registered for `name`.
pub fn find_registered(entries: &Vec<(String, PyFormatterOptions)>, name: &String) -> (r: Option<
    PyFormatterOptions,
>)
    ensures
        r == last_entry(registered_view(entries@), name@),
{
    let mut found: Option<PyFormatterOptions> = None;
    let mut i: usize = 0;
    while i < entries.len()
        invariant
            i <= entries.len(),
            found == last_entry(registered_view(entries@).take(i as int), name@),
        decreases entries.len() - i,
    {
        proof {
            let view = registered_view(entries@);
            assert(view.take(i + 1).drop_last() =~= view.take(i as int));
            assert(view.take(i + 1).last() == view[i as int]);
        }
        if entries[i].0 == *name {
            found = Some(entries[i].1);
        }
        i += 1;
    }
    assert(registered_view(entries@).take(i as int) =~= registered_view(entries@));
    found
}

/// The options of the last entry selected by `selector`.
pub fn find_selected(
    entries: &Vec<(PyParamFormatSelector, PyFormatterOptions)>,
    selector: &PyParamFormatSelector,
) -> (r: Option<PyFormatterOptions>)
    ensures
        r == last_entry(selections_view(entries@), selector@),
{
    let mut found: Option<PyFormatterOptions> = None;
    let mut i: usize = 0;
    while i < entries.len()
        invariant
            i <= entries.len(),
            found == last_entry(selections_view(entries@).take(i as int), selector@),
        decreases entries.len() - i,
    {
        proof {
            let view = selections_view(entries@);
            assert(view.take(i + 1).drop_last() =~= view.take(i as int));
            assert(view.take(i + 1).last() == view[i as int]);
        }
        if entries[i].0.same(selector) {
            found = Some(entries[i].1);
        }
        i += 1;
    }
    assert(selections_view(entries@).take(i as int) =~= selections_view(entries@));
    found
}

impl PyWriterConfig {
    /// The configuration of a writer that was given none: an indentation step
    /// of 4, decimal numbers, no options for any command, one marker.
    pub fn default_config() -> (r: PyWriterConfig)
        ensures
            r@.global_options == (PyFormatterOptions {
                indent: 4,
                number_format: PyNumberFormat::Decimal,
                ..crate::options::unset_options()
            }),
            r@.command_options.len() == 0,
            r@.command_threshold == 1,
    {
        let mut global_options = PyFormatterOptions::unset();
        global_options.indent = 4;
        global_options.number_format = PyNumberFormat::Decimal;
        PyWriterConfig { global_options, command_options: Vec::new(), command_threshold: 1 }
    }

    /// The options that hold for a command named `name`, written with the
    /// options `call`.
    pub fn get_effective_options(&self, name: &String, call: Option<&PyFormatterOptions>) -> (r:
        PyFormatterOptions)
        ensures
            r == effective_options(
                self@,
                name@,
                match call {
                    Some(o) => Some(*o),
                    None => None,
                },
            ),
    {
        let layer = match find_registered(&self.command_options, name) {
            Some(o) => self.global_options.merge(&o),
            None => self.global_options,
        };
        match call {
            Some(o) => layer.merge(o).settle(),
            None => layer.settle(),
        }
    }
}

/// The options that hold for the parameter `param` at `position`, in a
/// command for which `command` holds.
pub fn get_param_specific_options(
    position: usize,
    param: &Param,
    command: &PyFormatterOptions,
    selections: &Vec<(PyParamFormatSelector, PyFormatterOptions)>,
) -> (r: PyFormatterOptions)
    ensures
        r == param_options(
            *command,
            selections_view(selections@),
            position as nat,
            param_name(param@),
        ),
{
    let by_name = match param {
        Param::Basic(_) => None,
        Param::Composite(name, _) => find_selected(
            selections,
            &PyParamFormatSelector::Name(name.clone()),
        ),
    };
    let layer = match by_name {
        Some(o) => Some(o),
        None => find_selected(selections, &PyParamFormatSelector::Position(position)),
    };
    match layer {
        Some(o) => command.merge(&o),
        None => *command,
    }
}

/// The options of each parameter of `command`, by position, each as a layer
/// that replaces any other.
fn resolve_params(
    command: &PyCommand,
    e: &PyFormatterOptions,
    selections: &Vec<(PyParamFormatSelector, PyFormatterOptions)>,
) -> (r: Vec<PyFormatterOptions>)
    ensures
        r@ == all_param_options(*e, selections_view(selections@), command@.params).map_values(
            |o: PyFormatterOptions| overriding(o),
        ),
        r.len() == command.params.len(),
        forall|i: int| 0 <= i < r.len() ==> (#[trigger] r[i]).should_override,
{
    let mut out: Vec<PyFormatterOptions> = Vec::new();
    let mut i: usize = 0;
    while i < command.params.len()
        invariant
            i <= command.params.len(),
            out.len() == i,
            forall|k: int|
                0 <= k < i ==> #[trigger] out[k] == overriding(
                    param_options(
                        *e,
                        selections_view(selections@),
                        k as nat,
                        param_name(command.params@[k]@),
                    ),
                ),
        decreases command.params.len() - i,
    {
        let mut o = get_param_specific_options(i, &command.params[i], e, selections);
        o.should_override = true;
        out.push(o);
        i += 1;
    }
    assert(out@ =~= all_param_options(
        *e,
        selections_view(selections@),
        command@.params,
    ).map_values(|o: PyFormatterOptions| overriding(o)));
    out
}

/// The options of a command as a layer for the generator of the line.
fn as_line_options(e: &PyFormatterOptions) -> (r: PyFormatterOptions)
    ensures
        r == line_options(*e),
{
    PyFormatterOptions {
        indent: e.indent,
        use_tabs: e.use_tabs,
        newline_before: false,
        newline_after: false,
        compact: e.compact,
        force_quotes_for_vars: e.force_quotes_for_vars,
        number_format: e.number_format,
        newline_before_param: e.newline_before_param,
        newline_after_param: e.newline_after_param,
        should_override: true,
    }
}

/// The line feed that a blank line is made of, where `wanted`.
pub open spec fn blank(wanted: bool) -> Seq<char> {
    if wanted {
        seq!['\n']
    } else {
        Seq::empty()
    }
}

/// `line` with a line feed before it where `before`, and one after it where
/// `after`.
fn frame(before: bool, line: &str, after: bool) -> (r: String)
    ensures
        r@ == blank(before) + line@ + blank(after),
{
    proof {
        reveal_strlit("\n");
    }
    let mut out = String::new();
    if before {
        out.append("\n");
    }
    out.append(line);
    if after {
        out.append("\n");
    }
    assert(out@ =~= blank(before) + line@ + blank(after));
    out
}

/// The generator of the line is given the same indentation as the command.
proof fn lemma_line_options_keep_indentation(level: nat, e: PyFormatterOptions)
    ensures
        indentation(level, line_options(e)) == indentation(level, e),
        indentation_fits(level, line_options(e)) == indentation_fits(level, e),
{
}

/// Options with the indentation step and the number format filled in have
/// both set.
proof fn lemma_settled_is_set(o: PyFormatterOptions)
    ensures
        settled(o).indent != 0,
        settled(o).number_format != PyNumberFormat::Unknown,
{
}

/// A writer: its configuration, the current indentation level, and whether
/// the last thing written was a blank line.
#[derive(Clone, Debug, PartialEq, Eq)]
pub struct PyWriter {
    pub config: PyWriterConfig,
    pub current_indent: usize,
    pub last_was_newline: bool,
}

impl PyWriter {
    /// Whether the line of `command`, written with the options `call`, can be
    /// laid out: the markers and the widest indentation can be allocated.
    pub open spec fn can_write(&self, command: CommandModel, call: Option<PyFormatterOptions>) -> bool {
        &&& self.config.command_threshold < isize::MAX
        &&& indentation_fits(
            self.current_indent as nat,
            effective_options(self.config@, command.name, call),
        )
    }

    /// A writer at level 0 that has written nothing, with `config`, or with
    /// the default configuration where none is given.
    pub fn new(config: Option<PyWriterConfig>) -> (r: PyWriter)
        ensures
            r.current_indent == 0,
            !r.last_was_newline,
            match config {
                Some(c) => r.config == c,
                None => r.config@.global_options == (PyFormatterOptions {
                    indent: 4,
                    number_format: PyNumberFormat::Decimal,
                    ..crate::options::unset_options()
                }) && r.config@.command_options.len() == 0 && r.config@.command_threshold == 1,
            },
    {
        let config = match config {
            Some(c) => c,
            None => PyWriterConfig::default_config(),
        };
        PyWriter { config, current_indent: 0, last_was_newline: false }
    }

    /// The text that writes `command` under the options registered for its
    /// name and the global options.
    pub fn write_command(&mut self, command: &PyCommand) -> (r: String)
        requires
            old(self).can_write(command@, None),
        ensures
            r@ == written_text(
                old(self).config@,
                old(self).current_indent as nat,
                old(self).last_was_newline,
                command@,
                None,
                Seq::empty(),
            ),
            r@.len() > 0,
            r@.last() == '\n',
            final(self).config == old(self).config,
            final(self).current_indent == old(self).current_indent,
            final(self).last_was_newline == effective_options(
                old(self).config@,
                command@.name,
                None,
            ).newline_after,
    {
        let r = self.write_command_with_options(command, None, None);
        assert(selections_view(Seq::empty()) =~= Seq::empty());
        r
    }

    /// Whether the line of `command`, written with the options `options`,
    /// can be laid out.
    pub fn can_lay_out(&self, command: &PyCommand, options: Option<&PyFormatterOptions>) -> (r:
        bool)
        ensures
            r == self.can_write(
                command@,
                match options {
                    Some(o) => Some(*o),
                    None => None,
                },
            ),
    {
        let e = self.config.get_effective_options(&command.name, options);
        let limit: u128 = isize::MAX as u128;
        let level: u128 = self.current_indent as u128 + 1;
        let step: u128 = e.indent as u128;
        assert(level * step <= 0xFFFF_FFFF_FFFF_FFFF_0000_0000_0000_0000) by (nonlinear_arith)
            requires
                0 <= level <= 0x1_0000_0000_0000_0000,
                0 <= step <= 0xFFFF_FFFF_FFFF_FFFF,
        ;
        (self.config.command_threshold as u128) < limit && (e.compact || if e.use_tabs {
            level <= limit
        } else {
            level * step <= limit
        })
    }

    /// The text that writes `command` as [`PyWriter::write_command_with_options`]
    /// gives it; nothing, and no change to the writer, where the line cannot
    /// be laid out.
    pub fn try_write_command_with_options(
        &mut self,
        command: &PyCommand,
        options: Option<&PyFormatterOptions>,
        param_options: Option<&Vec<(PyParamFormatSelector, PyFormatterOptions)>>,
    ) -> (r: Option<String>)
        ensures
            ({
                let call = match options {
                    Some(o) => Some(*o),
                    None => None,
                };
                let selections = match param_options {
                    Some(p) => selections_view(p@),
                    None => selections_view(Seq::empty()),
                };
                match r {
                    Some(text) => {
                        &&& old(self).can_write(command@, call)
                        &&& text@ == written_text(
                            old(self).config@,
                            old(self).current_indent as nat,
                            old(self).last_was_newline,
                            command@,
                            call,
                            selections,
                        )
                        &&& final(self).last_was_newline == effective_options(
                            old(self).config@,
                            command@.name,
                            call,
                        ).newline_after
                    },
                    None => !old(self).can_write(command@, call) && final(self).last_was_newline
                        == old(self).last_was_newline,
                }
            }),
            final(self).config == old(self).config,
            final(self).current_indent == old(self).current_indent,
    {
        if self.can_lay_out(command, options) {
            Some(self.write_command_with_options(command, options, param_options))
        } else {
            None
        }
    }

    /// The text that writes `command`, with `options` as the options of this
    /// call and `param_options` as the layers selected for its parameters.
    ///
    /// The result is the text of [`written_text`]. After the line feed that
    /// may lead it, it begins with the indentation of the current level; it
    /// ends with a line feed. The writer is at a blank line afterwards exactly
    /// if the options that hold for the command ask for one after it.
    pub fn write_command_with_options(
        &mut self,
        command: &PyCommand,
        options: Option<&PyFormatterOptions>,
        param_options: Option<&Vec<(PyParamFormatSelector, PyFormatterOptions)>>,
    ) -> (r: String)
        requires
            old(self).can_write(
                command@,
                match options {
                    Some(o) => Some(*o),
                    None => None,
                },
            ),
        ensures
            ({
                let call = match options {
                    Some(o) => Some(*o),
                    None => None,
                };
                let selections = match param_options {
                    Some(p) => selections_view(p@),
                    None => selections_view(Seq::empty()),
                };
                let e = effective_options(old(self).config@, command@.name, call);
                let lead: int = if e.newline_before && !old(self).last_was_newline {
                    1
                } else {
                    0
                };
                let ind = indentation(old(self).current_indent as nat, e);
                &&& r@ == written_text(
                    old(self).config@,
                    old(self).current_indent as nat,
                    old(self).last_was_newline,
                    command@,
                    call,
                    selections,
                )
                &&& lead + ind.len() < r@.len()
                &&& r@.subrange(lead, lead + ind.len()) == ind
                &&& lead == 1 ==> r@[0] == '\n'
                &&& r@.last() == '\n'
                &&& final(self).last_was_newline == e.newline_after
                &&& carried_text(command@) matches Some(t) ==> r@ == blank(
                    e.newline_before && !old(self).last_was_newline,
                ) + (ind + escaped(t) + seq!['\n']) + blank(e.newline_after)
                &&& carried_annotation(command@) matches Some(t) ==> r@ == blank(
                    e.newline_before && !old(self).last_was_newline,
                ) + (ind + annotation_body(t, old(self).config@.command_threshold) + seq!['\n'])
                    + blank(e.newline_after)
            }),
            final(self).config == old(self).config,
            final(self).current_indent == old(self).current_indent,
    {
        let e = self.config.get_effective_options(&command.name, options);
        proof {
            lemma_settled_is_set(
                match options {
                    Some(o) => merged(command_layer(self.config@, command@.name), *o),
                    None => command_layer(self.config@, command@.name),
                },
            );
        }
        let empty: Vec<(PyParamFormatSelector, PyFormatterOptions)> = Vec::new();
        match param_options {
            Some(p) => self.emit(command, &e, p),
            None => self.emit(command, &e, &empty),
        }
    }

    /// The text of a write of `command` under the options `e` that hold for
    /// it: the line, with the blank lines that `e` asks for around it.
    fn emit(
        &mut self,
        command: &PyCommand,
        e: &PyFormatterOptions,
        selections: &Vec<(PyParamFormatSelector, PyFormatterOptions)>,
    ) -> (r: String)
        requires
            e.indent != 0,
            e.number_format != PyNumberFormat::Unknown,
            old(self).config.command_threshold < isize::MAX,
            indentation_fits(old(self).current_indent as nat, *e),
        ensures
            ({
                let before = blank(e.newline_before && !old(self).last_was_newline);
                let after = blank(e.newline_after);
                let ind = indentation(old(self).current_indent as nat, *e);
                &&& r@ == before + rendered_line(
                    command@,
                    old(self).config@.command_threshold,
                    old(self).current_indent as nat,
                    line_options(*e),
                    all_param_options(*e, selections_view(selections@), command@.params).map_values(
                        |o: PyFormatterOptions| overriding(o),
                    ),
                ) + after
                &&& before.len() + ind.len() < r@.len()
                &&& r@.subrange(before.len() as int, (before.len() + ind.len()) as int) == ind
                &&& before.len() == 1 ==> r@[0] == '\n'
                &&& r@.last() == '\n'
                &&& carried_text(command@) matches Some(t) ==> r@ == before + (ind + escaped(t)
                    + seq!['\n']) + after
                &&& carried_annotation(command@) matches Some(t) ==> r@ == before + (ind
                    + annotation_body(t, old(self).config@.command_threshold) + seq!['\n']) + after
            }),
            final(self).last_was_newline == e.newline_after,
            final(self).config == old(self).config,
            final(self).current_indent == old(self).current_indent,
    {
        let line = self.generate(command, e, selections);
        let before = e.newline_before && !self.last_was_newline;
        let out = frame(before, line.as_str(), e.newline_after);
        self.last_was_newline = e.newline_after;
        proof {
            let ind = indentation(self.current_indent as nat, *e);
            let lead = blank(before);
            assert(ind.is_prefix_of(line@));
            assert(out@.subrange(lead.len() as int, (lead.len() + ind.len()) as int) =~= ind);
        }
        out
    }

    /// The line of `command` under the options `e` that hold for it and the
    /// layers selected for its parameters.
    fn generate(
        &self,
        command: &PyCommand,
        e: &PyFormatterOptions,
        selections: &Vec<(PyParamFormatSelector, PyFormatterOptions)>,
    ) -> (line: String)
        requires
            e.indent != 0,
            e.number_format != PyNumberFormat::Unknown,
            self.config.command_threshold < isize::MAX,
            indentation_fits(self.current_indent as nat, *e),
        ensures
            line@ == rendered_line(
                command@,
                self.config@.command_threshold,
                self.current_indent as nat,
                line_options(*e),
                all_param_options(*e, selections_view(selections@), command@.params).map_values(
                    |o: PyFormatterOptions| overriding(o),
                ),
            ),
            indentation(self.current_indent as nat, *e).is_prefix_of(line@),
            line@.len() > indentation(self.current_indent as nat, *e).len(),
            line@.last() == '\n',
            carried_text(command@) matches Some(t) ==> line@ == indentation(
                self.current_indent as nat,
                *e,
            ) + escaped(t) + seq!['\n'],
            carried_annotation(command@) matches Some(t) ==> line@ == indentation(
                self.current_indent as nat,
                *e,
            ) + annotation_body(t, self.config@.command_threshold) + seq!['\n'],
    {
        let per_param = resolve_params(command, e, selections);
        let line_layer = as_line_options(e);
        proof {
            lemma_line_options_keep_indentation(self.current_indent as nat, *e);
        }
        render_line(
            command,
            self.config.command_threshold,
            self.current_indent,
            &line_layer,
            &per_param,
        )
    }

    /// Raises the indentation level by one.
    pub fn inc_indent(&mut self)
        requires
            old(self).current_indent < usize::MAX,
        ensures
            final(self).current_indent == old(self).current_indent + 1,
            final(self).config == old(self).config,
            final(self).last_was_newline == old(self).last_was_newline,
    {
        self.current_indent += 1;
    }

    /// Lowers the indentation level by one; at level 0 it stays there.
    pub fn dec_indent(&mut self)
        ensures
            final(self).current_indent == if old(self).current_indent > 0 {
                old(self).current_indent - 1
            } else {
                0
            },
            final(self).config == old(self).config,
            final(self).last_was_newline == old(self).last_was_newline,
    {
        if self.current_indent > 0 {
            self.current_indent -= 1;
        }
    }

    /// The current indentation level.
    pub fn get_indent(&self) -> (r: usize)
        ensures
            r == self.current_indent,
    {
        self.current_indent
    }

    /// The text of a single line end. The writer is at a blank line
    /// afterwards; its level and configuration stay.
    pub fn newline(&mut self) -> (r: String)
        ensures
            r@ == seq!['\n'],
            final(self).last_was_newline,
            final(self).current_indent == old(self).current_indent,
            final(self).config == old(self).config,
    {
        proof {
            reveal_strlit("\n");
        }
        self.last_was_newline = true;
        let r = "\n".to_owned();
        assert(r@ =~= seq!['\n']);
        r
    }

    /// Ends the use of the writer. Nothing is held back, so nothing is left
    /// to write.
    pub fn close(&mut self)
        ensures
            *final(self) == *old(self),
    {
    }
}

/// Writing is a function of what is written and of the writer: two writers
/// with the same configuration, at the same level and both or neither at a
/// blank line, write the same text for the same command under the same
/// options.
pub proof fn lemma_same_write_same_text(
    first: PyWriter,
    second: PyWriter,
    command: PyCommand,
    again: PyCommand,
    call: Option<PyFormatterOptions>,
    selections: Seq<(SelectorModel, PyFormatterOptions)>,
)
    requires
        first.config@ == second.config@,
        first.current_indent == second.current_indent,
        first.last_was_newline == second.last_was_newline,
        command@ == again@,
    ensures
        written_text(
            first.config@,
            first.current_indent as nat,
            first.last_was_newline,
            command@,
            call,
            selections,
        ) == written_text(
            second.config@,
            second.current_indent as nat,
            second.last_was_newline,
            again@,
            call,
            selections,
        ),
{
}

/// Writing a command a second time, right after the first, gives the same
/// text again, unless the command is set off by a blank line before it and
/// the first write changed whether the writer is at one: the options that
/// hold for the command ask for no blank line before it, or the writer was at
/// a blank line before the first write exactly if they ask for one after it.
pub proof fn lemma_write_twice_same_text(
    writer: PyWriter,
    command: PyCommand,
    call: Option<PyFormatterOptions>,
    selections: Seq<(SelectorModel, PyFormatterOptions)>,
)
    requires
        ({
            let e = effective_options(writer.config@, command@.name, call);
            !e.newline_before || writer.last_was_newline == e.newline_after
        }),
    ensures
        written_text(
            writer.config@,
            writer.current_indent as nat,
            writer.last_was_newline,
            command@,
            call,
            selections,
        ) == written_text(
            writer.config@,
            writer.current_indent as nat,
            effective_options(writer.config@, command@.name, call).newline_after,
            command@,
            call,
            selections,
        ),
{
}

/// The hash of a sequence of bytes: from zero, for each byte in order, the
/// hash so far times 31 plus the byte, kept to 64 bits.
pub open spec fn hash_of_bytes(bytes: Seq<u8>) -> nat
    decreases bytes.len(),
{
    if bytes.len() == 0 {
        0
    } else {
        ((hash_of_bytes(bytes.drop_last()) * 31 + bytes.last()) % 0x1_0000_0000_0000_0000) as nat
    }
}

/// The hash of a selector: of a position, the position times 31, kept to 64
/// bits; of a name, the hash of its bytes.
pub open spec fn selector_hash(selector: SelectorModel) -> nat {
    match selector {
        SelectorModel::Position(p) => ((p * 31) % 0x1_0000_0000_0000_0000) as nat,
        SelectorModel::Name(n) => hash_of_bytes(vstd::utf8::encode_utf8(n)),
    }
}

impl PyParamFormatSelector {
    /// The hash of this selector. Selectors that select the same parameter
    /// have the same hash.
    pub fn hash_value(&self) -> (r: u64)
        ensures
            r == selector_hash(self@),
    {
        match self {
            PyParamFormatSelector::Position(p) => {
                let wide: u128 = (*p as u128) * 31;
                (wide % 0x1_0000_0000_0000_0000u128) as u64
            },
            PyParamFormatSelector::Name(n) => {
                let bytes = n.as_str().as_bytes();
                let mut acc: u64 = 0;
                let mut i: usize = 0;
                assert(bytes@.take(0) =~= Seq::empty());
                while i < bytes.len()
                    invariant
                        i <= bytes.len(),
                        acc == hash_of_bytes(bytes@.take(i as int)),
                    decreases bytes.len() - i,
                {
                    proof {
                        assert(bytes@.take(i + 1).drop_last() =~= bytes@.take(i as int));
                        assert(bytes@.take(i + 1).last() == bytes@[i as int]);
                    }
                    let wide: u128 = (acc as u128) * 31 + (bytes[i] as u128);
                    acc = (wide % 0x1_0000_0000_0000_0000u128) as u64;
                    i += 1;
                }
                assert(bytes@.take(i as int) =~= bytes@);
                acc
            },
        }
    }
}

/// The description of a selector.
pub open spec fn selector_text(selector: SelectorModel) -> Seq<char> {
    match selector {
        SelectorModel::Position(p) => "ParamFormatSelector.Position("@ + decimal(p) + ")"@,
        SelectorModel::Name(n) => "ParamFormatSelector.Name("@ + quoted(n) + ")"@,
    }
}

impl PyParamFormatSelector {
    /// The description of this selector: its kind, and in brackets the
    /// position, or the name in quotes.
    pub fn to_text(&self) -> (r: String)
        ensures
            r@ == selector_text(self@),
    {
        let mut out: Vec<char> = Vec::new();
        match self {
            PyParamFormatSelector::Position(p) => {
                push_text("ParamFormatSelector.Position(", &mut out);
                push_decimal(*p, &mut out);
            },
            PyParamFormatSelector::Name(n) => {
                push_text("ParamFormatSelector.Name(", &mut out);
                push_text(debug_quote(n.as_str()).as_str(), &mut out);
            },
        }
        push_text(")", &mut out);
        assert(out@ =~= selector_text(self@));
        string_of(&out)
    }
}

} // verus!
