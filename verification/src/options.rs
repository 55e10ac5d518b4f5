//! Formatting options and how the layers of overrides are resolved.
//!
//! Four layers can speak about one parameter, strongest first: an entry
//! selected by the parameter's name or position, the options given with the
//! call, the options registered for the command's name, and the global
//! options. Each layer is merged over the next weaker one.

use vstd::prelude::*;

verus! {

/// How an integer is written. `Unknown` leaves the choice to a weaker layer
/// and, with no layer choosing, means decimal.
#[derive(Clone, Copy, Debug, PartialEq, Eq, Structural)]
pub enum PyNumberFormat {
    Unknown,
    Decimal,
    Hex,
    Octal,
    Binary,
}

/// One layer of formatting options.
///
/// In a layer that is merged over another, a field at its zero value (`0`,
/// `false`, `Unknown`) is unset, unless `should_override` is set, which makes
/// the layer replace the other one whole.
#[derive(Clone, Copy, Debug, PartialEq, Eq, Structural)]
pub struct PyFormatterOptions {
    pub indent: usize,
    pub use_tabs: bool,
    pub newline_before: bool,
    pub newline_after: bool,
    pub compact: bool,
    pub force_quotes_for_vars: bool,
    pub number_format: PyNumberFormat,
    pub newline_before_param: bool,
    pub newline_after_param: bool,
    pub should_override: bool,
}

/// The width of one indentation step where no layer sets one.
pub const DEFAULT_INDENT: usize = 4;

/// The layer in which every field is unset.
pub open spec fn unset_options() -> PyFormatterOptions {
    PyFormatterOptions {
        indent: 0,
        use_tabs: false,
        newline_before: false,
        newline_after: false,
        compact: false,
        force_quotes_for_vars: false,
        number_format: PyNumberFormat::Unknown,
        newline_before_param: false,
        newline_after_param: false,
        should_override: false,
    }
}

/// `over` merged over `base`: `over` itself where it overrides, else `base`
/// with every field that `over` sets taken from `over`.
pub open spec fn merged(base: PyFormatterOptions, over: PyFormatterOptions) -> PyFormatterOptions {
    if over.should_override {
        over
    } else {
        PyFormatterOptions {
            indent: if over.indent != 0 {
                over.indent
            } else {
                base.indent
            },
            use_tabs: base.use_tabs || over.use_tabs,
            newline_before: base.newline_before || over.newline_before,
            newline_after: base.newline_after || over.newline_after,
            compact: base.compact || over.compact,
            force_quotes_for_vars: base.force_quotes_for_vars || over.force_quotes_for_vars,
            number_format: if over.number_format != PyNumberFormat::Unknown {
                over.number_format
            } else {
                base.number_format
            },
            newline_before_param: base.newline_before_param || over.newline_before_param,
            newline_after_param: base.newline_after_param || over.newline_after_param,
            should_override: base.should_override,
        }
    }
}

/// `options` with the two fields that must not stay unset filled in: the
/// indentation step and the number format.
pub open spec fn settled(options: PyFormatterOptions) -> PyFormatterOptions {
    PyFormatterOptions {
        indent: if options.indent == 0 {
            DEFAULT_INDENT
        } else {
            options.indent
        },
        number_format: if options.number_format == PyNumberFormat::Unknown {
            PyNumberFormat::Decimal
        } else {
            options.number_format
        },
        ..options
    }
}

impl PyFormatterOptions {
    /// The layer in which every field is unset.
    pub fn unset() -> (r: PyFormatterOptions)
        ensures
            r == unset_options(),
    {
        PyFormatterOptions {
            indent: 0,
            use_tabs: false,
            newline_before: false,
            newline_after: false,
            compact: false,
            force_quotes_for_vars: false,
            number_format: PyNumberFormat::Unknown,
            newline_before_param: false,
            newline_after_param: false,
            should_override: false,
        }
    }

    /// Merges `over` over `self`.
    pub fn merge(&self, over: &PyFormatterOptions) -> (r: PyFormatterOptions)
        ensures
            r == merged(*self, *over),
    {
        if over.should_override {
            *over
        } else {
            PyFormatterOptions {
                indent: if over.indent != 0 {
                    over.indent
                } else {
                    self.indent
                },
                use_tabs: self.use_tabs || over.use_tabs,
                newline_before: self.newline_before || over.newline_before,
                newline_after: self.newline_after || over.newline_after,
                compact: self.compact || over.compact,
                force_quotes_for_vars: self.force_quotes_for_vars || over.force_quotes_for_vars,
                number_format: if over.number_format != PyNumberFormat::Unknown {
                    over.number_format
                } else {
                    self.number_format
                },
                newline_before_param: self.newline_before_param || over.newline_before_param,
                newline_after_param: self.newline_after_param || over.newline_after_param,
                should_override: self.should_override,
            }
        }
    }

    /// Fills in the indentation step and the number format where unset.
    pub fn settle(&self) -> (r: PyFormatterOptions)
        ensures
            r == settled(*self),
    {
        let mut r = *self;
        if r.indent == 0 {
            r.indent = DEFAULT_INDENT;
        }
        if r.number_format == PyNumberFormat::Unknown {
            r.number_format = PyNumberFormat::Decimal;
        }
        r
    }
}

/// The number that stands for a number format where one is stored.
pub open spec fn format_code(format: PyNumberFormat) -> u8 {
    match format {
        PyNumberFormat::Unknown => 0,
        PyNumberFormat::Decimal => 1,
        PyNumberFormat::Hex => 2,
        PyNumberFormat::Octal => 3,
        PyNumberFormat::Binary => 4,
    }
}

/// A number that stands for no number format.
#[derive(Clone, Copy, Debug, PartialEq, Eq, Structural)]
pub struct InvalidState;

impl PyNumberFormat {
    /// The number that stands for this format.
    pub fn get_state(&self) -> (r: u8)
        ensures
            r == format_code(*self),
    {
        match self {
            PyNumberFormat::Unknown => 0,
            PyNumberFormat::Decimal => 1,
            PyNumberFormat::Hex => 2,
            PyNumberFormat::Octal => 3,
            PyNumberFormat::Binary => 4,
        }
    }

    /// Makes this the format that `state` stands for. Where `state` stands
    /// for none, the format stays.
    pub fn set_state(&mut self, state: u8) -> (r: Result<(), InvalidState>)
        ensures
            state <= 4 ==> r is Ok && format_code(*final(self)) == state,
            state > 4 ==> r is Err && *final(self) == *old(self),
    {
        if state == 0 {
            *self = PyNumberFormat::Unknown;
        } else if state == 1 {
            *self = PyNumberFormat::Decimal;
        } else if state == 2 {
            *self = PyNumberFormat::Hex;
        } else if state == 3 {
            *self = PyNumberFormat::Octal;
        } else if state == 4 {
            *self = PyNumberFormat::Binary;
        } else {
            return Err(InvalidState);
        }
        Ok(())
    }

    /// A copy of this format.
    pub fn deep_copy(&self) -> (r: PyNumberFormat)
        ensures
            r == *self,
    {
        *self
    }
}

/// A format that is stored and read back is the same format: the number that
/// stands for a format stands for no other.
pub proof fn lemma_format_code_is_one_to_one(a: PyNumberFormat, b: PyNumberFormat)
    ensures
        format_code(a) == format_code(b) <==> a == b,
        format_code(a) <= 4,
{
}

} // verus!
