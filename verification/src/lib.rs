//! KoiLang: a line-oriented text format of commands, free text and annotations.
//!
//! The library holds the value model ([`command`]), the classification and
//! parsing of lines ([`text`], [`line`], [`parser`]), the failures and what a
//! host is told of them ([`error`], [`raise`]), the formatting options and
//! the writer ([`options`], [`writer`]), the values of a dynamic host
//! ([`host`]) and the decisions at the edge to its files ([`io`]).
//!
//! The grammar of a command line and the text of a written command are
//! `koicore`'s; the calls into it stand in [`engine`]. Everything else is
//! verified against the contracts stated there.

pub mod command;
pub mod engine;
pub mod error;
pub mod host;
pub mod io;
pub mod line;
pub mod options;
pub mod parser;
pub mod raise;
pub mod text;
pub mod writer;
