//! What can go wrong while the application's configuration is loaded.

use crate::parser;
use crate::text::{join, joined};
use vstd::prelude::*;
use vstd::string::StringExecFns;

verus! {

/// A failure to load the application's configuration.
#[derive(Debug, PartialEq, Eq)]
pub enum Error {
    /// The file could not be read or does not fit the schema.
    Parse(parser::Error),
    /// A value is no color literal.
    InvalidColor(String),
    /// A value is no number.
    InvalidNumber(String),
    /// A key was handed in that its section does not declare.
    InvalidKey { section: String, key: String },
    /// A section was asked for that the configuration does not declare.
    InvalidSection(String),
    /// None of the candidate files is there and parses.
    NoConfigFound(Vec<String>),
    /// The home directory in a candidate path could not be filled in.
    HomeDir { path: String, msg: String },
}

/// The mathematical value of an [`Error`].
pub enum ErrorView {
    Parse(parser::errors::ErrorView),
    InvalidColor(Seq<char>),
    InvalidNumber(Seq<char>),
    InvalidKey { section: Seq<char>, key: Seq<char> },
    InvalidSection(Seq<char>),
    NoConfigFound(Seq<Seq<char>>),
    HomeDir { path: Seq<char>, msg: Seq<char> },
}

impl View for Error {
    type V = ErrorView;

    open spec fn view(&self) -> ErrorView {
        match self {
            Error::Parse(err) => ErrorView::Parse(err@),
            Error::InvalidColor(text) => ErrorView::InvalidColor(text@),
            Error::InvalidNumber(text) => ErrorView::InvalidNumber(text@),
            Error::InvalidKey { section, key } => ErrorView::InvalidKey {
                section: section@,
                key: key@,
            },
            Error::InvalidSection(name) => ErrorView::InvalidSection(name@),
            Error::NoConfigFound(paths) => ErrorView::NoConfigFound(paths.deep_view()),
            Error::HomeDir { path, msg } => ErrorView::HomeDir { path: path@, msg: msg@ },
        }
    }
}

impl ErrorView {
    /// The text that reports this error to the user.
    pub open spec fn message(self) -> Seq<char> {
        match self {
            ErrorView::Parse(err) => err.message(),
            ErrorView::InvalidColor(text) => "Not a valid color: "@ + text,
            ErrorView::InvalidNumber(text) => "Not a valid number: "@ + text,
            ErrorView::InvalidKey { section, key } => "Not a valid key for section "@ + section
                + ": "@ + key,
            ErrorView::InvalidSection(name) => "Not a valid section: "@ + name,
            ErrorView::NoConfigFound(paths) => "Could not find valid config file, searched:\n"@
                + join(paths, "\n"@),
            ErrorView::HomeDir { path, msg } => "Could not expand home directory for "@ + path
                + ":\n"@ + msg,
        }
    }
}

impl Error {
    /// `key` is no key of the section `sec`.
    pub fn invalid_key(sec: &str, key: &str) -> (e: Self)
        ensures
            e@ == (ErrorView::InvalidKey { section: sec@, key: key@ }),
    {
        Error::InvalidKey { section: sec.to_owned(), key: key.to_owned() }
    }

    /// The text that reports this error to the user.
    pub fn message(&self) -> (out: String)
        ensures
            out@ == self@.message(),
    {
        let mut out = String::new();
        match self {
            Error::Parse(err) => {
                return err.message();
            },
            Error::InvalidColor(text) => {
                out.append("Not a valid color: ");
                out.append(text.as_str());
            },
            Error::InvalidNumber(text) => {
                out.append("Not a valid number: ");
                out.append(text.as_str());
            },
            Error::InvalidKey { section, key } => {
                out.append("Not a valid key for section ");
                out.append(section.as_str());
                out.append(": ");
                out.append(key.as_str());
                assert(out@ == "Not a valid key for section "@ + section@ + ": "@ + key@);
            },
            Error::InvalidSection(name) => {
                out.append("Not a valid section: ");
                out.append(name.as_str());
            },
            Error::NoConfigFound(paths) => {
                let list = joined(paths, "\n");
                out.append("Could not find valid config file, searched:\n");
                out.append(list.as_str());
            },
            Error::HomeDir { path, msg } => {
                out.append("Could not expand home directory for ");
                out.append(path.as_str());
                out.append(":\n");
                out.append(msg.as_str());
                assert(out@ == "Could not expand home directory for "@ + path@ + ":\n"@ + msg@);
            },
        }
        out
    }
}

} // verus!
