//! What can go wrong while menu entries are loaded.

use crate::config;
use crate::parser;
use vstd::prelude::*;
use vstd::string::StringExecFns;

verus! {

/// A failure to load menu entries.
#[derive(Debug, PartialEq, Eq)]
pub enum Error {
    /// A directory, or an item in it, could not be read.
    ReadDir { path: String, reason: String },
    /// An entry was asked about a section other than the unnamed one.
    UnknownSection(String),
    /// An entry was handed a key that it does not have.
    UnknownKey(String),
    /// No icon of the given name was found.
    IconNotFound(String),
    /// The file could not be read or does not fit the schema.
    Parser(parser::Error),
    /// A directory's path could not be expanded.
    Config(config::Error),
    /// None of the directories gave any entry.
    NoEntriesFound,
}

/// The mathematical value of an [`Error`].
pub enum ErrorView {
    ReadDir { path: Seq<char>, reason: Seq<char> },
    UnknownSection(Seq<char>),
    UnknownKey(Seq<char>),
    IconNotFound(Seq<char>),
    Parser(parser::errors::ErrorView),
    Config(config::errors::ErrorView),
    NoEntriesFound,
}

impl View for Error {
    type V = ErrorView;

    open spec fn view(&self) -> ErrorView {
        match self {
            Error::ReadDir { path, reason } => ErrorView::ReadDir { path: path@, reason: reason@ },
            Error::UnknownSection(name) => ErrorView::UnknownSection(name@),
            Error::UnknownKey(key) => ErrorView::UnknownKey(key@),
            Error::IconNotFound(name) => ErrorView::IconNotFound(name@),
            Error::Parser(err) => ErrorView::Parser(err@),
            Error::Config(err) => ErrorView::Config(err@),
            Error::NoEntriesFound => ErrorView::NoEntriesFound,
        }
    }
}

impl ErrorView {
    /// The text that reports this error to the user.
    pub open spec fn message(self) -> Seq<char> {
        match self {
            ErrorView::ReadDir { path, reason } => "Could not read dir "@ + path + ":\n"@ + reason,
            ErrorView::UnknownSection(name) => "Menu Entry cannot have section "@ + name,
            ErrorView::UnknownKey(key) => "Menu Entry cannot have key "@ + key,
            ErrorView::IconNotFound(name) => "Could not find icon "@ + name,
            ErrorView::Parser(err) => err.message(),
            ErrorView::Config(err) => err.message(),
            ErrorView::NoEntriesFound => "Could not find any menu entries"@,
        }
    }
}

impl Error {
    /// The directory at `path`, or an item in it, could not be read, for
    /// the given reason.
    pub fn read_dir(reason: &str, path: &str) -> (e: Self)
        ensures
            e@ == (ErrorView::ReadDir { path: path@, reason: reason@ }),
    {
        Error::ReadDir { path: path.to_owned(), reason: reason.to_owned() }
    }

    /// The text that reports this error to the user.
    pub fn message(&self) -> (out: String)
        ensures
            out@ == self@.message(),
    {
        let mut out = String::new();
        match self {
            Error::ReadDir { path, reason } => {
                out.append("Could not read dir ");
                out.append(path.as_str());
                out.append(":\n");
                out.append(reason.as_str());
                assert(out@ == "Could not read dir "@ + path@ + ":\n"@ + reason@);
            },
            Error::UnknownSection(name) => {
                out.append("Menu Entry cannot have section ");
                out.append(name.as_str());
            },
            Error::UnknownKey(key) => {
                out.append("Menu Entry cannot have key ");
                out.append(key.as_str());
            },
            Error::IconNotFound(name) => {
                out.append("Could not find icon ");
                out.append(name.as_str());
            },
            Error::Parser(err) => {
                return err.message();
            },
            Error::Config(err) => {
                return err.message();
            },
            Error::NoEntriesFound => {
                out.append("Could not find any menu entries");
            },
        }
        out
    }
}

} // verus!
