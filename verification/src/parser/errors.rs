//! What can go wrong while a file is read, split into sections and drained.

use crate::text::{join, joined, decimal_digits, push_decimal};
use vstd::prelude::*;
use vstd::string::StringExecFns;

verus! {

/// A failure of the generic part of parsing. Every variant names the file
/// that it is about.
#[derive(Debug, PartialEq, Eq)]
pub enum Error {
    /// The file could not be read.
    ReadFile { path: String, reason: String },
    /// A line is neither a section header nor a `key=value` entry.
    InvalidFormat { path: String, line_nr: usize, reason: String },
    /// A key that the schema requires is absent from its section.
    MissingKey { path: String, section: String, key: String },
    /// A section that the schema requires is absent from the file.
    MissingSection { path: String, section: String },
    /// A section holds keys that its schema does not declare.
    UnexpectedKeys { path: String, section: String, keys: Vec<String> },
    /// The file holds sections that the schema does not declare.
    UnexpectedSections { path: String, sections: Vec<String> },
}

/// The mathematical value of an [`Error`].
pub enum ErrorView {
    ReadFile { path: Seq<char>, reason: Seq<char> },
    InvalidFormat { path: Seq<char>, line_nr: nat, reason: Seq<char> },
    MissingKey { path: Seq<char>, section: Seq<char>, key: Seq<char> },
    MissingSection { path: Seq<char>, section: Seq<char> },
    UnexpectedKeys { path: Seq<char>, section: Seq<char>, keys: Seq<Seq<char>> },
    UnexpectedSections { path: Seq<char>, sections: Seq<Seq<char>> },
}

impl View for Error {
    type V = ErrorView;

    open spec fn view(&self) -> ErrorView {
        match self {
            Error::ReadFile { path, reason } => ErrorView::ReadFile {
                path: path@,
                reason: reason@,
            },
            Error::InvalidFormat { path, line_nr, reason } => ErrorView::InvalidFormat {
                path: path@,
                line_nr: *line_nr as nat,
                reason: reason@,
            },
            Error::MissingKey { path, section, key } => ErrorView::MissingKey {
                path: path@,
                section: section@,
                key: key@,
            },
            Error::MissingSection { path, section } => ErrorView::MissingSection {
                path: path@,
                section: section@,
            },
            Error::UnexpectedKeys { path, section, keys } => ErrorView::UnexpectedKeys {
                path: path@,
                section: section@,
                keys: keys.deep_view(),
            },
            Error::UnexpectedSections { path, sections } => ErrorView::UnexpectedSections {
                path: path@,
                sections: sections.deep_view(),
            },
        }
    }
}

/// How a section is named in a message: not at all where it is the unnamed
/// section, else by the words ` for section ` and its name.
pub open spec fn section_phrase(sec: Seq<char>) -> Seq<char> {
    if sec.len() == 0 {
        Seq::empty()
    } else {
        " for section "@ + sec
    }
}

impl ErrorView {
    /// The text that reports this error to the user.
    pub open spec fn message(self) -> Seq<char> {
        match self {
            ErrorView::ReadFile { path, reason } => "Could not read file "@ + path + ":\n"@
                + reason,
            ErrorView::InvalidFormat { path, line_nr, reason } => "Could not parse line "@
                + decimal_digits(line_nr) + " of "@ + path + ": "@ + reason,
            ErrorView::MissingKey { path, section, key } => "Missing key "@ + key + section_phrase(
                section,
            ) + " in "@ + path,
            ErrorView::MissingSection { path, section } => "Missing section "@ + section + " in "@
                + path,
            ErrorView::UnexpectedKeys { path, section, keys } => "Unexpected keys "@ + join(
                keys,
                ", "@,
            ) + section_phrase(section) + " in "@ + path,
            ErrorView::UnexpectedSections { path, sections } => "Unexpected sections "@ + join(
                sections,
                ", "@,
            ) + " in "@ + path,
        }
    }
}

/// How a section is named in a message.
pub fn format_section(sec: &str) -> (out: String)
    ensures
        out@ == section_phrase(sec@),
{
    if sec.is_empty() {
        String::new()
    } else {
        let mut out = String::new();
        out.append(" for section ");
        out.append(sec);
        assert(out@ == " for section "@ + sec@);
        out
    }
}

impl Error {
    /// The file at `path` could not be read, for the given reason.
    pub fn read_file(reason: &str, path: &str) -> (e: Self)
        ensures
            e@ == (ErrorView::ReadFile { path: path@, reason: reason@ }),
    {
        Error::ReadFile { path: path.to_owned(), reason: reason.to_owned() }
    }

    /// Line `line_nr` of the file at `path`, counted from 0, is malformed.
    pub fn format(path: &str, line_nr: usize, reason: &str) -> (e: Self)
        ensures
            e@ == (ErrorView::InvalidFormat {
                path: path@,
                line_nr: line_nr as nat,
                reason: reason@,
            }),
    {
        Error::InvalidFormat { path: path.to_owned(), line_nr, reason: reason.to_owned() }
    }

    /// The required `key` is absent from `section`.
    pub fn missing_key(path: &str, section: &str, key: &str) -> (e: Self)
        ensures
            e@ == (ErrorView::MissingKey { path: path@, section: section@, key: key@ }),
    {
        Error::MissingKey {
            path: path.to_owned(),
            section: section.to_owned(),
            key: key.to_owned(),
        }
    }

    /// The required `section` is absent.
    pub fn missing_section(path: &str, section: &str) -> (e: Self)
        ensures
            e@ == (ErrorView::MissingSection { path: path@, section: section@ }),
    {
        Error::MissingSection { path: path.to_owned(), section: section.to_owned() }
    }

    /// `section` holds the undeclared `keys`.
    pub fn unexpected_keys(path: &str, section: &str, keys: Vec<String>) -> (e: Self)
        ensures
            e@ == (ErrorView::UnexpectedKeys {
                path: path@,
                section: section@,
                keys: keys.deep_view(),
            }),
    {
        Error::UnexpectedKeys { path: path.to_owned(), section: section.to_owned(), keys }
    }

    /// The file holds the undeclared `sections`.
    pub fn unexpected_sections(path: &str, sections: Vec<String>) -> (e: Self)
        ensures
            e@ == (ErrorView::UnexpectedSections { path: path@, sections: sections.deep_view() }),
    {
        Error::UnexpectedSections { path: path.to_owned(), sections }
    }

    /// The text that reports this error to the user.
    pub fn message(&self) -> (out: String)
        ensures
            out@ == self@.message(),
    {
        let mut out = String::new();
        match self {
            Error::ReadFile { path, reason } => {
                out.append("Could not read file ");
                out.append(path.as_str());
                out.append(":\n");
                out.append(reason.as_str());
                assert(out@ == "Could not read file "@ + path@ + ":\n"@ + reason@);
            },
            Error::InvalidFormat { path, line_nr, reason } => {
                out.append("Could not parse line ");
                push_decimal(&mut out, *line_nr);
                out.append(" of ");
                out.append(path.as_str());
                out.append(": ");
                out.append(reason.as_str());
                assert(out@ == "Could not parse line "@ + decimal_digits(*line_nr as nat) + " of "@
                    + path@ + ": "@ + reason@);
            },
            Error::MissingKey { path, section, key } => {
                let phrase = format_section(section.as_str());
                out.append("Missing key ");
                out.append(key.as_str());
                out.append(phrase.as_str());
                out.append(" in ");
                out.append(path.as_str());
                assert(out@ == "Missing key "@ + key@ + section_phrase(section@) + " in "@ + path@);
            },
            Error::MissingSection { path, section } => {
                out.append("Missing section ");
                out.append(section.as_str());
                out.append(" in ");
                out.append(path.as_str());
                assert(out@ == "Missing section "@ + section@ + " in "@ + path@);
            },
            Error::UnexpectedKeys { path, section, keys } => {
                let phrase = format_section(section.as_str());
                let list = joined(keys, ", ");
                out.append("Unexpected keys ");
                out.append(list.as_str());
                out.append(phrase.as_str());
                out.append(" in ");
                out.append(path.as_str());
                assert(out@ == "Unexpected keys "@ + join(keys.deep_view(), ", "@) + section_phrase(
                    section@,
                ) + " in "@ + path@);
            },
            Error::UnexpectedSections { path, sections } => {
                let list = joined(sections, ", ");
                out.append("Unexpected sections ");
                out.append(list.as_str());
                out.append(" in ");
                out.append(path.as_str());
                assert(out@ == "Unexpected sections "@ + join(sections.deep_view(), ", "@) + " in "@
                    + path@);
            },
        }
        out
    }
}

} // verus!
