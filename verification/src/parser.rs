//! The generic part of parsing: a text format of sections and `key=value`
//! entries, and an engine that drains it according to a schema.
//!
//! A file is read line by line. `//` starts a comment that runs to the end of
//! the line. A line `[name]` opens the section `name`; every other line that
//! is not empty must be a `key=value` entry of the section that is open. What
//! stands before the first header belongs to the unnamed section.

pub mod config_builder;
pub mod contents;
pub mod errors;
pub mod laws;

pub use config_builder::{from_contents, ConfigBuilder, Key, Section};
pub use contents::{ConfigContents, ConfigSection};
pub use errors::Error;

use crate::text::{chars_of, find_char, index_of, lines, split_lines, string_of, trim, trimmed};
use config_builder::{built, result_view};
use contents::{distinct_keys, with, ContentsView, Table};
use errors::ErrorView;
use vstd::prelude::*;
use vstd::slice::slice_subrange;

verus! {

/// The least index `i >= from` at which two slashes stand side by side, or
/// `line.len()` where there is no such place from `from` on.
pub open spec fn comment_from(line: Seq<char>, from: int) -> int
    decreases line.len() - from,
{
    if from < 0 || from + 1 >= line.len() {
        line.len() as int
    } else if line[from] == '/' && line[from + 1] == '/' {
        from
    } else {
        comment_from(line, from + 1)
    }
}

/// `line` up to its comment, if it has one.
pub open spec fn without_comment(line: Seq<char>) -> Seq<char> {
    line.take(comment_from(line, 0))
}

/// Whether `line` opens a section.
pub open spec fn is_header(line: Seq<char>) -> bool {
    line.len() > 0 && line[0] == '[' && line.last() == ']'
}

/// The name of the section that the header `line` opens: what stands between
/// its first and its last character.
pub open spec fn header_name(line: Seq<char>) -> Seq<char> {
    line.subrange(1, line.len() - 1)
}

/// How far a file has been read: the sections that are closed, the name of
/// the section that is open, and the entries read for it so far.
pub struct Progress {
    pub sections: Seq<(Seq<char>, Seq<(Seq<char>, Seq<char>)>)>,
    pub current: Seq<char>,
    pub values: Seq<(Seq<char>, Seq<char>)>,
}

impl Progress {
    /// Nothing read: no section closed, the unnamed section open and empty.
    pub open spec fn start() -> Progress {
        Progress { sections: Seq::empty(), current: Seq::empty(), values: Seq::empty() }
    }

    /// The closed sections once the open one is closed too. An open section
    /// without entries leaves no trace; one with entries takes the place of
    /// an earlier section of the same name.
    pub open spec fn flush(self) -> Seq<(Seq<char>, Seq<(Seq<char>, Seq<char>)>)> {
        if self.values.len() > 0 {
            with(self.sections, self.current, self.values)
        } else {
            self.sections
        }
    }

    /// The progress after one more line, or `None` where the line is
    /// malformed: not empty, no header, and without an equals sign.
    ///
    /// An entry is split at its first equals sign, and both sides are
    /// trimmed. A key that the open section holds already gets the new value.
    pub open spec fn take_line(self, raw: Seq<char>) -> Option<Progress> {
        let line = without_comment(raw);
        if line.len() == 0 {
            Some(self)
        } else if is_header(line) {
            Some(
                Progress {
                    sections: self.flush(),
                    current: header_name(line),
                    values: Seq::empty(),
                },
            )
        } else if index_of(line, '=') < line.len() {
            let at = index_of(line, '=');
            Some(
                Progress {
                    sections: self.sections,
                    current: self.current,
                    values: with(self.values, trim(line.take(at)), trim(line.skip(at + 1))),
                },
            )
        } else {
            None
        }
    }

    /// Whether no name occurs twice among the closed sections, and no key
    /// twice in any section, closed or open.
    pub open spec fn wf(self) -> bool {
        &&& distinct_keys(self.values)
        &&& (ContentsView { sections: self.sections, path: Seq::empty() }).wf()
    }
}

/// The sections that `lines[at..]` leave behind when reading goes on from
/// `progress`, or the number of the first malformed line.
pub open spec fn take_lines(all: Seq<Seq<char>>, at: int, progress: Progress) -> Result<
    Seq<(Seq<char>, Seq<(Seq<char>, Seq<char>)>)>,
    nat,
>
    decreases all.len() - at,
{
    if at < 0 || at >= all.len() {
        Ok(progress.flush())
    } else {
        match progress.take_line(all[at]) {
            None => Err(at as nat),
            Some(next) => take_lines(all, at + 1, next),
        }
    }
}

/// What is said of a line that is neither a header nor an entry.
pub open spec fn format_reason() -> Seq<char> {
    "Entries need to be in key=value format"@
}

/// The contents of the file at `path` that holds `text`, or the error for
/// its first malformed line. Lines are counted from 0.
pub open spec fn tokenized(text: Seq<char>, path: Seq<char>) -> Result<ContentsView, ErrorView> {
    match take_lines(lines(text), 0, Progress::start()) {
        Ok(sections) => Ok(ContentsView { sections, path }),
        Err(line_nr) => Err(ErrorView::InvalidFormat { path, line_nr, reason: format_reason() }),
    }
}

/// What a builder that starts in `state` builds from the file at `path`,
/// given how reading that file ended: with its text, or with the reason why
/// it could not be read.
pub open spec fn parsed<B: ConfigBuilder>(
    path: Seq<char>,
    read: Result<Seq<char>, Seq<char>>,
    state: B::V,
) -> Result<<B::Output as View>::V, <B::Error as View>::V> {
    match read {
        Err(reason) => Err(B::lift(ErrorView::ReadFile { path, reason })),
        Ok(text) => match tokenized(text, path) {
            Err(e) => Err(B::lift(e)),
            Ok(contents) => built::<B>(contents, state),
        },
    }
}

/// The mathematical value of the outcome of reading a file.
pub open spec fn read_view(read: Result<String, String>) -> Result<Seq<char>, Seq<char>> {
    match read {
        Ok(text) => Ok(text@),
        Err(reason) => Err(reason@),
    }
}

/// `line` up to its comment, if it has one.
pub fn remove_comment(line: &[char]) -> (r: &[char])
    ensures
        r@ == without_comment(line@),
{
    let mut i: usize = 0;
    while line.len() - i > 1 && !(line[i] == '/' && line[i + 1] == '/')
        invariant
            i <= line.len(),
            comment_from(line@, 0) == comment_from(line@, i as int),
        decreases line.len() - i,
    {
        i += 1;
    }
    let end = if line.len() - i > 1 {
        i
    } else {
        line.len()
    };
    slice_subrange(line, 0, end)
}

/// Splits the text of the file at `path` into sections and entries.
///
/// Fails on the first line that is neither empty, nor a header, nor an
/// entry, and reports the number of that line, counted from 0.
pub fn contents_from_string(input: &str, path: &str) -> (r: Result<ConfigContents, Error>)
    ensures
        result_view(r) == tokenized(input@, path@),
        r matches Ok(contents) ==> contents@.wf(),
{
    proof {
        laws::lemma_tokenized_wf(input@, path@);
    }
    let chars = chars_of(input);
    let all = split_lines(chars.as_slice());
    let mut sections: Table<ConfigSection> = Table::new();
    let mut values: Table<String> = Table::new();
    let mut current = String::new();
    let mut num: usize = 0;
    while num < all.len()
        invariant
            num <= all.len(),
            all.deep_view() == lines(input@),
            take_lines(lines(input@), 0, Progress::start()) == take_lines(
                lines(input@),
                num as int,
                Progress {
                    sections: sections.deep_view(),
                    current: current@,
                    values: values.deep_view(),
                },
            ),
        decreases all.len() - num,
    {
        assert(all.deep_view()[num as int] =~= all@[num as int]@);
        let line = remove_comment(all[num].as_slice());
        if line.len() > 0 {
            if line[0] == '[' && line[line.len() - 1] == ']' {
                if !values.is_empty() {
                    sections.insert(current, ConfigSection::new(values));
                }
                values = Table::new();
                current = string_of(slice_subrange(line, 1, line.len() - 1));
            } else {
                let at = find_char(line, '=');
                if at >= line.len() {
                    return Err(
                        Error::format(path, num, "Entries need to be in key=value format"),
                    );
                }
                let key = string_of(trimmed(slice_subrange(line, 0, at)));
                let value = string_of(trimmed(slice_subrange(line, at + 1, line.len())));
                values.insert(key, value);
            }
        }
        num += 1;
    }
    if !values.is_empty() {
        sections.insert(current, ConfigSection::new(values));
    }
    Ok(ConfigContents::new(sections, path.to_owned()))
}

/// The contents of the file at `path`, given how reading it ended.
pub fn contents_from_file(path: &str, read: &Result<String, String>) -> (r: Result<
    ConfigContents,
    Error,
>)
    ensures
        result_view(r) == match read_view(*read) {
            Err(reason) => Err(ErrorView::ReadFile { path: path@, reason }),
            Ok(text) => tokenized(text, path@),
        },
{
    match read {
        Err(reason) => Err(Error::read_file(reason.as_str(), path)),
        Ok(text) => contents_from_string(text.as_str(), path),
    }
}

/// Builds an output from the file at `path` with a builder that starts as
/// `builder`, given how reading the file ended.
pub fn parse_file<B: ConfigBuilder>(path: &str, read: &Result<String, String>, builder: B) -> (r:
    Result<B::Output, B::Error>)
    ensures
        result_view(r) == parsed::<B>(path@, read_view(*read), builder@),
{
    match contents_from_file(path, read) {
        Err(e) => Err(B::from_parser(e)),
        Ok(contents) => from_contents::<B>(contents, builder),
    }
}

} // verus!
