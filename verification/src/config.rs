//! The application's configuration: window and tile settings, read from a
//! file that every setting may leave to its default.

pub mod colors;
pub mod errors;
pub mod laws;
pub mod number;
pub mod parse;

pub use colors::Color;
pub use errors::Error;
pub use number::Number;
pub use parse::AppConfigBuilder;

use crate::parser::config_builder::result_view;
use crate::parser::{parse_file, parsed, read_view};
use crate::text::starts_with;
use errors::ErrorView;
use parse::AppConfigBuilderView;
use vstd::prelude::*;

verus! {

/// How the tiles of the menu look.
#[derive(Debug, PartialEq, Eq)]
pub struct EntryConfig {
    /// Background color.
    pub background: Color,
    /// Text color.
    pub text_color: Color,
    /// Font size.
    pub text_size: Number,
    /// Radius of the corners.
    pub border_radius: Number,
    /// Width of a tile.
    pub width: Number,
    /// Height of a tile.
    pub height: Number,
}

/// How the window looks, and in it the tiles.
#[derive(Debug, PartialEq, Eq)]
pub struct AppConfig {
    /// The tiles.
    pub entries: EntryConfig,
    /// Background color.
    pub background: Color,
    /// Text color.
    pub text_color: Color,
    /// Number of columns; left to the window's width where there is none.
    pub columns: Option<u64>,
    /// Space between the window's sides and the tiles.
    pub padding: Number,
    /// Height of the window.
    pub height: Number,
    /// Width of the window.
    pub width: Number,
    /// Space between two columns.
    pub column_gap: Number,
    /// Space between two rows.
    pub row_gap: Number,
}

/// The mathematical value of an [`EntryConfig`]; a number is the text of its literal.
pub struct EntryConfigView {
    pub background: Color,
    pub text_color: Color,
    pub text_size: Seq<char>,
    pub border_radius: Seq<char>,
    pub width: Seq<char>,
    pub height: Seq<char>,
}

/// The mathematical value of an [`AppConfig`]; a number is the text of its literal.
pub struct AppConfigView {
    pub entries: EntryConfigView,
    pub background: Color,
    pub text_color: Color,
    pub columns: Option<u64>,
    pub padding: Seq<char>,
    pub height: Seq<char>,
    pub width: Seq<char>,
    pub column_gap: Seq<char>,
    pub row_gap: Seq<char>,
}

impl View for EntryConfig {
    type V = EntryConfigView;

    open spec fn view(&self) -> EntryConfigView {
        EntryConfigView {
            background: self.background,
            text_color: self.text_color,
            text_size: self.text_size@,
            border_radius: self.border_radius@,
            width: self.width@,
            height: self.height@,
        }
    }
}

impl View for AppConfig {
    type V = AppConfigView;

    open spec fn view(&self) -> AppConfigView {
        AppConfigView {
            entries: self.entries@,
            background: self.background,
            text_color: self.text_color,
            columns: self.columns,
            padding: self.padding@,
            height: self.height@,
            width: self.width@,
            column_gap: self.column_gap@,
            row_gap: self.row_gap@,
        }
    }
}

/// What is left of `path` once the leading components `prefix` are taken
/// off it, or the text of the error where the path does not start with them.
pub uninterp spec fn stripped_prefix(path: Seq<char>, prefix: Seq<char>) -> Result<
    Seq<char>,
    Seq<char>,
>;

/// The path that joining `rest` onto `base` gives.
pub uninterp spec fn joined_path(base: Seq<char>, rest: Seq<char>) -> Seq<char>;

/// Whether `name` is one plain component of a path: not empty, without a
/// separator or a colon, and neither `.` nor `..`.
pub open spec fn plain_component(name: Seq<char>) -> bool {
    &&& name.len() > 0
    &&& forall|i: int|
        0 <= i < name.len() ==> name[i] != '/' && name[i] != '\\' && name[i] != ':'
    &&& name != seq!['.']
    &&& name != seq!['.', '.']
}

/// Whether the first component of `path` is `name`, as far as the text
/// shows it: the path is `name` alone, or `name` and a slash start it.
pub open spec fn begins_with_component(path: Seq<char>, name: Seq<char>) -> bool {
    path == name || starts_with(path, name.push('/'))
}

/// Takes the leading components `prefix` off a path.
///
/// Trusted: stands for `std::path::Path::strip_prefix`. The contract gives
/// its outcome a name: the rest of the path, or the text of the error that
/// the call gives. It adds what the documentation says of whole
/// components: a path whose first component is the plain component
/// `prefix` starts with it, so the call succeeds.
#[verifier::external_body]
fn strip_prefix(path_name: &str, prefix: &str) -> (r: Result<String, String>)
    ensures
        read_view(r) == stripped_prefix(path_name@, prefix@),
        plain_component(prefix@) && begins_with_component(path_name@, prefix@) ==> r is Ok,
{
    match std::path::Path::new(path_name).strip_prefix(prefix) {
        Ok(rest) => Ok(rest.to_string_lossy().into_owned()),
        Err(err) => Err(err.to_string()),
    }
}

/// Joins `rest` onto the path `base`.
///
/// Trusted: stands for `std::path::Path::join`. The contract only gives its
/// result a name.
#[verifier::external_body]
fn join_path(base: &str, rest: &str) -> (r: String)
    ensures
        r@ == joined_path(base@, rest@),
{
    std::path::Path::new(base).join(rest).to_string_lossy().into_owned()
}

/// What is said where the home directory is not known.
pub open spec fn no_home() -> Seq<char> {
    "Could not get home directory"@
}

/// The path that `path_name` stands for once its leading `~` is taken off
/// with the outcome `stripped`, given the home directory if there is one.
pub open spec fn expanded_home(
    path_name: Seq<char>,
    stripped: Result<Seq<char>, Seq<char>>,
    home: Option<Seq<char>>,
) -> Result<Seq<char>, ErrorView> {
    match stripped {
        Err(msg) => Err(ErrorView::HomeDir { path: path_name, msg }),
        Ok(rest) => match home {
            None => Err(ErrorView::HomeDir { path: path_name, msg: no_home() }),
            Some(base) => Ok(joined_path(base, rest)),
        },
    }
}

/// The component that stands for the home directory.
pub open spec fn home_mark() -> Seq<char> {
    seq!['~']
}

/// The component that stands for the home directory is a plain one.
pub proof fn lemma_home_mark_is_plain()
    ensures
        plain_component(home_mark()),
{
    let mark = home_mark();
    assert(mark.len() == 1 && mark[0] == '~');
    assert(seq!['.'][0] == '.');
    assert(seq!['.', '.'].len() == 2);
}

/// The path that `path_name` stands for, given the home directory if there
/// is one.
///
/// A path that does not start with `~` stands for itself. One whose first
/// component is `~` stands for the home directory with the rest of the path
/// joined onto it, and for an error where there is no home directory. Any
/// other path that starts with `~` is expanded as taking the component off
/// it decides.
pub open spec fn expanded(path_name: Seq<char>, home: Option<Seq<char>>) -> Result<
    Seq<char>,
    ErrorView,
> {
    if !(path_name.len() > 0 && path_name[0] == '~') {
        Ok(path_name)
    } else if begins_with_component(path_name, home_mark()) {
        match home {
            None => Err(ErrorView::HomeDir { path: path_name, msg: no_home() }),
            Some(base) => Ok(
                joined_path(
                    base,
                    match stripped_prefix(path_name, home_mark()) {
                        Ok(rest) => rest,
                        Err(_) => Seq::empty(),
                    },
                ),
            ),
        }
    } else {
        expanded_home(path_name, stripped_prefix(path_name, home_mark()), home)
    }
}

/// The mathematical value of an optional text.
pub open spec fn text_view(text: Option<&str>) -> Option<Seq<char>> {
    match text {
        Some(t) => Some(t@),
        None => None,
    }
}

/// The mathematical value of a result that holds a path or an error.
pub open spec fn path_result_view(r: Result<String, Error>) -> Result<Seq<char>, ErrorView> {
    match r {
        Ok(path) => Ok(path@),
        Err(e) => Err(e@),
    }
}

/// Fills the home directory into a path whose leading `~` was taken off
/// with the outcome `stripped`.
///
/// Fails where the `~` could not be taken off, with the reason given, and
/// where there is no home directory.
pub fn expand_stripped(path_name: &str, stripped: Result<String, String>, home: Option<&str>) -> (r:
    Result<String, Error>)
    ensures
        path_result_view(r) == expanded_home(path_name@, read_view(stripped), text_view(home)),
{
    match stripped {
        Err(msg) => Err(Error::HomeDir { path: path_name.to_owned(), msg }),
        Ok(rest) => match home {
            None => Err(
                Error::HomeDir {
                    path: path_name.to_owned(),
                    msg: "Could not get home directory".to_owned(),
                },
            ),
            Some(base) => Ok(join_path(base, rest.as_str())),
        },
    }
}

/// Expands a leading `~` in `path_name` to the home directory `home`.
///
/// A path that does not start with `~` is handed back as it is, whether or
/// not there is a home directory.
pub fn expand_user(path_name: &str, home: Option<&str>) -> (r: Result<String, Error>)
    ensures
        path_result_view(r) == expanded(path_name@, text_view(home)),
{
    let chars = crate::text::chars_of(path_name);
    if chars.len() > 0 && chars[0] == '~' {
        proof {
            reveal_strlit("~");
            assert("~"@ =~= home_mark());
            lemma_home_mark_is_plain();
        }
        let stripped = strip_prefix(path_name, "~");
        expand_stripped(path_name, stripped, home)
    } else {
        Ok(path_name.to_owned())
    }
}

/// What was found at the place of a candidate file.
#[derive(Debug, PartialEq, Eq)]
pub enum Probe {
    /// There is no such file.
    Missing,
    /// There is a file, and reading it gave its text or failed for a reason.
    Found(Result<String, String>),
}

/// The mathematical value of a [`Probe`].
pub enum ProbeView {
    Missing,
    Found(Result<Seq<char>, Seq<char>>),
}

impl View for Probe {
    type V = ProbeView;

    open spec fn view(&self) -> ProbeView {
        match self {
            Probe::Missing => ProbeView::Missing,
            Probe::Found(read) => ProbeView::Found(read_view(*read)),
        }
    }
}

impl DeepView for Probe {
    type V = ProbeView;

    open spec fn deep_view(&self) -> ProbeView {
        self@
    }
}

/// What was found at the place of candidate `at`; nothing where `probes`
/// does not reach that far.
pub open spec fn probe_at(probes: Seq<ProbeView>, at: int) -> ProbeView {
    if 0 <= at < probes.len() {
        probes[at]
    } else {
        ProbeView::Missing
    }
}

/// The configuration in the file at `path`, given how reading it ended.
pub open spec fn config_in(path: Seq<char>, read: Result<Seq<char>, Seq<char>>) -> Result<
    AppConfigView,
    ErrorView,
> {
    parsed::<AppConfigBuilder>(path, read, AppConfigBuilderView::empty())
}

/// The configuration of the first of the candidates `paths[at..]` that is
/// there and parses.
///
/// The candidates are tried in order. One whose `~` cannot be expanded ends
/// the search with that error. One that is missing, cannot be read or does
/// not parse is passed over, whatever its error. Where none is left, all
/// candidates are reported.
pub open spec fn loaded(
    paths: Seq<Seq<char>>,
    home: Option<Seq<char>>,
    probes: Seq<ProbeView>,
    at: int,
) -> Result<AppConfigView, ErrorView>
    decreases paths.len() - at,
{
    if at < 0 || at >= paths.len() {
        Err(ErrorView::NoConfigFound(paths))
    } else {
        match expanded(paths[at], home) {
            Err(e) => Err(e),
            Ok(path) => match probe_at(probes, at) {
                ProbeView::Missing => loaded(paths, home, probes, at + 1),
                ProbeView::Found(read) => match config_in(path, read) {
                    Ok(config) => Ok(config),
                    Err(_) => loaded(paths, home, probes, at + 1),
                },
            },
        }
    }
}

impl AppConfig {
    /// Loads the configuration from the first of the candidates
    /// `config_paths` that is there and parses.
    ///
    /// `home` is the home directory, if it is known, and `probes` holds for
    /// each candidate, in order, what was found at its place. A candidate
    /// that `probes` does not reach counts as missing.
    pub fn load(config_paths: &[&str], home: Option<&str>, probes: &Vec<Probe>) -> (r: Result<
        Self,
        Error,
    >)
        ensures
            result_view(r) == loaded(
                config_paths.deep_view(),
                text_view(home),
                probes.deep_view(),
                0,
            ),
    {
        let mut i: usize = 0;
        while i < config_paths.len()
            invariant
                i <= config_paths.len(),
                loaded(config_paths.deep_view(), text_view(home), probes.deep_view(), 0) == loaded(
                    config_paths.deep_view(),
                    text_view(home),
                    probes.deep_view(),
                    i as int,
                ),
            decreases config_paths.len() - i,
        {
            let path = match expand_user(config_paths[i], home) {
                Ok(path) => path,
                Err(e) => {
                    return Err(e);
                },
            };
            if i < probes.len() {
                match &probes[i] {
                    Probe::Missing => {},
                    Probe::Found(read) => {
                        match Self::from_file(path.as_str(), read) {
                            Ok(config) => {
                                return Ok(config);
                            },
                            Err(_) => {},
                        }
                    },
                }
            }
            i += 1;
        }
        let mut all: Vec<String> = Vec::new();
        let mut j: usize = 0;
        while j < config_paths.len()
            invariant
                j <= config_paths.len(),
                all.deep_view() =~= config_paths.deep_view().take(j as int),
            decreases config_paths.len() - j,
        {
            let ghost before = all.deep_view();
            all.push(config_paths[j].to_owned());
            assert(all.deep_view() =~= before.push(config_paths@[j as int]@));
            assert(config_paths.deep_view().take(j + 1) =~= config_paths.deep_view().take(
                j as int,
            ).push(config_paths@[j as int]@));
            j += 1;
        }
        assert(config_paths.deep_view().take(config_paths.len() as int) =~= config_paths.deep_view());
        Err(Error::NoConfigFound(all))
    }

    /// Parses the configuration in the file at `path`, given how reading
    /// the file ended.
    pub fn from_file(path: &str, read: &Result<String, String>) -> (r: Result<Self, Error>)
        ensures
            result_view(r) == config_in(path@, read_view(*read)),
    {
        parse_file::<AppConfigBuilder>(path, read, AppConfigBuilder::new())
    }
}

} // verus!
