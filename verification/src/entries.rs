//! Menu entries: what the launcher shows and starts, one file per entry.

pub mod errors;
pub mod parse;

pub use errors::Error;
pub use parse::{EntryBuilder, IconFile, IconWalk};

use crate::config::{expand_user, expanded, text_view};
use crate::parser::config_builder::result_view;
use crate::parser::{parse_file, parsed, read_view};
use errors::ErrorView;
use parse::{EntryBuilderView, IconWalkView};
use vstd::prelude::*;

verus! {

/// An entry of the menu.
#[derive(Debug, PartialEq, Eq)]
pub struct MenuEntry {
    /// The title shown in the menu.
    pub title: String,
    /// The command that is started when the entry is picked.
    pub launch: String,
    /// The arguments handed to the command.
    pub args: Vec<String>,
    /// The path of the icon shown in the menu.
    pub icon: Option<String>,
}

/// The mathematical value of a [`MenuEntry`].
pub struct MenuEntryView {
    pub title: Seq<char>,
    pub launch: Seq<char>,
    pub args: Seq<Seq<char>>,
    pub icon: Option<Seq<char>>,
}

impl View for MenuEntry {
    type V = MenuEntryView;

    open spec fn view(&self) -> MenuEntryView {
        MenuEntryView {
            title: self.title@,
            launch: self.launch@,
            args: self.args.deep_view(),
            icon: self.icon.deep_view(),
        }
    }
}

impl DeepView for MenuEntry {
    type V = MenuEntryView;

    open spec fn deep_view(&self) -> MenuEntryView {
        self@
    }
}

/// One item of a directory of entries.
#[derive(Debug, PartialEq, Eq)]
pub enum Listed {
    /// A file, and how reading it ended: with its text, or with the reason
    /// why it could not be read.
    File { path: String, read: Result<String, String> },
    /// An item that could not be listed, and why.
    Unreadable { reason: String },
}

/// How listing a directory of entries ended.
#[derive(Debug, PartialEq, Eq)]
pub enum Listing {
    /// With the items of the directory, in the order of the listing.
    Items(Vec<Listed>),
    /// With the reason why the directory could not be read.
    Failed { reason: String },
}

/// The mathematical value of a [`Listed`].
pub enum ListedView {
    File { path: Seq<char>, read: Result<Seq<char>, Seq<char>> },
    Unreadable { reason: Seq<char> },
}

/// The mathematical value of a [`Listing`].
pub enum ListingView {
    Items(Seq<ListedView>),
    Failed { reason: Seq<char> },
}

impl View for Listed {
    type V = ListedView;

    open spec fn view(&self) -> ListedView {
        match self {
            Listed::File { path, read } => ListedView::File { path: path@, read: read_view(*read) },
            Listed::Unreadable { reason } => ListedView::Unreadable { reason: reason@ },
        }
    }
}

impl DeepView for Listed {
    type V = ListedView;

    open spec fn deep_view(&self) -> ListedView {
        self@
    }
}

impl View for Listing {
    type V = ListingView;

    open spec fn view(&self) -> ListingView {
        match self {
            Listing::Items(items) => ListingView::Items(items.deep_view()),
            Listing::Failed { reason } => ListingView::Failed { reason: reason@ },
        }
    }
}

impl DeepView for Listing {
    type V = ListingView;

    open spec fn deep_view(&self) -> ListingView {
        self@
    }
}

/// The entry in the file at `path`, given how reading it ended and how the
/// search for icons ended.
pub open spec fn entry_in(
    path: Seq<char>,
    read: Result<Seq<char>, Seq<char>>,
    icons: IconWalkView,
) -> Result<MenuEntryView, ErrorView> {
    parsed::<EntryBuilder>(path, read, EntryBuilderView::empty(icons))
}

/// The entries in `items[..upto]`, in order, or the first error: an item
/// that could not be listed, or a file that holds no entry.
pub open spec fn entries_upto(
    dir: Seq<char>,
    items: Seq<ListedView>,
    icons: IconWalkView,
    upto: int,
) -> Result<Seq<MenuEntryView>, ErrorView>
    decreases upto,
{
    if upto <= 0 {
        Ok(Seq::empty())
    } else {
        match entries_upto(dir, items, icons, upto - 1) {
            Err(e) => Err(e),
            Ok(before) => match items[upto - 1] {
                ListedView::Unreadable { reason } => Err(ErrorView::ReadDir { path: dir, reason }),
                ListedView::File { path, read } => match entry_in(path, read, icons) {
                    Ok(entry) => Ok(before.push(entry)),
                    Err(e) => Err(e),
                },
            },
        }
    }
}

/// The entries of the directory `dir`, given how listing it ended.
pub open spec fn dir_entries(dir: Seq<char>, listing: ListingView, icons: IconWalkView) -> Result<
    Seq<MenuEntryView>,
    ErrorView,
> {
    match listing {
        ListingView::Failed { reason } => Err(ErrorView::ReadDir { path: dir, reason }),
        ListingView::Items(items) => entries_upto(dir, items, icons, items.len() as int),
    }
}

/// How listing directory `at` ended; a directory that `listings` does not
/// reach counts as one that could not be read.
pub open spec fn listing_at(listings: Seq<ListingView>, at: int) -> ListingView {
    if 0 <= at < listings.len() {
        listings[at]
    } else {
        ListingView::Failed { reason: Seq::empty() }
    }
}

/// The entries of the first of the directories `dirs[at..]` that can be
/// read, holds entries only, and holds at least one.
///
/// The directories are tried in order. One whose `~` cannot be expanded
/// ends the search with that error. Any other failure passes the directory
/// over. Where none is left, that is reported.
pub open spec fn found_entries(
    dirs: Seq<Seq<char>>,
    home: Option<Seq<char>>,
    listings: Seq<ListingView>,
    icons: IconWalkView,
    at: int,
) -> Result<Seq<MenuEntryView>, ErrorView>
    decreases dirs.len() - at,
{
    if at < 0 || at >= dirs.len() {
        Err(ErrorView::NoEntriesFound)
    } else {
        match expanded(dirs[at], home) {
            Err(e) => Err(ErrorView::Config(e)),
            Ok(path) => match dir_entries(path, listing_at(listings, at), icons) {
                Ok(entries) => if entries.len() > 0 {
                    Ok(entries)
                } else {
                    found_entries(dirs, home, listings, icons, at + 1)
                },
                Err(_) => found_entries(dirs, home, listings, icons, at + 1),
            },
        }
    }
}

/// The mathematical value of a result that holds entries or an error.
pub open spec fn entries_view(r: Result<Vec<MenuEntry>, Error>) -> Result<
    Seq<MenuEntryView>,
    ErrorView,
> {
    match r {
        Ok(entries) => Ok(entries.deep_view()),
        Err(e) => Err(e@),
    }
}

impl MenuEntry {
    /// Parses the entry in the file at `path`, given how reading the file
    /// ended and how the search for icons ended.
    pub fn from_file(path: &str, read: &Result<String, String>, icons: &IconWalk) -> (r: Result<
        Self,
        Error,
    >)
        ensures
            result_view(r) == entry_in(path@, read_view(*read), icons@),
    {
        parse_file::<EntryBuilder>(path, read, EntryBuilder::new(icons))
    }

    /// Loads the entries of the first of the directories `dirs` that can be
    /// read, holds entries only, and holds at least one.
    ///
    /// `home` is the home directory, if it is known, and `listings` holds
    /// for each directory, in order, how listing it ended.
    pub fn load_dirs(
        dirs: &[&str],
        home: Option<&str>,
        listings: &Vec<Listing>,
        icons: &IconWalk,
    ) -> (r: Result<Vec<Self>, Error>)
        ensures
            entries_view(r) == found_entries(
                dirs.deep_view(),
                text_view(home),
                listings.deep_view(),
                icons@,
                0,
            ),
    {
        let mut i: usize = 0;
        while i < dirs.len()
            invariant
                i <= dirs.len(),
                found_entries(dirs.deep_view(), text_view(home), listings.deep_view(), icons@, 0)
                    == found_entries(
                    dirs.deep_view(),
                    text_view(home),
                    listings.deep_view(),
                    icons@,
                    i as int,
                ),
            decreases dirs.len() - i,
        {
            let path = match expand_user(dirs[i], home) {
                Ok(path) => path,
                Err(e) => {
                    return Err(Error::Config(e));
                },
            };
            if i < listings.len() {
                match Self::load_dir(path.as_str(), &listings[i], icons) {
                    Ok(entries) => {
                        if entries.len() > 0 {
                            return Ok(entries);
                        }
                    },
                    Err(_) => {},
                }
            }
            i += 1;
        }
        Err(Error::NoEntriesFound)
    }

    /// Loads the entries of the directory at `path`, given how listing it
    /// ended. The first item that could not be listed, and the first file
    /// that holds no entry, ends the loading with its error.
    pub fn load_dir(path: &str, listing: &Listing, icons: &IconWalk) -> (r: Result<
        Vec<Self>,
        Error,
    >)
        ensures
            entries_view(r) == dir_entries(path@, listing@, icons@),
    {
        let items = match listing {
            Listing::Failed { reason } => {
                return Err(Error::read_dir(reason.as_str(), path));
            },
            Listing::Items(items) => items,
        };
        let mut entries: Vec<MenuEntry> = Vec::new();
        let mut i: usize = 0;
        assert(entries.deep_view() =~= Seq::<MenuEntryView>::empty());
        while i < items.len()
            invariant
                i <= items.len(),
                entries.len() == i,
                listing@ == ListingView::Items(items.deep_view()),
                entries_upto(path@, items.deep_view(), icons@, i as int) == Ok::<
                    Seq<MenuEntryView>,
                    ErrorView,
                >(entries.deep_view()),
            decreases items.len() - i,
        {
            assert(items.deep_view()[i as int] == items@[i as int]@);
            let ghost before = entries.deep_view();
            match &items[i] {
                Listed::Unreadable { reason } => {
                    proof {
                        lemma_entries_upto_error(
                            path@,
                            items.deep_view(),
                            icons@,
                            i + 1,
                            items.len() as int,
                        );
                    }
                    return Err(Error::read_dir(reason.as_str(), path));
                },
                Listed::File { path: file, read } => {
                    match Self::from_file(file.as_str(), read, icons) {
                        Ok(entry) => {
                            let ghost added = entry@;
                            entries.push(entry);
                            assert(entries.deep_view() =~= before.push(added));
                        },
                        Err(e) => {
                            proof {
                                lemma_entries_upto_error(
                                    path@,
                                    items.deep_view(),
                                    icons@,
                                    i + 1,
                                    items.len() as int,
                                );
                            }
                            return Err(e);
                        },
                    }
                },
            }
            i += 1;
        }
        Ok(entries)
    }
}

/// An error among the first items is the error of all of them.
pub proof fn lemma_entries_upto_error(
    dir: Seq<char>,
    items: Seq<ListedView>,
    icons: IconWalkView,
    at: int,
    upto: int,
)
    requires
        0 <= at <= upto,
        entries_upto(dir, items, icons, at) is Err,
    ensures
        entries_upto(dir, items, icons, upto) == entries_upto(dir, items, icons, at),
    decreases upto - at,
{
    if at < upto {
        lemma_entries_upto_error(dir, items, icons, at, upto - 1);
    }
}

/// Parsing is a function of what is parsed: two runs over the same file,
/// with the same icons to choose from, end with the same entry or with the
/// same error.
pub proof fn lemma_parsing_is_deterministic(
    path: Seq<char>,
    read: Result<Seq<char>, Seq<char>>,
    icons: IconWalkView,
    first: Result<MenuEntry, Error>,
    second: Result<MenuEntry, Error>,
)
    requires
        result_view(first) == entry_in(path, read, icons),
        result_view(second) == entry_in(path, read, icons),
    ensures
        result_view(first) == result_view(second),
        first is Ok <==> second is Ok,
        first matches Ok(a) ==> second matches Ok(b) && a@ == b@,
{
}

} // verus!
