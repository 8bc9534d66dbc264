//! The schema of a menu entry, the builder that takes its values in, and
//! the choice of an icon among the files that were found.
//!
//! An entry has the unnamed section only. It must hold a `title` and a
//! `launch` command and may hold the name of an `icon`.

use crate::entries::errors::{Error, ErrorView};
use crate::entries::{MenuEntry, MenuEntryView};
use crate::parser;
use crate::parser::config_builder::{ConfigBuilder, Key, KeyView, Section, SectionView};
use crate::text::{chars_of, same_chars, same_text, split_words, string_of, trim, trimmed, words};
use vstd::prelude::*;

verus! {

/// A file that the search for icons came by, as far as the choice of an
/// icon looks at it.
#[derive(Debug, PartialEq, Eq)]
pub struct IconFile {
    /// Where the file is.
    pub path: String,
    /// The file's name without its extension, if it has a name.
    pub stem: Option<String>,
    /// The file's extension, if it has one.
    pub extension: Option<String>,
    /// The file's size in bytes, if it could be had.
    pub size: Option<u64>,
}

/// How the search for icons ended.
#[derive(Debug, PartialEq, Eq)]
pub enum IconWalk {
    /// With the files that are no directories, in the order in which the
    /// search came by them.
    Listed(Vec<IconFile>),
    /// At a directory or an item that could not be read.
    Failed { path: String, reason: String },
}

/// The mathematical value of an [`IconFile`].
pub struct IconFileView {
    pub path: Seq<char>,
    pub stem: Option<Seq<char>>,
    pub extension: Option<Seq<char>>,
    pub size: Option<u64>,
}

/// The mathematical value of an [`IconWalk`].
pub enum IconWalkView {
    Listed(Seq<IconFileView>),
    Failed { path: Seq<char>, reason: Seq<char> },
}

impl View for IconFile {
    type V = IconFileView;

    open spec fn view(&self) -> IconFileView {
        IconFileView {
            path: self.path@,
            stem: self.stem.deep_view(),
            extension: self.extension.deep_view(),
            size: self.size,
        }
    }
}

impl DeepView for IconFile {
    type V = IconFileView;

    open spec fn deep_view(&self) -> IconFileView {
        self@
    }
}

impl View for IconWalk {
    type V = IconWalkView;

    open spec fn view(&self) -> IconWalkView {
        match self {
            IconWalk::Listed(files) => IconWalkView::Listed(files.deep_view()),
            IconWalk::Failed { path, reason } => IconWalkView::Failed {
                path: path@,
                reason: reason@,
            },
        }
    }
}

impl IconFileView {
    /// Whether the file can be the icon `name`: it is no SVG file, its stem
    /// is exactly `name`, and its size is known.
    pub open spec fn fits(self, name: Seq<char>) -> bool {
        &&& self.extension != Some("svg"@)
        &&& self.stem == Some(name)
        &&& self.size is Some
    }
}

/// The index of the icon chosen for `name` among `files[..upto]`: of the
/// files that fit, the largest, and of several largest the last.
pub open spec fn chosen_upto(files: Seq<IconFileView>, name: Seq<char>, upto: int) -> Option<int>
    decreases upto,
{
    if upto <= 0 {
        None
    } else {
        let before = chosen_upto(files, name, upto - 1);
        let file = files[upto - 1];
        if file.fits(name) && (before is None || files[before->0].size->0 <= file.size->0) {
            Some(upto - 1)
        } else {
            before
        }
    }
}

/// The index of the icon chosen for `name` among `files`.
pub open spec fn chosen(files: Seq<IconFileView>, name: Seq<char>) -> Option<int> {
    chosen_upto(files, name, files.len() as int)
}

/// The chosen file fits, no file that fits is larger, and none behind it is
/// as large. Nothing is chosen only where nothing fits.
pub proof fn lemma_chosen_upto(files: Seq<IconFileView>, name: Seq<char>, upto: int)
    requires
        0 <= upto <= files.len(),
    ensures
        match chosen_upto(files, name, upto) {
            Some(i) => {
                &&& 0 <= i < upto
                &&& files[i].fits(name)
                &&& forall|j: int|
                    0 <= j < upto && (#[trigger] files[j]).fits(name) ==> files[j].size->0
                        <= files[i].size->0
                &&& forall|j: int|
                    i < j < upto && (#[trigger] files[j]).fits(name) ==> files[j].size->0
                        < files[i].size->0
            },
            None => forall|j: int| 0 <= j < upto ==> !(#[trigger] files[j]).fits(name),
        },
    decreases upto,
{
    if upto > 0 {
        lemma_chosen_upto(files, name, upto - 1);
    }
}

/// The path of the icon `name`, given how the search for icons ended.
///
/// A search that failed is reported as it failed. Else the icon is the
/// chosen file, and a name that no file fits is reported.
pub open spec fn icon_for(name: Seq<char>, walk: IconWalkView) -> Result<Seq<char>, ErrorView> {
    match walk {
        IconWalkView::Failed { path, reason } => Err(ErrorView::ReadDir { path, reason }),
        IconWalkView::Listed(files) => match chosen(files, name) {
            Some(i) => Ok(files[i].path),
            None => Err(ErrorView::IconNotFound(name)),
        },
    }
}

/// Whether `text` is there and equal to `wanted`.
fn is_text(text: &Option<String>, wanted: &str) -> (r: bool)
    ensures
        r == (text.deep_view() == Some(wanted@)),
{
    match text {
        Some(t) => same_text(t.as_str(), wanted),
        None => false,
    }
}

/// The path of the icon `name`, given how the search for icons ended.
pub fn find_icon(name: &str, walk: &IconWalk) -> (r: Result<String, Error>)
    ensures
        match r {
            Ok(path) => icon_for(name@, walk@) == Ok::<Seq<char>, ErrorView>(path@),
            Err(e) => icon_for(name@, walk@) == Err::<Seq<char>, ErrorView>(e@),
        },
{
    match walk {
        IconWalk::Failed { path, reason } => Err(Error::read_dir(reason.as_str(), path.as_str())),
        IconWalk::Listed(files) => {
            let mut best: Option<usize> = None;
            let mut i: usize = 0;
            while i < files.len()
                invariant
                    i <= files.len(),
                    match best {
                        Some(b) => chosen_upto(files.deep_view(), name@, i as int) == Some(
                            b as int,
                        ) && b < i && files@[b as int].size is Some,
                        None => chosen_upto(files.deep_view(), name@, i as int) is None,
                    },
                decreases files.len() - i,
            {
                let file = &files[i];
                assert(files.deep_view()[i as int] == file@);
                if !is_text(&file.extension, "svg") && is_text(&file.stem, name) {
                    match file.size {
                        Some(size) => {
                            let larger = match best {
                                Some(b) => {
                                    assert(files.deep_view()[b as int] == files@[b as int]@);
                                    match files[b].size {
                                        Some(best_size) => best_size <= size,
                                        None => true,
                                    }
                                },
                                None => true,
                            };
                            if larger {
                                best = Some(i);
                            }
                        },
                        None => {},
                    }
                }
                i += 1;
            }
            match best {
                Some(b) => {
                    assert(files.deep_view()[b as int] == files@[b as int]@);
                    Ok(files[b].path.clone())
                },
                None => Err(Error::IconNotFound(name.to_owned())),
            }
        },
    }
}

/// What was read of an entry so far, and the icons to choose from.
pub struct EntryBuilder<'a> {
    title: Option<String>,
    launch: Option<String>,
    args: Vec<String>,
    icon: Option<String>,
    icons: &'a IconWalk,
}

/// The mathematical value of an [`EntryBuilder`].
pub struct EntryBuilderView {
    pub title: Option<Seq<char>>,
    pub launch: Option<Seq<char>>,
    pub args: Seq<Seq<char>>,
    pub icon: Option<Seq<char>>,
    pub icons: IconWalkView,
}

impl<'a> View for EntryBuilder<'a> {
    type V = EntryBuilderView;

    closed spec fn view(&self) -> EntryBuilderView {
        EntryBuilderView {
            title: self.title.deep_view(),
            launch: self.launch.deep_view(),
            args: self.args.deep_view(),
            icon: self.icon.deep_view(),
            icons: self.icons@,
        }
    }
}

/// A text that was read, or the empty text.
pub open spec fn or_empty(read: Option<Seq<char>>) -> Seq<char> {
    match read {
        Some(text) => text,
        None => Seq::empty(),
    }
}

impl EntryBuilderView {
    /// Nothing read, and `icons` to choose from.
    pub open spec fn empty(icons: IconWalkView) -> EntryBuilderView {
        EntryBuilderView { title: None, launch: None, args: Seq::empty(), icon: None, icons }
    }

    /// The entry after the launch line `value` is read. The line is cut
    /// into its words, the pieces between runs of white space. Where no
    /// command was read before, the first word is the command and the
    /// others are arguments; else all are arguments. A line without words
    /// changes nothing.
    pub open spec fn with_launch(self, value: Seq<char>) -> EntryBuilderView {
        let pieces = words(value);
        if self.launch is None && pieces.len() > 0 {
            EntryBuilderView { launch: Some(pieces[0]), args: self.args + pieces.skip(1), ..self }
        } else {
            EntryBuilderView { args: self.args + pieces, ..self }
        }
    }

    /// The entry that was read. A title or a command that was never read is
    /// empty; the schema requires both, so nothing is built without them.
    pub open spec fn built(self) -> MenuEntryView {
        MenuEntryView {
            title: or_empty(self.title),
            launch: or_empty(self.launch),
            args: self.args,
            icon: self.icon,
        }
    }
}

/// The declared sections: the unnamed one, required.
pub open spec fn entry_sections() -> Seq<SectionView> {
    seq![SectionView { name: Seq::empty(), optional: false }]
}

/// The keys of an entry: `title` and `launch`, required, and `icon`.
pub open spec fn entry_keys() -> Seq<KeyView> {
    seq![
        KeyView { name: "title"@, optional: false },
        KeyView { name: "launch"@, optional: false },
        KeyView { name: "icon"@, optional: true },
    ]
}

/// A text that was read, or the empty text.
fn text_or_empty(read: Option<String>) -> (r: String)
    ensures
        r@ == or_empty(read.deep_view()),
{
    match read {
        Some(text) => text,
        None => String::new(),
    }
}

impl<'a> EntryBuilder<'a> {
    /// A builder that has read nothing and chooses icons from `icons`.
    pub fn new(icons: &'a IconWalk) -> (b: Self)
        ensures
            b@ == EntryBuilderView::empty(icons@),
    {
        let b = EntryBuilder { title: None, launch: None, args: Vec::new(), icon: None, icons };
        assert(b.args.deep_view() =~= Seq::<Seq<char>>::empty());
        b
    }

    /// Reads the launch line `value`.
    fn take_launch(&mut self, value: &str)
        ensures
            final(self)@ == old(self)@.with_launch(value@),
    {
        let chars = chars_of(value);
        let pieces = split_words(chars.as_slice());
        let ghost texts = words(value@);
        let ghost before = self.args.deep_view();
        let mut i: usize = 0;
        if self.launch.is_none() && pieces.len() > 0 {
            assert(pieces.deep_view()[0] =~= pieces@[0]@);
            self.launch = Some(string_of(pieces[0].as_slice()));
            i = 1;
        }
        let ghost first = i;
        assert(texts.subrange(first as int, first as int) == Seq::<Seq<char>>::empty());
        assert(before + Seq::<Seq<char>>::empty() == before);
        while i < pieces.len()
            invariant
                first <= i <= pieces.len(),
                pieces.deep_view() == texts,
                self.args.deep_view() == before + texts.subrange(first as int, i as int),
                self.title == old(self).title,
                self.icon == old(self).icon,
                self.icons == old(self).icons,
                self.launch.deep_view() == if first == 1 {
                    Some(texts[0])
                } else {
                    old(self).launch.deep_view()
                },
            decreases pieces.len() - i,
        {
            assert(pieces.deep_view()[i as int] =~= pieces@[i as int]@);
            let ghost had = self.args.deep_view();
            self.args.push(string_of(pieces[i].as_slice()));
            assert(self.args.deep_view() =~= had.push(texts[i as int]));
            assert(texts.subrange(first as int, i + 1) == texts.subrange(
                first as int,
                i as int,
            ).push(texts[i as int]));
            assert(before + texts.subrange(first as int, i as int).push(texts[i as int]) == (before
                + texts.subrange(first as int, i as int)).push(texts[i as int]));
            i += 1;
        }
        assert(texts.subrange(0, texts.len() as int) == texts);
        proof {
            if first == 1 {
                assert(texts.subrange(1, texts.len() as int) == texts.skip(1));
            }
        }
    }
}

impl<'a> ConfigBuilder for EntryBuilder<'a> {
    type Output = MenuEntry;

    type Error = Error;

    open spec fn schema() -> Seq<SectionView> {
        entry_sections()
    }

    open spec fn key_schema(section: Seq<char>) -> Result<Seq<KeyView>, ErrorView> {
        if section.len() == 0 {
            Ok(entry_keys())
        } else {
            Err(ErrorView::UnknownSection(section))
        }
    }

    /// The key is trimmed before it is looked at; an unknown key is
    /// reported as it was handed in.
    open spec fn step(
        state: EntryBuilderView,
        section: Seq<char>,
        key: Seq<char>,
        value: Seq<char>,
    ) -> Result<EntryBuilderView, ErrorView> {
        if section.len() != 0 {
            Err(ErrorView::UnknownSection(section))
        } else if trim(key) == "title"@ {
            Ok(EntryBuilderView { title: Some(value), ..state })
        } else if trim(key) == "launch"@ {
            Ok(state.with_launch(value))
        } else if trim(key) == "icon"@ {
            match icon_for(value, state.icons) {
                Ok(path) => Ok(EntryBuilderView { icon: Some(path), ..state }),
                Err(e) => Err(e),
            }
        } else {
            Err(ErrorView::UnknownKey(key))
        }
    }

    open spec fn output(state: EntryBuilderView) -> MenuEntryView {
        state.built()
    }

    open spec fn lift(err: parser::errors::ErrorView) -> ErrorView {
        ErrorView::Parser(err)
    }

    fn sections() -> (r: Vec<Section>) {
        let mut r: Vec<Section> = Vec::new();
        r.push(Section::empty());
        assert(r.deep_view() =~= entry_sections());
        r
    }

    fn section_keys(section: &str) -> (r: Result<Vec<Key>, Error>) {
        if section.is_empty() {
            let mut keys: Vec<Key> = Vec::new();
            keys.push(Key::new("title", false));
            keys.push(Key::new("launch", false));
            keys.push(Key::new("icon", true));
            assert(keys.deep_view() =~= entry_keys());
            Ok(keys)
        } else {
            Err(Error::UnknownSection(section.to_owned()))
        }
    }

    fn parse_value(&mut self, section: &str, key: &str, value: &str) -> (r: Result<(), Error>) {
        if !section.is_empty() {
            return Err(Error::UnknownSection(section.to_owned()));
        }
        let chars = chars_of(key);
        let name = trimmed(chars.as_slice());
        let title = chars_of("title");
        let launch = chars_of("launch");
        let icon = chars_of("icon");
        if same_chars(name, title.as_slice()) {
            self.title = Some(value.to_owned());
            Ok(())
        } else if same_chars(name, launch.as_slice()) {
            self.take_launch(value);
            Ok(())
        } else if same_chars(name, icon.as_slice()) {
            match find_icon(value, self.icons) {
                Ok(path) => {
                    self.icon = Some(path);
                    Ok(())
                },
                Err(e) => Err(e),
            }
        } else {
            Err(Error::UnknownKey(key.to_owned()))
        }
    }

    fn build(self) -> (o: MenuEntry) {
        MenuEntry {
            title: text_or_empty(self.title),
            launch: text_or_empty(self.launch),
            args: self.args,
            icon: self.icon,
        }
    }

    fn from_parser(err: parser::Error) -> (e: Error) {
        Error::Parser(err)
    }
}

} // verus!
