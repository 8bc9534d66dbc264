//! Schemas, the builders that declare them, and the engine that drains the
//! contents of a file into a builder.
//!
//! A builder declares which sections it takes and, for each section, which
//! keys. The engine goes through the declared sections in the order of the
//! declaration, takes each declared key out of the file's contents and hands
//! its raw value to the builder. Whatever the schema requires and the file
//! lacks, and whatever the file holds and the schema does not declare, is an
//! error.

use crate::parser::contents::{
    keys_of, lookup, without, ConfigContents, ConfigSection, ContentsView,
};
use crate::parser::errors::{Error, ErrorView};
use vstd::prelude::*;

verus! {

/// A key that a section may or must hold.
#[derive(Debug, PartialEq, Eq)]
pub struct Key {
    key: String,
    optional: bool,
}

/// A section that a file may or must hold.
#[derive(Debug, PartialEq, Eq)]
pub struct Section {
    section: String,
    optional: bool,
}

/// The mathematical value of a [`Key`].
pub struct KeyView {
    pub name: Seq<char>,
    pub optional: bool,
}

/// The mathematical value of a [`Section`].
pub struct SectionView {
    pub name: Seq<char>,
    pub optional: bool,
}

impl View for Key {
    type V = KeyView;

    closed spec fn view(&self) -> KeyView {
        KeyView { name: self.key@, optional: self.optional }
    }
}

impl DeepView for Key {
    type V = KeyView;

    open spec fn deep_view(&self) -> KeyView {
        self@
    }
}

impl View for Section {
    type V = SectionView;

    closed spec fn view(&self) -> SectionView {
        SectionView { name: self.section@, optional: self.optional }
    }
}

impl DeepView for Section {
    type V = SectionView;

    open spec fn deep_view(&self) -> SectionView {
        self@
    }
}

impl Section {
    /// The section `sec`, which a file may leave out if `optional` is set.
    pub fn new(sec: &str, optional: bool) -> (s: Self)
        ensures
            s@ == (SectionView { name: sec@, optional }),
    {
        Section { section: sec.to_owned(), optional }
    }

    /// The unnamed section, which no file may leave out.
    pub fn empty() -> (s: Self)
        ensures
            s@ == (SectionView { name: Seq::empty(), optional: false }),
    {
        Section { section: String::new(), optional: false }
    }

    /// The name of the section.
    pub fn name(&self) -> (name: &str)
        ensures
            name@ == self@.name,
    {
        self.section.as_str()
    }

    /// Whether a file may leave the section out.
    pub fn is_optional(&self) -> (optional: bool)
        ensures
            optional == self@.optional,
    {
        self.optional
    }
}

impl Key {
    /// The key `key`, which a section may leave out if `optional` is set.
    pub fn new(key: &str, optional: bool) -> (k: Self)
        ensures
            k@ == (KeyView { name: key@, optional }),
    {
        Key { key: key.to_owned(), optional }
    }

    /// The name of the key.
    pub fn name(&self) -> (name: &str)
        ensures
            name@ == self@.name,
    {
        self.key.as_str()
    }

    /// Whether a section may leave the key out.
    pub fn is_optional(&self) -> (optional: bool)
        ensures
            optional == self@.optional,
    {
        self.optional
    }
}

/// A value under construction, and the schema of the text it is built from.
///
/// The five spec functions are the mathematical account of a builder: its
/// schema, how a raw value changes its state, what it builds, and how it
/// reports the engine's own errors. Each executable method is bound to the
/// spec function it computes.
pub trait ConfigBuilder: Sized + View {
    /// What the builder builds.
    type Output: View;

    /// What the builder reports when a file does not fit.
    type Error: View;

    /// The sections that the builder takes, in the order in which they are drained.
    spec fn schema() -> Seq<SectionView>;

    /// The keys of `section`, in the order in which they are drained, or the
    /// error for a section that is not the builder's own.
    spec fn key_schema(section: Seq<char>) -> Result<Seq<KeyView>, <Self::Error as View>::V>;

    /// The state that follows `state` once `value` is taken in under `key` of
    /// `section`, or the error where the value does not parse.
    spec fn step(state: Self::V, section: Seq<char>, key: Seq<char>, value: Seq<char>) -> Result<
        Self::V,
        <Self::Error as View>::V,
    >;

    /// What is built from `state`.
    spec fn output(state: Self::V) -> <Self::Output as View>::V;

    /// An error of the engine as an error of the builder.
    spec fn lift(err: ErrorView) -> <Self::Error as View>::V;

    /// The sections that the builder takes.
    fn sections() -> (r: Vec<Section>)
        ensures
            r.deep_view() == Self::schema(),
    ;

    /// The keys that the builder takes in `section`.
    fn section_keys(section: &str) -> (r: Result<Vec<Key>, Self::Error>)
        ensures
            match r {
                Ok(keys) => Self::key_schema(section@) == Ok::<
                    Seq<KeyView>,
                    <Self::Error as View>::V,
                >(keys.deep_view()),
                Err(e) => Self::key_schema(section@) == Err::<
                    Seq<KeyView>,
                    <Self::Error as View>::V,
                >(e@),
            },
    ;

    /// Takes in the raw `value` found under `key` of `section`. A value
    /// that is refused leaves the builder as it was.
    fn parse_value(&mut self, section: &str, key: &str, value: &str) -> (r: Result<
        (),
        Self::Error,
    >)
        ensures
            r is Err ==> final(self)@ == old(self)@,
            match r {
                Ok(()) => Self::step(old(self)@, section@, key@, value@) == Ok::<
                    Self::V,
                    <Self::Error as View>::V,
                >(final(self)@),
                Err(e) => Self::step(old(self)@, section@, key@, value@) == Err::<
                    Self::V,
                    <Self::Error as View>::V,
                >(e@),
            },
    ;

    /// Builds the output from what was taken in.
    fn build(self) -> (o: Self::Output)
        ensures
            o@ == Self::output(self@),
    ;

    /// Reports an error of the engine as an error of the builder.
    fn from_parser(err: Error) -> (e: Self::Error)
        ensures
            e@ == Self::lift(err@),
    ;
}

/// The state and the left-over values after the keys `keys[at..]` of
/// `section` are drained from `values`, one after the other.
///
/// A declared key that the section holds is taken out and its value handed
/// to the builder; one that it lacks is passed over if optional and is an
/// error if not. The first error ends the draining.
pub open spec fn drain_keys<B: ConfigBuilder>(
    path: Seq<char>,
    section: Seq<char>,
    keys: Seq<KeyView>,
    at: int,
    values: Seq<(Seq<char>, Seq<char>)>,
    state: B::V,
) -> Result<(B::V, Seq<(Seq<char>, Seq<char>)>), <B::Error as View>::V>
    decreases keys.len() - at,
{
    if at < 0 || at >= keys.len() {
        Ok((state, values))
    } else {
        let key = keys[at];
        match lookup(values, key.name) {
            None => if key.optional {
                drain_keys::<B>(path, section, keys, at + 1, values, state)
            } else {
                Err(B::lift(ErrorView::MissingKey { path, section, key: key.name }))
            },
            Some(raw) => match B::step(state, section, key.name, raw) {
                Ok(next) => drain_keys::<B>(
                    path,
                    section,
                    keys,
                    at + 1,
                    without(values, key.name),
                    next,
                ),
                Err(e) => Err(e),
            },
        }
    }
}

/// The state after `section`, which holds `values`, is drained: all its
/// declared keys are taken in, and nothing may be left over.
pub open spec fn drain_section<B: ConfigBuilder>(
    path: Seq<char>,
    section: Seq<char>,
    values: Seq<(Seq<char>, Seq<char>)>,
    state: B::V,
) -> Result<B::V, <B::Error as View>::V> {
    match B::key_schema(section) {
        Err(e) => Err(e),
        Ok(keys) => match drain_keys::<B>(path, section, keys, 0, values, state) {
            Err(e) => Err(e),
            Ok((next, rest)) => if rest.len() == 0 {
                Ok(next)
            } else {
                Err(B::lift(ErrorView::UnexpectedKeys { path, section, keys: keys_of(rest) }))
            },
        },
    }
}

/// The state and the left-over sections after the declared sections
/// `schema[at..]` are drained from `sections`, one after the other.
///
/// A declared section that the file holds is taken out and drained; one that
/// it lacks is passed over if optional and is an error if not.
pub open spec fn drain_sections<B: ConfigBuilder>(
    path: Seq<char>,
    schema: Seq<SectionView>,
    at: int,
    sections: Seq<(Seq<char>, Seq<(Seq<char>, Seq<char>)>)>,
    state: B::V,
) -> Result<(B::V, Seq<(Seq<char>, Seq<(Seq<char>, Seq<char>)>)>), <B::Error as View>::V>
    decreases schema.len() - at,
{
    if at < 0 || at >= schema.len() {
        Ok((state, sections))
    } else {
        let section = schema[at];
        match lookup(sections, section.name) {
            None => if section.optional {
                drain_sections::<B>(path, schema, at + 1, sections, state)
            } else {
                Err(B::lift(ErrorView::MissingSection { path, section: section.name }))
            },
            Some(values) => match drain_section::<B>(path, section.name, values, state) {
                Ok(next) => drain_sections::<B>(
                    path,
                    schema,
                    at + 1,
                    without(sections, section.name),
                    next,
                ),
                Err(e) => Err(e),
            },
        }
    }
}

/// What a builder that starts in `state` builds from `contents`, or the
/// first error that draining them runs into.
pub open spec fn built<B: ConfigBuilder>(contents: ContentsView, state: B::V) -> Result<
    <B::Output as View>::V,
    <B::Error as View>::V,
> {
    match drain_sections::<B>(contents.path, B::schema(), 0, contents.sections, state) {
        Err(e) => Err(e),
        Ok((last, rest)) => if rest.len() == 0 {
            Ok(B::output(last))
        } else {
            Err(
                B::lift(
                    ErrorView::UnexpectedSections { path: contents.path, sections: keys_of(rest) },
                ),
            )
        },
    }
}

/// The mathematical value of a result that holds an output or an error.
pub open spec fn result_view<T: View, E: View>(r: Result<T, E>) -> Result<T::V, E::V> {
    match r {
        Ok(t) => Ok(t@),
        Err(e) => Err(e@),
    }
}

/// Drains one section into `builder`.
fn drain<B: ConfigBuilder>(path: &str, section: &str, held: ConfigSection, builder: &mut B) -> (r:
    Result<(), B::Error>)
    ensures
        match r {
            Ok(()) => drain_section::<B>(path@, section@, held@, old(builder)@) == Ok::<
                B::V,
                <B::Error as View>::V,
            >(final(builder)@),
            Err(e) => drain_section::<B>(path@, section@, held@, old(builder)@) == Err::<
                B::V,
                <B::Error as View>::V,
            >(e@),
        },
{
    let ghost all = held@;
    let keys = match B::section_keys(section) {
        Ok(keys) => keys,
        Err(e) => {
            return Err(e);
        },
    };
    let ghost start = builder@;
    let mut values = held.into_values();
    let mut i: usize = 0;
    while i < keys.len()
        invariant
            i <= keys.len(),
            start == old(builder)@,
            all == held@,
            B::key_schema(section@) == Ok::<Seq<KeyView>, <B::Error as View>::V>(keys.deep_view()),
            drain_section::<B>(path@, section@, all, start) == match drain_keys::<B>(
                path@,
                section@,
                keys.deep_view(),
                0,
                all,
                start,
            ) {
                Err(e) => Err(e),
                Ok((next, rest)) => if rest.len() == 0 {
                    Ok(next)
                } else {
                    Err(
                        B::lift(
                            ErrorView::UnexpectedKeys {
                                path: path@,
                                section: section@,
                                keys: keys_of(rest),
                            },
                        ),
                    )
                },
            },
            drain_keys::<B>(path@, section@, keys.deep_view(), 0, all, start) == drain_keys::<B>(
                path@,
                section@,
                keys.deep_view(),
                i as int,
                values.deep_view(),
                builder@,
            ),
        decreases keys.len() - i,
    {
        let key = &keys[i];
        assert(keys.deep_view()[i as int] == key@);
        match values.remove(key.name()) {
            None => {
                if !key.is_optional() {
                    return Err(B::from_parser(Error::missing_key(path, section, key.name())));
                }
            },
            Some(raw) => {
                match builder.parse_value(section, key.name(), raw.as_str()) {
                    Ok(()) => {},
                    Err(e) => {
                        return Err(e);
                    },
                }
            },
        }
        i += 1;
    }
    if !values.is_empty() {
        return Err(B::from_parser(Error::unexpected_keys(path, section, values.keys())));
    }
    Ok(())
}

/// Builds an output from `contents` with a builder that starts as `builder`.
///
/// The result is `built(contents, builder)`: the output if every required
/// section and key is there, every value parses and nothing is left over,
/// else the first error in the order of the schema.
pub fn from_contents<B: ConfigBuilder>(contents: ConfigContents, builder: B) -> (r: Result<
    B::Output,
    B::Error,
>)
    ensures
        result_view(r) == built::<B>(contents@, builder@),
{
    let schema = B::sections();
    let ghost start = builder@;
    let ghost all = contents@;
    let parts = contents.into_parts();
    let mut sections = parts.0;
    let path = parts.1;
    let mut state = builder;
    let mut i: usize = 0;
    while i < schema.len()
        invariant
            i <= schema.len(),
            schema.deep_view() == B::schema(),
            path@ == all.path,
            all == contents@,
            start == builder@,
            drain_sections::<B>(all.path, B::schema(), 0, all.sections, start) == drain_sections::<
                B,
            >(all.path, B::schema(), i as int, sections.deep_view(), state@),
        decreases schema.len() - i,
    {
        let section = &schema[i];
        assert(schema.deep_view()[i as int] == section@);
        match sections.remove(section.name()) {
            None => {
                if !section.is_optional() {
                    return Err(
                        B::from_parser(Error::missing_section(path.as_str(), section.name())),
                    );
                }
            },
            Some(values) => {
                match drain::<B>(path.as_str(), section.name(), values, &mut state) {
                    Ok(()) => {},
                    Err(e) => {
                        return Err(e);
                    },
                }
            },
        }
        i += 1;
    }
    if !sections.is_empty() {
        return Err(B::from_parser(Error::unexpected_sections(path.as_str(), sections.keys())));
    }
    Ok(state.build())
}

} // verus!
