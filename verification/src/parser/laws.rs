//! What holds of the tokenizer and of the engine, whatever the builder.

use crate::parser::config_builder::{
    built, drain_keys, drain_section, drain_sections, ConfigBuilder, KeyView, SectionView,
};
use crate::parser::contents::{
    distinct_keys, has_key, in_section, keys_of, lemma_in_section_position, lemma_position_from,
    lemma_position_push, lemma_position_without, lemma_with_distinct, lemma_without_commutes,
    lemma_without_distinct, lookup, position, with, without, ContentsView,
};
use crate::parser::errors::ErrorView;
use crate::parser::{
    format_reason, is_header, take_lines, tokenized, without_comment, Progress,
};
use crate::text::{index_of, lemma_index_of_from, lines};
use vstd::prelude::*;

verus! {

/// Whether the line `raw` is malformed: once its comment is cut off it is
/// not empty, opens no section, and holds no equals sign.
pub open spec fn malformed(raw: Seq<char>) -> bool {
    let line = without_comment(raw);
    &&& line.len() > 0
    &&& !is_header(line)
    &&& forall|i: int| 0 <= i < line.len() ==> line[i] != '='
}

/// A line is refused exactly if it is malformed, whatever was read before it.
pub proof fn lemma_take_line(progress: Progress, raw: Seq<char>)
    ensures
        progress.take_line(raw) is None <==> malformed(raw),
{
    let line = without_comment(raw);
    lemma_index_of_from(line, '=', 0);
    if index_of(line, '=') < line.len() {
        assert(line[index_of(line, '=')] == '=');
    }
}

/// Reading that comes to a malformed line without one before it ends there.
proof fn lemma_take_lines_malformed(all: Seq<Seq<char>>, at: int, n: int, progress: Progress)
    requires
        0 <= at <= n < all.len(),
        malformed(all[n]),
        forall|j: int| at <= j < n ==> !malformed(#[trigger] all[j]),
    ensures
        take_lines(all, at, progress) == Err::<
            Seq<(Seq<char>, Seq<(Seq<char>, Seq<char>)>)>,
            nat,
        >(n as nat),
    decreases n - at,
{
    lemma_take_line(progress, all[at]);
    if at < n {
        assert(!malformed(all[at]));
        lemma_take_lines_malformed(all, at + 1, n, progress.take_line(all[at])->0);
    }
}

/// Reading lines of which none is malformed leaves sections behind.
proof fn lemma_take_lines_ok(all: Seq<Seq<char>>, at: int, progress: Progress)
    requires
        0 <= at <= all.len(),
        forall|j: int| at <= j < all.len() ==> !malformed(#[trigger] all[j]),
    ensures
        take_lines(all, at, progress) is Ok,
    decreases all.len() - at,
{
    if at < all.len() {
        lemma_take_line(progress, all[at]);
        assert(!malformed(all[at]));
        lemma_take_lines_ok(all, at + 1, progress.take_line(all[at])->0);
    }
}

/// A file whose first malformed line is line `n`, counted from 0, is
/// refused with the number of that line, whatever else it holds.
pub proof fn lemma_malformed_line_reported(text: Seq<char>, path: Seq<char>, n: int)
    requires
        0 <= n < lines(text).len(),
        malformed(lines(text)[n]),
        forall|j: int| 0 <= j < n ==> !malformed(#[trigger] lines(text)[j]),
    ensures
        tokenized(text, path) == Err::<ContentsView, ErrorView>(
            ErrorView::InvalidFormat { path, line_nr: n as nat, reason: format_reason() },
        ),
{
    lemma_take_lines_malformed(lines(text), 0, n, Progress::start());
}

/// A file is split into sections exactly if none of its lines is malformed.
pub proof fn lemma_tokenized_ok(text: Seq<char>, path: Seq<char>)
    ensures
        tokenized(text, path) is Ok <==> forall|j: int|
            0 <= j < lines(text).len() ==> !malformed(#[trigger] lines(text)[j]),
{
    let all = lines(text);
    if forall|j: int| 0 <= j < all.len() ==> !malformed(#[trigger] all[j]) {
        lemma_take_lines_ok(all, 0, Progress::start());
    } else {
        let bad = choose|j: int| 0 <= j < all.len() && malformed(#[trigger] all[j]);
        let first = first_malformed(all, bad);
        lemma_take_lines_malformed(all, 0, first, Progress::start());
    }
}

/// The index of the first malformed line, given that line `bad` is one.
spec fn first_malformed_upto(all: Seq<Seq<char>>, at: int, bad: int) -> int
    decreases bad - at,
{
    if at >= bad || malformed(all[at]) {
        at
    } else {
        first_malformed_upto(all, at + 1, bad)
    }
}

proof fn lemma_first_malformed_upto(all: Seq<Seq<char>>, at: int, bad: int)
    requires
        0 <= at <= bad < all.len(),
        malformed(all[bad]),
    ensures
        at <= first_malformed_upto(all, at, bad) <= bad,
        malformed(all[first_malformed_upto(all, at, bad)]),
        forall|j: int| at <= j < first_malformed_upto(all, at, bad) ==> !malformed(#[trigger] all[j]),
    decreases bad - at,
{
    if at < bad && !malformed(all[at]) {
        lemma_first_malformed_upto(all, at + 1, bad);
    }
}

proof fn first_malformed(all: Seq<Seq<char>>, bad: int) -> (first: int)
    requires
        0 <= bad < all.len(),
        malformed(all[bad]),
    ensures
        0 <= first <= bad,
        malformed(all[first]),
        forall|j: int| 0 <= j < first ==> !malformed(#[trigger] all[j]),
{
    lemma_first_malformed_upto(all, 0, bad);
    first_malformed_upto(all, 0, bad)
}

/// Reading keeps names and keys distinct.
proof fn lemma_take_lines_wf(all: Seq<Seq<char>>, at: int, progress: Progress)
    requires
        0 <= at <= all.len(),
        progress.wf(),
    ensures
        match take_lines(all, at, progress) {
            Ok(sections) => (ContentsView { sections, path: Seq::empty() }).wf(),
            Err(_) => true,
        },
    decreases all.len() - at,
{
    lemma_flush_wf(progress);
    if at < all.len() {
        match progress.take_line(all[at]) {
            None => {},
            Some(next) => {
                let line = without_comment(all[at]);
                if line.len() > 0 && !is_header(line) {
                    let eq = index_of(line, '=');
                    lemma_with_distinct(
                        progress.values,
                        crate::text::trim(line.take(eq)),
                        crate::text::trim(line.skip(eq + 1)),
                    );
                }
                lemma_take_lines_wf(all, at + 1, next);
            },
        }
    }
}

/// Closing the open section keeps names and keys distinct.
proof fn lemma_flush_wf(progress: Progress)
    requires
        progress.wf(),
    ensures
        (ContentsView { sections: progress.flush(), path: Seq::empty() }).wf(),
{
    if progress.values.len() > 0 {
        let out = with(progress.sections, progress.current, progress.values);
        lemma_with_distinct(progress.sections, progress.current, progress.values);
        lemma_position_from(progress.sections, progress.current, 0);
        assert forall|i: int| 0 <= i < out.len() implies distinct_keys((#[trigger] out[i]).1) by {
            if has_key(progress.sections, progress.current) {
                if i != position(progress.sections, progress.current) {
                    assert(out[i] == progress.sections[i]);
                }
            } else if i < progress.sections.len() {
                assert(out[i] == progress.sections[i]);
            }
        }
    }
}

/// In the contents of a file, no section name occurs twice, and in no
/// section a key.
pub proof fn lemma_tokenized_wf(text: Seq<char>, path: Seq<char>)
    ensures
        tokenized(text, path) matches Ok(contents) ==> contents.wf(),
{
    lemma_take_lines_wf(lines(text), 0, Progress::start());
}

/// Draining keys is not touched by an item under a key that is none of them:
/// the item is left over behind whatever else is.
proof fn lemma_drain_keys_extra<B: ConfigBuilder>(
    path: Seq<char>,
    section: Seq<char>,
    keys: Seq<KeyView>,
    at: int,
    values: Seq<(Seq<char>, Seq<char>)>,
    state: B::V,
    key: Seq<char>,
    value: Seq<char>,
)
    requires
        0 <= at,
        forall|i: int| 0 <= i < keys.len() ==> (#[trigger] keys[i]).name != key,
    ensures
        drain_keys::<B>(path, section, keys, at, values.push((key, value)), state) == match drain_keys::<
            B,
        >(path, section, keys, at, values, state) {
            Ok((last, rest)) => Ok((last, rest.push((key, value)))),
            Err(e) => Err(e),
        },
    decreases keys.len() - at,
{
    if at < keys.len() {
        let declared = keys[at];
        lemma_position_push(values, key, value, declared.name);
        match lookup(values, declared.name) {
            None => {
                if declared.optional {
                    lemma_drain_keys_extra::<B>(path, section, keys, at + 1, values, state, key, value);
                }
            },
            Some(raw) => {
                match B::step(state, section, declared.name, raw) {
                    Ok(next) => {
                        lemma_drain_keys_extra::<B>(
                            path,
                            section,
                            keys,
                            at + 1,
                            without(values, declared.name),
                            next,
                            key,
                            value,
                        );
                    },
                    Err(_) => {},
                }
            },
        }
    }
}

/// The values of `values` with the item `(key, value)` added at the end.
pub open spec fn with_extra(key: Seq<char>, value: Seq<char>) -> spec_fn(
    Seq<(Seq<char>, Seq<char>)>,
) -> Seq<(Seq<char>, Seq<char>)> {
    |values: Seq<(Seq<char>, Seq<char>)>| values.push((key, value))
}

/// The values of `values` without the item under `key`.
pub open spec fn with_removed(key: Seq<char>) -> spec_fn(Seq<(Seq<char>, Seq<char>)>) -> Seq<
    (Seq<char>, Seq<char>),
> {
    |values: Seq<(Seq<char>, Seq<char>)>| without(values, key)
}

proof fn lemma_extra_key_sections<B: ConfigBuilder>(
    path: Seq<char>,
    schema: Seq<SectionView>,
    at: int,
    sections: Seq<(Seq<char>, Seq<(Seq<char>, Seq<char>)>)>,
    state: B::V,
    section: Seq<char>,
    key: Seq<char>,
    value: Seq<char>,
)
    requires
        0 <= at,
        has_key(sections, section),
        drain_sections::<B>(path, schema, at, sections, state) matches Ok((_, rest)) && rest.len()
            == 0,
        B::key_schema(section) matches Ok(keys) ==> forall|i: int|
            0 <= i < keys.len() ==> (#[trigger] keys[i]).name != key,
    ensures
        drain_sections::<B>(
            path,
            schema,
            at,
            in_section(sections, section, with_extra(key, value)),
            state,
        ) == Err::<(B::V, Seq<(Seq<char>, Seq<(Seq<char>, Seq<char>)>)>), <B::Error as View>::V>(
            B::lift(ErrorView::UnexpectedKeys { path, section, keys: seq![key] }),
        ),
    decreases schema.len() - at,
{
    let changed = in_section(sections, section, with_extra(key, value));
    lemma_position_from(sections, section, 0);
    if at < schema.len() {
        let declared = schema[at];
        lemma_in_section_position(sections, section, with_extra(key, value), declared.name);
        match lookup(sections, declared.name) {
            None => {
                lemma_extra_key_sections::<B>(
                    path,
                    schema,
                    at + 1,
                    sections,
                    state,
                    section,
                    key,
                    value,
                );
            },
            Some(values) => {
                if declared.name == section {
                    let keys = B::key_schema(section)->Ok_0;
                    lemma_drain_keys_extra::<B>(path, section, keys, 0, values, state, key, value);
                    let rest = drain_keys::<B>(path, section, keys, 0, values, state)->Ok_0.1;
                    assert(keys_of(rest.push((key, value))) =~= seq![key]);
                } else {
                    let next = drain_section::<B>(path, declared.name, values, state)->Ok_0;
                    lemma_position_without(sections, declared.name, section);
                    lemma_extra_key_sections::<B>(
                        path,
                        schema,
                        at + 1,
                        without(sections, declared.name),
                        next,
                        section,
                        key,
                        value,
                    );
                }
            },
        }
    }
}

/// A key that its section does not declare is reported, and nothing else is.
///
/// Take contents from which the builder builds, a section of them, and a
/// key that the schema of that section does not declare. With that key
/// added to the section, whatever its value, building fails with
/// `UnexpectedKeys`, which names the section and exactly that key.
pub proof fn lemma_undeclared_key_reported<B: ConfigBuilder>(
    contents: ContentsView,
    state: B::V,
    section: Seq<char>,
    key: Seq<char>,
    value: Seq<char>,
)
    requires
        built::<B>(contents, state) is Ok,
        has_key(contents.sections, section),
        B::key_schema(section) matches Ok(keys) ==> forall|i: int|
            0 <= i < keys.len() ==> (#[trigger] keys[i]).name != key,
    ensures
        built::<B>(
            ContentsView {
                sections: in_section(contents.sections, section, with_extra(key, value)),
                path: contents.path,
            },
            state,
        ) == Err::<<B::Output as View>::V, <B::Error as View>::V>(
            B::lift(ErrorView::UnexpectedKeys { path: contents.path, section, keys: seq![key] }),
        ),
{
    lemma_extra_key_sections::<B>(
        contents.path,
        B::schema(),
        0,
        contents.sections,
        state,
        section,
        key,
        value,
    );
}

/// Draining keys from values that lack a key whose first declaration
/// requires it stops at that key.
proof fn lemma_drain_keys_missing<B: ConfigBuilder>(
    path: Seq<char>,
    section: Seq<char>,
    keys: Seq<KeyView>,
    at: int,
    values: Seq<(Seq<char>, Seq<char>)>,
    state: B::V,
    key: Seq<char>,
    first: int,
)
    requires
        0 <= at <= first < keys.len(),
        keys[first].name == key,
        !keys[first].optional,
        forall|i: int| 0 <= i < first ==> (#[trigger] keys[i]).name != key,
        distinct_keys(values),
        drain_keys::<B>(path, section, keys, at, values, state) is Ok,
    ensures
        drain_keys::<B>(path, section, keys, at, without(values, key), state) == Err::<
            (B::V, Seq<(Seq<char>, Seq<char>)>),
            <B::Error as View>::V,
        >(B::lift(ErrorView::MissingKey { path, section, key })),
    decreases first - at,
{
    lemma_without_distinct(values, key);
    if at < first {
        let declared = keys[at];
        if has_key(values, key) {
            lemma_position_without(values, key, declared.name);
        }
        match lookup(values, declared.name) {
            None => {
                lemma_drain_keys_missing::<B>(path, section, keys, at + 1, values, state, key, first);
            },
            Some(raw) => {
                let next = B::step(state, section, declared.name, raw)->Ok_0;
                lemma_without_distinct(values, declared.name);
                lemma_without_commutes(values, key, declared.name);
                lemma_drain_keys_missing::<B>(
                    path,
                    section,
                    keys,
                    at + 1,
                    without(values, declared.name),
                    next,
                    key,
                    first,
                );
            },
        }
    }
}

proof fn lemma_missing_key_sections<B: ConfigBuilder>(
    path: Seq<char>,
    schema: Seq<SectionView>,
    at: int,
    sections: Seq<(Seq<char>, Seq<(Seq<char>, Seq<char>)>)>,
    state: B::V,
    section: Seq<char>,
    key: Seq<char>,
    first: int,
)
    requires
        0 <= at,
        has_key(sections, section),
        (ContentsView { sections, path }).wf(),
        drain_sections::<B>(path, schema, at, sections, state) matches Ok((_, rest)) && rest.len()
            == 0,
        B::key_schema(section) matches Ok(keys) ==> {
            &&& 0 <= first < keys.len()
            &&& keys[first].name == key
            &&& !keys[first].optional
            &&& forall|i: int| 0 <= i < first ==> (#[trigger] keys[i]).name != key
        },
    ensures
        drain_sections::<B>(
            path,
            schema,
            at,
            in_section(sections, section, with_removed(key)),
            state,
        ) == Err::<(B::V, Seq<(Seq<char>, Seq<(Seq<char>, Seq<char>)>)>), <B::Error as View>::V>(
            B::lift(ErrorView::MissingKey { path, section, key }),
        ),
    decreases schema.len() - at,
{
    lemma_position_from(sections, section, 0);
    if at < schema.len() {
        let declared = schema[at];
        lemma_in_section_position(sections, section, with_removed(key), declared.name);
        lemma_position_from(sections, declared.name, 0);
        match lookup(sections, declared.name) {
            None => {
                lemma_missing_key_sections::<B>(
                    path,
                    schema,
                    at + 1,
                    sections,
                    state,
                    section,
                    key,
                    first,
                );
            },
            Some(values) => {
                if declared.name == section {
                    let keys = B::key_schema(section)->Ok_0;
                    assert(distinct_keys(sections[position(sections, section)].1));
                    lemma_drain_keys_missing::<B>(path, section, keys, 0, values, state, key, first);
                } else {
                    let next = drain_section::<B>(path, declared.name, values, state)->Ok_0;
                    lemma_position_without(sections, declared.name, section);
                    lemma_without_sections_wf(sections, declared.name);
                    lemma_missing_key_sections::<B>(
                        path,
                        schema,
                        at + 1,
                        without(sections, declared.name),
                        next,
                        section,
                        key,
                        first,
                    );
                }
            },
        }
    }
}

/// Taking a section out keeps names and keys distinct.
proof fn lemma_without_sections_wf(
    sections: Seq<(Seq<char>, Seq<(Seq<char>, Seq<char>)>)>,
    name: Seq<char>,
)
    requires
        (ContentsView { sections, path: Seq::empty() }).wf(),
    ensures
        (ContentsView { sections: without(sections, name), path: Seq::empty() }).wf(),
{
    lemma_without_distinct(sections, name);
    lemma_position_from(sections, name, 0);
    let out = without(sections, name);
    let p = position(sections, name);
    assert forall|i: int| 0 <= i < out.len() implies distinct_keys((#[trigger] out[i]).1) by {
        if has_key(sections, name) {
            if i < p {
                assert(out[i] == sections[i]);
            } else {
                assert(out[i] == sections[i + 1]);
            }
        }
    }
}

/// A required key that is missing is reported, and nothing else is.
///
/// Take contents from which the builder builds and in which no name occurs
/// twice, a section of them, and a key whose first declaration in the
/// schema of that section requires it. With that key taken out of the
/// section, building fails with `MissingKey`, which names the section and
/// exactly that key.
pub proof fn lemma_missing_key_reported<B: ConfigBuilder>(
    contents: ContentsView,
    state: B::V,
    section: Seq<char>,
    key: Seq<char>,
    first: int,
)
    requires
        contents.wf(),
        built::<B>(contents, state) is Ok,
        has_key(contents.sections, section),
        B::key_schema(section) matches Ok(keys) ==> {
            &&& 0 <= first < keys.len()
            &&& keys[first].name == key
            &&& !keys[first].optional
            &&& forall|i: int| 0 <= i < first ==> (#[trigger] keys[i]).name != key
        },
    ensures
        built::<B>(
            ContentsView {
                sections: in_section(contents.sections, section, with_removed(key)),
                path: contents.path,
            },
            state,
        ) == Err::<<B::Output as View>::V, <B::Error as View>::V>(
            B::lift(ErrorView::MissingKey { path: contents.path, section, key }),
        ),
{
    lemma_missing_key_sections::<B>(
        contents.path,
        B::schema(),
        0,
        contents.sections,
        state,
        section,
        key,
        first,
    );
}

/// Whether one of `keys[at..]` has the name `key`.
pub open spec fn declares_from(keys: Seq<KeyView>, at: int, key: Seq<char>) -> bool
    decreases keys.len() - at,
{
    if at < 0 || at >= keys.len() {
        false
    } else {
        keys[at].name == key || declares_from(keys, at + 1, key)
    }
}

/// Whether one of `keys` has the name `key`.
pub open spec fn declares(keys: Seq<KeyView>, key: Seq<char>) -> bool {
    declares_from(keys, 0, key)
}

/// A key is declared exactly if some place of the schema names it.
pub proof fn lemma_declares_from(keys: Seq<KeyView>, at: int, key: Seq<char>)
    requires
        0 <= at,
    ensures
        declares_from(keys, at, key) <==> exists|i: int|
            at <= i < keys.len() && (#[trigger] keys[i]).name == key,
    decreases keys.len() - at,
{
    if at < keys.len() {
        lemma_declares_from(keys, at + 1, key);
        if declares_from(keys, at, key) {
            if keys[at].name == key {
                assert(at <= at < keys.len() && keys[at].name == key);
            } else {
                let i = choose|i: int| at + 1 <= i < keys.len() && (#[trigger] keys[i]).name == key;
                assert(at <= i < keys.len() && keys[i].name == key);
            }
        }
    }
}

/// The keys of a list are the keys under which it holds something.
pub proof fn lemma_keys_of_contains<X>(items: Seq<(Seq<char>, X)>, key: Seq<char>)
    ensures
        keys_of(items).contains(key) <==> has_key(items, key),
{
    lemma_position_from(items, key, 0);
    let p = position(items, key);
    if has_key(items, key) {
        assert(keys_of(items)[p] == key);
    }
    if keys_of(items).contains(key) {
        let i = choose|i: int| 0 <= i < keys_of(items).len() && keys_of(items)[i] == key;
        assert(items[i].0 == key);
    }
}

/// What a list lacks it still lacks once something is taken out of it.
proof fn lemma_without_keeps_absent<X>(items: Seq<(Seq<char>, X)>, gone: Seq<char>, key: Seq<char>)
    requires
        !has_key(items, key),
    ensures
        !has_key(without(items, gone), key),
{
    if has_key(items, gone) {
        lemma_position_without(items, gone, key);
    }
}

/// Draining the keys `keys[at..]` is draining them up to `mid` and then
/// from `mid` on.
proof fn lemma_drain_keys_split<B: ConfigBuilder>(
    path: Seq<char>,
    section: Seq<char>,
    keys: Seq<KeyView>,
    at: int,
    mid: int,
    values: Seq<(Seq<char>, Seq<char>)>,
    state: B::V,
)
    requires
        0 <= at <= mid <= keys.len(),
    ensures
        drain_keys::<B>(path, section, keys, at, values, state) == match drain_keys::<B>(
            path,
            section,
            keys.take(mid),
            at,
            values,
            state,
        ) {
            Err(e) => Err(e),
            Ok((next, rest)) => drain_keys::<B>(path, section, keys, mid, rest, next),
        },
    decreases mid - at,
{
    if at < mid {
        let key = keys[at];
        assert(keys.take(mid)[at] == key);
        match lookup(values, key.name) {
            None => {
                if key.optional {
                    lemma_drain_keys_split::<B>(path, section, keys, at + 1, mid, values, state);
                }
            },
            Some(raw) => {
                match B::step(state, section, key.name, raw) {
                    Ok(next) => {
                        lemma_drain_keys_split::<B>(
                            path,
                            section,
                            keys,
                            at + 1,
                            mid,
                            without(values, key.name),
                            next,
                        );
                    },
                    Err(_) => {},
                }
            },
        }
    }
}

/// Draining the sections `schema[at..]` is draining them up to `mid` and
/// then from `mid` on.
proof fn lemma_drain_sections_split<B: ConfigBuilder>(
    path: Seq<char>,
    schema: Seq<SectionView>,
    at: int,
    mid: int,
    sections: Seq<(Seq<char>, Seq<(Seq<char>, Seq<char>)>)>,
    state: B::V,
)
    requires
        0 <= at <= mid <= schema.len(),
    ensures
        drain_sections::<B>(path, schema, at, sections, state) == match drain_sections::<B>(
            path,
            schema.take(mid),
            at,
            sections,
            state,
        ) {
            Err(e) => Err(e),
            Ok((next, rest)) => drain_sections::<B>(path, schema, mid, rest, next),
        },
    decreases mid - at,
{
    if at < mid {
        let section = schema[at];
        assert(schema.take(mid)[at] == section);
        match lookup(sections, section.name) {
            None => {
                if section.optional {
                    lemma_drain_sections_split::<B>(path, schema, at + 1, mid, sections, state);
                }
            },
            Some(values) => {
                match drain_section::<B>(path, section.name, values, state) {
                    Ok(next) => {
                        lemma_drain_sections_split::<B>(
                            path,
                            schema,
                            at + 1,
                            mid,
                            without(sections, section.name),
                            next,
                        );
                    },
                    Err(_) => {},
                }
            },
        }
    }
}

/// A key that values lack is still lacking when keys have been drained
/// from them.
proof fn lemma_drain_keys_keeps_absent<B: ConfigBuilder>(
    path: Seq<char>,
    section: Seq<char>,
    keys: Seq<KeyView>,
    at: int,
    values: Seq<(Seq<char>, Seq<char>)>,
    state: B::V,
    key: Seq<char>,
)
    requires
        0 <= at,
        !has_key(values, key),
    ensures
        drain_keys::<B>(path, section, keys, at, values, state) matches Ok((_, rest)) ==> !has_key(
            rest,
            key,
        ),
    decreases keys.len() - at,
{
    if at < keys.len() {
        let declared = keys[at];
        match lookup(values, declared.name) {
            None => {
                if declared.optional {
                    lemma_drain_keys_keeps_absent::<B>(
                        path,
                        section,
                        keys,
                        at + 1,
                        values,
                        state,
                        key,
                    );
                }
            },
            Some(raw) => {
                match B::step(state, section, declared.name, raw) {
                    Ok(next) => {
                        lemma_without_keeps_absent(values, declared.name, key);
                        lemma_drain_keys_keeps_absent::<B>(
                            path,
                            section,
                            keys,
                            at + 1,
                            without(values, declared.name),
                            next,
                            key,
                        );
                    },
                    Err(_) => {},
                }
            },
        }
    }
}

/// What is left of values when keys have been drained from them: the items
/// under keys that were not among those drained, each once.
proof fn lemma_left_over<B: ConfigBuilder>(
    path: Seq<char>,
    section: Seq<char>,
    keys: Seq<KeyView>,
    at: int,
    values: Seq<(Seq<char>, Seq<char>)>,
    state: B::V,
)
    requires
        0 <= at,
        distinct_keys(values),
    ensures
        drain_keys::<B>(path, section, keys, at, values, state) matches Ok((_, rest)) ==> {
            &&& distinct_keys(rest)
            &&& forall|key: Seq<char>| #[trigger]
                has_key(rest, key) <==> has_key(values, key) && !declares_from(keys, at, key)
        },
    decreases keys.len() - at,
{
    if at < keys.len() {
        let declared = keys[at];
        lemma_position_from(values, declared.name, 0);
        match lookup(values, declared.name) {
            None => {
                if declared.optional {
                    lemma_left_over::<B>(path, section, keys, at + 1, values, state);
                }
            },
            Some(raw) => {
                match B::step(state, section, declared.name, raw) {
                    Ok(next) => {
                        let fewer = without(values, declared.name);
                        lemma_without_distinct(values, declared.name);
                        lemma_left_over::<B>(path, section, keys, at + 1, fewer, next);
                        assert forall|key: Seq<char>| #[trigger]
                            has_key(fewer, key) <==> has_key(values, key) && key
                                != declared.name by {
                            if key != declared.name {
                                lemma_position_without(values, declared.name, key);
                            }
                        }
                    },
                    Err(_) => {},
                }
            },
        }
    }
}

/// The first required key that a section lacks is reported, whatever else
/// the section holds.
///
/// Let the sections declared before place `place` of the schema drain
/// without error, and leave the state `state` and the sections `open`. Let
/// the section declared at `place` be among them with the values `values`,
/// and let `keys` be its declared keys. If the keys before place `first`
/// drain from `values` without error, and the key at `first` is required
/// and not among `values`, building fails with `MissingKey`, which names
/// the section and that key.
pub proof fn lemma_first_missing_key_reported<B: ConfigBuilder>(
    contents: ContentsView,
    start: B::V,
    place: int,
    state: B::V,
    open: Seq<(Seq<char>, Seq<(Seq<char>, Seq<char>)>)>,
    values: Seq<(Seq<char>, Seq<char>)>,
    keys: Seq<KeyView>,
    first: int,
)
    requires
        0 <= place < B::schema().len(),
        drain_sections::<B>(contents.path, B::schema().take(place), 0, contents.sections, start)
            == Ok::<(B::V, Seq<(Seq<char>, Seq<(Seq<char>, Seq<char>)>)>), <B::Error as View>::V>(
            (state, open),
        ),
        lookup(open, B::schema()[place].name) == Some(values),
        B::key_schema(B::schema()[place].name) == Ok::<Seq<KeyView>, <B::Error as View>::V>(keys),
        0 <= first < keys.len(),
        drain_keys::<B>(
            contents.path,
            B::schema()[place].name,
            keys.take(first),
            0,
            values,
            state,
        ) is Ok,
        !keys[first].optional,
        !has_key(values, keys[first].name),
    ensures
        built::<B>(contents, start) == Err::<<B::Output as View>::V, <B::Error as View>::V>(
            B::lift(
                ErrorView::MissingKey {
                    path: contents.path,
                    section: B::schema()[place].name,
                    key: keys[first].name,
                },
            ),
        ),
{
    let path = contents.path;
    let name = B::schema()[place].name;
    lemma_drain_sections_split::<B>(path, B::schema(), 0, place, contents.sections, start);
    lemma_drain_keys_split::<B>(path, name, keys, 0, first, values, state);
    lemma_drain_keys_keeps_absent::<B>(
        path,
        name,
        keys.take(first),
        0,
        values,
        state,
        keys[first].name,
    );
    let reached = drain_keys::<B>(path, name, keys.take(first), 0, values, state)->Ok_0;
    lemma_position_from(reached.1, keys[first].name, 0);
    assert(lookup(reached.1, keys[first].name) is None);
}

/// The keys that a section holds and its schema does not declare are
/// reported, all of them and each once.
///
/// Let the sections declared before place `place` of the schema drain
/// without error, and leave the state `state` and the sections `open`. Let
/// the section declared at `place` be among them with the values `values`,
/// in which no key occurs twice, and let `keys` be its declared keys. If
/// these drain from `values` without error and `values` hold a key that is
/// not declared, building fails with `UnexpectedKeys`, which names the
/// section and the keys `left`: the keys of `values` that are not declared,
/// each once.
pub proof fn lemma_undeclared_keys_reported<B: ConfigBuilder>(
    contents: ContentsView,
    start: B::V,
    place: int,
    state: B::V,
    open: Seq<(Seq<char>, Seq<(Seq<char>, Seq<char>)>)>,
    values: Seq<(Seq<char>, Seq<char>)>,
    keys: Seq<KeyView>,
    undeclared: Seq<char>,
) -> (left: Seq<Seq<char>>)
    requires
        0 <= place < B::schema().len(),
        drain_sections::<B>(contents.path, B::schema().take(place), 0, contents.sections, start)
            == Ok::<(B::V, Seq<(Seq<char>, Seq<(Seq<char>, Seq<char>)>)>), <B::Error as View>::V>(
            (state, open),
        ),
        lookup(open, B::schema()[place].name) == Some(values),
        distinct_keys(values),
        B::key_schema(B::schema()[place].name) == Ok::<Seq<KeyView>, <B::Error as View>::V>(keys),
        drain_keys::<B>(contents.path, B::schema()[place].name, keys, 0, values, state) is Ok,
        has_key(values, undeclared),
        !declares(keys, undeclared),
    ensures
        built::<B>(contents, start) == Err::<<B::Output as View>::V, <B::Error as View>::V>(
            B::lift(
                ErrorView::UnexpectedKeys {
                    path: contents.path,
                    section: B::schema()[place].name,
                    keys: left,
                },
            ),
        ),
        forall|key: Seq<char>| #[trigger]
            left.contains(key) <==> has_key(values, key) && !declares(keys, key),
        forall|i: int, j: int| 0 <= i < j < left.len() ==> left[i] != left[j],
{
    let path = contents.path;
    let name = B::schema()[place].name;
    lemma_drain_sections_split::<B>(path, B::schema(), 0, place, contents.sections, start);
    lemma_left_over::<B>(path, name, keys, 0, values, state);
    let rest = drain_keys::<B>(path, name, keys, 0, values, state)->Ok_0.1;
    let left = keys_of(rest);
    assert(has_key(rest, undeclared));
    assert forall|key: Seq<char>| #[trigger]
        left.contains(key) <==> has_key(values, key) && !declares(keys, key) by {
        lemma_keys_of_contains(rest, key);
        assert(has_key(rest, key) <==> has_key(values, key) && !declares_from(keys, 0, key));
    }
    assert forall|i: int, j: int| 0 <= i < j < left.len() implies left[i] != left[j] by {
        assert(rest[i].0 != rest[j].0);
    }
    left
}

} // verus!
