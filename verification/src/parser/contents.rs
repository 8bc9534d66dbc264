//! What a file holds once it is split up: sections by name, and in each
//! section raw values by key.
//!
//! Both levels are kept as lists in the order in which the names first came,
//! so that whatever is reported about them is reported in the order of the
//! file. A list that the tokenizer built holds no name twice.

use vstd::prelude::*;

verus! {

/// The least index `i >= from` at which `items` holds `key`, or
/// `items.len()` where it holds it nowhere from `from` on.
pub open spec fn position_from<X>(items: Seq<(Seq<char>, X)>, key: Seq<char>, from: int) -> int
    decreases items.len() - from,
{
    if from >= items.len() {
        items.len() as int
    } else if items[from].0 == key {
        from
    } else {
        position_from(items, key, from + 1)
    }
}

/// The index of the first item under `key`, or `items.len()` where there is none.
pub open spec fn position<X>(items: Seq<(Seq<char>, X)>, key: Seq<char>) -> int {
    position_from(items, key, 0)
}

/// Whether `items` holds something under `key`.
pub open spec fn has_key<X>(items: Seq<(Seq<char>, X)>, key: Seq<char>) -> bool {
    position(items, key) < items.len()
}

/// What `items` holds under `key`.
pub open spec fn lookup<X>(items: Seq<(Seq<char>, X)>, key: Seq<char>) -> Option<X> {
    if has_key(items, key) {
        Some(items[position(items, key)].1)
    } else {
        None
    }
}

/// `items` without the first item under `key`.
pub open spec fn without<X>(items: Seq<(Seq<char>, X)>, key: Seq<char>) -> Seq<(Seq<char>, X)> {
    if has_key(items, key) {
        items.remove(position(items, key))
    } else {
        items
    }
}

/// `items` with `value` under `key`: in the place of what was under that key
/// before, or at the end where the key is new.
pub open spec fn with<X>(items: Seq<(Seq<char>, X)>, key: Seq<char>, value: X) -> Seq<
    (Seq<char>, X),
> {
    if has_key(items, key) {
        items.update(position(items, key), (key, value))
    } else {
        items.push((key, value))
    }
}

/// The keys of `items`, in order.
pub open spec fn keys_of<X>(items: Seq<(Seq<char>, X)>) -> Seq<Seq<char>> {
    Seq::new(items.len(), |i: int| items[i].0)
}

/// Whether no key occurs twice in `items`.
pub open spec fn distinct_keys<X>(items: Seq<(Seq<char>, X)>) -> bool {
    forall|i: int, j: int| 0 <= i < j < items.len() ==> (#[trigger] items[i]).0 != (
    #[trigger] items[j]).0
}

/// `position_from` finds the first item under the key and nothing before it.
pub proof fn lemma_position_from<X>(items: Seq<(Seq<char>, X)>, key: Seq<char>, from: int)
    requires
        0 <= from <= items.len(),
    ensures
        from <= position_from(items, key, from) <= items.len(),
        forall|j: int| from <= j < position_from(items, key, from) ==> (#[trigger] items[j]).0 != key,
        position_from(items, key, from) < items.len() ==> items[position_from(
            items,
            key,
            from,
        )].0 == key,
    decreases items.len() - from,
{
    if from < items.len() && items[from].0 != key {
        lemma_position_from(items, key, from + 1);
    }
}

/// Putting a value under a key keeps the keys distinct.
pub proof fn lemma_with_distinct<X>(items: Seq<(Seq<char>, X)>, key: Seq<char>, value: X)
    requires
        distinct_keys(items),
    ensures
        distinct_keys(with(items, key, value)),
{
    lemma_position_from(items, key, 0);
    let out = with(items, key, value);
    assert forall|i: int, j: int| 0 <= i < j < out.len() implies (#[trigger] out[i]).0 != (
    #[trigger] out[j]).0 by {
        if has_key(items, key) {
            assert(out[i].0 == items[i].0);
            assert(out[j].0 == items[j].0);
        } else if j == items.len() {
            assert(out[i] == items[i]);
        } else {
            assert(out[i] == items[i]);
            assert(out[j] == items[j]);
        }
    }
}

/// Taking a key out keeps the keys distinct, and the key is gone.
pub proof fn lemma_without_distinct<X>(items: Seq<(Seq<char>, X)>, key: Seq<char>)
    requires
        distinct_keys(items),
    ensures
        distinct_keys(without(items, key)),
        !has_key(without(items, key), key),
{
    lemma_position_from(items, key, 0);
    let out = without(items, key);
    let p = position(items, key);
    assert forall|i: int, j: int| 0 <= i < j < out.len() implies (#[trigger] out[i]).0 != (
    #[trigger] out[j]).0 by {
        if has_key(items, key) {
            let a = if i < p { i } else { i + 1 };
            let b = if j < p { j } else { j + 1 };
            assert(out[i] == items[a]);
            assert(out[j] == items[b]);
        }
    }
    lemma_position_from(out, key, 0);
    if has_key(out, key) {
        let q = position(out, key);
        if has_key(items, key) {
            let b = if q < p { q } else { q + 1 };
            assert(out[q] == items[b]);
            assert(items[b].0 == items[p].0);
            if b < p {
                assert(items[b].0 != items[p].0);
            } else {
                assert(items[p].0 != items[b].0);
            }
        } else {
            assert(out[q].0 != key);
        }
    }
}

/// The first place that holds the key, and holds it behind places that do
/// not, is the key's position.
pub proof fn lemma_position_unique<X>(items: Seq<(Seq<char>, X)>, key: Seq<char>, at: int)
    requires
        0 <= at <= items.len(),
        forall|j: int| 0 <= j < at ==> (#[trigger] items[j]).0 != key,
        at < items.len() ==> items[at].0 == key,
    ensures
        position(items, key) == at,
{
    lemma_position_from(items, key, 0);
    let p = position(items, key);
    if p < at {
        assert(items[p].0 == key);
    }
}

/// Where a key stands once an item under another key is taken out.
pub proof fn lemma_position_without<X>(items: Seq<(Seq<char>, X)>, gone: Seq<char>, key: Seq<char>)
    requires
        gone != key,
        has_key(items, gone),
    ensures
        position(without(items, gone), key) == if position(items, key) > position(items, gone) {
            position(items, key) - 1
        } else {
            position(items, key)
        },
        has_key(without(items, gone), key) == has_key(items, key),
        lookup(without(items, gone), key) == lookup(items, key),
{
    lemma_position_from(items, gone, 0);
    lemma_position_from(items, key, 0);
    let p = position(items, gone);
    let q = position(items, key);
    let out = items.remove(p);
    let at = if q > p {
        q - 1
    } else {
        q
    };
    assert forall|j: int| 0 <= j < at implies (#[trigger] out[j]).0 != key by {
        if j < p {
            assert(out[j] == items[j]);
        } else {
            assert(out[j] == items[j + 1]);
        }
    }
    if at < out.len() {
        if at < p {
            assert(out[at] == items[at]);
        } else {
            assert(out[at] == items[at + 1]);
        }
    }
    lemma_position_unique(out, key, at);
}

/// Taking out items under two different keys comes to the same in either order.
pub proof fn lemma_without_commutes<X>(items: Seq<(Seq<char>, X)>, a: Seq<char>, b: Seq<char>)
    requires
        a != b,
    ensures
        without(without(items, a), b) == without(without(items, b), a),
{
    lemma_position_from(items, a, 0);
    lemma_position_from(items, b, 0);
    if has_key(items, a) {
        lemma_position_without(items, a, b);
    }
    if has_key(items, b) {
        lemma_position_without(items, b, a);
    }
    assert(without(without(items, a), b) =~= without(without(items, b), a));
}

/// Where a key stands once an item under another key is added at the end.
pub proof fn lemma_position_push<X>(
    items: Seq<(Seq<char>, X)>,
    added: Seq<char>,
    value: X,
    key: Seq<char>,
)
    requires
        added != key,
    ensures
        has_key(items.push((added, value)), key) == has_key(items, key),
        lookup(items.push((added, value)), key) == lookup(items, key),
        without(items.push((added, value)), key) == without(items, key).push((added, value)),
{
    lemma_position_from(items, key, 0);
    let q = position(items, key);
    let out = items.push((added, value));
    let at = if q < items.len() {
        q
    } else {
        q + 1
    };
    assert forall|j: int| 0 <= j < at implies (#[trigger] out[j]).0 != key by {
        if j < items.len() {
            assert(out[j] == items[j]);
        }
    }
    if at < out.len() {
        assert(out[at] == items[at]);
    }
    lemma_position_unique(out, key, at);
    assert(without(out, key) =~= without(items, key).push((added, value)));
}

/// The sections `sections` with the values of every section named
/// `section` changed by `change`.
pub open spec fn in_section(
    sections: Seq<(Seq<char>, Seq<(Seq<char>, Seq<char>)>)>,
    section: Seq<char>,
    change: spec_fn(Seq<(Seq<char>, Seq<char>)>) -> Seq<(Seq<char>, Seq<char>)>,
) -> Seq<(Seq<char>, Seq<(Seq<char>, Seq<char>)>)> {
    Seq::new(
        sections.len(),
        |i: int|
            if sections[i].0 == section {
                (sections[i].0, change(sections[i].1))
            } else {
                sections[i]
            },
    )
}

/// A change to the values of a section moves no section.
pub proof fn lemma_in_section_position(
    sections: Seq<(Seq<char>, Seq<(Seq<char>, Seq<char>)>)>,
    section: Seq<char>,
    change: spec_fn(Seq<(Seq<char>, Seq<char>)>) -> Seq<(Seq<char>, Seq<char>)>,
    name: Seq<char>,
)
    ensures
        position(in_section(sections, section, change), name) == position(sections, name),
        has_key(in_section(sections, section, change), name) == has_key(sections, name),
        without(in_section(sections, section, change), name) == in_section(
            without(sections, name),
            section,
            change,
        ),
        lookup(in_section(sections, section, change), name) == match lookup(sections, name) {
            Some(values) => Some(
                if name == section {
                    change(values)
                } else {
                    values
                },
            ),
            None => None,
        },
{
    lemma_position_from(sections, name, 0);
    let out = in_section(sections, section, change);
    let p = position(sections, name);
    assert forall|j: int| 0 <= j < p implies (#[trigger] out[j]).0 != name by {
        assert(out[j].0 == sections[j].0);
    }
    lemma_position_unique(out, name, p);
    assert(without(out, name) =~= in_section(without(sections, name), section, change));
}

/// Values by key, in the order in which the keys first came.
#[derive(Debug, PartialEq, Eq)]
pub struct Table<V> {
    items: Vec<(String, V)>,
}

impl<V: DeepView> DeepView for Table<V> {
    type V = Seq<(Seq<char>, V::V)>;

    closed spec fn deep_view(&self) -> Seq<(Seq<char>, V::V)> {
        self.items.deep_view()
    }
}

impl<V: DeepView> Table<V> {
    /// A table without items.
    pub fn new() -> (t: Self)
        ensures
            t.deep_view() == Seq::<(Seq<char>, V::V)>::empty(),
    {
        let t = Table { items: Vec::new() };
        assert(t.items.deep_view() =~= Seq::<(Seq<char>, V::V)>::empty());
        t
    }

    /// Whether the table holds nothing.
    pub fn is_empty(&self) -> (r: bool)
        ensures
            r == (self.deep_view().len() == 0),
    {
        self.items.len() == 0
    }

    /// The index of the first item under `key`, or the number of items where
    /// there is none.
    fn find(&self, key: &str) -> (i: usize)
        ensures
            i == position(self.deep_view(), key@),
            i <= self.items.len(),
            self.items.len() == self.deep_view().len(),
    {
        let wanted = key.to_owned();
        let mut i: usize = 0;
        while i < self.items.len() && !(self.items[i].0 == wanted)
            invariant
                i <= self.items.len(),
                wanted@ == key@,
                position(self.deep_view(), key@) == position_from(
                    self.deep_view(),
                    key@,
                    i as int,
                ),
            decreases self.items.len() - i,
        {
            i += 1;
        }
        i
    }

    /// Puts `value` under `key`: in the place of what was under that key
    /// before, or at the end where the key is new.
    pub fn insert(&mut self, key: String, value: V)
        ensures
            final(self).deep_view() == with(old(self).deep_view(), key@, value.deep_view()),
    {
        let i = self.find(key.as_str());
        let ghost before = self.deep_view();
        let ghost k = key@;
        let ghost v = value.deep_view();
        if i < self.items.len() {
            self.items[i] = (key, value);
            assert(self.items.deep_view() =~= before.update(i as int, (k, v)));
        } else {
            self.items.push((key, value));
            assert(self.items.deep_view() =~= before.push((k, v)));
        }
    }

    /// Takes out the first item under `key` and hands back its value, if
    /// there is one.
    pub fn remove(&mut self, key: &str) -> (r: Option<V>)
        ensures
            final(self).deep_view() == without(old(self).deep_view(), key@),
            r.deep_view() == lookup(old(self).deep_view(), key@),
    {
        let i = self.find(key);
        let ghost before = self.deep_view();
        if i < self.items.len() {
            let item = self.items.remove(i);
            assert(self.items.deep_view() =~= before.remove(i as int));
            Some(item.1)
        } else {
            None
        }
    }

    /// The keys, in the order in which they first came.
    pub fn keys(&self) -> (out: Vec<String>)
        ensures
            out.deep_view() == keys_of(self.deep_view()),
    {
        let mut out: Vec<String> = Vec::new();
        let mut i: usize = 0;
        while i < self.items.len()
            invariant
                i <= self.items.len(),
                out.deep_view() =~= keys_of(self.deep_view()).take(i as int),
            decreases self.items.len() - i,
        {
            let ghost before = out.deep_view();
            out.push(self.items[i].0.clone());
            assert(out.deep_view() =~= before.push(self.items@[i as int].0@));
            assert(keys_of(self.deep_view()).take(i + 1) =~= keys_of(self.deep_view()).take(
                i as int,
            ).push(self.items@[i as int].0@));
            i += 1;
        }
        assert(keys_of(self.deep_view()).take(self.items.len() as int) =~= keys_of(
            self.deep_view(),
        ));
        out
    }
}

/// The raw values of one section, by key.
#[derive(Debug, PartialEq, Eq)]
pub struct ConfigSection {
    pub(crate) values: Table<String>,
}

impl DeepView for ConfigSection {
    type V = Seq<(Seq<char>, Seq<char>)>;

    closed spec fn deep_view(&self) -> Seq<(Seq<char>, Seq<char>)> {
        self.values.deep_view()
    }
}

impl View for ConfigSection {
    type V = Seq<(Seq<char>, Seq<char>)>;

    open spec fn view(&self) -> Seq<(Seq<char>, Seq<char>)> {
        self.deep_view()
    }
}

impl ConfigSection {
    /// A section that holds `values`.
    pub fn new(values: Table<String>) -> (s: Self)
        ensures
            s@ == values.deep_view(),
    {
        ConfigSection { values }
    }

    /// The values of the section.
    pub fn into_values(self) -> (values: Table<String>)
        ensures
            values.deep_view() == self@,
    {
        self.values
    }
}

/// The mathematical value of a [`ConfigContents`].
pub struct ContentsView {
    /// The sections by name; the unnamed section goes by the empty name.
    pub sections: Seq<(Seq<char>, Seq<(Seq<char>, Seq<char>)>)>,
    /// The file that the contents came from.
    pub path: Seq<char>,
}

impl ContentsView {
    /// Whether no section name occurs twice, and in no section a key.
    pub open spec fn wf(self) -> bool {
        &&& distinct_keys(self.sections)
        &&& forall|i: int|
            0 <= i < self.sections.len() ==> distinct_keys((#[trigger] self.sections[i]).1)
    }
}

/// The sections of one file, by name, and the path of that file.
#[derive(Debug, PartialEq, Eq)]
pub struct ConfigContents {
    pub(crate) sections: Table<ConfigSection>,
    pub(crate) path: String,
}

impl View for ConfigContents {
    type V = ContentsView;

    closed spec fn view(&self) -> ContentsView {
        ContentsView { sections: self.sections.deep_view(), path: self.path@ }
    }
}

impl ConfigContents {
    /// The contents of the file at `path`.
    pub fn new(sections: Table<ConfigSection>, path: String) -> (c: Self)
        ensures
            c@ == (ContentsView { sections: sections.deep_view(), path: path@ }),
    {
        ConfigContents { sections, path }
    }

    /// The sections and the path.
    pub fn into_parts(self) -> (parts: (Table<ConfigSection>, String))
        ensures
            parts.0.deep_view() == self@.sections,
            parts.1@ == self@.path,
    {
        (self.sections, self.path)
    }
}

} // verus!
