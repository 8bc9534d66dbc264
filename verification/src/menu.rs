//! What the menu decides without drawing anything: where the selection goes
//! when an arrow key is pressed, and which entries a filter hides.

use crate::text::{chars_of, same_chars, trim, trimmed};
use vstd::prelude::*;
use vstd::slice::slice_subrange;

verus! {

/// A step of the selection in the grid of entries.
#[derive(Debug, PartialEq, Eq, Clone, Copy, Structural)]
pub enum Step {
    /// To the entry one row up.
    Up,
    /// To the entry one row down.
    Down,
    /// To the entry before.
    Left,
    /// To the entry behind.
    Right,
}

/// The index of the last of `count` entries; 0 where there is none.
pub open spec fn last_index(count: nat) -> nat {
    if count == 0 {
        0
    } else {
        (count - 1) as nat
    }
}

/// Where the selection is after `step`, in a grid of `count` entries with
/// `per_row` entries in a row.
///
/// A step up or down moves by a whole row and stops at the first or the
/// last entry. A step left or right moves by one and stays where it is at
/// the first or the last entry.
pub open spec fn stepped(selected: nat, per_row: nat, count: nat, step: Step) -> nat {
    match step {
        Step::Down => if selected + per_row < last_index(count) {
            selected + per_row
        } else {
            last_index(count)
        },
        Step::Up => if per_row > selected {
            0
        } else {
            (selected - per_row) as nat
        },
        Step::Left => if selected > 0 {
            (selected - 1) as nat
        } else {
            selected
        },
        Step::Right => if selected < last_index(count) {
            selected + 1
        } else {
            selected
        },
    }
}

/// A selection among the entries stays among them, whatever the step.
pub proof fn lemma_stepped_in_range(selected: nat, per_row: nat, count: nat, step: Step)
    requires
        selected < count,
    ensures
        stepped(selected, per_row, count, step) < count,
{
}

/// Where the selection is after `step`.
pub fn move_selection(selected: usize, per_row: usize, count: usize, step: Step) -> (r: usize)
    ensures
        r == stepped(selected as nat, per_row as nat, count as nat, step),
{
    let last = if count == 0 {
        0
    } else {
        count - 1
    };
    match step {
        Step::Down => {
            if per_row < last && selected < last - per_row {
                selected + per_row
            } else {
                last
            }
        },
        Step::Up => {
            if per_row > selected {
                0
            } else {
                selected - per_row
            }
        },
        Step::Left => {
            if selected > 0 {
                selected - 1
            } else {
                selected
            }
        },
        Step::Right => {
            if selected < last {
                selected + 1
            } else {
                selected
            }
        },
    }
}

/// Whether `needle` stands in `hay` at `at`.
pub open spec fn occurs_at(hay: Seq<char>, needle: Seq<char>, at: int) -> bool {
    0 <= at && at + needle.len() <= hay.len() && hay.subrange(at, at + needle.len()) == needle
}

/// Whether `needle` stands somewhere in `hay`. The empty text stands in
/// every text.
pub open spec fn contains_text(hay: Seq<char>, needle: Seq<char>) -> bool {
    exists|at: int| occurs_at(hay, needle, at)
}

/// Whether `needle` stands somewhere in `hay`.
pub fn text_contains(hay: &[char], needle: &[char]) -> (r: bool)
    ensures
        r == contains_text(hay@, needle@),
{
    if needle.len() > hay.len() {
        assert forall|at: int| !occurs_at(hay@, needle@, at) by {}
        return false;
    }
    let limit = hay.len() - needle.len();
    let mut at: usize = 0;
    loop
        invariant
            needle.len() <= hay.len(),
            limit == hay.len() - needle.len(),
            at <= limit,
            forall|i: int| 0 <= i < at ==> !occurs_at(hay@, needle@, i),
        decreases limit - at,
    {
        if same_chars(slice_subrange(hay, at, at + needle.len()), needle) {
            assert(occurs_at(hay@, needle@, at as int));
            return true;
        }
        if at == limit {
            assert forall|i: int| !occurs_at(hay@, needle@, i) by {}
            return false;
        }
        at += 1;
    }
}

/// The text `text` with every letter turned into its small letter.
pub uninterp spec fn lowercase(text: Seq<char>) -> Seq<char>;

/// Turns every letter into its small letter.
///
/// Trusted: stands for `str::to_lowercase`, which goes by the Unicode
/// property `Lowercase`. The contract only gives its result a name.
#[verifier::external_body]
fn to_lowercase(text: &str) -> (r: String)
    ensures
        r@ == lowercase(text@),
{
    text.to_lowercase()
}

/// Whether a title whose small letters are `title` fits a filter whose
/// small letters are `filter`: trimmed, the filter stands in the title.
pub open spec fn lowered_match(title: Seq<char>, filter: Seq<char>) -> bool {
    contains_text(trim(title), trim(filter))
}

/// Whether `title` fits `filter`, whatever the case of their letters and
/// the white space around them.
pub open spec fn title_matches(title: Seq<char>, filter: Seq<char>) -> bool {
    lowered_match(lowercase(title), lowercase(filter))
}

/// Whether a title fits a filter, both given in small letters.
pub fn match_lowered(title: &str, filter: &str) -> (r: bool)
    ensures
        r == lowered_match(title@, filter@),
{
    let hay = chars_of(title);
    let needle = chars_of(filter);
    text_contains(trimmed(hay.as_slice()), trimmed(needle.as_slice()))
}

/// Whether `title` fits `filter`.
pub fn match_strings(title: &str, filter: &str) -> (r: bool)
    ensures
        r == title_matches(title@, filter@),
{
    let title = to_lowercase(title);
    let filter = to_lowercase(filter);
    match_lowered(title.as_str(), filter.as_str())
}

/// The indices below `upto` of the titles that do not fit `filter`, in
/// rising order.
pub open spec fn hidden_upto(titles: Seq<Seq<char>>, filter: Seq<char>, upto: int) -> Seq<usize>
    decreases upto,
{
    if upto <= 0 {
        Seq::empty()
    } else if title_matches(titles[upto - 1], filter) {
        hidden_upto(titles, filter, upto - 1)
    } else {
        hidden_upto(titles, filter, upto - 1).push((upto - 1) as usize)
    }
}

/// An index is hidden exactly if its title does not fit the filter.
pub proof fn lemma_hidden_upto(titles: Seq<Seq<char>>, filter: Seq<char>, upto: int)
    requires
        0 <= upto <= titles.len(),
        titles.len() <= usize::MAX,
    ensures
        forall|i: int|
            0 <= i < upto ==> (hidden_upto(titles, filter, upto).contains(i as usize)
                <==> !title_matches(#[trigger] titles[i], filter)),
        forall|k: int|
            0 <= k < hidden_upto(titles, filter, upto).len() ==> (#[trigger] hidden_upto(
                titles,
                filter,
                upto,
            )[k]) < upto,
    decreases upto,
{
    if upto > 0 {
        lemma_hidden_upto(titles, filter, upto - 1);
        let before = hidden_upto(titles, filter, upto - 1);
        let now = hidden_upto(titles, filter, upto);
        if title_matches(titles[upto - 1], filter) {
            assert forall|i: int| 0 <= i < upto implies (now.contains(i as usize)
                <==> !title_matches(#[trigger] titles[i], filter)) by {
                if i == upto - 1 && now.contains(i as usize) {
                    let k = choose|k: int| 0 <= k < now.len() && now[k] == i as usize;
                    assert(now[k] < upto - 1);
                }
            }
        } else {
            assert(now.last() == (upto - 1) as usize);
            assert forall|i: int| 0 <= i < upto implies (now.contains(i as usize)
                <==> !title_matches(#[trigger] titles[i], filter)) by {
                if i < upto - 1 {
                    if before.contains(i as usize) {
                        let k = choose|k: int| 0 <= k < before.len() && before[k] == i as usize;
                        assert(now[k] == i as usize);
                    }
                    if now.contains(i as usize) {
                        let k = choose|k: int| 0 <= k < now.len() && now[k] == i as usize;
                        assert(k < before.len());
                        assert(before[k] == i as usize);
                    }
                } else {
                    assert(now[now.len() - 1] == i as usize);
                }
            }
        }
    }
}

/// The indices of the titles that `filter` hides, in rising order.
pub fn hidden_indices(titles: &Vec<String>, filter: &str) -> (hidden: Vec<usize>)
    ensures
        hidden@ == hidden_upto(titles.deep_view(), filter@, titles.len() as int),
{
    let mut hidden: Vec<usize> = Vec::new();
    let mut i: usize = 0;
    while i < titles.len()
        invariant
            i <= titles.len(),
            hidden@ == hidden_upto(titles.deep_view(), filter@, i as int),
        decreases titles.len() - i,
    {
        assert(titles.deep_view()[i as int] == titles@[i as int]@);
        if !match_strings(titles[i].as_str(), filter) {
            hidden.push(i);
        }
        i += 1;
    }
    hidden
}

} // verus!
