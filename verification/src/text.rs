//! Character sequences: the model every parser in this crate is stated over.
//!
//! A piece of text is modelled as a `Seq<char>`. The executable functions work
//! on slices of `char` that hold the same characters, and turn them back into
//! `String`s where a result has to own its text.

use vstd::prelude::*;
use vstd::slice::slice_subrange;
use vstd::std_specs::iter::IteratorSpec;
use vstd::string::StringExecFns;

verus! {

/// Appends one character to a string.
///
/// Trusted: stands for `String::push`, which adds `c` at the end of `s` and
/// leaves what was there untouched.
#[verifier::external_body]
pub(crate) fn push_char(s: &mut String, c: char)
    ensures
        final(s)@ == old(s)@.push(c),
{
    s.push(c)
}

/// The characters of `s`, in order.
pub fn chars_of(s: &str) -> (v: Vec<char>)
    ensures
        v@ == s@,
{
    let mut v: Vec<char> = Vec::new();
    let it = s.chars();
    for c in iter: it
        invariant
            v@ == iter.seq().take(iter.index()),
            iter.seq() == s@,
    {
        v.push(c);
    }
    v
}

/// A string that holds exactly the characters of `chars`.
pub fn string_of(chars: &[char]) -> (s: String)
    ensures
        s@ == chars@,
{
    let mut s = String::new();
    let mut i: usize = 0;
    while i < chars.len()
        invariant
            i <= chars.len(),
            s@ == chars@.take(i as int),
        decreases chars.len() - i,
    {
        push_char(&mut s, chars[i]);
        i += 1;
    }
    s
}

/// Whether `a` holds exactly the characters of `b`.
pub fn same_chars(a: &[char], b: &[char]) -> (r: bool)
    ensures
        r == (a@ == b@),
{
    if a.len() != b.len() {
        return false;
    }
    let mut i: usize = 0;
    while i < a.len()
        invariant
            i <= a.len(),
            a.len() == b.len(),
            a@.take(i as int) == b@.take(i as int),
        decreases a.len() - i,
    {
        if a[i] != b[i] {
            return false;
        }
        assert(a@.take(i + 1) == a@.take(i as int).push(a@[i as int]));
        assert(b@.take(i + 1) == b@.take(i as int).push(b@[i as int]));
        i += 1;
    }
    assert(a@ == a@.take(a.len() as int));
    assert(b@ == b@.take(b.len() as int));
    true
}

/// Whether `a` and `b` hold the same text.
pub fn same_text(a: &str, b: &str) -> (r: bool)
    ensures
        r == (a@ == b@),
{
    let x = chars_of(a);
    let y = chars_of(b);
    same_chars(x.as_slice(), y.as_slice())
}

/// Whether `a` starts with the characters of `prefix`.
pub open spec fn starts_with(a: Seq<char>, prefix: Seq<char>) -> bool {
    prefix.len() <= a.len() && a.take(prefix.len() as int) == prefix
}

/// Whether the text `a` starts with the text `prefix`.
pub fn has_prefix(a: &[char], prefix: &[char]) -> (r: bool)
    ensures
        r == starts_with(a@, prefix@),
{
    if prefix.len() > a.len() {
        return false;
    }
    same_chars(slice_subrange(a, 0, prefix.len()), prefix)
}

/// Whether `c` has the Unicode property `White_Space`.
pub open spec fn is_whitespace(c: char) -> bool {
    let n = c as u32;
    ||| 0x09 <= n <= 0x0D
    ||| n == 0x20
    ||| n == 0x85
    ||| n == 0xA0
    ||| n == 0x1680
    ||| 0x2000 <= n <= 0x200A
    ||| n == 0x2028
    ||| n == 0x2029
    ||| n == 0x202F
    ||| n == 0x205F
    ||| n == 0x3000
}

/// Whether `c` is a white-space character.
pub fn char_is_whitespace(c: char) -> (r: bool)
    ensures
        r == is_whitespace(c),
{
    let n: u32 = c as u32;
    (0x09 <= n && n <= 0x0D) || n == 0x20 || n == 0x85 || n == 0xA0 || n == 0x1680 || (0x2000 <= n
        && n <= 0x200A) || n == 0x2028 || n == 0x2029 || n == 0x202F || n == 0x205F || n == 0x3000
}

/// The least index `i >= from` with `s[i] == c`, or `s.len()` where `c` does
/// not occur from `from` on.
pub open spec fn index_of_from(s: Seq<char>, c: char, from: int) -> int
    decreases s.len() - from,
{
    if from >= s.len() {
        s.len() as int
    } else if s[from] == c {
        from
    } else {
        index_of_from(s, c, from + 1)
    }
}

/// The index of the first `c` in `s`, or `s.len()` where `s` holds none.
pub open spec fn index_of(s: Seq<char>, c: char) -> int {
    index_of_from(s, c, 0)
}

/// `index_of_from` finds the first occurrence and nothing before it.
pub proof fn lemma_index_of_from(s: Seq<char>, c: char, from: int)
    requires
        0 <= from <= s.len(),
    ensures
        from <= index_of_from(s, c, from) <= s.len(),
        forall|j: int| from <= j < index_of_from(s, c, from) ==> s[j] != c,
        index_of_from(s, c, from) < s.len() ==> s[index_of_from(s, c, from)] == c,
    decreases s.len() - from,
{
    if from < s.len() && s[from] != c {
        lemma_index_of_from(s, c, from + 1);
    }
}

/// The first place that holds `c`, behind places that do not, is where
/// `index_of` finds it.
pub proof fn lemma_index_of_unique(s: Seq<char>, c: char, at: int)
    requires
        0 <= at <= s.len(),
        forall|j: int| 0 <= j < at ==> s[j] != c,
        at < s.len() ==> s[at] == c,
    ensures
        index_of(s, c) == at,
{
    lemma_index_of_from(s, c, 0);
    let i = index_of(s, c);
    if i < at {
        assert(s[i] == c);
    }
}

/// The index of the first `c` in `s`, or `s.len()` where `s` holds none.
pub fn find_char(s: &[char], c: char) -> (i: usize)
    ensures
        i == index_of(s@, c),
        i <= s.len(),
        forall|j: int| 0 <= j < i ==> s@[j] != c,
        i < s.len() ==> s@[i as int] == c,
{
    let mut i: usize = 0;
    while i < s.len() && s[i] != c
        invariant
            i <= s.len(),
            index_of(s@, c) == index_of_from(s@, c, i as int),
        decreases s.len() - i,
    {
        i += 1;
    }
    proof {
        lemma_index_of_from(s@, c, 0);
    }
    i
}

/// `s` without its leading white space.
pub open spec fn trim_start(s: Seq<char>) -> Seq<char>
    decreases s.len(),
{
    if s.len() > 0 && is_whitespace(s[0]) {
        trim_start(s.drop_first())
    } else {
        s
    }
}

/// `s` without its trailing white space.
pub open spec fn trim_end(s: Seq<char>) -> Seq<char>
    decreases s.len(),
{
    if s.len() > 0 && is_whitespace(s.last()) {
        trim_end(s.drop_last())
    } else {
        s
    }
}

/// `s` without the white space at either end.
pub open spec fn trim(s: Seq<char>) -> Seq<char> {
    trim_end(trim_start(s))
}

/// The part of `s` that is left when the white space at both ends is cut off.
pub fn trimmed(s: &[char]) -> (r: &[char])
    ensures
        r@ == trim(s@),
{
    let mut from: usize = 0;
    assert(s@.skip(0) == s@);
    while from < s.len() && char_is_whitespace(s[from])
        invariant
            from <= s.len(),
            trim_start(s@) == trim_start(s@.skip(from as int)),
        decreases s.len() - from,
    {
        assert(s@.skip(from as int).drop_first() == s@.skip(from + 1));
        from += 1;
    }
    let rest = slice_subrange(s, from, s.len());
    assert(rest@ == trim_start(s@));
    let mut to: usize = rest.len();
    assert(rest@.take(rest.len() as int) == rest@);
    while to > 0 && char_is_whitespace(rest[to - 1])
        invariant
            to <= rest.len(),
            trim_end(rest@) == trim_end(rest@.take(to as int)),
        decreases to,
    {
        assert(rest@.take(to as int).drop_last() == rest@.take(to - 1));
        to -= 1;
    }
    slice_subrange(rest, 0, to)
}

/// The pieces of `s` between the occurrences of `sep`. There is always at
/// least one piece; two separators in a row hold an empty piece between them.
pub open spec fn split(s: Seq<char>, sep: char) -> Seq<Seq<char>>
    decreases s.len(),
{
    let i = index_of(s, sep);
    if 0 <= i < s.len() {
        seq![s.take(i)] + split(s.skip(i + 1), sep)
    } else {
        seq![s]
    }
}

/// A text without the separator is one piece.
pub proof fn lemma_split_whole(s: Seq<char>, sep: char)
    requires
        forall|j: int| 0 <= j < s.len() ==> s[j] != sep,
    ensures
        split(s, sep) == seq![s],
{
    lemma_index_of_unique(s, sep, s.len() as int);
}

/// What stands before the first separator is the first piece, and the
/// other pieces are those of what stands behind it.
pub proof fn lemma_split_first(first: Seq<char>, sep: char, rest: Seq<char>)
    requires
        forall|j: int| 0 <= j < first.len() ==> first[j] != sep,
    ensures
        split(first.push(sep) + rest, sep) == seq![first] + split(rest, sep),
{
    let s = first.push(sep) + rest;
    assert forall|j: int| 0 <= j < first.len() implies s[j] != sep by {
        assert(s[j] == first[j]);
    }
    lemma_index_of_unique(s, sep, first.len() as int);
    assert(s.take(first.len() as int) == first);
    assert(s.skip(first.len() as int + 1) == rest);
}

/// The pieces of `s` between the occurrences of `sep`.
pub fn split_at_char(s: &[char], sep: char) -> (parts: Vec<Vec<char>>)
    ensures
        parts.deep_view() == split(s@, sep),
        parts.len() >= 1,
{
    let mut parts: Vec<Vec<char>> = Vec::new();
    let mut start: usize = 0;
    assert(s@.skip(0) == s@);
    loop
        invariant
            start <= s.len(),
            split(s@, sep) == parts.deep_view() + split(s@.skip(start as int), sep),
        decreases s.len() - start,
    {
        let rest = slice_subrange(s, start, s.len());
        assert(rest@ == s@.skip(start as int));
        let i = find_char(rest, sep);
        let piece = vstd::slice::slice_to_vec(slice_subrange(rest, 0, i));
        let ghost before = parts.deep_view();
        parts.push(piece);
        assert(parts.deep_view() =~~= before.push(rest@.take(i as int)));
        if i < rest.len() {
            assert(rest@.skip(i + 1) == s@.skip(start + i + 1));
            assert(before + (seq![rest@.take(i as int)] + split(rest@.skip(i + 1), sep))
                == before.push(rest@.take(i as int)) + split(rest@.skip(i + 1), sep));
            start = start + i + 1;
        } else {
            assert(rest@.take(i as int) == rest@);
            assert(before + seq![rest@] == before.push(rest@));
            return parts;
        }
    }
}

/// The index just behind the run of white space that starts at `from`.
pub open spec fn space_end(s: Seq<char>, from: int) -> int
    decreases s.len() - from,
{
    if 0 <= from < s.len() && is_whitespace(s[from]) {
        space_end(s, from + 1)
    } else {
        from
    }
}

/// The index just behind the run of characters other than white space that
/// starts at `from`.
pub open spec fn word_end(s: Seq<char>, from: int) -> int
    decreases s.len() - from,
{
    if 0 <= from < s.len() && !is_whitespace(s[from]) {
        word_end(s, from + 1)
    } else {
        from
    }
}

/// The words of `s` from `from` on: the pieces between runs of white
/// space, in order.
pub open spec fn words_from(s: Seq<char>, from: int) -> Seq<Seq<char>>
    decreases s.len() - from,
{
    let start = space_end(s, from);
    let end = word_end(s, start);
    if from <= start < end <= s.len() {
        seq![s.subrange(start, end)] + words_from(s, end)
    } else {
        Seq::empty()
    }
}

/// The words of `s`: the pieces between runs of white space, in order.
/// White space at either end bounds no word, so no word is empty.
pub open spec fn words(s: Seq<char>) -> Seq<Seq<char>> {
    words_from(s, 0)
}

/// A run of characters other than white space stays within the text and
/// holds no white space.
pub proof fn lemma_word_end(s: Seq<char>, from: int)
    requires
        0 <= from <= s.len(),
    ensures
        from <= word_end(s, from) <= s.len(),
        forall|j: int| from <= j < word_end(s, from) ==> !is_whitespace(s[j]),
    decreases s.len() - from,
{
    if from < s.len() && !is_whitespace(s[from]) {
        lemma_word_end(s, from + 1);
    }
}

/// No word is empty, and none holds white space.
pub proof fn lemma_words_from(s: Seq<char>, from: int)
    requires
        0 <= from <= s.len(),
    ensures
        forall|i: int|
            0 <= i < words_from(s, from).len() ==> (#[trigger] words_from(s, from)[i]).len() > 0,
        forall|i: int, j: int|
            0 <= i < words_from(s, from).len() && 0 <= j < words_from(s, from)[i].len()
                ==> !is_whitespace(#[trigger] words_from(s, from)[i][j]),
    decreases s.len() - from,
{
    let start = space_end(s, from);
    let end = word_end(s, start);
    if from <= start < end <= s.len() {
        lemma_word_end(s, start);
        lemma_words_from(s, end);
        let first = s.subrange(start, end);
        let rest = words_from(s, end);
        let all = words_from(s, from);
        assert(all == seq![first] + rest);
        assert forall|i: int| 0 <= i < all.len() implies (#[trigger] all[i]).len() > 0 by {
            if i > 0 {
                assert(all[i] == rest[i - 1]);
            }
        }
        assert forall|i: int, j: int| 0 <= i < all.len() && 0 <= j < all[i].len() implies
            !is_whitespace(#[trigger] all[i][j]) by {
            if i > 0 {
                assert(all[i] == rest[i - 1]);
            } else {
                assert(first[j] == s[start + j]);
            }
        }
    }
}

/// The words of `s`.
pub fn split_words(s: &[char]) -> (out: Vec<Vec<char>>)
    ensures
        out.deep_view() == words(s@),
{
    let mut out: Vec<Vec<char>> = Vec::new();
    let mut from: usize = 0;
    assert(out.deep_view() =~~= Seq::<Seq<char>>::empty());
    loop
        invariant
            from <= s.len(),
            words(s@) == out.deep_view() + words_from(s@, from as int),
        decreases s.len() - from,
    {
        let mut start = from;
        while start < s.len() && char_is_whitespace(s[start])
            invariant
                from <= start <= s.len(),
                space_end(s@, from as int) == space_end(s@, start as int),
            decreases s.len() - start,
        {
            start += 1;
        }
        let mut end = start;
        while end < s.len() && !char_is_whitespace(s[end])
            invariant
                start <= end <= s.len(),
                word_end(s@, start as int) == word_end(s@, end as int),
            decreases s.len() - end,
        {
            end += 1;
        }
        if start == end {
            assert(words_from(s@, from as int) == Seq::<Seq<char>>::empty());
            assert(out.deep_view() + Seq::<Seq<char>>::empty() == out.deep_view());
            return out;
        }
        let word = vstd::slice::slice_to_vec(slice_subrange(s, start, end));
        let ghost before = out.deep_view();
        out.push(word);
        assert(out.deep_view() =~~= before.push(word@));
        assert(before + (seq![word@] + words_from(s@, end as int)) == before.push(word@)
            + words_from(s@, end as int));
        from = end;
    }
}

/// `line` without a carriage return at its end.
pub open spec fn strip_cr(line: Seq<char>) -> Seq<char> {
    if line.len() > 0 && line.last() == '\r' {
        line.drop_last()
    } else {
        line
    }
}

/// The lines of `text`. A line ends at a line feed, which is not part of it,
/// and a carriage return just before that line feed is dropped too. What
/// follows the last line feed is a line of its own unless it is empty.
pub open spec fn lines(text: Seq<char>) -> Seq<Seq<char>>
    decreases text.len(),
{
    if text.len() == 0 {
        Seq::empty()
    } else {
        let i = index_of(text, '\n');
        if 0 <= i < text.len() {
            seq![strip_cr(text.take(i))] + lines(text.skip(i + 1))
        } else {
            seq![text]
        }
    }
}

/// The lines of `text`.
pub fn split_lines(text: &[char]) -> (out: Vec<Vec<char>>)
    ensures
        out.deep_view() == lines(text@),
{
    let mut out: Vec<Vec<char>> = Vec::new();
    let mut start: usize = 0;
    assert(text@.skip(0) == text@);
    while start < text.len()
        invariant
            start <= text.len(),
            lines(text@) == out.deep_view() + lines(text@.skip(start as int)),
        decreases text.len() - start,
    {
        let rest = slice_subrange(text, start, text.len());
        assert(rest@ == text@.skip(start as int));
        let i = find_char(rest, '\n');
        let ghost before = out.deep_view();
        if i < rest.len() {
            let mut end = i;
            if end > 0 && rest[end - 1] == '\r' {
                end = end - 1;
            }
            let line = vstd::slice::slice_to_vec(slice_subrange(rest, 0, end));
            assert(line@ == strip_cr(rest@.take(i as int)));
            out.push(line);
            assert(out.deep_view() =~~= before.push(line@));
            assert(rest@.skip(i + 1) == text@.skip(start + i + 1));
            assert(before + (seq![line@] + lines(rest@.skip(i + 1))) == before.push(line@) + lines(
                rest@.skip(i + 1),
            ));
            start = start + i + 1;
        } else {
            let line = vstd::slice::slice_to_vec(rest);
            out.push(line);
            assert(out.deep_view() =~~= before.push(rest@));
            assert(before + seq![rest@] == before.push(rest@));
            assert(text@.skip(text.len() as int).len() == 0);
            start = text.len();
        }
    }
    assert(lines(text@.skip(start as int)) == Seq::<Seq<char>>::empty());
    out
}

/// The texts of `parts` in a row, with `sep` between each two of them.
pub open spec fn join(parts: Seq<Seq<char>>, sep: Seq<char>) -> Seq<char>
    decreases parts.len(),
{
    if parts.len() == 0 {
        Seq::empty()
    } else if parts.len() == 1 {
        parts[0]
    } else {
        join(parts.drop_last(), sep) + sep + parts.last()
    }
}

/// The texts of `parts` in a row, with `sep` between each two of them.
pub fn joined(parts: &Vec<String>, sep: &str) -> (out: String)
    ensures
        out@ == join(parts.deep_view(), sep@),
{
    let mut out = String::new();
    let mut i: usize = 0;
    let ghost all = parts.deep_view();
    assert(all.take(0) == Seq::<Seq<char>>::empty());
    while i < parts.len()
        invariant
            i <= parts.len(),
            all == parts.deep_view(),
            out@ == join(all.take(i as int), sep@),
        decreases parts.len() - i,
    {
        if i > 0 {
            out.append(sep);
        }
        out.append(parts[i].as_str());
        assert(all.take(i + 1).drop_last() == all.take(i as int));
        assert(all.take(i + 1).last() == parts[i as int]@);
        i += 1;
    }
    assert(all.take(parts.len() as int) == all);
    out
}

/// The character that stands for a digit below ten.
pub open spec fn digit_char(d: nat) -> char
    recommends
        d < 10,
{
    ('0' as u8 + d as u8) as char
}

/// `n` written in base ten, without leading zeros.
pub open spec fn decimal_digits(n: nat) -> Seq<char>
    decreases n,
{
    if n < 10 {
        seq![digit_char(n)]
    } else {
        decimal_digits(n / 10).push(digit_char(n % 10))
    }
}

/// Appends `n`, written in base ten, to `s`.
pub fn push_decimal(s: &mut String, n: usize)
    ensures
        final(s)@ == old(s)@ + decimal_digits(n as nat),
    decreases n,
{
    if n >= 10 {
        push_decimal(s, n / 10);
    }
    let d: u8 = (n % 10) as u8;
    push_char(s, ('0' as u8 + d) as char);
    assert(final(s)@ == old(s)@ + decimal_digits(n as nat)) by {
        if n >= 10 {
            assert((old(s)@ + decimal_digits((n / 10) as nat)).push(digit_char((n % 10) as nat))
                == old(s)@ + decimal_digits((n / 10) as nat).push(digit_char((n % 10) as nat)));
        } else {
            assert(old(s)@.push(digit_char(n as nat)) == old(s)@ + seq![digit_char(n as nat)]);
        }
    }
}

} // verus!
