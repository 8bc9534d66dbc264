//! Number literals: unsigned decimal integers and decimal floating-point text.

use crate::text::{decimal_digits, digit_char, same_chars};
use vstd::prelude::*;
use vstd::slice::slice_subrange;

verus! {

/// Whether `c` is one of the ten decimal digits.
pub open spec fn is_digit(c: char) -> bool {
    '0' <= c <= '9'
}

/// The number a decimal digit stands for.
pub open spec fn digit_value(c: char) -> nat
    recommends
        is_digit(c),
{
    (c as u32 - '0' as u32) as nat
}

/// Whether every character of `s` is a decimal digit.
pub open spec fn all_digits(s: Seq<char>) -> bool {
    forall|i: int| 0 <= i < s.len() ==> is_digit(#[trigger] s[i])
}

/// The number that the digits of `s` denote in base ten; the empty text denotes 0.
pub open spec fn decimal_value(s: Seq<char>) -> nat
    decreases s.len(),
{
    if s.len() == 0 {
        0
    } else {
        decimal_value(s.drop_last()) * 10 + digit_value(s.last())
    }
}

/// `s` without one leading plus sign.
pub open spec fn without_plus(s: Seq<char>) -> Seq<char> {
    if s.len() > 0 && s[0] == '+' {
        s.drop_first()
    } else {
        s
    }
}

/// The value of `s` read as an unsigned decimal integer of at most `max`:
/// an optional plus sign, then one or more digits and nothing else.
pub open spec fn unsigned_value(s: Seq<char>, max: nat) -> Option<nat> {
    let digits = without_plus(s);
    if digits.len() > 0 && all_digits(digits) && decimal_value(digits) <= max {
        Some(decimal_value(digits))
    } else {
        None
    }
}

/// A longer run of digits never denotes a smaller number than its own prefix.
pub proof fn lemma_decimal_value_prefix(s: Seq<char>, i: int)
    requires
        0 <= i <= s.len(),
    ensures
        decimal_value(s.take(i)) <= decimal_value(s),
    decreases s.len(),
{
    if i == s.len() {
        assert(s.take(i) == s);
    } else {
        lemma_decimal_value_prefix(s.drop_last(), i);
        assert(s.drop_last().take(i) == s.take(i));
    }
}

/// Whether `c` is a decimal digit.
pub fn char_is_digit(c: char) -> (r: bool)
    ensures
        r == is_digit(c),
{
    '0' <= c && c <= '9'
}

/// Reads `s` as an unsigned decimal integer of at most `max`.
pub fn parse_unsigned(s: &[char], max: u64) -> (r: Option<u64>)
    ensures
        match r {
            Some(v) => unsigned_value(s@, max as nat) == Some(v as nat),
            None => unsigned_value(s@, max as nat) is None,
        },
{
    let digits = if s.len() > 0 && s[0] == '+' {
        slice_subrange(s, 1, s.len())
    } else {
        s
    };
    assert(digits@ == without_plus(s@));
    if digits.len() == 0 {
        return None;
    }
    let mut acc: u64 = 0;
    let mut i: usize = 0;
    assert(digits@.take(0) == Seq::<char>::empty());
    while i < digits.len()
        invariant
            i <= digits.len(),
            digits@ == without_plus(s@),
            all_digits(digits@.take(i as int)),
            acc == decimal_value(digits@.take(i as int)),
            acc <= max,
        decreases digits.len() - i,
    {
        let c = digits[i];
        if !char_is_digit(c) {
            assert(!is_digit(digits@[i as int]));
            return None;
        }
        let d: u64 = (c as u32 - '0' as u32) as u64;
        let next: u128 = acc as u128 * 10 + d as u128;
        assert(digits@.take(i + 1).drop_last() == digits@.take(i as int));
        assert(next == decimal_value(digits@.take(i + 1)));
        if next > max as u128 {
            proof {
                lemma_decimal_value_prefix(digits@, i + 1);
            }
            return None;
        }
        acc = next as u64;
        i += 1;
    }
    assert(digits@.take(digits.len() as int) == digits@);
    Some(acc)
}

/// Reads `s` as an unsigned 8-bit decimal integer.
pub fn parse_u8(s: &[char]) -> (r: Option<u8>)
    ensures
        match r {
            Some(v) => unsigned_value(s@, 255) == Some(v as nat),
            None => unsigned_value(s@, 255) is None,
        },
{
    match parse_unsigned(s, 255) {
        Some(v) => Some(v as u8),
        None => None,
    }
}

/// Reads `s` as an unsigned 64-bit decimal integer.
pub fn parse_u64(s: &[char]) -> (r: Option<u64>)
    ensures
        match r {
            Some(v) => unsigned_value(s@, u64::MAX as nat) == Some(v as nat),
            None => unsigned_value(s@, u64::MAX as nat) is None,
        },
{
    parse_unsigned(s, u64::MAX)
}

/// The index just behind the run of digits that starts at `from`.
pub open spec fn digits_end(s: Seq<char>, from: int) -> int
    decreases s.len() - from,
{
    if 0 <= from < s.len() && is_digit(s[from]) {
        digits_end(s, from + 1)
    } else {
        from
    }
}

/// Whether `s` starts with a plus or a minus sign.
pub open spec fn has_sign(s: Seq<char>) -> bool {
    s.len() > 0 && (s[0] == '+' || s[0] == '-')
}

/// An ASCII capital letter as its small letter; any other character unchanged.
pub open spec fn ascii_lower(c: char) -> char {
    if 'A' <= c <= 'Z' {
        ((c as u8) + 32) as char
    } else {
        c
    }
}

/// Whether `s` spells `word` when its ASCII capitals are read as small letters.
pub open spec fn spells(s: Seq<char>, word: Seq<char>) -> bool {
    s.map_values(|c: char| ascii_lower(c)) == word
}

/// Whether `s` is an exponent: the letter `e` in either case, an optional
/// sign, then one or more digits and nothing else.
pub open spec fn is_exponent(s: Seq<char>) -> bool {
    let digits = if has_sign(s.skip(1)) {
        2int
    } else {
        1int
    };
    &&& s.len() > digits
    &&& s[0] == 'e' || s[0] == 'E'
    &&& digits_end(s, digits) == s.len()
}

/// Whether `s` is an unsigned decimal number: digits with at most one point
/// among them, at least one digit before or behind the point, and after that
/// an optional exponent.
pub open spec fn is_decimal(s: Seq<char>) -> bool {
    let whole = digits_end(s, 0);
    let pointed = whole < s.len() && s[whole] == '.';
    let mantissa = if pointed {
        digits_end(s, whole + 1)
    } else {
        whole
    };
    let digits = if pointed {
        mantissa - 1
    } else {
        mantissa
    };
    &&& digits >= 1
    &&& mantissa == s.len() || is_exponent(s.skip(mantissa))
}

/// Whether `s` is a decimal floating-point literal: an optional sign, then
/// either an unsigned decimal number or one of the words `inf`, `infinity`
/// and `nan` in any mix of cases.
pub open spec fn is_float_literal(s: Seq<char>) -> bool {
    let body = if has_sign(s) {
        s.skip(1)
    } else {
        s
    };
    ||| is_decimal(body)
    ||| spells(body, seq!['i', 'n', 'f'])
    ||| spells(body, seq!['n', 'a', 'n'])
    ||| spells(body, seq!['i', 'n', 'f', 'i', 'n', 'i', 't', 'y'])
}

/// An ASCII capital letter as its small letter; any other character unchanged.
pub fn to_ascii_lower(c: char) -> (r: char)
    ensures
        r == ascii_lower(c),
{
    if 'A' <= c && c <= 'Z' {
        ((c as u8) + 32) as char
    } else {
        c
    }
}

/// The index just behind the run of digits that starts at `from`.
pub fn skip_digits(s: &[char], from: usize) -> (to: usize)
    requires
        from <= s.len(),
    ensures
        to == digits_end(s@, from as int),
        from <= to <= s.len(),
{
    let mut to = from;
    while to < s.len() && char_is_digit(s[to])
        invariant
            from <= to <= s.len(),
            digits_end(s@, from as int) == digits_end(s@, to as int),
        decreases s.len() - to,
    {
        to += 1;
    }
    to
}

/// Whether `s` spells `word`, which holds no capital letter, when the ASCII
/// capitals of `s` are read as small letters.
pub fn spells_word(s: &[char], word: &[char]) -> (r: bool)
    ensures
        r == spells(s@, word@),
{
    let mut lowered: Vec<char> = Vec::new();
    let mut i: usize = 0;
    while i < s.len()
        invariant
            i <= s.len(),
            lowered@ == s@.take(i as int).map_values(|c: char| ascii_lower(c)),
        decreases s.len() - i,
    {
        lowered.push(to_ascii_lower(s[i]));
        assert(s@.take(i + 1).map_values(|c: char| ascii_lower(c)) == s@.take(i as int).map_values(
            |c: char| ascii_lower(c),
        ).push(ascii_lower(s@[i as int])));
        i += 1;
    }
    assert(s@.take(s.len() as int) == s@);
    same_chars(lowered.as_slice(), word)
}

/// Whether `s` is an exponent.
pub fn check_exponent(s: &[char]) -> (r: bool)
    ensures
        r == is_exponent(s@),
{
    if s.len() < 2 || (s[0] != 'e' && s[0] != 'E') {
        return false;
    }
    assert(s@.skip(1)[0] == s@[1]);
    let digits: usize = if s[1] == '+' || s[1] == '-' {
        2
    } else {
        1
    };
    if s.len() <= digits {
        return false;
    }
    skip_digits(s, digits) == s.len()
}

/// Whether `s` is an unsigned decimal number.
pub fn check_decimal(s: &[char]) -> (r: bool)
    ensures
        r == is_decimal(s@),
{
    let whole = skip_digits(s, 0);
    let pointed = whole < s.len() && s[whole] == '.';
    let mantissa = if pointed {
        skip_digits(s, whole + 1)
    } else {
        whole
    };
    let digits = if pointed {
        mantissa - 1
    } else {
        mantissa
    };
    if digits < 1 {
        return false;
    }
    if mantissa == s.len() {
        return true;
    }
    check_exponent(slice_subrange(s, mantissa, s.len()))
}

/// Whether `s` is a decimal floating-point literal.
pub fn check_float_literal(s: &[char]) -> (r: bool)
    ensures
        r == is_float_literal(s@),
{
    let body = if s.len() > 0 && (s[0] == '+' || s[0] == '-') {
        slice_subrange(s, 1, s.len())
    } else {
        s
    };
    let inf: [char; 3] = ['i', 'n', 'f'];
    let nan: [char; 3] = ['n', 'a', 'n'];
    let infinity: [char; 8] = ['i', 'n', 'f', 'i', 'n', 'i', 't', 'y'];
    assert(inf@ == seq!['i', 'n', 'f']);
    assert(nan@ == seq!['n', 'a', 'n']);
    assert(infinity@ == seq!['i', 'n', 'f', 'i', 'n', 'i', 't', 'y']);
    check_decimal(body) || spells_word(body, inf.as_slice()) || spells_word(body, nan.as_slice())
        || spells_word(body, infinity.as_slice())
}

/// A number written out in base ten is a run of digits that denotes it.
pub proof fn lemma_decimal_digits(n: nat)
    ensures
        decimal_digits(n).len() >= 1,
        all_digits(decimal_digits(n)),
        decimal_value(decimal_digits(n)) == n,
    decreases n,
{
    let s = decimal_digits(n);
    if n < 10 {
        assert(s.drop_last() == Seq::<char>::empty());
        assert(decimal_value(s.drop_last()) == 0);
        assert(digit_value(s.last()) == n);
    } else {
        lemma_decimal_digits(n / 10);
        let head = decimal_digits(n / 10);
        assert(s.drop_last() == head);
        assert(s.last() == digit_char(n % 10));
        assert(digit_value(s.last()) == n % 10);
        assert forall|i: int| 0 <= i < s.len() implies is_digit(#[trigger] s[i]) by {
            if i < head.len() {
                assert(s[i] == head[i]);
            }
        }
    }
}

/// A number written out in base ten reads back as itself, whatever bound it
/// is within.
pub proof fn lemma_unsigned_value_of_digits(n: nat, max: nat)
    requires
        n <= max,
    ensures
        unsigned_value(decimal_digits(n), max) == Some(n),
{
    lemma_decimal_digits(n);
    let s = decimal_digits(n);
    assert(is_digit(s[0]));
}

/// In a text of digits only, the run of digits from any place goes to the end.
pub proof fn lemma_digits_end(s: Seq<char>, from: int)
    requires
        all_digits(s),
        0 <= from <= s.len(),
    ensures
        digits_end(s, from) == s.len(),
    decreases s.len() - from,
{
    if from < s.len() {
        assert(is_digit(s[from]));
        lemma_digits_end(s, from + 1);
    }
}

/// A number written out in base ten is a decimal floating-point literal.
pub proof fn lemma_digits_are_float_literal(n: nat)
    ensures
        is_float_literal(decimal_digits(n)),
{
    lemma_decimal_digits(n);
    let s = decimal_digits(n);
    lemma_digits_end(s, 0);
    assert(is_digit(s[0]));
    assert(!has_sign(s));
    assert(is_decimal(s));
}

} // verus!
