//! Numbers as the configuration writes them.

use crate::numeric::{check_float_literal, is_float_literal, lemma_digits_are_float_literal};
use crate::text::{chars_of, decimal_digits, push_decimal};
use vstd::prelude::*;

verus! {

/// A number, held as the decimal floating-point literal that denotes it.
///
/// The text of a `Number` is always such a literal: an optional sign, then
/// digits with an optional point and an optional exponent, or one of the
/// words `inf`, `infinity` and `nan`. Whoever needs the number in a machine
/// format converts the text; the conversion cannot fail.
#[derive(Debug, PartialEq, Eq)]
pub struct Number {
    text: String,
}

impl View for Number {
    type V = Seq<char>;

    closed spec fn view(&self) -> Seq<char> {
        self.text@
    }
}

impl Number {
    #[verifier::type_invariant]
    spec fn is_literal(self) -> bool {
        is_float_literal(self.text@)
    }

    /// The number that `text` denotes, if it is a decimal floating-point literal.
    pub fn parse(text: &str) -> (r: Option<Self>)
        ensures
            match r {
                Some(n) => is_float_literal(text@) && n@ == text@,
                None => !is_float_literal(text@),
            },
    {
        let chars = chars_of(text);
        if check_float_literal(chars.as_slice()) {
            Some(Number { text: text.to_owned() })
        } else {
            None
        }
    }

    /// The whole number `n`.
    pub fn whole(n: usize) -> (r: Self)
        ensures
            r@ == decimal_digits(n as nat),
    {
        let mut text = String::new();
        push_decimal(&mut text, n);
        proof {
            lemma_digits_are_float_literal(n as nat);
            assert(text@ == decimal_digits(n as nat));
        }
        Number { text }
    }

    /// The literal.
    pub fn as_str(&self) -> (text: &str)
        ensures
            text@ == self@,
            is_float_literal(text@),
    {
        proof {
            use_type_invariant(self);
        }
        self.text.as_str()
    }
}

} // verus!
