//! Decimal literals: real numbers as the user wrote them.
//!
//! A real-valued setting is kept as its literal, checked against the grammar
//! of signed decimals, and handed on unchanged to whoever computes with it.

use crate::text::{chars_of, find_first, first_in, lemma_first_in};
use vstd::prelude::*;

verus! {

/// A decimal digit.
pub open spec fn is_digit(c: char) -> bool {
    '0' <= c <= '9'
}

/// A sign.
pub open spec fn is_sign(c: char) -> bool {
    c == '+' || c == '-'
}

/// Digits and nothing else; the empty text too.
pub open spec fn is_digits(text: Seq<char>) -> bool {
    forall|i: int| 0 <= i < text.len() ==> is_digit(#[trigger] text[i])
}

/// `text` without the sign in front of it, if it has one.
pub open spec fn unsigned(text: Seq<char>) -> Seq<char> {
    if text.len() >= 1 && is_sign(text[0]) {
        text.skip(1)
    } else {
        text
    }
}

/// Digits with at most one point among them, before them or after them, and
/// at least one digit.
pub open spec fn is_mantissa(text: Seq<char>) -> bool {
    let point = first_in(text, set!['.']);
    let whole = text.take(point);
    let fraction = if point < text.len() {
        text.skip(point + 1)
    } else {
        Seq::empty()
    };
    is_digits(whole) && is_digits(fraction) && whole.len() + fraction.len() >= 1
}

/// What follows the exponent's letter: digits, at least one, with or without
/// a sign in front.
pub open spec fn is_exponent(text: Seq<char>) -> bool {
    unsigned(text).len() >= 1 && is_digits(unsigned(text))
}

/// A signed decimal, with or without an exponent: `-1.0`, `.5`, `3.`, `+2e-3`.
pub open spec fn is_decimal(text: Seq<char>) -> bool {
    let body = unsigned(text);
    let letter = first_in(body, set!['e', 'E']);
    is_mantissa(body.take(letter)) && (letter < body.len() ==> is_exponent(body.skip(letter + 1)))
}

/// The characters that a decimal is made of.
pub open spec fn is_decimal_char(c: char) -> bool {
    is_digit(c) || is_sign(c) || c == '.' || c == 'e' || c == 'E'
}

/// A decimal holds no character but digits, signs, the point and the
/// exponent's letter.
pub proof fn lemma_decimal_chars(text: Seq<char>)
    requires
        is_decimal(text),
    ensures
        text.len() >= 1,
        forall|i: int| 0 <= i < text.len() ==> is_decimal_char(#[trigger] text[i]),
{
    let body = unsigned(text);
    let letter = first_in(body, set!['e', 'E']);
    lemma_first_in(body, set!['e', 'E']);
    let mantissa = body.take(letter);
    let point = first_in(mantissa, set!['.']);
    lemma_first_in(mantissa, set!['.']);
    let whole = mantissa.take(point);
    assert forall|i: int| 0 <= i < body.len() implies is_decimal_char(#[trigger] body[i]) by {
        if i < letter {
            assert(body[i] == mantissa[i]);
            if i < point {
                assert(mantissa[i] == whole[i]);
            } else if i > point {
                assert(mantissa[i] == mantissa.skip(point + 1)[i - point - 1]);
            }
        } else if i > letter {
            let exponent = body.skip(letter + 1);
            assert(body[i] == exponent[i - letter - 1]);
            let digits = unsigned(exponent);
            if i - letter - 1 >= exponent.len() - digits.len() {
                assert(exponent[i - letter - 1] == digits[i - letter - 1 - (exponent.len()
                    - digits.len())]);
            }
        }
    }
    assert forall|i: int| 0 <= i < text.len() implies is_decimal_char(#[trigger] text[i]) by {
        if i >= text.len() - body.len() {
            assert(text[i] == body[i - (text.len() - body.len())]);
        }
    }
}

fn all_digits(text: &[char]) -> (yes: bool)
    ensures
        yes == is_digits(text@),
{
    let mut i: usize = 0;
    while i < text.len()
        invariant
            0 <= i <= text@.len(),
            forall|k: int| 0 <= k < i ==> is_digit(#[trigger] text@[k]),
        decreases text@.len() - i,
    {
        if !('0' <= text[i] && text[i] <= '9') {
            return false;
        }
        i += 1;
    }
    true
}

fn without_sign(text: &[char]) -> (rest: &[char])
    ensures
        rest@ == unsigned(text@),
{
    if text.len() >= 1 && (text[0] == '+' || text[0] == '-') {
        &text[1..text.len()]
    } else {
        text
    }
}

fn mantissa_ok(text: &[char]) -> (yes: bool)
    ensures
        yes == is_mantissa(text@),
{
    let point = find_first(text, '.', '.');
    assert(set!['.', '.'] == set!['.']);
    let whole = &text[0..point];
    if !all_digits(whole) {
        return false;
    }
    if point < text.len() {
        let fraction = &text[point + 1..text.len()];
        all_digits(fraction) && whole.len() + fraction.len() >= 1
    } else {
        whole.len() >= 1
    }
}

fn exponent_ok(text: &[char]) -> (yes: bool)
    ensures
        yes == is_exponent(text@),
{
    let digits = without_sign(text);
    digits.len() >= 1 && all_digits(digits)
}

/// Whether `text` is a decimal.
pub fn decimal_ok(text: &[char]) -> (yes: bool)
    ensures
        yes == is_decimal(text@),
{
    let body = without_sign(text);
    let letter = find_first(body, 'e', 'E');
    if !mantissa_ok(&body[0..letter]) {
        return false;
    }
    if letter < body.len() {
        exponent_ok(&body[letter + 1..body.len()])
    } else {
        true
    }
}

/// A decimal literal.
#[derive(Debug)]
pub struct Decimal {
    text: String,
}

impl View for Decimal {
    type V = Seq<char>;

    /// The characters of the literal.
    closed spec fn view(&self) -> Seq<char> {
        self.text@
    }
}

impl Clone for Decimal {
    fn clone(&self) -> (copy: Self)
        ensures
            copy == *self,
    {
        proof {
            use_type_invariant(self);
        }
        Decimal { text: self.text.clone() }
    }
}

impl Decimal {
    #[verifier::type_invariant]
    closed spec fn well_formed(&self) -> bool {
        is_decimal(self.text@)
    }

    /// The literal that `text` is, if it is one.
    pub fn parse(text: &str) -> (out: Option<Decimal>)
        ensures
            out is Some <==> is_decimal(text@),
            out matches Some(literal) ==> literal@ == text@,
    {
        let chars = chars_of(text);
        if decimal_ok(chars.as_slice()) {
            Some(Decimal { text: text.to_owned() })
        } else {
            None
        }
    }

    /// The literal that the characters `text` are, if they are one.
    pub fn from_chars(text: &[char]) -> (out: Option<Decimal>)
        ensures
            out is Some <==> is_decimal(text@),
            out matches Some(literal) ==> literal@ == text@,
    {
        if decimal_ok(text) {
            let mut literal = String::new();
            let mut i: usize = 0;
            while i < text.len()
                invariant
                    0 <= i <= text@.len(),
                    literal@ == text@.take(i as int),
                decreases text@.len() - i,
            {
                literal.push(text[i]);
                i += 1;
                assert(text@.take(i as int) == text@.take(i - 1).push(text@[i - 1]));
            }
            assert(text@.take(text@.len() as int) == text@);
            Some(Decimal { text: literal })
        } else {
            None
        }
    }

    /// The literal `-1.0`.
    pub fn minus_one() -> (literal: Decimal)
        ensures
            literal@ == seq!['-', '1', '.', '0'],
    {
        let mut text = String::new();
        text.push('-');
        text.push('1');
        text.push('.');
        text.push('0');
        proof {
            lemma_minus_one();
            assert(text@ == seq!['-', '1', '.', '0']);
        }
        Decimal { text }
    }

    /// The literal as text. It is a decimal.
    pub fn as_str(&self) -> (text: &str)
        ensures
            text@ == self@,
            is_decimal(self@),
    {
        proof {
            use_type_invariant(self);
        }
        self.text.as_str()
    }
}

/// `-1.0` is a decimal.
pub proof fn lemma_minus_one()
    ensures
        is_decimal(seq!['-', '1', '.', '0']),
{
    let text = seq!['-', '1', '.', '0'];
    let body = unsigned(text);
    assert(body == seq!['1', '.', '0']);
    reveal_with_fuel(first_in, 4);
    assert(first_in(body, set!['e', 'E']) == 3);
    let mantissa = body.take(3);
    assert(mantissa == body);
    assert(first_in(mantissa, set!['.']) == 1);
    assert(mantissa.take(1) == seq!['1']);
    assert(mantissa.skip(2) == seq!['0']);
}

} // verus!
