//! Text as sequences of characters.

use vstd::prelude::*;
use vstd::std_specs::iter::IteratorSpec;

verus! {

/// The characters of a text that may be absent.
pub open spec fn chars_of_option(text: Option<String>) -> Option<Seq<char>> {
    match text {
        Some(text) => Some(text@),
        None => None,
    }
}

/// The characters of a text, in order.
pub(crate) fn chars_of(text: &str) -> (chars: Vec<char>)
    ensures
        chars@ == text@,
{
    let mut chars: Vec<char> = Vec::new();
    for c in it: text.chars()
        invariant
            it.seq() == text@,
            chars@ == it.seq().take(it.index()),
    {
        chars.push(c);
    }
    chars
}

/// Appends the characters `chars[from..to]` to `text`.
pub(crate) fn push_chars(text: &mut String, chars: &Vec<char>, from: usize, to: usize)
    requires
        from <= to <= chars.len(),
    ensures
        final(text)@ == old(text)@ + chars@.subrange(from as int, to as int),
{
    let mut i: usize = from;
    while i < to
        invariant
            from <= i <= to <= chars.len(),
            text@ == old(text)@ + chars@.subrange(from as int, i as int),
        decreases to - i,
    {
        text.push(chars[i]);
        i += 1;
        assert(chars@.subrange(from as int, i as int) == chars@.subrange(from as int, i - 1).push(
            chars@[i - 1],
        ));
    }
}

/// Appends `more` to `text`.
pub(crate) fn push_text(text: &mut String, more: &str)
    ensures
        final(text)@ == old(text)@ + more@,
{
    let chars = chars_of(more);
    push_chars(text, &chars, 0, chars.len());
    assert(chars@.subrange(0, chars@.len() as int) == chars@);
}

/// The text made of the characters `chars[from..to]`.
pub(crate) fn text_of(chars: &Vec<char>, from: usize, to: usize) -> (text: String)
    requires
        from <= to <= chars.len(),
    ensures
        text@ == chars@.subrange(from as int, to as int),
{
    let mut text = String::new();
    push_chars(&mut text, chars, from, to);
    text
}

/// Where the first character of `text` that is one of `marks` stands, or the
/// length of `text` where none is.
pub open spec fn first_in(text: Seq<char>, marks: Set<char>) -> int
    decreases text.len(),
{
    if text.len() == 0 || marks.contains(text[0]) {
        0
    } else {
        1 + first_in(text.skip(1), marks)
    }
}

/// `first_in` is the least index at which one of `marks` stands.
pub proof fn lemma_first_in(text: Seq<char>, marks: Set<char>)
    ensures
        0 <= first_in(text, marks) <= text.len(),
        forall|i: int| 0 <= i < first_in(text, marks) ==> !marks.contains(#[trigger] text[i]),
        first_in(text, marks) < text.len() ==> marks.contains(text[first_in(text, marks)]),
    decreases text.len(),
{
    if text.len() == 0 || marks.contains(text[0]) {
    } else {
        let rest = text.skip(1);
        lemma_first_in(rest, marks);
        assert forall|i: int| 0 <= i < first_in(text, marks) implies !marks.contains(
            #[trigger] text[i],
        ) by {
            if i > 0 {
                assert(text[i] == rest[i - 1]);
            }
        }
    }
}

/// An index at which one of `marks` stands, with none before it, is
/// `first_in`; so is the length of a text that holds none.
pub proof fn lemma_first_in_is(text: Seq<char>, marks: Set<char>, at: int)
    requires
        0 <= at <= text.len(),
        forall|i: int| 0 <= i < at ==> !marks.contains(#[trigger] text[i]),
        at < text.len() ==> marks.contains(text[at]),
    ensures
        first_in(text, marks) == at,
{
    lemma_first_in(text, marks);
    let found = first_in(text, marks);
    if found < at {
        assert(!marks.contains(text[found]));
    }
}

/// Finds the first character of `text` that is `a` or `b`.
pub(crate) fn find_first(text: &[char], a: char, b: char) -> (at: usize)
    ensures
        at == first_in(text@, set![a, b]),
        at <= text@.len(),
{
    let mut at: usize = 0;
    while at < text.len() && text[at] != a && text[at] != b
        invariant
            0 <= at <= text@.len(),
            forall|i: int| 0 <= i < at ==> !set![a, b].contains(#[trigger] text@[i]),
        decreases text@.len() - at,
    {
        at += 1;
    }
    proof {
        lemma_first_in_is(text@, set![a, b], at as int);
    }
    at
}

} // verus!
