//! The prompt: where its text comes from, and what is done to it on the way.

use crate::error::IoError;
use crate::text::{chars_of, chars_of_option, push_chars, text_of};
use vstd::prelude::*;

verus! {

/// The placeholder that a prompt file holds where the prompt of the command
/// line belongs.
pub const PLACEHOLDER: &'static str = "{{PROMPT}}";

/// The characters of the placeholder.
pub open spec fn placeholder() -> Seq<char> {
    "{{PROMPT}}"@
}

/// `text` without its last line terminator: a line feed at the very end goes,
/// and with it the carriage return before it, if there is one. Nothing else
/// is touched.
pub open spec fn without_line_terminator(text: Seq<char>) -> Seq<char> {
    if text.len() >= 1 && text.last() == '\n' {
        let line = text.drop_last();
        if line.len() >= 1 && line.last() == '\r' {
            line.drop_last()
        } else {
            line
        }
    } else {
        text
    }
}

/// Stripping takes nothing but one line terminator off the end: what is left
/// is the beginning of the text, and what went is a line feed, with or
/// without a carriage return before it, or nothing.
pub proof fn lemma_strips_one_terminator(text: Seq<char>)
    ensures
        without_line_terminator(text).len() <= text.len(),
        without_line_terminator(text) == text.take(without_line_terminator(text).len() as int),
        text.skip(without_line_terminator(text).len() as int) == Seq::<char>::empty() || text.skip(
            without_line_terminator(text).len() as int,
        ) == seq!['\n'] || text.skip(without_line_terminator(text).len() as int) == seq![
            '\r',
            '\n',
        ],
{
    let kept = without_line_terminator(text);
    if text.len() >= 1 && text.last() == '\n' {
        let line = text.drop_last();
        if line.len() >= 1 && line.last() == '\r' {
            assert(kept == text.take(text.len() - 2));
            assert(text.skip(text.len() - 2) == seq!['\r', '\n']);
        } else {
            assert(kept == text.take(text.len() - 1));
            assert(text.skip(text.len() - 1) == seq!['\n']);
        }
    } else {
        assert(kept == text.take(text.len() as int));
        assert(text.skip(text.len() as int) == Seq::<char>::empty());
    }
}

/// `text` with every occurrence of `mark` replaced by `with`. Occurrences are
/// found from the left and do not overlap. An empty `mark` occurs nowhere.
pub open spec fn replaced(text: Seq<char>, mark: Seq<char>, with: Seq<char>) -> Seq<char>
    decreases text.len(),
{
    if mark.len() == 0 || text.len() < mark.len() {
        text
    } else if text.take(mark.len() as int) == mark {
        with + replaced(text.skip(mark.len() as int), mark, with)
    } else {
        seq![text[0]] + replaced(text.skip(1), mark, with)
    }
}

/// Whether `mark` stands in `text` at `at`.
pub open spec fn occurs_at(text: Seq<char>, mark: Seq<char>, at: int) -> bool {
    0 <= at && at + mark.len() <= text.len() && text.subrange(at, at + mark.len()) == mark
}

/// A text in which `mark` stands nowhere is left as it is.
pub proof fn lemma_replaced_without_mark(text: Seq<char>, mark: Seq<char>, with: Seq<char>)
    requires
        forall|at: int| !occurs_at(text, mark, at),
    ensures
        replaced(text, mark, with) == text,
    decreases text.len(),
{
    if mark.len() == 0 || text.len() < mark.len() {
    } else {
        assert(!occurs_at(text, mark, 0));
        assert(text.take(mark.len() as int) == text.subrange(0, 0int + mark.len()));
        let rest = text.skip(1);
        assert forall|at: int| !occurs_at(rest, mark, at) by {
            assert(!occurs_at(text, mark, at + 1));
            if 0 <= at && at + mark.len() <= rest.len() {
                assert(rest.subrange(at, at + mark.len()) == text.subrange(
                    at + 1,
                    at + 1 + mark.len(),
                ));
            }
        }
        lemma_replaced_without_mark(rest, mark, with);
        assert(seq![text[0]] + rest == text);
    }
}

/// The final prompt, from what the prompt file holds and what the command
/// line gave. A file's text is the prompt, with the command line's prompt in
/// the place of each placeholder; without a file, the command line's prompt is
/// the prompt; without either, there is none.
pub open spec fn resolved_prompt(file: Option<Seq<char>>, prompt: Option<Seq<char>>) -> Option<
    Seq<char>,
> {
    match (file, prompt) {
        (Some(template), Some(prompt)) => Some(replaced(template, placeholder(), prompt)),
        (Some(template), None) => Some(template),
        (None, Some(prompt)) => Some(prompt),
        (None, None) => None,
    }
}

/// Strips the last line terminator off a text.
pub fn strip_line_terminator(text: &str) -> (stripped: String)
    ensures
        stripped@ == without_line_terminator(text@),
{
    let chars = chars_of(text);
    let mut end: usize = chars.len();
    if end >= 1 && chars[end - 1] == '\n' {
        end -= 1;
        if end >= 1 && chars[end - 1] == '\r' {
            end -= 1;
        }
    }
    proof {
        let all = chars@;
        assert(all.subrange(0, all.len() as int) == all);
        if all.len() >= 1 {
            assert(all.drop_last() == all.subrange(0, all.len() - 1));
            if all.len() >= 2 {
                assert(all.drop_last().drop_last() == all.subrange(0, all.len() - 2));
            }
        }
    }
    text_of(&chars, 0, end)
}

/// Whether `mark` stands in `text` at `at`.
fn stands_at(text: &Vec<char>, at: usize, mark: &Vec<char>) -> (found: bool)
    requires
        at + mark.len() <= text.len(),
    ensures
        found == (text@.subrange(at as int, at + mark.len()) == mark@),
{
    let mut k: usize = 0;
    while k < mark.len()
        invariant
            0 <= k <= mark.len(),
            at + mark.len() <= text.len(),
            text@.subrange(at as int, at + k) == mark@.take(k as int),
        decreases mark.len() - k,
    {
        if text[at + k] != mark[k] {
            assert(text@.subrange(at as int, at + mark.len())[k as int] != mark@[k as int]);
            return false;
        }
        k += 1;
        assert(text@.subrange(at as int, at + k) == text@.subrange(at as int, at + k - 1).push(
            text@[at + k - 1],
        ));
        assert(mark@.take(k as int) == mark@.take(k - 1).push(mark@[k - 1]));
    }
    assert(mark@.take(mark.len() as int) == mark@);
    true
}

/// Replaces every occurrence of `mark` in `text` by `with`.
pub fn replace_all(text: &str, mark: &str, with: &str) -> (out: String)
    ensures
        out@ == replaced(text@, mark@, with@),
{
    let text = chars_of(text);
    let mark = chars_of(mark);
    let with = chars_of(with);
    let mut out = String::new();
    if mark.len() == 0 {
        push_chars(&mut out, &text, 0, text.len());
        assert(text@.subrange(0, text@.len() as int) == text@);
        return out;
    }
    let mut i: usize = 0;
    assert(text@.skip(0) == text@);
    while i < text.len()
        invariant
            0 <= i <= text.len(),
            mark.len() > 0,
            out@ + replaced(text@.skip(i as int), mark@, with@) == replaced(text@, mark@, with@),
        decreases text.len() - i,
    {
        let ghost rest = text@.skip(i as int);
        if mark.len() <= text.len() - i && stands_at(&text, i, &mark) {
            assert(rest.take(mark.len() as int) == text@.subrange(i as int, i + mark.len()));
            assert(rest.skip(mark.len() as int) == text@.skip(i + mark.len()));
            let ghost before = out@;
            push_chars(&mut out, &with, 0, with.len());
            assert(with@.subrange(0, with@.len() as int) == with@);
            assert(before + (with@ + replaced(rest.skip(mark.len() as int), mark@, with@)) == out@
                + replaced(rest.skip(mark.len() as int), mark@, with@));
            i += mark.len();
        } else {
            if mark.len() <= text.len() - i {
                assert(rest.take(mark.len() as int) == text@.subrange(i as int, i + mark.len()));
            }
            assert(rest.skip(1) == text@.skip(i + 1));
            assert(rest[0] == text@[i as int]);
            assert(rest.len() < mark.len() ==> replaced(rest, mark@, with@) == seq![rest[0]]
                + replaced(rest.skip(1), mark@, with@)) by {
                if rest.len() < mark.len() {
                    assert(rest == seq![rest[0]] + rest.skip(1));
                }
            }
            let ghost before = out@;
            out.push(text[i]);
            assert(before + (seq![rest[0]] + replaced(rest.skip(1), mark@, with@)) == out@
                + replaced(rest.skip(1), mark@, with@));
            i += 1;
        }
    }
    assert(text@.skip(text@.len() as int).len() == 0);
    out
}

/// Puts `prompt` in the place of each placeholder of `template`.
pub fn fill_placeholder(template: &str, prompt: &str) -> (out: String)
    ensures
        out@ == replaced(template@, placeholder(), prompt@),
{
    replace_all(template, PLACEHOLDER, prompt)
}

/// The final prompt, from the contents of the prompt file, if one was given,
/// and the prompt of the command line, if one was given.
pub fn resolve_prompt(file: Option<String>, prompt: Option<String>) -> (out: Option<String>)
    ensures
        chars_of_option(out) == resolved_prompt(chars_of_option(file), chars_of_option(prompt)),
{
    match (file, prompt) {
        (Some(template), Some(prompt)) => Some(fill_placeholder(template.as_str(), prompt.as_str())),
        (Some(template), None) => Some(template),
        (None, Some(prompt)) => Some(prompt),
        (None, None) => None,
    }
}

/// The prompt file of the command line.
#[derive(Debug)]
pub struct PromptFile {
    /// A file to read the prompt from.
    pub prompt_file: Option<String>,
}

impl PromptFile {
    /// What `contents` gives for what was read from the file: `read` is the
    /// file's text, or `None` where the file could not be read as text.
    pub open spec fn contents_of(self, read: Option<Seq<char>>) -> Result<
        Option<Seq<char>>,
        IoError,
    > {
        match (self.prompt_file, read) {
            (None, _) => Ok(None),
            (Some(_), None) => Err(IoError::PromptFileUnreadable),
            (Some(_), Some(text)) => Ok(Some(without_line_terminator(text))),
        }
    }

    /// The contents of the prompt file, without the line terminator at their
    /// end. `read` is what reading the file as text gave: its text, or `None`
    /// where that failed. Without a prompt file there are no contents, whatever
    /// `read` is; a file that could not be read is an error.
    pub fn contents(&self, read: Option<String>) -> (out: Result<Option<String>, IoError>)
        ensures
            match self.contents_of(chars_of_option(read)) {
                Ok(text) => out matches Ok(stripped) && chars_of_option(stripped) == text,
                Err(error) => out == Err::<Option<String>, IoError>(error),
            },
    {
        match (&self.prompt_file, read) {
            (None, _) => Ok(None),
            (Some(_), None) => Err(IoError::PromptFileUnreadable),
            (Some(_), Some(text)) => Ok(Some(strip_line_terminator(text.as_str()))),
        }
    }

    /// The final prompt of an invocation with this prompt file, for what was
    /// read from the file and for the prompt of the command line: the prompt
    /// that the file's contents and the command line's prompt resolve to, or
    /// the failure to read the file.
    pub open spec fn prompt_of(self, read: Option<Seq<char>>, prompt: Option<Seq<char>>) -> Result<
        Option<Seq<char>>,
        IoError,
    > {
        match self.contents_of(read) {
            Ok(contents) => Ok(resolved_prompt(contents, prompt)),
            Err(error) => Err(error),
        }
    }

    /// The final prompt of an invocation. `read` is what reading the prompt
    /// file as text gave, `prompt` the prompt of the command line.
    pub fn prompt(&self, read: Option<String>, prompt: Option<String>) -> (out: Result<
        Option<String>,
        IoError,
    >)
        ensures
            match self.prompt_of(chars_of_option(read), chars_of_option(prompt)) {
                Ok(text) => out matches Ok(resolved) && chars_of_option(resolved) == text,
                Err(error) => out == Err::<Option<String>, IoError>(error),
            },
    {
        match self.contents(read) {
            Ok(contents) => Ok(resolve_prompt(contents, prompt)),
            Err(error) => Err(error),
        }
    }
}

} // verus!
