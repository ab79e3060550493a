use llm_cli::error::IoError;
use llm_cli::prompt::{
    fill_placeholder, replace_all, resolve_prompt, strip_line_terminator, PromptFile, PLACEHOLDER,
};

fn some(text: &str) -> Option<String> {
    Some(text.to_string())
}

#[test]
fn a_carriage_return_goes_with_the_line_feed() {
    assert_eq!(strip_line_terminator("hello\r\n"), "hello");
}

#[test]
fn only_one_terminator_is_stripped() {
    assert_eq!(strip_line_terminator("hello\n\n"), "hello\n");
    assert_eq!(strip_line_terminator("hello\r\n\r\n"), "hello\r\n");
    assert_eq!(strip_line_terminator("hello\r\r\n"), "hello\r");
}

#[test]
fn text_without_terminator_is_unchanged() {
    assert_eq!(strip_line_terminator("hello"), "hello");
    assert_eq!(strip_line_terminator(""), "");
    assert_eq!(strip_line_terminator("hello\r"), "hello\r");
    assert_eq!(strip_line_terminator("hello\n "), "hello\n ");
}

#[test]
fn terminators_inside_the_text_stay() {
    assert_eq!(strip_line_terminator("a\r\nb\nc\n"), "a\r\nb\nc");
    assert_eq!(strip_line_terminator("\n"), "");
    assert_eq!(strip_line_terminator("\r\n"), "");
    assert_eq!(strip_line_terminator("gr\u{fc}\u{df}e\n"), "gr\u{fc}\u{df}e");
}

#[test]
fn the_placeholder_is_the_documented_one() {
    assert_eq!(PLACEHOLDER, "{{PROMPT}}");
}

#[test]
fn the_prompt_takes_the_place_of_the_placeholder() {
    assert_eq!(fill_placeholder("Q: {{PROMPT}}\nA:", "why?"), "Q: why?\nA:");
    assert_eq!(fill_placeholder("{{PROMPT}}", "x"), "x");
    assert_eq!(fill_placeholder("no placeholder", "x"), "no placeholder");
    assert_eq!(fill_placeholder("", "x"), "");
}

#[test]
fn every_placeholder_is_replaced() {
    assert_eq!(fill_placeholder("{{PROMPT}} and {{PROMPT}}", "it"), "it and it");
    assert_eq!(fill_placeholder("{{PROMPT}}{{PROMPT}}", "ab"), "abab");
    assert_eq!(fill_placeholder("{{{PROMPT}}}", "p"), "{p}");
    assert_eq!(fill_placeholder("{{PROMPT}", "p"), "{{PROMPT}");
    assert_eq!(fill_placeholder("a{{PROMPT}}b", "{{PROMPT}}"), "a{{PROMPT}}b");
}

#[test]
fn replace_all_agrees_with_the_standard_library() {
    for (text, mark, with) in [
        ("aaaa", "aa", "b"),
        ("aaa", "aa", "b"),
        ("abcabc", "bc", ""),
        ("abc", "", "x"),
        ("", "a", "x"),
        ("\u{e9}t\u{e9}", "t", "\u{df}"),
    ] {
        let expected = if mark.is_empty() { text.to_string() } else { text.replace(mark, with) };
        assert_eq!(replace_all(text, mark, with), expected);
    }
}

#[test]
fn a_file_with_a_prompt_is_filled() {
    assert_eq!(resolve_prompt(some("say {{PROMPT}}"), some("hi")), some("say hi"));
}

#[test]
fn a_file_without_a_prompt_is_taken_as_it_is() {
    assert_eq!(resolve_prompt(some("say {{PROMPT}}"), None), some("say {{PROMPT}}"));
    assert_eq!(resolve_prompt(some("fixed"), some("ignored")), some("fixed"));
}

#[test]
fn a_prompt_without_a_file_is_the_prompt() {
    assert_eq!(resolve_prompt(None, some("hi")), some("hi"));
    assert_eq!(resolve_prompt(None, None), None);
}

#[test]
fn contents_are_stripped() {
    let file = PromptFile { prompt_file: some("prompt.txt") };
    assert_eq!(file.contents(some("hello\r\n")), Ok(some("hello")));
    assert_eq!(file.contents(some("hello")), Ok(some("hello")));
}

#[test]
fn an_unreadable_prompt_file_is_an_error() {
    let file = PromptFile { prompt_file: some("prompt.txt") };
    assert_eq!(file.contents(None), Err(IoError::PromptFileUnreadable));
    assert_eq!(file.prompt(None, some("hi")), Err(IoError::PromptFileUnreadable));
}

#[test]
fn without_a_prompt_file_there_are_no_contents() {
    let file = PromptFile { prompt_file: None };
    assert_eq!(file.contents(None), Ok(None));
    assert_eq!(file.contents(some("left over")), Ok(None));
    assert_eq!(file.prompt(None, some("hi")), Ok(some("hi")));
    assert_eq!(file.prompt(None, None), Ok(None));
}

#[test]
fn the_final_prompt_is_the_filled_file() {
    let file = PromptFile { prompt_file: some("prompt.txt") };
    assert_eq!(file.prompt(some("Q: {{PROMPT}}\n"), some("why?")), Ok(some("Q: why?")));
    assert_eq!(file.prompt(some("Q: {{PROMPT}}\n\n"), None), Ok(some("Q: {{PROMPT}}\n")));
}
