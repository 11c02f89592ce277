use pdf2epub::unwrapper::{buffer_ends_sentence, is_paragraph_break};
use pdf2epub::LineUnwrapper;

fn chars(s: &str) -> Vec<char> {
    s.chars().collect()
}

fn unwrap_lines(lines: &[&str]) -> String {
    let mut unwrapper = LineUnwrapper::new();
    for line in lines {
        unwrapper.push_line(line);
    }
    unwrapper.finish()
}

#[test]
fn hyphen_rejoin() {
    let mut unwrapper = LineUnwrapper::new();
    unwrapper.push_line("exam-");
    unwrapper.push_line("ple");
    assert_eq!(unwrapper.paragraph_buffer(), "example");
    assert_eq!(unwrapper.output(), "");
    assert_eq!(unwrapper.finish(), "example");
}

#[test]
fn hard_wrap_rejoin() {
    let mut unwrapper = LineUnwrapper::new();
    unwrapper.push_line("The quick brown");
    unwrapper.push_line("fox jumps.");
    assert_eq!(unwrapper.paragraph_buffer(), "The quick brown fox jumps.");
    assert_eq!(unwrapper.output(), "");
    assert_eq!(unwrapper.finish(), "The quick brown fox jumps.");
}

#[test]
fn page_boundary_artifact_suppressed() {
    let mut unwrapper = LineUnwrapper::new();
    unwrapper.push_line("the cat sat on");
    unwrapper.push_line("");
    unwrapper.push_line("the mat.");
    assert_eq!(unwrapper.output(), "");
    assert_eq!(unwrapper.finish(), "the cat sat on the mat.");
}

#[test]
fn genuine_paragraph_break_preserved() {
    let mut unwrapper = LineUnwrapper::new();
    unwrapper.push_line("The end.");
    unwrapper.push_line("");
    unwrapper.push_line("A new chapter begins.");
    assert_eq!(unwrapper.output(), "The end.\n\n");
    assert_eq!(unwrapper.paragraph_buffer(), "A new chapter begins.");
    assert_eq!(unwrapper.finish(), "The end.\n\nA new chapter begins.");
}

#[test]
fn finalization_flushes() {
    let mut unwrapper = LineUnwrapper::new();
    unwrapper.push_line("First paragraph.");
    unwrapper.push_line("");
    unwrapper.push_line("Second paragraph,");
    unwrapper.push_line("still going");
    assert_eq!(unwrapper.paragraph_buffer(), "Second paragraph, still going");
    assert_eq!(unwrapper.finish(), "First paragraph.\n\nSecond paragraph, still going");
}

#[test]
fn finalization_ignores_trailing_blank() {
    assert_eq!(unwrap_lines(&["Only line."]), "Only line.");
    assert_eq!(unwrap_lines(&["Only line.", ""]), "Only line.");
    assert_eq!(unwrap_lines(&["Only line.", "", "  ", "\t"]), "Only line.");
}

#[test]
fn empty_input() {
    assert_eq!(LineUnwrapper::new().finish(), "");
}

#[test]
fn new_unwrapper_is_empty() {
    let unwrapper = LineUnwrapper::new();
    assert_eq!(unwrapper.paragraph_buffer(), "");
    assert_eq!(unwrapper.output(), "");
    assert!(!unwrapper.pending_blank());
}

#[test]
fn all_blank_input() {
    assert_eq!(unwrap_lines(&["", "   ", "\t", "\u{a0}"]), "");
}

#[test]
fn no_blank_lines_gives_one_paragraph() {
    assert_eq!(unwrap_lines(&["One.", "Two.", "Three."]), "One. Two. Three.");
}

#[test]
fn lines_are_trimmed() {
    assert_eq!(unwrap_lines(&["  The quick   ", "\tbrown fox.\r"]), "The quick brown fox.");
}

#[test]
fn inner_white_space_is_kept() {
    assert_eq!(unwrap_lines(&["a  b", "c\td"]), "a  b c\td");
}

#[test]
fn pending_blank_follows_the_last_line() {
    let mut unwrapper = LineUnwrapper::new();
    unwrapper.push_line("text");
    assert!(!unwrapper.pending_blank());
    unwrapper.push_line("   ");
    assert!(unwrapper.pending_blank());
    assert_eq!(unwrapper.paragraph_buffer(), "text");
    unwrapper.push_line("");
    assert!(unwrapper.pending_blank());
    unwrapper.push_line("more");
    assert!(!unwrapper.pending_blank());
    assert_eq!(unwrapper.paragraph_buffer(), "text more");
}

#[test]
fn blank_before_first_line_breaks_nothing() {
    assert_eq!(unwrap_lines(&["", "Title", "goes on"]), "Title goes on");
    assert_eq!(unwrap_lines(&["", "lower start"]), "lower start");
}

#[test]
fn break_after_question_and_exclamation() {
    assert_eq!(unwrap_lines(&["Really?", "", "yes."]), "Really?\n\nyes.");
    assert_eq!(unwrap_lines(&["Stop!", "", "or not"]), "Stop!\n\nor not");
    assert_eq!(unwrap_lines(&["The end.", "", "and more"]), "The end.\n\nand more");
}

#[test]
fn break_before_uppercase_digit_and_punctuation() {
    assert_eq!(unwrap_lines(&["no period", "", "Upper"]), "no period\n\nUpper");
    assert_eq!(unwrap_lines(&["no period", "", "1. item"]), "no period\n\n1. item");
    assert_eq!(unwrap_lines(&["no period", "", "(aside)"]), "no period\n\n(aside)");
    assert_eq!(unwrap_lines(&["no period", "", "\u{201c}quote"]), "no period\n\n\u{201c}quote");
}

#[test]
fn no_break_after_other_punctuation_before_lowercase() {
    assert_eq!(unwrap_lines(&["a comma,", "", "goes on"]), "a comma, goes on");
    assert_eq!(unwrap_lines(&["a colon:", "", "goes on"]), "a colon: goes on");
    assert_eq!(unwrap_lines(&["a quote.\u{201d}", "", "goes on"]), "a quote.\u{201d} goes on");
}

#[test]
fn lowercase_is_that_of_unicode() {
    assert_eq!(unwrap_lines(&["mot", "", "\u{e9}lan"]), "mot \u{e9}lan");
    assert_eq!(unwrap_lines(&["mot", "", "\u{c9}lan"]), "mot\n\n\u{c9}lan");
    assert_eq!(unwrap_lines(&["word", "", "\u{3b4}elta"]), "word \u{3b4}elta");
    assert_eq!(unwrap_lines(&["word", "", "\u{394}elta"]), "word\n\n\u{394}elta");
    assert_eq!(unwrap_lines(&["word", "", "\u{4e2d}\u{6587}"]), "word\n\n\u{4e2d}\u{6587}");
}

#[test]
fn hyphen_rejoin_across_page_boundary() {
    assert_eq!(unwrap_lines(&["a hyphen-", "", "ated word"]), "a hyphenated word");
}

#[test]
fn hyphen_kept_before_paragraph_break() {
    assert_eq!(unwrap_lines(&["trailing -", "", "Next"]), "trailing -\n\nNext");
}

#[test]
fn single_hyphen_line_is_dropped_by_join() {
    let mut unwrapper = LineUnwrapper::new();
    unwrapper.push_line("-");
    unwrapper.push_line("word");
    assert_eq!(unwrapper.paragraph_buffer(), "word");
}

#[test]
fn only_one_hyphen_is_removed() {
    assert_eq!(unwrap_lines(&["dash--", "next"]), "dash-next");
}

#[test]
fn several_paragraphs() {
    let lines = [
        "Chapter 1",
        "",
        "It was a dark and stormy",
        "night; the rain fell in tor-",
        "rents.",
        "",
        "",
        "Except at occasional",
        "",
        "intervals.",
    ];
    assert_eq!(
        unwrap_lines(&lines),
        "Chapter 1\n\nIt was a dark and stormy night; the rain fell in torrents.\n\nExcept at occasional intervals."
    );
}

#[test]
fn output_has_no_separator_at_its_ends() {
    let text = unwrap_lines(&["", "", "One.", "", "Two.", "", ""]);
    assert_eq!(text, "One.\n\nTwo.");
    assert_eq!(text.trim(), text);
}

#[test]
fn push_classified_uses_the_given_class() {
    let mut unwrapper = LineUnwrapper::new();
    unwrapper.push_classified(&chars("no period"), false);
    unwrapper.push_classified(&chars(""), false);
    unwrapper.push_classified(&chars("  lower  "), true);
    assert_eq!(unwrapper.paragraph_buffer(), "no period lower");
    unwrapper.push_classified(&chars("\t"), true);
    assert!(unwrapper.pending_blank());
    unwrapper.push_classified(&chars("lower"), false);
    assert!(!unwrapper.pending_blank());
    assert_eq!(unwrapper.output(), "no period lower\n\n");
    assert_eq!(unwrapper.paragraph_buffer(), "lower");
    unwrapper.push_classified(&chars(" "), false);
    unwrapper.push_classified(&chars("Upper."), true);
    assert_eq!(unwrapper.paragraph_buffer(), "lower Upper.");
    unwrapper.push_classified(&chars(" "), false);
    unwrapper.push_classified(&chars("after period"), true);
    assert_eq!(unwrapper.finish(), "no period lower\n\nlower Upper.\n\nafter period");
}

#[test]
fn push_classified_ignores_class_without_pending_blank() {
    let mut unwrapper = LineUnwrapper::new();
    unwrapper.push_classified(&chars("The end."), false);
    unwrapper.push_classified(&chars("Next"), false);
    assert_eq!(unwrapper.finish(), "The end. Next");
}

#[test]
fn paragraph_break_rule() {
    assert!(is_paragraph_break(true, true));
    assert!(is_paragraph_break(true, false));
    assert!(is_paragraph_break(false, false));
    assert!(!is_paragraph_break(false, true));
}

#[test]
fn ends_sentence_looks_at_last_text_character() {
    assert!(buffer_ends_sentence(&chars("The end.")));
    assert!(buffer_ends_sentence(&chars("Why?  \n")));
    assert!(buffer_ends_sentence(&chars("!")));
    assert!(!buffer_ends_sentence(&chars("")));
    assert!(!buffer_ends_sentence(&chars("   ")));
    assert!(!buffer_ends_sentence(&chars("The end.\u{201d}")));
    assert!(!buffer_ends_sentence(&chars("a. b")));
    assert!(!buffer_ends_sentence(&chars("etc;")));
}

#[test]
fn push_page_pushes_each_line_and_a_page_break() {
    let mut unwrapper = LineUnwrapper::new();
    assert_eq!(unwrapper.push_page("The cat sat\non the", false), None);
    assert!(unwrapper.pending_blank());
    assert_eq!(unwrapper.paragraph_buffer(), "The cat sat on the");
    assert_eq!(unwrapper.push_page("mat. It purred.\n\nThen it slept.\n", false), None);
    assert_eq!(unwrapper.output(), "The cat sat on the mat. It purred.\n\n");
    assert_eq!(unwrapper.push_page("A new page.", false), None);
    assert_eq!(
        unwrapper.finish(),
        "The cat sat on the mat. It purred.\n\nThen it slept.\n\nA new page."
    );
}

#[test]
fn push_page_takes_page_number_off() {
    let mut unwrapper = LineUnwrapper::new();
    assert_eq!(unwrapper.push_page("Chapter One\n\nIt began\n\n42\n", true), Some(42));
    assert_eq!(unwrapper.push_page("slowly.\n\n43", true), Some(43));
    assert_eq!(unwrapper.push_page("No number here.\n", true), None);
    assert_eq!(unwrapper.finish(), "Chapter One\n\nIt began slowly.\n\nNo number here.");
}

#[test]
fn push_page_keeps_page_number_without_extraction() {
    let mut unwrapper = LineUnwrapper::new();
    assert_eq!(unwrapper.push_page("It began\n\n42\n", false), None);
    assert_eq!(unwrapper.finish(), "It began\n\n42");
}

#[test]
fn push_page_is_push_line_for_each_line() {
    let page = "  First line\nsecond line.\r\n\nThird-\nly.\n\n";
    let mut by_page = LineUnwrapper::new();
    by_page.push_page(page, false);
    let mut by_line = LineUnwrapper::new();
    for line in page.lines() {
        by_line.push_line(line);
    }
    by_line.push_line("");
    assert_eq!(by_page.paragraph_buffer(), by_line.paragraph_buffer());
    assert_eq!(by_page.output(), by_line.output());
    assert_eq!(by_page.pending_blank(), by_line.pending_blank());
    assert_eq!(by_page.finish(), "First line second line.\n\nThirdly.");
}

#[test]
fn push_page_of_empty_text_is_a_page_break() {
    let mut unwrapper = LineUnwrapper::new();
    unwrapper.push_line("text");
    assert_eq!(unwrapper.push_page("", true), None);
    assert!(unwrapper.pending_blank());
    assert_eq!(unwrapper.paragraph_buffer(), "text");
    assert_eq!(unwrapper.finish(), "text");
}

#[test]
fn push_page_of_single_number_keeps_it() {
    let mut unwrapper = LineUnwrapper::new();
    assert_eq!(unwrapper.push_page("42", true), None);
    assert_eq!(unwrapper.push_page("\n42", true), Some(42));
    assert_eq!(unwrapper.finish(), "42");
}
