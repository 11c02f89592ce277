//! What the reconstruction of paragraphs is: the state between two lines,
//! how a line changes it, and what holds of every state that lines lead to.
use crate::page_number::peeled_text;
use crate::text::{
    is_blank, is_trimmed, lemma_trim_end, lemma_trim_is_trimmed, lemma_trim_start, lowercase,
    trim, trim_end, trim_start, white_space,
};
use vstd::prelude::*;

verus! {

/// What the reconstruction holds between two lines.
pub struct ReconstructorState {
    /// The text of the paragraph that is being put together.
    pub paragraph_buffer: Seq<char>,
    /// The paragraphs that are complete, each followed by a separator.
    pub output: Seq<char>,
    /// A blank line was seen, and what it means is not decided yet.
    pub pending_blank: bool,
}

/// What stands between two paragraphs of the cleaned text: a blank line.
pub open spec fn paragraph_separator() -> Seq<char> {
    seq!['\n', '\n']
}

/// The characters that end a sentence.
pub open spec fn sentence_end(c: char) -> bool {
    c == '.' || c == '?' || c == '!'
}

/// Whether the last character of `text` that is not white space ends a
/// sentence.
pub open spec fn ends_sentence(text: Seq<char>) -> bool {
    trim_end(text).len() > 0 && sentence_end(trim_end(text).last())
}

/// Whether the first character of `line` is a lowercase letter.
pub open spec fn starts_lowercase(line: Seq<char>) -> bool {
    line.len() > 0 && lowercase(line.first())
}

/// A blank line ends a paragraph when the text before it ended a sentence,
/// or the text after it does not go on in lowercase.
pub open spec fn paragraph_break(prev_ended_sentence: bool, this_starts_lower: bool) -> bool {
    prev_ended_sentence || !this_starts_lower
}

/// The number of characters before the first line feed of `text`, or before
/// its end where it holds none.
pub open spec fn first_line_len(text: Seq<char>) -> int
    decreases text.len(),
{
    if text.len() == 0 || text.first() == '\n' {
        0
    } else {
        1 + first_line_len(text.drop_first())
    }
}

/// The lines of `text`. A line ends at a line feed; after the last line feed
/// comes one more line, unless nothing is left.
pub open spec fn page_lines(text: Seq<char>) -> Seq<Seq<char>>
    decreases text.len(),
{
    let n = first_line_len(text);
    if text.len() == 0 {
        Seq::empty()
    } else if 0 <= n < text.len() {
        seq![text.take(n)] + page_lines(text.skip(n + 1))
    } else {
        seq![text]
    }
}

/// No line feed stands in `text`.
pub open spec fn single_line(text: Seq<char>) -> bool {
    forall|i: int| 0 <= i < text.len() ==> #[trigger] text[i] != '\n'
}

impl ReconstructorState {
    /// The state before the first line.
    pub open spec fn initial() -> Self {
        ReconstructorState {
            paragraph_buffer: Seq::empty(),
            output: Seq::empty(),
            pending_blank: false,
        }
    }

    /// The paragraph under construction is complete: it goes to the output,
    /// followed by a separator. Nothing happens where there is none.
    pub open spec fn flush(self) -> Self {
        if self.paragraph_buffer.len() > 0 {
            ReconstructorState {
                paragraph_buffer: Seq::empty(),
                output: self.output + trim_end(self.paragraph_buffer) + paragraph_separator(),
                pending_blank: self.pending_blank,
            }
        } else {
            self
        }
    }

    /// `line` goes on the paragraph under construction: directly after a
    /// hyphen at its end, which is removed, and after one space otherwise.
    pub open spec fn join(self, line: Seq<char>) -> Self {
        let buffer = self.paragraph_buffer;
        ReconstructorState {
            paragraph_buffer: if buffer.len() == 0 {
                line
            } else if buffer.last() == '-' {
                buffer.drop_last() + line
            } else {
                buffer.push(' ') + line
            },
            output: self.output,
            pending_blank: self.pending_blank,
        }
    }

    /// A blank line was seen: the next line decides what it means.
    pub open spec fn blank_line(self) -> Self {
        ReconstructorState {
            paragraph_buffer: self.paragraph_buffer,
            output: self.output,
            pending_blank: true,
        }
    }

    /// The state after the line `raw`, where `starts_lower` tells whether
    /// the line, once trimmed, starts with a lowercase letter.
    pub open spec fn push_classified(self, raw: Seq<char>, starts_lower: bool) -> Self {
        let line = trim(raw);
        if line.len() == 0 {
            self.blank_line()
        } else {
            let decided = if self.pending_blank && paragraph_break(
                ends_sentence(self.paragraph_buffer),
                starts_lower,
            ) {
                self.flush()
            } else {
                self
            };
            let joined = decided.join(line);
            ReconstructorState {
                paragraph_buffer: joined.paragraph_buffer,
                output: joined.output,
                pending_blank: false,
            }
        }
    }

    /// The state after the line `raw`.
    pub open spec fn push_line(self, raw: Seq<char>) -> Self {
        self.push_classified(raw, starts_lowercase(trim(raw)))
    }

    /// The state after each of `lines`, in order.
    pub open spec fn push_lines(self, lines: Seq<Seq<char>>) -> Self
        decreases lines.len(),
    {
        if lines.len() == 0 {
            self
        } else {
            self.push_line(lines.first()).push_lines(lines.drop_first())
        }
    }

    /// The state after a page: after each of its lines, and a blank line
    /// that stands for the end of the page. With `extract_pagenum` the page
    /// number is taken off the text first.
    pub open spec fn push_page(self, text: Seq<char>, extract_pagenum: bool) -> Self {
        let body = if extract_pagenum {
            peeled_text(text)
        } else {
            text
        };
        self.push_lines(page_lines(body)).blank_line()
    }

    /// The cleaned text: the complete paragraphs, and the one under
    /// construction.
    pub open spec fn finish(self) -> Seq<char> {
        if self.paragraph_buffer.len() > 0 {
            self.output + trim_end(self.paragraph_buffer)
        } else {
            self.output
        }
    }

    /// What holds of every state that lines lead to: the paragraph under
    /// construction has no white space at its ends, and a separator never
    /// ends it; the output is empty, or it starts with text and ends with a
    /// separator, and a paragraph is then under construction.
    pub open spec fn wf(self) -> bool {
        &&& is_trimmed(self.paragraph_buffer)
        &&& self.output.len() > 0 ==> {
            &&& self.paragraph_buffer.len() > 0
            &&& !white_space(self.output.first())
            &&& paragraph_separator().is_suffix_of(self.output)
        }
    }
}

/// `first_line_len` is the place of the first line feed, or the length of
/// the text.
pub proof fn lemma_first_line_len(text: Seq<char>)
    ensures
        0 <= first_line_len(text) <= text.len(),
        first_line_len(text) < text.len() ==> text[first_line_len(text)] == '\n',
        single_line(text.take(first_line_len(text))),
    decreases text.len(),
{
    if text.len() > 0 && text.first() != '\n' {
        let rest = text.drop_first();
        lemma_first_line_len(rest);
        let n = first_line_len(text);
        assert forall|i: int| 0 <= i < n implies #[trigger] text.take(n)[i] != '\n' by {
            if i > 0 {
                assert(text.take(n)[i] == rest.take(n - 1)[i - 1]);
            }
        }
    }
}

/// No line of a page holds a line feed.
pub proof fn lemma_page_lines_single_line(text: Seq<char>)
    ensures
        forall|i: int| 0 <= i < page_lines(text).len() ==> single_line(#[trigger] page_lines(text)[i]),
    decreases text.len(),
{
    let n = first_line_len(text);
    let lines = page_lines(text);
    lemma_first_line_len(text);
    if text.len() > 0 {
        if n < text.len() {
            let rest = page_lines(text.skip(n + 1));
            lemma_page_lines_single_line(text.skip(n + 1));
            assert forall|i: int| 0 <= i < lines.len() implies single_line(#[trigger] lines[i]) by {
                if i > 0 {
                    assert(lines[i] == rest[i - 1]);
                }
            }
        } else {
            assert(text.take(n) == text);
        }
    }
}

impl ReconstructorState {
    /// A line leads from a well-formed state to a well-formed state.
    pub proof fn lemma_push_classified_wf(self, raw: Seq<char>, starts_lower: bool)
        requires
            self.wf(),
        ensures
            self.push_classified(raw, starts_lower).wf(),
    {
        let line = trim(raw);
        lemma_trim_is_trimmed(raw);
        if line.len() > 0 {
            let flushes = self.pending_blank && paragraph_break(
                ends_sentence(self.paragraph_buffer),
                starts_lower,
            );
            let decided = if flushes {
                self.flush()
            } else {
                self
            };
            if flushes && self.paragraph_buffer.len() > 0 {
                let out = decided.output;
                assert(out.first() == if self.output.len() > 0 {
                    self.output.first()
                } else {
                    self.paragraph_buffer.first()
                });
            }
        }
    }

    /// A line that follows text ending in a hyphen, with no blank line in
    /// between, goes directly where the hyphen was.
    pub proof fn lemma_hyphen_rejoin(self, raw: Seq<char>)
        requires
            self.paragraph_buffer.len() > 0,
            self.paragraph_buffer.last() == '-',
            !self.pending_blank,
            !is_blank(raw),
        ensures
            self.push_line(raw).paragraph_buffer == self.paragraph_buffer.drop_last() + trim(raw),
            self.push_line(raw).output == self.output,
    {
    }

    /// A line that follows text not ending in a hyphen, with no blank line
    /// in between, goes after that text and one space.
    pub proof fn lemma_hard_wrap_rejoin(self, raw: Seq<char>)
        requires
            self.paragraph_buffer.len() > 0,
            self.paragraph_buffer.last() != '-',
            !self.pending_blank,
            !is_blank(raw),
        ensures
            self.push_line(raw).paragraph_buffer == self.paragraph_buffer + seq![' '] + trim(raw),
            self.push_line(raw).output == self.output,
    {
    }

    /// A blank line between text that did not end a sentence and a line
    /// that starts in lowercase is the end of a page: all is as if it had not
    /// been there.
    pub proof fn lemma_page_boundary_blank(self, blank: Seq<char>, raw: Seq<char>)
        requires
            is_blank(blank),
            !is_blank(raw),
            !ends_sentence(self.paragraph_buffer),
            starts_lowercase(trim(raw)),
        ensures
            self.push_line(blank).push_line(raw) == self.push_line(raw),
            self.push_line(raw).output == self.output,
    {
    }

    /// A blank line after text that ended a sentence, or before a line that
    /// does not start in lowercase, ends the paragraph: the text so far goes
    /// to the output with a separator, and the line starts a new paragraph.
    pub proof fn lemma_paragraph_break(self, blank: Seq<char>, raw: Seq<char>)
        requires
            is_blank(blank),
            !is_blank(raw),
            ends_sentence(self.paragraph_buffer) || !starts_lowercase(trim(raw)),
            self.paragraph_buffer.len() > 0,
        ensures
            self.push_line(blank).push_line(raw) == (ReconstructorState {
                paragraph_buffer: trim(raw),
                output: self.output + trim_end(self.paragraph_buffer) + paragraph_separator(),
                pending_blank: false,
            }),
    {
    }

    /// The paragraph under construction of a well-formed state does not end
    /// with a separator.
    pub proof fn lemma_no_trailing_separator(self)
        requires
            self.wf(),
        ensures
            !paragraph_separator().is_suffix_of(self.paragraph_buffer),
    {
    }

    /// A line without a line feed leaves the paragraph under construction
    /// without a line feed: separators stand in the output only.
    pub proof fn lemma_push_line_single_line(self, raw: Seq<char>)
        requires
            single_line(self.paragraph_buffer),
            single_line(raw),
        ensures
            single_line(self.push_line(raw).paragraph_buffer),
    {
        lemma_trim_start(raw);
        lemma_trim_end(trim_start(raw));
    }

    /// The lines of a page leave the paragraph under construction without a
    /// line feed.
    pub proof fn lemma_push_lines_single_line(self, lines: Seq<Seq<char>>)
        requires
            single_line(self.paragraph_buffer),
            forall|i: int| 0 <= i < lines.len() ==> single_line(#[trigger] lines[i]),
        ensures
            single_line(self.push_lines(lines).paragraph_buffer),
        decreases lines.len(),
    {
        if lines.len() > 0 {
            self.lemma_push_line_single_line(lines.first());
            let rest = lines.drop_first();
            assert forall|i: int| 0 <= i < rest.len() implies single_line(#[trigger] rest[i]) by {
                assert(rest[i] == lines[i + 1]);
            }
            self.push_line(lines.first()).lemma_push_lines_single_line(rest);
        }
    }

    /// A page leaves the paragraph under construction without a line feed.
    pub proof fn lemma_push_page_single_line(self, text: Seq<char>, extract_pagenum: bool)
        requires
            single_line(self.paragraph_buffer),
        ensures
            single_line(self.push_page(text, extract_pagenum).paragraph_buffer),
    {
        let body = if extract_pagenum {
            peeled_text(text)
        } else {
            text
        };
        lemma_page_lines_single_line(body);
        self.lemma_push_lines_single_line(page_lines(body));
    }

    /// Lines lead from a well-formed state to a well-formed state.
    pub proof fn lemma_push_lines_wf(self, lines: Seq<Seq<char>>)
        requires
            self.wf(),
        ensures
            self.push_lines(lines).wf(),
        decreases lines.len(),
    {
        if lines.len() > 0 {
            let line = lines.first();
            self.lemma_push_classified_wf(line, starts_lowercase(trim(line)));
            self.push_line(line).lemma_push_lines_wf(lines.drop_first());
        }
    }

    /// A page leads from a well-formed state to a well-formed state.
    pub proof fn lemma_push_page_wf(self, text: Seq<char>, extract_pagenum: bool)
        requires
            self.wf(),
        ensures
            self.push_page(text, extract_pagenum).wf(),
    {
        let body = if extract_pagenum {
            peeled_text(text)
        } else {
            text
        };
        self.lemma_push_lines_wf(page_lines(body));
    }

    /// Pushing all of `first` and then all of `rest` is pushing the lines of
    /// both in one go.
    pub proof fn lemma_push_lines_concat(self, first: Seq<Seq<char>>, rest: Seq<Seq<char>>)
        ensures
            self.push_lines(first + rest) == self.push_lines(first).push_lines(rest),
        decreases first.len(),
    {
        if first.len() > 0 {
            assert((first + rest).drop_first() == first.drop_first() + rest);
            self.push_line(first.first()).lemma_push_lines_concat(first.drop_first(), rest);
        }
    }

    /// The last line that was pushed is the one that was pushed last.
    pub proof fn lemma_push_lines_last(self, lines: Seq<Seq<char>>)
        requires
            lines.len() > 0,
        ensures
            self.push_lines(lines) == self.push_lines(lines.drop_last()).push_line(lines.last()),
    {
        let last = seq![lines.last()];
        assert(lines == lines.drop_last() + last);
        self.lemma_push_lines_concat(lines.drop_last(), last);
        let before = self.push_lines(lines.drop_last());
        assert(before.push_lines(last) == before.push_line(lines.last()).push_lines(
            last.drop_first(),
        ));
    }

    /// A document of no lines is empty.
    pub proof fn lemma_empty_document()
        ensures
            ReconstructorState::initial().wf(),
            ReconstructorState::initial().finish() == Seq::<char>::empty(),
    {
    }

    /// After lines of which the last is not blank, the paragraph under
    /// construction is not empty and ends with the text of that line, and
    /// the cleaned text ends with this paragraph. A blank line more would
    /// not change the cleaned text.
    pub proof fn lemma_finish_flushes(lines: Seq<Seq<char>>, blank: Seq<char>)
        requires
            lines.len() > 0,
            !is_blank(lines.last()),
            is_blank(blank),
        ensures
            ({
                let state = ReconstructorState::initial().push_lines(lines);
                &&& state.paragraph_buffer.len() > 0
                &&& trim(lines.last()).is_suffix_of(state.paragraph_buffer)
                &&& state.finish() == state.output + state.paragraph_buffer
                &&& state.push_line(blank).finish() == state.finish()
            }),
    {
        let start = ReconstructorState::initial();
        start.lemma_push_lines_last(lines);
        start.lemma_push_lines_wf(lines);
    }

    /// The cleaned text of a well-formed state has no white space at its
    /// ends: no separator comes before the first paragraph or after the last.
    pub proof fn lemma_finish_is_trimmed(self)
        requires
            self.wf(),
        ensures
            is_trimmed(self.finish()),
            self.finish() == self.output + self.paragraph_buffer,
    {
    }
}

} // verus!
