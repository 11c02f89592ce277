//! Rebuilding paragraphs from the lines of a scanned document.
//!
//! The lines of all pages are pushed in reading order. Lines that were only
//! wrapped are joined again, a word that was hyphenated at the end of a line
//! is put together, and a blank line is taken for the end of a paragraph, or
//! for the mere end of a page, by what stands before and after it.
use crate::page_number::{peel_trailing_page_num, peeled_number};
use crate::reconstruction::{
    ends_sentence, first_line_len, page_lines, paragraph_break, ReconstructorState,
};
use crate::text::{
    append_chars, from_chars, is_blank, is_trimmed, to_chars, trim_end_len, trimmed,
};
use vstd::prelude::*;

verus! {

/// Rebuilds the paragraphs of a document from its lines.
///
/// Push every line of every page with `push_line`, or every page with
/// `push_page`, in reading order, and call `finish` at the very end.
pub struct LineUnwrapper {
    /// The paragraph under construction.
    buf: Vec<char>,
    /// The paragraphs that are complete, each followed by a separator.
    out: Vec<char>,
    /// A blank line was seen, and the next line decides what it means.
    pending_blank: bool,
}

impl View for LineUnwrapper {
    type V = ReconstructorState;

    /// The state that the unwrapper is in.
    closed spec fn view(&self) -> ReconstructorState {
        ReconstructorState {
            paragraph_buffer: self.buf@,
            output: self.out@,
            pending_blank: self.pending_blank,
        }
    }
}

/// Whether a blank line between text that did or did not end a sentence and
/// a line that does or does not start in lowercase ends a paragraph.
pub fn is_paragraph_break(prev_ended_sentence: bool, this_starts_lower: bool) -> (r: bool)
    ensures
        r == paragraph_break(prev_ended_sentence, this_starts_lower),
{
    prev_ended_sentence || !this_starts_lower
}

/// Whether the last character of `text` that is not white space ends a
/// sentence.
pub fn buffer_ends_sentence(text: &[char]) -> (r: bool)
    ensures
        r == ends_sentence(text@),
{
    let n = trim_end_len(text);
    if n == 0 {
        false
    } else {
        let c = text[n - 1];
        c == '.' || c == '?' || c == '!'
    }
}

/// The number of characters of `text` before its first line feed.
fn line_len(text: &[char]) -> (n: usize)
    ensures
        n <= text.len(),
        n == first_line_len(text@),
{
    let mut n: usize = 0;
    assert(text@.skip(0) == text@);
    while n < text.len() && text[n] != '\n'
        invariant
            n <= text.len(),
            first_line_len(text@) == n + first_line_len(text@.skip(n as int)),
        decreases text.len() - n,
    {
        assert(text@.skip(n as int).drop_first() == text@.skip(n + 1));
        n += 1;
    }
    n
}

/// Completes the paragraph in `buf` where `ends_paragraph` says so, then
/// puts `line` on the paragraph under construction.
fn extend_paragraph(
    buf: &mut Vec<char>,
    out: &mut Vec<char>,
    ends_paragraph: bool,
    line: &[char],
)
    ensures
        ({
            let before = ReconstructorState {
                paragraph_buffer: old(buf)@,
                output: old(out)@,
                pending_blank: false,
            };
            let decided = if ends_paragraph {
                before.flush()
            } else {
                before
            };
            &&& final(buf)@ == decided.join(line@).paragraph_buffer
            &&& final(out)@ == decided.join(line@).output
        }),
{
    if ends_paragraph && buf.len() > 0 {
        let n = trim_end_len(buf.as_slice());
        append_chars(out, &buf.as_slice()[0..n]);
        out.push('\n');
        out.push('\n');
        buf.clear();
    }
    let len = buf.len();
    if len > 0 {
        if buf[len - 1] == '-' {
            buf.pop();
        } else {
            buf.push(' ');
        }
    }
    append_chars(buf, line);
}

impl LineUnwrapper {
    /// Every unwrapper is in a well-formed state.
    #[verifier::type_invariant]
    spec fn inv(self) -> bool {
        self@.wf()
    }

    /// A reconstruction before its first line.
    pub fn new() -> (r: Self)
        ensures
            r@ == ReconstructorState::initial(),
            r@.wf(),
    {
        LineUnwrapper { buf: Vec::new(), out: Vec::new(), pending_blank: false }
    }

    /// Pushes one line, of which the caller knows whether it starts, once
    /// trimmed, with a lowercase letter.
    pub fn push_classified(&mut self, raw: &[char], starts_lower: bool)
        ensures
            final(self)@ == old(self)@.push_classified(raw@, starts_lower),
            final(self)@.pending_blank == is_blank(raw@),
            final(self)@.wf(),
    {
        proof {
            use_type_invariant(&*self);
            ReconstructorState::lemma_push_classified_wf(self@, raw@, starts_lower);
        }
        let line = trimmed(raw);
        if line.len() == 0 {
            self.pending_blank = true;
        } else {
            let ends_paragraph = self.pending_blank && is_paragraph_break(
                buffer_ends_sentence(self.buf.as_slice()),
                starts_lower,
            );
            // Both texts leave `self` while they change, so that `self` is
            // well-formed at every step.
            let mut out: Vec<char> = Vec::new();
            let mut buf: Vec<char> = Vec::new();
            core::mem::swap(&mut self.out, &mut out);
            core::mem::swap(&mut self.buf, &mut buf);
            extend_paragraph(&mut buf, &mut out, ends_paragraph, line);
            *self = LineUnwrapper { buf, out, pending_blank: false };
        }
    }

    /// Pushes one line of the document: the text of the line, without the
    /// line feed that ended it.
    pub fn push_line(&mut self, raw: &str)
        ensures
            final(self)@ == old(self)@.push_line(raw@),
            final(self)@.pending_blank == is_blank(raw@),
            final(self)@.wf(),
    {
        let chars = to_chars(raw);
        self.push_chars(chars.as_slice());
    }

    /// Pushes one line, given by its characters.
    fn push_chars(&mut self, raw: &[char])
        ensures
            final(self)@ == old(self)@.push_line(raw@),
            final(self)@.wf(),
    {
        let line = trimmed(raw);
        let starts_lower = line.len() > 0 && line[0].is_lowercase();
        self.push_classified(raw, starts_lower);
    }

    /// Pushes the text of one page, line by line, and then a blank line
    /// that stands for the end of the page, so that the first line of the
    /// next page decides whether the paragraph goes on. With
    /// `extract_pagenum` the page number at the end of the page is taken off
    /// first, and returned.
    pub fn push_page(&mut self, text: &str, extract_pagenum: bool) -> (page_number: Option<u32>)
        ensures
            final(self)@ == old(self)@.push_page(text@, extract_pagenum),
            page_number == if extract_pagenum {
                peeled_number(text@)
            } else {
                None
            },
            final(self)@.pending_blank,
            final(self)@.wf(),
    {
        let (body, page_number) = if extract_pagenum {
            peel_trailing_page_num(text)
        } else {
            (text, None)
        };
        let chars = to_chars(body);
        let page = chars.as_slice();
        let mut start: usize = 0;
        assert(page@.skip(0) == page@);
        while start < page.len()
            invariant
                start <= page.len(),
                self@.push_lines(page_lines(page@.skip(start as int))) == old(self)@.push_lines(
                    page_lines(page@),
                ),
            decreases page.len() - start,
        {
            let rest = &page[start..page.len()];
            let n = line_len(rest);
            let ghost before = self@;
            self.push_chars(&rest[0..n]);
            proof {
                let lines = page_lines(rest@);
                if n < rest.len() {
                    assert(rest@.skip(n + 1) == page@.skip(start + n + 1));
                    assert(lines.drop_first() == page_lines(rest@.skip(n + 1)));
                } else {
                    assert(rest@.take(n as int) == rest@);
                }
                assert(before.push_lines(lines) == self@.push_lines(lines.drop_first()));
            }
            start = if n < rest.len() {
                start + n + 1
            } else {
                page.len()
            };
        }
        proof {
            use_type_invariant(&*self);
        }
        self.pending_blank = true;
        page_number
    }

    /// The text of the paragraph under construction.
    pub fn paragraph_buffer(&self) -> (text: String)
        ensures
            text@ == self@.paragraph_buffer,
    {
        from_chars(self.buf.as_slice())
    }

    /// The text of the complete paragraphs, each followed by a separator.
    pub fn output(&self) -> (text: String)
        ensures
            text@ == self@.output,
    {
        from_chars(self.out.as_slice())
    }

    /// Whether a blank line waits for the next line to decide what it means.
    pub fn pending_blank(&self) -> (pending: bool)
        ensures
            pending == self@.pending_blank,
    {
        self.pending_blank
    }

    /// Ends the reconstruction and returns the cleaned text: the paragraphs
    /// in order, a blank line between one and the next.
    pub fn finish(self) -> (doc: String)
        ensures
            doc@ == self@.finish(),
            is_trimmed(doc@),
    {
        proof {
            use_type_invariant(&self);
        }
        let mut doc = self.out;
        if self.buf.len() > 0 {
            let n = trim_end_len(self.buf.as_slice());
            append_chars(&mut doc, &self.buf.as_slice()[0..n]);
        }
        from_chars(doc.as_slice())
    }
}

} // verus!
