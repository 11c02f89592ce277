//! The cleaned text as an XHTML document: one `p` element for each paragraph.
use crate::text::{from_chars, to_chars};
use vstd::prelude::*;

verus! {

/// What stands for `c` in the text of an element: an entity for `&`, `<` and
/// `>`, and `c` itself otherwise.
pub open spec fn escape_char(c: char) -> Seq<char> {
    if c == '&' {
        seq!['&', 'a', 'm', 'p', ';']
    } else if c == '<' {
        seq!['&', 'l', 't', ';']
    } else if c == '>' {
        seq!['&', 'g', 't', ';']
    } else {
        seq![c]
    }
}

/// `text` with each of its characters escaped.
pub open spec fn escape_text(text: Seq<char>) -> Seq<char>
    decreases text.len(),
{
    if text.len() == 0 {
        Seq::empty()
    } else {
        escape_text(text.drop_last()) + escape_char(text.last())
    }
}

/// The number of characters of `body` before its first paragraph separator,
/// two line feeds in a row, or before its end where it holds none.
pub open spec fn first_paragraph_len(body: Seq<char>) -> int
    decreases body.len(),
{
    if body.len() < 2 {
        body.len() as int
    } else if body[0] == '\n' && body[1] == '\n' {
        0
    } else {
        1 + first_paragraph_len(body.drop_first())
    }
}

/// The paragraphs of `body`: what stands before, between and after its
/// separators, taken from left to right. A body without a separator is one
/// paragraph, an empty one too.
pub open spec fn split_paragraphs(body: Seq<char>) -> Seq<Seq<char>>
    decreases body.len(),
{
    let n = first_paragraph_len(body);
    if 0 <= n && n + 2 <= body.len() {
        seq![body.take(n)] + split_paragraphs(body.skip(n + 2))
    } else {
        seq![body]
    }
}

/// A paragraph as a `p` element.
pub open spec fn paragraph_markup(paragraph: Seq<char>) -> Seq<char> {
    "<p>"@ + escape_text(paragraph) + "</p>"@
}

/// The elements of `paragraphs`, one after the other.
pub open spec fn body_markup(paragraphs: Seq<Seq<char>>) -> Seq<char>
    decreases paragraphs.len(),
{
    if paragraphs.len() == 0 {
        Seq::empty()
    } else {
        paragraph_markup(paragraphs.first()) + body_markup(paragraphs.drop_first())
    }
}

/// The document with the title `title` and the paragraphs of `body`.
pub open spec fn xhtml_document(title: Seq<char>, body: Seq<char>) -> Seq<char> {
    "<?xml version=\"1.0\" encoding=\"utf-8\"?>\n           <html xmlns=\"http://www.w3.org/1999/xhtml\">\n             <head><title>"@
        + escape_text(title) + "</title></head>\n             <body>"@ + body_markup(
        split_paragraphs(body),
    ) + "</body>\n           </html>"@
}

/// `first_paragraph_len` is the place of a separator, or the length of the
/// body.
pub proof fn lemma_first_paragraph_len(body: Seq<char>)
    ensures
        0 <= first_paragraph_len(body) <= body.len(),
        first_paragraph_len(body) + 2 <= body.len() || first_paragraph_len(body) == body.len(),
        first_paragraph_len(body) + 2 <= body.len() ==> {
            &&& body[first_paragraph_len(body)] == '\n'
            &&& body[first_paragraph_len(body) + 1] == '\n'
        },
    decreases body.len(),
{
    if body.len() >= 2 && !(body[0] == '\n' && body[1] == '\n') {
        lemma_first_paragraph_len(body.drop_first());
    }
}

/// `html_escape::encode_text` gives the text with every `&`, `<` and `>`
/// replaced by `&amp;`, `&lt;` and `&gt;`, and every other character kept.
#[verifier::external_body]
fn encode_text(text: &str) -> (escaped: String)
    ensures
        escaped@ == escape_text(text@),
{
    html_escape::encode_text(text).into_owned()
}

/// The number of characters of `body` before its first paragraph separator.
fn paragraph_len(body: &[char]) -> (n: usize)
    ensures
        n <= body.len(),
        n == first_paragraph_len(body@),
{
    let mut n: usize = 0;
    assert(body@.skip(0) == body@);
    while body.len() - n >= 2 && !(body[n] == '\n' && body[n + 1] == '\n')
        invariant
            n <= body.len(),
            first_paragraph_len(body@) == n + first_paragraph_len(body@.skip(n as int)),
        decreases body.len() - n,
    {
        assert(body@.skip(n as int).drop_first() == body@.skip(n + 1));
        n += 1;
    }
    if body.len() - n < 2 {
        body.len()
    } else {
        n
    }
}

/// The `p` elements of the paragraphs of `body`.
fn paragraphs_to_markup(body: &[char]) -> (markup: String)
    ensures
        markup@ == body_markup(split_paragraphs(body@)),
{
    let mut markup = String::new();
    let mut start: usize = 0;
    let mut more = true;
    assert(body@.skip(0) == body@);
    while more
        invariant
            start <= body.len(),
            more ==> markup@ + body_markup(split_paragraphs(body@.skip(start as int)))
                == body_markup(split_paragraphs(body@)),
            !more ==> markup@ == body_markup(split_paragraphs(body@)),
        decreases body.len() - start + (if more { 1int } else { 0int }),
    {
        let rest = &body[start..body.len()];
        let n = paragraph_len(rest);
        let paragraph = from_chars(&rest[0..n]);
        let escaped = encode_text(paragraph.as_str());
        markup.append("<p>");
        markup.append(escaped.as_str());
        markup.append("</p>");
        proof {
            let paragraphs = split_paragraphs(rest@);
            lemma_first_paragraph_len(rest@);
            assert(paragraphs.first() == rest@.take(n as int));
            if n + 2 <= rest.len() {
                assert(rest@.skip(n + 2) == body@.skip(start + n + 2));
                assert(paragraphs.drop_first() == split_paragraphs(rest@.skip(n + 2)));
            }
            assert(body_markup(paragraphs) == paragraph_markup(paragraphs.first()) + body_markup(
                paragraphs.drop_first(),
            ));
        }
        if rest.len() - n >= 2 {
            start = start + n + 2;
        } else {
            more = false;
        }
    }
    markup
}

/// Writes the cleaned text `body` as an XHTML document with the title
/// `title`. Each paragraph of the body becomes a `p` element; the title and
/// the paragraphs are escaped.
pub fn text_to_xhtml(title: &str, body: &str) -> (document: String)
    ensures
        document@ == xhtml_document(title@, body@),
{
    let chars = to_chars(body);
    let paras = paragraphs_to_markup(chars.as_slice());
    let mut document = String::from_str(
        "<?xml version=\"1.0\" encoding=\"utf-8\"?>\n           <html xmlns=\"http://www.w3.org/1999/xhtml\">\n             <head><title>",
    );
    document.append(encode_text(title).as_str());
    document.append("</title></head>\n             <body>");
    document.append(paras.as_str());
    document.append("</body>\n           </html>");
    document
}

} // verus!
