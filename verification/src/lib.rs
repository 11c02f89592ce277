//! Rebuilds well-formed paragraphs from the text that character recognition
//! gives for the pages of a scanned document.
//!
//! The text of each page may lose the page number at its end
//! ([`peel_trailing_page_num`]); its lines go to a [`LineUnwrapper`], which
//! joins wrapped lines and hyphenated words and tells the end of a paragraph
//! from the end of a page; the cleaned text can be written as an XHTML
//! document ([`text_to_xhtml`]).
pub mod page_number;
pub mod reconstruction;
pub mod text;
pub mod unwrapper;
pub mod xhtml;

pub use page_number::peel_trailing_page_num;
pub use unwrapper::LineUnwrapper;
pub use xhtml::text_to_xhtml;
