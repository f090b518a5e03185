//! Where the sections of a document start.

use crate::bytes::{contains, find, first_index, lemma_first_index};
use crate::text::{
    breaks_before, lemma_breaks_before_bound, lemma_breaks_before_monotonic, line_count, rope_char_to_line, rope_len_chars,
    rope_text,
};
use ropey::Rope;
use vstd::prelude::*;
use vstd::utf8::encode_utf8;

verus! {

/// The offset of each section marker of a document, where it has one. Only
/// the `[Asserts]` marker is looked for.
#[derive(Debug, Clone, Copy, PartialEq, Eq, Structural)]
pub struct HurlSectionPositions {
    pub request: Option<usize>,
    pub response: Option<usize>,
    pub query: Option<usize>,
    pub form: Option<usize>,
    pub multipart: Option<usize>,
    pub cookies: Option<usize>,
    pub capture: Option<usize>,
    pub asserts: Option<usize>,
    pub basic_auth: Option<usize>,
    pub options: Option<usize>,
}

/// The marker that opens the asserts section, as a line of its own:
/// `\n[Asserts]\n`.
pub open spec fn asserts_marker() -> Seq<u8> {
    seq![10u8, 91u8, 65u8, 115u8, 115u8, 101u8, 114u8, 116u8, 115u8, 93u8, 10u8]
}

/// The positions with no section found.
pub open spec fn no_sections() -> HurlSectionPositions {
    HurlSectionPositions {
        request: None,
        response: None,
        query: None,
        form: None,
        multipart: None,
        cookies: None,
        capture: None,
        asserts: None,
        basic_auth: None,
        options: None,
    }
}

/// The offset recorded for the asserts section of `text`: one past the
/// byte offset of the first marker, which is where `[Asserts]` itself
/// starts; nothing where the text has no marker.
pub open spec fn asserts_offset(text: Seq<char>) -> Option<usize> {
    if contains(encode_utf8(text), asserts_marker()) {
        Some((first_index(encode_utf8(text), asserts_marker()) + 1) as usize)
    } else {
        None
    }
}

/// The section positions of `text`.
pub open spec fn section_positions(text: Seq<char>) -> HurlSectionPositions {
    HurlSectionPositions { asserts: asserts_offset(text), ..no_sections() }
}

/// The line that an asserts offset stands on in `text`: the number of line
/// breaks before it. An offset beyond the end of the text stands on no line.
pub open spec fn marker_line(text: Seq<char>, asserts: Option<usize>) -> Option<nat> {
    match asserts {
        Some(offset) => if offset <= text.len() {
            Some(breaks_before(text, offset as int))
        } else {
            None
        },
        None => None,
    }
}

impl Default for HurlSectionPositions {
    fn default() -> (positions: Self)
        ensures
            positions == no_sections(),
    {
        HurlSectionPositions {
            request: None,
            response: None,
            query: None,
            form: None,
            multipart: None,
            cookies: None,
            capture: None,
            asserts: None,
            basic_auth: None,
            options: None,
        }
    }
}

impl HurlSectionPositions {
    /// Indexes the text `s`. The same text always gives the same positions.
    pub fn from_str(s: &str) -> (positions: Self)
        ensures
            positions == section_positions(s@),
    {
        let marker: [u8; 11] = [10, 91, 65, 115, 115, 101, 114, 116, 115, 93, 10];
        assert(marker@ =~= asserts_marker());
        let bytes = s.as_bytes();
        let length = bytes.len();
        let asserts = match find(bytes, marker.as_slice()) {
            Some(index) => {
                proof {
                    lemma_first_index(bytes@, asserts_marker(), index as int);
                    assert(asserts_marker().len() == 11);
                }
                Some(index + 1)
            },
            None => None,
        };
        HurlSectionPositions {
            request: None,
            response: None,
            query: None,
            form: None,
            multipart: None,
            cookies: None,
            capture: None,
            asserts,
            basic_auth: None,
            options: None,
        }
    }

    /// The line of `content` on which the asserts marker stands, where the
    /// document has one.
    pub fn asserts_line(&self, content: &Rope) -> (line: Option<usize>)
        ensures
            match marker_line(rope_text(*content), self.asserts) {
                Some(m) => line == Some(m as usize) && m <= usize::MAX && m < line_count(
                    rope_text(*content),
                ),
                None => line is None,
            },
    {
        match self.asserts {
            Some(offset) => if offset <= rope_len_chars(content) {
                let line = rope_char_to_line(content, offset);
                proof {
                    lemma_breaks_before_bound(rope_text(*content), offset as int);
                    lemma_breaks_before_monotonic(
                        rope_text(*content),
                        offset as int,
                        rope_text(*content).len() as int,
                    );
                }
                Some(line)
            } else {
                None
            },
            None => None,
        }
    }
}

} // verus!
