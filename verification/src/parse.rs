//! The parse of a `control` file as the analyses read it: paragraphs of
//! entries with their keys and spans, and the errors that the parser met.

use vstd::prelude::*;
use crate::position::byte_len;
use crate::position::TextRange;

verus! {

/// One `Field: value` record of a paragraph.
#[derive(Debug, PartialEq, Eq)]
pub struct Entry {
    /// The field name as it is written; a malformed entry may have none.
    pub key: Option<String>,
    /// The span of the whole entry. A key begins where its entry begins.
    pub range: TextRange,
}

/// An entry as a value of mathematics.
pub struct EntryView {
    pub key: Option<Seq<char>>,
    pub range: TextRange,
}

impl View for Entry {
    type V = EntryView;

    open spec fn view(&self) -> EntryView {
        EntryView {
            key: match self.key {
                Some(k) => Some(k@),
                None => None,
            },
            range: self.range,
        }
    }
}

impl EntryView {
    /// The entry's span is ordered and ends within `len` bytes, and its key
    /// is no longer than the entry.
    pub open spec fn within(self, len: int) -> bool {
        &&& self.range.within(len)
        &&& match self.key {
            Some(k) => byte_len(k) <= self.range.end - self.range.start,
            None => true,
        }
    }
}

impl Entry {
    pub fn new(key: Option<String>, start: u32, end: u32) -> (entry: Entry)
        ensures
            entry.key == key,
            entry.range == (TextRange { start, end }),
    {
        Entry { key, range: TextRange { start, end } }
    }
}

/// A run of entries between blank lines.
#[derive(Debug, PartialEq, Eq)]
pub struct Paragraph {
    pub entries: Vec<Entry>,
}

impl View for Paragraph {
    type V = Seq<EntryView>;

    open spec fn view(&self) -> Seq<EntryView> {
        self.entries@.map_values(|e: Entry| e@)
    }
}

impl Paragraph {
    pub fn new(entries: Vec<Entry>) -> (paragraph: Paragraph)
        ensures
            paragraph.entries == entries,
    {
        Paragraph { entries }
    }
}

/// Something that the parser could not accept, and where.
#[derive(Debug, PartialEq, Eq)]
pub struct PositionedError {
    pub message: String,
    pub range: Option<TextRange>,
}

/// A parse error as a value of mathematics.
pub struct PositionedErrorView {
    pub message: Seq<char>,
    pub range: Option<TextRange>,
}

impl View for PositionedError {
    type V = PositionedErrorView;

    open spec fn view(&self) -> PositionedErrorView {
        PositionedErrorView { message: self.message@, range: self.range }
    }
}

impl PositionedError {
    /// An error with a span.
    pub fn new(message: String, start: u32, end: u32) -> (error: PositionedError)
        ensures
            error.message == message,
            error.range == Some(TextRange { start, end }),
    {
        PositionedError { message, range: Some(TextRange { start, end }) }
    }
}

/// What parsing a document gives.
#[derive(Debug, PartialEq, Eq)]
pub struct ParsedControl {
    pub paragraphs: Vec<Paragraph>,
    pub errors: Vec<PositionedError>,
}

/// A parse as a value of mathematics.
pub struct ParsedControlView {
    pub paragraphs: Seq<Seq<EntryView>>,
    pub errors: Seq<PositionedErrorView>,
}

impl View for ParsedControl {
    type V = ParsedControlView;

    open spec fn view(&self) -> ParsedControlView {
        ParsedControlView {
            paragraphs: self.paragraphs@.map_values(|p: Paragraph| p@),
            errors: self.errors@.map_values(|e: PositionedError| e@),
        }
    }
}

impl ParsedControlView {
    /// Every span of the parse is ordered and ends within `len` bytes, and
    /// no key is longer than its entry.
    pub open spec fn within(self, len: int) -> bool {
        &&& forall|i: int, j: int|
            0 <= i < self.paragraphs.len() && 0 <= j < self.paragraphs[i].len()
                ==> (#[trigger] self.paragraphs[i][j]).within(len)
        &&& forall|k: int|
            0 <= k < self.errors.len() ==> match (#[trigger] self.errors[k]).range {
                Some(r) => r.within(len),
                None => true,
            }
    }

    /// Every span of the parse holds at least one byte.
    pub open spec fn spans_nonempty(self) -> bool {
        &&& forall|i: int, j: int|
            0 <= i < self.paragraphs.len() && 0 <= j < self.paragraphs[i].len() ==> (
            #[trigger] self.paragraphs[i][j]).range.start < self.paragraphs[i][j].range.end
        &&& forall|k: int|
            0 <= k < self.errors.len() ==> match (#[trigger] self.errors[k]).range {
                Some(r) => r.start < r.end,
                None => true,
            }
    }
}

/// The parse of `text` by the lossless parser of the `debian-control`
/// crate: the entries of each paragraph of the syntax tree, in order, each
/// with its key and its span, and the positioned errors, in order.
pub uninterp spec fn parsed_control(text: Seq<char>) -> ParsedControlView;

/// Parses the text of a `control` file. Calls `Control::parse` of
/// `debian_control::lossless` and reads the tree and the errors out of what
/// it returns. Trusted: the result is a function of the text alone; every
/// span that the parser reports lies within the text; and a key is the first
/// token of its entry, so that it is no longer than the entry.
#[verifier::external_body]
pub fn parse_control(text: &str) -> (parsed: ParsedControl)
    requires
        byte_len(text@) <= u32::MAX,
    ensures
        parsed@ == parsed_control(text@),
        parsed@.within(byte_len(text@) as int),
{
    let parse = debian_control::lossless::Control::parse(text);
    let tree = parse.tree();
    let paragraphs = tree.as_deb822().paragraphs().map(|p| {
        Paragraph::new(p.entries().map(|e| {
            Entry::new(e.key(), e.text_range().start().into(), e.text_range().end().into())
        }).collect())
    }).collect();
    let errors = parse.positioned_errors().iter().map(|e| {
        PositionedError::new(e.message.clone(), e.range.start().into(), e.range.end().into())
    }).collect();
    ParsedControl { paragraphs, errors }
}

}
