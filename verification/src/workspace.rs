//! The store of open documents. Each document is kept with its text and the
//! parse of that text, so that every query is answered from the text of the
//! last update without parsing again.

use vstd::prelude::*;
use vstd::string::*;
use crate::actions::action_views;
use crate::actions::code_actions_for;
use crate::actions::code_actions_model;
use crate::actions::CodeAction;
use crate::analysis::casing_issues;
use crate::analysis::casing_issues_in;
use crate::analysis::casing_views;
use crate::analysis::diagnostic_views;
use crate::analysis::diagnostics_model;
use crate::analysis::diagnostics_of;
use crate::analysis::Diagnostic;
use crate::analysis::FieldCasingIssue;
use crate::control::detection::control_uri;
use crate::control::detection::is_control_file;
use crate::laws::lemma_casing_ranges_within;
use crate::parse::parse_control;
use crate::parse::parsed_control;
use crate::parse::ParsedControl;
use crate::position::byte_len;
use crate::position::Range;
use crate::position::TextRange;
use crate::strings::str_eq;

verus! {

/// The handle of a document of a workspace. It stays good for as long as
/// the workspace lives, and always stands for the document's latest text.
#[derive(Clone, Copy, Debug, PartialEq, Eq, Structural)]
pub struct SourceFile {
    pub id: usize,
}

/// An open document.
struct Document {
    uri: String,
    text: String,
    parsed: ParsedControl,
}

/// An open document as a value of mathematics: its URI and its current
/// text.
pub struct DocumentView {
    pub uri: Seq<char>,
    pub text: Seq<char>,
}

/// The open documents, each under its URI.
pub struct Workspace {
    documents: Vec<Document>,
}

impl View for Workspace {
    type V = Seq<DocumentView>;

    /// The documents in the order in which they were opened.
    closed spec fn view(&self) -> Seq<DocumentView> {
        self.documents@.map_values(|d: Document| DocumentView { uri: d.uri@, text: d.text@ })
    }
}

/// No URI has two documents.
pub open spec fn uris_distinct(documents: Seq<DocumentView>) -> bool {
    forall|i: int, j: int|
        0 <= i < documents.len() && 0 <= j < documents.len() && i != j ==> (
        #[trigger] documents[i]).uri != (#[trigger] documents[j]).uri
}

/// The place of the document with the URI `uri`, if there is one.
pub open spec fn index_of(documents: Seq<DocumentView>, uri: Seq<char>) -> Option<int> {
    if exists|i: int| 0 <= i < documents.len() && (#[trigger] documents[i]).uri == uri {
        Some(choose|i: int| 0 <= i < documents.len() && (#[trigger] documents[i]).uri == uri)
    } else {
        None
    }
}

/// The documents after `uri` was opened or changed with the text `text`:
/// a document that was open has its text replaced, in its place; a new one
/// comes last.
pub open spec fn with_document(documents: Seq<DocumentView>, uri: Seq<char>, text: Seq<char>) -> Seq<
    DocumentView,
> {
    match index_of(documents, uri) {
        Some(i) => documents.update(i, DocumentView { uri, text }),
        None => documents.push(DocumentView { uri, text }),
    }
}

/// Among documents with distinct URIs, the place of a URI is the one place
/// where it stands.
pub proof fn lemma_index_of(documents: Seq<DocumentView>, uri: Seq<char>, i: int)
    requires
        uris_distinct(documents),
        0 <= i < documents.len(),
        documents[i].uri == uri,
    ensures
        index_of(documents, uri) == Some(i),
{
}

impl Workspace {
    /// Every text is short enough for offsets of 32 bits, and every
    /// document is kept with the parse of its text.
    pub closed spec fn parses_kept(&self) -> bool {
        forall|i: int|
            0 <= i < self.documents@.len() ==> {
                let document = #[trigger] self.documents@[i];
                &&& byte_len(document.text@) <= u32::MAX
                &&& document.parsed@ == parsed_control(document.text@)
                &&& document.parsed@.within(byte_len(document.text@) as int)
            }
    }

    /// What holds of every workspace: no URI has two documents, and each
    /// document is kept with the parse of its text.
    pub open spec fn wf(&self) -> bool {
        uris_distinct(self@) && self.parses_kept()
    }

    /// The handle is one of this workspace.
    pub open spec fn holds(&self, file: SourceFile) -> bool {
        file.id < self@.len()
    }

    /// The current text of a document.
    pub open spec fn text_of(&self, file: SourceFile) -> Seq<char> {
        self@[file.id as int].text
    }

    /// A workspace without documents.
    pub fn new() -> (workspace: Workspace)
        ensures
            workspace.wf(),
            workspace@.len() == 0,
    {
        Workspace { documents: Vec::new() }
    }

    /// The handle of the document with the URI `uri`, if it is open.
    pub fn find_file(&self, uri: &str) -> (found: Option<SourceFile>)
        requires
            self.wf(),
        ensures
            match found {
                Some(file) => index_of(self@, uri@) == Some(file.id as int),
                None => index_of(self@, uri@) is None,
            },
    {
        let mut i: usize = 0;
        while i < self.documents.len()
            invariant
                self.wf(),
                i <= self.documents@.len(),
                forall|k: int| 0 <= k < i ==> (#[trigger] self@[k]).uri != uri@,
            decreases self.documents@.len() - i,
        {
            if str_eq(self.documents[i].uri.as_str(), uri) {
                proof {
                    lemma_index_of(self@, uri@, i as int);
                }
                return Some(SourceFile { id: i });
            }
            i = i + 1;
        }
        None
    }

    /// Opens the document `uri` with the text `text`, or replaces its text
    /// where it is open already; other documents stay as they are. The
    /// handle of a document that was open stays the same. The text is
    /// parsed here, once, unless the document already has this very text.
    pub fn update_file(&mut self, uri: String, text: String) -> (file: SourceFile)
        requires
            old(self).wf(),
            byte_len(text@) <= u32::MAX,
        ensures
            final(self).wf(),
            final(self)@ == with_document(old(self)@, uri@, text@),
            index_of(final(self)@, uri@) == Some(file.id as int),
            final(self).holds(file),
            final(self).text_of(file) == text@,
    {
        let ghost before = self@;
        let ghost document = DocumentView { uri: uri@, text: text@ };
        match self.find_file(uri.as_str()) {
            Some(file) => {
                if str_eq(self.documents[file.id].text.as_str(), text.as_str()) {
                    // The same text again: its parse is kept.
                    assert(before =~= before.update(file.id as int, document));
                    return file;
                }
                let parsed = parse_control(text.as_str());
                self.documents.set(file.id, Document { uri, text, parsed });
                proof {
                    assert(self@ =~= before.update(file.id as int, document));
                    lemma_index_of(self@, document.uri, file.id as int);
                }
                file
            },
            None => {
                let parsed = parse_control(text.as_str());
                let id: usize = self.documents.len();
                self.documents.push(Document { uri, text, parsed });
                proof {
                    assert(self@ =~= before.push(document));
                    assert forall|i: int, j: int|
                        0 <= i < self@.len() && 0 <= j < self@.len() && i != j implies (
                    #[trigger] self@[i]).uri != (#[trigger] self@[j]).uri by {
                        if i < before.len() {
                            assert(self@[i] == before[i]);
                        }
                        if j < before.len() {
                            assert(self@[j] == before[j]);
                        }
                    }
                    lemma_index_of(self@, document.uri, id as int);
                }
                SourceFile { id }
            },
        }
    }

    /// The parse of the document's current text.
    pub fn get_parsed_control(&self, file: SourceFile) -> (parsed: &ParsedControl)
        requires
            self.wf(),
            self.holds(file),
        ensures
            parsed@ == parsed_control(self.text_of(file)),
            parsed@.within(byte_len(self.text_of(file)) as int),
            byte_len(self.text_of(file)) <= u32::MAX,
    {
        &self.documents[file.id].parsed
    }

    /// The document's current text.
    pub fn source_text(&self, file: SourceFile) -> (text: String)
        requires
            self.holds(file),
        ensures
            text@ == self.text_of(file),
    {
        self.documents[file.id].text.clone()
    }

    /// The casing issues of the document, in document order; with a range,
    /// only those of the entries that overlap it. The span of each lies
    /// within the text.
    pub fn find_field_casing_issues(&self, file: SourceFile, range: Option<TextRange>) -> (issues:
        Vec<FieldCasingIssue>)
        requires
            self.wf(),
            self.holds(file),
        ensures
            casing_views(issues@) == casing_issues(
                parsed_control(self.text_of(file)).paragraphs,
                range,
            ),
            forall|k: int|
                0 <= k < issues@.len() ==> (#[trigger] issues@[k]).field_range.within(
                    byte_len(self.text_of(file)) as int,
                ),
    {
        let parsed = self.get_parsed_control(file);
        let issues = casing_issues_in(parsed, range);
        proof {
            let len = byte_len(self.text_of(file)) as int;
            lemma_casing_ranges_within(parsed@.paragraphs, range, len);
            assert forall|k: int| 0 <= k < issues@.len() implies (
            #[trigger] issues@[k]).field_range.within(len) by {
                assert(casing_views(issues@)[k] == issues@[k]@);
            }
        }
        issues
    }

    /// The diagnostics of the document: for its parse errors, then for its
    /// casing issues.
    pub fn get_diagnostics(&self, file: SourceFile) -> (diagnostics: Vec<Diagnostic>)
        requires
            self.wf(),
            self.holds(file),
        ensures
            diagnostic_views(diagnostics@) == diagnostics_model(
                self.text_of(file),
                parsed_control(self.text_of(file)),
                None,
            ),
    {
        let parsed = self.get_parsed_control(file);
        diagnostics_of(self.documents[file.id].text.as_str(), parsed, None)
    }

    /// The diagnostics of the document for what overlaps `range`.
    pub fn get_diagnostics_in_range(&self, file: SourceFile, range: TextRange) -> (diagnostics: Vec<
        Diagnostic,
    >)
        requires
            self.wf(),
            self.holds(file),
        ensures
            diagnostic_views(diagnostics@) == diagnostics_model(
                self.text_of(file),
                parsed_control(self.text_of(file)),
                Some(range),
            ),
    {
        let parsed = self.get_parsed_control(file);
        diagnostics_of(self.documents[file.id].text.as_str(), parsed, Some(range))
    }

    /// What an open or a change of the document `uri` does: a `control`
    /// file is stored with its new text, and its diagnostics are to be
    /// published; any other document is left alone.
    pub fn apply_update(&mut self, uri: String, text: String) -> (published: Option<Vec<Diagnostic>>)
        requires
            old(self).wf(),
            byte_len(text@) <= u32::MAX,
        ensures
            final(self).wf(),
            control_uri(uri@) ==> final(self)@ == with_document(old(self)@, uri@, text@)
                && published is Some && diagnostic_views(published->0@) == diagnostics_model(
                text@,
                parsed_control(text@),
                None,
            ),
            !control_uri(uri@) ==> *final(self) == *old(self) && published is None,
    {
        if is_control_file(uri.as_str()) {
            let file = self.update_file(uri, text);
            Some(self.get_diagnostics(file))
        } else {
            None
        }
    }

    /// The quick fixes for a range of the document `uri`. A document that
    /// is no `control` file, or is not open, has none.
    pub fn code_actions(&self, uri: &str, range: Range, context: &Vec<Diagnostic>) -> (actions: Vec<
        CodeAction,
    >)
        requires
            self.wf(),
        ensures
            action_views(actions@) == match index_of(self@, uri@) {
                Some(i) if control_uri(uri@) => code_actions_model(
                    self@[i].text,
                    uri@,
                    parsed_control(self@[i].text),
                    range,
                    diagnostic_views(context@),
                ),
                _ => Seq::empty(),
            },
    {
        if !is_control_file(uri) {
            let none: Vec<CodeAction> = Vec::new();
            assert(action_views(none@) =~= Seq::empty());
            return none;
        }
        match self.find_file(uri) {
            Some(file) => {
                let parsed = self.get_parsed_control(file);
                code_actions_for(
                    self.documents[file.id].text.as_str(),
                    uri,
                    parsed,
                    range,
                    context,
                )
            },
            None => {
                let none: Vec<CodeAction> = Vec::new();
                assert(action_views(none@) =~= Seq::empty());
                none
            },
        }
    }
}

}
