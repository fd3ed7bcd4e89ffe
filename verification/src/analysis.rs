//! The analyses of a parsed `control` file: field names that are spelled in
//! another case than the catalogue has them, and the diagnostics that an
//! editor is sent.

use vstd::prelude::*;
use vstd::string::*;
use vstd::utf8::*;
use crate::control::fields::get_standard_field_name;
use crate::control::fields::miscased;
use crate::control::fields::standard_name;
use crate::parse::Entry;
use crate::parse::EntryView;
use crate::parse::ParsedControl;
use crate::parse::ParsedControlView;
use crate::parse::PositionedErrorView;
use crate::position::byte_len;
use crate::position::offset_to_position;
use crate::position::position_at;
use crate::position::Position;
use crate::position::Range;
use crate::position::TextRange;
use crate::strings::str_eq;

verus! {

/// A field name that is known to the catalogue under another spelling.
#[derive(Debug, PartialEq, Eq)]
pub struct FieldCasingIssue {
    /// The name as the document has it.
    pub field_name: String,
    /// The name as the catalogue has it.
    pub standard_name: String,
    /// The span of the name in the document, without the rest of its entry.
    pub field_range: TextRange,
}

/// A casing issue as a value of mathematics.
pub struct FieldCasingIssueView {
    pub field_name: Seq<char>,
    pub standard_name: Seq<char>,
    pub field_range: TextRange,
}

impl View for FieldCasingIssue {
    type V = FieldCasingIssueView;

    open spec fn view(&self) -> FieldCasingIssueView {
        FieldCasingIssueView {
            field_name: self.field_name@,
            standard_name: self.standard_name@,
            field_range: self.field_range,
        }
    }
}

/// Anything that is reported about a document.
#[derive(Debug, PartialEq, Eq)]
pub enum DiagnosticIssue {
    FieldCasing(FieldCasingIssue),
    ParseError { message: String, range: Option<TextRange> },
}

/// A reported issue as a value of mathematics.
pub enum DiagnosticIssueView {
    FieldCasing(FieldCasingIssueView),
    ParseError { message: Seq<char>, range: Option<TextRange> },
}

impl View for DiagnosticIssue {
    type V = DiagnosticIssueView;

    open spec fn view(&self) -> DiagnosticIssueView {
        match self {
            DiagnosticIssue::FieldCasing(issue) => DiagnosticIssueView::FieldCasing(issue@),
            DiagnosticIssue::ParseError { message, range } => DiagnosticIssueView::ParseError {
                message: message@,
                range: *range,
            },
        }
    }
}

impl DiagnosticIssueView {
    /// The span that the issue is about, where it has one.
    pub open spec fn span(self) -> Option<TextRange> {
        match self {
            DiagnosticIssueView::FieldCasing(issue) => Some(issue.field_range),
            DiagnosticIssueView::ParseError { message, range } => range,
        }
    }
}

/// How grave a diagnostic is.
#[derive(Clone, Copy, Debug, PartialEq, Eq, Structural)]
pub enum DiagnosticSeverity {
    Error,
    Warning,
    Information,
    Hint,
}

/// What an editor is told about a place in a document.
#[derive(Debug, PartialEq, Eq)]
pub struct Diagnostic {
    pub range: Range,
    pub severity: Option<DiagnosticSeverity>,
    pub code: Option<String>,
    pub source: Option<String>,
    pub message: String,
}

/// A diagnostic as a value of mathematics.
pub struct DiagnosticView {
    pub range: Range,
    pub severity: Option<DiagnosticSeverity>,
    pub code: Option<Seq<char>>,
    pub source: Option<Seq<char>>,
    pub message: Seq<char>,
}

impl View for Diagnostic {
    type V = DiagnosticView;

    open spec fn view(&self) -> DiagnosticView {
        DiagnosticView {
            range: self.range,
            severity: self.severity,
            code: match self.code {
                Some(s) => Some(s@),
                None => None,
            },
            source: match self.source {
                Some(s) => Some(s@),
                None => None,
            },
            message: self.message@,
        }
    }
}

impl Diagnostic {
    /// A copy of the diagnostic.
    pub fn duplicate(&self) -> (copy: Diagnostic)
        ensures
            copy@ == self@,
    {
        Diagnostic {
            range: self.range,
            severity: self.severity,
            code: match &self.code {
                Some(s) => Some(s.clone()),
                None => None,
            },
            source: match &self.source {
                Some(s) => Some(s.clone()),
                None => None,
            },
            message: self.message.clone(),
        }
    }
}

/// The views of a sequence of casing issues.
pub open spec fn casing_views(issues: Seq<FieldCasingIssue>) -> Seq<FieldCasingIssueView> {
    issues.map_values(|issue: FieldCasingIssue| issue@)
}

/// The views of a sequence of issues.
pub open spec fn issue_views(issues: Seq<DiagnosticIssue>) -> Seq<DiagnosticIssueView> {
    issues.map_values(|issue: DiagnosticIssue| issue@)
}

/// The views of a sequence of diagnostics.
pub open spec fn diagnostic_views(diagnostics: Seq<Diagnostic>) -> Seq<DiagnosticView> {
    diagnostics.map_values(|diagnostic: Diagnostic| diagnostic@)
}

/// A span passes a filter: there is none, or the two have a byte in common.
pub open spec fn kept(range: TextRange, filter: Option<TextRange>) -> bool {
    match filter {
        Some(f) => range.overlaps(f),
        None => true,
    }
}

/// The casing issue of an entry: its key is known to the catalogue under
/// another spelling. The issue's span begins where the entry begins and is
/// as long as the key.
pub open spec fn entry_issue(entry: EntryView) -> Option<FieldCasingIssueView> {
    match entry.key {
        Some(key) => if miscased(key) {
            Some(
                FieldCasingIssueView {
                    field_name: key,
                    standard_name: standard_name(key)->0,
                    field_range: TextRange {
                        start: entry.range.start,
                        end: (entry.range.start + byte_len(key)) as u32,
                    },
                },
            )
        } else {
            None
        },
        None => None,
    }
}

/// The casing issues of the entries that pass the filter, in order.
pub open spec fn entries_issues(entries: Seq<EntryView>, filter: Option<TextRange>) -> Seq<
    FieldCasingIssueView,
>
    decreases entries.len(),
{
    if entries.len() == 0 {
        Seq::empty()
    } else {
        let rest = entries_issues(entries.drop_last(), filter);
        let entry = entries.last();
        if kept(entry.range, filter) && entry_issue(entry) is Some {
            rest.push(entry_issue(entry)->0)
        } else {
            rest
        }
    }
}

/// The casing issues of all paragraphs, in order.
pub open spec fn casing_issues(paragraphs: Seq<Seq<EntryView>>, filter: Option<TextRange>) -> Seq<
    FieldCasingIssueView,
>
    decreases paragraphs.len(),
{
    if paragraphs.len() == 0 {
        Seq::empty()
    } else {
        casing_issues(paragraphs.drop_last(), filter) + entries_issues(paragraphs.last(), filter)
    }
}

/// A parse error passes a filter: it has no span, or its span passes.
pub open spec fn error_kept(error: PositionedErrorView, filter: Option<TextRange>) -> bool {
    match error.range {
        Some(r) => kept(r, filter),
        None => true,
    }
}

/// The parse errors that pass the filter, in order, as issues.
pub open spec fn error_issues(errors: Seq<PositionedErrorView>, filter: Option<TextRange>) -> Seq<
    DiagnosticIssueView,
>
    decreases errors.len(),
{
    if errors.len() == 0 {
        Seq::empty()
    } else {
        let rest = error_issues(errors.drop_last(), filter);
        let error = errors.last();
        if error_kept(error, filter) {
            rest.push(DiagnosticIssueView::ParseError { message: error.message, range: error.range })
        } else {
            rest
        }
    }
}

/// Casing issues as issues.
pub open spec fn as_issues(issues: Seq<FieldCasingIssueView>) -> Seq<DiagnosticIssueView> {
    issues.map_values(|issue: FieldCasingIssueView| DiagnosticIssueView::FieldCasing(issue))
}

/// All issues of a parse that pass the filter: the parse errors, then the
/// casing issues.
pub open spec fn all_issues(parsed: ParsedControlView, filter: Option<TextRange>) -> Seq<
    DiagnosticIssueView,
> {
    error_issues(parsed.errors, filter) + as_issues(casing_issues(parsed.paragraphs, filter))
}

/// The editor range of a span in a text.
pub open spec fn lsp_range(bytes: Seq<u8>, range: TextRange) -> Range {
    Range {
        start: position_at(bytes, range.start as int),
        end: position_at(bytes, range.end as int),
    }
}

/// The diagnostic that reports an issue. A casing issue is a warning on the
/// field name, with code `field-casing` and source `debian-lsp`. A parse
/// error is an error on its span; one without a span is shown at the
/// beginning of the document.
pub open spec fn diagnostic_of(bytes: Seq<u8>, issue: DiagnosticIssueView) -> DiagnosticView {
    match issue {
        DiagnosticIssueView::FieldCasing(casing) => DiagnosticView {
            range: lsp_range(bytes, casing.field_range),
            severity: Some(DiagnosticSeverity::Warning),
            code: Some("field-casing"@),
            source: Some("debian-lsp"@),
            message: "Field name '"@ + casing.field_name + "' should be '"@ + casing.standard_name
                + "'"@,
        },
        DiagnosticIssueView::ParseError { message, range } => DiagnosticView {
            range: match range {
                Some(r) => lsp_range(bytes, r),
                None => Range {
                    start: Position { line: 0, character: 0 },
                    end: Position { line: 0, character: 0 },
                },
            },
            severity: Some(DiagnosticSeverity::Error),
            code: None,
            source: None,
            message: message,
        },
    }
}

/// The diagnostics that report a sequence of issues, in order.
pub open spec fn diagnostics_from(bytes: Seq<u8>, issues: Seq<DiagnosticIssueView>) -> Seq<
    DiagnosticView,
> {
    issues.map_values(|issue: DiagnosticIssueView| diagnostic_of(bytes, issue))
}

/// The diagnostics of a document: for its parse errors, then for its casing
/// issues, as far as they pass the filter.
pub open spec fn diagnostics_model(
    text: Seq<char>,
    parsed: ParsedControlView,
    filter: Option<TextRange>,
) -> Seq<DiagnosticView> {
    diagnostics_from(encode_utf8(text), all_issues(parsed, filter))
}

/// The view of an optional casing issue.
pub open spec fn opt_casing_view(issue: Option<FieldCasingIssue>) -> Option<FieldCasingIssueView> {
    match issue {
        Some(i) => Some(i@),
        None => None,
    }
}

/// The casing issue of one entry, if it has one.
pub fn casing_issue_of(entry: &Entry) -> (issue: Option<FieldCasingIssue>)
    requires
        entry@.within(u32::MAX as int),
    ensures
        opt_casing_view(issue) == entry_issue(entry@),
{
    match &entry.key {
        Some(key) => {
            match get_standard_field_name(key.as_str()) {
                Some(standard) => {
                    if str_eq(key.as_str(), standard) {
                        None
                    } else {
                        let len: usize = key.as_str().len();
                        Some(
                            FieldCasingIssue {
                                field_name: key.clone(),
                                standard_name: standard.to_owned(),
                                field_range: TextRange {
                                    start: entry.range.start,
                                    end: entry.range.start + (len as u32),
                                },
                            },
                        )
                    }
                },
                None => None,
            }
        },
        None => None,
    }
}

/// The casing issues of a parse, in document order: one for each entry that
/// passes the filter and whose key the catalogue spells otherwise.
pub fn casing_issues_in(parsed: &ParsedControl, filter: Option<TextRange>) -> (issues: Vec<
    FieldCasingIssue,
>)
    requires
        parsed@.within(u32::MAX as int),
    ensures
        casing_views(issues@) == casing_issues(parsed@.paragraphs, filter),
{
    let mut issues: Vec<FieldCasingIssue> = Vec::new();
    let mut i: usize = 0;
    assert(parsed@.paragraphs.take(0) =~= Seq::empty());
    while i < parsed.paragraphs.len()
        invariant
            i <= parsed.paragraphs@.len(),
            parsed@.within(u32::MAX as int),
            casing_views(issues@) == casing_issues(parsed@.paragraphs.take(i as int), filter),
        decreases parsed.paragraphs@.len() - i,
    {
        let paragraph = &parsed.paragraphs[i];
        let ghost before = casing_views(issues@);
        let mut j: usize = 0;
        assert(paragraph@ == parsed@.paragraphs[i as int]);
        assert(paragraph@.take(0) =~= Seq::empty());
        assert(before + entries_issues(paragraph@.take(0), filter) =~= before);
        while j < paragraph.entries.len()
            invariant
                i < parsed.paragraphs@.len(),
                paragraph@ == parsed@.paragraphs[i as int],
                parsed@.within(u32::MAX as int),
                j <= paragraph.entries@.len(),
                casing_views(issues@) == before + entries_issues(
                    paragraph@.take(j as int),
                    filter,
                ),
            decreases paragraph.entries@.len() - j,
        {
            let entry = &paragraph.entries[j];
            assert(entry@ == parsed@.paragraphs[i as int][j as int]);
            let ghost earlier = casing_views(issues@);
            let wanted = match filter {
                Some(f) => entry.range.intersects(&f),
                None => true,
            };
            if wanted {
                match casing_issue_of(entry) {
                    Some(issue) => {
                        issues.push(issue);
                        assert(casing_views(issues@) =~= earlier.push(entry_issue(entry@)->0));
                    },
                    None => {},
                }
            }
            proof {
                let upto = paragraph@.take(j + 1);
                assert(upto.drop_last() =~= paragraph@.take(j as int));
                assert(upto.last() == entry@);
                assert(casing_views(issues@) =~= before + entries_issues(upto, filter));
            }
            j = j + 1;
        }
        proof {
            let upto = parsed@.paragraphs.take(i + 1);
            assert(paragraph@.take(j as int) =~= paragraph@);
            assert(upto.drop_last() =~= parsed@.paragraphs.take(i as int));
            assert(upto.last() == paragraph@);
        }
        i = i + 1;
    }
    assert(parsed@.paragraphs.take(i as int) =~= parsed@.paragraphs);
    issues
}

/// All issues of a parse that pass the filter: its errors, then its casing
/// issues.
pub fn issues_in(parsed: &ParsedControl, filter: Option<TextRange>) -> (issues: Vec<
    DiagnosticIssue,
>)
    requires
        parsed@.within(u32::MAX as int),
    ensures
        issue_views(issues@) == all_issues(parsed@, filter),
{
    let mut issues: Vec<DiagnosticIssue> = Vec::new();
    let mut k: usize = 0;
    assert(parsed@.errors.take(0) =~= Seq::empty());
    while k < parsed.errors.len()
        invariant
            k <= parsed.errors@.len(),
            issue_views(issues@) == error_issues(parsed@.errors.take(k as int), filter),
        decreases parsed.errors@.len() - k,
    {
        let error = &parsed.errors[k];
        let ghost earlier = issue_views(issues@);
        let wanted = match (error.range, filter) {
            (Some(r), Some(f)) => r.intersects(&f),
            _ => true,
        };
        if wanted {
            issues.push(
                DiagnosticIssue::ParseError { message: error.message.clone(), range: error.range },
            );
            assert(issue_views(issues@) =~= earlier.push(
                DiagnosticIssueView::ParseError { message: error@.message, range: error@.range },
            ));
        }
        proof {
            let upto = parsed@.errors.take(k + 1);
            assert(upto.drop_last() =~= parsed@.errors.take(k as int));
            assert(upto.last() == error@);
        }
        k = k + 1;
    }
    assert(parsed@.errors.take(k as int) =~= parsed@.errors);
    let casing = casing_issues_in(parsed, filter);
    let ghost errors_part = issue_views(issues@);
    let mut c: usize = 0;
    assert(errors_part + as_issues(casing_views(casing@).take(0)) =~= errors_part);
    while c < casing.len()
        invariant
            c <= casing@.len(),
            issue_views(issues@) == errors_part + as_issues(casing_views(casing@).take(c as int)),
        decreases casing@.len() - c,
    {
        let found = &casing[c];
        let ghost earlier = issue_views(issues@);
        issues.push(
            DiagnosticIssue::FieldCasing(
                FieldCasingIssue {
                    field_name: found.field_name.clone(),
                    standard_name: found.standard_name.clone(),
                    field_range: found.field_range,
                },
            ),
        );
        proof {
            let done = casing_views(casing@).take(c as int);
            let next = DiagnosticIssueView::FieldCasing(found@);
            assert(issue_views(issues@) =~= earlier.push(next));
            assert(casing_views(casing@).take(c + 1) =~= done.push(found@));
            assert(as_issues(done.push(found@)) =~= as_issues(done).push(next));
            assert(earlier.push(next) =~= errors_part + as_issues(done).push(next));
        }
        c = c + 1;
    }
    assert(casing_views(casing@).take(c as int) =~= casing_views(casing@));
    issues
}

/// The diagnostic that reports one issue in `text`.
pub fn issue_diagnostic(text: &str, issue: &DiagnosticIssue) -> (diagnostic: Diagnostic)
    requires
        byte_len(text@) <= u32::MAX,
    ensures
        diagnostic@ == diagnostic_of(encode_utf8(text@), issue@),
{
    match issue {
        DiagnosticIssue::FieldCasing(casing) => {
            let mut message = "Field name '".to_owned();
            message.append(casing.field_name.as_str());
            message.append("' should be '");
            message.append(casing.standard_name.as_str());
            message.append("'");
            Diagnostic {
                range: Range {
                    start: offset_to_position(text, casing.field_range.start),
                    end: offset_to_position(text, casing.field_range.end),
                },
                severity: Some(DiagnosticSeverity::Warning),
                code: Some("field-casing".to_owned()),
                source: Some("debian-lsp".to_owned()),
                message,
            }
        },
        DiagnosticIssue::ParseError { message, range } => {
            let shown = match range {
                Some(r) => Range {
                    start: offset_to_position(text, r.start),
                    end: offset_to_position(text, r.end),
                },
                None => Range {
                    start: Position { line: 0, character: 0 },
                    end: Position { line: 0, character: 0 },
                },
            };
            Diagnostic {
                range: shown,
                severity: Some(DiagnosticSeverity::Error),
                code: None,
                source: None,
                message: message.clone(),
            }
        },
    }
}

/// The diagnostics of a document with text `text` and parse `parsed`: one
/// for each parse error, then one for each casing issue, as far as they pass
/// the filter.
pub fn diagnostics_of(text: &str, parsed: &ParsedControl, filter: Option<TextRange>) -> (diagnostics:
    Vec<Diagnostic>)
    requires
        byte_len(text@) <= u32::MAX,
        parsed@.within(u32::MAX as int),
    ensures
        diagnostic_views(diagnostics@) == diagnostics_model(text@, parsed@, filter),
{
    let issues = issues_in(parsed, filter);
    let mut diagnostics: Vec<Diagnostic> = Vec::new();
    let mut k: usize = 0;
    while k < issues.len()
        invariant
            byte_len(text@) <= u32::MAX,
            k <= issues@.len(),
            diagnostics@.len() == k,
            forall|n: int|
                0 <= n < k ==> (#[trigger] diagnostics@[n])@ == diagnostic_of(
                    encode_utf8(text@),
                    issues@[n]@,
                ),
        decreases issues@.len() - k,
    {
        diagnostics.push(issue_diagnostic(text, &issues[k]));
        k = k + 1;
    }
    assert(diagnostic_views(diagnostics@) =~= diagnostics_from(
        encode_utf8(text@),
        issue_views(issues@),
    ));
    diagnostics
}

}
