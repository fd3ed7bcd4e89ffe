//! Quick fixes: for each casing issue at the place that the editor asks
//! about, the edit that puts the canonical spelling in its place.

use vstd::prelude::*;
use vstd::string::*;
use vstd::utf8::*;
use crate::analysis::casing_issues;
use crate::analysis::casing_issues_in;
use crate::analysis::casing_views;
use crate::analysis::diagnostic_views;
use crate::analysis::lsp_range;
use crate::analysis::Diagnostic;
use crate::analysis::DiagnosticView;
use crate::analysis::FieldCasingIssue;
use crate::analysis::FieldCasingIssueView;
use crate::parse::ParsedControl;
use crate::parse::ParsedControlView;
use crate::position::byte_len;
use crate::position::lsp_range_to_text_range;
use crate::position::offset_at;
use crate::position::text_range_to_lsp_range;
use crate::position::Range;
use crate::position::TextRange;
use crate::strings::str_eq;

verus! {

/// What a code action is for.
#[derive(Clone, Copy, Debug, PartialEq, Eq, Structural)]
pub enum CodeActionKind {
    QuickFix,
}

/// The replacement of a range of a document by a text.
#[derive(Debug, PartialEq, Eq)]
pub struct TextEdit {
    pub range: Range,
    pub new_text: String,
}

/// A change that an editor may offer: one edit of one document.
#[derive(Debug, PartialEq, Eq)]
pub struct CodeAction {
    pub title: String,
    pub kind: Option<CodeActionKind>,
    /// The document that the edit changes.
    pub uri: String,
    pub edit: TextEdit,
    /// The diagnostics of the request that this action resolves.
    pub diagnostics: Vec<Diagnostic>,
}

/// A code action as a value of mathematics.
pub struct CodeActionView {
    pub title: Seq<char>,
    pub kind: Option<CodeActionKind>,
    pub uri: Seq<char>,
    pub edit_range: Range,
    pub new_text: Seq<char>,
    pub diagnostics: Seq<DiagnosticView>,
}

impl View for CodeAction {
    type V = CodeActionView;

    open spec fn view(&self) -> CodeActionView {
        CodeActionView {
            title: self.title@,
            kind: self.kind,
            uri: self.uri@,
            edit_range: self.edit.range,
            new_text: self.edit.new_text@,
            diagnostics: diagnostic_views(self.diagnostics@),
        }
    }
}

/// The views of a sequence of code actions.
pub open spec fn action_views(actions: Seq<CodeAction>) -> Seq<CodeActionView> {
    actions.map_values(|action: CodeAction| action@)
}

/// A diagnostic reports the casing issue at `range`.
pub open spec fn reports_casing_at(diagnostic: DiagnosticView, range: Range) -> bool {
    diagnostic.range == range && diagnostic.code == Some("field-casing"@)
}

/// The diagnostics of a request that report the casing issue at `range`,
/// in order.
pub open spec fn matching_diagnostics(context: Seq<DiagnosticView>, range: Range) -> Seq<
    DiagnosticView,
>
    decreases context.len(),
{
    if context.len() == 0 {
        Seq::empty()
    } else {
        let rest = matching_diagnostics(context.drop_last(), range);
        if reports_casing_at(context.last(), range) {
            rest.push(context.last())
        } else {
            rest
        }
    }
}

/// The quick fix for a casing issue in the document `uri`: it replaces the
/// field name by its canonical spelling.
pub open spec fn action_of(
    bytes: Seq<u8>,
    uri: Seq<char>,
    issue: FieldCasingIssueView,
    context: Seq<DiagnosticView>,
) -> CodeActionView {
    CodeActionView {
        title: "Fix field casing: "@ + issue.field_name + " -> "@ + issue.standard_name,
        kind: Some(CodeActionKind::QuickFix),
        uri: uri,
        edit_range: lsp_range(bytes, issue.field_range),
        new_text: issue.standard_name,
        diagnostics: matching_diagnostics(context, lsp_range(bytes, issue.field_range)),
    }
}

/// The quick fixes for those of `issues` whose field name meets the span
/// `requested`, a shared end point included.
pub open spec fn actions_from(
    bytes: Seq<u8>,
    uri: Seq<char>,
    issues: Seq<FieldCasingIssueView>,
    requested: TextRange,
    context: Seq<DiagnosticView>,
) -> Seq<CodeActionView>
    decreases issues.len(),
{
    if issues.len() == 0 {
        Seq::empty()
    } else {
        let rest = actions_from(bytes, uri, issues.drop_last(), requested, context);
        if issues.last().field_range.touches(requested) {
            rest.push(action_of(bytes, uri, issues.last(), context))
        } else {
            rest
        }
    }
}

/// The span of bytes that an editor range stands for in a text.
pub open spec fn text_range_of(bytes: Seq<u8>, range: Range) -> TextRange {
    TextRange {
        start: offset_at(bytes, range.start) as u32,
        end: offset_at(bytes, range.end) as u32,
    }
}

/// The quick fixes for the range `requested` of a document: one for each
/// casing issue of an entry that overlaps the range, where the field name
/// itself meets the range.
pub open spec fn code_actions_model(
    text: Seq<char>,
    uri: Seq<char>,
    parsed: ParsedControlView,
    requested: Range,
    context: Seq<DiagnosticView>,
) -> Seq<CodeActionView> {
    let bytes = encode_utf8(text);
    let span = text_range_of(bytes, requested);
    actions_from(bytes, uri, casing_issues(parsed.paragraphs, Some(span)), span, context)
}

/// The diagnostics among `context` that report the casing issue at `range`.
pub fn diagnostics_at(context: &Vec<Diagnostic>, range: Range) -> (found: Vec<Diagnostic>)
    ensures
        diagnostic_views(found@) == matching_diagnostics(diagnostic_views(context@), range),
{
    let mut found: Vec<Diagnostic> = Vec::new();
    let mut k: usize = 0;
    assert(diagnostic_views(context@).take(0) =~= Seq::empty());
    while k < context.len()
        invariant
            k <= context@.len(),
            diagnostic_views(found@) == matching_diagnostics(
                diagnostic_views(context@).take(k as int),
                range,
            ),
        decreases context@.len() - k,
    {
        let diagnostic = &context[k];
        let ghost earlier = diagnostic_views(found@);
        let coded = match &diagnostic.code {
            Some(code) => str_eq(code.as_str(), "field-casing"),
            None => false,
        };
        if coded && diagnostic.range == range {
            found.push(diagnostic.duplicate());
            assert(diagnostic_views(found@) =~= earlier.push(diagnostic@));
        }
        proof {
            let upto = diagnostic_views(context@).take(k + 1);
            assert(upto.drop_last() =~= diagnostic_views(context@).take(k as int));
            assert(upto.last() == diagnostic@);
        }
        k = k + 1;
    }
    assert(diagnostic_views(context@).take(k as int) =~= diagnostic_views(context@));
    found
}

/// The quick fix for one casing issue.
pub fn quick_fix(text: &str, uri: &str, issue: &FieldCasingIssue, context: &Vec<Diagnostic>) -> (action:
    CodeAction)
    requires
        byte_len(text@) <= u32::MAX,
    ensures
        action@ == action_of(encode_utf8(text@), uri@, issue@, diagnostic_views(context@)),
{
    let range = text_range_to_lsp_range(text, issue.field_range);
    let mut title = "Fix field casing: ".to_owned();
    title.append(issue.field_name.as_str());
    title.append(" -> ");
    title.append(issue.standard_name.as_str());
    CodeAction {
        title,
        kind: Some(CodeActionKind::QuickFix),
        uri: uri.to_owned(),
        edit: TextEdit { range, new_text: issue.standard_name.clone() },
        diagnostics: diagnostics_at(context, range),
    }
}

/// The quick fixes for the range `requested` of the document `uri`, whose
/// text is `text` and whose parse is `parsed`. A range that touches no
/// miscased field name gives none.
pub fn code_actions_for(
    text: &str,
    uri: &str,
    parsed: &ParsedControl,
    requested: Range,
    context: &Vec<Diagnostic>,
) -> (actions: Vec<CodeAction>)
    requires
        byte_len(text@) <= u32::MAX,
        parsed@.within(u32::MAX as int),
    ensures
        action_views(actions@) == code_actions_model(
            text@,
            uri@,
            parsed@,
            requested,
            diagnostic_views(context@),
        ),
{
    let span = lsp_range_to_text_range(text, requested);
    let issues = casing_issues_in(parsed, Some(span));
    let ghost bytes = encode_utf8(text@);
    let ghost given = diagnostic_views(context@);
    let mut actions: Vec<CodeAction> = Vec::new();
    let mut k: usize = 0;
    assert(casing_views(issues@).take(0) =~= Seq::empty());
    while k < issues.len()
        invariant
            byte_len(text@) <= u32::MAX,
            bytes == encode_utf8(text@),
            given == diagnostic_views(context@),
            k <= issues@.len(),
            action_views(actions@) == actions_from(
                bytes,
                uri@,
                casing_views(issues@).take(k as int),
                span,
                given,
            ),
        decreases issues@.len() - k,
    {
        let issue = &issues[k];
        let ghost earlier = action_views(actions@);
        if issue.field_range.meets(&span) {
            actions.push(quick_fix(text, uri, issue, context));
            assert(action_views(actions@) =~= earlier.push(action_of(bytes, uri@, issue@, given)));
        }
        proof {
            let upto = casing_views(issues@).take(k + 1);
            assert(upto.drop_last() =~= casing_views(issues@).take(k as int));
            assert(upto.last() == issue@);
        }
        k = k + 1;
    }
    assert(casing_views(issues@).take(k as int) =~= casing_views(issues@));
    actions
}

}
