//! What holds of the analyses of every document.

use vstd::prelude::*;
use vstd::utf8::*;
use crate::actions::code_actions_model;
use crate::actions::text_range_of;
use crate::analysis::all_issues;
use crate::analysis::as_issues;
use crate::analysis::casing_issues;
use crate::analysis::diagnostics_model;
use crate::analysis::entries_issues;
use crate::analysis::entry_issue;
use crate::analysis::error_issues;
use crate::analysis::lsp_range;
use crate::analysis::DiagnosticView;
use crate::control::distinct::lemma_canonical_is_standard;
use crate::control::fields::field_names;
use crate::control::fields::lemma_first_match_matches;
use crate::control::fields::miscased;
use crate::control::fields::standard_name;
use crate::parse::EntryView;
use crate::parse::ParsedControlView;
use crate::parse::PositionedErrorView;
use crate::position::byte_len;
use crate::position::lemma_positions_keep_order;
use crate::position::not_behind;
use crate::position::Position;
use crate::position::Range;
use crate::position::TextRange;

verus! {

/// The span of a casing issue lies within its entry.
pub proof fn lemma_entry_issue_within(entry: EntryView, len: int)
    requires
        len <= u32::MAX,
        entry.within(len),
    ensures
        match entry_issue(entry) {
            Some(issue) => issue.field_range.within(len) && issue.field_range.start
                == entry.range.start && issue.field_range.end <= entry.range.end,
            None => true,
        },
{
}

proof fn lemma_entries_issues_within(entries: Seq<EntryView>, filter: Option<TextRange>, len: int)
    requires
        len <= u32::MAX,
        forall|j: int| 0 <= j < entries.len() ==> (#[trigger] entries[j]).within(len),
    ensures
        forall|k: int|
            0 <= k < entries_issues(entries, filter).len() ==> (#[trigger] entries_issues(
                entries,
                filter,
            )[k]).field_range.within(len),
    decreases entries.len(),
{
    if entries.len() > 0 {
        lemma_entries_issues_within(entries.drop_last(), filter, len);
        lemma_entry_issue_within(entries.last(), len);
        let rest = entries_issues(entries.drop_last(), filter);
        let all = entries_issues(entries, filter);
        assert forall|k: int| 0 <= k < all.len() implies (#[trigger] all[k]).field_range.within(
            len,
        ) by {
            if k < rest.len() {
                assert(all[k] == rest[k]);
            }
        }
    }
}

/// Every casing issue of a parse whose spans lie within a text of `len`
/// bytes has a span that is ordered and ends within the text.
pub proof fn lemma_casing_ranges_within(
    paragraphs: Seq<Seq<EntryView>>,
    filter: Option<TextRange>,
    len: int,
)
    requires
        len <= u32::MAX,
        forall|i: int, j: int|
            0 <= i < paragraphs.len() && 0 <= j < paragraphs[i].len() ==> (
            #[trigger] paragraphs[i][j]).within(len),
    ensures
        forall|k: int|
            0 <= k < casing_issues(paragraphs, filter).len() ==> (#[trigger] casing_issues(
                paragraphs,
                filter,
            )[k]).field_range.within(len),
    decreases paragraphs.len(),
{
    if paragraphs.len() > 0 {
        let front = paragraphs.drop_last();
        assert forall|i: int, j: int| 0 <= i < front.len() && 0 <= j < front[i].len() implies (
        #[trigger] front[i][j]).within(len) by {
            assert(front[i] == paragraphs[i]);
        }
        lemma_casing_ranges_within(front, filter, len);
        let last = paragraphs.last();
        assert forall|j: int| 0 <= j < last.len() implies (#[trigger] last[j]).within(len) by {
            assert(last[j] == paragraphs[paragraphs.len() - 1][j]);
        }
        lemma_entries_issues_within(last, filter, len);
        let rest = casing_issues(front, filter);
        let tail = entries_issues(last, filter);
        let all = casing_issues(paragraphs, filter);
        assert forall|k: int| 0 <= k < all.len() implies (#[trigger] all[k]).field_range.within(
            len,
        ) by {
            if k < rest.len() {
                assert(all[k] == rest[k]);
            } else {
                assert(all[k] == tail[k - rest.len()]);
            }
        }
    }
}

proof fn lemma_error_spans_within(
    errors: Seq<PositionedErrorView>,
    filter: Option<TextRange>,
    len: int,
)
    requires
        forall|k: int|
            0 <= k < errors.len() ==> match (#[trigger] errors[k]).range {
                Some(r) => r.within(len),
                None => true,
            },
    ensures
        forall|k: int|
            0 <= k < error_issues(errors, filter).len() ==> match (#[trigger] error_issues(
                errors,
                filter,
            )[k]).span() {
                Some(r) => r.within(len),
                None => true,
            },
    decreases errors.len(),
{
    if errors.len() > 0 {
        lemma_error_spans_within(errors.drop_last(), filter, len);
    }
}

/// Every span that is reported of a document lies in it: where the spans of
/// the parse are ordered and end within the text, so does the span of every
/// issue, filtered or not.
pub proof fn lemma_issue_spans_within(
    parsed: ParsedControlView,
    filter: Option<TextRange>,
    len: int,
)
    requires
        len <= u32::MAX,
        parsed.within(len),
    ensures
        forall|k: int|
            0 <= k < all_issues(parsed, filter).len() ==> match (#[trigger] all_issues(
                parsed,
                filter,
            )[k]).span() {
                Some(r) => 0 <= r.start <= r.end <= len,
                None => true,
            },
{
    lemma_error_spans_within(parsed.errors, filter, len);
    lemma_casing_ranges_within(parsed.paragraphs, filter, len);
}

/// Every diagnostic of a document is shown at the editor range of a span
/// that is ordered and ends within the text, or, for a parse error without a
/// span, at the beginning of the document.
pub proof fn lemma_diagnostic_ranges(
    text: Seq<char>,
    parsed: ParsedControlView,
    filter: Option<TextRange>,
)
    requires
        byte_len(text) <= u32::MAX,
        parsed.within(byte_len(text) as int),
    ensures
        diagnostics_model(text, parsed, filter).len() == all_issues(parsed, filter).len(),
        forall|k: int|
            0 <= k < all_issues(parsed, filter).len() ==> match (#[trigger] all_issues(
                parsed,
                filter,
            )[k]).span() {
                Some(r) => r.start <= r.end <= byte_len(text) && diagnostics_model(
                    text,
                    parsed,
                    filter,
                )[k].range == lsp_range(encode_utf8(text), r),
                None => diagnostics_model(text, parsed, filter)[k].range == (Range {
                    start: Position { line: 0, character: 0 },
                    end: Position { line: 0, character: 0 },
                }),
            },
{
    lemma_issue_spans_within(parsed, filter, byte_len(text) as int);
}

proof fn lemma_entries_without_miscased(entries: Seq<EntryView>, filter: Option<TextRange>)
    requires
        forall|j: int|
            0 <= j < entries.len() && (#[trigger] entries[j]).key is Some ==> !miscased(
                entries[j].key->0,
            ),
    ensures
        entries_issues(entries, filter).len() == 0,
    decreases entries.len(),
{
    if entries.len() > 0 {
        lemma_entries_without_miscased(entries.drop_last(), filter);
    }
}

/// A document in which no field name is known to the catalogue under
/// another spelling has no casing issue.
proof fn lemma_no_issue_without_miscased(
    paragraphs: Seq<Seq<EntryView>>,
    filter: Option<TextRange>,
)
    requires
        forall|i: int, j: int|
            0 <= i < paragraphs.len() && 0 <= j < paragraphs[i].len() && (
            #[trigger] paragraphs[i][j]).key is Some ==> !miscased(paragraphs[i][j].key->0),
    ensures
        casing_issues(paragraphs, filter).len() == 0,
    decreases paragraphs.len(),
{
    if paragraphs.len() > 0 {
        let front = paragraphs.drop_last();
        assert forall|i: int, j: int|
            0 <= i < front.len() && 0 <= j < front[i].len() && (
            #[trigger] front[i][j]).key is Some implies !miscased(front[i][j].key->0) by {
            assert(front[i] == paragraphs[i]);
        }
        lemma_no_issue_without_miscased(front, filter);
        let last = paragraphs.last();
        assert forall|j: int| 0 <= j < last.len() && (#[trigger] last[j]).key is Some implies !miscased(
            last[j].key->0,
        ) by {
            assert(last[j] == paragraphs[paragraphs.len() - 1][j]);
        }
        lemma_entries_without_miscased(last, filter);
    }
}

/// The key of an entry, where it has one, is a name of the catalogue in its
/// canonical spelling, or no name of the catalogue in any case.
pub open spec fn key_is_canonical_or_unknown(entry: EntryView) -> bool {
    entry.key is Some ==> field_names().contains(entry.key->0) || standard_name(entry.key->0)
        is None
}

/// A document whose field names are all in canonical spelling has no casing
/// issue; names that the catalogue does not hold raise none either.
pub proof fn lemma_canonical_names_raise_no_issue(
    paragraphs: Seq<Seq<EntryView>>,
    filter: Option<TextRange>,
)
    requires
        forall|i: int, j: int|
            0 <= i < paragraphs.len() && 0 <= j < paragraphs[i].len()
                ==> key_is_canonical_or_unknown(#[trigger] paragraphs[i][j]),
    ensures
        casing_issues(paragraphs, filter).len() == 0,
{
    assert forall|i: int, j: int|
        0 <= i < paragraphs.len() && 0 <= j < paragraphs[i].len() && (
        #[trigger] paragraphs[i][j]).key is Some implies !miscased(paragraphs[i][j].key->0) by {
        let key = paragraphs[i][j].key->0;
        assert(key_is_canonical_or_unknown(paragraphs[i][j]));
        if field_names().contains(key) {
            lemma_canonical_is_standard(key);
        }
    }
    lemma_no_issue_without_miscased(paragraphs, filter);
}

/// The key of an entry is a field of the catalogue, in whatever case.
pub open spec fn has_known_key(entry: EntryView) -> bool {
    entry.key is Some && standard_name(entry.key->0) is Some
}

/// The number of entries whose key is a field of the catalogue.
pub open spec fn known_keys(entries: Seq<EntryView>) -> nat
    decreases entries.len(),
{
    if entries.len() == 0 {
        0
    } else {
        known_keys(entries.drop_last()) + if has_known_key(entries.last()) {
            1nat
        } else {
            0nat
        }
    }
}

/// The number of entries, in all paragraphs, whose key is a field of the
/// catalogue.
pub open spec fn known_keys_in(paragraphs: Seq<Seq<EntryView>>) -> nat
    decreases paragraphs.len(),
{
    if paragraphs.len() == 0 {
        0
    } else {
        known_keys_in(paragraphs.drop_last()) + known_keys(paragraphs.last())
    }
}

proof fn lemma_entries_one_issue_each(entries: Seq<EntryView>)
    requires
        forall|j: int|
            0 <= j < entries.len() && has_known_key(#[trigger] entries[j]) ==> miscased(
                entries[j].key->0,
            ),
    ensures
        entries_issues(entries, None).len() == known_keys(entries),
    decreases entries.len(),
{
    if entries.len() > 0 {
        lemma_entries_one_issue_each(entries.drop_last());
    }
}

proof fn lemma_one_issue_per_miscased_key(paragraphs: Seq<Seq<EntryView>>)
    requires
        forall|i: int, j: int|
            0 <= i < paragraphs.len() && 0 <= j < paragraphs[i].len() && has_known_key(
                #[trigger] paragraphs[i][j],
            ) ==> miscased(paragraphs[i][j].key->0),
    ensures
        casing_issues(paragraphs, None).len() == known_keys_in(paragraphs),
    decreases paragraphs.len(),
{
    if paragraphs.len() > 0 {
        let front = paragraphs.drop_last();
        assert forall|i: int, j: int|
            0 <= i < front.len() && 0 <= j < front[i].len() && has_known_key(
                #[trigger] front[i][j],
            ) implies miscased(front[i][j].key->0) by {
            assert(front[i] == paragraphs[i]);
        }
        lemma_one_issue_per_miscased_key(front);
        let last = paragraphs.last();
        assert forall|j: int| 0 <= j < last.len() && has_known_key(#[trigger] last[j]) implies miscased(
            last[j].key->0,
        ) by {
            assert(last[j] == paragraphs[paragraphs.len() - 1][j]);
        }
        lemma_entries_one_issue_each(last);
    }
}

/// A document in which every field name that the catalogue knows differs
/// from its canonical spelling, which can only be in case, has exactly one
/// casing issue for each entry whose key is a known field.
pub proof fn lemma_one_issue_per_known_key(paragraphs: Seq<Seq<EntryView>>)
    requires
        forall|i: int, j: int|
            0 <= i < paragraphs.len() && 0 <= j < paragraphs[i].len() && has_known_key(
                #[trigger] paragraphs[i][j],
            ) ==> !field_names().contains(paragraphs[i][j].key->0),
    ensures
        casing_issues(paragraphs, None).len() == known_keys_in(paragraphs),
{
    assert forall|i: int, j: int|
        0 <= i < paragraphs.len() && 0 <= j < paragraphs[i].len() && has_known_key(
            #[trigger] paragraphs[i][j],
        ) implies miscased(paragraphs[i][j].key->0) by {
        lemma_first_match_matches(field_names(), paragraphs[i][j].key->0, 0);
    }
    lemma_one_issue_per_miscased_key(paragraphs);
}

/// The filter that spans a whole text of `len` bytes.
pub open spec fn whole_text(len: int) -> Option<TextRange> {
    Some(TextRange { start: 0, end: len as u32 })
}

proof fn lemma_entries_whole_text(entries: Seq<EntryView>, len: int)
    requires
        0 <= len <= u32::MAX,
        forall|j: int|
            0 <= j < entries.len() ==> (#[trigger] entries[j]).within(len) && entries[j].range.start
                < entries[j].range.end,
    ensures
        entries_issues(entries, whole_text(len)) == entries_issues(entries, None),
    decreases entries.len(),
{
    if entries.len() > 0 {
        lemma_entries_whole_text(entries.drop_last(), len);
    }
}

proof fn lemma_casing_whole_text(paragraphs: Seq<Seq<EntryView>>, len: int)
    requires
        0 <= len <= u32::MAX,
        forall|i: int, j: int|
            0 <= i < paragraphs.len() && 0 <= j < paragraphs[i].len() ==> (
            #[trigger] paragraphs[i][j]).within(len) && paragraphs[i][j].range.start
                < paragraphs[i][j].range.end,
    ensures
        casing_issues(paragraphs, whole_text(len)) == casing_issues(paragraphs, None),
    decreases paragraphs.len(),
{
    if paragraphs.len() > 0 {
        let front = paragraphs.drop_last();
        assert forall|i: int, j: int| 0 <= i < front.len() && 0 <= j < front[i].len() implies (
        #[trigger] front[i][j]).within(len) && front[i][j].range.start < front[i][j].range.end by {
            assert(front[i] == paragraphs[i]);
        }
        lemma_casing_whole_text(front, len);
        let last = paragraphs.last();
        assert forall|j: int| 0 <= j < last.len() implies (#[trigger] last[j]).within(len)
            && last[j].range.start < last[j].range.end by {
            assert(last[j] == paragraphs[paragraphs.len() - 1][j]);
        }
        lemma_entries_whole_text(last, len);
    }
}

proof fn lemma_errors_whole_text(errors: Seq<PositionedErrorView>, len: int)
    requires
        0 <= len <= u32::MAX,
        forall|k: int|
            0 <= k < errors.len() ==> match (#[trigger] errors[k]).range {
                Some(r) => r.within(len) && r.start < r.end,
                None => true,
            },
    ensures
        error_issues(errors, whole_text(len)) == error_issues(errors, None),
    decreases errors.len(),
{
    if errors.len() > 0 {
        lemma_errors_whole_text(errors.drop_last(), len);
    }
}

/// Filtering to the whole text filters nothing out: where every span of the
/// parse lies within the text and holds at least one byte, the issues that
/// pass the filter `[0, len)` are all issues.
pub proof fn lemma_whole_text_filter_keeps_all(parsed: ParsedControlView, len: int)
    requires
        0 <= len <= u32::MAX,
        parsed.within(len),
        parsed.spans_nonempty(),
    ensures
        all_issues(parsed, whole_text(len)) == all_issues(parsed, None),
{
    lemma_errors_whole_text(parsed.errors, len);
    lemma_casing_whole_text(parsed.paragraphs, len);
}

/// The diagnostics of a document filtered to its whole text are its
/// diagnostics, where every span of the parse holds at least one byte.
pub proof fn lemma_whole_text_diagnostics(text: Seq<char>, parsed: ParsedControlView)
    requires
        byte_len(text) <= u32::MAX,
        parsed.within(byte_len(text) as int),
        parsed.spans_nonempty(),
    ensures
        diagnostics_model(text, parsed, whole_text(byte_len(text) as int)) == diagnostics_model(
            text,
            parsed,
            None,
        ),
{
    lemma_whole_text_filter_keeps_all(parsed, byte_len(text) as int);
}

proof fn lemma_entries_off_the_filter(entries: Seq<EntryView>, span: TextRange)
    requires
        forall|j: int| 0 <= j < entries.len() ==> !(#[trigger] entries[j]).range.overlaps(span),
    ensures
        entries_issues(entries, Some(span)).len() == 0,
    decreases entries.len(),
{
    if entries.len() > 0 {
        lemma_entries_off_the_filter(entries.drop_last(), span);
    }
}

/// A filter that no entry overlaps lets no casing issue pass.
pub proof fn lemma_filter_off_the_entries(paragraphs: Seq<Seq<EntryView>>, span: TextRange)
    requires
        forall|i: int, j: int|
            0 <= i < paragraphs.len() && 0 <= j < paragraphs[i].len() ==> !(
            #[trigger] paragraphs[i][j]).range.overlaps(span),
    ensures
        casing_issues(paragraphs, Some(span)).len() == 0,
    decreases paragraphs.len(),
{
    if paragraphs.len() > 0 {
        let front = paragraphs.drop_last();
        assert forall|i: int, j: int| 0 <= i < front.len() && 0 <= j < front[i].len() implies !(
        #[trigger] front[i][j]).range.overlaps(span) by {
            assert(front[i] == paragraphs[i]);
        }
        lemma_filter_off_the_entries(front, span);
        let last = paragraphs.last();
        assert forall|j: int| 0 <= j < last.len() implies !(#[trigger] last[j]).range.overlaps(
            span,
        ) by {
            assert(last[j] == paragraphs[paragraphs.len() - 1][j]);
        }
        lemma_entries_off_the_filter(last, span);
    }
}

/// A request for a range that overlaps no entry of the document is
/// answered with no quick fix.
pub proof fn lemma_no_quick_fix_off_the_entries(
    text: Seq<char>,
    uri: Seq<char>,
    parsed: ParsedControlView,
    requested: Range,
    context: Seq<DiagnosticView>,
)
    requires
        forall|i: int, j: int|
            0 <= i < parsed.paragraphs.len() && 0 <= j < parsed.paragraphs[i].len() ==> !(
            #[trigger] parsed.paragraphs[i][j]).range.overlaps(
                text_range_of(encode_utf8(text), requested),
            ),
    ensures
        code_actions_model(text, uri, parsed, requested, context).len() == 0,
{
    let span = text_range_of(encode_utf8(text), requested);
    lemma_filter_off_the_entries(parsed.paragraphs, span);
    assert(casing_issues(parsed.paragraphs, Some(span)) =~= Seq::empty());
}

/// Every diagnostic of a document has a range that ends where it begins or
/// behind.
pub proof fn lemma_diagnostic_ranges_ordered(
    text: Seq<char>,
    parsed: ParsedControlView,
    filter: Option<TextRange>,
)
    requires
        byte_len(text) <= u32::MAX,
        parsed.within(byte_len(text) as int),
    ensures
        forall|k: int|
            0 <= k < diagnostics_model(text, parsed, filter).len() ==> not_behind(
                (#[trigger] diagnostics_model(text, parsed, filter)[k]).range.start,
                diagnostics_model(text, parsed, filter)[k].range.end,
            ),
{
    lemma_diagnostic_ranges(text, parsed, filter);
    assert forall|k: int| 0 <= k < diagnostics_model(text, parsed, filter).len() implies not_behind(
        (#[trigger] diagnostics_model(text, parsed, filter)[k]).range.start,
        diagnostics_model(text, parsed, filter)[k].range.end,
    ) by {
        match all_issues(parsed, filter)[k].span() {
            Some(r) => {
                lemma_positions_keep_order(text, r.start as int, r.end as int);
            },
            None => {},
        }
    }
}

}
