//! What to offer while a `control` file is written: the known fields, then
//! common package names.

use vstd::prelude::*;
use vstd::string::*;
use crate::control::detection::control_uri;
use crate::control::detection::is_control_file;
use crate::control::fields::all_fields;
use crate::control::fields::common_packages;
use crate::control::fields::field_descriptions;
use crate::control::fields::field_names;
use crate::control::fields::package_names;
use crate::position::Position;

verus! {

/// What a completion item stands for.
#[derive(Clone, Copy, Debug, PartialEq, Eq, Structural)]
pub enum CompletionItemKind {
    Field,
    Value,
}

/// One entry of a completion list.
#[derive(Debug, PartialEq, Eq)]
pub struct CompletionItem {
    pub label: String,
    pub kind: Option<CompletionItemKind>,
    pub detail: Option<String>,
    pub documentation: Option<String>,
    pub insert_text: Option<String>,
}

/// A completion item as a value of mathematics.
pub struct CompletionItemView {
    pub label: Seq<char>,
    pub kind: Option<CompletionItemKind>,
    pub detail: Option<Seq<char>>,
    pub documentation: Option<Seq<char>>,
    pub insert_text: Option<Seq<char>>,
}

impl View for CompletionItem {
    type V = CompletionItemView;

    open spec fn view(&self) -> CompletionItemView {
        CompletionItemView {
            label: self.label@,
            kind: self.kind,
            detail: match self.detail {
                Some(s) => Some(s@),
                None => None,
            },
            documentation: match self.documentation {
                Some(s) => Some(s@),
                None => None,
            },
            insert_text: match self.insert_text {
                Some(s) => Some(s@),
                None => None,
            },
        }
    }
}

/// The views of a sequence of completion items.
pub open spec fn item_views(items: Seq<CompletionItem>) -> Seq<CompletionItemView> {
    items.map_values(|item: CompletionItem| item@)
}

/// The item that offers a field: its canonical name as label, its
/// description as detail and documentation, and the name with a colon and a
/// space as the text to insert.
pub open spec fn field_item(name: Seq<char>, description: Seq<char>) -> CompletionItemView {
    CompletionItemView {
        label: name,
        kind: Some(CompletionItemKind::Field),
        detail: Some(description),
        documentation: Some(description),
        insert_text: Some(name + ": "@),
    }
}

/// The item that offers a package name.
pub open spec fn package_item(name: Seq<char>) -> CompletionItemView {
    CompletionItemView {
        label: name,
        kind: Some(CompletionItemKind::Value),
        detail: Some("Package name"@),
        documentation: None,
        insert_text: None,
    }
}

/// One item for each field of the catalogue, in catalogue order.
pub open spec fn field_items() -> Seq<CompletionItemView> {
    Seq::new(field_names().len(), |i: int| field_item(field_names()[i], field_descriptions()[i]))
}

/// One item for each common package, in catalogue order.
pub open spec fn package_items() -> Seq<CompletionItemView> {
    Seq::new(package_names().len(), |i: int| package_item(package_names()[i]))
}

/// What is offered in a document: in a `control` file the fields and then
/// the packages, elsewhere nothing.
pub open spec fn completion_items(in_control_file: bool) -> Seq<CompletionItemView> {
    if in_control_file {
        field_items() + package_items()
    } else {
        Seq::empty()
    }
}

/// The completion items for the fields of the catalogue.
pub fn get_field_completions() -> (items: Vec<CompletionItem>)
    ensures
        item_views(items@) == field_items(),
{
    let fields = all_fields();
    let mut items: Vec<CompletionItem> = Vec::new();
    let mut i: usize = 0;
    while i < fields.len()
        invariant
            i <= fields@.len(),
            fields@.len() == field_names().len(),
            fields@.len() == field_descriptions().len(),
            forall|k: int|
                0 <= k < fields@.len() ==> (#[trigger] fields@[k]).name@ == field_names()[k]
                    && fields@[k].description@ == field_descriptions()[k],
            items@.len() == i,
            forall|k: int|
                0 <= k < i ==> (#[trigger] items@[k])@ == field_item(
                    field_names()[k],
                    field_descriptions()[k],
                ),
        decreases fields@.len() - i,
    {
        let name: &'static str = fields[i].name;
        let description: &'static str = fields[i].description;
        let item = CompletionItem {
            label: name.to_owned(),
            kind: Some(CompletionItemKind::Field),
            detail: Some(description.to_owned()),
            documentation: Some(description.to_owned()),
            insert_text: Some(name.to_owned().concat(": ")),
        };
        items.push(item);
        i = i + 1;
    }
    assert(item_views(items@) =~= field_items());
    items
}

/// The completion items for the common package names.
pub fn get_package_completions() -> (items: Vec<CompletionItem>)
    ensures
        item_views(items@) == package_items(),
{
    let packages = common_packages();
    let mut items: Vec<CompletionItem> = Vec::new();
    let mut i: usize = 0;
    while i < packages.len()
        invariant
            i <= packages@.len(),
            packages@.len() == package_names().len(),
            forall|k: int| 0 <= k < packages@.len() ==> (#[trigger] packages@[k])@ == package_names()[k],
            items@.len() == i,
            forall|k: int| 0 <= k < i ==> (#[trigger] items@[k])@ == package_item(package_names()[k]),
        decreases packages@.len() - i,
    {
        let name: &'static str = packages[i];
        let item = CompletionItem {
            label: name.to_owned(),
            kind: Some(CompletionItemKind::Value),
            detail: Some("Package name".to_owned()),
            documentation: None,
            insert_text: None,
        };
        items.push(item);
        i = i + 1;
    }
    assert(item_views(items@) =~= package_items());
    items
}

/// The completion items for a document, whatever its kind: those of
/// `get_field_completions`, then those of `get_package_completions`, for a
/// `control` file, and none for another document.
pub fn completions_in(in_control_file: bool) -> (items: Vec<CompletionItem>)
    ensures
        item_views(items@) == completion_items(in_control_file),
{
    if !in_control_file {
        let items: Vec<CompletionItem> = Vec::new();
        assert(item_views(items@) =~= completion_items(false));
        return items;
    }
    let mut items = get_field_completions();
    let mut packages = get_package_completions();
    let ghost first = items@;
    let ghost second = packages@;
    items.append(&mut packages);
    assert(item_views(items@) =~= item_views(first) + item_views(second));
    items
}

/// The completion items at a place in the document that `uri` names. The
/// place does not yet refine what is offered.
pub fn get_completions(uri: &str, _position: Position) -> (items: Vec<CompletionItem>)
    ensures
        item_views(items@) == completion_items(control_uri(uri@)),
{
    completions_in(is_control_file(uri))
}

/// In a `control` file the field `Source` is offered first, and the package
/// `debhelper-compat` first among the packages; elsewhere nothing is offered.
pub proof fn lemma_completions_hold_source_and_debhelper()
    ensures
        completion_items(true).len() == field_names().len() + package_names().len(),
        completion_items(true)[0].label == "Source"@,
        completion_items(true)[0].kind == Some(CompletionItemKind::Field),
        completion_items(true)[field_names().len() as int].label == "debhelper-compat"@,
        completion_items(true)[field_names().len() as int].kind == Some(CompletionItemKind::Value),
        completion_items(false).len() == 0,
{
}

}
