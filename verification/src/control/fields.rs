//! The catalogue of the fields that Debian policy defines for source and
//! binary paragraphs, and of package names that are common in dependencies.

use vstd::prelude::*;
use crate::strings::eq_ignoring_ascii_case;
use crate::strings::same_ignoring_ascii_case;

verus! {

/// A field of the catalogue: its name in canonical spelling, and what it is for.
pub struct ControlField {
    pub name: &'static str,
    pub description: &'static str,
}

impl ControlField {
    pub fn new(name: &'static str, description: &'static str) -> (field: Self)
        ensures
            field.name == name,
            field.description == description,
    {
        Self { name, description }
    }
}

/// The canonical spellings of the known fields, in catalogue order.
pub open spec fn field_names() -> Seq<Seq<char>> {
    seq![
        "Source"@,
        "Section"@,
        "Priority"@,
        "Maintainer"@,
        "Uploaders"@,
        "Build-Depends"@,
        "Build-Depends-Indep"@,
        "Build-Conflicts"@,
        "Standards-Version"@,
        "Homepage"@,
        "Vcs-Browser"@,
        "Vcs-Git"@,
        "Package"@,
        "Architecture"@,
        "Multi-Arch"@,
        "Depends"@,
        "Pre-Depends"@,
        "Recommends"@,
        "Suggests"@,
        "Enhances"@,
        "Conflicts"@,
        "Breaks"@,
        "Provides"@,
        "Replaces"@,
        "Description"@,
        "Essential"@,
        "Rules-Requires-Root"@,
    ]
}

/// The descriptions of the known fields, in catalogue order.
pub open spec fn field_descriptions() -> Seq<Seq<char>> {
    seq![
        "Name of the source package"@,
        "Classification of the package"@,
        "Priority of the package"@,
        "Package maintainer's name and email"@,
        "Additional maintainers"@,
        "Build dependencies"@,
        "Architecture-independent build dependencies"@,
        "Packages that conflict during build"@,
        "Debian Policy version"@,
        "Upstream project homepage"@,
        "Web interface for VCS"@,
        "Git repository URL"@,
        "Binary package name"@,
        "Supported architectures"@,
        "Multi-architecture support"@,
        "Package dependencies"@,
        "Pre-installation dependencies"@,
        "Recommended packages"@,
        "Suggested packages"@,
        "Packages enhanced by this one"@,
        "Conflicting packages"@,
        "Packages broken by this one"@,
        "Virtual packages provided"@,
        "Packages replaced by this one"@,
        "Package description"@,
        "Essential package flag"@,
        "Root privileges requirement"@,
    ]
}

/// The common package names, in catalogue order.
pub open spec fn package_names() -> Seq<Seq<char>> {
    seq![
        "debhelper-compat"@,
        "dh-python"@,
        "python3-all"@,
        "python3-setuptools"@,
        "cmake"@,
        "pkg-config"@,
        "libssl-dev"@,
        "libc6-dev"@,
    ]
}

/// The catalogue of known fields.
pub fn all_fields() -> (fields: Vec<ControlField>)
    ensures
        fields@.len() == field_names().len(),
        fields@.len() == field_descriptions().len(),
        forall|i: int|
            0 <= i < fields@.len() ==> (#[trigger] fields@[i]).name@ == field_names()[i]
                && fields@[i].description@ == field_descriptions()[i],
{
    let mut fields: Vec<ControlField> = Vec::new();
    fields.push(ControlField::new("Source", "Name of the source package"));
    fields.push(ControlField::new("Section", "Classification of the package"));
    fields.push(ControlField::new("Priority", "Priority of the package"));
    fields.push(ControlField::new("Maintainer", "Package maintainer's name and email"));
    fields.push(ControlField::new("Uploaders", "Additional maintainers"));
    fields.push(ControlField::new("Build-Depends", "Build dependencies"));
    fields.push(ControlField::new("Build-Depends-Indep", "Architecture-independent build dependencies"));
    fields.push(ControlField::new("Build-Conflicts", "Packages that conflict during build"));
    fields.push(ControlField::new("Standards-Version", "Debian Policy version"));
    fields.push(ControlField::new("Homepage", "Upstream project homepage"));
    fields.push(ControlField::new("Vcs-Browser", "Web interface for VCS"));
    fields.push(ControlField::new("Vcs-Git", "Git repository URL"));
    fields.push(ControlField::new("Package", "Binary package name"));
    fields.push(ControlField::new("Architecture", "Supported architectures"));
    fields.push(ControlField::new("Multi-Arch", "Multi-architecture support"));
    fields.push(ControlField::new("Depends", "Package dependencies"));
    fields.push(ControlField::new("Pre-Depends", "Pre-installation dependencies"));
    fields.push(ControlField::new("Recommends", "Recommended packages"));
    fields.push(ControlField::new("Suggests", "Suggested packages"));
    fields.push(ControlField::new("Enhances", "Packages enhanced by this one"));
    fields.push(ControlField::new("Conflicts", "Conflicting packages"));
    fields.push(ControlField::new("Breaks", "Packages broken by this one"));
    fields.push(ControlField::new("Provides", "Virtual packages provided"));
    fields.push(ControlField::new("Replaces", "Packages replaced by this one"));
    fields.push(ControlField::new("Description", "Package description"));
    fields.push(ControlField::new("Essential", "Essential package flag"));
    fields.push(ControlField::new("Rules-Requires-Root", "Root privileges requirement"));
    fields
}

/// Package names that are common in dependency fields.
pub fn common_packages() -> (packages: Vec<&'static str>)
    ensures
        packages@.len() == package_names().len(),
        forall|i: int| 0 <= i < packages@.len() ==> (#[trigger] packages@[i])@ == package_names()[i],
{
    let mut packages: Vec<&'static str> = Vec::new();
    packages.push("debhelper-compat");
    packages.push("dh-python");
    packages.push("python3-all");
    packages.push("python3-setuptools");
    packages.push("cmake");
    packages.push("pkg-config");
    packages.push("libssl-dev");
    packages.push("libc6-dev");
    packages
}

/// The first of `names`, from index `from` on, that equals `name` but for
/// the case of ASCII letters.
pub open spec fn first_match(names: Seq<Seq<char>>, name: Seq<char>, from: int) -> Option<Seq<char>>
    decreases names.len() - from,
{
    if from < 0 || from >= names.len() {
        None
    } else if same_ignoring_ascii_case(names[from], name) {
        Some(names[from])
    } else {
        first_match(names, name, from + 1)
    }
}

/// The canonical spelling of the field that `name` names, whatever the case
/// of its ASCII letters; `None` where the catalogue has no such field.
pub open spec fn standard_name(name: Seq<char>) -> Option<Seq<char>> {
    first_match(field_names(), name, 0)
}

/// A field name as it stands in a document calls for a correction: the
/// catalogue knows it, and spells it otherwise.
pub open spec fn miscased(name: Seq<char>) -> bool {
    standard_name(name) is Some && standard_name(name) != Some(name)
}

/// The view of an optional string.
pub open spec fn opt_view(s: Option<&str>) -> Option<Seq<char>> {
    match s {
        Some(t) => Some(t@),
        None => None,
    }
}

/// The canonical spelling of a field name, found without regard to the case
/// of ASCII letters; `None` for a name that the catalogue does not hold.
pub fn get_standard_field_name(field_name: &str) -> (found: Option<&'static str>)
    ensures
        opt_view(found) == standard_name(field_name@),
{
    let fields = all_fields();
    let mut i: usize = 0;
    while i < fields.len()
        invariant
            i <= fields@.len(),
            fields@.len() == field_names().len(),
            forall|k: int| 0 <= k < fields@.len() ==> (#[trigger] fields@[k]).name@ == field_names()[k],
            first_match(field_names(), field_name@, i as int) == standard_name(field_name@),
        decreases fields@.len() - i,
    {
        if eq_ignoring_ascii_case(fields[i].name, field_name) {
            return Some(fields[i].name);
        }
        i = i + 1;
    }
    None
}

/// What `first_match` finds equals the name sought but for case, and stands
/// among the names.
pub proof fn lemma_first_match_matches(names: Seq<Seq<char>>, name: Seq<char>, from: int)
    requires
        0 <= from,
    ensures
        match first_match(names, name, from) {
            Some(found) => same_ignoring_ascii_case(found, name) && names.contains(found),
            None => forall|k: int| from <= k < names.len() ==> !same_ignoring_ascii_case(#[trigger] names[k], name),
        },
    decreases names.len() - from,
{
    if from < names.len() && !same_ignoring_ascii_case(names[from], name) {
        lemma_first_match_matches(names, name, from + 1);
    }
}

/// Two names that differ only in the case of ASCII letters find the same
/// match.
pub proof fn lemma_first_match_ignores_case(
    names: Seq<Seq<char>>,
    a: Seq<char>,
    b: Seq<char>,
    from: int,
)
    requires
        same_ignoring_ascii_case(a, b),
    ensures
        first_match(names, a, from) == first_match(names, b, from),
    decreases names.len() - from,
{
    if 0 <= from < names.len() {
        lemma_first_match_ignores_case(names, a, b, from + 1);
    }
}

/// The lookup is case-insensitive: names that differ only in the case of
/// ASCII letters have the same canonical spelling, or both none.
pub proof fn lemma_standard_name_ignores_case(a: Seq<char>, b: Seq<char>)
    requires
        same_ignoring_ascii_case(a, b),
    ensures
        standard_name(a) == standard_name(b),
{
    lemma_first_match_ignores_case(field_names(), a, b, 0);
}

/// The lookup is idempotent: a canonical spelling is its own canonical
/// spelling.
pub proof fn lemma_standard_name_idempotent(name: Seq<char>)
    requires
        standard_name(name) is Some,
    ensures
        standard_name(standard_name(name)->0) == standard_name(name),
{
    lemma_first_match_matches(field_names(), name, 0);
    lemma_standard_name_ignores_case(standard_name(name)->0, name);
}

/// What the lookup finds is a name of the catalogue that equals the name
/// sought but for the case of ASCII letters; it finds nothing only where
/// the catalogue has no such name.
pub proof fn lemma_standard_name_matches(name: Seq<char>)
    ensures
        match standard_name(name) {
            Some(found) => field_names().contains(found) && same_ignoring_ascii_case(found, name),
            None => forall|k: int|
                0 <= k < field_names().len() ==> !same_ignoring_ascii_case(
                    #[trigger] field_names()[k],
                    name,
                ),
        },
{
    lemma_first_match_matches(field_names(), name, 0);
}

}
