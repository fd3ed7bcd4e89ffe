//! The names of the catalogue differ from one another by more than case,
//! and no completion label occurs twice.

use vstd::prelude::*;
use vstd::utf8::*;
use crate::control::completion::completion_items;
use crate::control::fields::field_names;
use crate::control::fields::first_match;
use crate::control::fields::lemma_first_match_matches;
use crate::control::fields::miscased;
use crate::control::fields::package_names;
use crate::control::fields::standard_name;
use crate::strings::fold_ascii;
use crate::strings::same_ignoring_ascii_case;

verus! {

/// What tells the names of the catalogue apart: the length and the first
/// three bytes, letters taken as small letters.
pub open spec fn signature(name: Seq<char>) -> (nat, u8, u8, u8) {
    let bytes = encode_utf8(name);
    (bytes.len(), fold_ascii(bytes[0]), fold_ascii(bytes[1]), fold_ascii(bytes[2]))
}

/// The signature of name `i` of the catalogue.
pub open spec fn catalogue_signature(i: int) -> (nat, u8, u8, u8) {
    if i == 0 {
        (6, 115, 111, 117)
    } else if i == 1 {
        (7, 115, 101, 99)
    } else if i == 2 {
        (8, 112, 114, 105)
    } else if i == 3 {
        (10, 109, 97, 105)
    } else if i == 4 {
        (9, 117, 112, 108)
    } else if i == 5 {
        (13, 98, 117, 105)
    } else if i == 6 {
        (19, 98, 117, 105)
    } else if i == 7 {
        (15, 98, 117, 105)
    } else if i == 8 {
        (17, 115, 116, 97)
    } else if i == 9 {
        (8, 104, 111, 109)
    } else if i == 10 {
        (11, 118, 99, 115)
    } else if i == 11 {
        (7, 118, 99, 115)
    } else if i == 12 {
        (7, 112, 97, 99)
    } else if i == 13 {
        (12, 97, 114, 99)
    } else if i == 14 {
        (10, 109, 117, 108)
    } else if i == 15 {
        (7, 100, 101, 112)
    } else if i == 16 {
        (11, 112, 114, 101)
    } else if i == 17 {
        (10, 114, 101, 99)
    } else if i == 18 {
        (8, 115, 117, 103)
    } else if i == 19 {
        (8, 101, 110, 104)
    } else if i == 20 {
        (9, 99, 111, 110)
    } else if i == 21 {
        (6, 98, 114, 101)
    } else if i == 22 {
        (8, 112, 114, 111)
    } else if i == 23 {
        (8, 114, 101, 112)
    } else if i == 24 {
        (11, 100, 101, 115)
    } else if i == 25 {
        (9, 101, 115, 115)
    } else if i == 26 {
        (19, 114, 117, 108)
    } else {
        (0, 0, 0, 0)
    }
}

/// Names that are equal but for case have the same signature.
pub proof fn lemma_same_signature(a: Seq<char>, b: Seq<char>)
    requires
        same_ignoring_ascii_case(a, b),
        encode_utf8(a).len() >= 3,
    ensures
        signature(a) == signature(b),
{
    let x = encode_utf8(a);
    let y = encode_utf8(b);
    assert(fold_ascii(x[0]) == fold_ascii(y[0]));
    assert(fold_ascii(x[1]) == fold_ascii(y[1]));
    assert(fold_ascii(x[2]) == fold_ascii(y[2]));
}

proof fn lemma_signature_of_source()
    ensures
        is_ascii_chars("Source"@),
        "Source"@.len() > 0,
        "Source"@[0] <= 'Z',
        signature("Source"@) == (6nat, 115u8, 111u8, 117u8),
{
    reveal_strlit("Source");
    is_ascii_chars_encode_utf8("Source"@);
}

proof fn lemma_signature_of_section()
    ensures
        is_ascii_chars("Section"@),
        "Section"@.len() > 0,
        "Section"@[0] <= 'Z',
        signature("Section"@) == (7nat, 115u8, 101u8, 99u8),
{
    reveal_strlit("Section");
    is_ascii_chars_encode_utf8("Section"@);
}

proof fn lemma_signature_of_priority()
    ensures
        is_ascii_chars("Priority"@),
        "Priority"@.len() > 0,
        "Priority"@[0] <= 'Z',
        signature("Priority"@) == (8nat, 112u8, 114u8, 105u8),
{
    reveal_strlit("Priority");
    is_ascii_chars_encode_utf8("Priority"@);
}

proof fn lemma_signature_of_maintainer()
    ensures
        is_ascii_chars("Maintainer"@),
        "Maintainer"@.len() > 0,
        "Maintainer"@[0] <= 'Z',
        signature("Maintainer"@) == (10nat, 109u8, 97u8, 105u8),
{
    reveal_strlit("Maintainer");
    is_ascii_chars_encode_utf8("Maintainer"@);
}

proof fn lemma_signature_of_uploaders()
    ensures
        is_ascii_chars("Uploaders"@),
        "Uploaders"@.len() > 0,
        "Uploaders"@[0] <= 'Z',
        signature("Uploaders"@) == (9nat, 117u8, 112u8, 108u8),
{
    reveal_strlit("Uploaders");
    is_ascii_chars_encode_utf8("Uploaders"@);
}

proof fn lemma_signature_of_build_depends()
    ensures
        is_ascii_chars("Build-Depends"@),
        "Build-Depends"@.len() > 0,
        "Build-Depends"@[0] <= 'Z',
        signature("Build-Depends"@) == (13nat, 98u8, 117u8, 105u8),
{
    reveal_strlit("Build-Depends");
    is_ascii_chars_encode_utf8("Build-Depends"@);
}

proof fn lemma_signature_of_build_depends_indep()
    ensures
        is_ascii_chars("Build-Depends-Indep"@),
        "Build-Depends-Indep"@.len() > 0,
        "Build-Depends-Indep"@[0] <= 'Z',
        signature("Build-Depends-Indep"@) == (19nat, 98u8, 117u8, 105u8),
{
    reveal_strlit("Build-Depends-Indep");
    is_ascii_chars_encode_utf8("Build-Depends-Indep"@);
}

proof fn lemma_signature_of_build_conflicts()
    ensures
        is_ascii_chars("Build-Conflicts"@),
        "Build-Conflicts"@.len() > 0,
        "Build-Conflicts"@[0] <= 'Z',
        signature("Build-Conflicts"@) == (15nat, 98u8, 117u8, 105u8),
{
    reveal_strlit("Build-Conflicts");
    is_ascii_chars_encode_utf8("Build-Conflicts"@);
}

proof fn lemma_signature_of_standards_version()
    ensures
        is_ascii_chars("Standards-Version"@),
        "Standards-Version"@.len() > 0,
        "Standards-Version"@[0] <= 'Z',
        signature("Standards-Version"@) == (17nat, 115u8, 116u8, 97u8),
{
    reveal_strlit("Standards-Version");
    is_ascii_chars_encode_utf8("Standards-Version"@);
}

proof fn lemma_signature_of_homepage()
    ensures
        is_ascii_chars("Homepage"@),
        "Homepage"@.len() > 0,
        "Homepage"@[0] <= 'Z',
        signature("Homepage"@) == (8nat, 104u8, 111u8, 109u8),
{
    reveal_strlit("Homepage");
    is_ascii_chars_encode_utf8("Homepage"@);
}

proof fn lemma_signature_of_vcs_browser()
    ensures
        is_ascii_chars("Vcs-Browser"@),
        "Vcs-Browser"@.len() > 0,
        "Vcs-Browser"@[0] <= 'Z',
        signature("Vcs-Browser"@) == (11nat, 118u8, 99u8, 115u8),
{
    reveal_strlit("Vcs-Browser");
    is_ascii_chars_encode_utf8("Vcs-Browser"@);
}

proof fn lemma_signature_of_vcs_git()
    ensures
        is_ascii_chars("Vcs-Git"@),
        "Vcs-Git"@.len() > 0,
        "Vcs-Git"@[0] <= 'Z',
        signature("Vcs-Git"@) == (7nat, 118u8, 99u8, 115u8),
{
    reveal_strlit("Vcs-Git");
    is_ascii_chars_encode_utf8("Vcs-Git"@);
}

proof fn lemma_signature_of_package()
    ensures
        is_ascii_chars("Package"@),
        "Package"@.len() > 0,
        "Package"@[0] <= 'Z',
        signature("Package"@) == (7nat, 112u8, 97u8, 99u8),
{
    reveal_strlit("Package");
    is_ascii_chars_encode_utf8("Package"@);
}

proof fn lemma_signature_of_architecture()
    ensures
        is_ascii_chars("Architecture"@),
        "Architecture"@.len() > 0,
        "Architecture"@[0] <= 'Z',
        signature("Architecture"@) == (12nat, 97u8, 114u8, 99u8),
{
    reveal_strlit("Architecture");
    is_ascii_chars_encode_utf8("Architecture"@);
}

proof fn lemma_signature_of_multi_arch()
    ensures
        is_ascii_chars("Multi-Arch"@),
        "Multi-Arch"@.len() > 0,
        "Multi-Arch"@[0] <= 'Z',
        signature("Multi-Arch"@) == (10nat, 109u8, 117u8, 108u8),
{
    reveal_strlit("Multi-Arch");
    is_ascii_chars_encode_utf8("Multi-Arch"@);
}

proof fn lemma_signature_of_depends()
    ensures
        is_ascii_chars("Depends"@),
        "Depends"@.len() > 0,
        "Depends"@[0] <= 'Z',
        signature("Depends"@) == (7nat, 100u8, 101u8, 112u8),
{
    reveal_strlit("Depends");
    is_ascii_chars_encode_utf8("Depends"@);
}

proof fn lemma_signature_of_pre_depends()
    ensures
        is_ascii_chars("Pre-Depends"@),
        "Pre-Depends"@.len() > 0,
        "Pre-Depends"@[0] <= 'Z',
        signature("Pre-Depends"@) == (11nat, 112u8, 114u8, 101u8),
{
    reveal_strlit("Pre-Depends");
    is_ascii_chars_encode_utf8("Pre-Depends"@);
}

proof fn lemma_signature_of_recommends()
    ensures
        is_ascii_chars("Recommends"@),
        "Recommends"@.len() > 0,
        "Recommends"@[0] <= 'Z',
        signature("Recommends"@) == (10nat, 114u8, 101u8, 99u8),
{
    reveal_strlit("Recommends");
    is_ascii_chars_encode_utf8("Recommends"@);
}

proof fn lemma_signature_of_suggests()
    ensures
        is_ascii_chars("Suggests"@),
        "Suggests"@.len() > 0,
        "Suggests"@[0] <= 'Z',
        signature("Suggests"@) == (8nat, 115u8, 117u8, 103u8),
{
    reveal_strlit("Suggests");
    is_ascii_chars_encode_utf8("Suggests"@);
}

proof fn lemma_signature_of_enhances()
    ensures
        is_ascii_chars("Enhances"@),
        "Enhances"@.len() > 0,
        "Enhances"@[0] <= 'Z',
        signature("Enhances"@) == (8nat, 101u8, 110u8, 104u8),
{
    reveal_strlit("Enhances");
    is_ascii_chars_encode_utf8("Enhances"@);
}

proof fn lemma_signature_of_conflicts()
    ensures
        is_ascii_chars("Conflicts"@),
        "Conflicts"@.len() > 0,
        "Conflicts"@[0] <= 'Z',
        signature("Conflicts"@) == (9nat, 99u8, 111u8, 110u8),
{
    reveal_strlit("Conflicts");
    is_ascii_chars_encode_utf8("Conflicts"@);
}

proof fn lemma_signature_of_breaks()
    ensures
        is_ascii_chars("Breaks"@),
        "Breaks"@.len() > 0,
        "Breaks"@[0] <= 'Z',
        signature("Breaks"@) == (6nat, 98u8, 114u8, 101u8),
{
    reveal_strlit("Breaks");
    is_ascii_chars_encode_utf8("Breaks"@);
}

proof fn lemma_signature_of_provides()
    ensures
        is_ascii_chars("Provides"@),
        "Provides"@.len() > 0,
        "Provides"@[0] <= 'Z',
        signature("Provides"@) == (8nat, 112u8, 114u8, 111u8),
{
    reveal_strlit("Provides");
    is_ascii_chars_encode_utf8("Provides"@);
}

proof fn lemma_signature_of_replaces()
    ensures
        is_ascii_chars("Replaces"@),
        "Replaces"@.len() > 0,
        "Replaces"@[0] <= 'Z',
        signature("Replaces"@) == (8nat, 114u8, 101u8, 112u8),
{
    reveal_strlit("Replaces");
    is_ascii_chars_encode_utf8("Replaces"@);
}

proof fn lemma_signature_of_description()
    ensures
        is_ascii_chars("Description"@),
        "Description"@.len() > 0,
        "Description"@[0] <= 'Z',
        signature("Description"@) == (11nat, 100u8, 101u8, 115u8),
{
    reveal_strlit("Description");
    is_ascii_chars_encode_utf8("Description"@);
}

proof fn lemma_signature_of_essential()
    ensures
        is_ascii_chars("Essential"@),
        "Essential"@.len() > 0,
        "Essential"@[0] <= 'Z',
        signature("Essential"@) == (9nat, 101u8, 115u8, 115u8),
{
    reveal_strlit("Essential");
    is_ascii_chars_encode_utf8("Essential"@);
}

proof fn lemma_signature_of_rules_requires_root()
    ensures
        is_ascii_chars("Rules-Requires-Root"@),
        "Rules-Requires-Root"@.len() > 0,
        "Rules-Requires-Root"@[0] <= 'Z',
        signature("Rules-Requires-Root"@) == (19nat, 114u8, 117u8, 108u8),
{
    reveal_strlit("Rules-Requires-Root");
    is_ascii_chars_encode_utf8("Rules-Requires-Root"@);
}

/// Each name of the catalogue has the signature listed for it.
pub proof fn lemma_catalogue_signatures()
    ensures
        field_names().len() == 27,
        forall|i: int| 0 <= i < 27 ==> signature(#[trigger] field_names()[i]) == catalogue_signature(i),
        forall|i: int| 0 <= i < 27 ==> (#[trigger] field_names()[i]).len() > 0 && field_names()[i][0] <= 'Z',
        forall|i: int| 0 <= i < 27 ==> is_ascii_chars(#[trigger] field_names()[i]),
{
    lemma_signature_of_source();
    lemma_signature_of_section();
    lemma_signature_of_priority();
    lemma_signature_of_maintainer();
    lemma_signature_of_uploaders();
    lemma_signature_of_build_depends();
    lemma_signature_of_build_depends_indep();
    lemma_signature_of_build_conflicts();
    lemma_signature_of_standards_version();
    lemma_signature_of_homepage();
    lemma_signature_of_vcs_browser();
    lemma_signature_of_vcs_git();
    lemma_signature_of_package();
    lemma_signature_of_architecture();
    lemma_signature_of_multi_arch();
    lemma_signature_of_depends();
    lemma_signature_of_pre_depends();
    lemma_signature_of_recommends();
    lemma_signature_of_suggests();
    lemma_signature_of_enhances();
    lemma_signature_of_conflicts();
    lemma_signature_of_breaks();
    lemma_signature_of_provides();
    lemma_signature_of_replaces();
    lemma_signature_of_description();
    lemma_signature_of_essential();
    lemma_signature_of_rules_requires_root();
}

/// No two names of the catalogue are equal but for case.
pub proof fn lemma_field_names_distinct()
    ensures
        forall|i: int, j: int|
            0 <= i < field_names().len() && 0 <= j < field_names().len() && i != j
                ==> !same_ignoring_ascii_case(#[trigger] field_names()[i], #[trigger] field_names()[j]),
{
    lemma_catalogue_signatures();
    assert forall|i: int, j: int|
        0 <= i < field_names().len() && 0 <= j < field_names().len() && i != j
        implies !same_ignoring_ascii_case(
        #[trigger] field_names()[i],
        #[trigger] field_names()[j],
    ) by {
        if same_ignoring_ascii_case(field_names()[i], field_names()[j]) {
            assert(signature(field_names()[i]) == catalogue_signature(i));
            assert(signature(field_names()[j]) == catalogue_signature(j));
            lemma_same_signature(field_names()[i], field_names()[j]);
        }
    }
}

/// Among names of which no two are equal but for case, each is the first
/// match of itself.
proof fn lemma_first_match_of_member(names: Seq<Seq<char>>, k: int, from: int)
    requires
        0 <= from <= k < names.len(),
        forall|i: int, j: int|
            0 <= i < names.len() && 0 <= j < names.len() && i != j ==> !same_ignoring_ascii_case(
                #[trigger] names[i],
                #[trigger] names[j],
            ),
    ensures
        first_match(names, names[k], from) == Some(names[k]),
    decreases k - from,
{
    if from < k {
        lemma_first_match_of_member(names, k, from + 1);
    }
}

/// A name in canonical spelling is its own canonical spelling.
pub proof fn lemma_canonical_is_standard(name: Seq<char>)
    requires
        field_names().contains(name),
    ensures
        standard_name(name) == Some(name),
{
    lemma_field_names_distinct();
    let k = choose|k: int| 0 <= k < field_names().len() && field_names()[k] == name;
    lemma_first_match_of_member(field_names(), k, 0);
}

/// A character that is encoded in one byte is an ASCII character.
proof fn lemma_narrow_char_is_ascii(c: char)
    requires
        has_width_1_encoding(c as u32),
    ensures
        '\0' <= c <= '\u{7f}',
{
}

/// A text whose encoding has no byte above 127 is made of ASCII characters.
proof fn lemma_ascii_bytes_ascii_chars(text: Seq<char>)
    requires
        forall|i: int| 0 <= i < encode_utf8(text).len() ==> #[trigger] encode_utf8(text)[i] <= 0x7f,
    ensures
        is_ascii_chars(text),
    decreases text.len(),
{
    if text.len() > 0 {
        let bytes = encode_utf8(text);
        let head = encode_scalar(text[0] as u32);
        let rest = encode_utf8(text.drop_first());
        encode_utf8_first_scalar(text);
        char_is_scalar(text[0]);
        assert(bytes == head + rest);
        assert(bytes[0] <= 0x7f);
        assert(bytes[0] == head[0]);
        assert forall|i: int| 0 <= i < rest.len() implies #[trigger] rest[i] <= 0x7f by {
            assert(rest[i] == bytes[head.len() + i]);
        }
        lemma_ascii_bytes_ascii_chars(text.drop_first());
        assert(is_leading_byte_width_1(bytes[0]));
        assert(length_of_first_scalar(bytes) == 1);
        assert(head.len() == 1);
        assert(has_width_1_encoding(text[0] as u32));
        lemma_narrow_char_is_ascii(text[0]);
        assert forall|i: int| 0 <= i < text.len() implies '\0' <= #[trigger] text[i] <= '\u{7f}' by {
            if i > 0 {
                assert(text[i] == text.drop_first()[i - 1]);
            }
        }
    }
}

/// A name with a character outside ASCII is no field of the catalogue, in
/// any case.
pub proof fn lemma_non_ascii_name_is_unknown(name: Seq<char>)
    requires
        !is_ascii_chars(name),
    ensures
        standard_name(name) is None,
{
    lemma_catalogue_signatures();
    lemma_first_match_matches(field_names(), name, 0);
    if standard_name(name) is Some {
        let found = standard_name(name)->0;
        let k = choose|k: int| 0 <= k < field_names().len() && field_names()[k] == found;
        assert(is_ascii_chars(field_names()[k]));
        is_ascii_chars_encode_utf8(found);
        let x = encode_utf8(found);
        let y = encode_utf8(name);
        assert forall|i: int| 0 <= i < y.len() implies #[trigger] y[i] <= 0x7f by {
            assert(fold_ascii(x[i]) == fold_ascii(y[i]));
            assert(x[i] == found[i] as u8);
        }
        lemma_ascii_bytes_ascii_chars(name);
    }
}

/// A name is known to the catalogue under another spelling exactly if some
/// name of the catalogue equals it but for the case of ASCII letters, and
/// is not the name itself.
pub proof fn lemma_miscased_iff(name: Seq<char>)
    ensures
        miscased(name) <==> exists|k: int|
            0 <= k < field_names().len() && same_ignoring_ascii_case(
                #[trigger] field_names()[k],
                name,
            ) && field_names()[k] != name,
{
    lemma_field_names_distinct();
    lemma_first_match_matches(field_names(), name, 0);
    if miscased(name) {
        let found = standard_name(name)->0;
        let k = choose|k: int| 0 <= k < field_names().len() && field_names()[k] == found;
        assert(same_ignoring_ascii_case(field_names()[k], name) && field_names()[k] != name);
    }
    if exists|k: int|
        0 <= k < field_names().len() && same_ignoring_ascii_case(#[trigger] field_names()[k], name)
            && field_names()[k] != name {
        let k = choose|k: int|
            0 <= k < field_names().len() && same_ignoring_ascii_case(
                #[trigger] field_names()[k],
                name,
            ) && field_names()[k] != name;
        let found = standard_name(name)->0;
        let j = choose|j: int| 0 <= j < field_names().len() && field_names()[j] == found;
        assert(same_ignoring_ascii_case(field_names()[j], field_names()[k]));
        assert(j == k);
    }
}

/// What tells the common package names apart: the length and the first
/// character of name `i`.
pub open spec fn package_signature(i: int) -> (nat, char) {
    if i == 0 {
        (16, 'd')
    } else if i == 1 {
        (9, 'd')
    } else if i == 2 {
        (11, 'p')
    } else if i == 3 {
        (18, 'p')
    } else if i == 4 {
        (5, 'c')
    } else if i == 5 {
        (10, 'p')
    } else if i == 6 {
        (10, 'l')
    } else if i == 7 {
        (9, 'l')
    } else {
        (0, ' ')
    }
}

/// Each common package name has the length and the first character listed
/// for it.
pub proof fn lemma_package_signatures()
    ensures
        package_names().len() == 8,
        forall|i: int|
            0 <= i < 8 ==> ((#[trigger] package_names()[i]).len(), package_names()[i][0])
                == package_signature(i),
{
    assert(package_names()[0].len() == 16 && package_names()[0][0] == 'd') by {
        reveal_strlit("debhelper-compat");
    }
    assert(package_names()[1].len() == 9 && package_names()[1][0] == 'd') by {
        reveal_strlit("dh-python");
    }
    assert(package_names()[2].len() == 11 && package_names()[2][0] == 'p') by {
        reveal_strlit("python3-all");
    }
    assert(package_names()[3].len() == 18 && package_names()[3][0] == 'p') by {
        reveal_strlit("python3-setuptools");
    }
    assert(package_names()[4].len() == 5 && package_names()[4][0] == 'c') by {
        reveal_strlit("cmake");
    }
    assert(package_names()[5].len() == 10 && package_names()[5][0] == 'p') by {
        reveal_strlit("pkg-config");
    }
    assert(package_names()[6].len() == 10 && package_names()[6][0] == 'l') by {
        reveal_strlit("libssl-dev");
    }
    assert(package_names()[7].len() == 9 && package_names()[7][0] == 'l') by {
        reveal_strlit("libc6-dev");
    }
}

/// No label is offered twice: the items of a `control` file have labels
/// that differ from one another.
pub proof fn lemma_labels_distinct()
    ensures
        forall|i: int, j: int|
            0 <= i < completion_items(true).len() && 0 <= j < completion_items(true).len() && i
                != j ==> (#[trigger] completion_items(true)[i]).label != (
            #[trigger] completion_items(true)[j]).label,
{
    lemma_catalogue_signatures();
    lemma_field_names_distinct();
    lemma_package_signatures();
    let items = completion_items(true);
    assert forall|i: int, j: int| 0 <= i < items.len() && 0 <= j < items.len() && i != j implies (
    #[trigger] items[i]).label != (#[trigger] items[j]).label by {
        if i < 27 && j < 27 {
            assert(items[i].label == field_names()[i]);
            assert(items[j].label == field_names()[j]);
            assert(!same_ignoring_ascii_case(field_names()[i], field_names()[j]));
        } else if i >= 27 && j >= 27 {
            assert(items[i].label == package_names()[i - 27]);
            assert(items[j].label == package_names()[j - 27]);
            assert((package_names()[i - 27].len(), package_names()[i - 27][0])
                == package_signature(i - 27));
            assert((package_names()[j - 27].len(), package_names()[j - 27][0])
                == package_signature(j - 27));
        } else if i < 27 {
            assert(items[i].label == field_names()[i]);
            assert(items[j].label == package_names()[j - 27]);
            assert((package_names()[j - 27].len(), package_names()[j - 27][0])
                == package_signature(j - 27));
        } else {
            assert(items[j].label == field_names()[j]);
            assert(items[i].label == package_names()[i - 27]);
            assert((package_names()[i - 27].len(), package_names()[i - 27][0])
                == package_signature(i - 27));
        }
    }
}

}
