//! Comparisons of strings by their bytes.

use vstd::prelude::*;
use vstd::string::*;
use vstd::utf8::*;

verus! {

/// The byte `b` with an ASCII capital letter replaced by its small letter.
pub open spec fn fold_ascii(b: u8) -> u8 {
    if 65 <= b <= 90 {
        (b + 32) as u8
    } else {
        b
    }
}

/// Both byte strings have the same length and differ at most in the case of
/// ASCII letters.
pub open spec fn bytes_match_ignoring_case(x: Seq<u8>, y: Seq<u8>) -> bool {
    x.len() == y.len() && forall|i: int| 0 <= i < x.len() ==> fold_ascii(#[trigger] x[i]) == fold_ascii(y[i])
}

/// Both texts are equal but for the case of ASCII letters. Letters outside
/// ASCII are compared as they stand.
pub open spec fn same_ignoring_ascii_case(a: Seq<char>, b: Seq<char>) -> bool {
    bytes_match_ignoring_case(encode_utf8(a), encode_utf8(b))
}

pub fn fold_ascii_byte(b: u8) -> (r: u8)
    ensures
        r == fold_ascii(b),
{
    if 65 <= b && b <= 90 {
        b + 32
    } else {
        b
    }
}

/// Whether two strings are equal but for the case of ASCII letters.
pub fn eq_ignoring_ascii_case(a: &str, b: &str) -> (r: bool)
    ensures
        r == same_ignoring_ascii_case(a@, b@),
{
    let x = a.as_bytes();
    let y = b.as_bytes();
    if x.len() != y.len() {
        return false;
    }
    let mut i: usize = 0;
    while i < x.len()
        invariant
            x@ == encode_utf8(a@),
            y@ == encode_utf8(b@),
            x@.len() == y@.len(),
            i <= x@.len(),
            forall|j: int| 0 <= j < i ==> fold_ascii(#[trigger] x@[j]) == fold_ascii(y@[j]),
        decreases x@.len() - i,
    {
        if fold_ascii_byte(x[i]) != fold_ascii_byte(y[i]) {
            return false;
        }
        i = i + 1;
    }
    true
}

/// Two texts with the same UTF-8 encoding are the same text.
pub proof fn lemma_encoding_injective(a: Seq<char>, b: Seq<char>)
    requires
        encode_utf8(a) == encode_utf8(b),
    ensures
        a == b,
{
    encode_utf8_decode_utf8(a);
    encode_utf8_decode_utf8(b);
}

/// Whether two strings are equal.
pub fn str_eq(a: &str, b: &str) -> (r: bool)
    ensures
        r == (a@ == b@),
{
    let x = a.as_bytes();
    let y = b.as_bytes();
    if x.len() != y.len() {
        return false;
    }
    let mut i: usize = 0;
    while i < x.len()
        invariant
            x@ == encode_utf8(a@),
            y@ == encode_utf8(b@),
            x@.len() == y@.len(),
            i <= x@.len(),
            forall|j: int| 0 <= j < i ==> x@[j] == y@[j],
        decreases x@.len() - i,
    {
        if x[i] != y[i] {
            return false;
        }
        i = i + 1;
    }
    proof {
        assert(x@ =~= y@);
        lemma_encoding_injective(a@, b@);
    }
    true
}

/// Whether `text` ends with `suffix`.
pub open spec fn ends_with(text: Seq<char>, suffix: Seq<char>) -> bool {
    suffix.len() <= text.len() && text.subrange(text.len() - suffix.len(), text.len() as int)
        == suffix
}

}
