//! Checksums as results, and the comparison by which a copy is accepted.

use vstd::prelude::*;
use crate::algorithm::Algorithm;
use crate::hex::{spec_all_lower_hex, spec_is_lower_hex};
use crate::text::chars_of;

verus! {

/// A checksum together with the algorithm that gave it.
#[derive(Clone, Debug, PartialEq, Eq)]
pub struct Checksum {
    /// The algorithm that gave the checksum.
    pub algorithm: Algorithm,
    /// The digest in hexadecimal.
    pub text: String,
}

/// A `Checksum` with its text as a plain sequence of characters.
pub struct ChecksumView {
    pub algorithm: Algorithm,
    pub text: Seq<char>,
}

impl View for Checksum {
    type V = ChecksumView;

    open spec fn view(&self) -> ChecksumView {
        ChecksumView { algorithm: self.algorithm, text: self.text@ }
    }
}

/// The checksum as plain values, if there is one.
pub open spec fn spec_checksum_view(checksum: Option<Checksum>) -> Option<ChecksumView> {
    match checksum {
        Some(c) => Some(c@),
        None => None,
    }
}

/// The lowercase form of an ASCII capital; every other character as it is.
pub open spec fn spec_lower(c: char) -> char {
    if 'A' <= c && c <= 'Z' {
        ((c as u8 + 32) as u8) as char
    } else {
        c
    }
}

/// The text with its ASCII capitals in lowercase.
pub open spec fn spec_lowercase(text: Seq<char>) -> Seq<char> {
    Seq::new(text.len(), |i: int| spec_lower(text[i]))
}

/// Whether two digests are the same, character for character, once the case
/// of the hexadecimal digits is set aside.
pub open spec fn spec_digests_equal(a: Seq<char>, b: Seq<char>) -> bool {
    spec_lowercase(a) == spec_lowercase(b)
}

/// Whether two checksums agree: the same algorithm and the same digest.
pub open spec fn spec_checksums_match(a: ChecksumView, b: ChecksumView) -> bool {
    a.algorithm == b.algorithm && spec_digests_equal(a.text, b.text)
}

/// The lowercase form of an ASCII capital; every other character as it is.
pub fn lower(c: char) -> (l: char)
    ensures
        l == spec_lower(c),
{
    if 'A' <= c && c <= 'Z' {
        ((c as u8) + 32) as char
    } else {
        c
    }
}

/// Whether two digests are the same once case is set aside.
pub fn digests_equal(a: &str, b: &str) -> (equal: bool)
    ensures
        equal == spec_digests_equal(a@, b@),
{
    let left = chars_of(a);
    let right = chars_of(b);
    if left.len() != right.len() {
        assert(spec_lowercase(a@).len() != spec_lowercase(b@).len());
        return false;
    }
    let mut i: usize = 0;
    while i < left.len()
        invariant
            i <= left.len(),
            left@ == a@,
            right@ == b@,
            left.len() == right.len(),
            forall|j: int| 0 <= j < i ==> spec_lower(left@[j]) == spec_lower(right@[j]),
        decreases left.len() - i,
    {
        if lower(left[i]) != lower(right[i]) {
            assert(spec_lowercase(a@)[i as int] != spec_lowercase(b@)[i as int]);
            return false;
        }
        i += 1;
    }
    assert(spec_lowercase(a@) =~= spec_lowercase(b@));
    true
}

/// Whether two checksums agree.
pub fn checksums_match(a: &Checksum, b: &Checksum) -> (same: bool)
    ensures
        same == spec_checksums_match(a@, b@),
{
    a.algorithm == b.algorithm && digests_equal(a.text.as_str(), b.text.as_str())
}

/// A digest agrees with itself, and agreement does not depend on the side.
pub proof fn lemma_match_is_reflexive_and_symmetric(a: ChecksumView, b: ChecksumView)
    ensures
        spec_checksums_match(a, a),
        spec_checksums_match(a, b) == spec_checksums_match(b, a),
{
}

/// Digests in lowercase agree only if they are equal.
pub proof fn lemma_lowercase_digests_match_only_if_equal(a: Seq<char>, b: Seq<char>)
    requires
        spec_all_lower_hex(a),
        spec_all_lower_hex(b),
        spec_digests_equal(a, b),
    ensures
        a == b,
{
    assert(spec_lowercase(a).len() == spec_lowercase(b).len());
    assert forall|i: int| 0 <= i < a.len() implies a[i] == b[i] by {
        assert(spec_lowercase(a)[i] == spec_lowercase(b)[i]);
        assert(spec_is_lower_hex(a[i]));
        assert(spec_is_lower_hex(b[i]));
    }
    assert(a =~= b);
}

} // verus!
