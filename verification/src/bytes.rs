//! Searching byte sequences.

use vstd::prelude::*;

verus! {

/// `needle` stands in `hay` at index `i`.
pub open spec fn occurs_at(hay: Seq<u8>, needle: Seq<u8>, i: int) -> bool {
    &&& 0 <= i
    &&& i + needle.len() <= hay.len()
    &&& hay.subrange(i, i + needle.len()) == needle
}

/// `needle` stands somewhere in `hay`.
pub open spec fn contains(hay: Seq<u8>, needle: Seq<u8>) -> bool {
    exists|i: int| occurs_at(hay, needle, i)
}

/// `i` is the least index at which `needle` stands in `hay`.
pub open spec fn first_occurrence(hay: Seq<u8>, needle: Seq<u8>, i: int) -> bool {
    &&& occurs_at(hay, needle, i)
    &&& forall|j: int| 0 <= j < i ==> !occurs_at(hay, needle, j)
}

/// The least index at which `needle` stands in `hay`; meaningful only where
/// `contains(hay, needle)`.
pub open spec fn first_index(hay: Seq<u8>, needle: Seq<u8>) -> int {
    choose|i: int| first_occurrence(hay, needle, i)
}

/// A least index of occurrence is the only one, so it is `first_index`.
pub proof fn lemma_first_index(hay: Seq<u8>, needle: Seq<u8>, i: int)
    requires
        first_occurrence(hay, needle, i),
    ensures
        contains(hay, needle),
        first_index(hay, needle) == i,
{
    let k = first_index(hay, needle);
    assert(first_occurrence(hay, needle, k));
    if k < i {
        assert(!occurs_at(hay, needle, k));
    } else if i < k {
        assert(!occurs_at(hay, needle, i));
    }
}

/// Below any occurrence there is a least one.
proof fn lemma_least_occurrence(hay: Seq<u8>, needle: Seq<u8>, i: int)
    requires
        occurs_at(hay, needle, i),
    ensures
        exists|k: int| first_occurrence(hay, needle, k),
    decreases i,
{
    if exists|j: int| 0 <= j < i && occurs_at(hay, needle, j) {
        let j = choose|j: int| 0 <= j < i && occurs_at(hay, needle, j);
        lemma_least_occurrence(hay, needle, j);
    } else {
        assert(first_occurrence(hay, needle, i));
    }
}

/// Where `needle` stands in `hay` at all, `first_index` is its least index.
pub proof fn lemma_first_index_exists(hay: Seq<u8>, needle: Seq<u8>)
    requires
        contains(hay, needle),
    ensures
        first_occurrence(hay, needle, first_index(hay, needle)),
{
    let i = choose|i: int| occurs_at(hay, needle, i);
    lemma_least_occurrence(hay, needle, i);
}

/// An occurrence inside a prefix of `hay` is an occurrence in `hay`, and an
/// occurrence in `hay` that ends within the prefix is one in the prefix.
pub proof fn lemma_occurs_in_prefix(hay: Seq<u8>, needle: Seq<u8>, end: int, i: int)
    requires
        0 <= end <= hay.len(),
        0 <= i,
        i + needle.len() <= end,
    ensures
        occurs_at(hay.subrange(0, end), needle, i) == occurs_at(hay, needle, i),
{
    assert(hay.subrange(0, end).subrange(i, i + needle.len()) =~= hay.subrange(
        i,
        i + needle.len(),
    ));
}

/// Calls `memchr::memmem::find`, which returns the index of the first
/// occurrence of `needle` in `hay`, or `None` where there is none.
#[verifier::external_body]
pub(crate) fn find(hay: &[u8], needle: &[u8]) -> (found: Option<usize>)
    requires
        needle@.len() > 0,
    ensures
        match found {
            Some(i) => first_occurrence(hay@, needle@, i as int),
            None => !contains(hay@, needle@),
        },
{
    memchr::memmem::find(hay, needle)
}

/// Whether two texts are the same, character for character.
pub fn str_eq(a: &str, b: &str) -> (same: bool)
    ensures
        same == (a@ == b@),
{
    let left = a.as_bytes();
    let right = b.as_bytes();
    proof {
        vstd::utf8::encode_utf8_decode_utf8(a@);
        vstd::utf8::encode_utf8_decode_utf8(b@);
    }
    if left.len() != right.len() {
        return false;
    }
    let mut i: usize = 0;
    while i < left.len()
        invariant
            i <= left@.len(),
            left@.len() == right@.len(),
            left@ == vstd::utf8::encode_utf8(a@),
            right@ == vstd::utf8::encode_utf8(b@),
            forall|j: int| 0 <= j < i ==> left@[j] == right@[j],
        decreases left@.len() - i,
    {
        if left[i] != right[i] {
            return false;
        }
        i = i + 1;
    }
    assert(left@ =~= right@);
    true
}

/// Calls `std::str::from_utf8` and keeps whether it succeeded: it does
/// exactly where the bytes are valid UTF-8.
#[verifier::external_body]
pub(crate) fn is_utf8(bytes: &[u8]) -> (valid: bool)
    ensures
        valid == vstd::utf8::valid_utf8(bytes@),
{
    std::str::from_utf8(bytes).is_ok()
}

} // verus!
