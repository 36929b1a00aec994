//! Byte strings: comparison, prefixes, copies and UTF-8 validity.

use vstd::prelude::*;
use vstd::slice::slice_to_vec;
use vstd::string::StringSliceAdditionalSpecFns;
use vstd::utf8::valid_utf8;

verus! {

/// The bytes of a string literal, as they appear in an argument vector.
pub open spec fn lit(s: &str) -> Seq<u8> {
    s.spec_bytes()
}

/// The bytes of an ASCII literal are its characters, one byte each.
pub proof fn lemma_ascii_lit(s: &str)
    requires
        vstd::string::is_ascii(s),
    ensures
        lit(s).len() == s@.len(),
        forall|i: int| 0 <= i < s@.len() ==> #[trigger] lit(s)[i] == s@[i] as u8,
{
    vstd::string::is_ascii_spec_bytes(s);
}

/// A list of byte strings seen as a sequence of byte sequences.
pub open spec fn byte_strings(v: Seq<Vec<u8>>) -> Seq<Seq<u8>> {
    v.map_values(|a: Vec<u8>| a@)
}

/// `s` begins with `p`.
pub open spec fn has_prefix(s: Seq<u8>, p: Seq<u8>) -> bool {
    p.len() <= s.len() && s.take(p.len() as int) =~= p
}

/// Byte-wise equality of two byte strings.
pub fn bytes_eq(a: &[u8], b: &[u8]) -> (r: bool)
    ensures
        r == (a@ == b@),
{
    if a.len() != b.len() {
        return false;
    }
    let mut i: usize = 0;
    while i < a.len()
        invariant
            a@.len() == b@.len(),
            i <= a@.len(),
            forall|j: int| 0 <= j < i ==> a@[j] == b@[j],
        decreases a@.len() - i,
    {
        if a[i] != b[i] {
            return false;
        }
        i = i + 1;
    }
    assert(a@ =~= b@);
    true
}

/// Whether `s` begins with `prefix`.
pub fn starts_with(s: &[u8], prefix: &[u8]) -> (r: bool)
    ensures
        r == has_prefix(s@, prefix@),
{
    if prefix.len() > s.len() {
        return false;
    }
    let mut i: usize = 0;
    while i < prefix.len()
        invariant
            prefix@.len() <= s@.len(),
            i <= prefix@.len(),
            forall|j: int| 0 <= j < i ==> s@[j] == prefix@[j],
        decreases prefix@.len() - i,
    {
        if s[i] != prefix[i] {
            assert(s@.take(prefix@.len() as int)[i as int] != prefix@[i as int]);
            return false;
        }
        i = i + 1;
    }
    assert(s@.take(prefix@.len() as int) =~= prefix@);
    true
}

/// An owned copy of the bytes of `s`.
pub fn owned(s: &str) -> (r: Vec<u8>)
    ensures
        r@ == lit(s),
{
    slice_to_vec(s.as_bytes())
}

/// An owned copy of `b`.
pub fn copy_bytes(b: &[u8]) -> (r: Vec<u8>)
    ensures
        r@ == b@,
{
    slice_to_vec(b)
}

/// Owned copies of `v[from..]`.
pub fn copy_tail(v: &[Vec<u8>], from: usize) -> (r: Vec<Vec<u8>>)
    requires
        from <= v@.len(),
    ensures
        byte_strings(r@) =~= byte_strings(v@).skip(from as int),
{
    let mut r: Vec<Vec<u8>> = Vec::new();
    let mut i: usize = from;
    while i < v.len()
        invariant
            from <= i <= v@.len(),
            byte_strings(r@) =~= byte_strings(v@).subrange(from as int, i as int),
        decreases v@.len() - i,
    {
        let c = copy_bytes(v[i].as_slice());
        let ghost before = r@;
        r.push(c);
        assert(byte_strings(r@) =~= byte_strings(before).push(v@[i as int]@));
        i = i + 1;
    }
    r
}

/// `std::str::from_utf8`: the bytes read as a string slice exactly when
/// they are well-formed UTF-8, in which case the slice holds those bytes.
#[verifier::external_body]
pub(crate) fn utf8_str(b: &[u8]) -> (r: Option<&str>)
    ensures
        r is Some <==> valid_utf8(b@),
        r matches Some(s) ==> s.spec_bytes() == b@,
{
    std::str::from_utf8(b).ok()
}

/// Whether `b` is well-formed UTF-8.
pub fn is_utf8(b: &[u8]) -> (r: bool)
    ensures
        r == valid_utf8(b@),
{
    utf8_str(b).is_some()
}

} // verus!
