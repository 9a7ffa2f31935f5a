//! Text is carried as bytes throughout the library: source code, lexemes,
//! names, string values and messages.
use vstd::prelude::*;
use vstd::slice::slice_to_vec;
use vstd::string::StringSliceAdditionalSpecFns;

verus! {

/// Whether two byte strings hold the same bytes.
pub fn bytes_eq(left: &[u8], right: &[u8]) -> (same: bool)
    ensures
        same == (left@ == right@),
{
    if left.len() != right.len() {
        return false;
    }
    let mut i: usize = 0;
    while i < left.len()
        invariant
            left@.len() == right@.len(),
            i <= left@.len(),
            forall|k: int| 0 <= k < i ==> left@[k] == right@[k],
        decreases left@.len() - i,
    {
        if left[i] != right[i] {
            return false;
        }
        i += 1;
    }
    assert(left@ =~= right@);
    true
}

/// An owned copy of a byte string.
pub fn to_bytes(text: &[u8]) -> (copy: Vec<u8>)
    ensures
        copy@ == text@,
{
    slice_to_vec(text)
}

/// The bytes of a string slice.
pub fn str_bytes(text: &str) -> (copy: Vec<u8>)
    ensures
        copy@ == text.spec_bytes(),
{
    slice_to_vec(text.as_bytes())
}

/// Appends `more` to `buffer`.
pub fn push_bytes(buffer: &mut Vec<u8>, more: &[u8])
    ensures
        final(buffer)@ == old(buffer)@ + more@,
{
    let mut i: usize = 0;
    while i < more.len()
        invariant
            i <= more@.len(),
            buffer@ == old(buffer)@ + more@.subrange(0, i as int),
        decreases more@.len() - i,
    {
        buffer.push(more[i]);
        proof {
            assert(more@.subrange(0, i + 1) =~= more@.subrange(0, i as int).push(more@[i as int]));
            assert(buffer@ =~= old(buffer)@ + more@.subrange(0, i + 1));
        }
        i += 1;
    }
    assert(more@.subrange(0, i as int) =~= more@);
}

/// The concatenation of two byte strings.
pub fn concat_bytes(first: &[u8], second: &[u8]) -> (joined: Vec<u8>)
    ensures
        joined@ == first@ + second@,
{
    let mut joined: Vec<u8> = slice_to_vec(first);
    push_bytes(&mut joined, second);
    joined
}

} // verus!
