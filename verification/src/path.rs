//! Paths as the native side sees them: byte strings that end at the first
//! NUL byte. A path with a NUL inside cannot be handed over whole.

use vstd::prelude::*;

verus! {

/// No byte of the path is NUL.
pub open spec fn is_native_path(bytes: Seq<u8>) -> bool {
    forall|i: int| 0 <= i < bytes.len() ==> bytes[i] != 0u8
}

/// Says whether the path can be handed to the native side unchanged.
pub fn check_native_path(bytes: &[u8]) -> (ok: bool)
    ensures
        ok == is_native_path(bytes@),
{
    let mut i: usize = 0;
    while i < bytes.len()
        invariant
            i <= bytes.len(),
            forall|j: int| 0 <= j < i ==> bytes@[j] != 0u8,
        decreases bytes.len() - i,
    {
        if bytes[i] == 0u8 {
            return false;
        }
        i = i + 1;
    }
    true
}

/// Says whether two paths are the same byte string.
pub fn same_path(a: &[u8], b: &[u8]) -> (eq: bool)
    ensures
        eq == (a@ == b@),
{
    if a.len() != b.len() {
        return false;
    }
    let mut i: usize = 0;
    while i < a.len()
        invariant
            i <= a.len(),
            a.len() == b.len(),
            forall|j: int| 0 <= j < i ==> a@[j] == b@[j],
        decreases a.len() - i,
    {
        if a[i] != b[i] {
            return false;
        }
        i = i + 1;
    }
    assert(a@ =~= b@);
    true
}

} // verus!
