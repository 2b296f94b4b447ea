//! Byte-lexicographic order on keys.
use vstd::prelude::*;

verus! {

/// `a` comes no later than `b` in byte-lexicographic order: either `a` is a
/// prefix of `b`, or at the first position where they differ `a` holds the
/// smaller byte.
pub open spec fn key_le(a: Seq<u8>, b: Seq<u8>) -> bool {
    ||| (a.len() <= b.len() && a == b.subrange(0, a.len() as int))
    ||| exists|i: int|
        0 <= i < a.len() && i < b.len() && a.subrange(0, i) == b.subrange(0, i) && #[trigger] a[i]
            < b[i]
}

/// Compares two keys byte by byte.
pub fn key_le_exec(a: &[u8], b: &[u8]) -> (r: bool)
    ensures
        r == key_le(a@, b@),
{
    let mut i: usize = 0;
    while i < a.len() && i < b.len()
        invariant
            i <= a@.len(),
            i <= b@.len(),
            a@.subrange(0, i as int) == b@.subrange(0, i as int),
        decreases a@.len() - i,
    {
        if a[i] != b[i] {
            if a[i] < b[i] {
                assert(a@[i as int] < b@[i as int]);
            } else {
                assert forall|j: int|
                    0 <= j < a@.len() && j < b@.len() && a@.subrange(0, j) == b@.subrange(0, j)
                        implies !(#[trigger] a@[j] < b@[j]) by {
                    if j < i {
                        assert(a@[j] == a@.subrange(0, i as int)[j]);
                        assert(b@[j] == b@.subrange(0, i as int)[j]);
                    } else if j > i {
                        assert(a@[i as int] == a@.subrange(0, j)[i as int]);
                        assert(b@[i as int] == b@.subrange(0, j)[i as int]);
                    }
                }
                proof {
                    if a@.len() <= b@.len() {
                        assert(b@.subrange(0, a@.len() as int)[i as int] == b@[i as int]);
                    }
                }
            }
            return a[i] < b[i];
        }
        assert(a@.subrange(0, i + 1) == a@.subrange(0, i as int).push(a@[i as int]));
        assert(b@.subrange(0, i + 1) == b@.subrange(0, i as int).push(b@[i as int]));
        i = i + 1;
    }
    if a.len() <= b.len() {
        assert(a@.subrange(0, i as int) == a@);
    } else {
        assert forall|j: int|
            0 <= j < a@.len() && j < b@.len() && a@.subrange(0, j) == b@.subrange(0, j)
                implies !(#[trigger] a@[j] < b@[j]) by {
            assert(a@[j] == a@.subrange(0, i as int)[j]);
            assert(b@[j] == b@.subrange(0, i as int)[j]);
        }
        assert(b@.subrange(0, i as int) == b@);
    }
    a.len() <= b.len()
}

} // verus!
