//! The order of texts by their UTF-8 bytes, which is the order of `str`.

use vstd::prelude::*;

verus! {

/// Whether one byte string comes strictly before another, lexicographically;
/// a proper prefix comes first.
pub open spec fn bytes_before(a: Seq<u8>, b: Seq<u8>) -> bool
    decreases a.len(),
{
    if a.len() == 0 {
        b.len() > 0
    } else if b.len() == 0 {
        false
    } else if a[0] != b[0] {
        a[0] < b[0]
    } else {
        bytes_before(a.drop_first(), b.drop_first())
    }
}

/// No byte string comes before itself.
pub proof fn lemma_bytes_before_irreflexive(a: Seq<u8>)
    ensures
        !bytes_before(a, a),
    decreases a.len(),
{
    if a.len() > 0 {
        lemma_bytes_before_irreflexive(a.drop_first());
    }
}

/// Of two different byte strings, one comes before the other, and not both.
pub proof fn lemma_bytes_before_total(a: Seq<u8>, b: Seq<u8>)
    ensures
        a != b ==> bytes_before(a, b) || bytes_before(b, a),
        !(bytes_before(a, b) && bytes_before(b, a)),
    decreases a.len(),
{
    if a.len() > 0 && b.len() > 0 && a[0] == b[0] {
        lemma_bytes_before_total(a.drop_first(), b.drop_first());
        if a != b {
            assert(a =~= seq![a[0]] + a.drop_first());
            assert(b =~= seq![b[0]] + b.drop_first());
        }
    } else if a.len() == 0 && b.len() == 0 {
        assert(a =~= b);
    }
}

/// The order is transitive.
pub proof fn lemma_bytes_before_transitive(a: Seq<u8>, b: Seq<u8>, c: Seq<u8>)
    requires
        bytes_before(a, b),
        bytes_before(b, c),
    ensures
        bytes_before(a, c),
    decreases a.len(),
{
    if a.len() > 0 && b.len() > 0 && c.len() > 0 && a[0] == b[0] && b[0] == c[0] {
        lemma_bytes_before_transitive(a.drop_first(), b.drop_first(), c.drop_first());
    }
}

/// Compares two byte strings in that order.
pub fn bytes_come_before(a: &[u8], b: &[u8]) -> (before: bool)
    ensures
        before == bytes_before(a@, b@),
{
    let mut index: usize = 0;
    assert(a@.skip(0) =~= a@);
    assert(b@.skip(0) =~= b@);
    while index < a.len() && index < b.len() && a[index] == b[index]
        invariant
            index <= a@.len(),
            index <= b@.len(),
            bytes_before(a@, b@) == bytes_before(a@.skip(index as int), b@.skip(index as int)),
        decreases a@.len() - index,
    {
        proof {
            assert(a@.skip(index as int).drop_first() =~= a@.skip(index as int + 1));
            assert(b@.skip(index as int).drop_first() =~= b@.skip(index as int + 1));
        }
        index += 1;
    }
    if index < a.len() && index < b.len() {
        a[index] < b[index]
    } else {
        index == a.len() && index < b.len()
    }
}

} // verus!
