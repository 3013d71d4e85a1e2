//! Facts about sequences and the sets of their elements.

use vstd::prelude::*;

verus! {

/// The elements of a sequence with one more at its end are those of the
/// sequence and the new one.
pub proof fn lemma_push_to_set<A>(s: Seq<A>, a: A)
    ensures
        s.push(a).to_set() == s.to_set().insert(a),
{
    let longer = s.push(a);
    assert forall|v: A| longer.to_set().contains(v) == s.to_set().insert(a).contains(v) by {
        if longer.contains(v) {
            let k = choose|k: int| 0 <= k < longer.len() && longer[k] == v;
            if k < s.len() {
                assert(s[k] == v);
            }
        }
        if s.contains(v) {
            let k = choose|k: int| 0 <= k < s.len() && s[k] == v;
            assert(longer[k] == v);
        }
        if v == a {
            assert(longer[s.len() as int] == v);
        }
    }
    assert(longer.to_set() =~= s.to_set().insert(a));
}

/// An element of a sequence without duplicates does not occur before its
/// own position.
pub proof fn lemma_not_in_prefix<A>(s: Seq<A>, i: int)
    requires
        s.no_duplicates(),
        0 <= i < s.len(),
    ensures
        !s.take(i).contains(s[i]),
{
    let prefix = s.take(i);
    if prefix.contains(s[i]) {
        let k = choose|k: int| 0 <= k < prefix.len() && prefix[k] == s[i];
        assert(s[k] == s[i]);
    }
}

} // verus!
