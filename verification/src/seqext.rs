//! Facts about sequences that the row tables rely on, beyond what the
//! standard library of sequence lemmas provides.
use vstd::prelude::*;

verus! {

/// Filtering a sequence whose elements carry pairwise-distinct keys yields a
/// sequence whose elements still carry pairwise-distinct keys.
pub proof fn lemma_filter_keeps_distinct<T, K>(s: Seq<T>, pred: spec_fn(T) -> bool, key: spec_fn(T) -> K)
    requires
        forall|i: int, j: int| 0 <= i < j < s.len() ==> key(s[i]) != key(s[j]),
    ensures
        forall|i: int, j: int|
            0 <= i < j < s.filter(pred).len() ==> key(#[trigger] s.filter(pred)[i]) != key(
                #[trigger] s.filter(pred)[j],
            ),
    decreases s.len(),
{
    reveal(Seq::filter);
    if s.len() > 0 {
        let t = s.drop_last();
        assert forall|i: int, j: int| 0 <= i < j < t.len() implies key(t[i]) != key(t[j]) by {
            assert(t[i] == s[i]);
            assert(t[j] == s[j]);
        }
        lemma_filter_keeps_distinct(t, pred, key);
        let f = s.filter(pred);
        let ft = t.filter(pred);
        if pred(s.last()) {
            assert(f == ft.push(s.last()));
            assert forall|i: int, j: int| 0 <= i < j < f.len() implies key(f[i]) != key(f[j]) by {
                if j < f.len() - 1 {
                    assert(f[i] == ft[i]);
                    assert(f[j] == ft[j]);
                } else {
                    assert(f[j] == s.last());
                    assert(f[i] == ft[i]);
                    assert(ft.contains(ft[i]));
                    t.lemma_filter_contains_rev(pred, ft[i]);
                    let m = choose|m: int| 0 <= m < t.len() && t[m] == ft[i];
                    assert(t[m] == s[m]);
                    assert(key(s[m]) != key(s[s.len() - 1]));
                }
            }
        }
    }
}

/// Inserting an element anywhere in a sequence adds exactly that element to
/// the sequence's multiset of elements.
pub proof fn lemma_insert_to_multiset<T>(s: Seq<T>, i: int, x: T)
    requires
        0 <= i <= s.len(),
    ensures
        s.insert(i, x).to_multiset() =~= s.to_multiset().insert(x),
{
    broadcast use vstd::seq_lib::group_to_multiset_ensures, vstd::seq_lib::lemma_multiset_commutative, vstd::multiset::group_multiset_axioms;

    let a = s.subrange(0, i);
    let b = s.subrange(i, s.len() as int);
    assert(s.insert(i, x) == a.push(x) + b);
    assert((a.push(x) + b).to_multiset() =~= a.push(x).to_multiset().add(b.to_multiset()));
    assert(a.push(x).to_multiset() =~= a.to_multiset().insert(x));
    assert(a + b =~= s);
    assert((a + b).to_multiset() =~= a.to_multiset().add(b.to_multiset()));
}

} // verus!
