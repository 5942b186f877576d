use vstd::prelude::*;

verus! {

/// Filtering commutes with appending one element.
pub proof fn lemma_filter_push<A>(s: Seq<A>, pred: spec_fn(A) -> bool, x: A)
    ensures
        s.push(x).filter(pred) == (if pred(x) {
            s.filter(pred).push(x)
        } else {
            s.filter(pred)
        }),
{
    reveal(Seq::filter);
    assert(s.push(x).drop_last() =~= s);
    assert(s.push(x).last() == x);
    assert(s.push(x).len() == s.len() + 1);
}

/// A filter by a weaker predicate keeps every element a stronger filter
/// keeps, so filtering by the stronger one afterwards changes nothing.
pub proof fn lemma_filter_subsumed<A>(s: Seq<A>, strong: spec_fn(A) -> bool, weak: spec_fn(
    A,
) -> bool)
    requires
        forall|x: A| #[trigger] strong(x) ==> weak(x),
    ensures
        s.filter(weak).filter(strong) == s.filter(strong),
    decreases s.len(),
{
    if s.len() == 0 {
        assert(s.filter(weak) == s);
    } else {
        let t = s.drop_last();
        let x = s.last();
        lemma_filter_subsumed(t, strong, weak);
        assert(s == t.push(x));
        lemma_filter_push(t, weak, x);
        lemma_filter_push(t, strong, x);
        if weak(x) {
            lemma_filter_push(t.filter(weak), strong, x);
        }
    }
}

/// Mapping a function commutes with appending one element.
pub proof fn lemma_map_values_push<A, B>(s: Seq<A>, f: spec_fn(A) -> B, x: A)
    ensures
        s.push(x).map_values(f) =~= s.map_values(f).push(f(x)),
{
    assert(forall|i: int| 0 <= i < s.len() ==> s.push(x)[i] == s[i]);
}

/// Every element of a filtered sequence satisfies the predicate and comes
/// from the sequence it was filtered out of.
pub proof fn lemma_filter_elements<A>(s: Seq<A>, pred: spec_fn(A) -> bool, i: int)
    requires
        0 <= i < s.filter(pred).len(),
    ensures
        pred(s.filter(pred)[i]),
        s.contains(s.filter(pred)[i]),
    decreases s.len(),
{
    reveal(Seq::filter);
    if s.len() > 0 {
        let t = s.drop_last();
        if pred(s.last()) && i == s.filter(pred).len() - 1 {
            assert(s[s.len() - 1] == s.filter(pred)[i]);
        } else {
            lemma_filter_elements(t, pred, i);
            let j = choose|j: int| 0 <= j < t.len() && t[j] == t.filter(pred)[i];
            assert(s[j] == t.filter(pred)[i]);
        }
    }
}

}
