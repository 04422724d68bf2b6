//! Facts about sequences that loops build up.
use vstd::prelude::*;

verus! {

/// Filtering one element more.
pub proof fn lemma_filter_next<A>(s: Seq<A>, keep: spec_fn(A) -> bool, i: int)
    requires
        0 <= i < s.len(),
    ensures
        s.take(i + 1).filter(keep) == if keep(s[i]) {
            s.take(i).filter(keep).push(s[i])
        } else {
            s.take(i).filter(keep)
        },
{
    assert(s.take(i + 1) =~= s.take(i).push(s[i]));
    s.take(i).lemma_filter_push(s[i], keep);
}

/// Filtering nothing.
pub proof fn lemma_filter_start<A>(s: Seq<A>, keep: spec_fn(A) -> bool)
    ensures
        s.take(0).filter(keep) == Seq::<A>::empty(),
{
    reveal(Seq::filter);
    assert(s.take(0).len() == 0);
}

/// Copies rows whose copies hold what they hold.
pub(crate) fn copies<T: View + Clone>(rows: &Vec<T>) -> (r: Vec<T>)
    requires
        forall|a: T, b: T| #[trigger] cloned(a, b) ==> a@ == b@,
    ensures
        r@.map_values(|x: T| x@) == rows@.map_values(|x: T| x@),
{
    let mut out: Vec<T> = Vec::new();
    for i in 0..rows.len()
        invariant
            out@.len() == i,
            forall|a: T, b: T| #[trigger] cloned(a, b) ==> a@ == b@,
            forall|j: int| 0 <= j < i ==> (#[trigger] out@[j])@ == rows@[j]@,
    {
        let row = rows[i].clone();
        assert(cloned(rows@[i as int], row));
        out.push(row);
    }
    assert(out@.map_values(|x: T| x@) =~= rows@.map_values(|x: T| x@));
    out
}

/// What a filter keeps.
pub proof fn lemma_filter_contains<A>(s: Seq<A>, keep: spec_fn(A) -> bool, x: A)
    ensures
        s.filter(keep).contains(x) <==> s.contains(x) && keep(x),
    decreases s.len(),
{
    reveal(Seq::filter);
    if s.len() > 0 {
        let front = s.drop_last();
        lemma_filter_contains(front, keep, x);
        assert(s =~= front.push(s.last()));
        if keep(s.last()) {
            let out = front.filter(keep);
            assert(out.push(s.last())[out.len() as int] == s.last());
            if out.contains(x) {
                let i = choose|i: int| 0 <= i < out.len() && out[i] == x;
                assert(out.push(s.last())[i] == x);
            }
        }
        if front.contains(x) {
            let i = choose|i: int| 0 <= i < front.len() && front[i] == x;
            assert(s[i] == x);
        }
    }
}

} // verus!
