//! Vectors of rows seen as sets, the storage shape of the stores.
use vstd::prelude::*;

verus! {

/// A row of a store: comparable and copyable with a known view.
pub trait Row: View + Sized {
    fn same(&self, other: &Self) -> (r: bool)
        ensures
            r == (self@ == other@),
    ;

    fn duplicate(&self) -> (r: Self)
        ensures
            r@ == self@,
    ;
}

impl Row for String {
    fn same(&self, other: &Self) -> (r: bool) {
        self.eq(other)
    }

    fn duplicate(&self) -> (r: Self) {
        self.clone()
    }
}

/// The set of the views of the rows of `v`.
pub open spec fn row_set<R: View>(v: Seq<R>) -> Set<R::V> {
    Set::new(|x: R::V| exists|i: int| 0 <= i < v.len() && v[i]@ == x)
}

/// No two rows of `v` have the same view.
pub open spec fn distinct_rows<R: View>(v: Seq<R>) -> bool {
    forall|i: int, j: int| 0 <= i < v.len() && 0 <= j < v.len() && i != j ==> v[i]@ != v[j]@
}

/// The rows of a prefix one longer add the row at its end.
pub proof fn lemma_row_set_take_next<R: View>(v: Seq<R>, i: int)
    requires
        0 <= i < v.len(),
    ensures
        row_set(v.take(i + 1)) == row_set(v.take(i)).insert(v[i]@),
{
    let t = v.take(i);
    let t1 = v.take(i + 1);
    assert(row_set(t1) =~= row_set(t).insert(v[i]@)) by {
        assert forall|y: R::V| row_set(t1).contains(y) implies row_set(t).insert(v[i]@).contains(y) by {
            let k = choose|k: int| 0 <= k < t1.len() && t1[k]@ == y;
            if k < i {
                assert(t[k] == t1[k]);
            }
        }
        assert forall|y: R::V| row_set(t).insert(v[i]@).contains(y) implies row_set(t1).contains(y) by {
            if y == v[i]@ {
                assert(t1[i] == v[i]);
            } else {
                let k = choose|k: int| 0 <= k < t.len() && t[k]@ == y;
                assert(t1[k] == t[k]);
            }
        }
    }
}

/// All the rows of `v` are those of its full prefix.
pub proof fn lemma_row_set_take_all<R: View>(v: Seq<R>)
    ensures
        row_set(v.take(v.len() as int)) == row_set(v),
{
    assert(v.take(v.len() as int) =~= v);
}

/// Whether some row of `v` has the view of `x`.
pub fn contains_row<R: Row>(v: &Vec<R>, x: &R) -> (r: bool)
    ensures
        r == row_set(v@).contains(x@),
{
    let mut i: usize = 0;
    while i < v.len()
        invariant
            i <= v.len(),
            forall|j: int| 0 <= j < i ==> v@[j]@ != x@,
        decreases v.len() - i,
    {
        if v[i].same(x) {
            return true;
        }
        i = i + 1;
    }
    assert(!row_set(v@).contains(x@));
    false
}

/// Adds a row unless one with the same view is there.
pub fn insert_row<R: Row>(v: &mut Vec<R>, x: R)
    ensures
        row_set(final(v)@) == row_set(old(v)@).insert(x@),
        distinct_rows(old(v)@) ==> distinct_rows(final(v)@),
{
    if !contains_row(v, &x) {
        let ghost xv = x@;
        v.push(x);
        assert(v@[v@.len() - 1]@ == xv);
        assert(row_set(v@) =~= row_set(old(v)@).insert(xv)) by {
            assert forall|y: R::V| row_set(v@).contains(y) implies row_set(old(v)@).insert(xv).contains(y) by {
                let i = choose|i: int| 0 <= i < v@.len() && v@[i]@ == y;
                if i < old(v)@.len() {
                    assert(old(v)@[i] == v@[i]);
                }
            }
            assert forall|y: R::V| row_set(old(v)@).insert(xv).contains(y) implies row_set(v@).contains(y) by {
                if y != xv {
                    let i = choose|i: int| 0 <= i < old(v)@.len() && old(v)@[i]@ == y;
                    assert(v@[i] == old(v)@[i]);
                }
            }
        }
    } else {
        assert(row_set(old(v)@).insert(x@) =~= row_set(old(v)@));
    }
}

/// Removes every row with the view of `x`.
pub fn remove_row<R: Row>(v: &mut Vec<R>, x: &R)
    ensures
        row_set(final(v)@) == row_set(old(v)@).remove(x@),
        distinct_rows(old(v)@) ==> distinct_rows(final(v)@),
{
    let mut kept: Vec<R> = Vec::new();
    let mut i: usize = 0;
    while i < v.len()
        invariant
            i <= v.len(),
            row_set(kept@) == row_set(v@.take(i as int)).remove(x@),
            forall|a: int| 0 <= a < kept@.len() ==> exists|b: int| 0 <= b < i && #[trigger] v@[b]@ == #[trigger] kept@[a]@,
            distinct_rows(v@) ==> distinct_rows(kept@),
        decreases v.len() - i,
    {
        let ghost before = kept@;
        if !v[i].same(x) {
            let r = v[i].duplicate();
            kept.push(r);
            proof {
                assert(kept@[kept@.len() - 1]@ == v@[i as int]@);
            }
        }
        proof {
            let t1 = v@.take(i + 1);
            lemma_row_set_take_next(v@, i as int);
            assert(row_set(kept@) =~= row_set(t1).remove(x@)) by {
                assert forall|y: R::V| row_set(kept@).contains(y) implies row_set(t1).remove(x@).contains(y) by {
                    let k = choose|k: int| 0 <= k < kept@.len() && kept@[k]@ == y;
                    if k < before.len() {
                        assert(before[k] == kept@[k]);
                        assert(row_set(before).contains(y));
                    }
                }
                assert forall|y: R::V| row_set(t1).remove(x@).contains(y) implies row_set(kept@).contains(y) by {
                    if y != v@[i as int]@ {
                        assert(row_set(before).contains(y));
                        let k = choose|k: int| 0 <= k < before.len() && before[k]@ == y;
                        assert(kept@[k] == before[k]);
                    } else {
                        assert(kept@[kept@.len() - 1]@ == y);
                    }
                }
            }
            assert forall|a: int| 0 <= a < kept@.len() implies exists|b: int| 0 <= b < i + 1 && #[trigger] v@[b]@ == #[trigger] kept@[a]@ by {
                if a < before.len() {
                    assert(before[a] == kept@[a]);
                } else {
                    assert(v@[i as int]@ == kept@[a]@);
                }
            }
            if distinct_rows(v@) {
                assert forall|a: int, c: int| 0 <= a < kept@.len() && 0 <= c < kept@.len() && a != c implies kept@[a]@ != kept@[c]@ by {
                    if a < before.len() && c < before.len() {
                        assert(before[a] == kept@[a]);
                        assert(before[c] == kept@[c]);
                    } else if a < before.len() {
                        assert(before[a] == kept@[a]);
                        let b = choose|b: int| 0 <= b < i && v@[b]@ == before[a]@;
                        assert(v@[b]@ != v@[i as int]@);
                    } else if c < before.len() {
                        assert(before[c] == kept@[c]);
                        let b = choose|b: int| 0 <= b < i && v@[b]@ == before[c]@;
                        assert(v@[b]@ != v@[i as int]@);
                    }
                }
            }
        }
        i = i + 1;
    }
    assert(v@.take(v@.len() as int) =~= v@);
    *v = kept;
}

/// A copy of every row of `v`, in order.
pub fn copy_rows<R: Row>(v: &Vec<R>) -> (r: Vec<R>)
    ensures
        row_set(r@) == row_set(v@),
{
    let mut out: Vec<R> = Vec::new();
    let mut i: usize = 0;
    while i < v.len()
        invariant
            i <= v.len(),
            out@.len() == i,
            forall|j: int| 0 <= j < i ==> (#[trigger] out@[j])@ == v@[j]@,
        decreases v.len() - i,
    {
        out.push(v[i].duplicate());
        i = i + 1;
    }
    assert(row_set(out@) =~= row_set(v@)) by {
        assert forall|y: R::V| row_set(v@).contains(y) implies row_set(out@).contains(y) by {
            let k = choose|k: int| 0 <= k < v@.len() && v@[k]@ == y;
            assert(out@[k]@ == y);
        }
    }
    out
}

} // verus!
