//! Verified operations on lists of identifiers: membership, adding without
//! duplicates, removing every occurrence.
use vstd::prelude::*;
use crate::ids::Id;

verus! {

/// A list with `x` added at the end unless it is already there.
pub open spec fn add_unique(s: Seq<Id>, x: Id) -> Seq<Id> {
    if s.contains(x) { s } else { s.push(x) }
}

/// A list without any occurrence of `x`, in the same order otherwise.
pub open spec fn without(s: Seq<Id>, x: Id) -> Seq<Id>
    decreases s.len(),
{
    if s.len() == 0 {
        s
    } else if s.last() != x {
        without(s.drop_last(), x).push(s.last())
    } else {
        without(s.drop_last(), x)
    }
}

/// Whether the list holds `x`.
pub fn contains_id(v: &Vec<Id>, x: Id) -> (res: bool)
    ensures
        res == v@.contains(x),
{
    let mut i: usize = 0;
    while i < v.len()
        invariant
            i <= v@.len(),
            forall|j: int| 0 <= j < i ==> v@[j] != x,
        decreases v@.len() - i,
    {
        if v[i] == x {
            assert(v@[i as int] == x);
            return true;
        }
        i += 1;
    }
    false
}

/// Adds `x` at the end unless the list already holds it.
pub fn push_unique(v: &mut Vec<Id>, x: Id)
    ensures
        final(v)@ == add_unique(old(v)@, x),
{
    if !contains_id(v, x) {
        v.push(x);
    }
}

/// The list without any occurrence of `x`, the others in order.
pub fn without_ids(v: &Vec<Id>, x: Id) -> (res: Vec<Id>)
    ensures
        res@ == without(v@, x),
{
    let ghost s = v@;
    let mut out: Vec<Id> = Vec::new();
    let mut i: usize = 0;
    while i < v.len()
        invariant
            v@ == s,
            i <= s.len(),
            out@ == without(s.take(i as int), x),
        decreases s.len() - i,
    {
        assert(s.take(i + 1).drop_last() =~= s.take(i as int));
        if v[i] != x {
            out.push(v[i]);
        }
        i += 1;
    }
    assert(s.take(s.len() as int) =~= s);
    out
}

/// Removes every occurrence of `x`.
pub fn remove_all(v: &mut Vec<Id>, x: Id)
    ensures
        final(v)@ == without(old(v)@, x),
{
    let out = without_ids(v, x);
    *v = out;
}

/// Filtering one more element of a list: the element is kept after the
/// filtered prefix exactly when it passes.
pub proof fn lemma_filter_step<A>(s: Seq<A>, p: spec_fn(A) -> bool, k: int)
    requires
        0 <= k < s.len(),
    ensures
        s.take(k + 1).filter(p) == if p(s[k]) {
            s.take(k).filter(p).push(s[k])
        } else {
            s.take(k).filter(p)
        },
{
    let t = s.take(k + 1);
    assert(t.drop_last() =~= s.take(k));
    assert(t.last() == s[k]);
    reveal_with_fuel(Seq::filter, 1);
}

/// Filtering a longer prefix keeps at least as many elements, and one more
/// for each passing element in between.
pub proof fn lemma_filter_prefix_grows<A>(s: Seq<A>, p: spec_fn(A) -> bool, m: int, n: int)
    requires
        0 <= m <= n <= s.len(),
    ensures
        s.take(m).filter(p).len() <= s.take(n).filter(p).len(),
        m < n && p(s[m]) ==> s.take(m).filter(p).len() + 1 <= s.take(n).filter(p).len(),
    decreases n - m,
{
    if m < n {
        lemma_filter_prefix_grows(s, p, m + 1, n);
        lemma_filter_step(s, p, m);
    }
}

/// A weaker condition keeps at least as many elements.
pub proof fn lemma_filter_weaker<A>(s: Seq<A>, p: spec_fn(A) -> bool, q: spec_fn(A) -> bool)
    requires
        forall|x: A| #[trigger] p(x) ==> q(x),
    ensures
        s.filter(p).len() <= s.filter(q).len(),
    decreases s.len(),
{
    reveal_with_fuel(Seq::filter, 1);
    if s.len() > 0 {
        lemma_filter_weaker(s.drop_last(), p, q);
    }
}

/// Two conditions that never hold together keep, between them, as many
/// elements as either of them does.
pub proof fn lemma_filter_disjoint<A>(s: Seq<A>, p: spec_fn(A) -> bool, q: spec_fn(A) -> bool, r: spec_fn(A) -> bool)
    requires
        forall|x: A| #[trigger] r(x) == (p(x) || q(x)),
        forall|x: A| !(#[trigger] p(x) && q(x)),
    ensures
        s.filter(p).len() + s.filter(q).len() == s.filter(r).len(),
    decreases s.len(),
{
    reveal_with_fuel(Seq::filter, 1);
    if s.len() > 0 {
        lemma_filter_disjoint(s.drop_last(), p, q, r);
        assert(r(s.last()) == (p(s.last()) || q(s.last())));
    }
}

/// The index of the first element that passes, -1 where none does.
pub open spec fn first_where<A>(s: Seq<A>, p: spec_fn(A) -> bool) -> int {
    if exists|i: int| is_first_where(s, p, i) {
        choose|i: int| is_first_where(s, p, i)
    } else {
        -1
    }
}

/// Whether `i` is the first index of an element that passes.
pub open spec fn is_first_where<A>(s: Seq<A>, p: spec_fn(A) -> bool, i: int) -> bool {
    &&& 0 <= i < s.len()
    &&& p(s[i])
    &&& forall|j: int| 0 <= j < i ==> !p(#[trigger] s[j])
}

/// The first passing element is the one a search from the front stops at.
pub proof fn lemma_first_where<A>(s: Seq<A>, p: spec_fn(A) -> bool, i: int)
    requires
        is_first_where(s, p, i),
    ensures
        first_where(s, p) == i,
{
    let k = choose|k: int| is_first_where(s, p, k);
    if k < i {
        assert(!p(s[k]));
    }
    if i < k {
        assert(!p(s[i]));
    }
}

/// Where no element passes there is no first one.
pub proof fn lemma_first_where_none<A>(s: Seq<A>, p: spec_fn(A) -> bool)
    requires
        forall|j: int| 0 <= j < s.len() ==> !p(#[trigger] s[j]),
    ensures
        first_where(s, p) == -1,
{
}

/// Where some element passes there is a first one, and it passes.
pub proof fn lemma_first_where_some<A>(s: Seq<A>, p: spec_fn(A) -> bool, j: int)
    requires
        0 <= j < s.len(),
        p(s[j]),
    ensures
        0 <= first_where(s, p) <= j,
        is_first_where(s, p, first_where(s, p)),
    decreases j,
{
    if forall|m: int| 0 <= m < j ==> !p(#[trigger] s[m]) {
        assert(is_first_where(s, p, j));
        lemma_first_where(s, p, j);
    } else {
        let m = choose|m: int| 0 <= m < j && p(#[trigger] s[m]);
        lemma_first_where_some(s, p, m);
    }
}

/// Where there is a first passing element, it is at a valid index and
/// passes.
pub proof fn lemma_first_where_found<A>(s: Seq<A>, p: spec_fn(A) -> bool)
    requires
        first_where(s, p) >= 0,
    ensures
        is_first_where(s, p, first_where(s, p)),
        p(s[first_where(s, p)]),
        first_where(s, p) < s.len(),
        exists|i: int| 0 <= i < s.len() && p(s[i]),
{
    let i = choose|i: int| is_first_where(s, p, i);
    assert(is_first_where(s, p, i));
}

/// Where there is no first passing element, none passes.
pub proof fn lemma_first_where_absent<A>(s: Seq<A>, p: spec_fn(A) -> bool)
    requires
        first_where(s, p) == -1,
    ensures
        forall|j: int| 0 <= j < s.len() ==> !p(#[trigger] s[j]),
{
    assert forall|j: int| 0 <= j < s.len() implies !p(#[trigger] s[j]) by {
        if p(s[j]) {
            lemma_first_where_some(s, p, j);
        }
    }
}

/// Adding without duplicates keeps a duplicate-free list duplicate-free.
pub proof fn add_unique_keeps_distinct(s: Seq<Id>, x: Id)
    requires
        s.no_duplicates(),
    ensures
        add_unique(s, x).no_duplicates(),
        add_unique(s, x).contains(x),
{
    if !s.contains(x) {
        assert forall|i: int, j: int| 0 <= i < j < s.push(x).len() implies s.push(x)[i] != s.push(x)[j] by {
            if j == s.len() {
                assert(s[i] == s.push(x)[i]);
            }
        }
        assert(s.push(x)[s.len() as int] == x);
    }
}

/// After removing `x` the list no longer holds it, and every other element
/// that it held is still there.
pub proof fn without_removes_exactly(s: Seq<Id>, x: Id, y: Id)
    ensures
        !without(s, x).contains(x),
        y != x ==> (without(s, x).contains(y) <==> s.contains(y)),
    decreases s.len(),
{
    if s.len() > 0 {
        let r = without(s.drop_last(), x);
        without_removes_exactly(s.drop_last(), x, y);
        if s.contains(y) && y != x {
            let i = choose|i: int| 0 <= i < s.len() && s[i] == y;
            if i < s.len() - 1 {
                assert(s.drop_last()[i] == y);
            }
        }
        if s.last() != x {
            assert(r.push(s.last()).last() == s.last());
            if without(s, x).contains(y) && y != s.last() {
                let k = choose|k: int| 0 <= k < r.push(s.last()).len() && r.push(s.last())[k] == y;
                assert(r[k] == y);
            }
            if r.contains(y) {
                let k = choose|k: int| 0 <= k < r.len() && r[k] == y;
                assert(r.push(s.last())[k] == y);
            }
            if without(s, x).contains(x) {
                let k = choose|k: int| 0 <= k < r.push(s.last()).len() && r.push(s.last())[k] == x;
                assert(r[k] == x);
            }
            if s.drop_last().contains(y) {
                let k = choose|k: int| 0 <= k < s.drop_last().len() && s.drop_last()[k] == y;
                assert(s[k] == y);
            }
        } else {
            if s.drop_last().contains(y) {
                let k = choose|k: int| 0 <= k < s.drop_last().len() && s.drop_last()[k] == y;
                assert(s[k] == y);
            }
        }
    }
}

} // verus!
