//! Finding, selecting and stably sorting in sequences.
use vstd::prelude::*;

verus! {

/// The views of the items of a list.
pub open spec fn views<T: View>(list: Seq<T>) -> Seq<T::V> {
    list.map_values(|t: T| t@)
}

/// The first place at or after `from` whose item satisfies `p`.
pub open spec fn first_from<A>(s: Seq<A>, p: spec_fn(A) -> bool, from: int) -> Option<int>
    decreases s.len() - from,
{
    if from < 0 || from >= s.len() {
        None
    } else if p(s[from]) {
        Some(from)
    } else {
        first_from(s, p, from + 1)
    }
}

/// The place of the first item that satisfies `p`.
pub open spec fn first_index<A>(s: Seq<A>, p: spec_fn(A) -> bool) -> Option<int> {
    first_from(s, p, 0)
}

/// The place of the last item that satisfies `p`.
pub open spec fn last_index<A>(s: Seq<A>, p: spec_fn(A) -> bool) -> Option<int>
    decreases s.len(),
{
    if s.len() == 0 {
        None
    } else if p(s.last()) {
        Some(s.len() - 1)
    } else {
        last_index(s.drop_last(), p)
    }
}

pub proof fn lemma_first_from<A>(s: Seq<A>, p: spec_fn(A) -> bool, from: int)
    requires
        0 <= from,
    ensures
        match first_from(s, p, from) {
            Some(i) => from <= i < s.len() && p(s[i]) && forall|j: int|
                from <= j < i ==> !p(#[trigger] s[j]),
            None => forall|j: int| from <= j < s.len() ==> !p(#[trigger] s[j]),
        },
    decreases s.len() - from,
{
    if from < s.len() && !p(s[from]) {
        lemma_first_from(s, p, from + 1);
    }
}

pub proof fn lemma_last_index<A>(s: Seq<A>, p: spec_fn(A) -> bool)
    ensures
        match last_index(s, p) {
            Some(i) => 0 <= i < s.len() && p(s[i]) && forall|j: int|
                i < j < s.len() ==> !p(#[trigger] s[j]),
            None => forall|j: int| 0 <= j < s.len() ==> !p(#[trigger] s[j]),
        },
    decreases s.len(),
{
    if s.len() > 0 && !p(s.last()) {
        lemma_last_index(s.drop_last(), p);
        assert forall|j: int| 0 <= j < s.len() - 1 implies s[j] == s.drop_last()[j] by {}
        match last_index(s.drop_last(), p) {
            Some(i) => {
                assert forall|j: int| i < j < s.len() implies !p(#[trigger] s[j]) by {
                    if j < s.len() - 1 {
                        assert(!p(s.drop_last()[j]));
                    }
                }
            },
            None => {
                assert forall|j: int| 0 <= j < s.len() implies !p(#[trigger] s[j]) by {
                    if j < s.len() - 1 {
                        assert(!p(s.drop_last()[j]));
                    }
                }
            },
        }
    }
}

/// The last place is fixed by what it means.
pub proof fn lemma_last_is<A>(s: Seq<A>, p: spec_fn(A) -> bool, i: int)
    requires
        0 <= i < s.len(),
        p(s[i]),
        forall|j: int| i < j < s.len() ==> !p(#[trigger] s[j]),
    ensures
        last_index(s, p) == Some(i),
{
    lemma_last_index(s, p);
    match last_index(s, p) {
        Some(k) => {
            if i < k {
                assert(!p(s[k]));
            }
            if k < i {
                assert(!p(s[i]));
            }
        },
        None => {
            assert(!p(s[i]));
        },
    }
}

/// One more item, seen by a filter.
pub proof fn lemma_filter_push<A>(s: Seq<A>, x: A, p: spec_fn(A) -> bool)
    ensures
        s.push(x).filter(p) == (if p(x) {
            s.filter(p).push(x)
        } else {
            s.filter(p)
        }),
{
    reveal(Seq::filter);
    assert(s.push(x).drop_last() =~= s);
}

/// One more item of a sequence, seen by a filter.
pub proof fn lemma_filter_take<A>(s: Seq<A>, i: int, p: spec_fn(A) -> bool)
    requires
        0 <= i < s.len(),
    ensures
        s.take(i + 1).filter(p) == (if p(s[i]) {
            s.take(i).filter(p).push(s[i])
        } else {
            s.take(i).filter(p)
        }),
{
    lemma_filter_push(s.take(i), s[i], p);
    assert(s.take(i + 1) =~= s.take(i).push(s[i]));
}

/// A filter that keeps less keeps fewer.
pub proof fn lemma_filter_less<A>(
    s: Seq<A>,
    p: spec_fn(A) -> bool,
    q: spec_fn(A) -> bool,
    at: int,
)
    requires
        forall|a: A| #[trigger] q(a) ==> p(a),
        0 <= at < s.len() ==> p(s[at]) && !q(s[at]),
    ensures
        s.filter(q).len() <= s.filter(p).len(),
        0 <= at < s.len() ==> s.filter(q).len() < s.filter(p).len(),
    decreases s.len(),
{
    reveal(Seq::filter);
    if s.len() > 0 {
        let front = s.drop_last();
        if at == s.len() - 1 {
            lemma_filter_less(front, p, q, -1);
        } else {
            lemma_filter_less(front, p, q, at);
        }
        assert(s =~= front.push(s.last()));
        lemma_filter_push(front, s.last(), p);
        lemma_filter_push(front, s.last(), q);
    }
}

/// The place of the first item at or after `from` that `found` holds of.
pub fn position_from<T: View, F: Fn(&T) -> bool>(
    list: &[T],
    from: usize,
    found: F,
    Ghost(p): Ghost<spec_fn(T::V) -> bool>,
) -> (at: Option<usize>)
    requires
        forall|t: &T| #[trigger] found.requires((t,)),
        forall|t: &T, r: bool| #[trigger] found.ensures((t,), r) ==> r == p(t@),
    ensures
        match at {
            Some(i) => from <= i < list@.len() && first_from(views(list@), p, from as int) == Some(
                i as int,
            ),
            None => first_from(views(list@), p, from as int) is None,
        },
{
    let mut i: usize = from;
    while i < list.len()
        invariant
            from <= i,
            forall|t: &T| #[trigger] found.requires((t,)),
            forall|t: &T, r: bool| #[trigger] found.ensures((t,), r) ==> r == p(t@),
            first_from(views(list@), p, from as int) == first_from(views(list@), p, i as int),
        decreases list@.len() - i,
    {
        assert(views(list@)[i as int] == list@[i as int]@);
        if found(&list[i]) {
            return Some(i);
        }
        i = i + 1;
    }
    None
}

/// The items that `keep` holds of, in their order.
pub fn keep_items<T: View, F: Fn(&T) -> bool>(
    list: Vec<T>,
    keep: F,
    Ghost(p): Ghost<spec_fn(T::V) -> bool>,
) -> (kept: Vec<T>)
    requires
        forall|t: &T| #[trigger] keep.requires((t,)),
        forall|t: &T, r: bool| #[trigger] keep.ensures((t,), r) ==> r == p(t@),
    ensures
        views(kept@) == views(list@).filter(p),
{
    let mut kept: Vec<T> = Vec::new();
    let ghost all = list@;
    proof {
        reveal(Seq::filter);
        assert(views(all).take(0).filter(p) =~= Seq::empty());
        assert(views(kept@) =~= Seq::empty());
    }
    for item in it: list
        invariant
            it.seq() == all,
            forall|t: &T| #[trigger] keep.requires((t,)),
            forall|t: &T, r: bool| #[trigger] keep.ensures((t,), r) ==> r == p(t@),
            views(kept@) == views(all).take(it.index@ as int).filter(p),
    {
        let ghost before = kept@;
        proof {
            lemma_filter_take(views(all), it.index@ as int, p);
            assert(views(all)[it.index@ as int] == item@);
        }
        if keep(&item) {
            kept.push(item);
            assert(views(kept@) =~= views(before).push(item@));
        }
    }
    assert(views(all).take(all.len() as int) =~= views(all));
    kept
}

// ---------------------------------------------------------------------------
// Stable sorting
// ---------------------------------------------------------------------------

/// `x` put behind the last item that stands at or before it.
pub open spec fn insert_sorted<A>(s: Seq<A>, x: A, le: spec_fn(A, A) -> bool) -> Seq<A>
    decreases s.len(),
{
    if s.len() == 0 || le(s.last(), x) {
        s.push(x)
    } else {
        insert_sorted(s.drop_last(), x, le).push(s.last())
    }
}

/// The items in order, equal ones in the order in which they came.
pub open spec fn sorted_by<A>(s: Seq<A>, le: spec_fn(A, A) -> bool) -> Seq<A>
    decreases s.len(),
{
    if s.len() == 0 {
        s
    } else {
        insert_sorted(sorted_by(s.drop_last(), le), s.last(), le)
    }
}

/// Any two items compare, and the comparison is transitive.
pub open spec fn is_total_preorder<A>(le: spec_fn(A, A) -> bool) -> bool {
    &&& forall|a: A, b: A| #[trigger] le(a, b) || le(b, a)
    &&& forall|a: A, b: A, c: A| #[trigger] le(a, b) && #[trigger] le(b, c) ==> le(a, c)
}

/// No item stands after a smaller one.
pub open spec fn is_sorted<A>(s: Seq<A>, le: spec_fn(A, A) -> bool) -> bool {
    forall|i: int, j: int| 0 <= i < j < s.len() ==> le(#[trigger] s[i], #[trigger] s[j])
}

proof fn lemma_insert_sorted_at<A>(s: Seq<A>, x: A, le: spec_fn(A, A) -> bool, at: int)
    requires
        0 <= at <= s.len(),
        at == 0 || le(s[at - 1], x),
        forall|j: int| at <= j < s.len() ==> !le(#[trigger] s[j], x),
    ensures
        insert_sorted(s, x, le) == s.insert(at, x),
    decreases s.len(),
{
    if at == s.len() {
        assert(s.insert(at, x) =~= s.push(x));
    } else {
        assert(!le(s[s.len() - 1], x));
        lemma_insert_sorted_at(s.drop_last(), x, le, at);
        assert(s.insert(at, x) =~= s.drop_last().insert(at, x).push(s.last()));
    }
}

proof fn lemma_insert_sorted_multiset<A>(s: Seq<A>, x: A, le: spec_fn(A, A) -> bool)
    ensures
        insert_sorted(s, x, le).to_multiset() == s.to_multiset().insert(x),
        insert_sorted(s, x, le).len() == s.len() + 1,
    decreases s.len(),
{
    broadcast use vstd::seq_lib::group_to_multiset_ensures;

    if s.len() > 0 && !le(s.last(), x) {
        lemma_insert_sorted_multiset(s.drop_last(), x, le);
        let inner = insert_sorted(s.drop_last(), x, le);
        assert(s =~= s.drop_last().push(s.last()));
        assert(inner.push(s.last()).to_multiset() =~= s.to_multiset().insert(x));
    }
}

/// Sorting keeps the items, each as often as it was there.
pub proof fn lemma_sorted_by_permutation<A>(s: Seq<A>, le: spec_fn(A, A) -> bool)
    ensures
        sorted_by(s, le).to_multiset() == s.to_multiset(),
        sorted_by(s, le).len() == s.len(),
    decreases s.len(),
{
    broadcast use vstd::seq_lib::group_to_multiset_ensures;

    if s.len() > 0 {
        lemma_sorted_by_permutation(s.drop_last(), le);
        lemma_insert_sorted_multiset(sorted_by(s.drop_last(), le), s.last(), le);
        assert(s =~= s.drop_last().push(s.last()));
    }
}

proof fn lemma_insert_sorted_sorted<A>(s: Seq<A>, x: A, le: spec_fn(A, A) -> bool)
    requires
        is_total_preorder(le),
        is_sorted(s, le),
    ensures
        is_sorted(insert_sorted(s, x, le), le),
        forall|i: int|
            0 <= i < insert_sorted(s, x, le).len() ==> s.contains(
                #[trigger] insert_sorted(s, x, le)[i],
            ) || insert_sorted(s, x, le)[i] == x,
    decreases s.len(),
{
    let out = insert_sorted(s, x, le);
    if s.len() == 0 || le(s.last(), x) {
        assert forall|i: int, j: int| 0 <= i < j < out.len() implies le(
            #[trigger] out[i],
            #[trigger] out[j],
        ) by {
            if j == s.len() {
                if i < s.len() - 1 {
                    assert(le(s[i], s[s.len() - 1]));
                }
            } else {
                assert(le(s[i], s[j]));
            }
        }
        assert forall|i: int| 0 <= i < out.len() implies s.contains(#[trigger] out[i]) || out[i]
            == x by {
            if i < s.len() {
                assert(s[i] == out[i]);
            }
        }
    } else {
        let front = s.drop_last();
        assert(is_sorted(front, le)) by {
            assert forall|i: int, j: int| 0 <= i < j < front.len() implies le(
                #[trigger] front[i],
                #[trigger] front[j],
            ) by {
                assert(le(s[i], s[j]));
            }
        }
        lemma_insert_sorted_sorted(front, x, le);
        let inner = insert_sorted(front, x, le);
        assert(le(x, s.last()));
        assert forall|i: int, j: int| 0 <= i < j < out.len() implies le(
            #[trigger] out[i],
            #[trigger] out[j],
        ) by {
            if j == out.len() - 1 {
                assert(out[i] == inner[i]);
                if inner[i] != x {
                    let k = choose|k: int| 0 <= k < front.len() && front[k] == inner[i];
                    assert(le(s[k], s[s.len() - 1]));
                }
            } else {
                assert(le(inner[i], inner[j]));
            }
        }
        assert forall|i: int| 0 <= i < out.len() implies s.contains(#[trigger] out[i]) || out[i]
            == x by {
            if i < inner.len() {
                assert(out[i] == inner[i]);
                if inner[i] != x {
                    let k = choose|k: int| 0 <= k < front.len() && front[k] == inner[i];
                    assert(s[k] == inner[i]);
                }
            } else {
                assert(out[i] == s[s.len() - 1]);
            }
        }
    }
}

/// Sorting puts the items in order.
pub proof fn lemma_sorted_by_sorted<A>(s: Seq<A>, le: spec_fn(A, A) -> bool)
    requires
        is_total_preorder(le),
    ensures
        is_sorted(sorted_by(s, le), le),
    decreases s.len(),
{
    if s.len() > 0 {
        lemma_sorted_by_sorted(s.drop_last(), le);
        lemma_insert_sorted_sorted(sorted_by(s.drop_last(), le), s.last(), le);
    }
}

proof fn lemma_insert_sorted_stable<A>(
    s: Seq<A>,
    x: A,
    le: spec_fn(A, A) -> bool,
    p: spec_fn(A) -> bool,
)
    requires
        forall|a: A, b: A| p(a) && p(b) ==> #[trigger] le(a, b),
    ensures
        insert_sorted(s, x, le).filter(p) == s.push(x).filter(p),
    decreases s.len(),
{
    if s.len() > 0 && !le(s.last(), x) {
        let front = s.drop_last();
        lemma_insert_sorted_stable(front, x, le, p);
        lemma_filter_push(insert_sorted(front, x, le), s.last(), p);
        lemma_filter_push(front, x, p);
        lemma_filter_push(front, s.last(), p);
        lemma_filter_push(s, x, p);
        assert(s =~= front.push(s.last()));
    }
}

/// Items that compare equal keep the order in which they came.
pub proof fn lemma_sorted_by_stable<A>(s: Seq<A>, le: spec_fn(A, A) -> bool, p: spec_fn(A) -> bool)
    requires
        forall|a: A, b: A| p(a) && p(b) ==> #[trigger] le(a, b),
    ensures
        sorted_by(s, le).filter(p) == s.filter(p),
    decreases s.len(),
{
    if s.len() > 0 {
        let front = s.drop_last();
        lemma_sorted_by_stable(front, le, p);
        lemma_insert_sorted_stable(sorted_by(front, le), s.last(), le, p);
        lemma_filter_push(sorted_by(front, le), s.last(), p);
        lemma_filter_push(front, s.last(), p);
        assert(s =~= front.push(s.last()));
    }
}

/// A sorted list stays as it is.
pub proof fn lemma_sorted_by_fixed<A>(s: Seq<A>, le: spec_fn(A, A) -> bool)
    requires
        is_sorted(s, le),
    ensures
        sorted_by(s, le) == s,
    decreases s.len(),
{
    if s.len() > 0 {
        let front = s.drop_last();
        assert(is_sorted(front, le)) by {
            assert forall|i: int, j: int| 0 <= i < j < front.len() implies le(
                #[trigger] front[i],
                #[trigger] front[j],
            ) by {
                assert(le(s[i], s[j]));
            }
        }
        lemma_sorted_by_fixed(front, le);
        if front.len() > 0 {
            assert(le(s[s.len() - 2], s[s.len() - 1]));
            assert(front.last() == s[s.len() - 2]);
        }
        assert(s =~= front.push(s.last()));
    }
}

/// Two orderings of the same items by a key that no two items share are one.
pub proof fn lemma_sorted_unique_by_key<A>(x: Seq<A>, y: Seq<A>, key: spec_fn(A) -> int)
    requires
        x.to_multiset() == y.to_multiset(),
        is_sorted(x, |a: A, b: A| key(a) <= key(b)),
        is_sorted(y, |a: A, b: A| key(a) <= key(b)),
        forall|i: int, j: int|
            0 <= i < y.len() && 0 <= j < y.len() && i != j ==> key(#[trigger] y[i]) != key(
                #[trigger] y[j],
            ),
    ensures
        x == y,
    decreases y.len(),
{
    broadcast use vstd::seq_lib::group_to_multiset_ensures;

    let le = |a: A, b: A| key(a) <= key(b);
    x.to_multiset_ensures();
    y.to_multiset_ensures();
    assert(x.len() == y.len());
    if y.len() == 0 {
        assert(x =~= y);
    } else {
        let n = y.len() - 1;
        assert(x.to_multiset().count(y[n]) > 0);
        assert(x.contains(y[n]));
        let k = choose|k: int| 0 <= k < x.len() && x[k] == y[n];
        assert(y.to_multiset().count(x[n]) > 0);
        assert(y.contains(x[n]));
        let m = choose|m: int| 0 <= m < y.len() && y[m] == x[n];
        if k < n {
            assert(le(x[k], x[n]));
        }
        if m < n {
            assert(le(y[m], y[n]));
            assert(key(y[m]) != key(y[n]));
            assert(false);
        }
        assert(x[n] == y[n]);
        let fx = x.drop_last();
        let fy = y.drop_last();
        assert(x =~= fx.push(x[n]));
        assert(y =~= fy.push(y[n]));
        assert(fx.to_multiset() =~= x.to_multiset().remove(x[n]));
        assert(fy.to_multiset() =~= y.to_multiset().remove(y[n]));
        assert(is_sorted(fx, le)) by {
            assert forall|i: int, j: int| 0 <= i < j < fx.len() implies le(
                #[trigger] fx[i],
                #[trigger] fx[j],
            ) by {
                assert(le(x[i], x[j]));
            }
        }
        assert(is_sorted(fy, le)) by {
            assert forall|i: int, j: int| 0 <= i < j < fy.len() implies le(
                #[trigger] fy[i],
                #[trigger] fy[j],
            ) by {
                assert(le(y[i], y[j]));
            }
        }
        assert forall|i: int, j: int|
            0 <= i < fy.len() && 0 <= j < fy.len() && i != j implies key(#[trigger] fy[i]) != key(
            #[trigger] fy[j],
        ) by {
            assert(key(y[i]) != key(y[j]));
        }
        lemma_sorted_unique_by_key(fx, fy, key);
    }
}

/// A list is what a filter keeps and what it drops.
pub proof fn lemma_filter_parts<A>(s: Seq<A>, p: spec_fn(A) -> bool)
    ensures
        s.filter(p).to_multiset().add(s.filter(|a: A| !p(a)).to_multiset()) == s.to_multiset(),
    decreases s.len(),
{
    broadcast use vstd::seq_lib::group_to_multiset_ensures;

    let q = |a: A| !p(a);
    if s.len() == 0 {
        reveal(Seq::filter);
        assert(s.filter(p) =~= s);
        assert(s.filter(q) =~= s);
        assert(s.to_multiset() =~= vstd::multiset::Multiset::empty());
        assert(s.filter(p).to_multiset().add(s.filter(q).to_multiset()) =~= s.to_multiset());
    } else {
        let front = s.drop_last();
        lemma_filter_parts(front, p);
        assert(s =~= front.push(s.last()));
        lemma_filter_push(front, s.last(), p);
        lemma_filter_push(front, s.last(), q);
        assert(s.filter(p).to_multiset().add(s.filter(q).to_multiset()) =~= s.to_multiset());
    }
}

/// What stands at the given places.
pub open spec fn at_places<A>(items: Seq<A>, places: Seq<usize>) -> Seq<A> {
    Seq::new(places.len(), |k: int| items[places[k] as int])
}

/// The places of the items in sorted order, equal ones in the order in which
/// they stand. `at_most(i, j)` compares the items at two places.
pub fn sorted_places<A, F: Fn(usize, usize) -> bool>(
    n: usize,
    at_most: F,
    Ghost(items): Ghost<Seq<A>>,
    Ghost(le): Ghost<spec_fn(A, A) -> bool>,
) -> (places: Vec<usize>)
    requires
        n == items.len(),
        forall|i: usize, j: usize| i < n && j < n ==> #[trigger] at_most.requires((i, j)),
        forall|i: usize, j: usize, r: bool|
            i < n && j < n && #[trigger] at_most.ensures((i, j), r) ==> r == le(
                items[i as int],
                items[j as int],
            ),
    ensures
        places@.len() == n,
        places@.no_duplicates(),
        forall|k: int| 0 <= k < places@.len() ==> (#[trigger] places@[k]) < n,
        at_places(items, places@) == sorted_by(items, le),
{
    let mut places: Vec<usize> = Vec::new();
    let mut i: usize = 0;
    assert(at_places(items, places@) =~= sorted_by(items.take(0), le));
    while i < n
        invariant
            i <= n,
            n == items.len(),
            places@.len() == i,
            places@.no_duplicates(),
            forall|k: int| 0 <= k < places@.len() ==> (#[trigger] places@[k]) < i,
            at_places(items, places@) == sorted_by(items.take(i as int), le),
            forall|i: usize, j: usize| i < n && j < n ==> #[trigger] at_most.requires((i, j)),
            forall|i: usize, j: usize, r: bool|
                i < n && j < n && #[trigger] at_most.ensures((i, j), r) ==> r == le(
                    items[i as int],
                    items[j as int],
                ),
        decreases n - i,
    {
        let mut at: usize = places.len();
        while at > 0 && !at_most(places[at - 1], i)
            invariant
                at <= places@.len(),
                i < n,
                n == items.len(),
                forall|k: int| 0 <= k < places@.len() ==> (#[trigger] places@[k]) < i,
                forall|k: int|
                    at <= k < places@.len() ==> !le(
                        #[trigger] at_places(items, places@)[k],
                        items[i as int],
                    ),
                forall|i: usize, j: usize| i < n && j < n ==> #[trigger] at_most.requires((i, j)),
                forall|i: usize, j: usize, r: bool|
                    i < n && j < n && #[trigger] at_most.ensures((i, j), r) ==> r == le(
                        items[i as int],
                        items[j as int],
                    ),
            decreases at,
        {
            at = at - 1;
        }
        let ghost before = places@;
        places.insert(at, i);
        proof {
            lemma_insert_sorted_at(at_places(items, before), items[i as int], le, at as int);
            assert(items.take(i + 1).drop_last() =~= items.take(i as int));
            assert(at_places(items, places@) =~= at_places(items, before).insert(
                at as int,
                items[i as int],
            ));
        }
        i = i + 1;
    }
    assert(items.take(i as int) =~= items);
    places
}

/// The items in sorted order, equal ones in the order in which they came.
pub fn stable_sort<T: View, F: Fn(&T, &T) -> bool>(
    items: Vec<T>,
    at_most: F,
    Ghost(le): Ghost<spec_fn(T::V, T::V) -> bool>,
) -> (sorted: Vec<T>)
    requires
        forall|a: &T, b: &T| #[trigger] at_most.requires((a, b)),
        forall|a: &T, b: &T, r: bool| #[trigger] at_most.ensures((a, b), r) ==> r == le(a@, b@),
    ensures
        views(sorted@) == sorted_by(views(items@), le),
        sorted@.len() == items@.len(),
        sorted@.to_multiset() == items@.to_multiset(),
{
    let ghost all = views(items@);
    let list = &items;
    let compare = |i: usize, j: usize| -> (r: bool)
        requires
            i < list@.len(),
            j < list@.len(),
        ensures
            r == le(list@[i as int]@, list@[j as int]@),
        { at_most(&list[i], &list[j]) };
    let places = sorted_places::<T::V, _>(list.len(), compare, Ghost(all), Ghost(le));
    let sorted = pick_all(items, &places);
    assert(views(sorted@) =~= at_places(all, places@));
    sorted
}

proof fn lemma_places_permute<A>(items: Seq<A>, places: Seq<usize>)
    requires
        places.len() == items.len(),
        places.no_duplicates(),
        forall|k: int| 0 <= k < places.len() ==> (#[trigger] places[k]) < items.len(),
    ensures
        at_places(items, places).to_multiset() == items.to_multiset(),
    decreases items.len(),
{
    broadcast use vstd::seq_lib::group_to_multiset_ensures;

    let out = at_places(items, places);
    if items.len() == 0 {
        assert(out =~= items);
    } else {
        let n = (items.len() - 1) as int;
        // The last item stands somewhere among the places.
        lemma_place_exists(places, items.len());
        let k = choose|k: int| 0 <= k < places.len() && places[k] == n;
        let rest_places = places.remove(k);
        let rest = items.drop_last();
        assert forall|j: int| 0 <= j < rest_places.len() implies (#[trigger] rest_places[j])
            < rest.len() by {
            let j2 = if j < k { j } else { j + 1 };
            assert(rest_places[j] == places[j2]);
            assert(places[j2] != places[k]);
        }
        assert(rest_places.no_duplicates()) by {
            assert forall|a: int, b: int|
                0 <= a < rest_places.len() && 0 <= b < rest_places.len() && a
                    != b implies rest_places[a] != rest_places[b] by {
                let a2 = if a < k { a } else { a + 1 };
                let b2 = if b < k { b } else { b + 1 };
                assert(places[a2] != places[b2]);
            }
        }
        lemma_places_permute(rest, rest_places);
        assert(at_places(rest, rest_places) =~= out.remove(k));
        assert(out =~= out.remove(k).insert(k, out[k]));
        assert(items =~= rest.push(items.last()));
        assert(out[k] == items.last());
        assert(out.remove(k).insert(k, out[k]).to_multiset() =~= out.remove(k).to_multiset().insert(
            out[k],
        ));
    }
}

proof fn lemma_place_exists(places: Seq<usize>, n: nat)
    requires
        n > 0,
        places.len() == n,
        places.no_duplicates(),
        forall|k: int| 0 <= k < places.len() ==> (#[trigger] places[k]) < n,
    ensures
        exists|k: int| 0 <= k < places.len() && places[k] == n - 1,
{
    if forall|k: int| 0 <= k < places.len() ==> places[k] != n - 1 {
        let ints = places.map_values(|p: usize| p as int);
        assert(ints.no_duplicates()) by {
            assert forall|a: int, b: int|
                0 <= a < ints.len() && 0 <= b < ints.len() && a != b implies ints[a]
                != ints[b] by {
                assert(places[a] != places[b]);
            }
        }
        ints.unique_seq_to_set();
        let bound = vstd::set_lib::set_int_range(0, n - 1);
        vstd::set_lib::lemma_int_range(0, n - 1);
        assert(ints.to_set().subset_of(bound)) by {
            assert forall|x: int| ints.to_set().contains(x) implies bound.contains(x) by {
                let k = choose|k: int| 0 <= k < ints.len() && ints[k] == x;
                assert(places[k] < n);
            }
        }
        vstd::set_lib::lemma_len_subset(ints.to_set(), bound);
        assert(false);
    }
}

/// The items taken from their places, each once.
pub fn pick_all<T>(items: Vec<T>, places: &Vec<usize>) -> (picked: Vec<T>)
    requires
        places@.len() == items@.len(),
        places@.no_duplicates(),
        forall|k: int| 0 <= k < places@.len() ==> (#[trigger] places@[k]) < items@.len(),
    ensures
        picked@ == at_places(items@, places@),
        picked@.to_multiset() == items@.to_multiset(),
{
    let ghost all = items@;
    let mut rest = items;
    let mut slots: Vec<Option<T>> = Vec::new();
    let n: usize = rest.len();
    let mut i: usize = 0;
    while i < n
        invariant
            i <= n,
            n == all.len(),
            rest@ == all.take(n - i),
            slots@.len() == i,
            forall|k: int| 0 <= k < i ==> #[trigger] slots@[k] == Some(all[n - 1 - k]),
        decreases n - i,
    {
        let item = rest.pop();
        slots.push(item);
        i = i + 1;
    }
    let mut picked: Vec<T> = Vec::new();
    let mut k: usize = 0;
    while k < n
        invariant
            k <= n,
            n == all.len(),
            n == places@.len(),
            slots@.len() == n,
            places@.no_duplicates(),
            forall|j: int| 0 <= j < places@.len() ==> (#[trigger] places@[j]) < n,
            picked@.len() == k,
            forall|j: int| 0 <= j < k ==> #[trigger] picked@[j] == all[places@[j] as int],
            forall|j: int|
                k <= j < n ==> slots@[n - 1 - #[trigger] places@[j]] == Some(
                    all[places@[j] as int],
                ),
        decreases n - k,
    {
        let at: usize = n - 1 - places[k];
        let ghost before = slots@;
        let taken = slots[at].take();
        match taken {
            Some(item) => {
                picked.push(item);
            },
            None => {
                assert(false);
            },
        }
        proof {
            assert forall|j: int| k < j < n implies slots@[n - 1 - #[trigger] places@[j]] == Some(
                all[places@[j] as int],
            ) by {
                assert(places@[j] != places@[k as int]);
                assert(slots@[n - 1 - places@[j]] == before[n - 1 - places@[j]]);
            }
        }
        k = k + 1;
    }
    assert(picked@ =~= at_places(all, places@));
    proof {
        lemma_places_permute(all, places@);
    }
    picked
}

} // verus!
