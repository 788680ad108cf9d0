//! Sequences: searching, gathering, dropping repeats and stable ordering.

use vstd::prelude::*;

verus! {

/// What a sequence of values looks like, item by item.
pub open spec fn views<T: View>(s: Seq<T>) -> Seq<T::V> {
    Seq::new(s.len(), |i: int| s[i]@)
}

/// The first item from position `i` on that satisfies `p`.
pub open spec fn first_from<A>(s: Seq<A>, p: spec_fn(A) -> bool, i: int) -> Option<A>
    decreases s.len() - i,
{
    if i < 0 || i >= s.len() {
        None
    } else if p(s[i]) {
        Some(s[i])
    } else {
        first_from(s, p, i + 1)
    }
}

/// The first item that satisfies `p`.
pub open spec fn first_where<A>(s: Seq<A>, p: spec_fn(A) -> bool) -> Option<A> {
    first_from(s, p, 0)
}

/// What `f` makes of each item, one after the other.
pub open spec fn gather<A, B>(s: Seq<A>, f: spec_fn(A) -> Seq<B>) -> Seq<B>
    decreases s.len(),
{
    if s.len() == 0 {
        Seq::empty()
    } else {
        gather(s.drop_last(), f) + f(s.last())
    }
}

/// Each item with its position.
pub open spec fn numbered<A>(s: Seq<A>) -> Seq<(int, A)> {
    Seq::new(s.len(), |i: int| (i, s[i]))
}

/// Every item once, in the order of first appearance.
pub open spec fn distinct<A>(s: Seq<A>) -> Seq<A>
    decreases s.len(),
{
    if s.len() == 0 {
        Seq::empty()
    } else {
        let rest = distinct(s.drop_last());
        if rest.contains(s.last()) {
            rest
        } else {
            rest.push(s.last())
        }
    }
}

/// Whether rank `a` comes strictly before rank `b`.
pub open spec fn before(a: (int, int), b: (int, int)) -> bool {
    a.0 < b.0 || (a.0 == b.0 && a.1 < b.1)
}

/// A value that is listed by rank.
pub trait Ranked: View + Sized {
    /// Where the value is listed.
    spec fn rank(value: Self::V) -> (int, int);

    /// Whether this value is listed strictly before the other.
    fn ranks_before(&self, other: &Self) -> (earlier: bool)
        ensures
            earlier == before(Self::rank(self@), Self::rank(other@)),
    ;
}

/// Where `value` goes in a list by rank: behind everything that does not rank
/// after it.
pub open spec fn placed<T: Ranked>(s: Seq<T::V>, value: T::V) -> Seq<T::V>
    decreases s.len(),
{
    if s.len() == 0 || !before(T::rank(value), T::rank(s.last())) {
        s.push(value)
    } else {
        placed::<T>(s.drop_last(), value).push(s.last())
    }
}

/// The same values by rank; values of one rank keep their order.
pub open spec fn by_rank<T: Ranked>(s: Seq<T::V>) -> Seq<T::V>
    decreases s.len(),
{
    if s.len() == 0 {
        s
    } else {
        placed::<T>(by_rank::<T>(s.drop_last()), s.last())
    }
}

/// Puts `value` where it goes in a list by rank.
pub(crate) fn insert_ranked<T: Ranked>(list: &mut Vec<T>, value: T)
    ensures
        views(final(list)@) == placed::<T>(views(old(list)@), value@),
{
    let ghost seen = views(list@);
    let mut at: usize = list.len();
    assert(seen.take(at as int) =~= seen);
    assert(seen.skip(at as int) =~= Seq::<T::V>::empty());
    assert(placed::<T>(seen.take(at as int), value@) + seen.skip(at as int) =~= placed::<T>(
        seen,
        value@,
    ));
    while at > 0 && value.ranks_before(&list[at - 1])
        invariant
            at <= list.len(),
            seen == views(list@),
            placed::<T>(seen.take(at as int), value@) + seen.skip(at as int) == placed::<T>(
                seen,
                value@,
            ),
        decreases at,
    {
        proof {
            let head = seen.take(at as int);
            assert(head.drop_last() =~= seen.take(at - 1));
            assert(head.last() == seen[at - 1]);
            assert(placed::<T>(head.drop_last(), value@).push(head.last()) + seen.skip(at as int)
                =~= placed::<T>(head.drop_last(), value@) + seen.skip(at - 1));
        }
        at = at - 1;
    }
    proof {
        let head = seen.take(at as int);
        if at > 0 {
            assert(head.last() == seen[at - 1]);
        }
        assert(placed::<T>(head, value@) == head.push(value@));
    }
    list.insert(at, value);
    assert(views(list@) =~= seen.take(at as int).push(value@) + seen.skip(at as int));
}

/// Appends a number that is not in the list yet.
pub(crate) fn push_distinct(list: &mut Vec<u64>, number: u64)
    ensures
        final(list)@ == if old(list)@.contains(number) {
            old(list)@
        } else {
            old(list)@.push(number)
        },
{
    let mut i: usize = 0;
    while i < list.len()
        invariant
            i <= list.len(),
            list@ == old(list)@,
            forall|j: int| 0 <= j < i ==> list@[j] != number,
        decreases list.len() - i,
    {
        if list[i] == number {
            assert(list@[i as int] == number);
            return ;
        }
        i = i + 1;
    }
    list.push(number);
}

/// One more item gathered.
pub proof fn lemma_gather_step<A, B>(s: Seq<A>, f: spec_fn(A) -> Seq<B>, i: int)
    requires
        0 <= i < s.len(),
    ensures
        gather(s.take(i + 1), f) == gather(s.take(i), f) + f(s[i]),
{
    assert(s.take(i + 1).drop_last() =~= s.take(i));
}

/// One more item put in order.
pub proof fn lemma_by_rank_push<T: Ranked>(s: Seq<T::V>, value: T::V)
    ensures
        by_rank::<T>(s.push(value)) == placed::<T>(by_rank::<T>(s), value),
{
    assert(s.push(value).drop_last() =~= s);
}

/// One more item checked for a repeat.
pub proof fn lemma_distinct_push<A>(s: Seq<A>, item: A)
    ensures
        distinct(s.push(item)) == if distinct(s).contains(item) {
            distinct(s)
        } else {
            distinct(s).push(item)
        },
{
    assert(s.push(item).drop_last() =~= s);
}

/// The first match is an item of the sequence, and a match.
pub proof fn lemma_first_is_listed<A>(s: Seq<A>, p: spec_fn(A) -> bool, i: int)
    requires
        0 <= i <= s.len(),
    ensures
        first_from(s, p, i) matches Some(x) ==> s.contains(x) && p(x),
    decreases s.len() - i,
{
    if i < s.len() {
        lemma_first_is_listed(s, p, i + 1);
    }
}

/// Gathering two runs is gathering the first and the second.
pub proof fn lemma_gather_add<A, B>(a: Seq<A>, b: Seq<A>, f: spec_fn(A) -> Seq<B>)
    ensures
        gather(a + b, f) == gather(a, f) + gather(b, f),
    decreases b.len(),
{
    if b.len() == 0 {
        assert(a + b =~= a);
        assert(gather(a, f) + gather(b, f) =~= gather(a, f));
    } else {
        lemma_gather_add(a, b.drop_last(), f);
        assert((a + b).drop_last() =~= a + b.drop_last());
        assert(gather(a + b, f) =~= gather(a, f) + gather(b, f));
    }
}

/// The first match in two runs is that of the first run, or else that of the
/// second.
pub proof fn lemma_first_where_add<A>(a: Seq<A>, b: Seq<A>, p: spec_fn(A) -> bool)
    ensures
        first_where(a + b, p) == (match first_where(a, p) {
            Some(x) => Some(x),
            None => first_where(b, p),
        }),
{
    lemma_first_from_add(a, b, p, 0);
}

proof fn lemma_first_from_add<A>(a: Seq<A>, b: Seq<A>, p: spec_fn(A) -> bool, i: int)
    requires
        0 <= i <= a.len(),
    ensures
        first_from(a + b, p, i) == (match first_from(a, p, i) {
            Some(x) => Some(x),
            None => first_from(b, p, 0),
        }),
    decreases a.len() - i,
{
    if i < a.len() {
        lemma_first_from_add(a, b, p, i + 1);
    } else {
        lemma_first_from_shift(a, b, p, 0);
    }
}

proof fn lemma_first_from_shift<A>(a: Seq<A>, b: Seq<A>, p: spec_fn(A) -> bool, j: int)
    requires
        0 <= j <= b.len(),
    ensures
        first_from(a + b, p, a.len() + j) == first_from(b, p, j),
    decreases b.len() - j,
{
    if j < b.len() {
        lemma_first_from_shift(a, b, p, j + 1);
    }
}

/// Whether a list goes by rank.
pub open spec fn ordered<T: Ranked>(s: Seq<T::V>) -> bool {
    forall|i: int, j: int|
        0 <= i < j < s.len() ==> !before(T::rank(#[trigger] s[j]), T::rank(#[trigger] s[i]))
}

/// Recognises the values of one rank.
pub open spec fn of_rank<T: Ranked>(rank: (int, int)) -> spec_fn(T::V) -> bool {
    |value: T::V| T::rank(value) == rank
}

/// Placing a value adds it, and nothing else.
pub proof fn lemma_placed_contains<T: Ranked>(s: Seq<T::V>, value: T::V, other: T::V)
    ensures
        placed::<T>(s, value).len() == s.len() + 1,
        placed::<T>(s, value).contains(other) <==> s.contains(other) || other == value,
    decreases s.len(),
{
    if s.len() == 0 || !before(T::rank(value), T::rank(s.last())) {
        lemma_push_contains(s, value, other);
    } else {
        lemma_placed_contains::<T>(s.drop_last(), value, other);
        lemma_push_contains(placed::<T>(s.drop_last(), value), s.last(), other);
        lemma_push_contains(s.drop_last(), s.last(), other);
        assert(s.drop_last().push(s.last()) =~= s);
    }
}

/// Listing by rank keeps every value, and adds none.
pub proof fn lemma_by_rank_contains<T: Ranked>(s: Seq<T::V>, other: T::V)
    ensures
        by_rank::<T>(s).len() == s.len(),
        by_rank::<T>(s).contains(other) <==> s.contains(other),
    decreases s.len(),
{
    if s.len() > 0 {
        lemma_by_rank_contains::<T>(s.drop_last(), other);
        lemma_placed_contains::<T>(by_rank::<T>(s.drop_last()), s.last(), other);
        lemma_push_contains(s.drop_last(), s.last(), other);
        assert(s.drop_last().push(s.last()) =~= s);
    }
}

/// Pushing a value adds it, and nothing else.
pub proof fn lemma_push_contains<A>(s: Seq<A>, value: A, other: A)
    ensures
        s.push(value).contains(other) <==> s.contains(other) || other == value,
{
    if s.contains(other) {
        let i = choose|i: int| 0 <= i < s.len() && s[i] == other;
        assert(s.push(value)[i] == other);
    }
    assert(s.push(value)[s.len() as int] == value);
}

proof fn lemma_placed_ordered<T: Ranked>(s: Seq<T::V>, value: T::V)
    requires
        ordered::<T>(s),
    ensures
        ordered::<T>(placed::<T>(s, value)),
    decreases s.len(),
{
    let result = placed::<T>(s, value);
    if s.len() == 0 {
    } else if !before(T::rank(value), T::rank(s.last())) {
        assert forall|i: int, j: int| 0 <= i < j < result.len() implies !before(
            T::rank(#[trigger] result[j]),
            T::rank(#[trigger] result[i]),
        ) by {
            if j == s.len() {
                assert(s[s.len() - 1] == s.last());
                if i < s.len() - 1 {
                    assert(!before(T::rank(s[s.len() - 1]), T::rank(s[i])));
                }
            }
        }
    } else {
        let rest = s.drop_last();
        lemma_placed_ordered::<T>(rest, value);
        let inner = placed::<T>(rest, value);
        assert forall|i: int, j: int| 0 <= i < j < result.len() implies !before(
            T::rank(#[trigger] result[j]),
            T::rank(#[trigger] result[i]),
        ) by {
            if j == inner.len() {
                lemma_placed_contains::<T>(rest, value, inner[i]);
                assert(inner.contains(inner[i]));
                if inner[i] != value {
                    let k = choose|k: int| 0 <= k < rest.len() && rest[k] == inner[i];
                    assert(s[k] == rest[k]);
                    assert(!before(T::rank(s[s.len() - 1]), T::rank(s[k])));
                }
            } else {
                assert(result[i] == inner[i]);
                assert(result[j] == inner[j]);
            }
        }
    }
}

/// A list by rank never goes back.
pub proof fn lemma_by_rank_ordered<T: Ranked>(s: Seq<T::V>)
    ensures
        ordered::<T>(by_rank::<T>(s)),
    decreases s.len(),
{
    if s.len() > 0 {
        lemma_by_rank_ordered::<T>(s.drop_last());
        lemma_placed_ordered::<T>(by_rank::<T>(s.drop_last()), s.last());
    }
}

/// Whether no two values of a list have one rank.
pub open spec fn ranks_differ<T: Ranked>(s: Seq<T::V>) -> bool {
    forall|i: int, j: int|
        0 <= i < j < s.len() ==> T::rank(#[trigger] s[i]) != T::rank(#[trigger] s[j])
}

/// Two lists without a common rank, one behind the other.
pub proof fn lemma_ranks_differ_add<T: Ranked>(a: Seq<T::V>, b: Seq<T::V>)
    requires
        ranks_differ::<T>(a),
        ranks_differ::<T>(b),
        forall|i: int, j: int|
            0 <= i < a.len() && 0 <= j < b.len() ==> T::rank(#[trigger] a[i]) != T::rank(
                #[trigger] b[j],
            ),
    ensures
        ranks_differ::<T>(a + b),
{
    let all = a + b;
    assert forall|i: int, j: int| 0 <= i < j < all.len() implies T::rank(#[trigger] all[i])
        != T::rank(#[trigger] all[j]) by {
        if j < a.len() {
            assert(T::rank(a[i]) != T::rank(a[j]));
        } else if i < a.len() {
            assert(T::rank(a[i]) != T::rank(b[j - a.len()]));
        } else {
            assert(T::rank(b[i - a.len()]) != T::rank(b[j - a.len()]));
        }
    }
}

proof fn lemma_placed_differ<T: Ranked>(s: Seq<T::V>, value: T::V)
    requires
        ranks_differ::<T>(s),
        forall|i: int| 0 <= i < s.len() ==> T::rank(#[trigger] s[i]) != T::rank(value),
    ensures
        ranks_differ::<T>(placed::<T>(s, value)),
    decreases s.len(),
{
    let result = placed::<T>(s, value);
    if s.len() > 0 && before(T::rank(value), T::rank(s.last())) {
        let rest = s.drop_last();
        assert forall|i: int| 0 <= i < rest.len() implies T::rank(#[trigger] rest[i]) != T::rank(
            value,
        ) by {
            assert(T::rank(s[i]) != T::rank(value));
        }
        assert forall|i: int, j: int| 0 <= i < j < rest.len() implies T::rank(#[trigger] rest[i])
            != T::rank(#[trigger] rest[j]) by {
            assert(T::rank(s[i]) != T::rank(s[j]));
        }
        lemma_placed_differ::<T>(rest, value);
        let inner = placed::<T>(rest, value);
        assert forall|i: int, j: int| 0 <= i < j < result.len() implies T::rank(
            #[trigger] result[i],
        ) != T::rank(#[trigger] result[j]) by {
            if j < inner.len() {
                assert(T::rank(inner[i]) != T::rank(inner[j]));
            } else {
                lemma_placed_contains::<T>(rest, value, inner[i]);
                assert(inner.contains(inner[i]));
                assert(T::rank(s[s.len() - 1]) != T::rank(value));
                if inner[i] != value {
                    let k = choose|k: int| 0 <= k < rest.len() && rest[k] == inner[i];
                    assert(T::rank(s[k]) != T::rank(s[s.len() - 1]));
                }
            }
        }
    }
}

/// Listing by rank brings no two values of one rank together where there were
/// none.
pub proof fn lemma_by_rank_differ<T: Ranked>(s: Seq<T::V>)
    requires
        ranks_differ::<T>(s),
    ensures
        ranks_differ::<T>(by_rank::<T>(s)),
    decreases s.len(),
{
    if s.len() > 0 {
        let rest = s.drop_last();
        assert forall|i: int, j: int| 0 <= i < j < rest.len() implies T::rank(#[trigger] rest[i])
            != T::rank(#[trigger] rest[j]) by {
            assert(T::rank(s[i]) != T::rank(s[j]));
        }
        lemma_by_rank_differ::<T>(rest);
        let listed = by_rank::<T>(rest);
        assert forall|i: int| 0 <= i < listed.len() implies T::rank(#[trigger] listed[i])
            != T::rank(s.last()) by {
            lemma_by_rank_contains::<T>(rest, listed[i]);
            assert(listed.contains(listed[i]));
            let k = choose|k: int| 0 <= k < rest.len() && rest[k] == listed[i];
            assert(T::rank(s[k]) != T::rank(s[s.len() - 1]));
        }
        lemma_placed_differ::<T>(listed, s.last());
    }
}

/// One more item filtered.
pub proof fn lemma_filter_push<A>(s: Seq<A>, item: A, p: spec_fn(A) -> bool)
    ensures
        s.push(item).filter(p) == if p(item) {
            s.filter(p).push(item)
        } else {
            s.filter(p)
        },
{
    reveal(Seq::filter);
    assert(s.push(item).drop_last() =~= s);
}

proof fn lemma_placed_stable<T: Ranked>(s: Seq<T::V>, value: T::V, rank: (int, int))
    ensures
        placed::<T>(s, value).filter(of_rank::<T>(rank)) == s.push(value).filter(
            of_rank::<T>(rank),
        ),
    decreases s.len(),
{
    if s.len() > 0 && before(T::rank(value), T::rank(s.last())) {
        let p = of_rank::<T>(rank);
        let rest = s.drop_last();
        lemma_placed_stable::<T>(rest, value, rank);
        lemma_filter_push(placed::<T>(rest, value), s.last(), p);
        lemma_filter_push(rest, value, p);
        lemma_filter_push(rest, s.last(), p);
        lemma_filter_push(s, value, p);
        assert(rest.push(s.last()) =~= s);
    }
}

/// Values of one rank keep their order in a list by rank.
pub proof fn lemma_by_rank_stable<T: Ranked>(s: Seq<T::V>, rank: (int, int))
    ensures
        by_rank::<T>(s).filter(of_rank::<T>(rank)) == s.filter(of_rank::<T>(rank)),
    decreases s.len(),
{
    if s.len() > 0 {
        let p = of_rank::<T>(rank);
        let rest = s.drop_last();
        lemma_by_rank_stable::<T>(rest, rank);
        lemma_placed_stable::<T>(by_rank::<T>(rest), s.last(), rank);
        lemma_filter_push(by_rank::<T>(rest), s.last(), p);
        lemma_filter_push(rest, s.last(), p);
        assert(rest.push(s.last()) =~= s);
    }
}

proof fn lemma_ordered_unique<T: Ranked>(a: Seq<T::V>, b: Seq<T::V>)
    requires
        ordered::<T>(a),
        ordered::<T>(b),
        forall|rank: (int, int)|
            a.filter(#[trigger] of_rank::<T>(rank)) == b.filter(of_rank::<T>(rank)),
    ensures
        a == b,
    decreases a.len(),
{
    reveal(Seq::filter);
    if a.len() == 0 {
        if b.len() > 0 {
            let own = of_rank::<T>(T::rank(b.last()));
            assert(a.filter(own) == b.filter(own));
            assert(b.filter(own).len() > 0);
        }
    } else {
        let own = of_rank::<T>(T::rank(a.last()));
        assert(a.filter(own) == b.filter(own));
        assert(a.filter(own).len() > 0);
        assert(b.len() > 0);
        let other = of_rank::<T>(T::rank(b.last()));
        assert(a.filter(other) == b.filter(other));
        assert(b.filter(other).len() > 0);
        lemma_kept_is_listed(b, own);
        lemma_kept_is_listed(a, other);
        let i = choose|i: int| 0 <= i < b.len() && own(b[i]);
        let j = choose|j: int| 0 <= j < a.len() && other(a[j]);
        assert(i < b.len() - 1 ==> !before(T::rank(b[b.len() - 1]), T::rank(b[i])));
        assert(j < a.len() - 1 ==> !before(T::rank(a[a.len() - 1]), T::rank(a[j])));
        assert(T::rank(a.last()) == T::rank(b.last()));
        assert(a.filter(own).last() == a.last());
        assert(b.filter(own).last() == b.last());
        let rest_a = a.drop_last();
        let rest_b = b.drop_last();
        assert forall|rank: (int, int)|
            rest_a.filter(#[trigger] of_rank::<T>(rank)) == rest_b.filter(of_rank::<T>(rank)) by {
            let p = of_rank::<T>(rank);
            assert(a.filter(p) == b.filter(p));
            if p(a.last()) {
                assert(a.filter(p).drop_last() =~= rest_a.filter(p));
                assert(b.filter(p).drop_last() =~= rest_b.filter(p));
            }
        }
        assert forall|x: int, y: int| 0 <= x < y < rest_a.len() implies !before(
            T::rank(#[trigger] rest_a[y]),
            T::rank(#[trigger] rest_a[x]),
        ) by {
            assert(!before(T::rank(a[y]), T::rank(a[x])));
        }
        assert forall|x: int, y: int| 0 <= x < y < rest_b.len() implies !before(
            T::rank(#[trigger] rest_b[y]),
            T::rank(#[trigger] rest_b[x]),
        ) by {
            assert(!before(T::rank(b[y]), T::rank(b[x])));
        }
        lemma_ordered_unique::<T>(rest_a, rest_b);
        assert(a =~= rest_a.push(a.last()));
        assert(b =~= rest_b.push(b.last()));
    }
}

/// What a filter keeps is there to be kept.
proof fn lemma_kept_is_listed<A>(s: Seq<A>, p: spec_fn(A) -> bool)
    requires
        s.filter(p).len() > 0,
    ensures
        exists|i: int| 0 <= i < s.len() && p(#[trigger] s[i]),
    decreases s.len(),
{
    reveal(Seq::filter);
    if s.len() > 0 {
        if p(s.last()) {
            assert(p(s[s.len() - 1]));
        } else {
            lemma_kept_is_listed(s.drop_last(), p);
            let i = choose|i: int| 0 <= i < s.drop_last().len() && p(#[trigger] s.drop_last()[i]);
            assert(p(s[i]));
        }
    }
}

/// A list by rank depends only on the values and on the order among those of
/// one rank: however the ranks are mixed beforehand, the list is the same.
pub proof fn lemma_by_rank_unique<T: Ranked>(a: Seq<T::V>, b: Seq<T::V>)
    requires
        forall|rank: (int, int)|
            a.filter(#[trigger] of_rank::<T>(rank)) == b.filter(of_rank::<T>(rank)),
    ensures
        by_rank::<T>(a) == by_rank::<T>(b),
{
    lemma_by_rank_ordered::<T>(a);
    lemma_by_rank_ordered::<T>(b);
    assert forall|rank: (int, int)|
        by_rank::<T>(a).filter(#[trigger] of_rank::<T>(rank)) == by_rank::<T>(b).filter(
            of_rank::<T>(rank),
        ) by {
        lemma_by_rank_stable::<T>(a, rank);
        lemma_by_rank_stable::<T>(b, rank);
    }
    lemma_ordered_unique::<T>(by_rank::<T>(a), by_rank::<T>(b));
}

/// Dropping repeats keeps every item, and keeps it once.
pub proof fn lemma_distinct<A>(s: Seq<A>)
    ensures
        distinct(s).no_duplicates(),
        forall|item: A| #[trigger] distinct(s).contains(item) <==> s.contains(item),
    decreases s.len(),
{
    if s.len() > 0 {
        let rest = s.drop_last();
        lemma_distinct(rest);
        assert(rest.push(s.last()) =~= s);
        assert forall|item: A| #[trigger] distinct(s).contains(item) <==> s.contains(item) by {
            lemma_push_contains(rest, s.last(), item);
            lemma_push_contains(distinct(rest), s.last(), item);
        }
    }
}

/// What a partial function gives of a sequence is what it gives of the items.
pub proof fn lemma_filter_map_contains<A, B>(s: Seq<A>, f: spec_fn(A) -> Option<B>, kept: B)
    ensures
        s.filter_map(f).contains(kept) <==> exists|i: int|
            0 <= i < s.len() && f(#[trigger] s[i]) == Some(kept),
    decreases s.len(),
{
    if s.len() > 0 {
        let rest = s.drop_last();
        lemma_filter_map_contains(rest, f, kept);
        match f(s.last()) {
            Some(b) => {
                assert(rest.filter_map(f) + seq![b] =~= rest.filter_map(f).push(b));
                lemma_push_contains(rest.filter_map(f), b, kept);
            },
            None => {},
        }
        if exists|i: int| 0 <= i < s.len() && f(#[trigger] s[i]) == Some(kept) {
            let i = choose|i: int| 0 <= i < s.len() && f(#[trigger] s[i]) == Some(kept);
            if i < rest.len() {
                assert(f(rest[i]) == Some(kept));
            }
        }
        if exists|i: int| 0 <= i < rest.len() && f(#[trigger] rest[i]) == Some(kept) {
            let i = choose|i: int| 0 <= i < rest.len() && f(#[trigger] rest[i]) == Some(kept);
            assert(f(s[i]) == Some(kept));
        }
        if f(s.last()) == Some(kept) {
            assert(f(s[s.len() - 1]) == Some(kept));
        }
    }
}

/// What a partial function gives of two runs is what it gives of the first and
/// of the second.
pub proof fn lemma_filter_map_add<A, B>(a: Seq<A>, b: Seq<A>, f: spec_fn(A) -> Option<B>)
    ensures
        (a + b).filter_map(f) == a.filter_map(f) + b.filter_map(f),
    decreases b.len(),
{
    if b.len() == 0 {
        assert(a + b =~= a);
        assert(a.filter_map(f) + b.filter_map(f) =~= a.filter_map(f));
    } else {
        lemma_filter_map_add(a, b.drop_last(), f);
        assert((a + b).drop_last() =~= a + b.drop_last());
        assert((a + b).filter_map(f) =~= a.filter_map(f) + b.filter_map(f));
    }
}

/// One more item given to a partial function.
pub proof fn lemma_filter_map_push<A, B>(s: Seq<A>, item: A, f: spec_fn(A) -> Option<B>)
    ensures
        s.push(item).filter_map(f) == (match f(item) {
            Some(b) => s.filter_map(f).push(b),
            None => s.filter_map(f),
        }),
{
    assert(s.push(item).drop_last() =~= s);
    assert(s.push(item).filter_map(f) =~= (match f(item) {
        Some(b) => s.filter_map(f).push(b),
        None => s.filter_map(f),
    }));
}

/// What a function makes of what a partial function gives, in one step.
pub proof fn lemma_filter_map_map<A, B, C>(
    s: Seq<A>,
    f: spec_fn(A) -> Option<B>,
    g: spec_fn(B) -> C,
    h: spec_fn(A) -> Option<C>,
)
    requires
        forall|a: A| #[trigger] h(a) == (match f(a) {
            Some(b) => Some(g(b)),
            None => None,
        }),
    ensures
        s.filter_map(f).map_values(g) == s.filter_map(h),
    decreases s.len(),
{
    if s.len() == 0 {
        assert(s.filter_map(f).map_values(g) =~= s.filter_map(h));
    } else {
        let rest = s.drop_last();
        lemma_filter_map_map(rest, f, g, h);
        assert(rest.push(s.last()) =~= s);
        lemma_filter_map_push(rest, s.last(), f);
        lemma_filter_map_push(rest, s.last(), h);
        assert(s.filter_map(f).map_values(g) =~= s.filter_map(h));
    }
}

/// Filtering what a partial function gives is the same as filtering what it is
/// given, where the filters agree.
pub proof fn lemma_filter_map_filter<A, B>(
    s: Seq<A>,
    f: spec_fn(A) -> Option<B>,
    p: spec_fn(B) -> bool,
    q: spec_fn(A) -> bool,
)
    requires
        forall|a: A| #[trigger] f(a) matches Some(b) ==> p(b) == q(a),
    ensures
        s.filter_map(f).filter(p) == s.filter(q).filter_map(f),
    decreases s.len(),
{
    reveal(Seq::filter);
    if s.len() > 0 {
        let rest = s.drop_last();
        lemma_filter_map_filter(rest, f, p, q);
        let last = s.last();
        lemma_filter_map_add(rest.filter(q), seq![last], f);
        assert(rest.filter(q).push(last) =~= rest.filter(q) + seq![last]);
        Seq::lemma_filter_map_singleton(last, f);
        match f(last) {
            Some(b) => {
                assert(s.filter_map(f) =~= rest.filter_map(f).push(b));
                lemma_filter_push(rest.filter_map(f), b, p);
            },
            None => {
                assert(s.filter_map(f) =~= rest.filter_map(f));
            },
        }
        assert(s.filter_map(f).filter(p) =~= s.filter(q).filter_map(f));
    }
}

/// Filtering what a function makes of each item, in one step.
pub proof fn lemma_map_narrowed<A, B>(
    s: Seq<A>,
    f: spec_fn(A) -> B,
    p: spec_fn(B) -> bool,
    h: spec_fn(A) -> Option<B>,
)
    requires
        forall|a: A| #[trigger] s.contains(a) ==> h(a) == (if p(f(a)) {
            Some(f(a))
        } else {
            None
        }),
    ensures
        s.map_values(f).filter(p) == s.filter_map(h),
    decreases s.len(),
{
    reveal(Seq::filter);
    if s.len() == 0 {
        assert(s.map_values(f).filter(p) =~= s.filter_map(h));
    } else {
        let rest = s.drop_last();
        let last = s.last();
        assert(s[s.len() - 1] == last);
        assert(s.contains(last));
        assert forall|a: A| #[trigger] rest.contains(a) implies h(a) == (if p(f(a)) {
            Some(f(a))
        } else {
            None
        }) by {
            let k = choose|k: int| 0 <= k < rest.len() && rest[k] == a;
            assert(s[k] == a);
            assert(s.contains(a));
        }
        lemma_map_narrowed(rest, f, p, h);
        assert(rest.push(last) =~= s);
        assert(s.map_values(f) =~= rest.map_values(f).push(f(last)));
        lemma_filter_push(rest.map_values(f), f(last), p);
        lemma_filter_map_push(rest, last, h);
    }
}

/// A filter that nothing satisfies keeps nothing.
pub proof fn lemma_nothing_kept<A>(s: Seq<A>, p: spec_fn(A) -> bool)
    requires
        forall|a: A| #[trigger] s.contains(a) ==> !p(a),
    ensures
        s.filter(p).len() == 0,
{
    if s.filter(p).len() > 0 {
        lemma_kept_is_listed(s, p);
        let i = choose|i: int| 0 <= i < s.len() && p(#[trigger] s[i]);
        assert(s.contains(s[i]));
    }
}

/// Filtering what a partial function gives, in one step.
pub proof fn lemma_filter_map_narrowed<A, B>(
    s: Seq<A>,
    f: spec_fn(A) -> Option<B>,
    p: spec_fn(B) -> bool,
    h: spec_fn(A) -> Option<B>,
)
    requires
        forall|a: A| #[trigger] h(a) == (match f(a) {
            Some(b) => if p(b) {
                Some(b)
            } else {
                None
            },
            None => None,
        }),
    ensures
        s.filter_map(f).filter(p) == s.filter_map(h),
    decreases s.len(),
{
    reveal(Seq::filter);
    if s.len() == 0 {
        assert(s.filter_map(f).filter(p) =~= s.filter_map(h));
    } else {
        let rest = s.drop_last();
        lemma_filter_map_narrowed(rest, f, p, h);
        assert(rest.push(s.last()) =~= s);
        lemma_filter_map_push(rest, s.last(), f);
        lemma_filter_map_push(rest, s.last(), h);
        if let Some(b) = f(s.last()) {
            lemma_filter_push(rest.filter_map(f), b, p);
        }
    }
}

/// The first match is at a position before which nothing matches; there is none
/// exactly where nothing matches.
pub proof fn lemma_first_where<A>(s: Seq<A>, p: spec_fn(A) -> bool)
    ensures
        match first_where(s, p) {
            Some(x) => exists|i: int|
                {
                    &&& 0 <= i < s.len()
                    &&& #[trigger] s[i] == x
                    &&& p(x)
                    &&& forall|j: int| 0 <= j < i ==> !p(#[trigger] s[j])
                },
            None => forall|j: int| 0 <= j < s.len() ==> !p(#[trigger] s[j]),
        },
{
    lemma_first_from(s, p, 0);
}

proof fn lemma_first_from<A>(s: Seq<A>, p: spec_fn(A) -> bool, from: int)
    requires
        0 <= from <= s.len(),
    ensures
        match first_from(s, p, from) {
            Some(x) => exists|i: int|
                {
                    &&& from <= i < s.len()
                    &&& #[trigger] s[i] == x
                    &&& p(x)
                    &&& forall|j: int| from <= j < i ==> !p(#[trigger] s[j])
                },
            None => forall|j: int| from <= j < s.len() ==> !p(#[trigger] s[j]),
        },
    decreases s.len() - from,
{
    if from < s.len() && !p(s[from]) {
        lemma_first_from(s, p, from + 1);
        if let Some(x) = first_from(s, p, from) {
            let i = choose|i: int|
                {
                    &&& from + 1 <= i < s.len()
                    &&& #[trigger] s[i] == x
                    &&& p(x)
                    &&& forall|j: int| from + 1 <= j < i ==> !p(#[trigger] s[j])
                };
            assert(s[i] == x);
        }
    }
}

/// The first match in what is gathered is the first in what one item gives, and
/// no item before it gives a match.
pub proof fn lemma_first_in_gather<A, B>(
    s: Seq<A>,
    f: spec_fn(A) -> Seq<B>,
    p: spec_fn(B) -> bool,
)
    ensures
        match first_where(gather(s, f), p) {
            Some(x) => exists|i: int|
                {
                    &&& 0 <= i < s.len()
                    &&& first_where(f(#[trigger] s[i]), p) == Some(x)
                    &&& forall|j: int| 0 <= j < i ==> first_where(f(#[trigger] s[j]), p) is None
                },
            None => forall|j: int| 0 <= j < s.len() ==> first_where(f(#[trigger] s[j]), p) is None,
        },
    decreases s.len(),
{
    if s.len() > 0 {
        let rest = s.drop_last();
        let last = s.len() - 1;
        lemma_first_in_gather(rest, f, p);
        lemma_first_where_add(gather(rest, f), f(s.last()), p);
        match first_where(gather(rest, f), p) {
            Some(x) => {
                let i = choose|i: int|
                    {
                        &&& 0 <= i < rest.len()
                        &&& first_where(f(#[trigger] rest[i]), p) == Some(x)
                        &&& forall|j: int|
                            0 <= j < i ==> first_where(f(#[trigger] rest[j]), p) is None
                    };
                assert(s[i] == rest[i]);
                assert forall|j: int| 0 <= j < i implies first_where(f(#[trigger] s[j]), p) is None by {
                    assert(rest[j] == s[j]);
                }
            },
            None => {
                assert forall|j: int| 0 <= j < last implies first_where(
                    f(#[trigger] s[j]),
                    p,
                ) is None by {
                    assert(rest[j] == s[j]);
                }
                assert(s[last] == s.last());
            },
        }
    }
}

/// What is kept without repeats comes in the order of first appearance.
pub proof fn lemma_distinct_in_order<A, B>(s: Seq<A>, f: spec_fn(A) -> Option<B>, i: int, j: int)
    requires
        0 <= i < j < distinct(s.filter_map(f)).len(),
    ensures
        exists|k: int|
            {
                &&& 0 <= k < s.len()
                &&& f(#[trigger] s[k]) == Some(distinct(s.filter_map(f))[i])
                &&& forall|m: int|
                    0 <= m <= k ==> f(#[trigger] s[m]) != Some(distinct(s.filter_map(f))[j])
            },
    decreases s.len(),
{
    if s.len() > 0 {
        let rest = s.drop_last();
        let last = s.last();
        let seen = distinct(rest.filter_map(f));
        let once = distinct(s.filter_map(f));
        assert(rest.push(last) =~= s);
        lemma_filter_map_push(rest, last, f);
        if let Some(b) = f(last) {
            lemma_distinct_push(rest.filter_map(f), b);
        }
        lemma_distinct(rest.filter_map(f));
        assert(once[i] == seen[i]);
        if j < seen.len() {
            assert(once[j] == seen[j]);
            lemma_distinct_in_order(rest, f, i, j);
            let k = choose|k: int|
                {
                    &&& 0 <= k < rest.len()
                    &&& f(#[trigger] rest[k]) == Some(seen[i])
                    &&& forall|m: int| 0 <= m <= k ==> f(#[trigger] rest[m]) != Some(seen[j])
                };
            assert(s[k] == rest[k]);
            assert forall|m: int| 0 <= m <= k implies f(#[trigger] s[m]) != Some(once[j]) by {
                assert(s[m] == rest[m]);
            }
        } else {
            assert(seen.contains(seen[i]));
            lemma_filter_map_contains(rest, f, seen[i]);
            let k = choose|k: int| 0 <= k < rest.len() && f(#[trigger] rest[k]) == Some(seen[i]);
            assert(s[k] == rest[k]);
            lemma_filter_map_contains(rest, f, once[j]);
            assert(!seen.contains(once[j]));
            assert forall|m: int| 0 <= m <= k implies f(#[trigger] s[m]) != Some(once[j]) by {
                assert(s[m] == rest[m]);
            }
        }
    }
}

/// Without repeats, items come in the order of first appearance.
pub proof fn lemma_first_appearance<A>(s: Seq<A>, i: int, j: int)
    requires
        0 <= i < j < distinct(s).len(),
    ensures
        exists|k: int|
            {
                &&& 0 <= k < s.len()
                &&& #[trigger] s[k] == distinct(s)[i]
                &&& forall|m: int| 0 <= m <= k ==> #[trigger] s[m] != distinct(s)[j]
            },
{
    let same = |a: A| Some(a);
    lemma_all_kept(s, same);
    lemma_distinct_in_order(s, same, i, j);
    let k = choose|k: int|
        {
            &&& 0 <= k < s.len()
            &&& same(#[trigger] s[k]) == Some(distinct(s)[i])
            &&& forall|m: int| 0 <= m <= k ==> same(#[trigger] s[m]) != Some(distinct(s)[j])
        };
    assert(s[k] == distinct(s)[i]);
    assert forall|m: int| 0 <= m <= k implies #[trigger] s[m] != distinct(s)[j] by {
        assert(same(s[m]) != Some(distinct(s)[j]));
    }
}

proof fn lemma_all_kept<A>(s: Seq<A>, same: spec_fn(A) -> Option<A>)
    requires
        forall|a: A| #[trigger] same(a) == Some(a),
    ensures
        s.filter_map(same) == s,
    decreases s.len(),
{
    if s.len() > 0 {
        let rest = s.drop_last();
        lemma_all_kept(rest, same);
        assert(rest.push(s.last()) =~= s);
        lemma_filter_map_push(rest, s.last(), same);
        assert(same(s.last()) == Some(s.last()));
    } else {
        assert(s.filter_map(same) =~= s);
    }
}

/// What is gathered is what one of the items gives.
pub proof fn lemma_gather_contains<A, B>(s: Seq<A>, f: spec_fn(A) -> Seq<B>, part: B)
    ensures
        gather(s, f).contains(part) <==> exists|i: int|
            0 <= i < s.len() && f(#[trigger] s[i]).contains(part),
    decreases s.len(),
{
    if s.len() > 0 {
        let rest = s.drop_last();
        lemma_gather_contains(rest, f, part);
        lemma_add_contains(gather(rest, f), f(s.last()), part);
        if exists|i: int| 0 <= i < s.len() && f(#[trigger] s[i]).contains(part) {
            let i = choose|i: int| 0 <= i < s.len() && f(#[trigger] s[i]).contains(part);
            if i < rest.len() {
                assert(f(rest[i]).contains(part));
            }
        }
        if exists|i: int| 0 <= i < rest.len() && f(#[trigger] rest[i]).contains(part) {
            let i = choose|i: int| 0 <= i < rest.len() && f(#[trigger] rest[i]).contains(part);
            assert(f(s[i]).contains(part));
        }
        if f(s.last()).contains(part) {
            assert(f(s[s.len() - 1]).contains(part));
        }
    }
}

/// Two runs hold what either holds.
pub proof fn lemma_add_contains<A>(a: Seq<A>, b: Seq<A>, item: A)
    ensures
        (a + b).contains(item) <==> a.contains(item) || b.contains(item),
{
    if a.contains(item) {
        let i = choose|i: int| 0 <= i < a.len() && a[i] == item;
        assert((a + b)[i] == item);
    }
    if b.contains(item) {
        let i = choose|i: int| 0 <= i < b.len() && b[i] == item;
        assert((a + b)[a.len() + i] == item);
    }
    if (a + b).contains(item) {
        let i = choose|i: int| 0 <= i < (a + b).len() && (a + b)[i] == item;
        if i < a.len() {
            assert(a[i] == item);
        } else {
            assert(b[i - a.len()] == item);
        }
    }
}

/// Nothing is found exactly where nothing matches.
pub proof fn lemma_first_is_none<A>(s: Seq<A>, p: spec_fn(A) -> bool, i: int)
    requires
        0 <= i <= s.len(),
    ensures
        first_from(s, p, i) is None <==> forall|j: int| i <= j < s.len() ==> !p(#[trigger] s[j]),
    decreases s.len() - i,
{
    if i < s.len() {
        lemma_first_is_none(s, p, i + 1);
    }
}

} // verus!
