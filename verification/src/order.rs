//! The order of names.
use vstd::prelude::*;

use crate::text::characters;

verus! {

/// `a` comes before `b`, or is the same: at the first character in which they differ, `a` has the
/// lesser or has ended.
pub open spec fn precedes(a: Seq<char>, b: Seq<char>) -> bool
    decreases a.len(),
{
    if a.len() == 0 {
        true
    } else if b.len() == 0 {
        false
    } else if a.first() == b.first() {
        precedes(a.drop_first(), b.drop_first())
    } else {
        a.first() < b.first()
    }
}

/// Whether `a` comes before `b` or is the same.
pub fn before(a: &str, b: &str) -> (r: bool)
    ensures
        r == precedes(a@, b@),
{
    let v = characters(a);
    let w = characters(b);
    let mut i: usize = 0;
    assert(a@.skip(0) =~= a@);
    assert(b@.skip(0) =~= b@);
    while i < v.len() && i < w.len() && v[i] == w[i]
        invariant
            v@ == a@,
            w@ == b@,
            i <= v.len(),
            i <= w.len(),
            precedes(a@, b@) == precedes(a@.skip(i as int), b@.skip(i as int)),
        decreases v.len() - i,
    {
        assert(a@.skip(i as int).drop_first() =~= a@.skip(i + 1));
        assert(b@.skip(i as int).drop_first() =~= b@.skip(i + 1));
        i = i + 1;
    }
    i == v.len() || (i < w.len() && v[i] < w[i])
}

/// Each name comes before itself.
pub proof fn precedes_itself(a: Seq<char>)
    ensures
        precedes(a, a),
    decreases a.len(),
{
    if a.len() > 0 {
        precedes_itself(a.drop_first());
    }
}

/// Of two names one comes before the other.
pub proof fn precedes_one_way(a: Seq<char>, b: Seq<char>)
    ensures
        precedes(a, b) || precedes(b, a),
    decreases a.len(),
{
    if a.len() > 0 && b.len() > 0 {
        precedes_one_way(a.drop_first(), b.drop_first());
    }
}

/// Two names that come before each other are the same.
pub proof fn precedes_both_ways(a: Seq<char>, b: Seq<char>)
    requires
        precedes(a, b),
        precedes(b, a),
    ensures
        a == b,
    decreases a.len(),
{
    if a.len() > 0 && b.len() > 0 {
        precedes_both_ways(a.drop_first(), b.drop_first());
        assert(a =~= seq![a.first()] + a.drop_first());
        assert(b =~= seq![b.first()] + b.drop_first());
    } else {
        assert(a =~= b);
    }
}

/// What comes before a name comes before all that the name comes before.
pub proof fn precedes_through(a: Seq<char>, b: Seq<char>, c: Seq<char>)
    requires
        precedes(a, b),
        precedes(b, c),
    ensures
        precedes(a, c),
    decreases a.len(),
{
    if a.len() > 0 && b.len() > 0 && c.len() > 0 && a.first() == b.first() && b.first()
        == c.first() {
        precedes_through(a.drop_first(), b.drop_first(), c.drop_first());
    }
}

/// No name stands behind one that it comes before.
pub open spec fn ordered(names: Seq<Seq<char>>) -> bool {
    forall|i: int, j: int| 0 <= i <= j < names.len() ==> precedes(#[trigger] names[i], #[trigger] names[j])
}

/// How many of the names in front come before `name` or are the same.
pub open spec fn rank(names: Seq<Seq<char>>, name: Seq<char>) -> nat
    decreases names.len(),
{
    if names.len() > 0 && precedes(names.first(), name) {
        1 + rank(names.drop_first(), name)
    } else {
        0
    }
}

/// The names with `name` put where it belongs.
pub open spec fn inserted(names: Seq<Seq<char>>, name: Seq<char>) -> Seq<Seq<char>> {
    names.insert(rank(names, name) as int, name)
}

/// The names in order.
pub open spec fn in_order(names: Seq<Seq<char>>) -> Seq<Seq<char>>
    decreases names.len(),
{
    if names.len() == 0 {
        names
    } else {
        inserted(in_order(names.drop_last()), names.last())
    }
}

proof fn lemma_rank(names: Seq<Seq<char>>, name: Seq<char>)
    ensures
        rank(names, name) <= names.len(),
        forall|i: int| 0 <= i < rank(names, name) ==> precedes(#[trigger] names[i], name),
        rank(names, name) < names.len() ==> !precedes(names[rank(names, name) as int], name),
    decreases names.len(),
{
    if names.len() > 0 && precedes(names.first(), name) {
        lemma_rank(names.drop_first(), name);
        assert forall|i: int| 0 <= i < rank(names, name) implies precedes(
            #[trigger] names[i],
            name,
        ) by {
            if i > 0 {
                assert(names.drop_first()[i - 1] == names[i]);
            }
        }
    }
}

proof fn lemma_inserted(names: Seq<Seq<char>>, name: Seq<char>)
    requires
        ordered(names),
    ensures
        ordered(inserted(names, name)),
        inserted(names, name).to_multiset() == names.to_multiset().insert(name),
{
    let k = rank(names, name) as int;
    let all = inserted(names, name);
    lemma_rank(names, name);
    assert forall|i: int, j: int| 0 <= i <= j < all.len() implies precedes(
        #[trigger] all[i],
        #[trigger] all[j],
    ) by {
        precedes_itself(all[i]);
        if i == j {
        } else if j < k {
            assert(all[i] == names[i] && all[j] == names[j]);
        } else if i > k {
            assert(all[i] == names[i - 1] && all[j] == names[j - 1]);
        } else if i < k && j == k {
            assert(all[i] == names[i]);
        } else if i == k {
            assert(all[j] == names[j - 1]);
            precedes_one_way(names[k], name);
            assert(precedes(names[k], names[j - 1]));
            precedes_through(name, names[k], names[j - 1]);
        } else {
            assert(all[i] == names[i] && all[j] == names[j - 1]);
        }
    }
    broadcast use vstd::seq_lib::group_to_multiset_ensures;
    assert(all.remove(k) =~= names);
    assert(all.to_multiset().count(name) > 0) by {
        assert(all[k] == name);
        assert(all.contains(name));
    }
    assert(all.to_multiset() =~= names.to_multiset().insert(name));
}

/// Putting names in order keeps every name, as often as it is there, and leaves none behind one
/// that it comes before.
pub proof fn in_order_is_ordered(names: Seq<Seq<char>>)
    ensures
        ordered(in_order(names)),
        in_order(names).to_multiset() == names.to_multiset(),
    decreases names.len(),
{
    if names.len() > 0 {
        in_order_is_ordered(names.drop_last());
        lemma_inserted(in_order(names.drop_last()), names.last());
        broadcast use vstd::seq_lib::group_to_multiset_ensures;
        assert(names =~= names.drop_last().push(names.last()));
    }
}

/// There is only one way to have the same names in order.
pub proof fn one_order(a: Seq<Seq<char>>, b: Seq<Seq<char>>)
    requires
        ordered(a),
        ordered(b),
        a.to_multiset() == b.to_multiset(),
    ensures
        a == b,
    decreases a.len(),
{
    broadcast use vstd::seq_lib::group_to_multiset_ensures;
    a.to_multiset_ensures();
    b.to_multiset_ensures();
    if a.len() > 0 {
        assert(a.contains(a[0]));
        assert(b.to_multiset().count(a[0]) > 0);
        assert(b.contains(a[0]));
        assert(b.contains(b[0]));
        assert(a.to_multiset().count(b[0]) > 0);
        assert(a.contains(b[0]));
        let i = choose|i: int| 0 <= i < b.len() && b[i] == a[0];
        let j = choose|j: int| 0 <= j < a.len() && a[j] == b[0];
        assert(precedes(b[0], b[i]));
        assert(precedes(a[0], a[j]));
        precedes_both_ways(a[0], b[0]);
        let c = a.remove(0);
        let d = b.remove(0);
        assert(ordered(c)) by {
            assert forall|i: int, j: int| 0 <= i <= j < c.len() implies precedes(
                #[trigger] c[i],
                #[trigger] c[j],
            ) by {
                assert(c[i] == a[i + 1] && c[j] == a[j + 1]);
            }
        }
        assert(ordered(d)) by {
            assert forall|i: int, j: int| 0 <= i <= j < d.len() implies precedes(
                #[trigger] d[i],
                #[trigger] d[j],
            ) by {
                assert(d[i] == b[i + 1] && d[j] == b[j + 1]);
            }
        }
        one_order(c, d);
        assert(a =~= seq![a[0]] + c);
        assert(b =~= seq![b[0]] + d);
    } else {
        assert(a =~= b);
    }
}

/// The names in order.
pub fn sort(names: &Vec<String>) -> (r: Vec<String>)
    ensures
        r.deep_view() == in_order(names.deep_view()),
{
    let ghost all = names.deep_view();
    let mut r: Vec<String> = Vec::new();
    let mut i: usize = 0;
    assert(all.take(0) =~= Seq::empty());
    assert(r.deep_view() =~= Seq::empty());
    while i < names.len()
        invariant
            i <= names.len(),
            all == names.deep_view(),
            r.deep_view() == in_order(all.take(i as int)),
        decreases names.len() - i,
    {
        let ghost before_it = r.deep_view();
        let mut k: usize = 0;
        assert(before_it.skip(0) =~= before_it);
        while k < r.len() && before(r[k].as_str(), names[i].as_str())
            invariant
                k <= r.len(),
                i < names.len(),
                all == names.deep_view(),
                before_it == r.deep_view(),
                rank(before_it, all[i as int]) == k + rank(before_it.skip(k as int), all[i as int]),
            decreases r.len() - k,
        {
            assert(before_it.skip(k as int).drop_first() =~= before_it.skip(k + 1));
            k = k + 1;
        }
        assert(rank(before_it.skip(k as int), all[i as int]) == 0);
        r.insert(k, names[i].clone());
        assert(r.deep_view() =~= before_it.insert(k as int, all[i as int]));
        assert(all.take(i + 1).drop_last() =~= all.take(i as int));
        i = i + 1;
    }
    assert(all.take(i as int) =~= all);
    r
}

/// A name comes before another where the other begins with it, or where it has the lesser character
/// behind what the two have in common.
pub proof fn precedes_at_the_first_difference(a: Seq<char>, b: Seq<char>)
    ensures
        precedes(a, b) <==> {
            ||| a.is_prefix_of(b)
            ||| exists|k: int|
                #![trigger a[k]]
                0 <= k < a.len() && k < b.len() && a.take(k) == b.take(k) && (a[k] as int) < (
                b[k] as int)
        },
    decreases a.len(),
{
    if a.len() == 0 {
        assert(a.is_prefix_of(b));
    } else if b.len() == 0 {
        assert(!a.is_prefix_of(b));
    } else if a.first() != b.first() {
        assert(a.take(0) =~= b.take(0));
        assert(a[0] == a.first());
        assert(!a.is_prefix_of(b)) by {
            if a.is_prefix_of(b) {
                assert(b.subrange(0, a.len() as int)[0] == a[0]);
            }
        }
        assert forall|k: int|
            #![trigger a[k]]
            0 <= k < a.len() && k < b.len() && a.take(k) == b.take(k) implies k == 0 by {
            if k > 0 {
                assert(a.take(k)[0] == b.take(k)[0]);
            }
        }
    } else {
        let c = a.drop_first();
        let d = b.drop_first();
        precedes_at_the_first_difference(c, d);
        assert(a =~= seq![a.first()] + c);
        assert(b =~= seq![b.first()] + d);
        assert(a.is_prefix_of(b) == c.is_prefix_of(d)) by {
            if a.is_prefix_of(b) {
                assert(d.subrange(0, c.len() as int) =~= b.subrange(0, a.len() as int).drop_first());
            }
            if c.is_prefix_of(d) {
                assert(b.subrange(0, a.len() as int) =~= seq![b.first()] + d.subrange(
                    0,
                    c.len() as int,
                ));
            }
        }
        if exists|k: int|
            #![trigger a[k]]
            0 <= k < a.len() && k < b.len() && a.take(k) == b.take(k) && (a[k] as int) < (
            b[k] as int) {
            let k = choose|k: int|
                #![trigger a[k]]
                0 <= k < a.len() && k < b.len() && a.take(k) == b.take(k) && (a[k] as int) < (
                b[k] as int);
            assert(c.take(k - 1) =~= a.take(k).drop_first());
            assert(d.take(k - 1) =~= b.take(k).drop_first());
            assert(c[k - 1] == a[k]);
        }
        if exists|k: int|
            #![trigger c[k]]
            0 <= k < c.len() && k < d.len() && c.take(k) == d.take(k) && (c[k] as int) < (
            d[k] as int) {
            let k = choose|k: int|
                #![trigger c[k]]
                0 <= k < c.len() && k < d.len() && c.take(k) == d.take(k) && (c[k] as int) < (
                d[k] as int);
            assert(a.take(k + 1) =~= seq![a.first()] + c.take(k));
            assert(b.take(k + 1) =~= seq![b.first()] + d.take(k));
            assert(a[k + 1] == c[k]);
        }
    }
}

/// Sorting keeps every name, as often as it is there, and puts none behind one that it comes before.
pub proof fn sorted_names_are_in_order(names: &Vec<String>, r: Vec<String>)
    ensures
        call_ensures(sort, (names,), r) ==> {
            &&& r.deep_view().to_multiset() == names.deep_view().to_multiset()
            &&& forall|i: int, j: int|
                0 <= i <= j < r.deep_view().len() ==> precedes(
                    #[trigger] r.deep_view()[i],
                    #[trigger] r.deep_view()[j],
                )
        },
{
    in_order_is_ordered(names.deep_view());
}

} // verus!
