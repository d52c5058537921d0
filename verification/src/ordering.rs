//! Ranking and stable sorting.
//!
//! Texts are ranked as strings are compared in Rust: character by character,
//! by scalar value, a proper prefix before its extensions. A list of ranked
//! items is sorted stably: items of the same rank keep their order.

use vstd::prelude::*;

verus! {

/// `a` comes before `b` in the order of strings.
pub open spec fn text_before(a: Seq<char>, b: Seq<char>) -> bool
    decreases a.len(),
{
    if b.len() == 0 {
        false
    } else if a.len() == 0 {
        true
    } else if a[0] != b[0] {
        a[0] < b[0]
    } else {
        text_before(a.skip(1), b.skip(1))
    }
}

/// Texts with a common prefix rank as what follows the prefix.
pub proof fn lemma_text_before_after_prefix(a: Seq<char>, b: Seq<char>, k: int)
    requires
        0 <= k <= a.len(),
        k <= b.len(),
        forall|i: int| 0 <= i < k ==> a[i] == b[i],
    ensures
        text_before(a, b) == text_before(a.skip(k), b.skip(k)),
    decreases k,
{
    if k == 0 {
        assert(a.skip(0) == a);
        assert(b.skip(0) == b);
    } else {
        let a1 = a.skip(1);
        let b1 = b.skip(1);
        assert forall|i: int| 0 <= i < k - 1 implies a1[i] == b1[i] by {
            assert(a1[i] == a[i + 1]);
            assert(b1[i] == b[i + 1]);
        }
        lemma_text_before_after_prefix(a1, b1, k - 1);
        assert(a1.skip(k - 1) == a.skip(k));
        assert(b1.skip(k - 1) == b.skip(k));
        assert(a[0] == b[0]);
    }
}

/// No text comes before itself.
pub proof fn lemma_text_before_irreflexive(a: Seq<char>)
    ensures
        !text_before(a, a),
    decreases a.len(),
{
    if a.len() > 0 {
        lemma_text_before_irreflexive(a.skip(1));
    }
}

/// Of two different texts, exactly one comes before the other.
pub proof fn lemma_text_before_total(a: Seq<char>, b: Seq<char>)
    ensures
        a != b ==> (text_before(a, b) != text_before(b, a)),
        a == b ==> !text_before(a, b),
    decreases a.len(),
{
    if a == b {
        lemma_text_before_irreflexive(a);
    } else if a.len() == 0 || b.len() == 0 {
        if a.len() == 0 && b.len() == 0 {
            assert(a =~= b);
        }
    } else if a[0] == b[0] {
        lemma_text_before_total(a.skip(1), b.skip(1));
        if a.skip(1) == b.skip(1) {
            assert(a =~= seq![a[0]] + a.skip(1));
            assert(b =~= seq![b[0]] + b.skip(1));
        }
    }
}

/// The order of texts is transitive.
pub proof fn lemma_text_before_transitive(a: Seq<char>, b: Seq<char>, c: Seq<char>)
    requires
        text_before(a, b),
        text_before(b, c),
    ensures
        text_before(a, c),
    decreases a.len(),
{
    if a.len() > 0 {
        if a[0] == b[0] && b[0] == c[0] {
            lemma_text_before_transitive(a.skip(1), b.skip(1), c.skip(1));
        }
    }
}

/// Not coming before is transitive in the order of texts.
pub proof fn lemma_text_order_is_linear(a: Seq<char>, b: Seq<char>, c: Seq<char>)
    requires
        !text_before(a, b),
        !text_before(b, c),
    ensures
        !text_before(a, c),
{
    lemma_text_before_total(a, b);
    lemma_text_before_total(b, c);
    lemma_text_before_total(a, c);
    if text_before(a, c) {
        if a != b && b != c {
            lemma_text_before_transitive(c, b, a);
        }
    }
}

/// Tests whether `a` comes before `b` in the order of strings.
pub fn is_text_before(a: &Vec<char>, b: &Vec<char>) -> (before: bool)
    ensures
        before == text_before(a@, b@),
{
    let mut i: usize = 0;
    while i < a.len() && i < b.len()
        invariant
            i <= a.len(),
            i <= b.len(),
            forall|k: int| 0 <= k < i ==> a@[k] == b@[k],
        decreases a.len() - i,
    {
        if a[i] != b[i] {
            proof {
                lemma_text_before_after_prefix(a@, b@, i as int);
                assert(a@.skip(i as int)[0] == a@[i as int]);
                assert(b@.skip(i as int)[0] == b@[i as int]);
            }
            return a[i] < b[i];
        }
        i += 1;
    }
    proof {
        lemma_text_before_after_prefix(a@, b@, i as int);
    }
    i < b.len()
}

/// Items that are ranked against each other.
pub trait Ranked: Sized {
    /// `self` ranks strictly before `other`.
    spec fn before(&self, other: &Self) -> bool;

    /// Tests whether `self` ranks strictly before `other`.
    fn ranks_before(&self, other: &Self) -> (b: bool)
        ensures
            b == self.before(other),
    ;
}

/// `sorted` with `x` put in behind the last item that `x` does not rank
/// before.
pub open spec fn inserted<T: Ranked>(sorted: Seq<T>, x: T) -> Seq<T>
    decreases sorted.len(),
{
    if sorted.len() == 0 || !x.before(&sorted.last()) {
        sorted.push(x)
    } else {
        inserted(sorted.drop_last(), x).push(sorted.last())
    }
}

/// The items of `s` by rank; items of the same rank stay in the order in
/// which `s` holds them.
pub open spec fn stable_sorted<T: Ranked>(s: Seq<T>) -> Seq<T>
    decreases s.len(),
{
    if s.len() == 0 {
        s
    } else {
        inserted(stable_sorted(s.drop_last()), s.last())
    }
}

/// No item of `s` ranks before an item in front of it.
pub open spec fn is_ranked<T: Ranked>(s: Seq<T>) -> bool {
    forall|i: int, j: int| #![trigger s[i], s[j]] 0 <= i < j < s.len() ==> !s[j].before(&s[i])
}

/// The ranks of the items of type `T` form a line, on which several items
/// may share a place: of two items at most one ranks before the other, and
/// not ranking before is transitive.
pub open spec fn ranks_are_linear<T: Ranked>() -> bool {
    &&& forall|a: T, b: T| #[trigger] a.before(&b) ==> !b.before(&a)
    &&& forall|a: T, b: T, c: T|
        !(#[trigger] a.before(&b)) && !(#[trigger] b.before(&c)) ==> !a.before(&c)
}

/// Putting an item in where `x` is put in leaves the items as they are but
/// for `x`, which is among them once more.
pub proof fn lemma_inserted_is_permutation<T: Ranked>(sorted: Seq<T>, x: T)
    ensures
        inserted(sorted, x).to_multiset() == sorted.to_multiset().insert(x),
        inserted(sorted, x).len() == sorted.len() + 1,
    decreases sorted.len(),
{
    broadcast use vstd::seq_lib::group_to_multiset_ensures;

    if sorted.len() == 0 || !x.before(&sorted.last()) {
    } else {
        let init = sorted.drop_last();
        lemma_inserted_is_permutation(init, x);
        assert(sorted == init.push(sorted.last()));
        assert(inserted(sorted, x).to_multiset() =~= sorted.to_multiset().insert(x));
    }
}

/// Sorting keeps the items: each is there as often as before.
pub proof fn lemma_stable_sorted_is_permutation<T: Ranked>(s: Seq<T>)
    ensures
        stable_sorted(s).to_multiset() == s.to_multiset(),
        stable_sorted(s).len() == s.len(),
    decreases s.len(),
{
    broadcast use vstd::seq_lib::group_to_multiset_ensures;

    if s.len() > 0 {
        let init = s.drop_last();
        lemma_stable_sorted_is_permutation(init);
        lemma_inserted_is_permutation(stable_sorted(init), s.last());
        assert(s == init.push(s.last()));
    }
}

/// Putting an item into a ranked list leaves it ranked.
pub proof fn lemma_inserted_is_ranked<T: Ranked>(sorted: Seq<T>, x: T)
    requires
        is_ranked(sorted),
        ranks_are_linear::<T>(),
    ensures
        is_ranked(inserted(sorted, x)),
        forall|y: T| inserted(sorted, x).contains(y) ==> y == x || sorted.contains(y),
    decreases sorted.len(),
{
    let out = inserted(sorted, x);
    if sorted.len() == 0 {
    } else if !x.before(&sorted.last()) {
        assert forall|i: int, j: int| #![trigger out[i], out[j]] 0 <= i < j < out.len() implies !out[j].before(
            &out[i],
        ) by {
            if j == sorted.len() {
                if i < sorted.len() - 1 {
                    assert(!sorted[sorted.len() - 1].before(&sorted[i]));
                }
                assert(out[i] == sorted[i]);
                assert(!x.before(&sorted.last()));
                assert(!sorted.last().before(&sorted[i]) || i == sorted.len() - 1);
            } else {
                assert(out[i] == sorted[i]);
                assert(out[j] == sorted[j]);
            }
        }
        assert forall|y: T| out.contains(y) implies y == x || sorted.contains(y) by {
            let k = choose|k: int| 0 <= k < out.len() && out[k] == y;
            if k < sorted.len() {
                assert(sorted[k] == y);
            }
        }
    } else {
        let init = sorted.drop_last();
        let last = sorted.last();
        assert forall|i: int, j: int| #![trigger init[i], init[j]] 0 <= i < j < init.len() implies !init[j].before(
            &init[i],
        ) by {
            assert(init[i] == sorted[i]);
            assert(init[j] == sorted[j]);
        }
        lemma_inserted_is_ranked(init, x);
        let mid = inserted(init, x);
        lemma_inserted_is_permutation(init, x);
        assert forall|i: int, j: int| #![trigger out[i], out[j]] 0 <= i < j < out.len() implies !out[j].before(
            &out[i],
        ) by {
            if j < mid.len() {
                assert(out[i] == mid[i]);
                assert(out[j] == mid[j]);
            } else {
                assert(out[j] == last);
                assert(out[i] == mid[i]);
                assert(mid.contains(mid[i]));
                if mid[i] == x {
                    assert(x.before(&last));
                } else {
                    assert(init.contains(mid[i]));
                    let k = choose|k: int| 0 <= k < init.len() && init[k] == mid[i];
                    assert(init[k] == sorted[k]);
                    assert(!sorted[sorted.len() - 1].before(&sorted[k]));
                }
            }
        }
        assert forall|y: T| out.contains(y) implies y == x || sorted.contains(y) by {
            let k = choose|k: int| 0 <= k < out.len() && out[k] == y;
            if k < mid.len() {
                assert(out[k] == mid[k]);
                assert(mid.contains(y));
                if y != x {
                    assert(init.contains(y));
                    let m = choose|m: int| 0 <= m < init.len() && init[m] == y;
                    assert(init[m] == sorted[m]);
                    assert(sorted.contains(y));
                }
            } else {
                assert(out[k] == sorted[sorted.len() - 1]);
                assert(sorted.contains(y));
            }
        }
    }
}

/// Sorting ranks the items, provided that their ranks form a line.
pub proof fn lemma_stable_sorted_is_ranked<T: Ranked>(s: Seq<T>)
    requires
        ranks_are_linear::<T>(),
    ensures
        is_ranked(stable_sorted(s)),
    decreases s.len(),
{
    if s.len() > 0 {
        lemma_stable_sorted_is_ranked(s.drop_last());
        lemma_inserted_is_ranked(stable_sorted(s.drop_last()), s.last());
    }
}

/// Sorts `v` stably by rank.
pub fn stable_sort<T: Ranked>(v: &mut Vec<T>)
    ensures
        final(v)@ == stable_sorted(old(v)@),
{
    let ghost before = v@;
    let mut i: usize = 0;
    assert(v@.take(0) =~= stable_sorted(before.take(0)));
    while i < v.len()
        invariant
            i <= v.len(),
            v.len() == before.len(),
            v@.take(i as int) == stable_sorted(before.take(i as int)),
            v@.skip(i as int) == before.skip(i as int),
        decreases v.len() - i,
    {
        let ghost sorted = v@.take(i as int);
        let ghost rest = v@.skip(i as int);
        let x = v.remove(i);
        proof {
            assert(x == rest[0]);
            assert(x == before[i as int]);
            assert(v@ =~= sorted + rest.skip(1));
            assert(before.take(i + 1).drop_last() == before.take(i as int));
            assert(before.take(i + 1).last() == x);
        }
        let mut at: usize = i;
        proof {
            assert(sorted.take(i as int) == sorted);
            assert(inserted(sorted, x) + sorted.skip(i as int) =~= inserted(sorted, x));
        }
        while at > 0 && x.ranks_before(&v[at - 1])
            invariant
                at <= i < before.len(),
                v@ == sorted + rest.skip(1),
                sorted.len() == i,
                inserted(sorted, x) == inserted(sorted.take(at as int), x) + sorted.skip(at as int),
            decreases at,
        {
            proof {
                let head = sorted.take(at as int);
                assert(head.last() == sorted[at - 1]);
                assert(v@[at - 1] == sorted[at - 1]);
                assert(head.drop_last() == sorted.take(at - 1));
                assert(inserted(head, x) == inserted(sorted.take(at - 1), x).push(head.last()));
                assert(inserted(sorted.take(at - 1), x).push(sorted[at - 1]) + sorted.skip(
                    at as int,
                ) =~= inserted(sorted.take(at - 1), x) + sorted.skip(at - 1));
            }
            at -= 1;
        }
        proof {
            let head = sorted.take(at as int);
            if at > 0 {
                assert(head.last() == sorted[at - 1]);
                assert(v@[at - 1] == sorted[at - 1]);
            }
            assert(inserted(head, x) == head.push(x));
        }
        v.insert(at, x);
        proof {
            assert(v@.take(i + 1) =~= sorted.take(at as int).push(x) + sorted.skip(at as int));
            assert(v@.skip(i + 1) =~= rest.skip(1));
            assert(rest.skip(1) =~= before.skip(i + 1));
        }
        i += 1;
    }
    proof {
        assert(v@.take(v.len() as int) == v@);
        assert(before.take(before.len() as int) == before);
    }
}

} // verus!
