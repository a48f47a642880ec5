//! Putting items in the order of a number that each of them carries.

use vstd::prelude::*;

verus! {

/// The sequence `s`, which is in order, with `item` added behind everything that
/// does not come after it.
pub open spec fn placed<T>(s: Seq<T>, item: T, key: spec_fn(T) -> int) -> Seq<T>
    decreases s.len(),
{
    if s.len() > 0 && key(item) < key(s.last()) {
        placed(s.drop_last(), item, key).push(s.last())
    } else {
        s.push(item)
    }
}

/// The items of `s` in order of their keys; items with the same key stay in the
/// order in which they came.
pub open spec fn arranged<T>(s: Seq<T>, key: spec_fn(T) -> int) -> Seq<T>
    decreases s.len(),
{
    if s.len() == 0 {
        s
    } else {
        placed(arranged(s.drop_last(), key), s.last(), key)
    }
}

pub open spec fn in_order<T>(s: Seq<T>, key: spec_fn(T) -> int) -> bool {
    forall|i: int, j: int| 0 <= i <= j < s.len() ==> key(#[trigger] s[i]) <= key(#[trigger] s[j])
}

/// The items of `s` whose key is `k`.
pub open spec fn with_key<T>(s: Seq<T>, key: spec_fn(T) -> int, k: int) -> Seq<T>
    decreases s.len(),
{
    if s.len() == 0 {
        s
    } else if key(s.last()) == k {
        with_key(s.drop_last(), key, k).push(s.last())
    } else {
        with_key(s.drop_last(), key, k)
    }
}

/// Where [`placed`] puts the item.
pub proof fn lemma_placed_at<T>(s: Seq<T>, item: T, key: spec_fn(T) -> int, at: int)
    requires
        0 <= at <= s.len(),
        at > 0 ==> key(s[at - 1]) <= key(item),
        forall|i: int| at <= i < s.len() ==> key(item) < key(#[trigger] s[i]),
    ensures
        placed(s, item, key) == s.insert(at, item),
    decreases s.len(),
{
    if at < s.len() {
        lemma_placed_at(s.drop_last(), item, key, at);
        assert(s.insert(at, item) =~= s.drop_last().insert(at, item).push(s.last()));
    } else {
        assert(s.insert(at, item) =~= s.push(item));
    }
}

proof fn lemma_placed_in_order<T>(s: Seq<T>, item: T, key: spec_fn(T) -> int)
    requires
        in_order(s, key),
    ensures
        in_order(placed(s, item, key), key),
        placed(s, item, key).len() == s.len() + 1,
        forall|i: int|
            0 <= i < placed(s, item, key).len() ==> key(#[trigger] placed(s, item, key)[i])
                <= if s.len() > 0 && key(item) < key(s.last()) {
                key(s.last())
            } else {
                key(item)
            },
    decreases s.len(),
{
    if s.len() > 0 && key(item) < key(s.last()) {
        assert(in_order(s.drop_last(), key));
        lemma_placed_in_order(s.drop_last(), item, key);
        if s.len() > 1 {
            assert(key(s[s.len() - 2]) <= key(s[s.len() - 1]));
        }
    } else if s.len() > 0 {
        assert forall|i: int| 0 <= i < s.len() implies key(#[trigger] s[i]) <= key(item) by {
            assert(key(s[i]) <= key(s[s.len() - 1]));
        }
    }
}

proof fn lemma_placed_with_key<T>(s: Seq<T>, item: T, key: spec_fn(T) -> int, k: int)
    requires
        in_order(s, key),
    ensures
        with_key(placed(s, item, key), key, k) == with_key(s.push(item), key, k),
    decreases s.len(),
{
    assert(s.push(item).drop_last() =~= s);
    if s.len() > 0 && key(item) < key(s.last()) {
        let front = s.drop_last();
        assert(in_order(front, key));
        lemma_placed_with_key(front, item, key, k);
        assert(front.push(item).drop_last() =~= front);
        assert(placed(front, item, key).push(s.last()).drop_last() =~= placed(front, item, key));
        reveal_with_fuel(with_key, 3);
    }
}

/// Arranging puts the items in order, loses and adds none, and leaves those
/// with the same key in the order in which they came.
pub proof fn law_arranged_is_a_stable_sort<T>(s: Seq<T>, key: spec_fn(T) -> int)
    ensures
        in_order(arranged(s, key), key),
        arranged(s, key).len() == s.len(),
        forall|k: int| #[trigger] with_key(arranged(s, key), key, k) == with_key(s, key, k),
    decreases s.len(),
{
    if s.len() > 0 {
        let front = s.drop_last();
        law_arranged_is_a_stable_sort(front, key);
        lemma_placed_in_order(arranged(front, key), s.last(), key);
        assert forall|k: int| #[trigger]
            with_key(arranged(s, key), key, k) == with_key(s, key, k) by {
            lemma_placed_with_key(arranged(front, key), s.last(), key, k);
            assert(arranged(front, key).push(s.last()).drop_last() =~= arranged(front, key));
            assert(with_key(arranged(front, key), key, k) == with_key(front, key, k));
        }
    }
}

proof fn lemma_placed_holds<T>(s: Seq<T>, item: T, key: spec_fn(T) -> int, x: T)
    requires
        s.contains(x) || x == item,
    ensures
        placed(s, item, key).contains(x),
    decreases s.len(),
{
    let result = placed(s, item, key);
    if s.len() > 0 && key(item) < key(s.last()) {
        if x == s.last() {
            assert(result[result.len() - 1] == x);
        } else {
            if x != item {
                let i = choose|i: int| 0 <= i < s.len() && s[i] == x;
                assert(s.drop_last()[i] == x);
            }
            lemma_placed_holds(s.drop_last(), item, key, x);
            let front = placed(s.drop_last(), item, key);
            let i = choose|i: int| 0 <= i < front.len() && front[i] == x;
            assert(result[i] == x);
        }
    } else if x == item {
        assert(result[result.len() - 1] == x);
    } else {
        let i = choose|i: int| 0 <= i < s.len() && s[i] == x;
        assert(result[i] == x);
    }
}

/// Arranging leaves no item out.
pub proof fn law_arranged_leaves_nothing_out<T>(s: Seq<T>, key: spec_fn(T) -> int, x: T)
    requires
        s.contains(x),
    ensures
        arranged(s, key).contains(x),
    decreases s.len(),
{
    let front = s.drop_last();
    if x != s.last() {
        let i = choose|i: int| 0 <= i < s.len() && s[i] == x;
        assert(front[i] == x);
        law_arranged_leaves_nothing_out(front, key, x);
    }
    lemma_placed_holds(arranged(front, key), s.last(), key, x);
}

proof fn lemma_placed_adds_one<T>(s: Seq<T>, item: T, key: spec_fn(T) -> int, x: T)
    requires
        placed(s, item, key).contains(x),
    ensures
        s.contains(x) || x == item,
    decreases s.len(),
{
    let result = placed(s, item, key);
    let i = choose|i: int| 0 <= i < result.len() && result[i] == x;
    if s.len() > 0 && key(item) < key(s.last()) {
        let front = placed(s.drop_last(), item, key);
        if i < front.len() {
            assert(front[i] == x);
            lemma_placed_adds_one(s.drop_last(), item, key, x);
            if s.drop_last().contains(x) {
                let k = choose|k: int| 0 <= k < s.drop_last().len() && s.drop_last()[k] == x;
                assert(s[k] == x);
            }
        } else {
            assert(s[s.len() - 1] == x);
        }
    } else if i < s.len() {
        assert(s[i] == x);
    }
}

/// Arranging adds no item.
pub proof fn law_arranged_adds_nothing<T>(s: Seq<T>, key: spec_fn(T) -> int, x: T)
    requires
        arranged(s, key).contains(x),
    ensures
        s.contains(x),
    decreases s.len(),
{
    if s.len() > 0 {
        let front = s.drop_last();
        lemma_placed_adds_one(arranged(front, key), s.last(), key, x);
        if x == s.last() {
            assert(s[s.len() - 1] == x);
        } else {
            law_arranged_adds_nothing(front, key, x);
            let k = choose|k: int| 0 <= k < front.len() && front[k] == x;
            assert(s[k] == x);
        }
    }
}

} // verus!
