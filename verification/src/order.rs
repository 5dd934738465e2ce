//! Sorting by text, keeping the order of equal keys.

use vstd::prelude::*;

use crate::text::{chars_of, text_le, texts};

verus! {

// ---------------------------------------------------------------------------
// The order of texts
// ---------------------------------------------------------------------------

/// Of two texts one stands before the other or equals it.
pub proof fn text_order_is_total(a: Seq<char>, b: Seq<char>)
    ensures
        text_le(a, b) || text_le(b, a),
    decreases a.len(),
{
    if a.len() > 0 && b.len() > 0 && a[0] == b[0] {
        text_order_is_total(a.drop_first(), b.drop_first());
    }
}

/// Two texts that stand before each other are the same.
pub proof fn text_order_is_antisymmetric(a: Seq<char>, b: Seq<char>)
    requires
        text_le(a, b),
        text_le(b, a),
    ensures
        a == b,
    decreases a.len(),
{
    if a.len() > 0 && b.len() > 0 && a[0] == b[0] {
        text_order_is_antisymmetric(a.drop_first(), b.drop_first());
        assert(a =~= seq![a[0]] + a.drop_first());
        assert(b =~= seq![b[0]] + b.drop_first());
    } else {
        assert(a =~= b);
    }
}

/// The order of texts is transitive.
pub proof fn text_order_is_transitive(a: Seq<char>, b: Seq<char>, c: Seq<char>)
    requires
        text_le(a, b),
        text_le(b, c),
    ensures
        text_le(a, c),
    decreases a.len(),
{
    if a.len() > 0 && b.len() > 0 && c.len() > 0 && a[0] == b[0] && b[0] == c[0] {
        text_order_is_transitive(a.drop_first(), b.drop_first(), c.drop_first());
    }
}

/// Whether a text stands before another or equals it.
pub fn not_after(a: &str, b: &str) -> (r: bool)
    ensures
        r == text_le(a@, b@),
{
    let left = chars_of(a);
    let right = chars_of(b);
    let mut i: usize = 0;
    proof {
        assert(left@.skip(0) =~= left@);
        assert(right@.skip(0) =~= right@);
    }
    while i < left.len() && i < right.len()
        invariant
            i <= left@.len(),
            i <= right@.len(),
            left@ == a@,
            right@ == b@,
            text_le(a@, b@) == text_le(left@.skip(i as int), right@.skip(i as int)),
        decreases left@.len() - i,
    {
        proof {
            assert(left@.skip(i as int).drop_first() =~= left@.skip(i + 1));
            assert(right@.skip(i as int).drop_first() =~= right@.skip(i + 1));
            assert(left@.skip(i as int)[0] == left@[i as int]);
            assert(right@.skip(i as int)[0] == right@[i as int]);
        }
        if left[i] != right[i] {
            return left[i] < right[i];
        }
        i += 1;
    }
    i == left.len()
}

// ---------------------------------------------------------------------------
// Places in a sorted list
// ---------------------------------------------------------------------------

/// Keys in ascending order.
pub open spec fn ascending(keys: Seq<Seq<char>>) -> bool {
    forall|i: int, j: int| 0 <= i <= j < keys.len() ==> text_le(#[trigger] keys[i], #[trigger] keys[j])
}

/// How many keys at the beginning of a list do not stand behind `key`.
pub open spec fn place(keys: Seq<Seq<char>>, key: Seq<char>) -> int
    decreases keys.len(),
{
    if keys.len() == 0 || !text_le(keys[0], key) {
        0
    } else {
        1 + place(keys.drop_first(), key)
    }
}

proof fn lemma_place(keys: Seq<Seq<char>>, key: Seq<char>, p: int)
    requires
        0 <= p <= keys.len(),
        forall|i: int| 0 <= i < p ==> text_le(#[trigger] keys[i], key),
        p < keys.len() ==> !text_le(keys[p], key),
    ensures
        place(keys, key) == p,
    decreases keys.len(),
{
    if p > 0 {
        let rest = keys.drop_first();
        assert forall|i: int| 0 <= i < p - 1 implies text_le(#[trigger] rest[i], key) by {
            assert(rest[i] == keys[i + 1]);
        }
        if p < keys.len() {
            assert(rest[p - 1] == keys[p]);
        }
        lemma_place(rest, key, p - 1);
    }
}

/// What the place of a key says of the keys around it.
pub proof fn lemma_place_splits(keys: Seq<Seq<char>>, key: Seq<char>)
    ensures
        0 <= place(keys, key) <= keys.len(),
        forall|i: int| 0 <= i < place(keys, key) ==> text_le(#[trigger] keys[i], key),
        place(keys, key) < keys.len() ==> !text_le(keys[place(keys, key)], key),
    decreases keys.len(),
{
    if keys.len() > 0 && text_le(keys[0], key) {
        let rest = keys.drop_first();
        lemma_place_splits(rest, key);
        assert forall|i: int| 0 <= i < place(keys, key) implies text_le(#[trigger] keys[i], key) by {
            if i > 0 {
                assert(keys[i] == rest[i - 1]);
            }
        }
        if place(keys, key) < keys.len() {
            assert(keys[place(keys, key)] == rest[place(rest, key)]);
        }
    }
}

/// A key put in its place keeps a list in order.
pub proof fn lemma_insert_keeps_order(keys: Seq<Seq<char>>, key: Seq<char>)
    requires
        ascending(keys),
    ensures
        ascending(keys.insert(place(keys, key), key)),
{
    lemma_place_splits(keys, key);
    let p = place(keys, key);
    let all = keys.insert(p, key);
    assert forall|i: int, j: int| 0 <= i <= j < all.len() implies text_le(
        #[trigger] all[i],
        #[trigger] all[j],
    ) by {
        if i == j {
            text_order_is_total(all[i], all[i]);
        } else if i < p && j < p {
            assert(all[i] == keys[i] && all[j] == keys[j]);
        } else if i < p && j == p {
            assert(all[i] == keys[i]);
        } else if i < p {
            assert(all[i] == keys[i] && all[j] == keys[j - 1]);
        } else if i == p {
            assert(all[j] == keys[j - 1]);
            text_order_is_total(keys[p], key);
            text_order_is_transitive(key, keys[p], keys[j - 1]);
        } else {
            assert(all[i] == keys[i - 1] && all[j] == keys[j - 1]);
        }
    }
}

/// How many keys of a sorted list do not stand behind `key`.
pub fn place_of(keys: &Vec<String>, key: &str) -> (r: usize)
    requires
        ascending(texts(keys@)),
    ensures
        r == place(texts(keys@), key@),
        r <= keys@.len(),
{
    let ghost all = texts(keys@);
    let mut low: usize = 0;
    let mut high: usize = keys.len();
    while low < high
        invariant
            low <= high <= keys@.len(),
            all == texts(keys@),
            all.len() == keys@.len(),
            ascending(all),
            forall|i: int| 0 <= i < low ==> text_le(#[trigger] all[i], key@),
            forall|i: int| high <= i < all.len() ==> !text_le(#[trigger] all[i], key@),
        decreases high - low,
    {
        let mid = low + (high - low) / 2;
        proof {
            assert(all[mid as int] == keys@[mid as int]@);
        }
        if not_after(keys[mid].as_str(), key) {
            proof {
                assert forall|i: int| 0 <= i < mid + 1 implies text_le(#[trigger] all[i], key@) by {
                    text_order_is_transitive(all[i], all[mid as int], key@);
                }
            }
            low = mid + 1;
        } else {
            proof {
                assert forall|i: int| mid <= i < all.len() implies !text_le(
                    #[trigger] all[i],
                    key@,
                ) by {
                    if text_le(all[i], key@) {
                        text_order_is_transitive(all[mid as int], all[i], key@);
                    }
                }
            }
            high = mid;
        }
    }
    proof {
        lemma_place(all, key@, low as int);
    }
    low
}

// ---------------------------------------------------------------------------
// Sorted sets of keys
// ---------------------------------------------------------------------------

/// The keys of a list, each once, in ascending order.
pub open spec fn sorted_set(keys: Seq<Seq<char>>) -> Seq<Seq<char>>
    decreases keys.len(),
{
    if keys.len() == 0 {
        Seq::empty()
    } else {
        let before = sorted_set(keys.drop_last());
        if before.contains(keys.last()) {
            before
        } else {
            before.insert(place(before, keys.last()), keys.last())
        }
    }
}

/// Keys that ascend strictly: each stands before the next, and none twice.
pub open spec fn is_sorted_set(keys: Seq<Seq<char>>) -> bool {
    ascending(keys) && keys.no_duplicates()
}

/// A new key put in its place keeps a sorted set a sorted set.
pub proof fn lemma_insert_keeps_set(keys: Seq<Seq<char>>, key: Seq<char>)
    requires
        is_sorted_set(keys),
        !keys.contains(key),
    ensures
        is_sorted_set(keys.insert(place(keys, key), key)),
{
    let p = place(keys, key);
    lemma_place_splits(keys, key);
    lemma_insert_keeps_order(keys, key);
    let after = keys.insert(p, key);
    assert forall|i: int, j: int|
        0 <= i < after.len() && 0 <= j < after.len() && i != j implies after[i] != after[j] by {
        let x = if i < p {
            i
        } else {
            i - 1
        };
        let y = if j < p {
            j
        } else {
            j - 1
        };
        if i != p && j != p {
            assert(after[i] == keys[x] && after[j] == keys[y]);
            assert(x != y);
        } else if i == p {
            assert(after[j] == keys[y]);
            assert(keys.contains(keys[y]));
        } else {
            assert(after[i] == keys[x]);
            assert(keys.contains(keys[x]));
        }
    }
}

/// A sorted set is in ascending order, without repetition, and holds the keys
/// of the list and no others.
pub proof fn sorted_set_is_the_set(keys: Seq<Seq<char>>)
    ensures
        ascending(sorted_set(keys)),
        sorted_set(keys).no_duplicates(),
        forall|k: Seq<char>| #[trigger] sorted_set(keys).contains(k) <==> keys.contains(k),
    decreases keys.len(),
{
    if keys.len() > 0 {
        let before = sorted_set(keys.drop_last());
        let last = keys.last();
        sorted_set_is_the_set(keys.drop_last());
        lemma_place_splits(before, last);
        let p = place(before, last);
        if !before.contains(last) {
            lemma_insert_keeps_set(before, last);
        }
        assert forall|k: Seq<char>| #[trigger] sorted_set(keys).contains(k) <==> keys.contains(
            k,
        ) by {
            let now = sorted_set(keys);
            if keys.contains(k) {
                let i = choose|i: int| 0 <= i < keys.len() && keys[i] == k;
                if i < keys.len() - 1 {
                    assert(keys.drop_last()[i] == k);
                    assert(keys.drop_last().contains(k));
                    assert(before.contains(k));
                    let j = choose|j: int| 0 <= j < before.len() && before[j] == k;
                    if !before.contains(last) {
                        assert(now[if j < p {
                            j
                        } else {
                            j + 1
                        }] == k);
                    }
                } else if !before.contains(last) {
                    assert(now[p] == k);
                }
            }
            if now.contains(k) {
                let j = choose|j: int| 0 <= j < now.len() && now[j] == k;
                if !before.contains(last) && j == p {
                    assert(keys[keys.len() - 1] == k);
                } else {
                    if !before.contains(last) {
                        assert(before[if j < p {
                            j
                        } else {
                            j - 1
                        }] == k);
                    }
                    assert(before.contains(k));
                    assert(keys.drop_last().contains(k));
                    let i = choose|i: int|
                        0 <= i < keys.drop_last().len() && keys.drop_last()[i] == k;
                    assert(keys[i] == k);
                }
            }
        }
    }
}

/// Puts a key into a sorted set.
pub fn insert_key(keys: &mut Vec<String>, key: String)
    requires
        is_sorted_set(texts(old(keys)@)),
    ensures
        is_sorted_set(texts(final(keys)@)),
        texts(final(keys)@) == (if texts(old(keys)@).contains(key@) {
            texts(old(keys)@)
        } else {
            texts(old(keys)@).insert(place(texts(old(keys)@), key@), key@)
        }),
{
    let p = place_of(keys, key.as_str());
    let ghost all = texts(keys@);
    proof {
        lemma_place_splits(all, key@);
        if all.contains(key@) {
            let i = choose|i: int| 0 <= i < all.len() && all[i] == key@;
            text_order_is_total(key@, key@);
            if i >= p {
                assert(text_le(all[p as int], all[i]));
            }
            assert(i < p);
            assert(text_le(all[i], all[p - 1]));
            text_order_is_antisymmetric(all[p - 1], key@);
        }
        if p > 0 {
            assert(all[p - 1] == keys@[p - 1]@);
        }
    }
    if p > 0 && keys[p - 1] == key {
        proof {
            assert(all[p - 1] == key@);
        }
        return ;
    }
    proof {
        lemma_insert_keeps_set(all, key@);
    }
    let ghost added = key@;
    keys.insert(p, key);
    proof {
        assert(texts(keys@) =~= all.insert(p as int, added));
    }
}

// ---------------------------------------------------------------------------
// Stable sorting
// ---------------------------------------------------------------------------

/// The items in the order of their keys; items with the same key in the order
/// in which they came.
pub open spec fn stable_sorted<T>(items: Seq<T>, key: spec_fn(T) -> Seq<char>) -> Seq<T>
    decreases items.len(),
{
    if items.len() == 0 {
        Seq::empty()
    } else {
        let before = stable_sorted(items.drop_last(), key);
        before.insert(place(before.map_values(key), key(items.last())), items.last())
    }
}

/// Sorting puts the keys in ascending order and keeps every item.
pub proof fn sorting_orders_and_keeps<T>(items: Seq<T>, key: spec_fn(T) -> Seq<char>)
    ensures
        ascending(stable_sorted(items, key).map_values(key)),
        stable_sorted(items, key).to_multiset() == items.to_multiset(),
        stable_sorted(items, key).len() == items.len(),
    decreases items.len(),
{
    if items.len() > 0 {
        let before = stable_sorted(items.drop_last(), key);
        sorting_orders_and_keeps(items.drop_last(), key);
        let keys = before.map_values(key);
        let x = items.last();
        lemma_place_splits(keys, key(x));
        let p = place(keys, key(x));
        lemma_insert_keeps_order(keys, key(x));
        assert(before.insert(p, x).map_values(key) =~= keys.insert(p, key(x)));
        let after = before.insert(p, x);
        assert(after.remove(p) =~= before);
        assert(after[p] == x);
        vstd::seq_lib::to_multiset_remove(after, p);
        vstd::seq_lib::to_multiset_contains(after, x);
        assert(after.contains(x));
        assert(after.to_multiset() =~= before.to_multiset().insert(x));
        assert(items =~= items.drop_last().push(x));
        vstd::seq_lib::to_multiset_build(items.drop_last(), x);
    } else {
        assert(stable_sorted(items, key).map_values(key).len() == 0);
        assert(items =~= Seq::<T>::empty());
    }
}

/// Items whose key is `wanted`.
pub open spec fn key_is<T>(key: spec_fn(T) -> Seq<char>, wanted: Seq<char>) -> spec_fn(T) -> bool {
    |item: T| key(item) == wanted
}

proof fn lemma_filter_nothing<T>(items: Seq<T>, keep: spec_fn(T) -> bool)
    requires
        forall|i: int| 0 <= i < items.len() ==> !keep(#[trigger] items[i]),
    ensures
        items.filter(keep) == Seq::<T>::empty(),
    decreases items.len(),
{
    reveal(Seq::filter);
    if items.len() > 0 {
        let before = items.drop_last();
        assert forall|i: int| 0 <= i < before.len() implies !keep(#[trigger] before[i]) by {
            assert(before[i] == items[i]);
        }
        lemma_filter_nothing(before, keep);
        assert(!keep(items[items.len() - 1]));
    }
}

/// Sorting keeps the order of the items with the same key.
pub proof fn equal_keys_keep_their_order<T>(
    items: Seq<T>,
    key: spec_fn(T) -> Seq<char>,
    wanted: Seq<char>,
)
    ensures
        stable_sorted(items, key).filter(key_is(key, wanted)) == items.filter(key_is(key, wanted)),
    decreases items.len(),
{
    let keep = key_is(key, wanted);
    if items.len() == 0 {
        assert(items =~= Seq::<T>::empty());
    } else {
        let shorter = items.drop_last();
        let before = stable_sorted(shorter, key);
        let x = items.last();
        let keys = before.map_values(key);
        let p = place(keys, key(x));
        equal_keys_keep_their_order(shorter, key, wanted);
        sorting_orders_and_keeps(shorter, key);
        lemma_place_splits(keys, key(x));
        let front = before.take(p);
        let back = before.skip(p);
        assert(before =~= front + back);
        assert(before.insert(p, x) =~= front + seq![x] + back);
        Seq::filter_distributes_over_add(front, back, keep);
        Seq::filter_distributes_over_add(front + seq![x], back, keep);
        Seq::filter_distributes_over_add(front, seq![x], keep);
        Seq::filter_distributes_over_add(shorter, seq![x], keep);
        assert(items =~= shorter + seq![x]);
        if keep(x) {
            assert forall|i: int| 0 <= i < back.len() implies !keep(#[trigger] back[i]) by {
                assert(back[i] == before[p + i]);
                assert(text_le(keys[p], keys[p + i]));
                text_order_is_total(key(x), key(x));
            }
            lemma_filter_nothing(back, keep);
            assert(front.filter(keep) + seq![x].filter(keep) + Seq::<T>::empty() =~= front.filter(
                keep,
            ) + Seq::<T>::empty() + seq![x].filter(keep));
        } else {
            let one = seq![x];
            assert forall|i: int| 0 <= i < one.len() implies !keep(#[trigger] one[i]) by {
            }
            lemma_filter_nothing(one, keep);
            assert(front.filter(keep) + Seq::<T>::empty() + back.filter(keep) =~= front.filter(keep)
                + back.filter(keep));
            assert(shorter.filter(keep) + Seq::<T>::empty() =~= shorter.filter(keep));
        }
    }
}

} // verus!
