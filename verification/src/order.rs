//! The order in which notes, repositories and remotes are listed: a stable
//! sort by a group number and two texts.
use vstd::prelude::*;
use vstd::string::*;
use crate::text::{lemma_lex_total, lemma_lex_transitive, lex_less, str_less};

verus! {

/// What an entry is ordered by: first its group, then its first text, then
/// its second.
pub struct SortKey {
    pub group: usize,
    pub first: String,
    pub second: String,
}

/// Mathematical value of a `SortKey`.
pub ghost struct KeyView {
    pub group: nat,
    pub first: Seq<char>,
    pub second: Seq<char>,
}

impl View for SortKey {
    type V = KeyView;

    open spec fn view(&self) -> KeyView {
        KeyView { group: self.group as nat, first: self.first@, second: self.second@ }
    }
}

/// The values of a list of keys.
pub open spec fn key_views(keys: Seq<SortKey>) -> Seq<KeyView> {
    keys.map_values(|k: SortKey| k@)
}

/// Strict order of keys: by group, then by first text, then by second text.
pub open spec fn key_less(a: KeyView, b: KeyView) -> bool {
    a.group < b.group || (a.group == b.group && (lex_less(a.first, b.first) || (a.first
        == b.first && lex_less(a.second, b.second))))
}

/// Entry `i` is listed before entry `j`: its key is smaller, or the keys are
/// equal and it came first.
pub open spec fn precedes(keys: Seq<KeyView>, i: int, j: int) -> bool {
    key_less(keys[i], keys[j]) || (keys[i] == keys[j] && i < j)
}

/// `order` lists the first `n` positions of `keys`, each once, so that every
/// entry precedes all that follow it.
pub open spec fn orders_prefix(keys: Seq<KeyView>, order: Seq<usize>, n: int) -> bool {
    &&& order.len() == n
    &&& forall|k: int| 0 <= k < order.len() ==> (#[trigger] order[k]) < n
    &&& forall|a: int, b: int|
        0 <= a < b < order.len() ==> precedes(keys, #[trigger] order[a] as int, #[trigger] order[b] as int)
    &&& forall|i: int| 0 <= i < n ==> #[trigger] order.contains(i as usize)
}

/// `order` is the stable sort of `keys`: a listing of all positions, sorted by
/// key, in which entries with equal keys keep their relative order.
pub open spec fn is_stable_order(keys: Seq<KeyView>, order: Seq<usize>) -> bool {
    orders_prefix(keys, order, keys.len() as int)
}

/// The stable sort of `keys`.
pub open spec fn ordering(keys: Seq<KeyView>) -> Seq<usize> {
    choose|order: Seq<usize>| is_stable_order(keys, order)
}

/// A stable sort of `keys` is the stable sort of `keys`.
pub proof fn lemma_ordering(keys: Seq<KeyView>, order: Seq<usize>)
    requires
        is_stable_order(keys, order),
    ensures
        ordering(keys) == order,
        is_stable_order(keys, ordering(keys)),
{
    lemma_stable_order_unique(keys, order, ordering(keys));
}

/// Two keys of which neither is smaller are equal.
pub proof fn lemma_key_total(a: KeyView, b: KeyView)
    ensures
        !key_less(a, b) && !key_less(b, a) ==> a == b,
        !(key_less(a, b) && key_less(b, a)),
        !key_less(a, a),
{
    lemma_lex_total(a.first, b.first);
    lemma_lex_total(a.second, b.second);
    lemma_lex_total(a.first, a.first);
    lemma_lex_total(a.second, a.second);
}

/// The order of keys is transitive.
pub proof fn lemma_key_transitive(a: KeyView, b: KeyView, c: KeyView)
    requires
        key_less(a, b),
        key_less(b, c),
    ensures
        key_less(a, c),
{
    if a.group == b.group && b.group == c.group {
        if lex_less(a.first, b.first) && lex_less(b.first, c.first) {
            lemma_lex_transitive(a.first, b.first, c.first);
        } else if a.first == b.first && b.first == c.first {
            lemma_lex_transitive(a.second, b.second, c.second);
        }
    }
}

/// Listing order is transitive.
pub proof fn lemma_precedes_transitive(keys: Seq<KeyView>, i: int, j: int, k: int)
    requires
        precedes(keys, i, j),
        precedes(keys, j, k),
    ensures
        precedes(keys, i, k),
{
    if key_less(keys[i], keys[j]) && key_less(keys[j], keys[k]) {
        lemma_key_transitive(keys[i], keys[j], keys[k]);
    }
}

/// Of two different positions exactly one precedes the other.
pub proof fn lemma_precedes_total(keys: Seq<KeyView>, i: int, j: int)
    ensures
        i != j ==> (precedes(keys, i, j) <==> !precedes(keys, j, i)),
        !precedes(keys, i, i),
{
    lemma_key_total(keys[i], keys[j]);
    lemma_key_total(keys[i], keys[i]);
}

/// The stable sort of a list of keys is unique.
pub proof fn lemma_stable_order_unique(keys: Seq<KeyView>, p: Seq<usize>, q: Seq<usize>)
    requires
        is_stable_order(keys, p),
        is_stable_order(keys, q),
    ensures
        p == q,
{
    assert forall|k: int| 0 <= k < p.len() implies p[k] == q[k] by {
        lemma_same_at(keys, p, q, k);
    }
    assert(p =~= q);
}

/// Two stable sorts of the same keys agree at every position.
proof fn lemma_same_at(keys: Seq<KeyView>, p: Seq<usize>, q: Seq<usize>, k: int)
    requires
        is_stable_order(keys, p),
        is_stable_order(keys, q),
        0 <= k < p.len(),
    ensures
        p[k] == q[k],
    decreases k,
{
    let x = p[k];
    let y = q[k];
    if x != y {
        assert(q.contains((x as int) as usize));
        let m = choose|m: int| 0 <= m < q.len() && q[m] == x;
        assert(p.contains((y as int) as usize));
        let l = choose|l: int| 0 <= l < p.len() && p[l] == y;
        lemma_precedes_total(keys, x as int, y as int);
        lemma_precedes_total(keys, x as int, x as int);
        lemma_precedes_total(keys, y as int, y as int);
        if m < k {
            lemma_same_at(keys, p, q, m);
            assert(precedes(keys, p[m] as int, p[k] as int));
        } else if l < k {
            lemma_same_at(keys, p, q, l);
            assert(precedes(keys, q[l] as int, q[k] as int));
        } else {
            assert(m > k && l > k);
            assert(precedes(keys, q[k] as int, q[m] as int));
            assert(precedes(keys, p[k] as int, p[l] as int));
        }
    }
}

/// Where the last key is put among the first `upto` entries of the stable
/// sort of the keys before it: behind the last entry that it does not come
/// before.
spec fn insertion_point(keys: Seq<KeyView>, before: Seq<usize>, upto: int) -> int
    decreases upto,
{
    if upto <= 0 {
        0
    } else if key_less(keys.last(), keys[before[upto - 1] as int]) {
        insertion_point(keys, before, upto - 1)
    } else {
        upto
    }
}

/// The insertion point parts the entries that precede the last key from
/// those that it precedes.
proof fn lemma_insertion_point(keys: Seq<KeyView>, before: Seq<usize>, upto: int)
    requires
        keys.len() > 0,
        is_stable_order(keys.drop_last(), before),
        0 <= upto <= before.len(),
        forall|k: int| upto <= k < before.len() ==> key_less(keys.last(), keys[#[trigger] before[k] as int]),
    ensures
        ({
            let p = insertion_point(keys, before, upto);
            &&& 0 <= p <= upto
            &&& forall|k: int|
                p <= k < before.len() ==> precedes(keys, keys.len() - 1, #[trigger] before[k] as int)
            &&& forall|k: int| 0 <= k < p ==> precedes(keys, #[trigger] before[k] as int, keys.len() - 1)
        }),
    decreases upto,
{
    let head = keys.drop_last();
    let i = keys.len() - 1;
    if upto <= 0 {
    } else if key_less(keys.last(), keys[before[upto - 1] as int]) {
        lemma_insertion_point(keys, before, upto - 1);
    } else {
        let last = before[upto - 1] as int;
        lemma_key_total(keys[i], keys[last]);
        assert(precedes(keys, last, i));
        assert forall|k: int| 0 <= k < upto implies precedes(keys, #[trigger] before[k] as int, i) by {
            if k < upto - 1 {
                assert(precedes(head, before[k] as int, before[upto - 1] as int));
                assert(head[before[k] as int] == keys[before[k] as int]);
                assert(head[last] == keys[last]);
                lemma_precedes_transitive(keys, before[k] as int, last, i);
            }
        }
    }
}

/// Every list of keys that a machine can hold has a stable sort.
pub proof fn lemma_order_exists(keys: Seq<KeyView>)
    requires
        keys.len() <= usize::MAX,
    ensures
        is_stable_order(keys, ordering(keys)),
    decreases keys.len(),
{
    if keys.len() == 0 {
        assert(is_stable_order(keys, Seq::<usize>::empty()));
    } else {
        let head = keys.drop_last();
        lemma_order_exists(head);
        let before = ordering(head);
        let i = (keys.len() - 1) as int;
        let p = insertion_point(keys, before, before.len() as int);
        lemma_insertion_point(keys, before, before.len() as int);
        let after = before.insert(p, i as usize);
        assert forall|k: int| 0 <= k < after.len() implies (#[trigger] after[k]) < keys.len() by {
            if k < p {
                assert(after[k] == before[k]);
            } else if k > p {
                assert(after[k] == before[k - 1]);
            }
        }
        assert forall|a: int, b: int| 0 <= a < b < after.len() implies precedes(
            keys,
            #[trigger] after[a] as int,
            #[trigger] after[b] as int,
        ) by {
            if b < p {
                assert(after[a] == before[a] && after[b] == before[b]);
                assert(precedes(head, before[a] as int, before[b] as int));
                assert(head[before[a] as int] == keys[before[a] as int]);
                assert(head[before[b] as int] == keys[before[b] as int]);
            } else if a > p {
                assert(after[a] == before[a - 1] && after[b] == before[b - 1]);
                assert(precedes(head, before[a - 1] as int, before[b - 1] as int));
                assert(head[before[a - 1] as int] == keys[before[a - 1] as int]);
                assert(head[before[b - 1] as int] == keys[before[b - 1] as int]);
            } else if a < p && b > p {
                assert(after[a] == before[a] && after[b] == before[b - 1]);
                assert(precedes(head, before[a] as int, before[b - 1] as int));
                assert(head[before[a] as int] == keys[before[a] as int]);
                assert(head[before[b - 1] as int] == keys[before[b - 1] as int]);
            } else if a == p {
                assert(after[a] == i as usize);
                assert(after[b] == before[b - 1]);
            } else {
                assert(after[b] == i as usize);
                assert(after[a] == before[a]);
            }
        }
        assert forall|j: int| 0 <= j < keys.len() implies #[trigger] after.contains(j as usize) by {
            if j == i {
                assert(after[p] == i as usize);
            } else {
                assert(before.contains(j as usize));
                let k = choose|k: int| 0 <= k < before.len() && before[k] == j as usize;
                if k < p {
                    assert(after[k] == j as usize);
                } else {
                    assert(after[k + 1] == j as usize);
                }
            }
        }
        assert(is_stable_order(keys, after));
    }
}

/// Returns whether key `a` is smaller than key `b`.
pub fn key_before(a: &SortKey, b: &SortKey) -> (r: bool)
    ensures
        r == key_less(a@, b@),
{
    if a.group != b.group {
        a.group < b.group
    } else if str_less(a.first.as_str(), b.first.as_str()) {
        true
    } else if a.first.eq(&b.first) {
        str_less(a.second.as_str(), b.second.as_str())
    } else {
        false
    }
}

/// Returns the positions of `keys` in sorted order. The sort is stable:
/// entries with equal keys stay in the order in which they stand in `keys`.
pub fn stable_order(keys: &Vec<SortKey>) -> (order: Vec<usize>)
    ensures
        is_stable_order(key_views(keys@), order@),
{
    let ghost kv = key_views(keys@);
    let mut order: Vec<usize> = Vec::new();
    let mut i: usize = 0;
    while i < keys.len()
        invariant
            i <= keys.len(),
            kv == key_views(keys@),
            orders_prefix(kv, order@, i as int),
        decreases keys.len() - i,
    {
        let mut p: usize = i;
        while p > 0 && key_before(&keys[i], &keys[order[p - 1]])
            invariant
                p <= i < keys.len(),
                kv == key_views(keys@),
                orders_prefix(kv, order@, i as int),
                forall|k: int| p <= k < i ==> key_less(kv[i as int], kv[#[trigger] order@[k] as int]),
            decreases p,
        {
            p = p - 1;
        }
        let ghost before = order@;
        order.insert(p, i);
        proof {
            let after = order@;
            assert forall|k: int| 0 <= k < after.len() implies (#[trigger] after[k]) < i + 1 by {
                if k < p {
                    assert(after[k] == before[k]);
                } else if k > p {
                    assert(after[k] == before[k - 1]);
                }
            }
            assert forall|a: int, b: int| 0 <= a < b < after.len() implies precedes(
                kv,
                #[trigger] after[a] as int,
                #[trigger] after[b] as int,
            ) by {
                if b < p {
                    assert(after[a] == before[a] && after[b] == before[b]);
                } else if a > p {
                    assert(after[a] == before[a - 1] && after[b] == before[b - 1]);
                } else if a < p && b > p {
                    assert(after[a] == before[a] && after[b] == before[b - 1]);
                } else if a == p {
                    assert(after[b] == before[b - 1]);
                } else {
                    // b == p, a < p
                    assert(after[a] == before[a]);
                    let last = before[p - 1] as int;
                    lemma_key_total(kv[i as int], kv[last]);
                    assert(precedes(kv, last, i as int));
                    if a < p - 1 {
                        assert(precedes(kv, before[a] as int, before[p - 1] as int));
                        lemma_precedes_transitive(kv, before[a] as int, last, i as int);
                    }
                }
            }
            assert forall|j: int| 0 <= j < i + 1 implies #[trigger] after.contains(j as usize) by {
                if j == i {
                    assert(after[p as int] == i);
                } else {
                    assert(before.contains(j as usize));
                    let k = choose|k: int| 0 <= k < before.len() && before[k] == j as usize;
                    if k < p {
                        assert(after[k] == j as usize);
                    } else {
                        assert(after[k + 1] == j as usize);
                    }
                }
            }
        }
        i = i + 1;
    }
    order
}

} // verus!
