//! A byte-bounded LRU cache keyed by path.
//!
//! Entries live in a vector and are threaded on an intrusive doubly linked
//! list (`prev`/`next` are indices, `NO_NODE` marks an end); a hash map gives
//! the index of each key. The most recently used entry is at the head; when
//! the summed size exceeds the limit, entries are dropped from the tail.
//!
//! The model of a cache is the sequence of its entries `(key, value, bytes)`
//! from the most to the least recently used (`entries`).
use vstd::hash_map::StringHashMap;
use vstd::prelude::*;

verus! {

/// Marks the absence of a neighbour in the intrusive list.
pub const NO_NODE: usize = usize::MAX;

/// Bytes in one mebibyte.
pub const MIB: u64 = 1048576;

/// Sum of the sizes of the entries of `s`.
pub open spec fn total_bytes<V>(s: Seq<(Seq<char>, V, u64)>) -> int
    decreases s.len(),
{
    if s.len() == 0 {
        0
    } else {
        total_bytes(s.drop_last()) + s.last().2
    }
}

/// The keys of `s`, in order.
pub open spec fn keys_of<V>(s: Seq<(Seq<char>, V, u64)>) -> Seq<Seq<char>> {
    s.map_values(|e: (Seq<char>, V, u64)| e.0)
}

/// No key occurs twice in `s`.
pub open spec fn unique_keys<V>(s: Seq<(Seq<char>, V, u64)>) -> bool {
    forall|i: int, j: int| 0 <= i < s.len() && 0 <= j < s.len() && i != j ==> s[i].0 != s[j].0
}

/// `s` without the entry whose key is `k`.
pub open spec fn without_key<V>(s: Seq<(Seq<char>, V, u64)>, k: Seq<char>) -> Seq<(Seq<char>, V, u64)>
    decreases s.len(),
{
    if s.len() == 0 {
        s
    } else if s.last().0 == k {
        without_key(s.drop_last(), k)
    } else {
        without_key(s.drop_last(), k).push(s.last())
    }
}

/// Drops the least recently used entry (the last one) while the summed size
/// exceeds `limit`. Gives the kept entries and the dropped keys, in the order
/// in which they were dropped.
pub open spec fn evict_spec<V>(s: Seq<(Seq<char>, V, u64)>, limit: int) -> (
    Seq<(Seq<char>, V, u64)>,
    Seq<Seq<char>>,
)
    decreases s.len(),
{
    if s.len() == 0 || total_bytes(s) <= limit {
        (s, Seq::empty())
    } else {
        let r = evict_spec(s.drop_last(), limit);
        (r.0, seq![s.last().0] + r.1)
    }
}

/// The cache limit in bytes for a limit of `mb` mebibytes (saturating).
pub open spec fn limit_of(mb: u64) -> int {
    if mb * MIB > u64::MAX {
        u64::MAX as int
    } else {
        mb * MIB
    }
}

/// The views of a vector of strings.
pub open spec fn string_views(v: Seq<String>) -> Seq<Seq<char>> {
    v.map_values(|s: String| s@)
}

pub proof fn lemma_total_bytes_nonneg<V>(s: Seq<(Seq<char>, V, u64)>)
    ensures
        total_bytes(s) >= 0,
    decreases s.len(),
{
    if s.len() > 0 {
        lemma_total_bytes_nonneg(s.drop_last());
    }
}

pub proof fn lemma_total_bytes_prepend<V>(e: (Seq<char>, V, u64), s: Seq<(Seq<char>, V, u64)>)
    ensures
        total_bytes(seq![e] + s) == e.2 + total_bytes(s),
    decreases s.len(),
{
    let t = seq![e] + s;
    assert(t.len() == s.len() + 1);
    if s.len() == 0 {
        assert(t.drop_last() =~= Seq::<(Seq<char>, V, u64)>::empty());
        assert(t.last() == e);
        assert(total_bytes(t.drop_last()) == 0);
    } else {
        lemma_total_bytes_prepend(e, s.drop_last());
        assert(t.drop_last() =~= seq![e] + s.drop_last());
        assert(t.last() == s.last());
    }
}

pub proof fn lemma_total_bytes_remove<V>(s: Seq<(Seq<char>, V, u64)>, i: int)
    requires
        0 <= i < s.len(),
    ensures
        total_bytes(s) == total_bytes(s.remove(i)) + s[i].2,
    decreases s.len(),
{
    if i == s.len() - 1 {
        assert(s.remove(i) =~= s.drop_last());
    } else {
        lemma_total_bytes_remove(s.drop_last(), i);
        assert(s.remove(i).drop_last() =~= s.drop_last().remove(i));
        assert(s.remove(i).last() == s.last());
    }
}

pub proof fn lemma_without_key_absent<V>(s: Seq<(Seq<char>, V, u64)>, k: Seq<char>)
    requires
        forall|i: int| 0 <= i < s.len() ==> s[i].0 != k,
    ensures
        without_key(s, k) == s,
    decreases s.len(),
{
    if s.len() > 0 {
        lemma_without_key_absent(s.drop_last(), k);
        assert(s.drop_last().push(s.last()) =~= s);
    }
}

pub proof fn lemma_without_key_at<V>(s: Seq<(Seq<char>, V, u64)>, k: Seq<char>, i: int)
    requires
        unique_keys(s),
        0 <= i < s.len(),
        s[i].0 == k,
    ensures
        without_key(s, k) == s.remove(i),
    decreases s.len(),
{
    if i == s.len() - 1 {
        lemma_without_key_absent(s.drop_last(), k);
        assert(s.remove(i) =~= s.drop_last());
    } else {
        lemma_without_key_at(s.drop_last(), k, i);
        assert(s.remove(i) =~= s.drop_last().remove(i).push(s.last()));
    }
}

/// Taking position `k` off a list: the neighbours of `ord[k]` are joined.
proof fn lemma_unlink_linked<V>(
    nodes0: Seq<LruNode<V>>,
    nodes1: Seq<LruNode<V>>,
    ord: Seq<usize>,
    k: int,
    head0: usize,
    tail0: usize,
    head1: usize,
    tail1: usize,
)
    requires
        nodes0.len() < usize::MAX,
        indices_ok(ord, nodes0.len() as int),
        nodes1.len() == nodes0.len(),
        0 <= k < ord.len(),
        linked(nodes0, head0, tail0, ord),
        forall|j: int|
            #![trigger nodes1[j]]
            0 <= j < nodes0.len() && j != prev_of(ord, k) && j != next_of(ord, k) && j != ord[k]
                ==> nodes1[j].prev == nodes0[j].prev && nodes1[j].next == nodes0[j].next,
        k > 0 ==> nodes1[ord[k - 1] as int].next == next_of(ord, k) && nodes1[ord[k - 1] as int].prev
            == nodes0[ord[k - 1] as int].prev,
        k + 1 < ord.len() ==> nodes1[ord[k + 1] as int].prev == prev_of(ord, k) && nodes1[ord[k
            + 1] as int].next == nodes0[ord[k + 1] as int].next,
        ord.len() == 1 ==> head1 == NO_NODE && tail1 == NO_NODE,
        ord.len() > 1 ==> head1 == (if k == 0 {
            ord[1]
        } else {
            ord[0]
        }),
        ord.len() > 1 ==> tail1 == (if k + 1 == ord.len() {
            ord[k - 1]
        } else {
            ord[ord.len() - 1]
        }),
    ensures
        linked(nodes1, head1, tail1, ord.remove(k)),
{
    reveal(linked);
    let nord = ord.remove(k);
    assert forall|i: int| #![trigger nord[i]] 0 <= i < nord.len() implies nodes1[nord[i] as int].prev
        == prev_of(nord, i) && nodes1[nord[i] as int].next == next_of(nord, i) by {
        let oi = if i < k {
            i
        } else {
            i + 1
        };
        assert(nord[i] == ord[oi]);
        assert(ord[oi] == ord[oi]);
        assert(nodes0[ord[oi] as int].prev == prev_of(ord, oi));
        assert(nodes0[ord[oi] as int].next == next_of(ord, oi));
        assert(ord[oi] != ord[k]);
        if oi == k - 1 {
        } else if oi == k + 1 {
        } else {
            if k > 0 {
                assert(ord[oi] != ord[k - 1]);
            }
            if k + 1 < ord.len() {
                assert(ord[oi] != ord[k + 1]);
            }
        }
        if i > 0 {
            if i - 1 < k {
                assert(nord[i - 1] == ord[i - 1]);
            } else {
                assert(nord[i - 1] == ord[i]);
            }
        }
        if i + 1 < nord.len() {
            if i + 1 < k {
                assert(nord[i + 1] == ord[i + 1]);
            } else {
                assert(nord[i + 1] == ord[i + 2]);
            }
        }
    }
}

/// After `swap_remove(index)` the last node sits at `index`; renaming it on
/// the list keeps the list well linked.
proof fn lemma_rename_linked<V>(
    nodes0: Seq<LruNode<V>>,
    nodes1: Seq<LruNode<V>>,
    ord: Seq<usize>,
    index: usize,
    p: int,
    head0: usize,
    tail0: usize,
    head1: usize,
    tail1: usize,
)
    requires
        nodes0.len() < usize::MAX,
        nodes1.len() + 1 == nodes0.len(),
        index < nodes1.len(),
        indices_ok(ord, nodes0.len() as int),
        !ord.contains(index),
        0 <= p < ord.len(),
        ord[p] as int == nodes1.len(),
        linked(nodes0, head0, tail0, ord),
        nodes1[index as int].prev == nodes0[nodes1.len() as int].prev,
        nodes1[index as int].next == nodes0[nodes1.len() as int].next,
        forall|j: int|
            #![trigger nodes1[j]]
            0 <= j < nodes1.len() && j != index && j != prev_of(ord, p) && j != next_of(ord, p)
                ==> nodes1[j].prev == nodes0[j].prev && nodes1[j].next == nodes0[j].next,
        p > 0 ==> nodes1[ord[p - 1] as int].next == index && nodes1[ord[p - 1] as int].prev
            == nodes0[ord[p - 1] as int].prev,
        p + 1 < ord.len() ==> nodes1[ord[p + 1] as int].prev == index && nodes1[ord[p + 1] as int].next
            == nodes0[ord[p + 1] as int].next,
        head1 == (if p == 0 {
            index
        } else {
            head0
        }),
        tail1 == (if p + 1 == ord.len() {
            index
        } else {
            tail0
        }),
    ensures
        linked(nodes1, head1, tail1, renamed(ord, nodes1.len() as int, index)),
{
    reveal(linked);
    let last = nodes1.len() as int;
    let nord = renamed(ord, last, index);
    assert forall|i: int| 0 <= i < ord.len() && i != p implies ord[i] != index && ord[i] as int
        != last && #[trigger] nord[i] == ord[i] by {
        assert(ord[i] != ord[p]);
    }
    assert forall|i: int| #![trigger nord[i]] 0 <= i < nord.len() implies nodes1[nord[i] as int].prev
        == prev_of(nord, i) && nodes1[nord[i] as int].next == next_of(nord, i) by {
        assert(ord[i] == ord[i]);
        assert(nodes0[ord[i] as int].prev == prev_of(ord, i));
        assert(nodes0[ord[i] as int].next == next_of(ord, i));
        if i != p {
            if p > 0 && i != p - 1 {
                assert(ord[i] != ord[p - 1]);
            }
            if p + 1 < ord.len() && i != p + 1 {
                assert(ord[i] != ord[p + 1]);
            }
        }
        if i > 0 && i - 1 != p {
            assert(nord[i - 1] == ord[i - 1]);
        }
        if i + 1 < ord.len() && i + 1 != p {
            assert(nord[i + 1] == ord[i + 1]);
        }
    }
    if ord.len() > 0 {
        if p != 0 {
            assert(nord[0] == ord[0]);
        }
        if p != ord.len() - 1 {
            assert(nord[ord.len() - 1] == ord[ord.len() - 1]);
        }
    }
}

/// The position of the entry with key `k` in `s`.
pub open spec fn key_index<V>(s: Seq<(Seq<char>, V, u64)>, k: Seq<char>) -> int {
    choose|i: int| 0 <= i < s.len() && s[i].0 == k
}

/// `s` with the entry whose key is `k` moved to the front.
pub open spec fn promote<V>(s: Seq<(Seq<char>, V, u64)>, k: Seq<char>) -> Seq<(Seq<char>, V, u64)> {
    let i = key_index(s, k);
    seq![s[i]] + s.remove(i)
}

/// `s` after storing `(k, v, b)` as the most recently used entry.
pub open spec fn put_front<V>(s: Seq<(Seq<char>, V, u64)>, k: Seq<char>, v: V, b: u64) -> Seq<(Seq<char>, V, u64)> {
    seq![(k, v, b)] + without_key(s, k)
}

/// A permutation of `0..n`.
pub open spec fn perm(ord: Seq<usize>, n: int) -> bool {
    &&& ord.len() == n
    &&& indices_ok(ord, n)
    &&& forall|j: int| 0 <= j < n ==> #[trigger] ord.contains(j as usize)
}

proof fn lemma_perm_move_front(ord: Seq<usize>, n: int, k: int)
    requires
        perm(ord, n),
        0 <= k < n < usize::MAX,
    ensures
        perm(seq![ord[k]] + ord.remove(k), n),
{
    let nord = seq![ord[k]] + ord.remove(k);
    assert forall|i: int| #![trigger nord[i]] 0 <= i < nord.len() implies nord[i] < n by {
        if i > 0 {
            if i - 1 < k {
                assert(nord[i] == ord[i - 1]);
            } else {
                assert(nord[i] == ord[i]);
            }
        }
    }
    assert forall|i: int, j: int|
        0 <= i < nord.len() && 0 <= j < nord.len() && i != j implies nord[i] != nord[j] by {
        let oi = if i == 0 { k } else if i - 1 < k { i - 1 } else { i };
        let oj = if j == 0 { k } else if j - 1 < k { j - 1 } else { j };
        assert(nord[i] == ord[oi]);
        assert(nord[j] == ord[oj]);
    }
    assert forall|j: int| 0 <= j < n implies #[trigger] nord.contains(j as usize) by {
        assert(ord.contains(j as usize));
        let p = choose|p: int| 0 <= p < ord.len() && ord[p] == j as usize;
        if p == k {
            assert(nord[0] == j);
        } else if p < k {
            assert(nord[p + 1] == j);
        } else {
            assert(nord[p] == j);
        }
    }
}

proof fn lemma_perm_push_front(ord: Seq<usize>, n: int)
    requires
        perm(ord, n),
        0 <= n < usize::MAX,
    ensures
        perm(seq![n as usize] + ord, n + 1),
        !ord.contains(n as usize),
{
    let nord = seq![n as usize] + ord;
    assert forall|i: int, j: int|
        0 <= i < nord.len() && 0 <= j < nord.len() && i != j implies nord[i] != nord[j] by {
        if i > 0 {
            assert(nord[i] == ord[i - 1]);
        }
        if j > 0 {
            assert(nord[j] == ord[j - 1]);
        }
    }
    assert forall|j: int| 0 <= j < n + 1 implies #[trigger] nord.contains(j as usize) by {
        if j == n {
            assert(nord[0] == j);
        } else {
            assert(ord.contains(j as usize));
            let p = choose|p: int| 0 <= p < ord.len() && ord[p] == j as usize;
            assert(nord[p + 1] == j);
        }
    }
    if ord.contains(n as usize) {
        let p = choose|p: int| 0 <= p < ord.len() && ord[p] == n as usize;
        assert(ord[p] < n);
    }
}

/// Eviction keeps a prefix of the entries whose summed size is within the
/// limit; it never drops the most recently used entry when that entry alone
/// fits.
pub proof fn lemma_evict_keeps_prefix<V>(s: Seq<(Seq<char>, V, u64)>, limit: int)
    requires
        limit >= 0,
    ensures
        evict_spec(s, limit).0 == s.take(evict_spec(s, limit).0.len() as int),
        evict_spec(s, limit).0.len() <= s.len(),
        total_bytes(evict_spec(s, limit).0) <= limit,
        s.len() > 0 && s[0].2 <= limit ==> evict_spec(s, limit).0.len() >= 1,
    decreases s.len(),
{
    if s.len() == 0 || total_bytes(s) <= limit {
        assert(s.take(s.len() as int) =~= s);
    } else {
        lemma_evict_keeps_prefix(s.drop_last(), limit);
        let r = evict_spec(s.drop_last(), limit).0;
        assert(s.drop_last().take(r.len() as int) =~= s.take(r.len() as int));
        if s.len() == 1 {
            assert(s.drop_last() =~= Seq::<(Seq<char>, V, u64)>::empty());
            assert(total_bytes(s) == s[0].2);
        } else {
            assert(s.drop_last()[0] == s[0]);
        }
    }
}

/// Law: an entry stored with `insert` (its size within the limit) is the
/// most recently used entry afterwards.
pub proof fn law_inserted_entry_is_first<V>(s: Seq<(Seq<char>, V, u64)>, k: Seq<char>, v: V, b: u64, limit: int)
    requires
        b <= limit,
    ensures
        evict_spec(put_front(s, k, v, b), limit).0.len() >= 1,
        evict_spec(put_front(s, k, v, b), limit).0[0] == (k, v, b),
{
    let u = put_front(s, k, v, b);
    lemma_evict_keeps_prefix(u, limit);
    assert(u[0] == (k, v, b));
    let r = evict_spec(u, limit).0;
    assert(r[0] == u.take(r.len() as int)[0]);
}

/// What eviction does, in one piece: with `m` entries kept, the kept
/// entries are the first `m` of `s`, the dropped keys are those of the other
/// entries from the least recently used on, and `m` is the largest count
/// whose summed size is within the limit.
pub proof fn law_evict_drops_least_recent_only<V>(s: Seq<(Seq<char>, V, u64)>, limit: int)
    requires
        limit >= 0,
    ensures
        ({
            let (kept, dropped) = evict_spec(s, limit);
            let m = kept.len() as int;
            &&& m <= s.len()
            &&& kept == s.take(m)
            &&& total_bytes(kept) <= limit
            &&& dropped.len() == s.len() - m
            &&& forall|j: int| 0 <= j < dropped.len() ==> #[trigger] dropped[j] == s[s.len() - 1 - j].0
            &&& m < s.len() ==> total_bytes(s.take(m + 1)) > limit
        }),
    decreases s.len(),
{
    lemma_evict_keeps_prefix(s, limit);
    if s.len() == 0 || total_bytes(s) <= limit {
        assert(s.take(s.len() as int) =~= s);
    } else {
        let t = s.drop_last();
        law_evict_drops_least_recent_only(t, limit);
        let (kept, dropped) = evict_spec(s, limit);
        let d1 = evict_spec(t, limit).1;
        let m = kept.len() as int;
        assert(dropped == seq![s.last().0] + d1);
        assert forall|j: int| 0 <= j < dropped.len() implies #[trigger] dropped[j] == s[s.len() - 1
            - j].0 by {
            if j > 0 {
                assert(dropped[j] == d1[j - 1]);
                assert(d1[j - 1] == t[t.len() - 1 - (j - 1)].0);
            }
        }
        if m < t.len() {
            assert(t.take(m + 1) =~= s.take(m + 1));
        } else {
            assert(s.take(m + 1) =~= s);
        }
    }
}

/// Every key of `without_key(s, k)` is a key of `s` other than `k`, and the
/// other way round.
pub proof fn lemma_without_key_keys<V>(s: Seq<(Seq<char>, V, u64)>, k: Seq<char>, x: Seq<char>)
    ensures
        keys_of(without_key(s, k)).contains(x) <==> (x != k && keys_of(s).contains(x)),
    decreases s.len(),
{
    if s.len() > 0 {
        let t = s.drop_last();
        lemma_without_key_keys(t, k, x);
        assert(keys_of(s) =~= keys_of(t).push(s.last().0));
        vstd::seq_lib::lemma_seq_contains_after_push(keys_of(t), s.last().0, x);
        if s.last().0 != k {
            assert(keys_of(without_key(s, k)) =~= keys_of(without_key(t, k)).push(s.last().0));
            vstd::seq_lib::lemma_seq_contains_after_push(keys_of(without_key(t, k)), s.last().0, x);
        }
    } else {
        assert(keys_of(s).len() == 0);
    }
}

/// Law: storing `(k, v, b)` (its size within the limit) never evicts `k`
/// itself, and afterwards the keys held and the keys evicted are together
/// the keys held before and `k`.
pub proof fn law_insert_keys<V>(s: Seq<(Seq<char>, V, u64)>, k: Seq<char>, v: V, b: u64, limit: int)
    requires
        b <= limit,
    ensures
        !evict_spec(put_front(s, k, v, b), limit).1.contains(k),
        keys_of(evict_spec(put_front(s, k, v, b), limit).0).contains(k),
        forall|x: Seq<char>|
            keys_of(evict_spec(put_front(s, k, v, b), limit).0).contains(x)
                || evict_spec(put_front(s, k, v, b), limit).1.contains(x) <==> (x == k
                || keys_of(s).contains(x)),
{
    let u = put_front(s, k, v, b);
    let w = without_key(s, k);
    law_evict_drops_least_recent_only(u, limit);
    law_inserted_entry_is_first(s, k, v, b, limit);
    let (kept, dropped) = evict_spec(u, limit);
    let m = kept.len() as int;
    assert(keys_of(kept)[0] == k);
    if dropped.contains(k) {
        let j = choose|j: int| 0 <= j < dropped.len() && dropped[j] == k;
        let i = u.len() - 1 - j;
        assert(i >= 1);
        assert(u[i] == w[i - 1]);
        assert(keys_of(w)[i - 1] == k);
        lemma_without_key_keys(s, k, k);
    }
    assert forall|x: Seq<char>|
        keys_of(evict_spec(put_front(s, k, v, b), limit).0).contains(x) || evict_spec(
            put_front(s, k, v, b),
            limit,
        ).1.contains(x) <==> (x == k || keys_of(s).contains(x)) by {
        lemma_without_key_keys(s, k, x);
        if keys_of(kept).contains(x) {
            let i = choose|i: int| 0 <= i < keys_of(kept).len() && keys_of(kept)[i] == x;
            if i > 0 {
                assert(u[i] == w[i - 1]);
                assert(keys_of(w)[i - 1] == x);
                assert(keys_of(w).contains(x));
            }
        }
        if dropped.contains(x) {
            let j = choose|j: int| 0 <= j < dropped.len() && dropped[j] == x;
            let i = u.len() - 1 - j;
            assert(u[i] == w[i - 1]);
            assert(keys_of(w)[i - 1] == x);
            assert(keys_of(w).contains(x));
        }
        if x != k && keys_of(s).contains(x) {
            assert(keys_of(w).contains(x));
            let i = choose|i: int| 0 <= i < keys_of(w).len() && keys_of(w)[i] == x;
            assert(u[i + 1] == w[i]);
            if i + 1 < m {
                assert(kept[i + 1] == u[i + 1]);
                assert(keys_of(kept)[i + 1] == x);
            } else {
                let j = u.len() - 1 - (i + 1);
                assert(dropped[j] == u[i + 1].0);
            }
        }
    }
}

/// Law: looking up the most recently used entry leaves the order unchanged.
pub proof fn law_promote_first<V>(s: Seq<(Seq<char>, V, u64)>)
    requires
        unique_keys(s),
        s.len() > 0,
    ensures
        promote(s, s[0].0) == s,
{
    let i = key_index(s, s[0].0);
    assert(s[0].0 == s[0].0);
    assert(i == 0);
    assert(seq![s[0]] + s.remove(0) =~= s);
}

/// One slot of the cache.
pub struct LruNode<V> {
    pub key: String,
    pub value: V,
    pub bytes: u64,
    pub prev: usize,
    pub next: usize,
}

/// A byte-bounded LRU cache of values of type `V`, keyed by path.
///
/// Its methods update several fields in turn, so `wf` is a precondition and
/// a postcondition of each; the caches built on it hold `wf` as their type
/// invariant.
pub(crate) struct LruCache<V> {
    map: StringHashMap<usize>,
    nodes: Vec<LruNode<V>>,
    head: usize,
    tail: usize,
    memory_used: u128,
    memory_limit_mb: u64,
    order: Ghost<Seq<usize>>,
}

pub open spec fn prev_of(ord: Seq<usize>, i: int) -> usize {
    if i == 0 {
        NO_NODE
    } else {
        ord[i - 1]
    }
}

pub open spec fn next_of(ord: Seq<usize>, i: int) -> usize {
    if i + 1 == ord.len() {
        NO_NODE
    } else {
        ord[i + 1]
    }
}

/// `ord` with the index `from` renamed to `to`.
pub open spec fn renamed(ord: Seq<usize>, from: int, to: usize) -> Seq<usize> {
    ord.map_values(|j: usize| if j as int == from { to } else { j })
}

/// The list starting at `head` visits exactly the indices `ord`, in order.
#[verifier::opaque]
pub open spec fn linked<V>(nodes: Seq<LruNode<V>>, head: usize, tail: usize, ord: Seq<usize>) -> bool {
    &&& (ord.len() == 0 ==> head == NO_NODE && tail == NO_NODE)
    &&& (ord.len() > 0 ==> head == ord[0] && tail == ord[ord.len() - 1])
    &&& forall|i: int|
        #![trigger ord[i]]
        0 <= i < ord.len() ==> nodes[ord[i] as int].prev == prev_of(ord, i) && nodes[ord[i]
            as int].next == next_of(ord, i)
}

/// `ord` holds distinct indices below `n`.
pub open spec fn indices_ok(ord: Seq<usize>, n: int) -> bool {
    &&& forall|i: int| #![trigger ord[i]] 0 <= i < ord.len() ==> ord[i] < n
    &&& forall|i: int, j: int| 0 <= i < ord.len() && 0 <= j < ord.len() && i != j ==> ord[i] != ord[j]
}

/// Two node vectors hold the same keys, values and sizes.
pub open spec fn same_payload<V>(a: Seq<LruNode<V>>, b: Seq<LruNode<V>>) -> bool {
    &&& a.len() == b.len()
    &&& forall|j: int|
        #![trigger a[j]]
        0 <= j < a.len() ==> a[j].key@ == b[j].key@ && a[j].value == b[j].value && a[j].bytes
            == b[j].bytes
}

pub open spec fn entry_of<V>(node: LruNode<V>) -> (Seq<char>, V, u64) {
    (node.key@, node.value, node.bytes)
}

pub open spec fn entries_of<V>(nodes: Seq<LruNode<V>>, ord: Seq<usize>) -> Seq<(Seq<char>, V, u64)> {
    ord.map_values(|j: usize| entry_of(nodes[j as int]))
}

impl<V> LruCache<V> {
    /// The entries from the most to the least recently used.
    pub closed spec fn entries(&self) -> Seq<(Seq<char>, V, u64)> {
        entries_of(self.nodes@, self.order@)
    }

    /// The limit the cache was made with, in mebibytes.
    pub closed spec fn limit_mb(&self) -> u64 {
        self.memory_limit_mb
    }

    /// The limit in bytes.
    pub open spec fn limit(&self) -> int {
        limit_of(self.limit_mb())
    }

    spec fn map_ok(&self) -> bool {
        let n = self.nodes@.len();
        &&& forall|j: int|
            #![trigger self.nodes@[j]]
            0 <= j < n ==> self.map@.contains_key(self.nodes@[j].key@) && self.map@[self.nodes@[j].key@]
                == j as usize
        &&& forall|k: Seq<char>|
            #![trigger self.map@.contains_key(k)]
            self.map@.contains_key(k) ==> self.map@[k] < n && self.nodes@[self.map@[k] as int].key@
                == k
    }

    /// Everything but the size bound.
    spec fn shape_ok(&self) -> bool {
        let n = self.nodes@.len();
        let ord = self.order@;
        &&& n < usize::MAX
        &&& ord.len() == n
        &&& indices_ok(ord, n as int)
        &&& forall|j: int| 0 <= j < n ==> #[trigger] ord.contains(j as usize)
        &&& linked(self.nodes@, self.head, self.tail, ord)
        &&& self.map_ok()
        &&& self.memory_used == total_bytes(self.entries())
    }

    /// The cache's invariant.
    pub closed spec fn wf(&self) -> bool {
        &&& self.shape_ok()
        &&& self.memory_used <= self.limit()
    }

    pub proof fn lemma_wf(&self)
        requires
            self.wf(),
        ensures
            unique_keys(self.entries()),
            total_bytes(self.entries()) <= self.limit(),
            self.entries().len() < usize::MAX,
    {
        self.lemma_unique_keys();
    }

    proof fn lemma_unique_keys(&self)
        requires
            self.shape_ok(),
        ensures
            unique_keys(self.entries()),
    {
        let e = self.entries();
        let ord = self.order@;
        assert forall|i: int, j: int|
            0 <= i < e.len() && 0 <= j < e.len() && i != j implies e[i].0 != e[j].0 by {
            assert(self.nodes@[ord[i] as int].key@ == e[i].0);
            assert(self.nodes@[ord[j] as int].key@ == e[j].0);
            assert(self.map@[self.nodes@[ord[i] as int].key@] == ord[i]);
            assert(self.map@[self.nodes@[ord[j] as int].key@] == ord[j]);
        }
    }

    /// An empty cache bounded by `memory_limit_mb` mebibytes.
    pub fn new(memory_limit_mb: u64) -> (r: Self)
        ensures
            r.wf(),
            r.entries() == Seq::<(Seq<char>, V, u64)>::empty(),
            r.limit_mb() == memory_limit_mb,
    {
        let r = LruCache {
            map: StringHashMap::new(),
            nodes: Vec::new(),
            head: NO_NODE,
            tail: NO_NODE,
            memory_used: 0,
            memory_limit_mb,
            order: Ghost(Seq::empty()),
        };
        assert(r.entries() =~= Seq::<(Seq<char>, V, u64)>::empty());
        assert(linked(r.nodes@, r.head, r.tail, r.order@)) by {
            reveal(linked);
        }
        r
    }

    /// The limit in bytes (`memory_limit_mb` MiB, saturating).
    pub fn limit_bytes(&self) -> (r: u64)
        ensures
            r == self.limit(),
    {
        if self.memory_limit_mb > u64::MAX / MIB {
            assert(self.memory_limit_mb * MIB > u64::MAX) by (nonlinear_arith)
                requires
                    self.memory_limit_mb > u64::MAX / MIB,
            ;
            u64::MAX
        } else {
            assert(self.memory_limit_mb * MIB <= u64::MAX) by (nonlinear_arith)
                requires
                    self.memory_limit_mb <= u64::MAX / MIB,
            ;
            self.memory_limit_mb * MIB
        }
    }

    /// The limit in mebibytes.
    pub fn memory_limit_mb(&self) -> (r: u64)
        ensures
            r == self.limit_mb(),
    {
        self.memory_limit_mb
    }

    /// The summed size of the entries.
    pub fn memory_used(&self) -> (r: u64)
        requires
            self.wf(),
        ensures
            r == total_bytes(self.entries()),
    {
        proof {
            lemma_total_bytes_nonneg(self.entries());
        }
        self.memory_used as u64
    }

    /// The number of entries.
    pub fn len(&self) -> (r: usize)
        requires
            self.wf(),
        ensures
            r == self.entries().len(),
    {
        self.nodes.len()
    }

    /// `true` when an entry has key `key`; the order of use is unchanged.
    pub fn contains(&self, key: &str) -> (r: bool)
        requires
            self.wf(),
        ensures
            r == keys_of(self.entries()).contains(key@),
    {
        let r = self.map.contains_key(key);
        proof {
            let e = self.entries();
            let ord = self.order@;
            if r {
                let j = self.map@[key@];
                assert(ord.contains(j));
                let i = choose|i: int| 0 <= i < ord.len() && ord[i] == j;
                assert(keys_of(e)[i] == key@);
            } else {
                if keys_of(e).contains(key@) {
                    let i = choose|i: int| 0 <= i < e.len() && keys_of(e)[i] == key@;
                    assert(self.nodes@[ord[i] as int].key@ == key@);
                }
            }
        }
        r
    }

    /// Puts `index` (not yet on the list) at the head of the list.
    fn push_front(&mut self, index: usize)
        requires
            index < old(self).nodes@.len() < usize::MAX,
            !old(self).order@.contains(index),
            indices_ok(old(self).order@, old(self).nodes@.len() as int),
            linked(old(self).nodes@, old(self).head, old(self).tail, old(self).order@),
        ensures
            same_payload(final(self).nodes@, old(self).nodes@),
            final(self).order@ == seq![index] + old(self).order@,
            linked(final(self).nodes@, final(self).head, final(self).tail, final(self).order@),
            final(self).map@ == old(self).map@,
            final(self).memory_used == old(self).memory_used,
            final(self).memory_limit_mb == old(self).memory_limit_mb,
    {
        let ghost ord = self.order@;
        let ghost nodes0 = self.nodes@;
        reveal(linked);
        let old_head = self.head;
        self.nodes[index].prev = NO_NODE;
        self.nodes[index].next = old_head;
        if old_head != NO_NODE {
            self.nodes[old_head].prev = index;
        } else {
            self.tail = index;
        }
        self.head = index;
        self.order = Ghost(seq![index] + ord);
        proof {
            let nord = self.order@;
            assert forall|i: int| #![trigger nord[i]] 0 <= i < nord.len() implies self.nodes@[nord[i] as int].prev
                == prev_of(nord, i) && self.nodes@[nord[i] as int].next == next_of(nord, i) by {
                if i > 0 {
                    assert(nord[i] == ord[i - 1]);
                    assert(ord[i - 1] != index);
                    if i > 1 {
                        assert(ord[i - 1] != ord[0]);
                    }
                }
            }
            assert forall|j: int| #![trigger self.nodes@[j]] 0 <= j < self.nodes@.len() implies self.nodes@[j].key@
                == nodes0[j].key@ && self.nodes@[j].value == nodes0[j].value && self.nodes@[j].bytes
                == nodes0[j].bytes by {}
        }
    }

    /// Takes the node at position `k` of the list (index `index`) off the list.
    fn unlink(&mut self, index: usize, Ghost(k): Ghost<int>)
        requires
            old(self).nodes@.len() < usize::MAX,
            indices_ok(old(self).order@, old(self).nodes@.len() as int),
            0 <= k < old(self).order@.len(),
            old(self).order@[k] == index,
            linked(old(self).nodes@, old(self).head, old(self).tail, old(self).order@),
        ensures
            same_payload(final(self).nodes@, old(self).nodes@),
            final(self).order@ == old(self).order@.remove(k),
            linked(final(self).nodes@, final(self).head, final(self).tail, final(self).order@),
            final(self).map@ == old(self).map@,
            final(self).memory_used == old(self).memory_used,
            final(self).memory_limit_mb == old(self).memory_limit_mb,
    {
        let ghost ord = self.order@;
        let ghost nodes0 = self.nodes@;
        let ghost head0 = self.head;
        let ghost tail0 = self.tail;
        proof {
            reveal(linked);
        }
        let prev = self.nodes[index].prev;
        let next = self.nodes[index].next;
        if prev != NO_NODE {
            self.nodes[prev].next = next;
        } else {
            self.head = next;
        }
        if next != NO_NODE {
            self.nodes[next].prev = prev;
        } else {
            self.tail = prev;
        }
        self.nodes[index].prev = NO_NODE;
        self.nodes[index].next = NO_NODE;
        self.order = Ghost(ord.remove(k));
        proof {
            assert(k > 0 ==> prev == ord[k - 1]);
            assert(k + 1 < ord.len() ==> next == ord[k + 1]);
            assert(k > 0 ==> ord[k - 1] != index && (k + 1 < ord.len() ==> ord[k - 1] != ord[k + 1]));
            assert(k + 1 < ord.len() ==> ord[k + 1] != index);
            lemma_unlink_linked(nodes0, self.nodes@, ord, k, head0, tail0, self.head, self.tail);
            assert forall|j: int| #![trigger self.nodes@[j]] 0 <= j < self.nodes@.len() implies self.nodes@[j].key@
                == nodes0[j].key@ && self.nodes@[j].value == nodes0[j].value && self.nodes@[j].bytes
                == nodes0[j].bytes by {}
        }
    }

    /// Removes the node at `index`, which is off the list, by swapping in the
    /// last node; the moved node keeps its place on the list.
    #[verifier::rlimit(40)]
    fn remove_node(&mut self, index: usize) -> (node: LruNode<V>)
        requires
            index < old(self).nodes@.len() < usize::MAX,
            !old(self).order@.contains(index),
            old(self).order@.len() + 1 == old(self).nodes@.len(),
            forall|j: int|
                0 <= j < old(self).nodes@.len() && j != index ==> #[trigger] old(self).order@.contains(
                    j as usize,
                ),
            indices_ok(old(self).order@, old(self).nodes@.len() as int),
            linked(old(self).nodes@, old(self).head, old(self).tail, old(self).order@),
        ensures
            node == old(self).nodes@[index as int],
            final(self).nodes@.len() + 1 == old(self).nodes@.len(),
            forall|j: int|
                #![trigger final(self).nodes@[j]]
                0 <= j < final(self).nodes@.len() ==> entry_of(final(self).nodes@[j]) == entry_of(
                    old(self).nodes@[if j == index {
                        final(self).nodes@.len() as int
                    } else {
                        j
                    }],
                ),
            final(self).order@ == renamed(old(self).order@, final(self).nodes@.len() as int, index),
            linked(final(self).nodes@, final(self).head, final(self).tail, final(self).order@),
            index as int == final(self).nodes@.len() ==> final(self).map@ == old(self).map@,
            index as int != final(self).nodes@.len() ==> final(self).map@ == old(self).map@.insert(
                old(self).nodes@.last().key@,
                index,
            ),
            final(self).memory_used == old(self).memory_used,
            final(self).memory_limit_mb == old(self).memory_limit_mb,
    {
        let ghost ord = self.order@;
        let ghost nodes0 = self.nodes@;
        let ghost head0 = self.head;
        let ghost tail0 = self.tail;
        let last = self.nodes.len() - 1;
        let node = self.nodes.swap_remove(index);
        let ghost nodes_sw = self.nodes@;
        if index != last {
            assert(ord.contains(last));
            let ghost p = choose|p: int| 0 <= p < ord.len() && ord[p] == last;
            assert(ord[p] == ord[p]);
            let moved_key = self.nodes[index].key.clone();
            self.map.insert(moved_key, index);
            let mprev = self.nodes[index].prev;
            let mnext = self.nodes[index].next;
            proof {
                assert(mprev == prev_of(ord, p) && mnext == next_of(ord, p)) by {
                    reveal(linked);
                    assert(ord[p] == ord[p]);
                }
                if p > 0 {
                    assert(ord[p - 1] == ord[p - 1]);
                    assert(ord[p - 1] != last);
                    assert(ord[p - 1] != index);
                }
                if p + 1 < ord.len() {
                    assert(ord[p + 1] == ord[p + 1]);
                    assert(ord[p + 1] != last);
                    assert(ord[p + 1] != index);
                }
                if p > 0 && p + 1 < ord.len() {
                    assert(ord[p - 1] != ord[p + 1]);
                }
            }
            if mprev != NO_NODE {
                self.nodes[mprev].next = index;
            } else {
                self.head = index;
            }
            if mnext != NO_NODE {
                self.nodes[mnext].prev = index;
            } else {
                self.tail = index;
            }
            proof {
                lemma_rename_linked(
                    nodes0,
                    self.nodes@,
                    ord,
                    index,
                    p,
                    head0,
                    tail0,
                    self.head,
                    self.tail,
                );
            }
        } else {
            proof {
                assert forall|i: int| #![trigger ord[i]] 0 <= i < ord.len() implies ord[i] < last by {
                    assert(ord[i] != index);
                }
            }
        }
        self.order = Ghost(renamed(ord, last as int, index));
        proof {
            if index == last {
                let nord = self.order@;
                assert(nord =~= ord);
                reveal(linked);
                assert forall|i: int| #![trigger nord[i]] 0 <= i < nord.len() implies self.nodes@[nord[i] as int].prev
                    == prev_of(nord, i) && self.nodes@[nord[i] as int].next == next_of(nord, i) by {
                    assert(ord[i] == ord[i]);
                }
            }
            assert forall|j: int| #![trigger self.nodes@[j]] 0 <= j < self.nodes@.len() implies entry_of(
                self.nodes@[j],
            ) == entry_of(nodes0[if j == index { last as int } else { j }]) by {
                assert(entry_of(self.nodes@[j]) == entry_of(nodes_sw[j]));
            }
        }
        node
    }

    /// Moves the node at position `k` of the list (index `index`) to the head.
    fn move_to_front(&mut self, index: usize, Ghost(k): Ghost<int>)
        requires
            old(self).nodes@.len() < usize::MAX,
            indices_ok(old(self).order@, old(self).nodes@.len() as int),
            0 <= k < old(self).order@.len(),
            old(self).order@[k] == index,
            linked(old(self).nodes@, old(self).head, old(self).tail, old(self).order@),
        ensures
            same_payload(final(self).nodes@, old(self).nodes@),
            final(self).order@ == seq![index] + old(self).order@.remove(k),
            linked(final(self).nodes@, final(self).head, final(self).tail, final(self).order@),
            final(self).map@ == old(self).map@,
            final(self).memory_used == old(self).memory_used,
            final(self).memory_limit_mb == old(self).memory_limit_mb,
    {
        if self.head == index {
            proof {
                reveal(linked);
                assert(k == 0) by {
                    if k != 0 {
                        assert(self.order@[0] != self.order@[k]);
                    }
                }
                assert(seq![index] + self.order@.remove(0) =~= self.order@);
                assert(same_payload(self.nodes@, self.nodes@));
            }
            return ;
        }
        let ghost ord = self.order@;
        self.unlink(index, Ghost(k));
        proof {
            assert(!self.order@.contains(index)) by {
                if self.order@.contains(index) {
                    let i = choose|i: int| 0 <= i < self.order@.len() && self.order@[i] == index;
                    if i < k {
                        assert(ord[i] == index);
                    } else {
                        assert(ord[i + 1] == index);
                    }
                }
            }
            assert(indices_ok(self.order@, self.nodes@.len() as int)) by {
                let nord = self.order@;
                assert forall|i: int, j: int|
                    0 <= i < nord.len() && 0 <= j < nord.len() && i != j implies nord[i] != nord[j] by {
                    let oi = if i < k { i } else { i + 1 };
                    let oj = if j < k { j } else { j + 1 };
                    assert(nord[i] == ord[oi]);
                    assert(nord[j] == ord[oj]);
                }
                assert forall|i: int| #![trigger nord[i]] 0 <= i < nord.len() implies nord[i] < self.nodes@.len() by {
                    let oi = if i < k { i } else { i + 1 };
                    assert(nord[i] == ord[oi]);
                }
            }
        }
        let ghost nodes1 = self.nodes@;
        self.push_front(index);
    }

    /// Drops the least recently used entry and gives back its key.
    #[verifier::rlimit(40)]
    fn evict_tail(&mut self) -> (key: String)
        requires
            old(self).shape_ok(),
            old(self).entries().len() > 0,
        ensures
            final(self).shape_ok(),
            final(self).entries() == old(self).entries().drop_last(),
            key@ == old(self).entries().last().0,
            final(self).memory_limit_mb == old(self).memory_limit_mb,
    {
        let ghost ord = self.order@;
        let ghost nodes0 = self.nodes@;
        let ghost map0 = self.map@;
        let ghost e0 = self.entries();
        let ghost k = ord.len() - 1;
        proof {
            self.lemma_unique_keys();
            reveal(linked);
        }
        let tail = self.tail;
        assert(tail == ord[k]);
        let key = self.nodes[tail].key.clone();
        self.unlink(tail, Ghost(k));
        let ghost ord1 = self.order@;
        proof {
            assert(ord1 =~= ord.drop_last());
            assert forall|i: int| 0 <= i < ord1.len() implies ord1[i] != tail by {
                assert(ord[i] != ord[k]);
            }
            assert forall|j: int| 0 <= j < nodes0.len() && j != tail implies #[trigger] ord1.contains(
                j as usize,
            ) by {
                assert(ord.contains(j as usize));
                let i = choose|i: int| 0 <= i < ord.len() && ord[i] == j as usize;
                assert(i != k);
                assert(ord1[i] == j);
            }
        }
        let ghost nodes1 = self.nodes@;
        let node = self.remove_node(tail);
        proof {
            assert(nodes1[tail as int].bytes == nodes0[tail as int].bytes);
            assert(e0.last() == entry_of(nodes0[ord[k] as int]));
            assert(node.bytes == e0.last().2);
            lemma_total_bytes_nonneg(e0.drop_last());
        }
        self.memory_used = self.memory_used - node.bytes as u128;
        self.map.remove(key.as_str());
        proof {
            let n1 = self.nodes@.len() as int;
            let nord = self.order@;
            let last = n1;
            assert(nord == renamed(ord1, last, tail));
            // indices
            assert forall|i: int| #![trigger nord[i]] 0 <= i < nord.len() implies nord[i] < n1 by {
                assert(ord1[i] != tail);
                assert(ord1[i] < n1 + 1);
            }
            assert forall|i: int, j: int|
                0 <= i < nord.len() && 0 <= j < nord.len() && i != j implies nord[i] != nord[j] by {
                assert(ord1[i] != tail);
                assert(ord1[j] != tail);
                assert(ord1[i] != ord1[j]);
            }
            assert forall|j: int| 0 <= j < n1 implies #[trigger] nord.contains(j as usize) by {
                if j == tail {
                    assert(ord1.contains(last as usize));
                    let i = choose|i: int| 0 <= i < ord1.len() && ord1[i] == last as usize;
                    assert(nord[i] == tail);
                } else {
                    assert(ord1.contains(j as usize));
                    let i = choose|i: int| 0 <= i < ord1.len() && ord1[i] == j as usize;
                    assert(nord[i] == j);
                }
            }
            // entries
            let e1 = self.entries();
            assert(e1 =~= e0.drop_last()) by {
                assert forall|i: int| 0 <= i < e1.len() implies e1[i] == e0.drop_last()[i] by {
                    assert(ord1[i] == ord[i]);
                    assert(ord1[i] != tail);
                    let j = nord[i] as int;
                    assert(entry_of(self.nodes@[j]) == entry_of(
                        nodes0[if j == tail as int { last } else { j }],
                    ));
                }
            }
            assert(node.bytes == e0.last().2);
            // map
            assert forall|j: int|
                #![trigger self.nodes@[j]]
                0 <= j < n1 implies self.map@.contains_key(self.nodes@[j].key@) && self.map@[self.nodes@[j].key@]
                == j as usize by {
                let src = if j == tail as int { last } else { j };
                assert(entry_of(self.nodes@[j]) == entry_of(nodes0[src]));
                assert(map0[nodes0[src].key@] == src as usize);
                assert(src != tail as int);
                assert(nodes0[src].key@ != key@);
            }
            assert forall|kk: Seq<char>|
                #![trigger self.map@.contains_key(kk)]
                self.map@.contains_key(kk) implies self.map@[kk] < n1 && self.nodes@[self.map@[kk] as int].key@
                == kk by {
                if tail as int != last && kk == nodes0[last].key@ {
                    assert(entry_of(self.nodes@[tail as int]) == entry_of(nodes0[last]));
                } else {
                    let j = map0[kk] as int;
                    assert(map0.contains_key(kk));
                    assert(nodes0[j].key@ == kk);
                    assert(j != tail as int);
                    assert(j != last);
                    assert(entry_of(self.nodes@[j]) == entry_of(nodes0[j]));
                }
            }
        }
        key
    }

    /// Drops least recently used entries until the summed size is within
    /// the limit; gives back the dropped keys in the order they were dropped.
    fn evict_to_limit(&mut self) -> (evicted: Vec<String>)
        requires
            old(self).shape_ok(),
        ensures
            final(self).wf(),
            final(self).entries() == evict_spec(old(self).entries(), old(self).limit()).0,
            string_views(evicted@) == evict_spec(old(self).entries(), old(self).limit()).1,
            final(self).limit_mb() == old(self).limit_mb(),
    {
        let mut evicted: Vec<String> = Vec::new();
        let ghost s0 = self.entries();
        let ghost lim = self.limit();
        let limit = self.limit_bytes();
        while self.memory_used > limit as u128
            invariant
                self.shape_ok(),
                limit == lim,
                self.limit() == lim,
                self.memory_limit_mb == old(self).memory_limit_mb,
                evict_spec(self.entries(), lim).0 == evict_spec(s0, lim).0,
                evict_spec(s0, lim).1 == string_views(evicted@) + evict_spec(self.entries(), lim).1,
            decreases self.nodes@.len(),
        {
            let ghost e = self.entries();
            let ghost ev = evicted@;
            proof {
                if e.len() == 0 {
                    assert(total_bytes(e) == 0);
                }
            }
            let key = self.evict_tail();
            evicted.push(key);
            proof {
                assert(string_views(evicted@) =~= string_views(ev).push(e.last().0));
                assert(evict_spec(e, lim).1 == seq![e.last().0] + evict_spec(e.drop_last(), lim).1);
                assert(string_views(ev) + evict_spec(e, lim).1 =~= string_views(evicted@) + evict_spec(
                    e.drop_last(),
                    lim,
                ).1);
            }
        }
        proof {
            assert(evict_spec(self.entries(), lim).1 =~= Seq::<Seq<char>>::empty());
            assert(string_views(evicted@) + Seq::<Seq<char>>::empty() =~= string_views(evicted@));
        }
        evicted
    }

    /// Stores `(key, value, bytes)` as the most recently used entry,
    /// replacing an entry with the same key, then drops least recently used
    /// entries until the summed size is within the limit. Gives back the
    /// dropped keys, the least recently used first.
    pub fn insert(&mut self, key: String, value: V, bytes: u64) -> (evicted: Vec<String>)
        requires
            old(self).wf(),
            bytes <= old(self).limit(),
            old(self).entries().len() + 1 < usize::MAX,
        ensures
            final(self).wf(),
            final(self).limit_mb() == old(self).limit_mb(),
            final(self).entries() == evict_spec(
                put_front(old(self).entries(), key@, value, bytes),
                old(self).limit(),
            ).0,
            string_views(evicted@) == evict_spec(
                put_front(old(self).entries(), key@, value, bytes),
                old(self).limit(),
            ).1,
    {
        let ghost e0 = self.entries();
        let ghost ord = self.order@;
        let ghost nodes0 = self.nodes@;
        let ghost new_e = (key@, value, bytes);
        proof {
            self.lemma_unique_keys();
        }
        let found = match self.map.get(key.as_str()) {
            Some(i) => Some(*i),
            None => None,
        };
        match found {
            Some(index) => {
                proof {
                    assert(ord.contains(index));
                }
                let ghost k = choose|k: int| 0 <= k < ord.len() && ord[k] == index;
                proof {
                    assert(e0[k] == entry_of(nodes0[index as int]));
                    assert(e0[k].0 == key@);
                    lemma_total_bytes_remove(e0, k);
                    lemma_total_bytes_nonneg(e0.remove(k));
                    lemma_without_key_at(e0, key@, k);
                }
                let old_bytes = self.nodes[index].bytes;
                self.memory_used = self.memory_used - old_bytes as u128 + bytes as u128;
                self.nodes[index].value = value;
                self.nodes[index].bytes = bytes;
                let ghost nodes1 = self.nodes@;
                assert(linked(nodes1, self.head, self.tail, ord)) by {
                    reveal(linked);
                    assert forall|i: int| #![trigger ord[i]] 0 <= i < ord.len() implies nodes1[ord[i] as int].prev
                        == prev_of(ord, i) && nodes1[ord[i] as int].next == next_of(ord, i) by {
                        assert(ord[i] == ord[i]);
                    }
                }
                self.move_to_front(index, Ghost(k));
                proof {
                    lemma_perm_move_front(ord, ord.len() as int, k);
                    let e1 = self.entries();
                    let nord = self.order@;
                    assert(e1 =~= seq![new_e] + e0.remove(k)) by {
                        assert forall|i: int| 0 <= i < e1.len() implies e1[i] == (seq![new_e] + e0.remove(
                            k,
                        ))[i] by {
                            if i == 0 {
                                assert(nord[0] == index);
                            } else if i - 1 < k {
                                assert(nord[i] == ord[i - 1]);
                                assert(ord[i - 1] != index);
                            } else {
                                assert(nord[i] == ord[i]);
                                assert(ord[i] != index);
                            }
                        }
                    }
                    lemma_total_bytes_prepend(new_e, e0.remove(k));
                    assert forall|j: int|
                        #![trigger self.nodes@[j]]
                        0 <= j < self.nodes@.len() implies self.map@.contains_key(self.nodes@[j].key@)
                        && self.map@[self.nodes@[j].key@] == j as usize by {
                        assert(self.nodes@[j].key@ == nodes0[j].key@);
                    }
                    assert forall|kk: Seq<char>|
                        #![trigger self.map@.contains_key(kk)]
                        self.map@.contains_key(kk) implies self.map@[kk] < self.nodes@.len()
                        && self.nodes@[self.map@[kk] as int].key@ == kk by {
                        assert(self.nodes@[self.map@[kk] as int].key@ == nodes0[self.map@[kk] as int].key@);
                    }
                }
                self.evict_to_limit()
            },
            None => {
                let index = self.nodes.len();
                proof {
                    assert forall|i: int| 0 <= i < e0.len() implies e0[i].0 != key@ by {
                        assert(nodes0[ord[i] as int].key@ == e0[i].0);
                        assert(self.map@.contains_key(nodes0[ord[i] as int].key@));
                    }
                    lemma_without_key_absent(e0, key@);
                    lemma_perm_push_front(ord, ord.len() as int);
                    lemma_total_bytes_nonneg(e0);
                }
                let ghost kv = key@;
                self.nodes.push(LruNode { key: key.clone(), value, bytes, prev: NO_NODE, next: NO_NODE });
                self.map.insert(key, index);
                self.memory_used = self.memory_used + bytes as u128;
                let ghost nodes1 = self.nodes@;
                assert(linked(nodes1, self.head, self.tail, ord)) by {
                    reveal(linked);
                    assert forall|i: int| #![trigger ord[i]] 0 <= i < ord.len() implies nodes1[ord[i] as int].prev
                        == prev_of(ord, i) && nodes1[ord[i] as int].next == next_of(ord, i) by {
                        assert(ord[i] == ord[i]);
                        assert(ord[i] < index);
                    }
                }
                assert(indices_ok(ord, nodes1.len() as int)) by {
                    assert forall|i: int| #![trigger ord[i]] 0 <= i < ord.len() implies ord[i] < nodes1.len() by {
                        assert(ord[i] < index);
                    }
                }
                self.push_front(index);
                proof {
                    let e1 = self.entries();
                    let nord = self.order@;
                    assert(e1 =~= seq![new_e] + e0) by {
                        assert forall|i: int| 0 <= i < e1.len() implies e1[i] == (seq![new_e] + e0)[i] by {
                            if i > 0 {
                                assert(nord[i] == ord[i - 1]);
                                assert(ord[i - 1] < index);
                            }
                        }
                    }
                    lemma_total_bytes_prepend(new_e, e0);
                    assert forall|j: int|
                        #![trigger self.nodes@[j]]
                        0 <= j < self.nodes@.len() implies self.map@.contains_key(self.nodes@[j].key@)
                        && self.map@[self.nodes@[j].key@] == j as usize by {
                        if j < index {
                            assert(self.nodes@[j].key@ == nodes0[j].key@);
                            assert(nodes0[j].key@ != kv);
                        }
                    }
                    assert forall|kk: Seq<char>|
                        #![trigger self.map@.contains_key(kk)]
                        self.map@.contains_key(kk) implies self.map@[kk] < self.nodes@.len()
                        && self.nodes@[self.map@[kk] as int].key@ == kk by {
                        if kk != kv {
                            assert(self.nodes@[self.map@[kk] as int].key@ == nodes0[self.map@[kk] as int].key@);
                        }
                    }
                }
                self.evict_to_limit()
            },
        }
    }

    /// Marks the entry with key `key`, if any, as the most recently used;
    /// gives back its slot.
    fn touch(&mut self, key: &str) -> (r: Option<usize>)
        requires
            old(self).wf(),
        ensures
            final(self).wf(),
            final(self).limit_mb() == old(self).limit_mb(),
            r is Some == keys_of(old(self).entries()).contains(key@),
            r is Some ==> final(self).entries() == promote(old(self).entries(), key@) && r->0
                < final(self).nodes@.len() && final(self).order@[0] == r->0,
            r is None ==> final(self).entries() == old(self).entries(),
    {
        let ghost e0 = self.entries();
        let ghost ord = self.order@;
        let ghost nodes0 = self.nodes@;
        proof {
            self.lemma_unique_keys();
        }
        let found = match self.map.get(key) {
            Some(i) => Some(*i),
            None => None,
        };
        match found {
            Some(index) => {
                proof {
                    assert(ord.contains(index));
                }
                let ghost k = choose|k: int| 0 <= k < ord.len() && ord[k] == index;
                proof {
                    assert(e0[k] == entry_of(nodes0[index as int]));
                    assert(e0[k].0 == key@);
                    assert(keys_of(e0)[k] == key@);
                    let i = key_index(e0, key@);
                    assert(i == k);
                }
                self.move_to_front(index, Ghost(k));
                proof {
                    lemma_perm_move_front(ord, ord.len() as int, k);
                    let e1 = self.entries();
                    let nord = self.order@;
                    assert(e1 =~= seq![e0[k]] + e0.remove(k)) by {
                        assert forall|i: int| 0 <= i < e1.len() implies e1[i] == (seq![e0[k]] + e0.remove(
                            k,
                        ))[i] by {
                            if i == 0 {
                                assert(nord[0] == index);
                            } else if i - 1 < k {
                                assert(nord[i] == ord[i - 1]);
                            } else {
                                assert(nord[i] == ord[i]);
                            }
                        }
                    }
                    lemma_total_bytes_remove(e0, k);
                    lemma_total_bytes_prepend(e0[k], e0.remove(k));
                    assert forall|j: int|
                        #![trigger self.nodes@[j]]
                        0 <= j < self.nodes@.len() implies self.map@.contains_key(self.nodes@[j].key@)
                        && self.map@[self.nodes@[j].key@] == j as usize by {
                        assert(self.nodes@[j].key@ == nodes0[j].key@);
                    }
                    assert forall|kk: Seq<char>|
                        #![trigger self.map@.contains_key(kk)]
                        self.map@.contains_key(kk) implies self.map@[kk] < self.nodes@.len()
                        && self.nodes@[self.map@[kk] as int].key@ == kk by {
                        assert(self.nodes@[self.map@[kk] as int].key@ == nodes0[self.map@[kk] as int].key@);
                    }
                }
                Some(index)
            },
            None => {
                proof {
                    if keys_of(e0).contains(key@) {
                        let i = choose|i: int| 0 <= i < e0.len() && keys_of(e0)[i] == key@;
                        assert(nodes0[ord[i] as int].key@ == key@);
                    }
                }
                None
            },
        }
    }

    /// Marks the entry with key `key`, if any, as the most recently used:
    /// `true` when there is one.
    pub fn promote_key(&mut self, key: &str) -> (r: bool)
        requires
            old(self).wf(),
        ensures
            final(self).wf(),
            final(self).limit_mb() == old(self).limit_mb(),
            r == keys_of(old(self).entries()).contains(key@),
            r ==> final(self).entries() == promote(old(self).entries(), key@),
            !r ==> final(self).entries() == old(self).entries(),
    {
        self.touch(key).is_some()
    }

    /// The value of the most recently used entry, if any.
    pub fn front_value(&self) -> (r: Option<&V>)
        requires
            self.wf(),
        ensures
            r is Some == (self.entries().len() > 0),
            r is Some ==> *r->0 == self.entries()[0].1,
    {
        if self.head == NO_NODE {
            proof {
                reveal(linked);
                if self.order@.len() > 0 {
                    assert(self.order@[0] < self.nodes@.len());
                }
            }
            None
        } else {
            proof {
                reveal(linked);
                assert(self.order@.len() > 0);
                assert(self.entries()[0] == entry_of(self.nodes@[self.order@[0] as int]));
            }
            Some(&self.nodes[self.head].value)
        }
    }

    /// The value of the entry with key `key`, which becomes the most
    /// recently used entry.
    pub fn get(&mut self, key: &str) -> (r: Option<&V>)
        requires
            old(self).wf(),
        ensures
            final(self).wf(),
            final(self).limit_mb() == old(self).limit_mb(),
            r is Some == keys_of(old(self).entries()).contains(key@),
            r is Some ==> final(self).entries() == promote(old(self).entries(), key@) && *r->0
                == final(self).entries()[0].1,
            r is None ==> final(self).entries() == old(self).entries(),
    {
        match self.touch(key) {
            Some(index) => Some(&self.nodes[index].value),
            None => None,
        }
    }

    /// Removes every entry.
    pub fn clear(&mut self)
        ensures
            final(self).wf(),
            final(self).entries() == Seq::<(Seq<char>, V, u64)>::empty(),
            final(self).limit_mb() == old(self).limit_mb(),
    {
        self.map.clear();
        self.nodes.clear();
        self.head = NO_NODE;
        self.tail = NO_NODE;
        self.memory_used = 0;
        self.order = Ghost(Seq::empty());
        assert(self.entries() =~= Seq::<(Seq<char>, V, u64)>::empty());
        assert(linked(self.nodes@, self.head, self.tail, self.order@)) by {
            reveal(linked);
        }
    }
}

/// Law: a limit of `mb` mebibytes is `mb * 1 048 576` bytes, capped at
/// `u64::MAX`.
pub proof fn law_limit_is_mebibytes(mb: u64)
    ensures
        mb * 1048576 <= u64::MAX ==> limit_of(mb) == mb * 1048576,
        mb * 1048576 > u64::MAX ==> limit_of(mb) == u64::MAX,
{
}

} // verus!
