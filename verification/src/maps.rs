//! Maps keyed by device index.

use std::collections::HashMap;

use vstd::prelude::*;

use vstd::hash_map::StringHashMap;

verus! {

broadcast use vstd::std_specs::hash::group_hash_axioms;

/// The keys of a map, each once, in no particular order.
pub fn key_list<V>(m: &HashMap<usize, V>) -> (keys: Vec<usize>)
    ensures
        keys@.no_duplicates(),
        keys@.to_set() == m@.dom(),
{
    let mut keys: Vec<usize> = Vec::new();
    for k in it: m.keys()
        invariant
            keys@ == it.seq().unref().take(it.index() as int),
            it.seq().unref().take(it.seq().len() as int) == it.seq().unref(),
            it.seq().unref().to_set() == m@.dom(),
            it.seq().no_duplicates(),
    {
        keys.push(*k);
        assert(it.seq().unref().take(it.index() as int + 1) =~= it.seq().unref().take(
            it.index() as int,
        ).push(*k));
    }
    keys
}

/// Moves every entry of `src` into `dst`, over what `dst` held under the same
/// key.
pub fn move_all<V>(dst: &mut HashMap<usize, V>, src: HashMap<usize, V>)
    ensures
        final(dst)@ == old(dst)@.union_prefer_right(src@),
{
    let mut src = src;
    let keys = key_list(&src);
    let ghost all = src@;
    let ghost start = dst@;
    let ghost mut done: Set<usize> = Set::empty();
    assert(dst@ =~= start.union_prefer_right(all.restrict(done)));
    assert(src@ =~= all.remove_keys(done));
    for i in 0..keys.len()
        invariant
            keys@.no_duplicates(),
            keys@.to_set() == all.dom(),
            forall|x: usize| done.contains(x) <==> keys@.take(i as int).contains(x),
            src@ == all.remove_keys(done),
            dst@ == start.union_prefer_right(all.restrict(done)),
    {
        let k: usize = keys[i];
        assert(keys@.to_set().contains(k));
        assert(all.dom().contains(k));
        assert(!done.contains(k));
        if let Some(v) = src.remove(&k) {
            dst.insert(k, v);
        }
        let ghost more = done.insert(k);
        assert(src@ =~= all.remove_keys(more));
        assert(dst@ =~= start.union_prefer_right(all.restrict(more)));
        assert forall|x: usize| more.contains(x) <==> keys@.take(i as int + 1).contains(x) by {
            let a = keys@.take(i as int);
            let b = keys@.take(i as int + 1);
            assert(b[i as int] == k);
            if b.contains(x) && x != k {
                let j = choose|j: int| 0 <= j < b.len() && b[j] == x;
                assert(a[j] == x);
            }
            if a.contains(x) {
                let j = choose|j: int| 0 <= j < a.len() && a[j] == x;
                assert(b[j] == x);
            }
        }
        proof {
            done = more;
        }
    }
    assert(keys@.take(keys@.len() as int) =~= keys@);
    assert forall|k: usize| done.contains(k) <==> all.contains_key(k) by {
        assert(keys@.to_set().contains(k) <==> all.dom().contains(k));
    }
    assert(dst@ =~= start.union_prefer_right(all));
}

/// Whether `after` is `before` with the entries of `more` over it, but that a
/// new key came in only while there were fewer than `cap`.
pub open spec fn moved_capped<V>(
    before: Map<usize, V>,
    more: Map<usize, V>,
    cap: nat,
    after: Map<usize, V>,
) -> bool {
    &&& after.dom().finite()
    &&& before.dom().subset_of(after.dom())
    &&& forall|k: usize| #[trigger]
        after.contains_key(k) ==> (before.contains_key(k) || more.contains_key(k)) && after[k]
            == if more.contains_key(k) { more[k] } else { before[k] }
    &&& after.len() <= if before.len() < cap { cap } else { before.len() }
    &&& more.dom().subset_of(after.dom()) || after.len() >= cap
}

/// Moves the entries of `src` into `dst`, over what `dst` held under the same
/// key. A new key comes in only while there are fewer than `cap`; which of the
/// new keys come in, where not all do, is left open.
pub fn move_capped<V>(dst: &mut HashMap<usize, V>, src: HashMap<usize, V>, cap: usize)
    ensures
        moved_capped(old(dst)@, src@, cap as nat, final(dst)@),
{
    let mut src = src;
    let keys = key_list(&src);
    let ghost all = src@;
    let ghost start = dst@;
    assert(start.dom().finite());
    for i in 0..keys.len()
        invariant
            keys@.no_duplicates(),
            keys@.to_set() == all.dom(),
            start.dom().finite(),
            dst@.dom().finite(),
            forall|k: usize| #[trigger]
                src@.contains_key(k) <==> all.contains_key(k) && exists|j: int|
                    i <= j < keys@.len() && keys@[j] == k,
            forall|k: usize| #[trigger] src@.contains_key(k) ==> src@[k] == all[k],
            start.dom().subset_of(dst@.dom()),
            forall|k: usize| #[trigger]
                dst@.contains_key(k) ==> (start.contains_key(k) || all.contains_key(k)) && dst@[k]
                    == if all.contains_key(k) && !src@.contains_key(k) {
                    all[k]
                } else {
                    start[k]
                },
            forall|k: usize| #[trigger]
                dst@.contains_key(k) && src@.contains_key(k) ==> start.contains_key(k),
            dst@.len() <= if start.len() < cap { cap as nat } else { start.len() },
            (forall|j: int| 0 <= j < i ==> dst@.contains_key(#[trigger] keys@[j])) || dst@.len()
                >= cap,
    {
        let k: usize = keys[i];
        assert(keys@.to_set().contains(k));
        assert(all.dom().contains(k));
        assert(src@.contains_key(k));
        let ghost before = dst@;
        let ghost rest = src@;
        let full: bool = dst.len() >= cap && !dst.contains_key(&k);
        if let Some(v) = src.remove(&k) {
            if !full {
                dst.insert(k, v);
            }
        }
        assert(!full ==> dst@ == before.insert(k, all[k]));
        assert(full ==> dst@ == before);
        assert forall|x: usize| #[trigger]
            src@.contains_key(x) <==> all.contains_key(x) && exists|j: int|
                i + 1 <= j < keys@.len() && keys@[j] == x by {
            assert(src@.contains_key(x) <==> rest.contains_key(x) && x != k);
            if rest.contains_key(x) && x != k {
                let j = choose|j: int| i <= j < keys@.len() && keys@[j] == x;
                assert(keys@[j] == x);
            }
            if x == k {
                assert forall|j: int| i + 1 <= j < keys@.len() implies keys@[j] != x by {}
            }
        }
    }
    assert forall|k: usize| !src@.contains_key(k) by {}
    if dst.len() < cap {
        assert forall|k: usize| all.dom().contains(k) implies dst@.dom().contains(k) by {
            assert(keys@.to_set().contains(k));
            let j = choose|j: int| 0 <= j < keys@.len() && keys@[j] == k;
            assert(dst@.contains_key(keys@[j]));
        }
    }
}

/// The last position below `n` at which `keys` holds `key`.
pub open spec fn last_at(keys: Seq<Option<nat>>, key: nat, n: nat) -> Option<int>
    decreases n,
{
    if n == 0 {
        None
    } else if keys[n - 1] == Some(key) {
        Some(n - 1)
    } else {
        last_at(keys, key, (n - 1) as nat)
    }
}

/// Whether a map holds, under each key, a value that is right for the last of
/// the first `n` positions with that key, and nothing else.
pub open spec fn collected<V>(
    map: Map<usize, V>,
    keys: Seq<Option<nat>>,
    n: nat,
    right: spec_fn(int, V) -> bool,
) -> bool {
    forall|key: usize|
        match #[trigger] last_at(keys, key as nat, n) {
            Some(k) => map.contains_key(key) && right(k, map[key]),
            None => !map.contains_key(key),
        }
}

/// What `last_at` finds is the last position with that key.
pub proof fn lemma_last_at(keys: Seq<Option<nat>>, key: nat, n: nat)
    ensures
        last_at(keys, key, n) matches Some(k) ==> 0 <= k < n && keys[k] == Some(key) && forall|l: int|
            k < l < n ==> #[trigger] keys[l] != Some(key),
        last_at(keys, key, n) is None ==> forall|k: int|
            0 <= k < n ==> #[trigger] keys[k] != Some(key),
    decreases n,
{
    if n > 0 {
        lemma_last_at(keys, key, (n - 1) as nat);
    }
}

/// Under the key of a position behind which no other has that key stands a value
/// that is right for that position.
pub proof fn lemma_collected_at<V>(
    map: Map<usize, V>,
    keys: Seq<Option<nat>>,
    right: spec_fn(int, V) -> bool,
    k: int,
    key: usize,
)
    requires
        collected(map, keys, keys.len(), right),
        0 <= k < keys.len(),
        keys[k] == Some(key as nat),
        forall|l: int| k < l < keys.len() ==> #[trigger] keys[l] != Some(key as nat),
    ensures
        map.contains_key(key),
        right(k, map[key]),
{
    lemma_last_at(keys, key as nat, keys.len());
}

/// One more position is collected by putting its value under its key, or by
/// doing nothing where it has none.
pub proof fn lemma_collected_step<V>(
    before: Map<usize, V>,
    after: Map<usize, V>,
    keys: Seq<Option<nat>>,
    k: int,
    right: spec_fn(int, V) -> bool,
)
    requires
        0 <= k < keys.len(),
        collected(before, keys, k as nat, right),
        keys[k] is None ==> after == before,
        keys[k] matches Some(key) ==> key <= usize::MAX && after == before.insert(
            key as usize,
            after[key as usize],
        ) && right(k, after[key as usize]),
    ensures
        collected(after, keys, (k + 1) as nat, right),
{
    assert forall|key: usize|
        match #[trigger] last_at(keys, key as nat, (k + 1) as nat) {
            Some(p) => after.contains_key(key) && right(p, after[key]),
            None => !after.contains_key(key),
        } by {
        let earlier = last_at(keys, key as nat, k as nat);
        assert(last_at(keys, key as nat, (k + 1) as nat) == if keys[k] == Some(key as nat) {
            Some(k)
        } else {
            earlier
        });
    }
}

/// A map keyed by text.
#[verifier::reject_recursive_types(V)]
pub struct TextMap<V> {
    entries: StringHashMap<V>,
}

impl<V> View for TextMap<V> {
    type V = Map<Seq<char>, V>;

    closed spec fn view(&self) -> Map<Seq<char>, V> {
        self.entries@
    }
}

impl<V> TextMap<V> {
    /// An empty map.
    pub fn new() -> (m: Self)
        ensures
            m@ == Map::<Seq<char>, V>::empty(),
    {
        TextMap { entries: StringHashMap::new() }
    }

    /// The number of keys.
    pub fn len(&self) -> (n: usize)
        ensures
            n == self@.dom().len(),
    {
        self.entries.len()
    }

    /// Whether there is no key.
    pub fn is_empty(&self) -> (r: bool)
        ensures
            r == (self@ == Map::<Seq<char>, V>::empty()),
    {
        assert(self@.is_empty() ==> self@ =~= Map::<Seq<char>, V>::empty());
        self.entries.is_empty()
    }

    /// The value under a key.
    pub fn get(&self, key: &str) -> (r: Option<&V>)
        ensures
            match r {
                Some(v) => self@.contains_key(key@) && *v == self@[key@],
                None => !self@.contains_key(key@),
            },
    {
        self.entries.get(key)
    }

    /// Puts a value under a key, in place of the one that was there.
    pub fn insert(&mut self, key: String, value: V)
        ensures
            final(self)@ == old(self)@.insert(key@, value),
    {
        self.entries.insert(key, value)
    }
}

} // verus!
