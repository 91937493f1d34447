use vstd::prelude::*;

use crate::strutil::str_eq;

verus! {

/// One cached value together with its key and the time (in milliseconds)
/// at which it stops being served.
pub struct CacheEntry<V> {
    pub key: String,
    pub value: V,
    pub expires_at: u64,
}

/// The first entry with the given key, if any.
pub open spec fn spec_lookup<V>(entries: Seq<CacheEntry<V>>, k: Seq<char>) -> Option<CacheEntry<V>>
    decreases entries.len(),
{
    if entries.len() == 0 {
        None
    } else if entries[0].key@ == k {
        Some(entries[0])
    } else {
        spec_lookup(entries.drop_first(), k)
    }
}

/// No two entries share a key.
pub open spec fn nodup_keys<V>(entries: Seq<CacheEntry<V>>) -> bool {
    forall|i: int, j: int| 0 <= i < j < entries.len() ==> entries[i].key@ != entries[j].key@
}

/// An entry still served at time `now`.
pub open spec fn is_live<V>(e: CacheEntry<V>, now: u64) -> bool {
    e.expires_at > now
}

/// With distinct keys, an entry that holds the key decides the lookup.
proof fn lemma_lookup_at<V>(entries: Seq<CacheEntry<V>>, i: int)
    requires
        nodup_keys(entries),
        0 <= i < entries.len(),
    ensures
        spec_lookup(entries, entries[i].key@) == Some(entries[i]),
    decreases entries.len(),
{
    if i > 0 {
        assert(entries[0].key@ != entries[i].key@);
        lemma_lookup_at(entries.drop_first(), i - 1);
        assert(entries.drop_first()[i - 1] == entries[i]);
    }
}

/// A key that no entry holds is not found.
proof fn lemma_lookup_none<V>(entries: Seq<CacheEntry<V>>, k: Seq<char>)
    requires
        forall|i: int| 0 <= i < entries.len() ==> entries[i].key@ != k,
    ensures
        spec_lookup(entries, k) is None,
    decreases entries.len(),
{
    if entries.len() > 0 {
        lemma_lookup_none(entries.drop_first(), k);
    }
}

/// A found entry stands somewhere in the sequence and holds the key.
proof fn lemma_lookup_some_index<V>(entries: Seq<CacheEntry<V>>, k: Seq<char>) -> (i: int)
    requires
        spec_lookup(entries, k) is Some,
    ensures
        0 <= i < entries.len(),
        entries[i] == spec_lookup(entries, k).unwrap(),
        entries[i].key@ == k,
    decreases entries.len(),
{
    if entries.len() > 0 && entries[0].key@ == k {
        0
    } else {
        let j = lemma_lookup_some_index(entries.drop_first(), k);
        assert(entries[j + 1] == entries.drop_first()[j]);
        j + 1
    }
}

/// Removing one entry keeps every other entry, and keeps the keys
/// distinct.
proof fn lemma_remove_keeps<V>(s: Seq<CacheEntry<V>>, i: int)
    requires
        nodup_keys(s),
        0 <= i < s.len(),
    ensures
        nodup_keys(s.remove(i)),
        s.remove(i).len() == s.len() - 1,
        forall|e: CacheEntry<V>| #[trigger] s.remove(i).contains(e) ==> s.contains(e),
        forall|e: CacheEntry<V>|
            s.contains(e) && e != s[i] ==> #[trigger] s.remove(i).contains(e),
        forall|j: int| 0 <= j < i ==> #[trigger] s.remove(i)[j] == s[j],
{
    s.remove_ensures(i);
    assert forall|e: CacheEntry<V>| #[trigger] s.remove(i).contains(e) implies s.contains(e) by {
        let j = choose|j: int| 0 <= j < s.remove(i).len() && s.remove(i)[j] == e;
        if j < i {
            assert(s[j] == e);
        } else {
            assert(s[j + 1] == e);
        }
    }
    assert forall|e: CacheEntry<V>| s.contains(e) && e != s[i] implies #[trigger] s.remove(
        i,
    ).contains(e) by {
        let j = choose|j: int| 0 <= j < s.len() && s[j] == e;
        if j < i {
            assert(s.remove(i)[j] == e);
        } else {
            assert(s.remove(i)[j - 1] == e);
        }
    }
    assert forall|a: int, b: int| 0 <= a < b < s.remove(i).len() implies s.remove(i)[a].key@
        != s.remove(i)[b].key@ by {
        let a0: int = if a < i {
            a
        } else {
            a + 1
        };
        let b0: int = if b < i {
            b
        } else {
            b + 1
        };
        assert(s.remove(i)[a] == s[a0]);
        assert(s.remove(i)[b] == s[b0]);
    }
}

/// Appending an entry under a fresh key leaves every other key's lookup
/// unchanged and makes the new entry found under its own key.
proof fn lemma_lookup_push<V>(s: Seq<CacheEntry<V>>, e: CacheEntry<V>)
    requires
        forall|j: int| 0 <= j < s.len() ==> s[j].key@ != e.key@,
    ensures
        spec_lookup(s.push(e), e.key@) == Some(e),
        forall|k2: Seq<char>|
            k2 != e.key@ ==> spec_lookup(s.push(e), k2) == spec_lookup(s, k2),
        nodup_keys(s) ==> nodup_keys(s.push(e)),
    decreases s.len(),
{
    if s.len() == 0 {
        assert(s.push(e)[0] == e);
        assert(s.push(e).drop_first() =~= Seq::<CacheEntry<V>>::empty());
        assert(spec_lookup(s.push(e), e.key@) == Some(e));
        assert forall|k2: Seq<char>| k2 != e.key@ implies spec_lookup(s.push(e), k2)
            == spec_lookup(s, k2) by {
            assert(spec_lookup(s.push(e), k2) == spec_lookup(s.push(e).drop_first(), k2));
            assert(spec_lookup(Seq::<CacheEntry<V>>::empty(), k2) is None);
            assert(spec_lookup(s, k2) is None);
        }
    } else {
        lemma_lookup_push(s.drop_first(), e);
        assert(s.push(e).drop_first() =~= s.drop_first().push(e));
        assert(s.push(e)[0] == s[0]);
        assert(s[0].key@ != e.key@);
        assert(spec_lookup(s.push(e), e.key@) == spec_lookup(s.drop_first().push(e), e.key@));
        assert forall|k2: Seq<char>| k2 != e.key@ implies spec_lookup(s.push(e), k2)
            == spec_lookup(s, k2) by {
            if s[0].key@ == k2 {
                assert(spec_lookup(s.push(e), k2) == Some(s[0]));
                assert(spec_lookup(s, k2) == Some(s[0]));
            } else {
                assert(spec_lookup(s.push(e), k2) == spec_lookup(s.drop_first().push(e), k2));
                assert(spec_lookup(s, k2) == spec_lookup(s.drop_first(), k2));
            }
        }
    }
    if nodup_keys(s) {
        assert forall|a: int, b: int| 0 <= a < b < s.push(e).len() implies s.push(e)[a].key@
            != s.push(e)[b].key@ by {
            if b < s.len() {
                assert(s.push(e)[a] == s[a]);
                assert(s.push(e)[b] == s[b]);
            } else {
                assert(s.push(e)[a] == s[a]);
                assert(s.push(e)[b] == e);
            }
        }
    }
}

/// A bounded cache of values under string keys, each entry with its own
/// expiry time.  The caller supplies the clock reading in milliseconds;
/// an entry is served only strictly before its expiry.  On overflow the
/// entry nearest to expiry is evicted.
pub struct TtlCache<V> {
    entries: Vec<CacheEntry<V>>,
    capacity: usize,
}

impl<V> TtlCache<V> {
    /// The entries the cache currently holds, in insertion order.
    pub closed spec fn view(&self) -> Seq<CacheEntry<V>> {
        self.entries@
    }

    /// The most entries the cache will hold.
    pub closed spec fn spec_capacity(&self) -> int {
        self.capacity as int
    }

    /// The cache is well formed: within capacity, no key twice.
    pub open spec fn wf(&self) -> bool {
        nodup_keys(self.view()) && self.view().len() <= self.spec_capacity()
            && self.spec_capacity() >= 1
    }

    pub fn new(capacity: usize) -> (r: TtlCache<V>)
        requires
            capacity >= 1,
        ensures
            r.wf(),
            r.view() =~= Seq::<CacheEntry<V>>::empty(),
            r.spec_capacity() == capacity,
    {
        TtlCache { entries: Vec::new(), capacity }
    }

    /// The value stored under `key`, if it is present and not expired at
    /// time `now`.
    pub fn get(&self, key: &str, now: u64) -> (r: Option<&V>)
        requires
            self.wf(),
        ensures
            (r is Some) == (spec_lookup(self.view(), key@) is Some && is_live(
                spec_lookup(self.view(), key@).unwrap(),
                now,
            )),
            r is Some ==> *r.unwrap() == spec_lookup(self.view(), key@).unwrap().value,
    {
        let n = self.entries.len();
        let mut i: usize = 0;
        while i < n
            invariant
                self.wf(),
                n == self.view().len(),
                i <= n,
                forall|j: int| 0 <= j < i ==> self.view()[j].key@ != key@,
            decreases n - i,
        {
            if str_eq(self.entries[i].key.as_str(), key) {
                proof {
                    lemma_lookup_at(self.view(), i as int);
                }
                if self.entries[i].expires_at > now {
                    return Some(&self.entries[i].value);
                } else {
                    return None;
                }
            }
            i = i + 1;
        }
        proof {
            lemma_lookup_none(self.view(), key@);
        }
        None
    }

    /// Removes the entry under `key`, if any; every other entry stays.
    pub fn remove(&mut self, key: &str)
        requires
            old(self).wf(),
        ensures
            final(self).wf(),
            final(self).spec_capacity() == old(self).spec_capacity(),
            spec_lookup(final(self).view(), key@) is None,
            forall|k2: Seq<char>|
                k2 != key@ ==> spec_lookup(final(self).view(), k2) == spec_lookup(
                    old(self).view(),
                    k2,
                ),
    {
        let ghost orig = self.entries@;
        let n = self.entries.len();
        let mut i: usize = 0;
        while i < n
            invariant
                self.entries@ == orig,
                orig == old(self).view(),
                self.capacity == old(self).capacity,
                nodup_keys(orig),
                orig.len() <= old(self).spec_capacity(),
                old(self).spec_capacity() >= 1,
                n == orig.len(),
                i <= n,
                forall|j: int| 0 <= j < i ==> orig[j].key@ != key@,
            decreases n - i,
        {
            if str_eq(self.entries[i].key.as_str(), key) {
                proof {
                    lemma_remove_keeps(orig, i as int);
                }
                self.entries.remove(i);
                proof {
                    lemma_removed_key_lookup(orig, i as int, key@);
                    assert(self.view() == orig.remove(i as int));
                    assert forall|k2: Seq<char>| k2 != key@ implies spec_lookup(
                        self.view(),
                        k2,
                    ) == spec_lookup(old(self).view(), k2) by {
                        assert(spec_lookup(orig.remove(i as int), k2) == spec_lookup(orig, k2));
                        assert(spec_lookup(self.view(), k2) == spec_lookup(
                            orig.remove(i as int),
                            k2,
                        ));
                        assert(spec_lookup(old(self).view(), k2) == spec_lookup(orig, k2));
                    }
                }
                return ;
            }
            i = i + 1;
        }
        proof {
            lemma_lookup_none(orig, key@);
        }
    }

    /// Inserts `value` under `key` with the given expiry, replacing any
    /// prior entry under that key.  Expired entries are dropped; when the
    /// cache would still overflow, the entry nearest to expiry is evicted.
    /// No other key's entry ever changes its value, and when the cache had
    /// room no other live entry is lost.
    pub fn insert(&mut self, key: String, value: V, expires_at: u64, now: u64)
        requires
            old(self).wf(),
        ensures
            final(self).wf(),
            final(self).spec_capacity() == old(self).spec_capacity(),
            spec_lookup(final(self).view(), key@) is Some,
            spec_lookup(final(self).view(), key@).unwrap().key@ == key@,
            spec_lookup(final(self).view(), key@).unwrap().value == value,
            spec_lookup(final(self).view(), key@).unwrap().expires_at == expires_at,
            forall|k2: Seq<char>|
                k2 != key@ && spec_lookup(final(self).view(), k2) is Some ==> spec_lookup(
                    old(self).view(),
                    k2,
                ) == spec_lookup(final(self).view(), k2) && is_live(
                    spec_lookup(final(self).view(), k2).unwrap(),
                    now,
                ),
            old(self).view().len() < old(self).spec_capacity() ==> forall|k2: Seq<char>|
                k2 != key@ && spec_lookup(old(self).view(), k2) is Some && is_live(
                    spec_lookup(old(self).view(), k2).unwrap(),
                    now,
                ) ==> spec_lookup(final(self).view(), k2) == spec_lookup(old(self).view(), k2),
            forall|k2: Seq<char>, k3: Seq<char>|
                k2 != key@ && k3 != key@ && spec_lookup(old(self).view(), k2) is Some && is_live(
                    spec_lookup(old(self).view(), k2).unwrap(),
                    now,
                ) && spec_lookup(final(self).view(), k2) is None && spec_lookup(
                    final(self).view(),
                    k3,
                ) is Some ==> spec_lookup(old(self).view(), k2).unwrap().expires_at <= spec_lookup(
                    final(self).view(),
                    k3,
                ).unwrap().expires_at,
    {
        let ghost orig = self.entries@;
        // Drop expired entries and any prior entry under this key.
        let mut i: usize = 0;
        while i < self.entries.len()
            invariant
                self.capacity == old(self).capacity,
                old(self).wf(),
                nodup_keys(self.entries@),
                self.entries@.len() <= orig.len(),
                i <= self.entries@.len(),
                forall|e: CacheEntry<V>| #[trigger] self.entries@.contains(e) ==> orig.contains(e),
                forall|e: CacheEntry<V>|
                    orig.contains(e) && is_live(e, now) && e.key@ != key@
                        ==> #[trigger] self.entries@.contains(e),
                forall|j: int|
                    0 <= j < i ==> is_live(#[trigger] self.entries@[j], now)
                        && self.entries@[j].key@ != key@,
            decreases self.entries@.len() - i,
        {
            let live = self.entries[i].expires_at > now;
            let same = str_eq(self.entries[i].key.as_str(), key.as_str());
            if !live || same {
                let ghost before = self.entries@;
                proof {
                    lemma_remove_keeps(before, i as int);
                    assert(before.contains(before[i as int]));
                }
                self.entries.remove(i);
                proof {
                    assert forall|e: CacheEntry<V>| #[trigger] self.entries@.contains(e)
                        implies orig.contains(e) by {
                        assert(before.contains(e));
                    }
                    assert forall|e: CacheEntry<V>|
                        orig.contains(e) && is_live(e, now) && e.key@ != key@
                        implies #[trigger] self.entries@.contains(e) by {
                        assert(before.contains(e));
                        assert(e != before[i as int]);
                    }
                }
            } else {
                i = i + 1;
            }
        }
        let ghost purged = self.entries@;
        proof {
            assert(forall|j: int|
                0 <= j < purged.len() ==> is_live(#[trigger] purged[j], now) && purged[j].key@
                    != key@);
        }
        // Evict the entry nearest to expiry if there is still no room.
        if self.entries.len() >= self.capacity {
            let n = self.entries.len();
            let mut m: usize = 0;
            let mut j: usize = 1;
            while j < n
                invariant
                    self.capacity == old(self).capacity,
                    self.entries@ == purged,
                    n == purged.len(),
                    0 < n,
                    m < j <= n,
                    forall|j2: int|
                        0 <= j2 < j ==> purged[j2].expires_at >= purged[m as int].expires_at,
                decreases n - j,
            {
                if self.entries[j].expires_at < self.entries[m].expires_at {
                    m = j;
                }
                j = j + 1;
            }
            proof {
                lemma_remove_keeps(purged, m as int);
            }
            self.entries.remove(m);
            proof {
                assert(self.entries@ == purged.remove(m as int));
                assert(exists|mm: int|
                    0 <= mm < purged.len() && self.entries@ == purged.remove(mm) && forall|j2: int|
                        0 <= j2 < purged.len() ==> purged[j2].expires_at
                            >= purged[mm].expires_at);
            }
        }
        let ghost kept = self.entries@;
        let newe = CacheEntry { key, value, expires_at };
        let ghost gnewe = newe;
        self.entries.push(newe);
        proof {
            if orig.len() < old(self).spec_capacity() {
                assert(kept == purged);
            }
            lemma_insert_post(orig, purged, kept, self.entries@, gnewe, now);
        }
    }
}

/// Removing the one entry that holds a key makes that key unfound and
/// leaves every other key's lookup unchanged.
proof fn lemma_removed_key_lookup<V>(s: Seq<CacheEntry<V>>, i: int, k: Seq<char>)
    requires
        nodup_keys(s),
        0 <= i < s.len(),
        s[i].key@ == k,
    ensures
        spec_lookup(s.remove(i), k) is None,
        forall|k2: Seq<char>| k2 != k ==> spec_lookup(s.remove(i), k2) == spec_lookup(s, k2),
{
    lemma_remove_keeps(s, i);
    s.remove_ensures(i);
    assert forall|j: int| 0 <= j < s.remove(i).len() implies s.remove(i)[j].key@ != k by {
        if j < i {
            assert(s.remove(i)[j] == s[j]);
        } else {
            assert(s.remove(i)[j] == s[j + 1]);
        }
    }
    lemma_lookup_none(s.remove(i), k);
    assert forall|k2: Seq<char>| k2 != k implies spec_lookup(s.remove(i), k2) == spec_lookup(
        s,
        k2,
    ) by {
        lemma_lookup_pair(s, s.remove(i), k2);
    }
}

/// Two entry sequences with distinct keys that contain each other's
/// entries under key `k2` agree on the lookup of `k2`.
proof fn lemma_lookup_pair<V>(a: Seq<CacheEntry<V>>, b: Seq<CacheEntry<V>>, k2: Seq<char>)
    requires
        nodup_keys(a),
        nodup_keys(b),
        forall|e: CacheEntry<V>|
            a.contains(e) && e.key@ == k2 ==> #[trigger] b.contains(e),
        forall|e: CacheEntry<V>|
            b.contains(e) && e.key@ == k2 ==> #[trigger] a.contains(e),
    ensures
        spec_lookup(a, k2) == spec_lookup(b, k2),
{
    if spec_lookup(a, k2) is Some {
        let i = lemma_lookup_some_index(a, k2);
        assert(a.contains(a[i]));
        assert(b.contains(a[i]));
        let j = choose|j: int| 0 <= j < b.len() && b[j] == a[i];
        lemma_lookup_at(b, j);
    } else if spec_lookup(b, k2) is Some {
        let i = lemma_lookup_some_index(b, k2);
        assert(b.contains(b[i]));
        assert(a.contains(b[i]));
        let j = choose|j: int| 0 <= j < a.len() && a[j] == b[i];
        lemma_lookup_at(a, j);
    }
}

/// The combined effect of purge, optional eviction and push inside
/// `TtlCache::insert`.
proof fn lemma_insert_post<V>(
    orig: Seq<CacheEntry<V>>,
    purged: Seq<CacheEntry<V>>,
    kept: Seq<CacheEntry<V>>,
    fin: Seq<CacheEntry<V>>,
    newe: CacheEntry<V>,
    now: u64,
)
    requires
        nodup_keys(orig),
        nodup_keys(purged),
        nodup_keys(kept),
        forall|e: CacheEntry<V>| #[trigger] purged.contains(e) ==> orig.contains(e),
        forall|e: CacheEntry<V>|
            orig.contains(e) && is_live(e, now) && e.key@ != newe.key@
                ==> #[trigger] purged.contains(e),
        forall|j: int|
            0 <= j < purged.len() ==> is_live(#[trigger] purged[j], now) && purged[j].key@
                != newe.key@,
        forall|e: CacheEntry<V>| #[trigger] kept.contains(e) ==> purged.contains(e),
        kept == purged || purged.len() >= 1 && exists|m: int|
            0 <= m < purged.len() && kept == purged.remove(m) && forall|j2: int|
                0 <= j2 < purged.len() ==> purged[j2].expires_at >= purged[m].expires_at,
        fin == kept.push(newe),
    ensures
        spec_lookup(fin, newe.key@) is Some,
        spec_lookup(fin, newe.key@).unwrap() == newe,
        forall|k2: Seq<char>|
            k2 != newe.key@ && spec_lookup(fin, k2) is Some ==> spec_lookup(orig, k2)
                == spec_lookup(fin, k2) && is_live(spec_lookup(fin, k2).unwrap(), now),
        kept == purged ==> forall|k2: Seq<char>|
            k2 != newe.key@ && spec_lookup(orig, k2) is Some && is_live(
                spec_lookup(orig, k2).unwrap(),
                now,
            ) ==> spec_lookup(fin, k2) == spec_lookup(orig, k2),
        forall|k2: Seq<char>, k3: Seq<char>|
            k2 != newe.key@ && k3 != newe.key@ && spec_lookup(orig, k2) is Some && is_live(
                spec_lookup(orig, k2).unwrap(),
                now,
            ) && spec_lookup(fin, k2) is None && spec_lookup(fin, k3) is Some ==> spec_lookup(
                orig,
                k2,
            ).unwrap().expires_at <= spec_lookup(fin, k3).unwrap().expires_at,
{
    assert(forall|j: int| 0 <= j < kept.len() ==> kept.contains(#[trigger] kept[j]));
    assert(forall|j: int| 0 <= j < kept.len() ==> (#[trigger] kept[j]).key@ != newe.key@);
    lemma_lookup_push(kept, newe);
    assert forall|k2: Seq<char>|
        k2 != newe.key@ && spec_lookup(fin, k2) is Some implies spec_lookup(orig, k2)
        == spec_lookup(fin, k2) && is_live(spec_lookup(fin, k2).unwrap(), now) by {
        assert(spec_lookup(kept, k2) == spec_lookup(fin, k2));
        let i = lemma_lookup_some_index(kept, k2);
        let e = kept[i];
        assert(kept.contains(e));
        assert(purged.contains(e));
        let pj = choose|pj: int| 0 <= pj < purged.len() && purged[pj] == e;
        assert(is_live(e, now));
        assert(orig.contains(e));
        let oj = choose|oj: int| 0 <= oj < orig.len() && orig[oj] == e;
        lemma_lookup_at(orig, oj);
        lemma_lookup_at(kept, i);
    }
    if kept == purged {
        assert forall|k2: Seq<char>|
            k2 != newe.key@ && spec_lookup(orig, k2) is Some && is_live(
                spec_lookup(orig, k2).unwrap(),
                now,
            ) implies spec_lookup(fin, k2) == spec_lookup(orig, k2) by {
            let i = lemma_lookup_some_index(orig, k2);
            let e = orig[i];
            assert(orig.contains(e));
            assert(purged.contains(e));
            let j = choose|j: int| 0 <= j < kept.len() && kept[j] == e;
            lemma_lookup_at(kept, j);
            lemma_lookup_at(orig, i);
            assert(spec_lookup(fin, k2) == spec_lookup(kept, k2));
        }
    }
    assert forall|k2: Seq<char>, k3: Seq<char>|
        k2 != newe.key@ && k3 != newe.key@ && spec_lookup(orig, k2) is Some && is_live(
            spec_lookup(orig, k2).unwrap(),
            now,
        ) && spec_lookup(fin, k2) is None && spec_lookup(fin, k3) is Some implies spec_lookup(
        orig,
        k2,
    ).unwrap().expires_at <= spec_lookup(fin, k3).unwrap().expires_at by {
        let i2 = lemma_lookup_some_index(orig, k2);
        let e2 = orig[i2];
        assert(orig.contains(e2));
        assert(purged.contains(e2));
        assert(spec_lookup(kept, k2) == spec_lookup(fin, k2));
        assert(!kept.contains(e2)) by {
            if kept.contains(e2) {
                let j = choose|j: int| 0 <= j < kept.len() && kept[j] == e2;
                lemma_lookup_at(kept, j);
            }
        }
        assert(kept != purged);
        let m = choose|m: int|
            0 <= m < purged.len() && kept == purged.remove(m) && forall|j2: int|
                0 <= j2 < purged.len() ==> purged[j2].expires_at >= purged[m].expires_at;
        lemma_remove_keeps(purged, m);
        assert(e2 == purged[m]);
        assert(spec_lookup(fin, k3) == spec_lookup(kept, k3));
        let i3 = lemma_lookup_some_index(kept, k3);
        let e3 = kept[i3];
        assert(kept.contains(e3));
        assert(purged.contains(e3));
        let p3 = choose|p3: int| 0 <= p3 < purged.len() && purged[p3] == e3;
        assert(purged[p3].expires_at >= purged[m].expires_at);
    }
}

} // verus!
