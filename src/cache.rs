use vstd::prelude::*;

verus! {

/// A cache entry seen as (key, value, expiry time in milliseconds).
pub type EntryView = (Seq<char>, Seq<char>, u64);

/// An entry whose expiry lies strictly before `now` is dead.
pub open spec fn expired(e: EntryView, now: u64) -> bool {
    e.2 < now
}

/// The entries of `s` that are still alive at `now`, in their order.
pub open spec fn live(s: Seq<EntryView>, now: u64) -> Seq<EntryView>
    decreases s.len(),
{
    if s.len() == 0 {
        s
    } else {
        let rest = live(s.drop_last(), now);
        if expired(s.last(), now) {
            rest
        } else {
            rest.push(s.last())
        }
    }
}

pub open spec fn has_key(s: Seq<EntryView>, k: Seq<char>) -> bool {
    exists|i: int| 0 <= i < s.len() && #[trigger] s[i].0 == k
}

/// The position of key `k` in `s` (meaningful when `has_key(s, k)`).
pub open spec fn key_pos(s: Seq<EntryView>, k: Seq<char>) -> int {
    choose|i: int| 0 <= i < s.len() && #[trigger] s[i].0 == k
}

pub open spec fn keys_unique(s: Seq<EntryView>) -> bool {
    forall|i: int, j: int|
        0 <= i < s.len() && 0 <= j < s.len() && i != j ==> #[trigger] s[i].0 != #[trigger] s[j].0
}

/// A well-formed cache holds at most `cap` entries, with pairwise distinct keys,
/// ordered from least to most recently touched.
pub open spec fn cache_wf(s: Seq<EntryView>, cap: nat) -> bool {
    keys_unique(s) && s.len() <= cap
}

/// The expiry of an entry written at `now` with a time-to-live of `ttl`.
pub open spec fn expiry(now: u64, ttl: u64) -> u64 {
    if now as int + ttl as int > u64::MAX as int {
        u64::MAX
    } else {
        (now + ttl) as u64
    }
}

/// What `get(k)` at `now` returns from the entries `s`.
pub open spec fn get_result(s: Seq<EntryView>, k: Seq<char>, now: u64) -> Option<Seq<char>> {
    let l = live(s, now);
    if has_key(l, k) {
        Some(l[key_pos(l, k)].1)
    } else {
        None
    }
}

/// The entries after `get(k)` at `now`: dead entries are purged and a found
/// entry moves to the most recently touched end.
pub open spec fn after_get(s: Seq<EntryView>, k: Seq<char>, now: u64) -> Seq<EntryView> {
    let l = live(s, now);
    if has_key(l, k) {
        let i = key_pos(l, k);
        l.remove(i).push(l[i])
    } else {
        l
    }
}

/// The entries after `put(k, v)` at `now`: dead entries are purged; an existing
/// key is replaced and moved to the most recent end; a new key is appended and
/// the least recently touched entries leave until at most `cap` remain.
pub open spec fn after_put(
    s: Seq<EntryView>,
    k: Seq<char>,
    v: Seq<char>,
    now: u64,
    ttl: u64,
    cap: nat,
) -> Seq<EntryView> {
    let l = live(s, now);
    let e = (k, v, expiry(now, ttl));
    if has_key(l, k) {
        l.remove(key_pos(l, k)).push(e)
    } else {
        let a = l.push(e);
        if a.len() > cap {
            a.subrange(a.len() - cap, a.len() as int)
        } else {
            a
        }
    }
}

/// Every entry of `live(s, now)` is an entry of `s` that is alive at `now`, and
/// conversely.
pub proof fn lemma_live_members(s: Seq<EntryView>, now: u64)
    ensures
        live(s, now).len() <= s.len(),
        forall|x: EntryView| #[trigger] live(s, now).contains(x) <==> (s.contains(x) && !expired(x, now)),
    decreases s.len(),
{
    if s.len() > 0 {
        let p = s.drop_last();
        lemma_live_members(p, now);
        assert forall|x: EntryView| s.contains(x) <==> (p.contains(x) || x == s.last()) by {
            if s.contains(x) {
                let i = choose|i: int| 0 <= i < s.len() && s[i] == x;
                if i < s.len() - 1 {
                    assert(p[i] == x);
                }
            }
            if p.contains(x) {
                let i = choose|i: int| 0 <= i < p.len() && p[i] == x;
                assert(s[i] == x);
            }
            if x == s.last() {
                assert(s[s.len() - 1] == x);
            }
        }
        let r = live(p, now);
        if !expired(s.last(), now) {
            assert forall|x: EntryView| r.push(s.last()).contains(x) <==> (r.contains(x) || x == s.last()) by {
                if r.push(s.last()).contains(x) {
                    let i = choose|i: int| 0 <= i < r.len() + 1 && r.push(s.last())[i] == x;
                    if i < r.len() {
                        assert(r[i] == x);
                    }
                }
                if r.contains(x) {
                    let i = choose|i: int| 0 <= i < r.len() && r[i] == x;
                    assert(r.push(s.last())[i] == x);
                }
                if x == s.last() {
                    assert(r.push(s.last())[r.len() as int] == x);
                }
            }
        }
        assert forall|x: EntryView| #[trigger] live(s, now).contains(x) <==> (s.contains(x) && !expired(x, now)) by {
            assert(live(p, now).contains(x) <==> (p.contains(x) && !expired(x, now)));
        }
    } else {
        assert forall|x: EntryView| #[trigger] live(s, now).contains(x) <==> (s.contains(x) && !expired(x, now)) by {
            if s.contains(x) {
                let i = choose|i: int| 0 <= i < s.len() && s[i] == x;
            }
        }
    }
}

/// Purging dead entries keeps the keys distinct.
pub proof fn lemma_live_unique(s: Seq<EntryView>, now: u64)
    requires
        keys_unique(s),
    ensures
        keys_unique(live(s, now)),
    decreases s.len(),
{
    if s.len() > 0 {
        let p = s.drop_last();
        assert(keys_unique(p)) by {
            assert forall|i: int, j: int| 0 <= i < p.len() && 0 <= j < p.len() && i != j implies p[i].0 != p[j].0 by {
                assert(p[i] == s[i] && p[j] == s[j]);
            }
        }
        lemma_live_unique(p, now);
        lemma_live_members(p, now);
        let r = live(p, now);
        if !expired(s.last(), now) {
            let q = r.push(s.last());
            assert forall|i: int, j: int| 0 <= i < q.len() && 0 <= j < q.len() && i != j implies q[i].0 != q[j].0 by {
                if i < r.len() && j < r.len() {
                    assert(q[i] == r[i] && q[j] == r[j]);
                } else {
                    let o = if i < r.len() { i } else { j };
                    assert(r.contains(r[o]));
                    let t = choose|t: int| 0 <= t < p.len() && p[t] == r[o];
                    assert(s[t] == p[t]);
                    assert(s[s.len() - 1] == s.last());
                }
            }
        }
    }
}

/// Purging at a time when nothing is dead changes nothing.
pub proof fn lemma_live_all_alive(s: Seq<EntryView>, now: u64)
    requires
        forall|i: int| 0 <= i < s.len() ==> !expired(#[trigger] s[i], now),
    ensures
        live(s, now) == s,
    decreases s.len(),
{
    if s.len() > 0 {
        let p = s.drop_last();
        assert forall|i: int| 0 <= i < p.len() implies !expired(#[trigger] p[i], now) by {
            assert(p[i] == s[i]);
        }
        lemma_live_all_alive(p, now);
        assert(s[s.len() - 1] == s.last());
        assert(p.push(s.last()) =~= s);
    }
}

proof fn lemma_key_pos(s: Seq<EntryView>, k: Seq<char>, i: int)
    requires
        keys_unique(s),
        0 <= i < s.len(),
        s[i].0 == k,
    ensures
        has_key(s, k),
        key_pos(s, k) == i,
{
    assert(has_key(s, k));
}

/// Removing one entry and appending an entry with a fresh key keeps keys distinct.
proof fn lemma_unique_remove_push(s: Seq<EntryView>, i: int, e: EntryView)
    requires
        keys_unique(s),
        0 <= i < s.len(),
        e.0 == s[i].0,
    ensures
        keys_unique(s.remove(i).push(e)),
{
    let q = s.remove(i).push(e);
    assert forall|a: int, b: int| 0 <= a < q.len() && 0 <= b < q.len() && a != b implies q[a].0 != q[b].0 by {
        let ia = if a < i { a } else { a + 1 };
        let ib = if b < i { b } else { b + 1 };
        if a < q.len() - 1 && b < q.len() - 1 {
            assert(q[a] == s[ia] && q[b] == s[ib]);
        } else if a < q.len() - 1 {
            assert(q[a] == s[ia]);
        } else {
            assert(q[b] == s[ib]);
        }
    }
}

proof fn lemma_unique_push_fresh(s: Seq<EntryView>, e: EntryView)
    requires
        keys_unique(s),
        !has_key(s, e.0),
    ensures
        keys_unique(s.push(e)),
{
    let q = s.push(e);
    assert forall|a: int, b: int| 0 <= a < q.len() && 0 <= b < q.len() && a != b implies q[a].0 != q[b].0 by {
        if a < s.len() && b < s.len() {
            assert(q[a] == s[a] && q[b] == s[b]);
        } else if a < s.len() {
            assert(q[a] == s[a]);
        } else {
            assert(q[b] == s[b]);
        }
    }
}

proof fn lemma_unique_suffix(s: Seq<EntryView>, from: int)
    requires
        keys_unique(s),
        0 <= from <= s.len(),
    ensures
        keys_unique(s.subrange(from, s.len() as int)),
{
    let q = s.subrange(from, s.len() as int);
    assert forall|a: int, b: int| 0 <= a < q.len() && 0 <= b < q.len() && a != b implies q[a].0 != q[b].0 by {
        assert(q[a] == s[a + from] && q[b] == s[b + from]);
    }
}

/// `get` keeps the cache well formed.
pub proof fn lemma_get_wf(s: Seq<EntryView>, cap: nat, k: Seq<char>, now: u64)
    requires
        cache_wf(s, cap),
    ensures
        cache_wf(after_get(s, k, now), cap),
{
    lemma_live_unique(s, now);
    lemma_live_members(s, now);
    let l = live(s, now);
    if has_key(l, k) {
        let i = key_pos(l, k);
        lemma_unique_remove_push(l, i, l[i]);
    }
}

/// `put` keeps the cache well formed.
pub proof fn lemma_put_wf(s: Seq<EntryView>, cap: nat, k: Seq<char>, v: Seq<char>, now: u64, ttl: u64)
    requires
        cache_wf(s, cap),
    ensures
        cache_wf(after_put(s, k, v, now, ttl, cap), cap),
{
    lemma_live_unique(s, now);
    lemma_live_members(s, now);
    let l = live(s, now);
    let e = (k, v, expiry(now, ttl));
    if has_key(l, k) {
        lemma_unique_remove_push(l, key_pos(l, k), e);
    } else {
        lemma_unique_push_fresh(l, e);
        let a = l.push(e);
        if a.len() > cap {
            lemma_unique_suffix(a, a.len() - cap);
        }
    }
}


struct CacheEntry {
    key: String,
    value: String,
    expires_at: u64,
}

impl View for CacheEntry {
    type V = EntryView;

    closed spec fn view(&self) -> EntryView {
        (self.key@, self.value@, self.expires_at)
    }
}

spec fn entries_view(v: Seq<CacheEntry>) -> Seq<EntryView> {
    v.map_values(|e: CacheEntry| e@)
}

fn copy_entry(e: &CacheEntry) -> (r: CacheEntry)
    ensures
        r@ == e@,
{
    CacheEntry { key: e.key.clone(), value: e.value.clone(), expires_at: e.expires_at }
}

/// A bounded key/value store with least-recently-touched eviction and a
/// time-to-live on every entry. Time is given by the caller in milliseconds.
///
/// The entries live in one vector ordered by recency, which is both the
/// lookup table and the eviction order: with `String` keys a hash map's
/// contents cannot be tied to the key texts in contracts, while a vector's
/// can, and the capacity is small enough for a linear search.
pub struct LruTtlCache {
    entries: Vec<CacheEntry>,
    capacity: usize,
    ttl_ms: u64,
}

impl View for LruTtlCache {
    type V = Seq<EntryView>;

    /// The entries, from least to most recently touched.
    closed spec fn view(&self) -> Seq<EntryView> {
        entries_view(self.entries@)
    }
}

impl LruTtlCache {
    pub closed spec fn capacity_spec(&self) -> nat {
        self.capacity as nat
    }

    /// The time-to-live of every entry, in milliseconds.
    pub closed spec fn ttl_spec(&self) -> u64 {
        self.ttl_ms
    }

    pub open spec fn wf(&self) -> bool {
        cache_wf(self@, self.capacity_spec())
    }

    /// An empty cache for at most `capacity` entries, each living `ttl_seconds`.
    pub fn new(capacity: usize, ttl_seconds: u64) -> (r: Self)
        ensures
            r.wf(),
            r@ == Seq::<EntryView>::empty(),
            r.capacity_spec() == capacity,
            r.ttl_spec() == (if ttl_seconds > u64::MAX / 1000 { u64::MAX } else { (ttl_seconds * 1000) as u64 }),
    {
        let ttl_ms: u64 = if ttl_seconds > u64::MAX / 1000 { u64::MAX } else { ttl_seconds * 1000 };
        let r = LruTtlCache { entries: Vec::new(), capacity, ttl_ms };
        assert(r@ =~= Seq::<EntryView>::empty());
        r
    }

    /// The number of entries held, dead or alive.
    pub fn len(&self) -> (r: usize)
        ensures
            r == self@.len(),
    {
        self.entries.len()
    }

    /// Drops every entry that is dead at `now`.
    fn evict_expired(&mut self, now: u64)
        requires
            old(self).wf(),
        ensures
            final(self)@ == live(old(self)@, now),
            final(self).capacity_spec() == old(self).capacity_spec(),
            final(self).ttl_spec() == old(self).ttl_spec(),
            final(self).wf(),
    {
        let ghost s = self@;
        let mut kept: Vec<CacheEntry> = Vec::new();
        let mut i: usize = 0;
        while i < self.entries.len()
            invariant
                s == entries_view(self.entries@),
                0 <= i <= self.entries.len(),
                entries_view(kept@) == live(s.take(i as int), now),
            decreases self.entries.len() - i,
        {
            let ghost before = kept@;
            assert(s.take(i + 1).drop_last() =~= s.take(i as int));
            assert(s.take(i + 1).last() == s[i as int]);
            if !(self.entries[i].expires_at < now) {
                let e = copy_entry(&self.entries[i]);
                kept.push(e);
                assert(entries_view(kept@) =~= entries_view(before).push(s[i as int]));
            }
            i = i + 1;
        }
        assert(s.take(s.len() as int) =~= s);
        self.entries = kept;
        proof {
            lemma_live_unique(s, now);
            lemma_live_members(s, now);
        }
    }

    /// The position of `key`, if present.
    fn find(&self, key: &String) -> (r: Option<usize>)
        requires
            self.wf(),
        ensures
            match r {
                Some(i) => i < self@.len() && has_key(self@, key@) && key_pos(self@, key@) == i,
                None => !has_key(self@, key@),
            },
    {
        let mut i: usize = 0;
        while i < self.entries.len()
            invariant
                0 <= i <= self.entries.len(),
                self.wf(),
                forall|j: int| 0 <= j < i ==> #[trigger] self@[j].0 != key@,
            decreases self.entries.len() - i,
        {
            if self.entries[i].key == *key {
                proof {
                    lemma_key_pos(self@, key@, i as int);
                }
                return Some(i);
            }
            i = i + 1;
        }
        None
    }

    /// The value stored under `key`, if it is alive at `now`; dead entries are
    /// purged first, and a hit counts as a touch.
    pub fn get(&mut self, key: &str, now: u64) -> (r: Option<String>)
        requires
            old(self).wf(),
        ensures
            final(self).wf(),
            match r {
                Some(v) => get_result(old(self)@, key@, now) == Some(v@),
                None => get_result(old(self)@, key@, now).is_none(),
            },
            final(self)@ == after_get(old(self)@, key@, now),
            final(self).capacity_spec() == old(self).capacity_spec(),
            final(self).ttl_spec() == old(self).ttl_spec(),
    {
        let ghost s = self@;
        self.evict_expired(now);
        let k = key.to_owned();
        match self.find(&k) {
            Some(i) => {
                let ghost l = self@;
                let e = self.entries.remove(i);
                let v = e.value.clone();
                self.entries.push(e);
                proof {
                    assert(entries_view(self.entries@) =~= l.remove(i as int).push(l[i as int]));
                    lemma_get_wf(s, self.capacity_spec(), key@, now);
                }
                Some(v)
            },
            None => None,
        }
    }

    /// Stores `value` under `key` at `now`: dead entries are purged first; an
    /// existing key is replaced and touched; a new key is appended, and the
    /// least recently touched entries leave while the capacity is exceeded.
    pub fn put(&mut self, key: String, value: String, now: u64)
        requires
            old(self).wf(),
        ensures
            final(self).wf(),
            final(self)@ == after_put(old(self)@, key@, value@, now, old(self).ttl_spec(), old(self).capacity_spec()),
            final(self).capacity_spec() == old(self).capacity_spec(),
            final(self).ttl_spec() == old(self).ttl_spec(),
    {
        let ghost s = self@;
        self.evict_expired(now);
        let ghost l = self@;
        let ghost cap = self.capacity;
        let ghost ttl = self.ttl_ms;
        let expires_at: u64 = if now > u64::MAX - self.ttl_ms { u64::MAX } else { now + self.ttl_ms };
        let found = self.find(&key);
        let entry = CacheEntry { key, value, expires_at };
        let ghost e = entry@;
        match found {
            Some(i) => {
                self.entries.remove(i);
                self.entries.push(entry);
                assert(entries_view(self.entries@) =~= l.remove(i as int).push(e));
            },
            None => {
                self.entries.push(entry);
                assert(entries_view(self.entries@) =~= l.push(e));
                while self.entries.len() > self.capacity
                    invariant
                        l.push(e).len() >= self.entries.len(),
                        entries_view(self.entries@) =~= l.push(e).subrange(
                            l.push(e).len() - self.entries.len(),
                            l.push(e).len() as int,
                        ),
                        l.push(e).len() > self.capacity ==> self.entries.len() >= self.capacity,
                        l.push(e).len() <= self.capacity ==> self.entries.len() == l.push(e).len(),
                        self.capacity == cap,
                        self.ttl_ms == ttl,
                    decreases self.entries.len(),
                {
                    let ghost before = self.entries@;
                    self.entries.remove(0);
                    assert(entries_view(self.entries@) =~= entries_view(before).drop_first());
                }
                let ghost a = l.push(e);
                assert(entries_view(self.entries@) =~= (if a.len() > cap { a.subrange(a.len() - cap, a.len() as int) } else { a }));
            },
        }
        proof {
            lemma_put_wf(s, self.capacity_spec(), key@, value@, now, self.ttl_spec());
        }
    }
}

/// Right after `put(k, v)` at `t`, `get(k)` at any time up to the entry's
/// expiry returns `v` (for a cache that can hold at least one entry).
pub proof fn law_put_then_get(
    s: Seq<EntryView>,
    cap: nat,
    ttl: u64,
    k: Seq<char>,
    v: Seq<char>,
    t: u64,
    t2: u64,
)
    requires
        cache_wf(s, cap),
        cap > 0,
        t <= t2 <= expiry(t, ttl),
    ensures
        get_result(after_put(s, k, v, t, ttl, cap), k, t2) == Some(v),
{
    lemma_put_wf(s, cap, k, v, t, ttl);
    let p = after_put(s, k, v, t, ttl, cap);
    let e = (k, v, expiry(t, ttl));
    let l = live(s, t);
    if has_key(l, k) {
        assert(p.last() == e);
    } else {
        let a = l.push(e);
        assert(a.last() == e);
        if a.len() > cap {
            assert(p[p.len() - 1] == a[a.len() - 1]);
        }
        assert(p.last() == e);
    }
    assert(p[p.len() - 1] == e);
    lemma_live_members(p, t2);
    lemma_live_unique(p, t2);
    assert(p.contains(e));
    let q = live(p, t2);
    assert(q.contains(e));
    let i = choose|i: int| 0 <= i < q.len() && q[i] == e;
    lemma_key_pos(q, k, i);
}

/// A `get(k)` at a time past the expiry of `k`'s entry reports it absent, and
/// afterwards the key is gone.
pub proof fn law_get_after_expiry(s: Seq<EntryView>, cap: nat, k: Seq<char>, now: u64)
    requires
        cache_wf(s, cap),
        forall|i: int| 0 <= i < s.len() && #[trigger] s[i].0 == k ==> expired(s[i], now),
    ensures
        get_result(s, k, now).is_none(),
        !has_key(after_get(s, k, now), k),
{
    lemma_live_members(s, now);
    let l = live(s, now);
    if has_key(l, k) {
        let i = key_pos(l, k);
        assert(l.contains(l[i]));
        let j = choose|j: int| 0 <= j < s.len() && s[j] == l[i];
        assert(s[j].0 == k);
    }
}

/// Putting a new key into a full cache whose entries are all alive evicts
/// exactly the least recently touched entry: the size stays at the capacity.
pub proof fn law_put_evicts_oldest(
    s: Seq<EntryView>,
    cap: nat,
    ttl: u64,
    k: Seq<char>,
    v: Seq<char>,
    now: u64,
)
    requires
        cache_wf(s, cap),
        s.len() == cap,
        cap > 0,
        forall|i: int| 0 <= i < s.len() ==> !expired(#[trigger] s[i], now),
        !has_key(s, k),
    ensures
        after_put(s, k, v, now, ttl, cap).len() == cap,
        after_put(s, k, v, now, ttl, cap) == s.drop_first().push((k, v, expiry(now, ttl))),
{
    lemma_live_all_alive(s, now);
    let e = (k, v, expiry(now, ttl));
    assert(s.push(e).subrange(1, s.len() + 1 as int) =~= s.drop_first().push(e));
}

/// The entries after putting each (key, value, time) of `ops` in turn,
/// starting from the entries `s`.
pub open spec fn put_all(s: Seq<EntryView>, ops: Seq<EntryView>, ttl: u64, cap: nat) -> Seq<EntryView>
    decreases ops.len(),
{
    if ops.len() == 0 {
        s
    } else {
        let o = ops.last();
        after_put(put_all(s, ops.drop_last(), ttl, cap), o.0, o.1, o.2, ttl, cap)
    }
}

/// The entries that `ops` write: each with its expiry in place of its time.
pub open spec fn stamped(ops: Seq<EntryView>, ttl: u64) -> Seq<EntryView> {
    ops.map_values(|o: EntryView| (o.0, o.1, expiry(o.2, ttl)))
}

/// The last `cap` entries of `s` (all of them when there are fewer).
pub open spec fn newest(s: Seq<EntryView>, cap: nat) -> Seq<EntryView> {
    if s.len() > cap {
        s.subrange(s.len() - cap, s.len() as int)
    } else {
        s
    }
}

/// What a sequence of puts needs for the chain laws: distinct keys, times
/// that never go back, and all of them within the first entry's lifetime.
pub open spec fn fresh_timely_puts(ops: Seq<EntryView>, ttl: u64) -> bool {
    &&& forall|i: int, j: int| 0 <= i < ops.len() && 0 <= j < ops.len() && i != j ==> #[trigger] ops[i].0 != #[trigger] ops[j].0
    &&& forall|i: int, j: int| 0 <= i <= j < ops.len() ==> #[trigger] ops[i].2 <= #[trigger] ops[j].2
    &&& forall|i: int| 0 <= i < ops.len() ==> #[trigger] ops[i].2 <= expiry(ops[0].2, ttl)
}

proof fn lemma_put_all_newest(ops: Seq<EntryView>, ttl: u64, cap: nat)
    requires
        fresh_timely_puts(ops, ttl),
    ensures
        put_all(Seq::empty(), ops, ttl, cap) == newest(stamped(ops, ttl), cap),
    decreases ops.len(),
{
    if ops.len() == 0 {
        assert(stamped(ops, ttl) =~= Seq::<EntryView>::empty());
    } else {
        let p = ops.drop_last();
        let o = ops.last();
        let n = ops.len() - 1;
        assert(o == ops[n]);
        assert(fresh_timely_puts(p, ttl)) by {
            assert forall|i: int| 0 <= i < p.len() implies #[trigger] p[i].2 <= expiry(p[0].2, ttl) by {
                assert(p[i] == ops[i] && p[0] == ops[0]);
            }
            assert forall|i: int, j: int| 0 <= i < p.len() && 0 <= j < p.len() && i != j implies #[trigger] p[i].0 != #[trigger] p[j].0 by {
                assert(p[i] == ops[i] && p[j] == ops[j]);
            }
            assert forall|i: int, j: int| 0 <= i <= j < p.len() implies #[trigger] p[i].2 <= #[trigger] p[j].2 by {
                assert(p[i] == ops[i] && p[j] == ops[j]);
            }
        }
        lemma_put_all_newest(p, ttl, cap);
        let sp = stamped(p, ttl);
        let big = newest(sp, cap);
        let e = (o.0, o.1, expiry(o.2, ttl));
        let off = sp.len() - big.len();
        assert forall|i: int| 0 <= i < big.len() implies big[i] == sp[i + off] by {}
        assert forall|i: int| 0 <= i < big.len() implies !expired(#[trigger] big[i], o.2) by {
            assert(big[i] == sp[i + off]);
            assert(sp[i + off] == (ops[i + off].0, ops[i + off].1, expiry(ops[i + off].2, ttl)));
            assert(ops[0].2 <= ops[i + off].2);
        }
        lemma_live_all_alive(big, o.2);
        assert(!has_key(big, o.0)) by {
            if has_key(big, o.0) {
                let i = choose|i: int| 0 <= i < big.len() && #[trigger] big[i].0 == o.0;
                assert(big[i] == sp[i + off]);
                assert(sp[i + off].0 == ops[i + off].0);
                assert(i + off != n);
            }
        }
        assert(stamped(ops, ttl) =~= sp.push(e));
        assert(newest(sp.push(e), cap) =~= newest(big.push(e), cap));
    }
}

/// From an empty cache, a run of puts of distinct keys whose times never go
/// back and stay within the first entry's lifetime leaves exactly the newest
/// `cap` of them, in order: with `cap + 1` puts the cache holds `cap` keys
/// and the first, least recently touched key is the one evicted.
pub proof fn law_puts_keep_newest(ops: Seq<EntryView>, ttl: u64, cap: nat)
    requires
        fresh_timely_puts(ops, ttl),
    ensures
        put_all(Seq::empty(), ops, ttl, cap) == newest(stamped(ops, ttl), cap),
        ops.len() == cap + 1 ==> put_all(Seq::empty(), ops, ttl, cap).len() == cap
            && put_all(Seq::empty(), ops, ttl, cap) == stamped(ops, ttl).drop_first()
            && !has_key(put_all(Seq::empty(), ops, ttl, cap), ops[0].0),
{
    lemma_put_all_newest(ops, ttl, cap);
    if ops.len() == cap + 1 {
        let r = put_all(Seq::empty(), ops, ttl, cap);
        assert(r =~= stamped(ops, ttl).drop_first());
        if has_key(r, ops[0].0) {
            let i = choose|i: int| 0 <= i < r.len() && #[trigger] r[i].0 == ops[0].0;
            assert(r[i] == stamped(ops, ttl)[i + 1]);
            assert(ops[i + 1].0 != ops[0].0);
        }
    }
}

} // verus!
