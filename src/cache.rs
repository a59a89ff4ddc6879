use vstd::prelude::*;

verus! {

/// What the store holds for a key: the value and, if any, the absolute expiry
/// instant in milliseconds since the epoch.
pub type Stored = (Seq<char>, Option<u128>);

/// Whether a stored entry is still alive at `now`: one without an expiry
/// never expires, one with an expiry is dead once `now` is past it.
pub open spec fn is_live(e: Stored, now: u128) -> bool {
    match e.1 {
        None => true,
        Some(x) => now <= x,
    }
}

/// The value that a read of `k` at `now` sees.
pub open spec fn lookup(m: Map<Seq<char>, Stored>, k: Seq<char>, now: u128) -> Option<Seq<char>> {
    if m.contains_key(k) && is_live(m[k], now) {
        Some(m[k].0)
    } else {
        None
    }
}

/// The mapping after a read of `k` at `now`: a dead entry for `k` is dropped.
pub open spec fn after_get(m: Map<Seq<char>, Stored>, k: Seq<char>, now: u128) -> Map<
    Seq<char>,
    Stored,
> {
    if m.contains_key(k) && !is_live(m[k], now) {
        m.remove(k)
    } else {
        m
    }
}

/// The absolute expiry for a relative one given at `now`, saturating at the
/// largest instant.
pub open spec fn expiry_at(ms: Option<u128>, now: u128) -> Option<u128> {
    match ms {
        None => None,
        Some(d) => Some(
            if now + d > u128::MAX {
                u128::MAX
            } else {
                (now + d) as u128
            },
        ),
    }
}

pub open spec fn opt_chars(o: Option<String>) -> Option<Seq<char>> {
    match o {
        Some(s) => Some(s@),
        None => None,
    }
}

struct CacheEntry {
    key: String,
    value: String,
    expiry: Option<u128>,
}

/// A key-value store whose entries may expire. Expired entries are dropped
/// lazily, when a read of their key finds them dead.
pub struct ExpiringCache {
    entries: Vec<CacheEntry>,
    model: Ghost<Map<Seq<char>, Stored>>,
}

impl View for ExpiringCache {
    type V = Map<Seq<char>, Stored>;

    closed spec fn view(&self) -> Map<Seq<char>, Stored> {
        self.model@
    }
}

/// Relies on `SystemTime::now` and `SystemTime::duration_since`: the wall
/// clock in milliseconds since the Unix epoch (zero for a clock set before it).
#[verifier::external_body]
pub(crate) fn now_millis() -> (r: u128) {
    std::time::SystemTime::now().duration_since(std::time::UNIX_EPOCH).unwrap_or_default().as_millis()
}

impl ExpiringCache {
    /// The entries and the mapping agree, keys are unique, and the mapping
    /// has one key per entry.
    pub closed spec fn wf(&self) -> bool {
        let e = self.entries@;
        let m = self.model@;
        &&& forall|i: int|
            0 <= i < e.len() ==> #[trigger] m.contains_key(e[i].key@) && m[e[i].key@] == (
            e[i].value@,
            e[i].expiry,
        )
        &&& forall|k: Seq<char>| #[trigger]
            m.contains_key(k) ==> exists|i: int| 0 <= i < e.len() && e[i].key@ == k
        &&& forall|i: int, j: int|
            0 <= i < e.len() && 0 <= j < e.len() && i != j ==> #[trigger] e[i].key@
                != #[trigger] e[j].key@
        &&& m.dom().finite()
        &&& m.dom().len() == e.len()
    }

    /// An empty store.
    pub fn new() -> (r: Self)
        ensures
            r.wf(),
            r@ == Map::<Seq<char>, Stored>::empty(),
    {
        ExpiringCache { entries: Vec::new(), model: Ghost(Map::empty()) }
    }

    /// The number of entries held, dead ones not yet dropped included.
    pub fn len(&self) -> (r: usize)
        requires
            self.wf(),
        ensures
            r == self@.dom().len(),
    {
        self.entries.len()
    }

    fn find(&self, key: &String) -> (r: Option<usize>)
        requires
            self.wf(),
        ensures
            match r {
                Some(i) => i < self.entries@.len() && self.entries@[i as int].key@ == key@,
                None => !self@.contains_key(key@),
            },
    {
        let mut i: usize = 0;
        while i < self.entries.len()
            invariant
                i <= self.entries@.len(),
                forall|k: int| 0 <= k < i ==> self.entries@[k].key@ != key@,
            decreases self.entries@.len() - i,
        {
            if self.entries[i].key == *key {
                return Some(i);
            }
            i = i + 1;
        }
        None
    }

    /// Reads `key` at instant `now`. A live entry gives its value; a dead one
    /// is dropped and gives nothing.
    pub fn get_at(&mut self, key: &String, now: u128) -> (r: Option<String>)
        requires
            old(self).wf(),
        ensures
            final(self).wf(),
            opt_chars(r) == lookup(old(self)@, key@, now),
            final(self)@ == after_get(old(self)@, key@, now),
    {
        match self.find(key) {
            None => None,
            Some(i) => {
                proof {
                    let e = self.entries@;
                    assert(self.model@.contains_key(e[i as int].key@));
                }
                let live = match self.entries[i].expiry {
                    None => true,
                    Some(x) => now <= x,
                };
                if live {
                    Some(self.entries[i].value.clone())
                } else {
                    let ghost old_e = self.entries@;
                    let ghost m = self.model@;
                    self.entries.remove(i);
                    self.model = Ghost(m.remove(key@));
                    proof {
                        let e = self.entries@;
                        assert forall|j: int| 0 <= j < e.len() implies #[trigger] self.model@.contains_key(
                            e[j].key@,
                        ) && self.model@[e[j].key@] == (e[j].value@, e[j].expiry) by {
                            let j0 = if j < i { j } else { j + 1 };
                            assert(e[j] == old_e[j0]);
                            assert(old_e[j0].key@ != old_e[i as int].key@);
                            assert(m.contains_key(old_e[j0].key@));
                        }
                        assert forall|k: Seq<char>| #[trigger]
                            self.model@.contains_key(k) implies exists|j: int|
                            0 <= j < e.len() && e[j].key@ == k by {
                            let w = choose|w: int| 0 <= w < old_e.len() && old_e[w].key@ == k;
                            if w < i {
                                assert(e[w] == old_e[w]);
                            } else {
                                assert(e[w - 1] == old_e[w]);
                            }
                        }
                        assert forall|a: int, b: int|
                            0 <= a < e.len() && 0 <= b < e.len() && a != b implies #[trigger] e[a].key@
                            != #[trigger] e[b].key@ by {
                            let a0 = if a < i { a } else { a + 1 };
                            let b0 = if b < i { b } else { b + 1 };
                            assert(e[a] == old_e[a0]);
                            assert(e[b] == old_e[b0]);
                        }
                    }
                    None
                }
            },
        }
    }

    /// Stores `value` under `key` at instant `now`, replacing whatever the key
    /// held; with `expiry_ms` the entry dies that many milliseconds after `now`.
    pub fn set_at(&mut self, key: String, value: String, expiry_ms: Option<u128>, now: u128)
        requires
            old(self).wf(),
        ensures
            final(self).wf(),
            final(self)@ == old(self)@.insert(key@, (value@, expiry_at(expiry_ms, now))),
    {
        let expiry = match expiry_ms {
            Some(d) => Some(now.saturating_add(d)),
            None => None,
        };
        let ghost m = self.model@;
        let ghost old_e = self.entries@;
        let ghost kv = key@;
        let ghost stored = (value@, expiry);
        match self.find(&key) {
            Some(i) => {
                self.entries.set(i, CacheEntry { key, value, expiry });
                self.model = Ghost(m.insert(kv, stored));
                proof {
                    let e = self.entries@;
                    assert forall|j: int| 0 <= j < e.len() implies #[trigger] self.model@.contains_key(
                        e[j].key@,
                    ) && self.model@[e[j].key@] == (e[j].value@, e[j].expiry) by {
                        if j != i {
                            assert(e[j] == old_e[j]);
                        }
                    }
                    assert forall|k: Seq<char>| #[trigger]
                        self.model@.contains_key(k) implies exists|j: int|
                        0 <= j < e.len() && e[j].key@ == k by {
                        if k != kv {
                            let w = choose|w: int| 0 <= w < old_e.len() && old_e[w].key@ == k;
                            assert(e[w] == old_e[w]);
                        } else {
                            assert(e[i as int].key@ == k);
                        }
                    }
                    assert forall|a: int, b: int|
                        0 <= a < e.len() && 0 <= b < e.len() && a != b implies #[trigger] e[a].key@
                        != #[trigger] e[b].key@ by {
                        if a != i {
                            assert(e[a] == old_e[a]);
                        }
                        if b != i {
                            assert(e[b] == old_e[b]);
                        }
                    }
                    assert(self.model@.dom() =~= m.dom());
                }
            },
            None => {
                self.entries.push(CacheEntry { key, value, expiry });
                self.model = Ghost(m.insert(kv, stored));
                proof {
                    let e = self.entries@;
                    let n = old_e.len() as int;
                    assert forall|j: int| 0 <= j < e.len() implies #[trigger] self.model@.contains_key(
                        e[j].key@,
                    ) && self.model@[e[j].key@] == (e[j].value@, e[j].expiry) by {
                        if j < n {
                            assert(e[j] == old_e[j]);
                        }
                    }
                    assert forall|k: Seq<char>| #[trigger]
                        self.model@.contains_key(k) implies exists|j: int|
                        0 <= j < e.len() && e[j].key@ == k by {
                        if k != kv {
                            let w = choose|w: int| 0 <= w < old_e.len() && old_e[w].key@ == k;
                            assert(e[w] == old_e[w]);
                        } else {
                            assert(e[n].key@ == k);
                        }
                    }
                    assert forall|a: int, b: int|
                        0 <= a < e.len() && 0 <= b < e.len() && a != b implies #[trigger] e[a].key@
                        != #[trigger] e[b].key@ by {
                        if a < n {
                            assert(e[a] == old_e[a]);
                        }
                        if b < n {
                            assert(e[b] == old_e[b]);
                        }
                    }
                }
            },
        }
    }
}

} // verus!
