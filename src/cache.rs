//! A TTL cache of tool output, keyed by invocation.
//!
//! Time is a Unix timestamp in nanoseconds. An entry stamped at `now` expires
//! at `now` plus the cache's TTL; it is valid while the current time is
//! strictly before its expiry, and absent to every reader afterwards.
use vstd::prelude::*;
use crate::text::{has_prefix, starts_with};

verus! {

pub const NANOS_PER_SECOND: i128 = 1_000_000_000;

/// `x` held to the range of `i128`.
pub open spec fn clamp_i128(x: int) -> int {
    if x > i128::MAX {
        i128::MAX as int
    } else if x < i128::MIN {
        i128::MIN as int
    } else {
        x
    }
}

/// The expiry of an entry stamped at `now` by a cache whose TTL is
/// `ttl_seconds`.
pub open spec fn expiry_after(now: int, ttl_seconds: int) -> int {
    clamp_i128(now + ttl_seconds * NANOS_PER_SECOND)
}

/// What a cache holds for one key: the expiry and the payload.
pub type EntryView = (int, Seq<char>);

/// The payload that a read of `key` at time `now` sees in `m`.
pub open spec fn lookup_at(m: Map<Seq<char>, EntryView>, key: Seq<char>, now: int) -> Option<
    Seq<char>,
> {
    if m.contains_key(key) && now < m[key].0 {
        Some(m[key].1)
    } else {
        None
    }
}

pub open spec fn opt_view(o: Option<String>) -> Option<Seq<char>> {
    match o {
        Some(s) => Some(s@),
        None => None,
    }
}

/// One cached payload and the instant at which it stops being valid.
#[derive(Debug)]
pub struct CacheEntry {
    pub expiry: i128,
    pub content: String,
}

impl CacheEntry {
    pub open spec fn view(&self) -> EntryView {
        (self.expiry as int, self.content@)
    }
}

pub open spec fn entry_view(o: Option<CacheEntry>) -> Option<EntryView> {
    match o {
        Some(e) => Some(e.view()),
        None => None,
    }
}

struct Slot {
    key: String,
    entry: CacheEntry,
}

/// Output of past invocations, each valid for `ttl_seconds` after it was
/// stored.
pub struct Cache {
    ttl_seconds: i64,
    slots: Vec<Slot>,
    contents: Ghost<Map<Seq<char>, EntryView>>,
}

/// The expiry of an entry stamped at `now`.
fn expiry_for(now: i128, ttl_seconds: i64) -> (r: i128)
    ensures
        r == expiry_after(now as int, ttl_seconds as int),
{
    let ttl: i128 = (ttl_seconds as i128) * NANOS_PER_SECOND;
    match now.checked_add(ttl) {
        Some(e) => e,
        None => {
            if ttl > 0 {
                i128::MAX
            } else {
                i128::MIN
            }
        },
    }
}

impl Cache {
    /// The entries, by key.
    pub closed spec fn view(&self) -> Map<Seq<char>, EntryView> {
        self.contents@
    }

    pub closed spec fn ttl(&self) -> int {
        self.ttl_seconds as int
    }

    /// Keys are unique and the slots hold exactly the entries of the view.
    pub closed spec fn well_formed(&self) -> bool {
        &&& forall|i: int, j: int|
            0 <= i < j < self.slots@.len() ==> self.slots@[i].key@ != self.slots@[j].key@
        &&& forall|i: int|
            0 <= i < self.slots@.len() ==> #[trigger] self.contents@.contains_key(
                self.slots@[i].key@,
            ) && self.contents@[self.slots@[i].key@] == self.slots@[i].entry.view()
        &&& forall|k: Seq<char>|
            #[trigger] self.contents@.contains_key(k) ==> exists|i: int|
                0 <= i < self.slots@.len() && self.slots@[i].key@ == k
    }

    /// An empty cache whose entries live for `ttl_seconds`.
    pub fn new(ttl_seconds: i64) -> (r: Cache)
        ensures
            r.well_formed(),
            r@ == Map::<Seq<char>, EntryView>::empty(),
            r.ttl() == ttl_seconds,
    {
        Cache { ttl_seconds, slots: Vec::new(), contents: Ghost(Map::empty()) }
    }

    pub fn ttl_seconds(&self) -> (r: i64)
        ensures
            r == self.ttl(),
    {
        self.ttl_seconds
    }

    /// The index of the slot holding `key`, if any.
    fn find(&self, key: &String) -> (r: Option<usize>)
        requires
            self.well_formed(),
        ensures
            match r {
                Some(i) => i < self.slots@.len() && self.slots@[i as int].key@ == key@,
                None => !self@.contains_key(key@),
            },
    {
        let mut i: usize = 0;
        while i < self.slots.len()
            invariant
                self.well_formed(),
                i <= self.slots@.len(),
                forall|j: int| 0 <= j < i ==> self.slots@[j].key@ != key@,
            decreases self.slots@.len() - i,
        {
            if self.slots[i].key == *key {
                return Some(i);
            }
            i = i + 1;
        }
        None
    }

    /// The payload stored under `key`, if it is still valid at `now`.
    pub fn get(&self, key: &str, now: i128) -> (r: Option<String>)
        requires
            self.well_formed(),
        ensures
            opt_view(r) == lookup_at(self@, key@, now as int),
    {
        let k = String::from_str(key);
        match self.find(&k) {
            Some(i) => {
                let entry = &self.slots[i].entry;
                if now < entry.expiry {
                    Some(entry.content.clone())
                } else {
                    None
                }
            },
            None => None,
        }
    }

    /// Stores `content` under `key`, valid for the TTL from `now`, and returns
    /// the entry it replaces.
    pub fn set(&mut self, key: String, content: String, now: i128) -> (r: Option<CacheEntry>)
        requires
            old(self).well_formed(),
        ensures
            final(self).well_formed(),
            final(self).ttl() == old(self).ttl(),
            final(self)@ == old(self)@.insert(
                key@,
                (expiry_after(now as int, old(self).ttl()), content@),
            ),
            entry_view(r) == (if old(self)@.contains_key(key@) {
                Some(old(self)@[key@])
            } else {
                None
            }),
    {
        let expiry = expiry_for(now, self.ttl_seconds);
        let ghost kv = key@;
        let ghost ev: EntryView = (expiry as int, content@);
        let entry = CacheEntry { expiry, content };
        match self.find(&key) {
            Some(i) => {
                let ghost old_slots = self.slots@;
                let slot = Slot { key, entry };
                let prev = self.slots.remove(i);
                self.slots.insert(i, slot);
                proof {
                    assert(self.slots@ =~= old_slots.update(i as int, self.slots@[i as int]));
                    self.contents@ = self.contents@.insert(kv, ev);
                    assert forall|k: Seq<char>| #[trigger]
                        self.contents@.contains_key(k) implies exists|j: int|
                        0 <= j < self.slots@.len() && self.slots@[j].key@ == k by {
                        if k != kv {
                            let j = choose|j: int|
                                0 <= j < old_slots.len() && old_slots[j].key@ == k;
                            assert(self.slots@[j].key@ == k);
                        } else {
                            assert(self.slots@[i as int].key@ == k);
                        }
                    }
                }
                Some(prev.entry)
            },
            None => {
                let ghost old_slots = self.slots@;
                self.slots.push(Slot { key, entry });
                proof {
                    self.contents@ = self.contents@.insert(kv, ev);
                    assert forall|k: Seq<char>| #[trigger]
                        self.contents@.contains_key(k) implies exists|j: int|
                        0 <= j < self.slots@.len() && self.slots@[j].key@ == k by {
                        if k != kv {
                            let j = choose|j: int|
                                0 <= j < old_slots.len() && old_slots[j].key@ == k;
                            assert(self.slots@[j].key@ == k);
                        } else {
                            assert(self.slots@[old_slots.len() as int].key@ == k);
                        }
                    }
                }
                None
            },
        }
    }

    /// Drops the entry stored under `key` and returns it.
    pub fn remove(&mut self, key: &str) -> (r: Option<CacheEntry>)
        requires
            old(self).well_formed(),
        ensures
            final(self).well_formed(),
            final(self).ttl() == old(self).ttl(),
            final(self)@ == old(self)@.remove(key@),
            entry_view(r) == (if old(self)@.contains_key(key@) {
                Some(old(self)@[key@])
            } else {
                None
            }),
    {
        let k = String::from_str(key);
        match self.find(&k) {
            Some(i) => {
                let ghost old_slots = self.slots@;
                let slot = self.slots.remove(i);
                proof {
                    let kv = key@;
                    self.contents@ = self.contents@.remove(kv);
                    assert forall|j: int| 0 <= j < self.slots@.len() implies
                        #[trigger] self.contents@.contains_key(self.slots@[j].key@)
                        && self.contents@[self.slots@[j].key@] == self.slots@[j].entry.view() by {
                        if j < i {
                            assert(self.slots@[j] == old_slots[j]);
                        } else {
                            assert(self.slots@[j] == old_slots[j + 1]);
                        }
                    }
                    assert forall|k: Seq<char>| #[trigger]
                        self.contents@.contains_key(k) implies exists|j: int|
                        0 <= j < self.slots@.len() && self.slots@[j].key@ == k by {
                        let j = choose|j: int|
                            0 <= j < old_slots.len() && old_slots[j].key@ == k;
                        if j < i {
                            assert(self.slots@[j].key@ == k);
                        } else {
                            assert(j != i);
                            assert(self.slots@[j - 1].key@ == k);
                        }
                    }
                }
                Some(slot.entry)
            },
            None => {
                proof {
                    assert(self.contents@.remove(key@) =~= self.contents@);
                }
                None
            },
        }
    }

    /// Drops every entry whose key starts with `prefix`, as invalidation
    /// after a change to what those invocations report.
    pub fn remove_prefix(&mut self, prefix: &str)
        requires
            old(self).well_formed(),
        ensures
            final(self).well_formed(),
            final(self).ttl() == old(self).ttl(),
            final(self)@ == old(self)@.restrict(
                old(self)@.dom().filter(|k: Seq<char>| !has_prefix(k, prefix@)),
            ),
    {
        let ghost old_slots = self.slots@;
        let ghost old_map = self.contents@;
        let ghost ttl = self.ttl_seconds;
        let mut kept: Vec<Slot> = Vec::new();
        let mut idx: Ghost<Seq<int>> = Ghost(Seq::empty());
        let n = self.slots.len();
        let mut i: usize = 0;
        while i < n
            invariant
                self.ttl_seconds == ttl,
                n == old_slots.len(),
                i <= n,
                self.slots@.len() == n - i,
                forall|j: int| 0 <= j < n - i ==> self.slots@[j] == old_slots[j + i],
                kept@.len() == idx@.len(),
                forall|a: int| 0 <= a < idx@.len() ==> 0 <= #[trigger] idx@[a] < i,
                forall|a: int, b: int| 0 <= a < b < idx@.len() ==> idx@[a] < idx@[b],
                forall|a: int|
                    0 <= a < kept@.len() ==> kept@[a] == old_slots[#[trigger] idx@[a]]
                        && !has_prefix(kept@[a].key@, prefix@),
                forall|j: int|
                    0 <= j < i && !has_prefix(#[trigger] old_slots[j].key@, prefix@) ==> exists|a: int|
                        0 <= a < idx@.len() && idx@[a] == j,
            decreases n - i,
        {
            let ghost before = self.slots@;
            let slot = self.slots.remove(0);
            proof {
                assert(slot == old_slots[i as int]);
                assert forall|j: int| 0 <= j < n - i - 1 implies self.slots@[j] == old_slots[j + i + 1] by {
                    assert(self.slots@[j] == before[j + 1]);
                }
            }
            let ghost idx_before = idx@;
            if !starts_with(slot.key.as_str(), prefix) {
                kept.push(slot);
                proof {
                    idx@ = idx@.push(i as int);
                }
            }
            proof {
                assert forall|j: int|
                    0 <= j < i + 1 && !has_prefix(#[trigger] old_slots[j].key@, prefix@) implies exists|a: int|
                        0 <= a < idx@.len() && idx@[a] == j by {
                    if j == i {
                        assert(idx@[idx@.len() - 1] == j);
                    } else {
                        let a = choose|a: int| 0 <= a < idx_before.len() && idx_before[a] == j;
                        assert(idx@[a] == j);
                    }
                }
            }
            i = i + 1;
        }
        self.slots = kept;
        proof {
            let new_map = old_map.restrict(old_map.dom().filter(|k: Seq<char>| !has_prefix(k, prefix@)));
            self.contents@ = new_map;
            assert forall|a: int, b: int|
                0 <= a < b < self.slots@.len() implies self.slots@[a].key@ != self.slots@[b].key@ by {
                assert(idx@[a] < idx@[b]);
            }
            assert forall|a: int| 0 <= a < self.slots@.len() implies
                #[trigger] self.contents@.contains_key(self.slots@[a].key@)
                && self.contents@[self.slots@[a].key@] == self.slots@[a].entry.view() by {
                let j = idx@[a];
                assert(old_map.contains_key(old_slots[j].key@));
            }
            assert forall|k: Seq<char>| #[trigger]
                self.contents@.contains_key(k) implies exists|a: int|
                0 <= a < self.slots@.len() && self.slots@[a].key@ == k by {
                let j = choose|j: int| 0 <= j < old_slots.len() && old_slots[j].key@ == k;
                assert(!has_prefix(old_slots[j].key@, prefix@));
                let a = choose|a: int| 0 <= a < idx@.len() && idx@[a] == j;
                assert(self.slots@[a].key@ == k);
            }
        }
    }
}

/// Two reads of one key with no write in between, both before the entry
/// expires, see the same payload; any read at or after its expiry sees
/// nothing.
pub proof fn lemma_cache_coherence(c: Cache, key: Seq<char>, t1: int, t2: int)
    requires
        c@.contains_key(key),
    ensures
        t1 < c@[key].0 && t2 < c@[key].0 ==> lookup_at(c@, key, t1) == lookup_at(c@, key, t2)
            && lookup_at(c@, key, t1) == Some(c@[key].1),
        t1 >= c@[key].0 ==> lookup_at(c@, key, t1) is None,
{
}

/// A payload stored at `t0` is read back until the TTL has elapsed, and is
/// absent from then on, whatever is done to other keys meanwhile.
pub proof fn lemma_set_then_get(
    m: Map<Seq<char>, EntryView>,
    key: Seq<char>,
    content: Seq<char>,
    ttl_seconds: int,
    t0: int,
    other: Map<Seq<char>, EntryView>,
    t: int,
)
    requires
        other.contains_key(key),
        other[key] == m.insert(key, (expiry_after(t0, ttl_seconds), content))[key],
        i128::MIN <= t0 + ttl_seconds * NANOS_PER_SECOND <= i128::MAX,
    ensures
        lookup_at(other, key, t) == (if t < t0 + ttl_seconds * NANOS_PER_SECOND {
            Some(content)
        } else {
            None
        }),
{
}

} // verus!
