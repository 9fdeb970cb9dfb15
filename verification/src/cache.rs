//! The secrets that the daemon holds, each with the moment it lapses, if any.

use vstd::prelude::*;

use crate::protocol::Entry;
use crate::text;
use crate::time::{Duration, Instant};

verus! {

/// A cached secret: its bytes, and the clock reading at which it lapses.
pub struct Held {
    pub value: Seq<u8>,
    pub expires_at: Option<nat>,
}

/// What a cache holds, by key.
pub type Contents = Map<Seq<char>, Held>;

impl Held {
    /// The secret's time is over at `now`.
    pub open spec fn lapsed(self, now: Instant) -> bool {
        self.expires_at matches Some(t) && t <= now.nanos
    }
}

/// A secret that is there and has not lapsed.
pub open spec fn live(m: Contents, key: Seq<char>, now: Instant) -> bool {
    m.contains_key(key) && !m[key].lapsed(now)
}

/// What a lookup answers.
pub open spec fn found(m: Contents, key: Seq<char>, now: Instant) -> Option<Seq<u8>> {
    if live(m, key, now) {
        Some(m[key].value)
    } else {
        None
    }
}

/// What a lookup leaves behind: a secret that it finds lapsed is dropped.
pub open spec fn after_get(m: Contents, key: Seq<char>, now: Instant) -> Contents {
    if m.contains_key(key) && m[key].lapsed(now) {
        m.remove(key)
    } else {
        m
    }
}

/// The clock reading at which a secret stored at `now` lapses.
pub open spec fn expiry(ttl: Option<Duration>, now: Instant) -> Option<nat> {
    match ttl {
        Some(t) => Some(now.nanos as nat + t.total()),
        None => None,
    }
}

/// What storing a secret leaves behind.
pub open spec fn after_put(
    m: Contents,
    key: Seq<char>,
    value: Seq<u8>,
    ttl: Option<Duration>,
    now: Instant,
) -> Contents {
    m.insert(key, Held { value, expires_at: expiry(ttl, now) })
}

/// The keys whose secrets a lookup would find.
pub open spec fn live_keys(m: Contents, now: Instant) -> Set<Seq<char>> {
    Set::new(|k: Seq<char>| live(m, k, now))
}

/// Each text comes before all that follow it, so none stands twice.
pub open spec fn ascending(keys: Seq<Seq<char>>) -> bool {
    forall|i: int, j: int|
        0 <= i < j < keys.len() ==> text::precedes(#[trigger] keys[i], #[trigger] keys[j])
}

/// A byte that reads as one visible character or a blank.
pub open spec fn printable(b: u8) -> bool {
    0x20 <= b <= 0x7e
}

/// The visible characters that a value begins with, no more than `limit` of them.
pub open spec fn visible(value: Seq<u8>, limit: nat) -> Seq<char>
    decreases limit,
{
    if limit == 0 || value.len() == 0 || !printable(value[0]) {
        Seq::empty()
    } else {
        seq![value[0] as char] + visible(value.drop_first(), (limit - 1) as nat)
    }
}

/// How many characters of a value may be shown: a quarter of it, four at most.
pub open spec fn peek_limit(len: nat) -> nat {
    if len / 4 < 4 {
        len / 4
    } else {
        4
    }
}

/// What is shown of a value: a few characters from its beginning, then a mask
/// that is the same whatever follows.
pub open spec fn preview(value: Seq<u8>) -> Seq<char> {
    visible(value, peek_limit(value.len())) + "••••"@
}

/// The whole seconds until a secret lapses, as far as the count goes.
pub open spec fn secs_left(expires_at: Option<nat>, now: Instant) -> Option<u64> {
    match expires_at {
        Some(t) => Some(
            if t < now.nanos {
                0
            } else if (t - now.nanos) / 1_000_000_000 > u64::MAX {
                u64::MAX
            } else {
                ((t - now.nanos) / 1_000_000_000) as u64
            },
        ),
        None => None,
    }
}

/// What may be shown of the secret under the entry's key.
pub open spec fn shows(entry: Entry, m: Contents, now: Instant) -> bool {
    &&& entry.preview@ == preview(m[entry.key@].value)
    &&& entry.expires_in_secs == secs_left(m[entry.key@].expires_at, now)
}

/// The keys of a list of entries.
pub open spec fn entry_keys(entries: Seq<Entry>) -> Seq<Seq<char>> {
    Seq::new(entries.len(), |i: int| entries[i].key@)
}

struct Slot {
    key: String,
    value: Vec<u8>,
    expires_at: Option<Instant>,
}

impl Slot {
    spec fn held(self) -> Held {
        Held {
            value: self.value@,
            expires_at: match self.expires_at {
                Some(t) => Some(t.nanos as nat),
                None => None,
            },
        }
    }
}

spec fn has(slots: Seq<Slot>, key: Seq<char>) -> bool {
    exists|i: int| 0 <= i < slots.len() && (#[trigger] slots[i]).key@ == key
}

spec fn at(slots: Seq<Slot>, key: Seq<char>) -> int {
    choose|i: int| 0 <= i < slots.len() && (#[trigger] slots[i]).key@ == key
}

spec fn contents(slots: Seq<Slot>) -> Contents {
    Map::new(|k: Seq<char>| has(slots, k), |k: Seq<char>| slots[at(slots, k)].held())
}

/// The keys stand in order, so none stands twice.
spec fn ordered(slots: Seq<Slot>) -> bool {
    forall|i: int, j: int|
        0 <= i < j < slots.len() ==> text::precedes(#[trigger] slots[i].key@, #[trigger] slots[j].key@)
}

proof fn distinct(slots: Seq<Slot>, i: int, j: int)
    requires
        ordered(slots),
        0 <= i < slots.len(),
        0 <= j < slots.len(),
        slots[i].key@ == slots[j].key@,
    ensures
        i == j,
{
    text::precedes_irreflexive(slots[i].key@);
}

proof fn slot_held(slots: Seq<Slot>, i: int)
    requires
        ordered(slots),
        0 <= i < slots.len(),
    ensures
        contents(slots).contains_key(slots[i].key@),
        contents(slots)[slots[i].key@] == slots[i].held(),
{
    let key = slots[i].key@;
    assert(has(slots, key));
    distinct(slots, at(slots, key), i);
}

/// The secrets, kept in the order of their keys.
pub struct Cache {
    slots: Vec<Slot>,
}

impl View for Cache {
    type V = Contents;

    closed spec fn view(&self) -> Contents {
        contents(self.slots@)
    }
}

impl Default for Cache {
    /// A cache that holds nothing.
    fn default() -> (cache: Cache)
        ensures
            cache.wf(),
            cache@ == Map::<Seq<char>, Held>::empty(),
    {
        let cache = Cache { slots: Vec::new() };
        assert(cache@ =~= Map::<Seq<char>, Held>::empty());
        cache
    }
}

impl Cache {
    /// No key stands twice.
    pub closed spec fn wf(&self) -> bool {
        ordered(self.slots@)
    }

    /// Where `key` stands, or would stand.
    fn locate(&self, key: &str) -> (i: usize)
        requires
            self.wf(),
        ensures
            i <= self.slots@.len(),
            forall|j: int| 0 <= j < i ==> text::precedes(#[trigger] self.slots@[j].key@, key@),
            forall|j: int| i <= j < self.slots@.len() ==> !text::precedes(#[trigger] self.slots@[j].key@, key@),
    {
        let mut low: usize = 0;
        let mut high: usize = self.slots.len();
        while low < high
            invariant
                low <= high <= self.slots@.len(),
                ordered(self.slots@),
                forall|j: int| 0 <= j < low ==> text::precedes(#[trigger] self.slots@[j].key@, key@),
                forall|j: int|
                    high <= j < self.slots@.len() ==> !text::precedes(#[trigger] self.slots@[j].key@, key@),
            decreases high - low,
        {
            let mid = low + (high - low) / 2;
            if text::is_before(self.slots[mid].key.as_str(), key) {
                proof {
                    assert forall|j: int| 0 <= j <= mid implies text::precedes(
                        #[trigger] self.slots@[j].key@,
                        key@,
                    ) by {
                        if j < mid {
                            text::precedes_transitive(self.slots@[j].key@, self.slots@[mid as int].key@, key@);
                        }
                    }
                }
                low = mid + 1;
            } else {
                proof {
                    assert forall|j: int| mid <= j < self.slots@.len() implies !text::precedes(
                        #[trigger] self.slots@[j].key@,
                        key@,
                    ) by {
                        if mid < j && text::precedes(self.slots@[j].key@, key@) {
                            text::precedes_transitive(self.slots@[mid as int].key@, self.slots@[j].key@, key@);
                        }
                    }
                }
                high = mid;
            }
        }
        low
    }

    /// The slot that holds `key`, if any, as its place and true; else the place
    /// where it would go, and false.
    fn find(&self, key: &str) -> (r: (usize, bool))
        requires
            self.wf(),
        ensures
            r.0 <= self.slots@.len(),
            r.1 == self@.contains_key(key@),
            r.1 ==> r.0 < self.slots@.len() && self.slots@[r.0 as int].key@ == key@,
            forall|j: int| 0 <= j < r.0 ==> text::precedes(#[trigger] self.slots@[j].key@, key@),
            forall|j: int|
                r.0 <= j < self.slots@.len() ==> !text::precedes(#[trigger] self.slots@[j].key@, key@),
    {
        let i = self.locate(key);
        let there = i < self.slots.len() && text::same(self.slots[i].key.as_str(), key);
        proof {
            if there {
                slot_held(self.slots@, i as int);
            } else if has(self.slots@, key@) {
                let j = at(self.slots@, key@);
                text::precedes_irreflexive(key@);
                assert(j >= i);
                assert(j != i);
                assert(text::precedes(self.slots@[i as int].key@, self.slots@[j].key@));
            }
        }
        (i, there)
    }

    /// Looks a secret up; one that has lapsed is dropped and not found.
    pub fn get(&mut self, key: &str, now: Instant) -> (r: Option<&[u8]>)
        requires
            old(self).wf(),
        ensures
            final(self).wf(),
            final(self)@ == after_get(old(self)@, key@, now),
            match r {
                Some(value) => found(old(self)@, key@, now) == Some(value@),
                None => found(old(self)@, key@, now) is None,
            },
    {
        let (i, there) = self.find(key);
        if !there {
            return None;
        }
        proof {
            slot_held(self.slots@, i as int);
        }
        let lapsed = match self.slots[i].expires_at {
            Some(t) => t.nanos <= now.nanos,
            None => false,
        };
        if lapsed {
            let ghost before = self.slots@;
            self.slots.remove(i);
            proof {
                remove_slot(before, i as int);
            }
            return None;
        }
        Some(self.slots[i].value.as_slice())
    }

    /// Stores a secret under `key`, for `ttl` from `now` on or for good.
    pub fn put(&mut self, key: String, value: Vec<u8>, ttl: Option<Duration>, now: Instant)
        requires
            old(self).wf(),
            ttl matches Some(t) ==> now.nanos + t.total() <= u128::MAX,
        ensures
            final(self).wf(),
            final(self)@ == after_put(old(self)@, key@, value@, ttl, now),
    {
        let expires_at = match ttl {
            Some(t) => now.checked_add(t),
            None => None,
        };
        let (i, there) = self.find(key.as_str());
        let slot = Slot { key, value, expires_at };
        let ghost before = self.slots@;
        if there {
            self.slots[i] = slot;
            proof {
                replace_slot(before, i as int, slot);
            }
        } else {
            self.slots.insert(i, slot);
            proof {
                insert_slot(before, i as int, slot);
            }
        }
    }

    /// Drops every secret.
    pub fn clear(&mut self)
        ensures
            final(self).wf(),
            final(self)@ == Map::<Seq<char>, Held>::empty(),
    {
        self.slots.clear();
        assert(self@ =~= Map::<Seq<char>, Held>::empty());
    }

    /// Whether the secret at place `i` has not lapsed.
    fn is_live(&self, i: usize, now: Instant) -> (r: bool)
        requires
            self.wf(),
            i < self.slots@.len(),
        ensures
            r == live(self@, self.slots@[i as int].key@, now),
            self@[self.slots@[i as int].key@] == self.slots@[i as int].held(),
    {
        proof {
            slot_held(self.slots@, i as int);
        }
        match self.slots[i].expires_at {
            Some(t) => t.nanos > now.nanos,
            None => true,
        }
    }

    /// The places of the secrets that have not lapsed.
    fn live_places(&self, now: Instant) -> (r: Vec<usize>)
        requires
            self.wf(),
        ensures
            places(self.slots@, self@, now, r@),
    {
        let mut r: Vec<usize> = Vec::new();
        let mut i: usize = 0;
        while i < self.slots.len()
            invariant
                i <= self.slots@.len(),
                self.wf(),
                forall|a: int| 0 <= a < r@.len() ==> (#[trigger] r@[a]) < i,
                forall|a: int, b: int| 0 <= a < b < r@.len() ==> r@[a] < r@[b],
                forall|a: int|
                    0 <= a < r@.len() ==> live(self@, self.slots@[#[trigger] r@[a] as int].key@, now),
                forall|j: usize|
                    j < i && live(self@, (#[trigger] self.slots@[j as int]).key@, now) ==> r@.contains(j),
            decreases self.slots@.len() - i,
        {
            if self.is_live(i, now) {
                let ghost before = r@;
                r.push(i);
                proof {
                    assert forall|j: usize|
                        j <= i && live(self@, (#[trigger] self.slots@[j as int]).key@, now) implies r@.contains(
                        j,
                    ) by {
                        if j < i {
                            let a = choose|a: int| 0 <= a < before.len() && before[a] == j;
                            assert(r@[a] == j);
                        } else {
                            assert(r@[before.len() as int] == j);
                        }
                    }
                }
            }
            i = i + 1;
        }
        r
    }

    /// The keys that have not lapsed, in order.
    pub fn keys(&self, now: Instant) -> (r: Vec<String>)
        requires
            self.wf(),
        ensures
            ascending(text::views(r@)),
            text::views(r@).to_set() == live_keys(self@, now),
            r.len() == live_keys(self@, now).len(),
    {
        let at = self.live_places(now);
        let mut r: Vec<String> = Vec::new();
        let mut a: usize = 0;
        while a < at.len()
            invariant
                a <= at.len(),
                a == r.len(),
                places(self.slots@, self@, now, at@),
                forall|b: int| 0 <= b < a ==> (#[trigger] r@[b])@ == self.slots@[at@[b] as int].key@,
            decreases at.len() - a,
        {
            r.push(self.slots[at[a]].key.clone());
            a = a + 1;
        }
        proof {
            assert(text::views(r@) =~= place_keys(self.slots@, at@));
            assert(self.slots.len() == self.slots@.len());
            place_keys_live(self.slots@, now, at@);
        }
        r
    }

    /// What may be shown of the secrets that have not lapsed, in the order of
    /// their keys.
    pub fn entries(&self, now: Instant) -> (r: Vec<Entry>)
        requires
            self.wf(),
        ensures
            ascending(entry_keys(r@)),
            entry_keys(r@).to_set() == live_keys(self@, now),
            r.len() == live_keys(self@, now).len(),
            forall|i: int| 0 <= i < r.len() ==> shows(#[trigger] r@[i], self@, now),
    {
        let at = self.live_places(now);
        let mut r: Vec<Entry> = Vec::new();
        let mut a: usize = 0;
        while a < at.len()
            invariant
                a <= at.len(),
                a == r.len(),
                self.wf(),
                places(self.slots@, self@, now, at@),
                forall|b: int| 0 <= b < a ==> (#[trigger] r@[b]).key@ == self.slots@[at@[b] as int].key@,
                forall|b: int| 0 <= b < a ==> shows(#[trigger] r@[b], self@, now),
            decreases at.len() - a,
        {
            let slot = &self.slots[at[a]];
            proof {
                slot_held(self.slots@, at@[a as int] as int);
            }
            r.push(
                Entry {
                    key: slot.key.clone(),
                    preview: preview_of(&slot.value),
                    expires_in_secs: secs_until(slot.expires_at, now),
                },
            );
            a = a + 1;
        }
        proof {
            assert(entry_keys(r@) =~= place_keys(self.slots@, at@));
            assert(self.slots.len() == self.slots@.len());
            place_keys_live(self.slots@, now, at@);
        }
        r
    }
}

/// `at` holds the places of the secrets that have not lapsed, in order.
spec fn places(slots: Seq<Slot>, m: Contents, now: Instant, at: Seq<usize>) -> bool {
    &&& forall|a: int| 0 <= a < at.len() ==> (#[trigger] at[a]) < slots.len()
    &&& forall|a: int, b: int| 0 <= a < b < at.len() ==> at[a] < at[b]
    &&& forall|a: int| 0 <= a < at.len() ==> live(m, slots[#[trigger] at[a] as int].key@, now)
    &&& forall|j: usize|
        j < slots.len() && live(m, (#[trigger] slots[j as int]).key@, now) ==> at.contains(j)
}

spec fn place_keys(slots: Seq<Slot>, at: Seq<usize>) -> Seq<Seq<char>> {
    Seq::new(at.len(), |a: int| slots[at[a] as int].key@)
}

proof fn place_keys_live(slots: Seq<Slot>, now: Instant, at: Seq<usize>)
    requires
        ordered(slots),
        slots.len() <= usize::MAX,
        places(slots, contents(slots), now, at),
    ensures
        ascending(place_keys(slots, at)),
        place_keys(slots, at).to_set() == live_keys(contents(slots), now),
        at.len() == live_keys(contents(slots), now).len(),
{
    let keys = place_keys(slots, at);
    let want = live_keys(contents(slots), now);
    assert forall|k: Seq<char>| keys.to_set().contains(k) <==> want.contains(k) by {
        if want.contains(k) {
            let j = crate::cache::at(slots, k);
            assert(has(slots, k));
            assert(slots[j as usize as int].key@ == k);
            let a = choose|a: int| 0 <= a < at.len() && at[a] == j as usize;
            assert(keys[a] == k);
        }
    }
    assert(keys.to_set() =~= want);
    ascending_distinct(keys);
    keys.unique_seq_to_set();
}

/// Shows what may be shown of a value.
pub fn preview_of(value: &Vec<u8>) -> (r: String)
    ensures
        r@ == preview(value@),
{
    let limit = if value.len() / 4 < 4 {
        value.len() / 4
    } else {
        4
    };
    let mut r = String::new();
    let mut i: usize = 0;
    assert(value@.skip(0) =~= value@);
    assert(r@ + visible(value@, limit as nat) =~= visible(value@, limit as nat));
    while i < limit && value[i] >= 0x20 && value[i] <= 0x7e
        invariant
            i <= limit <= value.len(),
            r@ + visible(value@.skip(i as int), (limit - i) as nat) == visible(value@, limit as nat),
        decreases limit - i,
    {
        let ghost before = r@;
        let ghost rest = value@.skip(i as int);
        assert(rest.drop_first() =~= value@.skip(i + 1));
        r.push(value[i] as char);
        i = i + 1;
        assert(r@ + visible(value@.skip(i as int), (limit - i) as nat) =~= before + visible(
            rest,
            (limit - i + 1) as nat,
        ));
    }
    assert(visible(value@.skip(i as int), (limit - i) as nat) =~= Seq::<char>::empty());
    assert(r@ =~= visible(value@, limit as nat));
    r.append("••••");
    r
}

/// The whole seconds until a secret lapses.
fn secs_until(expires_at: Option<Instant>, now: Instant) -> (r: Option<u64>)
    ensures
        r == secs_left(
            match expires_at {
                Some(t) => Some(t.nanos as nat),
                None => None,
            },
            now,
        ),
{
    match expires_at {
        Some(t) => {
            let secs = t.nanos_since(now) / 1_000_000_000;
            if secs > u64::MAX as u128 {
                Some(u64::MAX)
            } else {
                Some(secs as u64)
            }
        },
        None => None,
    }
}

/// Of an ascending list no text stands twice.
proof fn ascending_distinct(keys: Seq<Seq<char>>)
    requires
        ascending(keys),
    ensures
        keys.no_duplicates(),
{
    assert forall|i: int, j: int|
        0 <= i < keys.len() && 0 <= j < keys.len() && i != j implies keys[i] != keys[j] by {
        text::precedes_irreflexive(keys[i]);
        if i < j {
            assert(text::precedes(keys[i], keys[j]));
        } else {
            assert(text::precedes(keys[j], keys[i]));
        }
    }
}

proof fn remove_slot(slots: Seq<Slot>, i: int)
    requires
        ordered(slots),
        0 <= i < slots.len(),
    ensures
        ordered(slots.remove(i)),
        contents(slots.remove(i)) == contents(slots).remove(slots[i].key@),
{
    let after = slots.remove(i);
    let want = contents(slots).remove(slots[i].key@);
    assert(ordered(after));
    assert forall|k: Seq<char>| contents(after).contains_key(k) <==> want.contains_key(k) by {
        if has(after, k) {
            let j = at(after, k);
            let from = if j < i {
                j
            } else {
                j + 1
            };
            assert(slots[from].key@ == k);
            if k == slots[i].key@ {
                distinct(slots, from, i);
            }
        }
        if want.contains_key(k) {
            let from = at(slots, k);
            let j = if from < i {
                from
            } else {
                from - 1
            };
            assert(after[j].key@ == k);
        }
    }
    assert forall|k: Seq<char>| want.contains_key(k) implies contents(after)[k] == want[k] by {
        let j = at(after, k);
        assert(has(after, k));
        let from = if j < i {
            j
        } else {
            j + 1
        };
        slot_held(slots, from);
    }
    assert(contents(after) =~= want);
}

proof fn replace_slot(slots: Seq<Slot>, i: int, slot: Slot)
    requires
        ordered(slots),
        0 <= i < slots.len(),
        slots[i].key@ == slot.key@,
    ensures
        ordered(slots.update(i, slot)),
        contents(slots.update(i, slot)) == contents(slots).insert(slot.key@, slot.held()),
{
    let after = slots.update(i, slot);
    let want = contents(slots).insert(slot.key@, slot.held());
    assert(ordered(after)) by {
        assert forall|a: int, b: int| 0 <= a < b < after.len() implies text::precedes(
            #[trigger] after[a].key@,
            #[trigger] after[b].key@,
        ) by {
            assert(after[a].key@ == slots[a].key@);
            assert(after[b].key@ == slots[b].key@);
        }
    }
    assert forall|k: Seq<char>| contents(after).contains_key(k) <==> want.contains_key(k) by {
        if has(after, k) {
            let j = at(after, k);
            assert(slots[j].key@ == k);
        }
        if want.contains_key(k) {
            if k == slot.key@ {
                assert(after[i].key@ == k);
            } else {
                let j = at(slots, k);
                assert(after[j].key@ == k);
            }
        }
    }
    assert forall|k: Seq<char>| want.contains_key(k) implies contents(after)[k] == want[k] by {
        assert(has(after, k));
        let j = at(after, k);
        slot_held(slots, j);
        if k == slot.key@ {
            distinct(slots, i, j);
        }
    }
    assert(contents(after) =~= want);
}

proof fn insert_slot(slots: Seq<Slot>, i: int, slot: Slot)
    requires
        ordered(slots),
        0 <= i <= slots.len(),
        !contents(slots).contains_key(slot.key@),
        forall|j: int| 0 <= j < i ==> text::precedes(#[trigger] slots[j].key@, slot.key@),
        forall|j: int| i <= j < slots.len() ==> !text::precedes(#[trigger] slots[j].key@, slot.key@),
    ensures
        ordered(slots.insert(i, slot)),
        contents(slots.insert(i, slot)) == contents(slots).insert(slot.key@, slot.held()),
{
    let after = slots.insert(i, slot);
    let want = contents(slots).insert(slot.key@, slot.held());
    assert(ordered(after)) by {
        assert forall|a: int, b: int| 0 <= a < b < after.len() implies text::precedes(
            #[trigger] after[a].key@,
            #[trigger] after[b].key@,
        ) by {
            if a == i {
                assert(after[b] == slots[b - 1]);
                text::precedes_total(slots[b - 1].key@, slot.key@);
                assert(slots[b - 1].key@ != slot.key@) by {
                    slot_held(slots, b - 1);
                }
            } else if b == i {
                assert(after[a] == slots[a]);
            } else {
                let x = if a < i {
                    a
                } else {
                    a - 1
                };
                let y = if b < i {
                    b
                } else {
                    b - 1
                };
                assert(text::precedes(slots[x].key@, slots[y].key@));
            }
        }
    }
    assert forall|k: Seq<char>| contents(after).contains_key(k) <==> want.contains_key(k) by {
        if has(after, k) {
            let j = at(after, k);
            if j != i {
                let from = if j < i {
                    j
                } else {
                    j - 1
                };
                assert(slots[from].key@ == k);
            }
        }
        if want.contains_key(k) {
            if k == slot.key@ {
                assert(after[i].key@ == k);
            } else {
                let from = at(slots, k);
                let j = if from < i {
                    from
                } else {
                    from + 1
                };
                assert(after[j].key@ == k);
            }
        }
    }
    assert forall|k: Seq<char>| want.contains_key(k) implies contents(after)[k] == want[k] by {
        assert(has(after, k));
        let j = at(after, k);
        if k == slot.key@ {
            distinct(after, i, j);
        } else {
            let from = if j < i {
                j
            } else {
                j - 1
            };
            slot_held(slots, from);
        }
    }
    assert(contents(after) =~= want);
}

/// A lookup gives back what was stored, for as long as its lifetime lasts and
/// no longer; without a lifetime, for good.
pub proof fn get_returns_what_was_put(
    m: Contents,
    key: Seq<char>,
    value: Seq<u8>,
    ttl: Option<Duration>,
    stored: Instant,
    now: Instant,
)
    ensures
        found(after_put(m, key, value, ttl, stored), key, now) == if ttl matches Some(t)
            && stored.nanos + t.secs * 1_000_000_000 + t.nanos <= now.nanos {
            None
        } else {
            Some(value)
        },
{
}

/// Storing a secret leaves what is found under every other key as it was.
pub proof fn put_keeps_other_keys(
    m: Contents,
    key: Seq<char>,
    value: Seq<u8>,
    ttl: Option<Duration>,
    stored: Instant,
    other: Seq<char>,
    now: Instant,
)
    requires
        other != key,
    ensures
        found(after_put(m, key, value, ttl, stored), other, now) == found(m, other, now),
{
}

/// A lookup changes nothing that any later lookup finds.
pub proof fn get_keeps_what_is_found(
    m: Contents,
    key: Seq<char>,
    now: Instant,
    other: Seq<char>,
    later: Instant,
)
    requires
        now.nanos <= later.nanos,
    ensures
        found(after_get(m, key, now), other, later) == found(m, other, later),
{
}

/// What has lapsed stays lapsed.
pub proof fn lapsed_stays_lapsed(m: Contents, key: Seq<char>, now: Instant, later: Instant)
    requires
        now.nanos <= later.nanos,
        found(m, key, now) is None,
    ensures
        found(m, key, later) is None,
{
}

/// A secret without a lifetime never lapses.
pub proof fn without_ttl_nothing_lapses(m: Contents, key: Seq<char>, now: Instant)
    requires
        m.contains_key(key),
        m[key].expires_at is None,
    ensures
        found(m, key, now) == Some(m[key].value),
{
}

/// The keys that are listed are those that a lookup finds.
pub proof fn listed_keys_are_found(m: Contents, key: Seq<char>, now: Instant)
    ensures
        live_keys(m, now).contains(key) <==> found(m, key, now) is Some,
{
}

/// Contents and clock decide the list of keys: no other list of the same keys
/// ascends.
pub proof fn ascending_keys_are_unique(a: Seq<Seq<char>>, b: Seq<Seq<char>>)
    requires
        ascending(a),
        ascending(b),
        a.to_set() == b.to_set(),
    ensures
        a == b,
    decreases a.len(),
{
    ascending_distinct(a);
    ascending_distinct(b);
    a.unique_seq_to_set();
    b.unique_seq_to_set();
    if a.len() > 0 {
        let x = a.last();
        let y = b.last();
        assert(a.to_set().contains(x));
        assert(b.to_set().contains(y));
        assert(b.contains(x));
        assert(a.contains(y));
        let i = choose|i: int| 0 <= i < b.len() && b[i] == x;
        let j = choose|j: int| 0 <= j < a.len() && a[j] == y;
        if x != y {
            assert(text::precedes(b[i], b[b.len() - 1]));
            assert(text::precedes(a[j], a[a.len() - 1]));
            text::precedes_transitive(x, y, x);
            text::precedes_irreflexive(x);
        }
        let p = a.drop_last();
        let q = b.drop_last();
        assert forall|k: Seq<char>| p.to_set().contains(k) <==> q.to_set().contains(k) by {
            if p.contains(k) {
                let n = choose|n: int| 0 <= n < p.len() && p[n] == k;
                assert(a[n] == k);
                assert(a.to_set().contains(k));
                assert(b.contains(k));
                let n2 = choose|n2: int| 0 <= n2 < b.len() && b[n2] == k;
                assert(n2 != b.len() - 1);
                assert(q[n2] == k);
            }
            if q.contains(k) {
                let n = choose|n: int| 0 <= n < q.len() && q[n] == k;
                assert(b[n] == k);
                assert(b.to_set().contains(k));
                assert(a.contains(k));
                let n2 = choose|n2: int| 0 <= n2 < a.len() && a[n2] == k;
                assert(n2 != a.len() - 1);
                assert(p[n2] == k);
            }
        }
        assert(p.to_set() =~= q.to_set());
        ascending_keys_are_unique(p, q);
        assert(a =~= p.push(x));
        assert(b =~= q.push(y));
    } else {
        assert(a =~= b);
    }
}

/// No more than a quarter of a value is ever shown, and never more than four of
/// its bytes; what stands for the rest says nothing about it.
pub proof fn preview_shows_at_most_a_quarter(value: Seq<u8>)
    ensures
        exists|n: nat|
            n <= 4 && 4 * n <= value.len() && preview(value) == #[trigger] shown_part(value, n)
                + "••••"@,
{
    let limit = peek_limit(value.len());
    visible_is_a_beginning(value, limit);
    let n = visible(value, limit).len();
    assert(visible(value, limit) =~= shown_part(value, n));
}

/// Values that begin alike and are as long cannot be told apart by what is shown.
pub proof fn preview_depends_on_the_beginning(a: Seq<u8>, b: Seq<u8>)
    requires
        a.len() == b.len(),
        a.take(peek_limit(a.len()) as int) == b.take(peek_limit(b.len()) as int),
    ensures
        preview(a) == preview(b),
{
    visible_of_beginning(a, peek_limit(a.len()));
    visible_of_beginning(b, peek_limit(b.len()));
}

/// The first `n` bytes of a value, read as characters.
pub open spec fn shown_part(value: Seq<u8>, n: nat) -> Seq<char> {
    Seq::new(n, |i: int| value[i] as char)
}

proof fn visible_is_a_beginning(value: Seq<u8>, limit: nat)
    ensures
        visible(value, limit).len() <= limit,
        visible(value, limit).len() <= value.len(),
        forall|i: int|
            0 <= i < visible(value, limit).len() ==> visible(value, limit)[i] == value[i] as char,
    decreases limit,
{
    if limit > 0 && value.len() > 0 && printable(value[0]) {
        let rest = value.drop_first();
        visible_is_a_beginning(rest, (limit - 1) as nat);
        assert forall|i: int| 0 <= i < visible(value, limit).len() implies visible(value, limit)[i]
            == value[i] as char by {
            if i > 0 {
                assert(visible(value, limit)[i] == visible(rest, (limit - 1) as nat)[i - 1]);
                assert(rest[i - 1] == value[i]);
            }
        }
    }
}

proof fn visible_of_beginning(value: Seq<u8>, limit: nat)
    requires
        limit <= value.len(),
    ensures
        visible(value, limit) == visible(value.take(limit as int), limit),
    decreases limit,
{
    if limit > 0 && printable(value[0]) {
        let rest = value.drop_first();
        visible_of_beginning(rest, (limit - 1) as nat);
        assert(value.take(limit as int).drop_first() =~= rest.take(limit - 1));
    }
}

/// A lookup finds what is held under the key, unless its moment has come.
pub proof fn a_lookup_finds_what_is_held(m: Contents, key: Seq<char>, now: Instant, value: Seq<u8>)
    ensures
        found(m, key, now) == Some(value) <==> m.contains_key(key) && m[key].value == value && (
        m[key].expires_at matches Some(t) ==> now.nanos < t),
        found(m, key, now) is None <==> !m.contains_key(key) || (m[key].expires_at matches Some(t)
            && t <= now.nanos),
{
}

/// The keys of a list are those of its entries, in place.
pub proof fn every_entry_has_its_key(entries: Seq<Entry>, i: int)
    ensures
        entry_keys(entries).len() == entries.len(),
        0 <= i < entries.len() ==> entry_keys(entries)[i] == entries[i].key@,
{
}

/// What is shown of a secret that was stored: the preview of its value, and the
/// whole seconds that are left of its lifetime, if it has one.
pub proof fn a_stored_secret_shows_what_is_left_of_its_lifetime(
    m: Contents,
    key: Seq<char>,
    value: Seq<u8>,
    ttl: Option<Duration>,
    stored: Instant,
    now: Instant,
    entry: Entry,
)
    requires
        entry.key@ == key,
        shows(entry, after_put(m, key, value, ttl, stored), now),
    ensures
        entry.preview@ == preview(value),
        ttl is None ==> entry.expires_in_secs is None,
        ttl matches Some(t) ==> ({
            let end = stored.nanos + t.secs * 1_000_000_000 + t.nanos;
            &&& entry.expires_in_secs matches Some(left)
            &&& now.nanos <= end && end - now.nanos < u64::MAX * 1_000_000_000 ==> left
                * 1_000_000_000 <= end - now.nanos < (left + 1) * 1_000_000_000
            &&& end - now.nanos >= u64::MAX * 1_000_000_000 ==> left == u64::MAX
        }),
{
}

/// What is shown of a value ends in the mask. Before it stand the visible bytes that
/// the value begins with: four at most, a quarter of the value at most, and no fewer
/// than that unless one cannot be shown.
pub proof fn a_preview_is_a_masked_beginning(value: Seq<u8>)
    ensures
        ({
            let n = preview(value).len() - 4;
            &&& 0 <= n <= 4
            &&& 4 * n <= value.len()
            &&& preview(value).skip(n) == "••••"@
            &&& forall|i: int|
                0 <= i < n ==> #[trigger] preview(value)[i] == value[i] as char && 0x20 <= value[i]
                    <= 0x7e
            &&& n == 4 || 4 * (n + 1) > value.len() || value[n] < 0x20 || value[n] > 0x7e
        }),
{
    reveal_strlit("••••");
    let limit = peek_limit(value.len());
    let seen = visible(value, limit);
    visible_is_a_beginning(value, limit);
    visible_is_as_long_as_it_may_be(value, limit);
    assert(preview(value).skip(seen.len() as int) =~= "••••"@);
}

proof fn visible_is_as_long_as_it_may_be(value: Seq<u8>, limit: nat)
    requires
        limit <= value.len(),
    ensures
        forall|i: int|
            0 <= i < visible(value, limit).len() ==> 0x20 <= #[trigger] value[i] <= 0x7e,
        visible(value, limit).len() == limit || value[visible(value, limit).len() as int] < 0x20
            || value[visible(value, limit).len() as int] > 0x7e,
    decreases limit,
{
    if limit > 0 && printable(value[0]) {
        let rest = value.drop_first();
        visible_is_as_long_as_it_may_be(rest, (limit - 1) as nat);
        visible_is_a_beginning(rest, (limit - 1) as nat);
        let n = visible(rest, (limit - 1) as nat).len();
        assert(visible(value, limit).len() == n + 1);
        if n < limit - 1 {
            assert(rest[n as int] == value[n as int + 1]);
        }
        assert forall|i: int| 0 <= i < visible(value, limit).len() implies 0x20 <= #[trigger] value[i]
            <= 0x7e by {
            if i > 0 {
                assert(rest[i - 1] == value[i]);
            }
        }
    }
}

/// Keys ascend where each comes before every later one.
pub proof fn ascending_keys_come_before_later_ones(keys: Seq<Seq<char>>)
    ensures
        ascending(keys) <==> forall|i: int, j: int|
            0 <= i < j < keys.len() ==> text::precedes(#[trigger] keys[i], #[trigger] keys[j]),
{
}

} // verus!
