//! A generational arena: values are addressed by an index and the generation
//! in which they were inserted, so that a handle of a removed value never
//! resolves again, even after its slot has been reused.
use vstd::prelude::*;

verus! {

/// The largest 32-bit value, used as an invalid slot and generation.
pub const INVALID_U32: u32 = 0xffff_ffff;

/// The address of a value in an [`Arena`]: a slot and the generation of the
/// arena when the value was inserted.
#[derive(Clone, Copy, Debug, PartialEq, Eq, Structural, Hash)]
pub struct Index {
    index: u32,
    generation: u32,
}

impl Index {
    pub closed spec fn slot(self) -> u32 {
        self.index
    }

    pub closed spec fn stamp(self) -> u32 {
        self.generation
    }

    /// Two indices are equal exactly when slot and generation are.
    pub proof fn lemma_equal_parts(a: Index, b: Index)
        ensures
            (a == b) <==> (a.slot() == b.slot() && a.stamp() == b.stamp()),
            Index::spec_from_raw_parts(a.slot(), a.stamp()) == a,
            Index::spec_from_raw_parts(b.slot(), b.stamp()).slot() == b.slot(),
            Index::spec_from_raw_parts(b.slot(), b.stamp()).stamp() == b.stamp(),
    {
    }

    /// The index with slot `a` and generation `b`.
    pub closed spec fn spec_from_raw_parts(a: u32, b: u32) -> Index {
        Index { index: a, generation: b }
    }

    /// The parts of a built index are the ones it was built from.
    pub proof fn lemma_raw_parts(a: u32, b: u32)
        ensures
            Index::spec_from_raw_parts(a, b).slot() == a,
            Index::spec_from_raw_parts(a, b).stamp() == b,
    {
    }

    /// Splits this index into its slot and generation.
    pub fn into_raw_parts(self) -> (r: (u32, u32))
        ensures
            r.0 == self.slot(),
            r.1 == self.stamp(),
    {
        (self.index, self.generation)
    }

    /// Builds an index from a slot and a generation.
    pub fn from_raw_parts(a: u32, b: u32) -> (r: Index)
        ensures
            r.slot() == a,
            r.stamp() == b,
            r == Index::spec_from_raw_parts(a, b),
    {
        Index { index: a, generation: b }
    }
}

impl Default for Index {
    /// The invalid index: slot and generation both `INVALID_U32`.
    fn default() -> (r: Index)
        ensures
            r.slot() == INVALID_U32,
            r.stamp() == INVALID_U32,
    {
        Index { index: INVALID_U32, generation: INVALID_U32 }
    }
}

enum Entry<T> {
    Free,
    Occupied { generation: u32, value: T },
}

/// Values of type `T` stored in reusable slots.
///
/// Freed slots are reused last-freed first; fresh slots are appended in
/// increasing order. Every removal advances the arena's generation, and new
/// values are stamped with the current generation.
pub struct Arena<T> {
    items: Vec<Entry<T>>,
    free: Vec<u32>,
    generation: u32,
    len: usize,
    retired: Ghost<Set<Index>>,
}

spec fn entry_holds<T>(items: Seq<Entry<T>>, k: Index) -> bool {
    &&& (k.index as int) < items.len()
    &&& items[k.index as int] matches Entry::Occupied { generation, .. }
    &&& generation == k.generation
}

spec fn entry_value<T>(items: Seq<Entry<T>>, k: Index) -> T {
    match items[k.index as int] {
        Entry::Occupied { value, .. } => value,
        Entry::Free => arbitrary(),
    }
}

spec fn view_of<T>(items: Seq<Entry<T>>) -> Map<Index, T> {
    Map::new(|k: Index| entry_holds(items, k), |k: Index| entry_value(items, k))
}


spec fn parts_wf<T>(items: Seq<Entry<T>>, free: Seq<u32>, generation: u32, len: usize, retired: Set<Index>) -> bool {
    &&& items.len() <= u32::MAX
    &&& len + free.len() == items.len()
    &&& view_of(items).dom().finite()
    &&& len == view_of(items).len()
    &&& forall|k: int|
        0 <= k < free.len() ==> {
            &&& (free[k] as int) < items.len()
            &&& #[trigger] items[free[k] as int] is Free
        }
    &&& forall|k: int, l: int| 0 <= k < l < free.len() ==> #[trigger] free[k] != #[trigger] free[l]
    &&& forall|s: int|
        0 <= s < items.len() ==> (#[trigger] items[s] matches Entry::Occupied { generation: g, .. }
            ==> g <= generation)
    &&& forall|r: Index|
        #[trigger] retired.contains(r) ==> {
            &&& r.generation < generation
            &&& ((r.index as int) < items.len() ==> (items[r.index as int] matches Entry::Occupied {
                generation: g,
                ..
            } ==> g > r.generation))
        }
}

proof fn lemma_value_update_keeps_wf<T>(items: Seq<Entry<T>>, free: Seq<u32>, generation: u32, len: usize, retired: Set<Index>, slot: int, v: T)
    requires
        parts_wf(items, free, generation, len, retired),
        0 <= slot < items.len(),
        items[slot] is Occupied,
    ensures
        parts_wf(items.update(slot, Entry::Occupied { generation: items[slot]->generation, value: v }), free, generation, len, retired),
        view_of(items.update(slot, Entry::Occupied { generation: items[slot]->generation, value: v })) == view_of(items).insert(Index { index: slot as u32, generation: items[slot]->generation }, v),
{
    let g = items[slot]->generation;
    let n = items.update(slot, Entry::Occupied { generation: g, value: v });
    let k0 = Index { index: slot as u32, generation: g };
    assert(view_of(n) =~= view_of(items).insert(k0, v)) by {
        assert forall|k: Index| #[trigger] entry_holds(n, k) == entry_holds(items, k) by {
            if k.index as int != slot && (k.index as int) < items.len() {
                assert(n[k.index as int] == items[k.index as int]);
            }
        }
        assert forall|k: Index| #[trigger] entry_holds(n, k) && k != k0 implies entry_value(n, k) == entry_value(items, k) by {
            if k.index as int != slot {
                assert(n[k.index as int] == items[k.index as int]);
            }
        }
    }
    assert(entry_holds(items, k0));
    assert forall|k: int| 0 <= k < free.len() implies (free[k] as int) < n.len() && #[trigger] n[free[k] as int] is Free by {
        assert(items[free[k] as int] is Free);
    }
    assert forall|s: int| 0 <= s < n.len() implies (#[trigger] n[s] matches Entry::Occupied { generation: gg, .. } ==> gg <= generation) by {
        assert(items[s] matches Entry::Occupied { generation: gg, .. } ==> gg <= generation);
    }
    assert forall|r: Index| #[trigger] retired.contains(r) implies {
        &&& r.generation < generation
        &&& ((r.index as int) < n.len() ==> (n[r.index as int] matches Entry::Occupied { generation: gg, .. } ==> gg > r.generation))
    } by {
        if (r.index as int) < n.len() {
            assert(items[r.index as int] matches Entry::Occupied { generation: gg, .. } ==> gg > r.generation);
        }
    }
}

impl<T> View for Arena<T> {
    type V = Map<Index, T>;

    closed spec fn view(&self) -> Map<Index, T> {
        view_of(self.items@)
    }
}

impl<T> Arena<T> {
    /// The generation that the next inserted value receives.
    pub closed spec fn generation(&self) -> u32 {
        self.generation
    }

    /// Every index that was removed from this arena.
    pub closed spec fn retired(&self) -> Set<Index> {
        self.retired@
    }

    /// Number of slots ever created.
    pub closed spec fn slots(&self) -> nat {
        self.items@.len()
    }

    /// The freed slots, in the order they were freed.
    pub closed spec fn free_slots(&self) -> Seq<u32> {
        self.free@
    }

    /// The slot the next insertion uses: the last freed one, or a new slot
    /// after all existing ones when none is free.
    pub open spec fn next_slot(&self) -> int {
        if self.free_slots().len() > 0 {
            self.free_slots().last() as int
        } else {
            self.slots() as int
        }
    }

    /// The live value stored in slot `s`, whatever its generation.
    pub closed spec fn live_at(&self, s: int) -> Option<(Index, T)> {
        if 0 <= s < self.items@.len() {
            match self.items@[s] {
                Entry::Occupied { generation, value } => Some(
                    (Index { index: s as u32, generation }, value),
                ),
                Entry::Free => None,
            }
        } else {
            None
        }
    }

    pub closed spec fn wf(&self) -> bool {
        parts_wf(self.items@, self.free@, self.generation, self.len, self.retired@)
    }

    /// A well-formed arena holds finitely many values.
    pub proof fn lemma_finite(&self)
        requires
            self.wf(),
        ensures
            self@.dom().finite(),
    {
    }

    /// A removed index never addresses a live value.
    pub proof fn lemma_retired_not_live(&self, h: Index)
        requires
            self.wf(),
            self.retired().contains(h),
        ensures
            !self@.contains_key(h),
    {
    }

    /// Every live index was issued at a generation no later than the current one.
    pub proof fn lemma_live_stamp_bounded(&self, h: Index)
        requires
            self.wf(),
            self@.contains_key(h),
        ensures
            h.stamp() <= self.generation(),
    {
    }

    /// Every live index names a slot that exists.
    pub proof fn lemma_slot_bounded(&self, h: Index)
        requires
            self.wf(),
            self@.contains_key(h),
        ensures
            (h.slot() as int) < self.slots(),
    {
    }

    /// An arena has at most `u32::MAX` slots.
    pub proof fn lemma_slots_bounded(&self)
        requires
            self.wf(),
        ensures
            self.slots() <= u32::MAX,
    {
    }

    /// The live slots are exactly the slots whose entry `live_at` reports.
    pub proof fn lemma_live_at(&self, s: int)
        requires
            self.wf(),
        ensures
            self.live_at(s) matches Some((h, v)) ==> (self@.contains_key(h) && self@[h] == v
                && h.slot() == s),
            forall|h: Index|
                #[trigger] self@.contains_key(h) && h.slot() == s ==> self.live_at(s) == Some(
                    (h, self@[h]),
                ),
    {
    }

    /// Creates an empty arena.
    pub fn new() -> (r: Self)
        ensures
            r.wf(),
            r@ == Map::<Index, T>::empty(),
            r.generation() == 0,
            r.retired() == Set::<Index>::empty(),
            r.slots() == 0,
            r.free_slots() == Seq::<u32>::empty(),
    {
        let r = Arena { items: Vec::new(), free: Vec::new(), generation: 0, len: 0, retired: Ghost(Set::empty()) };
        assert(r@ =~= Map::<Index, T>::empty());
        r
    }

    /// Number of live values.
    pub fn len(&self) -> (r: usize)
        requires
            self.wf(),
        ensures
            r == self@.len(),
    {
        self.len
    }

    /// Whether the arena holds no live value.
    pub fn is_empty(&self) -> (r: bool)
        requires
            self.wf(),
        ensures
            r == (self@.len() == 0),
    {
        self.len == 0
    }

    /// Number of slots ever created.
    pub fn slot_count(&self) -> (r: usize)
        ensures
            r == self.slots(),
    {
        self.items.len()
    }

    /// The generation that the next inserted value receives.
    pub fn current_generation(&self) -> (r: u32)
        ensures
            r == self.generation(),
    {
        self.generation
    }

    /// Stores `value` and returns its fresh index.
    pub fn insert(&mut self, value: T) -> (r: Index)
        requires
            old(self).wf(),
            old(self)@.len() < u32::MAX,
        ensures
            final(self).wf(),
            !old(self)@.contains_key(r),
            !old(self).retired().contains(r),
            r.stamp() == old(self).generation(),
            final(self)@ == old(self)@.insert(r, value),
            final(self)@.len() == old(self)@.len() + 1,
            final(self).generation() == old(self).generation(),
            final(self).retired() == old(self).retired(),
            final(self).slots() >= old(self).slots(),
            r.slot() == old(self).next_slot(),
            old(self).free_slots().len() > 0 ==> final(self).free_slots() == old(self).free_slots().drop_last()
                && final(self).slots() == old(self).slots(),
            old(self).free_slots().len() == 0 ==> final(self).free_slots() == old(self).free_slots()
                && final(self).slots() == old(self).slots() + 1,
    {
        let ghost old_items = self.items@;
        let n = self.free.len();
        let slot: u32;
        if n > 0 {
            slot = self.free[n - 1];
            assert(self.items@[self.free@[n - 1] as int] is Free);
            self.free.pop();
            self.items.set(slot as usize, Entry::Occupied { generation: self.generation, value });
        } else {
            slot = self.items.len() as u32;
            self.items.push(Entry::Occupied { generation: self.generation, value });
        }
        self.len = self.len + 1;
        let r = Index { index: slot, generation: self.generation };
        proof {
            assert(!view_of(old_items).contains_key(r));
            assert(view_of(self.items@) =~= view_of(old_items).insert(r, value)) by {
                assert forall|k: Index| #[trigger] entry_holds(self.items@, k) == (entry_holds(old_items, k) || k == r) by {
                    if k.index != r.index {
                        if (k.index as int) < old_items.len() {
                            assert(self.items@[k.index as int] == old_items[k.index as int]);
                        }
                    }
                }
            }
            assert forall|k: int| 0 <= k < self.free@.len() implies (self.free@[k] as int) < self.items@.len()
                && #[trigger] self.items@[self.free@[k] as int] is Free by {
                assert(self.free@[k] == old(self).free@[k]);
                if n > 0 {
                    assert(old(self).free@[k] != old(self).free@[n - 1]);
                }
                assert(self.items@[self.free@[k] as int] == old_items[self.free@[k] as int]);
            }
            assert forall|k: int, l: int| 0 <= k < l < self.free@.len() implies #[trigger] self.free@[k]
                != #[trigger] self.free@[l] by {
                assert(self.free@[k] == old(self).free@[k]);
                assert(self.free@[l] == old(self).free@[l]);
            }
            assert forall|s: int| 0 <= s < self.items@.len() implies (#[trigger] self.items@[s] matches Entry::Occupied {
                generation,
                ..
            } ==> generation <= self.generation) by {
                if s != slot as int {
                    assert(self.items@[s] == old_items[s]);
                }
            }
            assert forall|q: Index| #[trigger] self.retired@.contains(q) implies {
                &&& q.generation < self.generation
                &&& ((q.index as int) < self.items@.len() ==> (self.items@[q.index as int] matches Entry::Occupied {
                    generation,
                    ..
                } ==> generation > q.generation))
            } by {
                if q.index != slot {
                    if (q.index as int) < old_items.len() {
                        assert(self.items@[q.index as int] == old_items[q.index as int]);
                    }
                }
            }
        }
        r
    }

    /// Whether `i` addresses a live value.
    pub fn contains(&self, i: Index) -> (r: bool)
        requires
            self.wf(),
        ensures
            r == self@.contains_key(i),
    {
        if (i.index as usize) < self.items.len() {
            match &self.items[i.index as usize] {
                Entry::Occupied { generation, .. } => *generation == i.generation,
                Entry::Free => false,
            }
        } else {
            false
        }
    }

    /// The value addressed by `i`, if it is live.
    pub fn get(&self, i: Index) -> (r: Option<&T>)
        requires
            self.wf(),
        ensures
            self@.contains_key(i) ==> r == Some(&self@[i]),
            !self@.contains_key(i) ==> r is None,
    {
        if (i.index as usize) < self.items.len() {
            match &self.items[i.index as usize] {
                Entry::Occupied { generation, value } => {
                    if *generation == i.generation {
                        Some(value)
                    } else {
                        None
                    }
                },
                Entry::Free => None,
            }
        } else {
            None
        }
    }

    /// Mutable access to the value addressed by `i`, if it is live.
    pub fn get_mut(&mut self, i: Index) -> (r: Option<&mut T>)
        requires
            old(self).wf(),
        ensures
            old(self)@.contains_key(i) ==> (r matches Some(v) && *v == old(self)@[i] && final(self)@
                == old(self)@.insert(i, *final(v))),
            !old(self)@.contains_key(i) ==> (r is None && final(self)@ == old(self)@),
            final(self).wf(),
            final(self)@.len() == old(self)@.len(),
            final(self).generation() == old(self).generation(),
            final(self).retired() == old(self).retired(),
            final(self).slots() == old(self).slots(),
            final(self).free_slots() == old(self).free_slots(),
            forall|s: int| s != i.slot() ==> #[trigger] final(self).live_at(s) == old(self).live_at(s),
    {
        if !self.contains(i) {
            return None;
        }
        let ghost old_items = self.items@;
        let slot = i.index as usize;
        match &mut self.items[slot] {
            Entry::Occupied { value, .. } => {
                proof {
                    lemma_value_update_keeps_wf(old_items, self.free@, self.generation, self.len, self.retired@, slot as int, *final(value));
                }
                Some(value)
            },
            Entry::Free => None,
        }
    }

    /// The live value stored in slot `slot`, whatever its generation.
    pub fn live(&self, slot: usize) -> (r: Option<&T>)
        requires
            self.wf(),
        ensures
            match self.live_at(slot as int) {
                Some((_, v)) => r == Some(&v),
                None => r is None,
            },
    {
        if slot < self.items.len() {
            match &self.items[slot] {
                Entry::Occupied { value, .. } => Some(value),
                Entry::Free => None,
            }
        } else {
            None
        }
    }

    /// Mutable access to the live value stored in slot `slot`, whatever its generation.
    pub fn live_mut(&mut self, slot: usize) -> (r: Option<&mut T>)
        requires
            old(self).wf(),
        ensures
            match old(self).live_at(slot as int) {
                Some((h, w)) => r matches Some(v) && *v == w && final(self)@ == old(self)@.insert(h, *final(v))
                    && final(self).live_at(slot as int) == Some((h, *final(v))),
                None => r is None && final(self)@ == old(self)@ && final(self).live_at(slot as int) is None,
            },
            final(self).wf(),
            final(self).generation() == old(self).generation(),
            final(self).retired() == old(self).retired(),
            final(self).slots() == old(self).slots(),
            final(self).free_slots() == old(self).free_slots(),
            forall|s: int| s != slot ==> #[trigger] final(self).live_at(s) == old(self).live_at(s),
    {
        if slot >= self.items.len() {
            return None;
        }
        let occupied = match &self.items[slot] {
            Entry::Occupied { .. } => true,
            Entry::Free => false,
        };
        if !occupied {
            return None;
        }
        let ghost old_items = self.items@;
        match &mut self.items[slot] {
            Entry::Occupied { value, .. } => {
                proof {
                    lemma_value_update_keeps_wf(old_items, self.free@, self.generation, self.len, self.retired@, slot as int, *final(value));
                }
                Some(value)
            },
            Entry::Free => None,
        }
    }

    /// Removes and returns the value addressed by `i`, if it is live.
    pub fn remove(&mut self, i: Index) -> (r: Option<T>)
        requires
            old(self).wf(),
            old(self)@.contains_key(i) ==> old(self).generation() < u32::MAX,
        ensures
            final(self).wf(),
            final(self).free_slots() == if old(self)@.contains_key(i) {
                old(self).free_slots().push(i.slot())
            } else {
                old(self).free_slots()
            },
            old(self)@.contains_key(i) ==> {
                &&& r == Some(old(self)@[i])
                &&& final(self)@ == old(self)@.remove(i)
                &&& final(self)@.len() + 1 == old(self)@.len()
                &&& final(self).retired() == old(self).retired().insert(i)
                &&& final(self).generation() == old(self).generation() + 1
            },
            !old(self)@.contains_key(i) ==> {
                &&& r is None
                &&& final(self)@ == old(self)@
                &&& final(self).retired() == old(self).retired()
                &&& final(self).generation() == old(self).generation()
            },
            final(self).slots() == old(self).slots(),
    {
        if !self.contains(i) {
            return None;
        }
        let ghost old_items = self.items@;
        let ghost old_view = self@;
        let slot = i.index as usize;
        let mut taken = Entry::Free;
        self.items.set_and_swap(slot, &mut taken);
        let r = match taken {
            Entry::Occupied { value, .. } => value,
            Entry::Free => {
                assert(false);
                return None;
            },
        };
        proof {
            assert forall|k: int| 0 <= k < self.free@.len() implies self.free@[k] != i.index by {
                assert(old_items[self.free@[k] as int] is Free);
            }
        }
        self.free.push(i.index);
        self.len = self.len - 1;
        self.generation = self.generation + 1;
        proof {
            self.retired@ = self.retired@.insert(i);
            assert(view_of(self.items@) =~= old_view.remove(i)) by {
                assert forall|k: Index| #[trigger] entry_holds(self.items@, k) == (entry_holds(old_items, k) && k != i) by {
                    if k.index != i.index && (k.index as int) < self.items@.len() {
                        assert(self.items@[k.index as int] == old_items[k.index as int]);
                    }
                }
            }
            assert forall|k: int| 0 <= k < self.free@.len() implies (self.free@[k] as int) < self.items@.len()
                && #[trigger] self.items@[self.free@[k] as int] is Free by {
                if k < self.free@.len() - 1 {
                    assert(self.free@[k] == old(self).free@[k]);
                    assert(old_items[self.free@[k] as int] is Free);
                }
            }
            assert forall|k: int, l: int| 0 <= k < l < self.free@.len() implies #[trigger] self.free@[k]
                != #[trigger] self.free@[l] by {
                if l < self.free@.len() - 1 {
                    assert(self.free@[k] == old(self).free@[k]);
                    assert(self.free@[l] == old(self).free@[l]);
                } else {
                    assert(self.free@[k] == old(self).free@[k]);
                    assert(old_items[self.free@[k] as int] is Free);
                }
            }
            assert forall|s: int| 0 <= s < self.items@.len() implies (#[trigger] self.items@[s] matches Entry::Occupied {
                generation,
                ..
            } ==> generation <= self.generation) by {
                if s != slot as int {
                    assert(self.items@[s] == old_items[s]);
                }
            }
            assert forall|q: Index| #[trigger] self.retired@.contains(q) implies {
                &&& q.generation < self.generation
                &&& ((q.index as int) < self.items@.len() ==> (self.items@[q.index as int] matches Entry::Occupied {
                    generation,
                    ..
                } ==> generation > q.generation))
            } by {
                if q != i {
                    assert(old(self).retired@.contains(q));
                    if q.index != i.index {
                        if (q.index as int) < old_items.len() {
                            assert(self.items@[q.index as int] == old_items[q.index as int]);
                        }
                    }
                } else {
                    assert(old_items[slot as int] matches Entry::Occupied { generation, .. } && generation
                        <= old(self).generation);
                }
            }
        }
        Some(r)
    }
}

/// `after` keeps the slot's index and relates to `before` by `rel`, or both slots are empty.
pub open spec fn slot_related<T>(before: Option<(Index, T)>, after: Option<(Index, T)>, rel: spec_fn(T, T) -> bool) -> bool {
    match before {
        Some((h, v)) => after matches Some((g, w)) && g == h && rel(v, w),
        None => after is None,
    }
}

impl<T> Arena<T> {
    /// Two arenas related slot by slot hold the same indices, with related values.
    pub proof fn lemma_pointwise(a: &Self, b: &Self, rel: spec_fn(T, T) -> bool)
        requires
            a.wf(),
            b.wf(),
            a.slots() == b.slots(),
            forall|t: int| 0 <= t < a.slots() ==> slot_related(#[trigger] a.live_at(t), b.live_at(t), rel),
        ensures
            b@.dom() == a@.dom(),
            forall|h: Index| #[trigger] a@.contains_key(h) ==> rel(a@[h], b@[h]),
    {
        assert forall|h: Index| b@.contains_key(h) <==> a@.contains_key(h) by {
            let t = h.index as int;
            if a@.contains_key(h) {
                assert(slot_related(a.live_at(t), b.live_at(t), rel));
            }
            if b@.contains_key(h) {
                assert(slot_related(a.live_at(t), b.live_at(t), rel));
            }
        }
        assert(b@.dom() =~= a@.dom());
        assert forall|h: Index| #[trigger] a@.contains_key(h) implies rel(a@[h], b@[h]) by {
            let t = h.index as int;
            assert(slot_related(a.live_at(t), b.live_at(t), rel));
        }
    }
}

} // verus!
