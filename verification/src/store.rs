use vstd::prelude::*;

verus! {

/// A typed reference to one slot of a `Slab`.
#[derive(Copy, Debug)]
pub struct Handle<T> {
    index: u32,
    _marker: std::marker::PhantomData<T>,
}

impl<T> Clone for Handle<T> {
    /// A copy of the handle: it refers to the same slot.
    fn clone(&self) -> (copy: Self)
        ensures
            copy == *self,
    {
        Handle { index: self.index, _marker: std::marker::PhantomData }
    }
}

impl<T> View for Handle<T> {
    type V = u32;

    /// The slot index that the handle refers to (the type marker holds no data).
    closed spec fn view(&self) -> u32 {
        self.index
    }
}

/// The abstract state of a `Slab`: its slots, and the stack of freed slot indices
/// (the last one is reused first).
pub struct SlabView<T> {
    pub slots: Seq<Option<T>>,
    pub free: Seq<u32>,
}

impl<T> SlabView<T> {
    /// The slots and the free stack agree: the free stack holds exactly the
    /// indices of the empty slots, each once, and every slot index fits in a `u32`.
    pub open spec fn wf(self) -> bool {
        &&& self.slots.len() <= u32::MAX + 1
        &&& self.free.no_duplicates()
        &&& forall|k: int|
            0 <= k < self.free.len() ==> {
                &&& (#[trigger] self.free[k]) < self.slots.len()
                &&& self.slots[self.free[k] as int] is None
            }
        &&& forall|i: int|
            0 <= i < self.slots.len() && (#[trigger] self.slots[i]) is None ==> self.free.contains(
                i as u32,
            )
    }

    /// The item stored under `index`, if that slot exists and is occupied.
    pub open spec fn get(self, index: u32) -> Option<T> {
        if (index as int) < self.slots.len() {
            self.slots[index as int]
        } else {
            None
        }
    }

    /// Whether an insertion can produce an index that fits in a `u32`.
    pub open spec fn can_insert(self) -> bool {
        self.free.len() > 0 || self.slots.len() <= u32::MAX
    }

    /// The index that the next insertion uses: the most recently freed slot,
    /// or a new slot at the end.
    pub open spec fn next_index(self) -> u32 {
        if self.free.len() > 0 {
            self.free.last()
        } else {
            self.slots.len() as u32
        }
    }

    /// The state after inserting `item`.
    pub open spec fn inserted(self, item: T) -> SlabView<T> {
        if self.free.len() > 0 {
            SlabView {
                slots: self.slots.update(self.free.last() as int, Some(item)),
                free: self.free.drop_last(),
            }
        } else {
            SlabView { slots: self.slots.push(Some(item)), free: self.free }
        }
    }

    /// The state after freeing `index`: an occupied slot is emptied and its index
    /// pushed on the free stack; anything else leaves the state unchanged.
    pub open spec fn removed(self, index: u32) -> SlabView<T> {
        if self.get(index) is Some {
            SlabView { slots: self.slots.update(index as int, None), free: self.free.push(index) }
        } else {
            self
        }
    }
}

/// A store of items addressed by handles, reusing freed slots.
pub struct Slab<T> {
    slots: Vec<Option<T>>,
    free_slots: Vec<u32>,
}

impl<T> View for Slab<T> {
    type V = SlabView<T>;

    closed spec fn view(&self) -> SlabView<T> {
        SlabView { slots: self.slots@, free: self.free_slots@ }
    }
}

impl<T: Clone> Slab<T> {
    /// Well-formedness of the store.
    pub open spec fn wf(&self) -> bool {
        self@.wf()
    }

    /// An empty store.
    pub fn new() -> (slab: Slab<T>)
        ensures
            slab.wf(),
            slab@.slots == Seq::<Option<T>>::empty(),
            slab@.free == Seq::<u32>::empty(),
    {
        return Slab { slots: Vec::new(), free_slots: Vec::new() };
    }

    /// Whether `insert` can hand out a slot index that fits in a `u32`; lets a
    /// caller test its precondition.
    pub fn can_insert(&self) -> (ok: bool)
        ensures
            ok == self@.can_insert(),
    {
        self.free_slots.len() > 0 || self.slots.len() as u64 <= u32::MAX as u64
    }

    /// Stores `item`, reusing the most recently freed slot if there is one,
    /// and returns the handle of its slot.
    pub fn insert(&mut self, item: T) -> (handle: Handle<T>)
        requires
            old(self).wf(),
            old(self)@.can_insert(),
        ensures
            final(self).wf(),
            handle@ == old(self)@.next_index(),
            final(self)@ == old(self)@.inserted(item),
    {
        let ghost pre = self@;
        proof {
            lemma_inserted_wf(pre, item);
        }
        if let Some(index) = self.free_slots.pop() {
            proof {
                assert(pre.free.contains(index));
            }
            self.slots.set(index as usize, Some(item));
            assert(self@.slots =~= pre.inserted(item).slots);
            return Handle { index, _marker: std::marker::PhantomData };
        }
        let index = self.slots.len() as u32;
        self.slots.push(Some(item));
        return Handle { index, _marker: std::marker::PhantomData };
    }

    /// Empties the slot of `handle` and returns its item; a handle whose slot is
    /// missing or already empty yields `None` and changes nothing.
    pub fn free(&mut self, handle: Handle<T>) -> (item: Option<T>)
        requires
            old(self).wf(),
        ensures
            final(self).wf(),
            item == old(self)@.get(handle@),
            final(self)@ == old(self)@.removed(handle@),
    {
        let ghost pre = self@;
        proof {
            lemma_removed_wf(pre, handle@);
        }
        let index = handle.index;
        let i = index as usize;
        if i < self.slots.len() && self.slots[i].is_some() {
            self.free_slots.push(index);
            let taken = self.slots[i].take();
            assert(self@.slots =~= pre.removed(index).slots);
            return taken;
        }
        return None;
    }

    /// The item stored under `handle`, or `None` if its slot is missing or empty.
    pub fn get(&self, handle: &Handle<T>) -> (item: Option<&T>)
        ensures
            item == (match self@.get(handle@) {
                Some(t) => Some(&t),
                None => None,
            }),
    {
        let i = handle.index as usize;
        if i < self.slots.len() {
            let slot = &self.slots[i];
            if slot.is_some() {
                return slot.as_ref();
            }
        }
        return None;
    }

    /// A mutable borrow of the item stored under `handle`, or `None` if its slot
    /// is missing or empty. Whatever is written through the borrow becomes the
    /// item of that slot; nothing else changes.
    pub fn get_mut(&mut self, handle: Handle<T>) -> (item: Option<&mut T>)
        requires
            old(self).wf(),
        ensures
            final(self).wf(),
            old(self)@.get(handle@) is None ==> item is None && final(self)@ == old(self)@,
            old(self)@.get(handle@) is Some ==> {
                &&& item is Some
                &&& *item.unwrap() == old(self)@.get(handle@).unwrap()
                &&& final(self)@ == (SlabView {
                    slots: old(self)@.slots.update(handle@ as int, Some(*final(item.unwrap()))),
                    free: old(self)@.free,
                })
            },
    {
        let i = handle.index as usize;
        if i < self.slots.len() && self.slots[i].is_some() {
            let slot = &mut self.slots[i];
            return slot.as_mut();
        }
        return None;
    }
}

/// A freshly inserted item is found under the handle that insertion returns.
pub proof fn lemma_get_after_insert<T>(s: SlabView<T>, item: T)
    requires
        s.wf(),
        s.can_insert(),
    ensures
        s.inserted(item).get(s.next_index()) == Some(item),
{
}

/// Insertion never hands out the handle of an occupied slot.
pub proof fn lemma_insert_takes_empty_slot<T>(s: SlabView<T>)
    requires
        s.wf(),
        s.can_insert(),
    ensures
        s.get(s.next_index()) is None,
{
    if s.free.len() > 0 {
        assert(s.free[s.free.len() - 1] == s.free.last());
    }
}

/// Insertion leaves every other slot as it was.
pub proof fn lemma_insert_keeps_others<T>(s: SlabView<T>, item: T, index: u32)
    requires
        s.wf(),
        s.can_insert(),
        index != s.next_index(),
    ensures
        s.inserted(item).get(index) == s.get(index),
{
}

/// After `free`, the handle's slot reads as empty, whatever it held before.
pub proof fn lemma_get_after_free<T>(s: SlabView<T>, index: u32)
    requires
        s.wf(),
    ensures
        s.removed(index).get(index) is None,
{
}

/// Freeing leaves every other slot as it was.
pub proof fn lemma_free_keeps_others<T>(s: SlabView<T>, index: u32, other: u32)
    requires
        s.wf(),
        index != other,
    ensures
        s.removed(index).get(other) == s.get(other),
{
}

/// Freeing a handle twice changes nothing the second time, and the second
/// `free` returns `None`.
pub proof fn lemma_double_free<T>(s: SlabView<T>, index: u32)
    requires
        s.wf(),
    ensures
        s.removed(index).get(index) is None,
        s.removed(index).removed(index) == s.removed(index),
{
}

/// The slot freed last is the one the next insertion reuses.
pub proof fn lemma_insert_reuses_freed<T>(s: SlabView<T>, index: u32)
    requires
        s.wf(),
        s.get(index) is Some,
    ensures
        s.removed(index).can_insert(),
        s.removed(index).next_index() == index,
{
}

/// Inserting into a reused slot and freeing it again restores the store exactly.
pub proof fn lemma_insert_free_roundtrip<T>(s: SlabView<T>, item: T)
    requires
        s.wf(),
        s.free.len() > 0,
    ensures
        s.inserted(item).removed(s.next_index()) == s,
{
    lemma_insert_takes_empty_slot(s);
    let t = s.inserted(item);
    let r = t.removed(s.next_index());
    assert(r.slots =~= s.slots);
    assert(r.free =~= s.free);
}

/// Every operation keeps the store well-formed.
pub proof fn lemma_operations_keep_wf<T>(s: SlabView<T>, item: T, index: u32)
    requires
        s.wf(),
    ensures
        s.can_insert() ==> s.inserted(item).wf(),
        s.removed(index).wf(),
{
    if s.can_insert() {
        lemma_inserted_wf(s, item);
    }
    lemma_removed_wf(s, index);
}

proof fn lemma_inserted_wf<T>(s: SlabView<T>, item: T)
    requires
        s.wf(),
        s.can_insert(),
    ensures
        s.inserted(item).wf(),
{
    let post = s.inserted(item);
    if s.free.len() > 0 {
        let index = s.free.last();
        assert(s.free[s.free.len() - 1] == index);
        assert forall|k: int| 0 <= k < post.free.len() implies {
            &&& (#[trigger] post.free[k]) < post.slots.len()
            &&& post.slots[post.free[k] as int] is None
        } by {
            assert(post.free[k] == s.free[k]);
            assert(s.free[k] != s.free[s.free.len() - 1]);
        }
        assert forall|i: int|
            0 <= i < post.slots.len() && (#[trigger] post.slots[i]) is None implies post.free.contains(
            i as u32,
        ) by {
            assert(s.free.contains(i as u32));
            let k = choose|k: int| 0 <= k < s.free.len() && s.free[k] == i as u32;
            assert(k != s.free.len() - 1);
            assert(post.free[k] == i as u32);
        }
    } else {
        assert forall|i: int|
            0 <= i < post.slots.len() && (#[trigger] post.slots[i]) is None implies post.free.contains(
            i as u32,
        ) by {
            assert(i < s.slots.len());
            assert(s.slots[i] is None);
        }
    }
}

proof fn lemma_removed_wf<T>(s: SlabView<T>, index: u32)
    requires
        s.wf(),
    ensures
        s.removed(index).wf(),
{
    let post = s.removed(index);
    if s.get(index) is Some {
        assert(!s.free.contains(index)) by {
            if s.free.contains(index) {
                let k = choose|k: int| 0 <= k < s.free.len() && s.free[k] == index;
                assert(s.slots[s.free[k] as int] is None);
            }
        }
        assert forall|k: int| 0 <= k < post.free.len() implies {
            &&& (#[trigger] post.free[k]) < post.slots.len()
            &&& post.slots[post.free[k] as int] is None
        } by {
            if k < s.free.len() {
                assert(post.free[k] == s.free[k]);
            }
        }
        assert forall|i: int|
            0 <= i < post.slots.len() && (#[trigger] post.slots[i]) is None implies post.free.contains(
            i as u32,
        ) by {
            if i == index as int {
                assert(post.free[s.free.len() as int] == index);
            } else {
                assert(s.free.contains(i as u32));
                let k = choose|k: int| 0 <= k < s.free.len() && s.free[k] == i as u32;
                assert(post.free[k] == i as u32);
            }
        }
    }
}

} // verus!
