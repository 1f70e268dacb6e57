//! Entity handles and the registry that allocates them and answers validity.

use vstd::prelude::*;

verus! {

/// An opaque, copyable handle: a slot index paired with the generation the
/// slot had when the handle was issued.
#[derive(Clone, Copy, Debug, PartialEq, Eq, Structural, Hash)]
pub struct Entity {
    pub index: usize,
    pub generation: u64,
}

/// The state of one slot of the registry.
#[derive(Clone, Copy, Debug)]
pub struct Slot {
    pub generation: u64,
    pub alive: bool,
}

/// Allocates entity handles and tracks which of them are alive.
///
/// A slot that is freed is handed out again with its generation raised by
/// one, so every handle issued for its earlier generations stays invalid.
/// A slot whose generation cannot be raised any more is never reused.
pub struct EntityManager {
    slots: Vec<Slot>,
    free: Vec<usize>,
}

impl View for EntityManager {
    type V = Seq<Slot>;

    closed spec fn view(&self) -> Seq<Slot> {
        self.slots@
    }
}

impl EntityManager {
    #[verifier::type_invariant]
    closed spec fn wf(self) -> bool {
        &&& self.free@.no_duplicates()
        &&& forall|k: int|
            0 <= k < self.free@.len() ==> {
                let i = #[trigger] self.free@[k];
                &&& i < self.slots@.len()
                &&& !self.slots@[i as int].alive
                &&& self.slots@[i as int].generation < u64::MAX
            }
    }

    /// `e` refers to a slot that is allocated, in the generation `e` was issued for.
    pub open spec fn is_valid_spec(&self, e: Entity) -> bool {
        &&& e.index < self@.len()
        &&& self@[e.index as int].generation == e.generation
        &&& self@[e.index as int].alive
    }

    /// `e` was issued by this registry and has since been removed: its slot
    /// is either freed in the same generation or was reused in a later one.
    pub open spec fn is_retired(&self, e: Entity) -> bool {
        &&& e.index < self@.len()
        &&& {
            ||| self@[e.index as int].generation > e.generation
            ||| (self@[e.index as int].generation == e.generation && !self@[e.index as int].alive)
        }
    }

    /// The set of handles that are currently valid.
    pub open spec fn live(&self) -> Set<Entity> {
        Set::new(|e: Entity| self.is_valid_spec(e))
    }

    /// `self` is a later state of `prev`: every handle retired in `prev` is
    /// still retired, and every handle that was valid in `prev` and is not
    /// valid now has been retired.
    pub open spec fn succeeds(&self, prev: &EntityManager) -> bool {
        forall|e: Entity|
            (prev.is_retired(e) || (prev.is_valid_spec(e) && !self.is_valid_spec(e)))
                ==> #[trigger] self.is_retired(e)
    }

    /// The number of slots ever allocated.
    pub closed spec fn slot_count(&self) -> nat {
        self.slots@.len()
    }

    /// A fresh handle can be issued without exhausting the index space.
    pub open spec fn has_room(&self) -> bool {
        self.slot_count() < usize::MAX
    }

    /// Succession is transitive.
    pub proof fn lemma_succeeds_trans(a: &EntityManager, b: &EntityManager, c: &EntityManager)
        requires
            b.succeeds(a),
            c.succeeds(b),
        ensures
            c.succeeds(a),
    {
    }

    /// An empty registry.
    pub fn new() -> (r: EntityManager)
        ensures
            r@.len() == 0,
            r.slot_count() == 0,
            r.live() == Set::<Entity>::empty(),
    {
        let r = EntityManager { slots: Vec::new(), free: Vec::new() };
        proof {
            assert(r.live() =~= Set::<Entity>::empty());
        }
        r
    }

    /// Moves the fields out, leaving an empty registry behind.
    fn take_parts(&mut self) -> (r: (Vec<Slot>, Vec<usize>))
        ensures
            r.0@ == old(self).slots@,
            r.1@ == old(self).free@,
    {
        let mut me = EntityManager::new();
        std::mem::swap(&mut me, self);
        let EntityManager { slots, free } = me;
        (slots, free)
    }

    /// Whether `e` is currently valid.
    pub fn is_valid(&self, e: &Entity) -> (r: bool)
        ensures
            r == self.is_valid_spec(*e),
    {
        e.index < self.slots.len() && self.slots[e.index].generation == e.generation
            && self.slots[e.index].alive
    }

    /// Issues a handle that was not valid before and is valid now; the
    /// validity of every other handle is unchanged.
    pub fn create(&mut self) -> (r: Entity)
        requires
            old(self).has_room(),
        ensures
            !old(self).is_valid_spec(r),
            !old(self).is_retired(r),
            final(self).is_valid_spec(r),
            final(self).live() == old(self).live().insert(r),
            final(self).succeeds(old(self)),
            final(self).slot_count() <= old(self).slot_count() + 1,
    {
        proof {
            use_type_invariant(&*self);
        }
        let (mut slots, mut free) = self.take_parts();
        match free.pop() {
            Some(i) => {
                proof {
                    assert(free@ =~= old(self).free@.drop_last());
                    assert(old(self).free@[old(self).free@.len() - 1] == i);
                }
                let generation = slots[i].generation + 1;
                slots.set(i, Slot { generation, alive: true });
                let r = Entity { index: i, generation };
                proof {
                    assert forall|k: int| 0 <= k < free@.len() implies #[trigger] free@[k] != i by {
                        assert(old(self).free@[k] == free@[k]);
                    }
                }
                *self = EntityManager { slots, free };
                proof {
                    assert(self.live() =~= old(self).live().insert(r));
                }
                r
            },
            None => {
                let index = slots.len();
                slots.push(Slot { generation: 0, alive: true });
                let r = Entity { index, generation: 0 };
                *self = EntityManager { slots, free };
                proof {
                    assert(self.live() =~= old(self).live().insert(r));
                }
                r
            },
        }
    }

    /// Marks `e` invalid. Removing a handle that is not valid does nothing.
    pub fn remove(&mut self, e: &Entity)
        ensures
            final(self).live() == old(self).live().remove(*e),
            final(self).succeeds(old(self)),
            old(self).is_valid_spec(*e) ==> final(self).is_retired(*e),
            !old(self).is_valid_spec(*e) ==> final(self)@ == old(self)@,
            final(self).slot_count() == old(self).slot_count(),
    {
        proof {
            use_type_invariant(&*self);
        }
        if self.is_valid(e) {
            let (mut slots, mut free) = self.take_parts();
            let generation = e.generation;
            slots.set(e.index, Slot { generation, alive: false });
            if generation < u64::MAX {
                proof {
                    assert(!free@.contains(e.index));
                }
                free.push(e.index);
            }
            *self = EntityManager { slots, free };
            proof {
                assert(self.live() =~= old(self).live().remove(*e));
            }
        } else {
            proof {
                assert(self.live() =~= old(self).live().remove(*e));
            }
        }
    }

    /// Every currently valid handle, each once, in slot order.
    pub fn entities(&self) -> (r: Vec<Entity>)
        ensures
            r@.no_duplicates(),
            forall|e: Entity| r@.contains(e) <==> self.is_valid_spec(e),
    {
        let mut r: Vec<Entity> = Vec::new();
        let mut i: usize = 0;
        while i < self.slots.len()
            invariant
                i <= self@.len(),
                r@.no_duplicates(),
                forall|k: int| 0 <= k < r@.len() ==> (#[trigger] r@[k]).index < i,
                forall|e: Entity|
                    r@.contains(e) <==> (e.index < i && self.is_valid_spec(e)),
            decreases self@.len() - i,
        {
            let slot = self.slots[i];
            let ghost prev = r@;
            if slot.alive {
                let e = Entity { index: i, generation: slot.generation };
                proof {
                    assert(!prev.contains(e));
                }
                r.push(e);
                proof {
                    assert(r@.drop_last() =~= prev);
                    assert forall|x: Entity|
                        r@.contains(x) <==> (x.index < i + 1 && self.is_valid_spec(x)) by {
                        if r@.contains(x) && x != e {
                            let k = choose|k: int| 0 <= k < r@.len() && r@[k] == x;
                            assert(prev[k] == x);
                        }
                        if x.index < i && self.is_valid_spec(x) {
                            let k = choose|k: int| 0 <= k < prev.len() && prev[k] == x;
                            assert(r@[k] == x);
                        }
                        assert(r@[prev.len() as int] == e);
                        if x.index == i && self.is_valid_spec(x) {
                            assert(x == e);
                        }
                    }
                }
            }
            i = i + 1;
        }
        r
    }
}

/// A retired handle is never valid: once removed, a handle and all its
/// copies stay invalid for as long as the registry keeps retiring it.
pub proof fn lemma_retired_is_invalid(reg: &EntityManager, e: Entity)
    requires
        reg.is_retired(e),
    ensures
        !reg.is_valid_spec(e),
{
}

/// Once a valid handle has stopped being valid, it never becomes valid
/// again, in any later state of the registry.
pub proof fn lemma_invalid_forever(prev: &EntityManager, mid: &EntityManager, later: &EntityManager, e: Entity)
    requires
        prev.is_valid_spec(e),
        mid.succeeds(prev),
        !mid.is_valid_spec(e),
        later.succeeds(mid),
    ensures
        !later.is_valid_spec(e),
{
    assert(mid.is_retired(e));
    assert(later.is_retired(e));
}

} // verus!
