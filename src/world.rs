//! The world: owns the registry, the component store, the systems and the
//! queue of deferred structural events, and drives one update tick.

use std::collections::VecDeque;
use vstd::prelude::*;

use crate::entity::{Entity, EntityManager};

verus! {

/// A view of one entity handed to a system hook: valid for that one call.
pub struct EntityData {
    entity: Entity,
}

/// A view of one entity handed to a builder while it is being built.
pub struct BuildData {
    entity: Entity,
}

/// A view of one entity handed to a modifier while it is being changed.
pub struct ModifyData {
    entity: Entity,
}

impl View for EntityData {
    type V = Entity;

    closed spec fn view(&self) -> Entity {
        self.entity
    }
}

impl View for BuildData {
    type V = Entity;

    closed spec fn view(&self) -> Entity {
        self.entity
    }
}

impl View for ModifyData {
    type V = Entity;

    closed spec fn view(&self) -> Entity {
        self.entity
    }
}

impl EntityData {
    fn new(entity: Entity) -> (r: EntityData)
        ensures
            r@ == entity,
    {
        EntityData { entity }
    }

    /// The entity this view is about.
    pub fn entity(&self) -> (r: Entity)
        ensures
            r == self@,
    {
        self.entity
    }
}

impl BuildData {
    fn new(entity: Entity) -> (r: BuildData)
        ensures
            r@ == entity,
    {
        BuildData { entity }
    }

    /// The entity being built.
    pub fn entity(&self) -> (r: Entity)
        ensures
            r == self@,
    {
        self.entity
    }
}

impl ModifyData {
    fn new(entity: Entity) -> (r: ModifyData)
        ensures
            r@ == entity,
    {
        ModifyData { entity }
    }

    /// The entity being modified.
    pub fn entity(&self) -> (r: Entity)
        ensures
            r == self@,
    {
        self.entity
    }
}

/// Storage of all components, implemented by the host.
pub trait ComponentManager: Sized {
    /// The structural changes the store has gone through, oldest first.
    /// An implementation that verifies against this trait states its own
    /// log; the empty default stands for a store that records nothing.
    closed spec fn log(&self) -> Seq<Step> {
        Seq::empty()
    }

    /// An empty store.
    fn new() -> (r: Self)
        ensures
            r.log() == Seq::<Step>::empty(),
    ;

    /// Drops every component keyed by `en`.
    fn remove_all(&mut self, en: &Entity)
        ensures
            final(self).log() == old(self).log().push(Step::Purged(*en)),
    ;
}

/// Fills in the initial components of a new entity.
pub trait EntityBuilder<T: ComponentManager> {
    fn build(&mut self, e: BuildData, c: &mut T)
        ensures
            final(c).log() == old(c).log().push(Step::Built(e@)),
    ;
}

/// Changes the components of an existing entity.
pub trait EntityModifier<T: ComponentManager> {
    fn modify(&mut self, e: ModifyData, c: &mut T)
        ensures
            final(c).log() == old(c).log().push(Step::Modified(e@)),
    ;
}

/// The ordered set of systems of a world, implemented by the host.
///
/// Its log records each hook that ran, with the store's log as the hook saw it.
pub trait SystemManager<T: ComponentManager, B, M>: Sized {
    /// The hooks run so far, oldest first; empty by default, as for
    /// `ComponentManager::log`.
    closed spec fn log(&self) -> Seq<(Step, Seq<Step>)> {
        Seq::empty()
    }

    fn new() -> (r: Self)
        ensures
            r.log() == Seq::<(Step, Seq<Step>)>::empty(),
    ;

    fn activated(&mut self, en: EntityData, co: &T)
        ensures
            final(self).log() == old(self).log().push((Step::Activated(en@), co.log())),
    ;

    fn reactivated(&mut self, en: EntityData, co: &T)
        ensures
            final(self).log() == old(self).log().push((Step::Reactivated(en@), co.log())),
    ;

    fn deactivated(&mut self, en: EntityData, co: &T)
        ensures
            final(self).log() == old(self).log().push((Step::Deactivated(en@), co.log())),
    ;

    /// Runs the processing step of every system, in registration order.
    /// Structural changes it asks for only join the back of the queue.
    fn update(&mut self, co: &mut DataHelper<T, B, M>)
        ensures
            final(self).log() == old(self).log().push((Step::Processed, old(co).store().log())),
            final(co).registry().succeeds(&old(co).registry()),
            old(co).queue().len() <= final(co).queue().len(),
            final(co).queue().subrange(0, old(co).queue().len() as int) == old(co).queue(),
    ;
}

/// A structural change waiting in the queue.
pub enum Event<B, M> {
    BuildEntity(Entity, B),
    ModifyEntity(Entity, M),
    RemoveEntity(Entity),
}

impl<B, M> Event<B, M> {
    /// The entity the event is about.
    pub open spec fn target(self) -> Entity {
        match self {
            Event::BuildEntity(e, _) => e,
            Event::ModifyEntity(e, _) => e,
            Event::RemoveEntity(e) => e,
        }
    }
}

/// One observable step taken on the store or by the systems.
pub enum Step {
    /// A builder filled in the entity's components.
    Built(Entity),
    /// The systems' `activated` hook ran.
    Activated(Entity),
    /// A modifier changed the entity's components.
    Modified(Entity),
    /// The systems' `reactivated` hook ran.
    Reactivated(Entity),
    /// The systems' `deactivated` hook ran.
    Deactivated(Entity),
    /// The store dropped the entity's components.
    Purged(Entity),
    /// The systems' processing step ran.
    Processed,
}

/// The store's log after applying `ev`, when `live` is the set of valid
/// entities and `slog` the log before: unchanged for a stale entity.
pub open spec fn event_store<B, M>(live: Set<Entity>, slog: Seq<Step>, ev: Event<B, M>) -> Seq<Step> {
    let e = ev.target();
    if !live.contains(e) {
        slog
    } else {
        match ev {
            Event::BuildEntity(_, _) => slog.push(Step::Built(e)),
            Event::ModifyEntity(_, _) => slog.push(Step::Modified(e)),
            Event::RemoveEntity(_) => slog.push(Step::Purged(e)),
        }
    }
}

/// The hooks that applying `ev` runs, each with the store's log it sees:
/// activation after the build, reactivation after the change, deactivation
/// before the purge; none for a stale entity.
pub open spec fn event_hooks<B, M>(live: Set<Entity>, slog: Seq<Step>, ev: Event<B, M>) -> Seq<(Step, Seq<Step>)> {
    let e = ev.target();
    if !live.contains(e) {
        Seq::empty()
    } else {
        match ev {
            Event::BuildEntity(_, _) => seq![(Step::Activated(e), slog.push(Step::Built(e)))],
            Event::ModifyEntity(_, _) => seq![(Step::Reactivated(e), slog.push(Step::Modified(e)))],
            Event::RemoveEntity(_) => seq![(Step::Deactivated(e), slog)],
        }
    }
}

/// The valid entities after applying `ev`.
pub open spec fn event_live<B, M>(live: Set<Entity>, ev: Event<B, M>) -> Set<Entity> {
    match ev {
        Event::RemoveEntity(e) => live.remove(e),
        _ => live,
    }
}

/// The valid entities after applying every event of `q`, first to last.
pub open spec fn drain_live<B, M>(live: Set<Entity>, q: Seq<Event<B, M>>) -> Set<Entity>
    decreases q.len(),
{
    if q.len() == 0 {
        live
    } else {
        event_live(drain_live(live, q.drop_last()), q.last())
    }
}

/// The store's log after applying every event of `q`, first to last.
pub open spec fn drain_store<B, M>(live: Set<Entity>, slog: Seq<Step>, q: Seq<Event<B, M>>) -> Seq<Step>
    decreases q.len(),
{
    if q.len() == 0 {
        slog
    } else {
        event_store(drain_live(live, q.drop_last()), drain_store(live, slog, q.drop_last()), q.last())
    }
}

/// The hooks run by applying every event of `q`, first to last.
pub open spec fn drain_hooks<B, M>(live: Set<Entity>, slog: Seq<Step>, q: Seq<Event<B, M>>) -> Seq<(Step, Seq<Step>)>
    decreases q.len(),
{
    if q.len() == 0 {
        Seq::empty()
    } else {
        drain_hooks(live, slog, q.drop_last()) + event_hooks(
            drain_live(live, q.drop_last()),
            drain_store(live, slog, q.drop_last()),
            q.last(),
        )
    }
}

/// The part of the world that systems may touch while they process: the
/// components, the registry, and the queue that defers structural changes.
pub struct DataHelper<T, B, M> {
    pub components: T,
    entities: EntityManager,
    event_queue: VecDeque<Event<B, M>>,
}

impl<T, B, M> DataHelper<T, B, M> {
    /// The entity registry.
    pub closed spec fn registry(&self) -> EntityManager {
        self.entities
    }

    /// The component store.
    pub closed spec fn store(&self) -> T {
        self.components
    }

    /// The events waiting to be applied, oldest first.
    pub closed spec fn queue(&self) -> Seq<Event<B, M>> {
        self.event_queue@
    }

    /// The set of currently valid entities.
    pub open spec fn live(&self) -> Set<Entity> {
        self.registry().live()
    }

    fn new() -> (r: DataHelper<T, B, M>)
        where
            T: ComponentManager,
        ensures
            r.live() == Set::<Entity>::empty(),
            r.registry().slot_count() == 0,
            r.queue().len() == 0,
            r.store().log() == Seq::<Step>::empty(),
    {
        let entities = EntityManager::new();
        proof {
            assert(entities.live() =~= Set::<Entity>::empty());
        }
        DataHelper { components: T::new(), entities, event_queue: VecDeque::new() }
    }

    /// Runs `call` on a valid entity and the components, and returns what it
    /// returned; a stale handle runs nothing and gives `None`.
    pub fn with_entity_data<F, R>(&mut self, entity: &Entity, call: F) -> (r: Option<R>)
        where
            F: FnOnce(EntityData, &mut T) -> R,
        requires
            forall|d: EntityData, c: &mut T| call.requires((d, c)),
        ensures
            r is Some <==> old(self).live().contains(*entity),
            r is None ==> *final(self) == *old(self),
            final(self).registry() == old(self).registry(),
            final(self).queue() == old(self).queue(),
    {
        if self.entities.is_valid(entity) {
            Some(call(EntityData::new(*entity), &mut self.components))
        } else {
            None
        }
    }

    /// Whether `e` is currently valid.
    pub fn is_valid(&self, e: &Entity) -> (r: bool)
        ensures
            r == self.live().contains(*e),
    {
        self.entities.is_valid(e)
    }

    /// Every currently valid entity, each once.
    pub fn entities(&self) -> (r: Vec<Entity>)
        ensures
            r@.no_duplicates(),
            forall|e: Entity| r@.contains(e) <==> self.live().contains(e),
    {
        self.entities.entities()
    }

    /// The number of events waiting to be applied.
    pub fn pending(&self) -> (r: usize)
        ensures
            r == self.queue().len(),
    {
        self.event_queue.len()
    }

    /// Allocates a new entity now and queues its construction: the builder
    /// runs, and systems see the entity, when the queue is next drained.
    pub fn create_entity(&mut self, builder: B) -> (r: Entity)
        requires
            old(self).registry().has_room(),
        ensures
            !old(self).live().contains(r),
            !old(self).registry().is_retired(r),
            final(self).live() == old(self).live().insert(r),
            final(self).registry().succeeds(&old(self).registry()),
            final(self).registry().slot_count() <= old(self).registry().slot_count() + 1,
            final(self).queue() == old(self).queue().push(Event::BuildEntity(r, builder)),
            final(self).store() == old(self).store(),
    {
        let entity = self.entities.create();
        self.event_queue.push_back(Event::BuildEntity(entity, builder));
        entity
    }

    /// Queues a change of a valid entity; a stale handle queues nothing.
    pub fn modify_entity(&mut self, entity: Entity, modifier: M)
        ensures
            final(self).registry() == old(self).registry(),
            final(self).store() == old(self).store(),
            final(self).queue() == if old(self).live().contains(entity) {
                old(self).queue().push(Event::ModifyEntity(entity, modifier))
            } else {
                old(self).queue()
            },
    {
        if self.entities.is_valid(&entity) {
            self.event_queue.push_back(Event::ModifyEntity(entity, modifier));
        }
    }

    /// Queues the removal of a valid entity; a stale handle queues nothing.
    pub fn remove_entity(&mut self, entity: Entity)
        ensures
            final(self).registry() == old(self).registry(),
            final(self).store() == old(self).store(),
            final(self).queue() == if old(self).live().contains(entity) {
                old(self).queue().push(Event::RemoveEntity(entity))
            } else {
                old(self).queue()
            },
    {
        if self.entities.is_valid(&entity) {
            self.event_queue.push_back(Event::RemoveEntity(entity));
        }
    }
}


/// The top-level coordinator: the systems, and the data they work on.
pub struct World<T, U, B, M> {
    pub systems: U,
    pub data: DataHelper<T, B, M>,
}

impl<T, U, B, M> World<T, U, B, M> {
    /// The systems.
    pub closed spec fn sys(&self) -> U {
        self.systems
    }

    /// The data the systems work on.
    pub closed spec fn helper(&self) -> DataHelper<T, B, M> {
        self.data
    }
}

impl<T, U, B, M> World<T, U, B, M> where
    T: ComponentManager,
    U: SystemManager<T, B, M>,
    B: EntityBuilder<T>,
    M: EntityModifier<T>,
 {
    /// A world with no entities, no pending events, an empty store and
    /// systems that have seen nothing.
    pub fn new() -> (r: World<T, U, B, M>)
        ensures
            r.sys().log() == Seq::<(Step, Seq<Step>)>::empty(),
            r.helper().store().log() == Seq::<Step>::empty(),
            r.helper().live() == Set::<Entity>::empty(),
            r.helper().registry().slot_count() == 0,
            r.helper().queue().len() == 0,
    {
        World { systems: U::new(), data: DataHelper::new() }
    }

    /// Applies one event: builds then activates, modifies then reactivates,
    /// or deactivates, purges and invalidates. An event about an entity that
    /// is no longer valid changes nothing.
    fn process_event(&mut self, event: Event<B, M>)
        ensures
            final(self).sys().log() == old(self).sys().log() + event_hooks(
                old(self).helper().live(),
                old(self).helper().store().log(),
                event,
            ),
            final(self).helper().store().log() == event_store(
                old(self).helper().live(),
                old(self).helper().store().log(),
                event,
            ),
            final(self).helper().live() == event_live(old(self).helper().live(), event),
            final(self).helper().registry().succeeds(&old(self).helper().registry()),
            final(self).helper().registry().slot_count() == old(self).helper().registry().slot_count(),
            final(self).helper().queue() == old(self).helper().queue(),
            !old(self).helper().live().contains(event.target()) ==> {
                &&& final(self).sys() == old(self).sys()
                &&& final(self).helper() == old(self).helper()
            },
            !(event is RemoveEntity) ==> final(self).helper().registry() == old(self).helper().registry(),
    {
        let ghost live = self.data.live();
        match event {
            Event::BuildEntity(entity, mut builder) => {
                if self.data.entities.is_valid(&entity) {
                    builder.build(BuildData::new(entity), &mut self.data.components);
                    self.systems.activated(EntityData::new(entity), &self.data.components);
                }
            },
            Event::ModifyEntity(entity, mut modifier) => {
                if self.data.entities.is_valid(&entity) {
                    modifier.modify(ModifyData::new(entity), &mut self.data.components);
                    self.systems.reactivated(EntityData::new(entity), &self.data.components);
                }
            },
            Event::RemoveEntity(entity) => {
                if self.data.entities.is_valid(&entity) {
                    self.systems.deactivated(EntityData::new(entity), &self.data.components);
                    self.data.components.remove_all(&entity);
                    self.data.entities.remove(&entity);
                }
                proof {
                    assert(self.data.live() =~= live.remove(entity));
                }
            },
        }
        proof {
            assert(self.systems.log() =~= old(self).sys().log() + event_hooks(
                live,
                old(self).helper().store().log(),
                event,
            ));
        }
    }

    /// Applies every queued event, oldest first, and leaves the queue empty.
    /// The processing step does not run.
    fn flush_queue(&mut self)
        ensures
            final(self).sys().log() == old(self).sys().log() + drain_hooks(
                old(self).helper().live(),
                old(self).helper().store().log(),
                old(self).helper().queue(),
            ),
            final(self).helper().store().log() == drain_store(
                old(self).helper().live(),
                old(self).helper().store().log(),
                old(self).helper().queue(),
            ),
            final(self).helper().live() == drain_live(old(self).helper().live(), old(self).helper().queue()),
            final(self).helper().registry().succeeds(&old(self).helper().registry()),
            final(self).helper().registry().slot_count() == old(self).helper().registry().slot_count(),
            final(self).helper().queue().len() == 0,
            old(self).helper().queue().len() == 0 ==> *final(self) == *old(self),
    {
        if self.data.event_queue.len() == 0 {
            return;
        }
        let mut queue: VecDeque<Event<B, M>> = VecDeque::new();
        std::mem::swap(&mut queue, &mut self.data.event_queue);
        let ghost q0 = queue@;
        let ghost live0 = self.data.live();
        let ghost reg0 = self.data.registry();
        let ghost s0 = self.data.store().log();
        let ghost l0 = self.sys().log();
        while queue.len() > 0
            invariant
                q0.len() >= queue@.len(),
                q0 == q0.subrange(0, q0.len() - queue@.len()) + queue@,
                self.sys().log() == l0 + drain_hooks(live0, s0, q0.subrange(0, q0.len() - queue@.len())),
                self.data.store().log() == drain_store(live0, s0, q0.subrange(0, q0.len() - queue@.len())),
                self.data.live() == drain_live(live0, q0.subrange(0, q0.len() - queue@.len())),
                self.data.registry().succeeds(&reg0),
                self.data.registry().slot_count() == reg0.slot_count(),
                self.data.queue().len() == 0,
            decreases queue@.len(),
        {
            let ghost done = q0.subrange(0, q0.len() - queue@.len());
            let event = queue.pop_front().unwrap();
            proof {
                let next = q0.subrange(0, q0.len() - queue@.len());
                assert(next.drop_last() =~= done);
                assert(q0[q0.len() - queue@.len() - 1] == event);
                assert(next.last() == event);
                assert(q0 =~= next + queue@);
            }
            let ghost reg1 = self.data.registry();
            let ghost l1 = self.sys().log();
            self.process_event(event);
            proof {
                EntityManager::lemma_succeeds_trans(&reg0, &reg1, &self.data.registry());
                assert(self.sys().log() =~= l0 + drain_hooks(live0, s0, q0.subrange(0, q0.len() - queue@.len())));
            }
        }
        proof {
            assert(q0.subrange(0, q0.len() as int) =~= q0);
        }
    }

    /// Builds and activates a new entity now, after the events already
    /// queued have been applied, and returns it.
    pub fn create_entity(&mut self, builder: B) -> (r: Entity)
        requires
            old(self).helper().registry().has_room(),
        ensures
            !old(self).helper().live().contains(r),
            !old(self).helper().registry().is_retired(r),
            ({
                let drained = drain_live(old(self).helper().live(), old(self).helper().queue());
                let slog = drain_store(old(self).helper().live(), old(self).helper().store().log(), old(self).helper().queue());
                &&& !drained.contains(r)
                &&& final(self).helper().live() == drained.insert(r)
                &&& final(self).helper().store().log() == slog.push(Step::Built(r))
                &&& final(self).sys().log() == old(self).sys().log() + drain_hooks(
                    old(self).helper().live(),
                    old(self).helper().store().log(),
                    old(self).helper().queue(),
                ).push((Step::Activated(r), slog.push(Step::Built(r))))
            }),
            final(self).helper().registry().succeeds(&old(self).helper().registry()),
            final(self).helper().registry().slot_count() <= old(self).helper().registry().slot_count() + 1,
            final(self).helper().queue().len() == 0,
    {
        self.flush_queue();
        let ghost reg1 = self.data.registry();
        let entity = self.data.entities.create();
        proof {
            EntityManager::lemma_succeeds_trans(&old(self).helper().registry(), &reg1, &self.data.registry());
            if old(self).helper().registry().is_retired(entity) {
                assert(reg1.is_retired(entity));
            }
        }
        let mut builder = builder;
        builder.build(BuildData::new(entity), &mut self.data.components);
        self.systems.activated(EntityData::new(entity), &self.data.components);
        entity
    }

    /// Applies the events already queued, then, if `entity` is still valid,
    /// modifies it and reactivates it now; a stale handle changes nothing
    /// more.
    pub fn modify_entity(&mut self, entity: Entity, modifier: M)
        ensures
            ({
                let live = old(self).helper().live();
                let q = old(self).helper().queue();
                let drained = drain_live(live, q);
                let slog = drain_store(live, old(self).helper().store().log(), q);
                let ev = Event::<B, M>::ModifyEntity(entity, modifier);
                &&& final(self).helper().live() == drained
                &&& final(self).helper().store().log() == event_store(drained, slog, ev)
                &&& final(self).sys().log() == old(self).sys().log() + drain_hooks(
                    live,
                    old(self).helper().store().log(),
                    q,
                ) + event_hooks(drained, slog, ev)
            }),
            final(self).helper().registry().succeeds(&old(self).helper().registry()),
            final(self).helper().registry().slot_count() == old(self).helper().registry().slot_count(),
            final(self).helper().queue().len() == 0,
            old(self).helper().queue().len() == 0 && !old(self).helper().live().contains(entity) ==> {
                &&& final(self).sys() == old(self).sys()
                &&& final(self).helper() == old(self).helper()
            },
    {
        self.flush_queue();
        let ghost reg1 = self.data.registry();
        self.process_event(Event::ModifyEntity(entity, modifier));
        proof {
            EntityManager::lemma_succeeds_trans(&old(self).helper().registry(), &reg1, &self.data.registry());
        }
    }

    /// Queues the removal of a valid entity; it takes effect when the queue
    /// is next drained. A stale handle queues nothing.
    pub fn remove_entity(&mut self, entity: Entity)
        ensures
            final(self).sys() == old(self).sys(),
            final(self).helper().store() == old(self).helper().store(),
            final(self).helper().registry() == old(self).helper().registry(),
            final(self).helper().queue() == if old(self).helper().live().contains(entity) {
                old(self).helper().queue().push(Event::RemoveEntity(entity))
            } else {
                old(self).helper().queue()
            },
    {
        self.data.remove_entity(entity);
    }

    /// Runs `call` on a valid entity and the components, and returns what it
    /// returned; a stale handle runs nothing, changes nothing and gives `None`.
    pub fn with_entity_data<F, R>(&mut self, entity: &Entity, call: F) -> (r: Option<R>)
        where
            F: FnOnce(EntityData, &mut T) -> R,
        requires
            forall|d: EntityData, c: &mut T| call.requires((d, c)),
        ensures
            r is Some <==> old(self).helper().live().contains(*entity),
            final(self).sys() == old(self).sys(),
            final(self).helper().registry() == old(self).helper().registry(),
            final(self).helper().queue() == old(self).helper().queue(),
            r is None ==> final(self).helper() == old(self).helper(),
    {
        self.data.with_entity_data(entity, call)
    }

    /// Every currently valid entity, each once.
    pub fn entities(&self) -> (r: Vec<Entity>)
        ensures
            r@.no_duplicates(),
            forall|e: Entity| r@.contains(e) <==> self.helper().live().contains(e),
    {
        self.data.entities()
    }

    /// One tick: applies every queued event, oldest first, then runs the
    /// systems' processing step once, on the settled state. What processing
    /// queues stays queued for the next tick.
    pub fn update(&mut self)
        ensures
            ({
                let live = old(self).helper().live();
                let q = old(self).helper().queue();
                let slog = drain_store(live, old(self).helper().store().log(), q);
                &&& final(self).sys().log() == (old(self).sys().log() + drain_hooks(
                    live,
                    old(self).helper().store().log(),
                    q,
                )).push((Step::Processed, slog))
                &&& forall|e: Entity|
                    live.contains(e) && !drain_live(live, q).contains(e) ==> !#[trigger] final(self).helper().live().contains(e)
            }),
            final(self).helper().registry().succeeds(&old(self).helper().registry()),
    {
        self.flush_queue();
        let ghost reg1 = self.data.registry();
        self.systems.update(&mut self.data);
        proof {
            EntityManager::lemma_succeeds_trans(&old(self).helper().registry(), &reg1, &self.data.registry());
            assert forall|e: Entity|
                old(self).helper().live().contains(e) && !reg1.live().contains(e) implies !#[trigger] self.helper().live().contains(e) by {
                assert(reg1.is_retired(e));
                assert(self.data.registry().is_retired(e));
            }
        }
    }
}

impl<T, B, M> std::ops::Deref for DataHelper<T, B, M> {
    type Target = T;

    fn deref(&self) -> (r: &T)
        ensures
            *r == self.store(),
    {
        &self.components
    }
}

impl<T, B, M> std::ops::DerefMut for DataHelper<T, B, M> {
    fn deref_mut(&mut self) -> (r: &mut T)
        ensures
            *r == old(self).store(),
            final(self).store() == *final(r),
            final(self).registry() == old(self).registry(),
            final(self).queue() == old(self).queue(),
    {
        &mut self.components
    }
}

impl<T, U, B, M> std::ops::Deref for World<T, U, B, M> {
    type Target = DataHelper<T, B, M>;

    fn deref(&self) -> (r: &DataHelper<T, B, M>)
        ensures
            *r == self.helper(),
    {
        &self.data
    }
}

impl<T, U, B, M> std::ops::DerefMut for World<T, U, B, M> {
    fn deref_mut(&mut self) -> (r: &mut DataHelper<T, B, M>)
        ensures
            *r == old(self).helper(),
            final(self).helper() == *final(r),
            final(self).sys() == old(self).sys(),
    {
        &mut self.data
    }
}

} // verus!
