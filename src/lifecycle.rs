//! Laws of the deferred event queue, stated over what the store and the
//! systems see.

use vstd::prelude::*;

use crate::entity::Entity;
use crate::world::{drain_hooks, drain_live, drain_store, event_hooks, event_store, Event, Step};

verus! {

/// Draining `a` and then `b` runs the hooks of `a` first, in order, then
/// those of `b` against the state `a` left behind.
pub proof fn lemma_drain_in_order<B, M>(
    live: Set<Entity>,
    slog: Seq<Step>,
    a: Seq<Event<B, M>>,
    b: Seq<Event<B, M>>,
)
    ensures
        drain_live(live, a + b) == drain_live(drain_live(live, a), b),
        drain_store(live, slog, a + b) == drain_store(drain_live(live, a), drain_store(live, slog, a), b),
        drain_hooks(live, slog, a + b) == drain_hooks(live, slog, a) + drain_hooks(
            drain_live(live, a),
            drain_store(live, slog, a),
            b,
        ),
    decreases b.len(),
{
    if b.len() == 0 {
        assert(a + b =~= a);
        assert(drain_hooks(live, slog, a) + Seq::<(Step, Seq<Step>)>::empty() =~= drain_hooks(live, slog, a));
    } else {
        assert((a + b).drop_last() =~= a + b.drop_last());
        lemma_drain_in_order(live, slog, a, b.drop_last());
        assert((a + b).last() == b.last());
        assert(drain_hooks(live, slog, a + b) =~= drain_hooks(live, slog, a) + drain_hooks(
            drain_live(live, a),
            drain_store(live, slog, a),
            b,
        ));
    }
}

/// Build, modify and remove of one entity followed by the build of another
/// reach the store and the systems exactly in that order.
pub proof fn lemma_fifo_lifecycle<B, M>(
    live: Set<Entity>,
    slog: Seq<Step>,
    e1: Entity,
    e2: Entity,
    b1: B,
    m1: M,
    b2: B,
)
    requires
        live.contains(e1),
        live.contains(e2),
        e1 != e2,
    ensures
        ({
            let q = seq![
                Event::<B, M>::BuildEntity(e1, b1),
                Event::ModifyEntity(e1, m1),
                Event::RemoveEntity(e1),
                Event::BuildEntity(e2, b2),
            ];
            let s1 = slog.push(Step::Built(e1));
            let s2 = s1.push(Step::Modified(e1));
            let s3 = s2.push(Step::Purged(e1));
            let s4 = s3.push(Step::Built(e2));
            &&& drain_store(live, slog, q) == s4
            &&& drain_hooks(live, slog, q) == seq![
                (Step::Activated(e1), s1),
                (Step::Reactivated(e1), s2),
                (Step::Deactivated(e1), s2),
                (Step::Activated(e2), s4),
            ]
        }),
{
    let q = seq![
        Event::<B, M>::BuildEntity(e1, b1),
        Event::ModifyEntity(e1, m1),
        Event::RemoveEntity(e1),
        Event::BuildEntity(e2, b2),
    ];
    assert(q.drop_last().drop_last().drop_last().drop_last() =~= Seq::<Event<B, M>>::empty());
    reveal_with_fuel(drain_hooks, 5);
    reveal_with_fuel(drain_store, 5);
    reveal_with_fuel(drain_live, 5);
    assert(live.remove(e1).contains(e2));
    let s1 = slog.push(Step::Built(e1));
    let s2 = s1.push(Step::Modified(e1));
    let s4 = s2.push(Step::Purged(e1)).push(Step::Built(e2));
    assert(drain_hooks(live, slog, q) =~= seq![
        (Step::Activated(e1), s1),
        (Step::Reactivated(e1), s2),
        (Step::Deactivated(e1), s2),
        (Step::Activated(e2), s4),
    ]);
}

/// A build queued behind events that never remove its entity is applied
/// when the queue drains: the builder runs, then the systems see the entity
/// activated, after everything queued before it.
pub proof fn lemma_queued_build_activated<B, M>(
    live: Set<Entity>,
    slog: Seq<Step>,
    q: Seq<Event<B, M>>,
    e: Entity,
    b: B,
)
    requires
        live.contains(e),
        forall|i: int| 0 <= i < q.len() ==> #[trigger] q[i] != Event::<B, M>::RemoveEntity(e),
    ensures
        drain_live(live, q).contains(e),
        drain_store(live, slog, q.push(Event::BuildEntity(e, b))) == drain_store(live, slog, q).push(
            Step::Built(e),
        ),
        drain_hooks(live, slog, q.push(Event::BuildEntity(e, b))) == drain_hooks(live, slog, q).push(
            (Step::Activated(e), drain_store(live, slog, q).push(Step::Built(e))),
        ),
    decreases q.len(),
{
    if q.len() > 0 {
        assert forall|i: int| 0 <= i < q.drop_last().len() implies #[trigger] q.drop_last()[i]
            != Event::<B, M>::RemoveEntity(e) by {
            assert(q.drop_last()[i] == q[i]);
        }
        lemma_queued_build_activated(live, slog, q.drop_last(), e, b);
        assert(q.last() == q[q.len() - 1]);
    }
    assert(q.push(Event::BuildEntity(e, b)).drop_last() =~= q);
    let h = drain_hooks(live, slog, q);
    let sl = drain_store(live, slog, q);
    assert(h + seq![(Step::Activated(e), sl.push(Step::Built(e)))] =~= h.push(
        (Step::Activated(e), sl.push(Step::Built(e))),
    ));
}

/// Removing a valid entity runs `deactivated` while the store still holds
/// everything it held, and only then purges the entity's components.
pub proof fn lemma_removal_order<B, M>(live: Set<Entity>, slog: Seq<Step>, e: Entity)
    requires
        live.contains(e),
    ensures
        event_hooks(live, slog, Event::<B, M>::RemoveEntity(e)) == seq![(Step::Deactivated(e), slog)],
        event_store(live, slog, Event::<B, M>::RemoveEntity(e)) == slog.push(Step::Purged(e)),
{
}

/// Two removals of one entity queued back to back deactivate and purge it
/// once: the second finds the entity already invalid and does nothing.
pub proof fn lemma_double_removal<B, M>(live: Set<Entity>, slog: Seq<Step>, e: Entity)
    requires
        live.contains(e),
    ensures
        ({
            let q = seq![Event::<B, M>::RemoveEntity(e), Event::RemoveEntity(e)];
            &&& drain_hooks(live, slog, q) == seq![(Step::Deactivated(e), slog)]
            &&& drain_store(live, slog, q) == slog.push(Step::Purged(e))
            &&& !drain_live(live, q).contains(e)
        }),
{
    let q = seq![Event::<B, M>::RemoveEntity(e), Event::RemoveEntity(e)];
    assert(q.drop_last().drop_last() =~= Seq::<Event<B, M>>::empty());
    reveal_with_fuel(drain_hooks, 3);
    reveal_with_fuel(drain_store, 3);
    reveal_with_fuel(drain_live, 3);
    assert(drain_hooks(live, slog, q) =~= seq![(Step::Deactivated(e), slog)]);
}

} // verus!
