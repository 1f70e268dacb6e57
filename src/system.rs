//! The capability a single system offers the world.

use vstd::prelude::*;

use crate::entity::Entity;
use crate::world::{DataHelper, EntityData};

verus! {

/// Generic base system type.
///
/// `on_activated` and `on_deactivated` say what the two hooks do to the
/// system; by default they leave it as it is.
pub trait System: Sized {
    type Components;

    /// The system after its `activated` hook ran for `e`.
    closed spec fn on_activated(self, e: Entity) -> Self {
        self
    }

    /// The system after its `deactivated` hook ran for `e`.
    closed spec fn on_deactivated(self, e: Entity) -> Self {
        self
    }

    /// Called when an entity is activated. Does nothing by default.
    fn activated(&mut self, e: &EntityData, c: &Self::Components)
        ensures
            *final(self) == old(self).on_activated(e@),
    ;

    /// Called when an entity is reactivated. By default it calls
    /// `deactivated` followed by `activated`.
    fn reactivated(&mut self, e: &EntityData, c: &Self::Components)
        default_ensures
            *final(self) == old(self).on_deactivated(e@).on_activated(e@),
    {
        self.deactivated(e, c);
        self.activated(e, c);
    }

    /// Called when an entity is deactivated. Does nothing by default.
    fn deactivated(&mut self, e: &EntityData, c: &Self::Components)
        ensures
            *final(self) == old(self).on_deactivated(e@),
    ;

    /// Whether the system takes part in this tick. Always by default.
    fn is_active(&self) -> (r: bool)
        default_ensures
            r,
    {
        true
    }
}

/// A system with a processing step.
pub trait Process<B, M>: System {
    /// Processes the world.
    fn process(&mut self, co: &mut DataHelper<<Self as System>::Components, B, M>);
}

} // verus!
