//! Control core of an entity-component-system runtime: a generational
//! entity registry, a deferred event queue and the world that drains it and
//! notifies systems in a fixed order.

pub mod entity;
pub mod lifecycle;
pub mod system;
pub mod world;

pub use entity::{Entity, EntityManager};
pub use system::{Process, System};
pub use world::{
    BuildData, ComponentManager, DataHelper, EntityBuilder, EntityData, EntityModifier, Event,
    ModifyData, Step, SystemManager, World,
};
