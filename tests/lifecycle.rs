use std::cell::RefCell;
use std::collections::HashMap;

use ecs::{
    BuildData, ComponentManager, DataHelper, Entity, EntityBuilder, EntityData, EntityManager,
    EntityModifier, ModifyData, Process, System, SystemManager, World,
};

/// A store with one component kind, `a`, and a log shared by store and systems.
struct Store {
    a: HashMap<Entity, i32>,
    log: RefCell<Vec<String>>,
}

impl Store {
    fn note(&self, s: String) {
        self.log.borrow_mut().push(s);
    }
}

impl ComponentManager for Store {
    fn new() -> Self {
        Store { a: HashMap::new(), log: RefCell::new(Vec::new()) }
    }

    fn remove_all(&mut self, en: &Entity) {
        self.a.remove(en);
        self.note(format!("purge {}", en.index));
    }
}

struct WithA(i32);

impl EntityBuilder<Store> for WithA {
    fn build(&mut self, e: BuildData, c: &mut Store) {
        c.a.insert(e.entity(), self.0);
        c.note(format!("build {}", e.entity().index));
    }
}

struct SetA(i32);

impl EntityModifier<Store> for SetA {
    fn modify(&mut self, e: ModifyData, c: &mut Store) {
        c.a.insert(e.entity(), self.0);
        c.note(format!("modify {}", e.entity().index));
    }
}

/// A system that keeps the default `reactivated` and records what it sees.
struct Recorder {
    active: Vec<Entity>,
    seen: Vec<Vec<(usize, i32)>>,
    spawn_on_first_tick: bool,
    spawned: Option<Entity>,
    had_components_when_deactivated: Vec<bool>,
}

impl System for Recorder {
    type Components = Store;

    fn activated(&mut self, e: &EntityData, c: &Store) {
        self.active.push(e.entity());
        c.note(format!("activated {}", e.entity().index));
    }

    fn deactivated(&mut self, e: &EntityData, c: &Store) {
        self.active.retain(|x| *x != e.entity());
        self.had_components_when_deactivated.push(c.a.contains_key(&e.entity()));
        c.note(format!("deactivated {}", e.entity().index));
    }
}

impl Process<WithA, SetA> for Recorder {
    fn process(&mut self, co: &mut DataHelper<Store, WithA, SetA>) {
        let mut view: Vec<(usize, i32)> = Vec::new();
        for e in self.active.iter() {
            view.push((e.index, co.components.a[e]));
        }
        view.sort();
        self.seen.push(view);
        if self.spawn_on_first_tick && self.spawned.is_none() {
            self.spawned = Some(co.create_entity(WithA(7)));
        }
    }
}

struct Systems {
    rec: Recorder,
}

impl SystemManager<Store, WithA, SetA> for Systems {
    fn new() -> Self {
        Systems {
            rec: Recorder {
                active: Vec::new(),
                seen: Vec::new(),
                spawn_on_first_tick: false,
                spawned: None,
                had_components_when_deactivated: Vec::new(),
            },
        }
    }

    fn activated(&mut self, en: EntityData, co: &Store) {
        self.rec.activated(&en, co);
    }

    fn reactivated(&mut self, en: EntityData, co: &Store) {
        self.rec.reactivated(&en, co);
    }

    fn deactivated(&mut self, en: EntityData, co: &Store) {
        self.rec.deactivated(&en, co);
    }

    fn update(&mut self, co: &mut DataHelper<Store, WithA, SetA>) {
        if self.rec.is_active() {
            self.rec.process(co);
        }
    }
}

type TestWorld = World<Store, Systems, WithA, SetA>;

fn log_of(w: &TestWorld) -> Vec<String> {
    w.data.components.log.borrow().clone()
}

fn strs(v: &[&str]) -> Vec<String> {
    v.iter().map(|s| s.to_string()).collect()
}

#[test]
fn handle_valid_after_create_and_invalid_after_remove() {
    let mut reg = EntityManager::new();
    let e = reg.create();
    let copy = e;
    assert!(reg.is_valid(&e));
    reg.remove(&e);
    assert!(!reg.is_valid(&e));
    assert!(!reg.is_valid(&copy));
    let f = reg.create();
    assert_eq!(f.index, e.index);
    assert_eq!(f.generation, e.generation + 1);
    assert!(reg.is_valid(&f));
    assert!(!reg.is_valid(&copy));
    reg.remove(&f);
    let g = reg.create();
    assert!(reg.is_valid(&g));
    assert!(!reg.is_valid(&e));
    assert!(!reg.is_valid(&f));
}

#[test]
fn registry_fresh_handles_are_distinct() {
    let mut reg = EntityManager::new();
    let a = reg.create();
    let b = reg.create();
    let c = reg.create();
    assert_ne!(a, b);
    assert_ne!(b, c);
    assert_ne!(a, c);
    reg.remove(&b);
    let list = reg.entities();
    assert_eq!(list, vec![a, c]);
}

#[test]
fn registry_remove_stale_is_noop() {
    let mut reg = EntityManager::new();
    let a = reg.create();
    reg.remove(&a);
    reg.remove(&a);
    let b = reg.create();
    assert!(reg.is_valid(&b));
    reg.remove(&a);
    assert!(reg.is_valid(&b));
    assert_eq!(reg.entities(), vec![b]);
}

#[test]
fn drain_applies_events_in_fifo_order() {
    let mut w: TestWorld = World::new();
    let e1 = w.data.create_entity(WithA(1));
    w.data.modify_entity(e1, SetA(2));
    w.data.remove_entity(e1);
    let e2 = w.data.create_entity(WithA(3));
    assert_eq!(w.data.pending(), 4);
    assert!(log_of(&w).is_empty());
    w.update();
    let want = vec![
        format!("build {}", e1.index),
        format!("activated {}", e1.index),
        format!("modify {}", e1.index),
        format!("deactivated {}", e1.index),
        format!("activated {}", e1.index),
        format!("deactivated {}", e1.index),
        format!("purge {}", e1.index),
        format!("build {}", e2.index),
        format!("activated {}", e2.index),
    ];
    assert_eq!(log_of(&w), want);
    assert_eq!(w.data.pending(), 0);
    assert!(!w.data.is_valid(&e1));
    assert!(w.data.is_valid(&e2));
}

#[test]
fn entity_created_in_process_waits_for_next_tick() {
    let mut w: TestWorld = World::new();
    w.systems.rec.spawn_on_first_tick = true;
    w.update();
    let spawned = w.systems.rec.spawned.expect("created during the first tick");
    assert!(w.systems.rec.seen[0].is_empty());
    assert!(!log_of(&w).contains(&format!("activated {}", spawned.index)));
    assert_eq!(w.data.pending(), 1);
    w.update();
    assert!(log_of(&w).contains(&format!("activated {}", spawned.index)));
    assert_eq!(w.systems.rec.seen[1], vec![(spawned.index, 7)]);
}

#[test]
fn deactivated_runs_before_purge() {
    let mut w: TestWorld = World::new();
    let e = w.create_entity(WithA(5));
    w.remove_entity(e);
    assert!(w.data.is_valid(&e));
    w.update();
    assert_eq!(w.systems.rec.had_components_when_deactivated, vec![true]);
    assert!(!w.data.components.a.contains_key(&e));
    assert!(!w.data.is_valid(&e));
    let log = log_of(&w);
    let d = log.iter().position(|s| *s == format!("deactivated {}", e.index)).unwrap();
    let p = log.iter().position(|s| *s == format!("purge {}", e.index)).unwrap();
    assert!(d < p);
}

#[test]
fn second_removal_is_a_noop() {
    let mut w: TestWorld = World::new();
    let e = w.create_entity(WithA(1));
    w.remove_entity(e);
    w.remove_entity(e);
    assert_eq!(w.data.pending(), 2);
    w.update();
    let log = log_of(&w);
    assert_eq!(log.iter().filter(|s| **s == format!("deactivated {}", e.index)).count(), 1);
    assert_eq!(log.iter().filter(|s| **s == format!("purge {}", e.index)).count(), 1);
    w.remove_entity(e);
    assert_eq!(w.data.pending(), 0);
}

#[test]
fn default_reactivation_is_deactivate_then_activate() {
    let mut w: TestWorld = World::new();
    let e = w.create_entity(WithA(1));
    w.update();
    let before = log_of(&w).len();
    w.modify_entity(e, SetA(4));
    let log = log_of(&w);
    assert_eq!(
        log[before..].to_vec(),
        vec![
            format!("modify {}", e.index),
            format!("deactivated {}", e.index),
            format!("activated {}", e.index),
        ]
    );
}

#[test]
fn modify_between_ticks_is_seen_by_process() {
    let mut w: TestWorld = World::new();
    let e = w.create_entity(WithA(1));
    w.update();
    assert_eq!(w.systems.rec.seen[0], vec![(e.index, 1)]);
    let before = log_of(&w).len();
    w.modify_entity(e, SetA(2));
    w.update();
    assert_eq!(w.systems.rec.seen[1], vec![(e.index, 2)]);
    let between: Vec<String> = log_of(&w)[before..].to_vec();
    assert_eq!(
        between,
        vec![
            format!("modify {}", e.index),
            format!("deactivated {}", e.index),
            format!("activated {}", e.index),
        ]
    );
}

#[test]
fn immediate_create_builds_and_activates() {
    let mut w: TestWorld = World::new();
    let e = w.create_entity(WithA(9));
    assert_eq!(log_of(&w), strs(&["build 0", "activated 0"]));
    assert_eq!(w.data.components.a[&e], 9);
    assert_eq!(w.entities(), vec![e]);
}

#[test]
fn immediate_create_applies_earlier_queue_first() {
    let mut w: TestWorld = World::new();
    let e1 = w.create_entity(WithA(1));
    w.remove_entity(e1);
    let e2 = w.create_entity(WithA(2));
    assert_eq!(
        log_of(&w),
        strs(&["build 0", "activated 0", "deactivated 0", "purge 0", "build 0", "activated 0"])
    );
    assert_eq!(e2.index, e1.index);
    assert_ne!(e2, e1);
    assert_eq!(w.entities(), vec![e2]);
}

#[test]
fn stale_handle_gets_no_data() {
    let mut w: TestWorld = World::new();
    let e = w.create_entity(WithA(3));
    let got = w.with_entity_data(&e, |d, c: &mut Store| c.a[&d.entity()]);
    assert_eq!(got, Some(3));
    w.remove_entity(e);
    w.update();
    let got = w.with_entity_data(&e, |d, c: &mut Store| c.a[&d.entity()]);
    assert_eq!(got, None);
    let got = w.data.with_entity_data(&e, |_d, _c: &mut Store| 1);
    assert_eq!(got, None);
}

#[test]
fn with_entity_data_can_write_components() {
    let mut w: TestWorld = World::new();
    let e = w.create_entity(WithA(3));
    let r = w.with_entity_data(&e, |d, c: &mut Store| {
        c.a.insert(d.entity(), 8);
    });
    assert_eq!(r, Some(()));
    assert_eq!(w.data.components.a[&e], 8);
}

#[test]
fn modify_of_stale_handle_does_nothing() {
    let mut w: TestWorld = World::new();
    let e = w.create_entity(WithA(1));
    w.remove_entity(e);
    w.update();
    let before = log_of(&w).len();
    w.modify_entity(e, SetA(5));
    w.data.modify_entity(e, SetA(6));
    assert_eq!(w.data.pending(), 0);
    w.update();
    assert_eq!(log_of(&w).len(), before);
}

#[test]
fn default_system_is_active() {
    let s = Systems::new();
    assert!(s.rec.is_active());
}

#[test]
fn world_derefs_to_data_and_components() {
    let mut w: TestWorld = World::new();
    let e = w.create_entity(WithA(4));
    assert_eq!(w.a[&e], 4);
    w.a.insert(e, 6);
    assert_eq!(w.data.components.a[&e], 6);
    let f = w.data.create_entity(WithA(1));
    assert_eq!(w.pending(), 1);
    assert!(w.is_valid(&f));
}
