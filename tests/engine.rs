use seldom_state::machine::{Source, StateMachine};
use seldom_state::state::{AnyState, DynState, MachineState, StateBuilder, StateView};
use seldom_state::trigger::{done, Done, DoneSystem, SystemTrigger, Trigger};
use seldom_state::world::{Entity, EntityData, World};

/// A trigger that fires when `fires` is set; with `once`, only on its first check after a reset.
struct Step {
    fires: bool,
    once: bool,
    fired: bool,
}

fn step(fires: bool) -> Step {
    Step { fires, once: false, fired: false }
}

fn once() -> Step {
    Step { fires: true, once: true, fired: false }
}

impl Trigger for Step {
    type Out = bool;

    fn spec_init(self, _world: World) -> Self {
        Step { fired: false, ..self }
    }

    fn spec_out(self, _entity: Entity, _world: World) -> bool {
        self.fires && !(self.once && self.fired)
    }

    fn spec_after_check(self, entity: Entity, world: World) -> Self {
        let fired = self.fired || self.fires;
        let _ = (entity, world);
        Step { fired, ..self }
    }

    fn init(&mut self, _world: &World) {
        self.fired = false;
    }

    fn check(&mut self, _entity: Entity, _world: &World) -> bool {
        let r = self.fires && !(self.once && self.fired);
        self.fired = self.fired || self.fires;
        r
    }
}

/// A builder that goes to a fixed state, or declines.
struct To {
    target: Option<(u64, Vec<u64>)>,
}

fn to(tag: u64, components: Vec<u64>) -> To {
    To { target: Some((tag, components)) }
}

fn decline() -> To {
    To { target: None }
}

impl StateBuilder<()> for To {
    fn spec_build(&self, _payload: ()) -> Option<StateView> {
        unreachable!()
    }

    fn build(&self, _payload: &()) -> Option<DynState> {
        self.target.as_ref().map(|(tag, components)| DynState { tag: *tag, components: components.clone() })
    }
}

const A: u64 = 1;
const B: u64 = 2;
const C: u64 = 3;

fn state(tag: u64, components: Vec<u64>) -> DynState {
    DynState { tag, components }
}

fn world_of(components: Vec<u64>, done: Option<Done>) -> World {
    World { entities: vec![EntityData { components, done }] }
}

const E: Entity = Entity { index: 0 };

#[test]
fn first_registered_transition_wins() {
    let mut m = StateMachine::new(state(A, vec![10]));
    m.add_transition(Source::State(A), step(true), to(B, vec![20]));
    m.add_transition(Source::State(A), step(true), to(C, vec![30]));
    let mut w = world_of(vec![10], None);
    assert!(m.transition(E, &mut w));
    assert_eq!(m.current.tag, B);
    assert_eq!(w.entities[0].components, vec![20]);
    // the later trigger was not checked
    assert!(!m.transitions[1].trigger.fired);
}

#[test]
fn declined_build_moves_on_to_the_next_transition() {
    let mut m = StateMachine::new(state(A, vec![10]));
    m.add_transition(Source::State(A), step(true), decline());
    m.add_transition(Source::State(A), step(true), to(C, vec![30]));
    let mut w = world_of(vec![10], None);
    assert!(m.transition(E, &mut w));
    assert_eq!(m.current.tag, C);
    assert_eq!(w.entities[0].components, vec![30]);
}

#[test]
fn no_firing_trigger_changes_nothing() {
    let mut m = StateMachine::new(state(A, vec![10]));
    m.add_transition(Source::State(A), step(false), to(B, vec![20]));
    m.add_transition(Source::State(B), step(true), to(C, vec![30]));
    let mut w = world_of(vec![10, 99], None);
    assert!(!m.transition(E, &mut w));
    assert_eq!(m.current.tag, A);
    assert_eq!(w.entities[0].components, vec![10, 99]);
}

#[test]
fn bundles_are_swapped_and_other_components_kept() {
    let mut m = StateMachine::new(state(A, vec![10, 11]));
    m.add_transition(Source::State(A), step(true), to(B, vec![20, 21]));
    let mut w = world_of(vec![5, 10, 11], None);
    assert!(m.transition(E, &mut w));
    assert_eq!(w.entities[0].components, vec![5, 20, 21]);
}

#[test]
fn shared_component_stays() {
    let mut m = StateMachine::new(state(A, vec![10, 11]));
    m.add_transition(Source::State(A), step(true), to(B, vec![11, 12]));
    let mut w = world_of(vec![10, 11], None);
    assert!(m.transition(E, &mut w));
    let comps = &w.entities[0].components;
    assert!(!comps.contains(&10));
    assert!(comps.contains(&11));
    assert!(comps.contains(&12));
}

#[test]
fn any_state_transition_leaves_every_state() {
    let mut m = StateMachine::new(state(B, vec![20]));
    m.add_transition(Source::State(A), step(true), to(C, vec![30]));
    m.add_transition(Source::Any(AnyState), step(true), to(A, vec![10]));
    let mut w = world_of(vec![20], None);
    assert!(m.transition(E, &mut w));
    assert_eq!(m.current.tag, A);
    assert!(m.transition(E, &mut w));
    assert_eq!(m.current.tag, C);
}

#[test]
fn reentering_a_state_resets_its_triggers() {
    let mut m = StateMachine::new(state(A, vec![]));
    m.add_transition(Source::State(A), once(), to(B, vec![]));
    m.add_transition(Source::State(B), step(true), to(A, vec![]));
    let mut w = world_of(vec![], None);
    assert!(m.transition(E, &mut w));
    assert_eq!(m.current.tag, B);
    assert!(m.transition(E, &mut w));
    assert_eq!(m.current.tag, A);
    // without the reset on entry the one-shot trigger would stay spent
    assert!(m.transition(E, &mut w));
    assert_eq!(m.current.tag, B);
}

#[test]
fn tick_removes_markers_whether_or_not_they_fired() {
    let mut m: StateMachine<SystemTrigger<DoneSystem>, To> = StateMachine::new(state(A, vec![]));
    m.add_transition(Source::State(A), done(Some(Done::Failure)), to(B, vec![]));
    let mut w = world_of(vec![], Some(Done::Success));
    assert!(!m.tick(E, &mut w));
    assert_eq!(w.entities[0].done, None);
    w.entities[0].done = Some(Done::Failure);
    assert!(m.tick(E, &mut w));
    assert_eq!(m.current.tag, B);
    assert_eq!(w.entities[0].done, None);
}

#[test]
fn done_marker_drives_a_transition() {
    let mut m: StateMachine<SystemTrigger<DoneSystem>, To> = StateMachine::new(state(A, vec![]));
    m.add_transition(Source::State(A), done(None), to(B, vec![2]));
    let mut w = world_of(vec![], None);
    assert!(!m.transition(E, &mut w));
    w.entities[0].done = Some(Done::Success);
    assert!(m.transition(E, &mut w));
    assert_eq!(w.entities[0].components, vec![2]);
}

#[test]
fn dyn_clone_copies_the_state() {
    let s = state(7, vec![1, 2, 3]);
    let c = s.dyn_clone();
    assert_eq!(c.tag, 7);
    assert_eq!(c.components, vec![1, 2, 3]);
    let d = s.to_dyn_state();
    assert_eq!(d.components, vec![1, 2, 3]);
}

#[test]
fn select_reports_the_winning_index() {
    let mut m = StateMachine::new(state(A, vec![]));
    m.add_transition(Source::State(B), step(true), to(C, vec![]));
    m.add_transition(Source::State(A), step(false), to(C, vec![]));
    m.add_transition(Source::State(A), step(true), to(B, vec![4]));
    let w = world_of(vec![], None);
    let (i, next) = m.select(E, &w).unwrap();
    assert_eq!(i, 2);
    assert_eq!(next.tag, B);
    assert_eq!(m.current.tag, A);
    // the transition from another state was not checked
    assert!(!m.transitions[0].trigger.fired);
}

#[test]
fn state_as_builder_goes_to_a_copy_of_itself() {
    let target = state(B, vec![4, 5]);
    let built = StateBuilder::<bool>::build(&target, &true).unwrap();
    assert_eq!(built.tag, B);
    assert_eq!(built.components, vec![4, 5]);
    let mut m: StateMachine<SystemTrigger<DoneSystem>, DynState> = StateMachine::new(state(A, vec![1]));
    m.add_transition(Source::State(A), done(None), state(C, vec![6]));
    let mut w = world_of(vec![1], Some(Done::Failure));
    assert!(m.tick(E, &mut w));
    assert_eq!(m.current.tag, C);
    assert_eq!(w.entities[0].components, vec![6]);
}
