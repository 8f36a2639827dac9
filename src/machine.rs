//! The transition engine: once per tick it checks the triggers that leave an entity's current
//! state, in the order they were registered, and moves the entity to the state that the first
//! firing trigger's builder gives.
use crate::state::{AnyState, DynState, StateBuilder, StateView};
use crate::trigger::{outcome, remove_done_markers, Payload, Trigger, TriggerOut};
use crate::world::{Entity, World};
use vstd::prelude::*;

verus! {

/// The state that a transition leaves from: any state, or the state with the given tag.
#[derive(Debug, Clone, Copy, PartialEq, Eq, Structural)]
pub enum Source {
    Any(AnyState),
    State(u64),
}

/// Whether a transition registered from `source` leaves the state tagged `tag`.
pub open spec fn leaves(source: Source, tag: u64) -> bool {
    match source {
        Source::Any(_) => true,
        Source::State(t) => t == tag,
    }
}

/// One edge of the machine: from `source`, when `trigger` fires, to what `builder` gives.
pub struct Transition<T, B> {
    pub source: Source,
    pub trigger: T,
    pub builder: B,
}

/// The machine of one entity: its transitions in registration order, and its current state.
pub struct StateMachine<T, B> {
    pub transitions: Vec<Transition<T, B>>,
    pub current: DynState,
}

/// The first transition at index `i` or later that leaves the state tagged `tag`, whose trigger
/// succeeds and whose builder accepts the payload, with the state built.
pub open spec fn scan<T: Trigger, B: StateBuilder<Payload<T>>>(
    ts: Seq<Transition<T, B>>,
    tag: u64,
    entity: Entity,
    world: World,
    i: int,
) -> Option<(int, StateView)>
    decreases ts.len() - i,
{
    if i < 0 || i >= ts.len() {
        None
    } else if !leaves(ts[i].source, tag) {
        scan(ts, tag, entity, world, i + 1)
    } else {
        match outcome(ts[i].trigger, entity, world) {
            Ok(p) => match ts[i].builder.spec_build(p) {
                Some(s) => Some((i, s)),
                None => scan(ts, tag, entity, world, i + 1),
            },
            Err(_) => scan(ts, tag, entity, world, i + 1),
        }
    }
}

/// A scan from index `i` finds a transition at `i` or later that leaves the state, fires, and
/// whose builder accepts the payload.
pub proof fn lemma_scan_winner<T: Trigger, B: StateBuilder<Payload<T>>>(
    ts: Seq<Transition<T, B>>,
    tag: u64,
    entity: Entity,
    world: World,
    i: int,
)
    requires
        0 <= i,
    ensures
        scan(ts, tag, entity, world, i) matches Some(w) ==> {
            &&& i <= w.0 < ts.len()
            &&& leaves(ts[w.0].source, tag)
            &&& outcome(ts[w.0].trigger, entity, world) matches Ok(p)
            &&& ts[w.0].builder.spec_build(p) == Some(w.1)
        },
    decreases ts.len() - i,
{
    if i < ts.len() {
        lemma_scan_winner(ts, tag, entity, world, i + 1);
    }
}

/// Whether the scan that found `winner` checks the trigger at index `j`: those that leave the
/// current state, up to the winner.
pub open spec fn checked<T, B>(
    ts: Seq<Transition<T, B>>,
    tag: u64,
    winner: Option<(int, StateView)>,
    j: int,
) -> bool {
    leaves(ts[j].source, tag) && (winner is None || j <= (winner->0).0)
}

/// The trigger at index `j` after the scan that found `winner`.
pub open spec fn after_scan<T: Trigger, B>(
    ts: Seq<Transition<T, B>>,
    tag: u64,
    winner: Option<(int, StateView)>,
    entity: Entity,
    world: World,
    j: int,
) -> T {
    if checked(ts, tag, winner, j) {
        ts[j].trigger.spec_after_check(entity, world)
    } else {
        ts[j].trigger
    }
}

/// The trigger at index `j` after one tick that starts from `world` and ends in `after`: checked
/// if the scan reached it; then reset, if a transition was taken and it leaves the new state.
pub open spec fn reset_after_tick<T: Trigger, B: StateBuilder<Payload<T>>>(
    ts: Seq<Transition<T, B>>,
    tag: u64,
    entity: Entity,
    world: World,
    after: World,
    j: int,
) -> T {
    let winner = scan(ts, tag, entity, world, 0);
    let checked = after_scan(ts, tag, winner, entity, world, j);
    match winner {
        Some(w) => if leaves(ts[j].source, w.1.0) {
            checked.spec_init(after)
        } else {
            checked
        },
        None => checked,
    }
}

/// Whether `id` occurs in `v`.
fn has_id(v: &Vec<u64>, id: u64) -> (r: bool)
    ensures
        r == v@.contains(id),
{
    let mut i: usize = 0;
    while i < v.len()
        invariant
            0 <= i <= v@.len(),
            forall|k: int| 0 <= k < i ==> v@[k] != id,
        decreases v@.len() - i,
    {
        if v[i] == id {
            return true;
        }
        i = i + 1;
    }
    false
}

/// Whether the component ids `after` are those of `before` that are not in `removed`, together
/// with those of `added`.
pub open spec fn bundle_swapped(
    before: Seq<u64>,
    removed: Seq<u64>,
    added: Seq<u64>,
    after: Seq<u64>,
) -> bool {
    forall|c: u64|
        #![trigger after.contains(c)]
        after.contains(c) <==> ((before.contains(c) && !removed.contains(c)) || added.contains(c))
}

proof fn lemma_push_contains(s: Seq<u64>, c: u64, x: u64)
    ensures
        s.push(c).contains(x) <==> (s.contains(x) || x == c),
{
    if s.contains(x) {
        let m = choose|m: int| 0 <= m < s.len() && s[m] == x;
        assert(s.push(c)[m] == x);
    }
    if x == c {
        assert(s.push(c)[s.len() as int] == x);
    }
    if s.push(c).contains(x) {
        let m = choose|m: int| 0 <= m < s.len() + 1 && s.push(c)[m] == x;
        if m < s.len() {
            assert(s[m] == x);
        }
    }
}

/// The components of `comps` that are not in `removed`, followed by those of `added`.
fn swap_bundle(comps: &Vec<u64>, removed: &Vec<u64>, added: &Vec<u64>) -> (r: Vec<u64>)
    ensures
        bundle_swapped(comps@, removed@, added@, r@),
{
    let mut r: Vec<u64> = Vec::new();
    let mut i: usize = 0;
    while i < comps.len()
        invariant
            0 <= i <= comps@.len(),
            forall|c: u64|
                #![trigger r@.contains(c)]
                r@.contains(c) <==> (comps@.subrange(0, i as int).contains(c) && !removed@.contains(
                    c,
                )),
        decreases comps@.len() - i,
    {
        let c = comps[i];
        let ghost prev = r@;
        if !has_id(removed, c) {
            r.push(c);
        }
        assert(comps@.subrange(0, i + 1) == comps@.subrange(0, i as int).push(c));
        assert forall|x: u64|
            #![trigger r@.contains(x)]
            r@.contains(x) <==> (comps@.subrange(0, i + 1).contains(x) && !removed@.contains(
                x,
            )) by {
            lemma_push_contains(comps@.subrange(0, i as int), c, x);
            lemma_push_contains(prev, c, x);
        }
        i = i + 1;
    }
    assert(comps@.subrange(0, comps@.len() as int) == comps@);
    let mut j: usize = 0;
    while j < added.len()
        invariant
            0 <= j <= added@.len(),
            forall|c: u64|
                #![trigger r@.contains(c)]
                r@.contains(c) <==> ((comps@.contains(c) && !removed@.contains(c))
                    || added@.subrange(0, j as int).contains(c)),
        decreases added@.len() - j,
    {
        let c = added[j];
        let ghost prev = r@;
        r.push(c);
        assert(added@.subrange(0, j + 1) == added@.subrange(0, j as int).push(c));
        assert forall|x: u64|
            #![trigger r@.contains(x)]
            r@.contains(x) <==> ((comps@.contains(x) && !removed@.contains(x))
                || added@.subrange(0, j + 1).contains(x)) by {
            lemma_push_contains(added@.subrange(0, j as int), c, x);
            lemma_push_contains(prev, c, x);
        }
        j = j + 1;
    }
    assert(added@.subrange(0, added@.len() as int) == added@);
    r
}

impl<T: Trigger, B: StateBuilder<Payload<T>>> StateMachine<T, B> {
    /// A machine in state `initial`, with no transitions yet.
    pub fn new(initial: DynState) -> (r: Self)
        ensures
            r.current == initial,
            r.transitions@.len() == 0,
    {
        StateMachine { transitions: Vec::new(), current: initial }
    }

    /// Registers a transition after those already registered: from `source`, when `trigger`
    /// fires, to what `builder` gives.
    pub fn add_transition(&mut self, source: Source, trigger: T, builder: B)
        ensures
            final(self).current == old(self).current,
            final(self).transitions@ == old(self).transitions@.push(
                Transition { source, trigger, builder },
            ),
    {
        self.transitions.push(Transition { source, trigger, builder });
    }

    /// The check phase: checks, in registration order, the triggers of the transitions that
    /// leave the current state, and stops at the first one that fires and whose builder accepts
    /// its payload. Returns that transition's index and the state built. A builder that declines
    /// counts as a trigger that failed. Reads the world and changes nothing but the triggers.
    pub fn select(&mut self, entity: Entity, world: &World) -> (r: Option<(usize, DynState)>)
        ensures
            final(self).current == old(self).current,
            final(self).transitions@.len() == old(self).transitions@.len(),
            match r {
                None => scan(old(self).transitions@, old(self).current.tag, entity, *world, 0) is None,
                Some(w) => scan(old(self).transitions@, old(self).current.tag, entity, *world, 0)
                    == Some((w.0 as int, w.1@)),
            },
            forall|j: int|
                0 <= j < final(self).transitions@.len() ==> {
                    &&& (#[trigger] final(self).transitions@[j]).source
                        == old(self).transitions@[j].source
                    &&& final(self).transitions@[j].builder == old(self).transitions@[j].builder
                    &&& final(self).transitions@[j].trigger == after_scan(
                        old(self).transitions@,
                        old(self).current.tag,
                        scan(old(self).transitions@, old(self).current.tag, entity, *world, 0),
                        entity,
                        *world,
                        j,
                    )
                },
    {
        let ghost ts0 = self.transitions@;
        let ghost winner = scan(ts0, self.current.tag, entity, *world, 0);
        let n = self.transitions.len();
        let tag = self.current.tag;
        let mut i: usize = 0;
        while i < n
            invariant
                0 <= i <= n,
                n == ts0.len(),
                self.transitions@.len() == n,
                self.current == old(self).current,
                ts0 == old(self).transitions@,
                tag == self.current.tag,
                winner == scan(ts0, tag, entity, *world, 0),
                winner == scan(ts0, tag, entity, *world, i as int),
                forall|j: int|
                    0 <= j < n ==> {
                        &&& (#[trigger] self.transitions@[j]).source == ts0[j].source
                        &&& self.transitions@[j].builder == ts0[j].builder
                        &&& j < i ==> self.transitions@[j].trigger == after_scan(
                            ts0,
                            tag,
                            winner,
                            entity,
                            *world,
                            j,
                        )
                        &&& j >= i ==> self.transitions@[j].trigger == ts0[j].trigger
                    },
            decreases n - i,
        {
            let applies = match self.transitions[i].source {
                Source::Any(_) => true,
                Source::State(t) => t == tag,
            };
            proof {
                lemma_scan_winner(ts0, tag, entity, *world, i + 1);
            }
            if applies {
                let out = self.transitions[i].trigger.check(entity, world);
                match out.into_result() {
                    Ok(p) => {
                        let built = self.transitions[i].builder.build(&p);
                        match built {
                            Some(next) => {
                                return Some((i, next));
                            },
                            None => {},
                        }
                    },
                    Err(_) => {},
                }
            }
            i = i + 1;
        }
        None
    }

    /// The mutation phase: takes the current state's components off `entity`, puts those of
    /// `next` on it, makes `next` the current state, and resets (`init`) the trigger of every
    /// transition that leaves `next`, so that no bookkeeping of an earlier visit remains.
    pub fn apply(&mut self, entity: Entity, world: &mut World, next: DynState)
        requires
            old(world).contains(entity),
        ensures
            final(self).current@ == next@,
            final(world).entities@.len() == old(world).entities@.len(),
            forall|i: int|
                0 <= i < final(world).entities@.len() && i != entity.index ==> (#[trigger] final(world).entities@[i]) == old(world).entities@[i],
            final(world).done_of(entity) == old(world).done_of(entity),
            bundle_swapped(
                old(world).components_of(entity),
                old(self).current.components@,
                next.components@,
                final(world).components_of(entity),
            ),
            final(self).transitions@.len() == old(self).transitions@.len(),
            forall|j: int|
                0 <= j < final(self).transitions@.len() ==> {
                    &&& (#[trigger] final(self).transitions@[j]).source
                        == old(self).transitions@[j].source
                    &&& final(self).transitions@[j].builder == old(self).transitions@[j].builder
                    &&& final(self).transitions@[j].trigger == if leaves(
                        old(self).transitions@[j].source,
                        next.tag,
                    ) {
                        old(self).transitions@[j].trigger.spec_init(*final(world))
                    } else {
                        old(self).transitions@[j].trigger
                    }
                },
    {
        let idx = entity.index;
        let swapped = swap_bundle(
            &world.entities[idx].components,
            &self.current.components,
            &next.components,
        );
        world.entities[idx].components = swapped;
        self.current = next;
        let tag = self.current.tag;
        let ghost ts0 = self.transitions@;
        let n = self.transitions.len();
        let mut j: usize = 0;
        while j < n
            invariant
                0 <= j <= n,
                n == ts0.len(),
                ts0 == old(self).transitions@,
                self.transitions@.len() == n,
                self.current@ == next@,
                tag == next.tag,
                forall|k: int|
                    0 <= k < n ==> {
                        &&& (#[trigger] self.transitions@[k]).source == ts0[k].source
                        &&& self.transitions@[k].builder == ts0[k].builder
                        &&& self.transitions@[k].trigger == if k < j && leaves(ts0[k].source, tag) {
                            ts0[k].trigger.spec_init(*world)
                        } else {
                            ts0[k].trigger
                        }
                    },
            decreases n - j,
        {
            let applies = match self.transitions[j].source {
                Source::Any(_) => true,
                Source::State(t) => t == tag,
            };
            if applies {
                self.transitions[j].trigger.init(world);
            }
            j = j + 1;
        }
    }

    /// One tick of the engine for `entity`: the check phase, then, where a transition was
    /// selected, the mutation phase. Returns whether the entity changed state.
    pub fn transition(&mut self, entity: Entity, world: &mut World) -> (r: bool)
        requires
            old(world).contains(entity),
        ensures
            r == scan(old(self).transitions@, old(self).current.tag, entity, *old(world), 0) is Some,
            final(self).transitions@.len() == old(self).transitions@.len(),
            final(world).entities@.len() == old(world).entities@.len(),
            forall|i: int|
                0 <= i < final(world).entities@.len() && i != entity.index ==> (#[trigger] final(world).entities@[i]) == old(world).entities@[i],
            final(world).done_of(entity) == old(world).done_of(entity),
            match scan(old(self).transitions@, old(self).current.tag, entity, *old(world), 0) {
                None => {
                    &&& final(self).current == old(self).current
                    &&& final(world).entities@ == old(world).entities@
                },
                Some(w) => {
                    &&& final(self).current@ == w.1
                    &&& bundle_swapped(
                        old(world).components_of(entity),
                        old(self).current.components@,
                        w.1.1,
                        final(world).components_of(entity),
                    )
                },
            },
            forall|j: int|
                0 <= j < final(self).transitions@.len() ==> {
                    &&& (#[trigger] final(self).transitions@[j]).source
                        == old(self).transitions@[j].source
                    &&& final(self).transitions@[j].builder == old(self).transitions@[j].builder
                    &&& final(self).transitions@[j].trigger == reset_after_tick(
                        old(self).transitions@,
                        old(self).current.tag,
                        entity,
                        *old(world),
                        *final(world),
                        j,
                    )
                },
    {
        let selected = self.select(entity, world);
        match selected {
            None => false,
            Some((_, next)) => {
                self.apply(entity, world, next);
                true
            },
        }
    }

    /// A whole tick for `entity`, phase after phase: the transition phase, then the removal of
    /// completion markers from every entity, whether or not a marker made a transition.
    pub fn tick(&mut self, entity: Entity, world: &mut World) -> (r: bool)
        requires
            old(world).contains(entity),
        ensures
            r == scan(old(self).transitions@, old(self).current.tag, entity, *old(world), 0) is Some,
            final(world).entities@.len() == old(world).entities@.len(),
            forall|e: Entity| #[trigger] final(world).done_of(e) is None,
    {
        let r = self.transition(entity, world);
        remove_done_markers(world);
        r
    }
}

/// Registration order is priority: when the transitions at `x` and `y > x` both leave the
/// current state and both would fire with an accepting builder, the tick never takes `y`; it
/// takes `x`, or an earlier transition.
pub proof fn lemma_first_registered_wins<T: Trigger, B: StateBuilder<Payload<T>>>(
    ts: Seq<Transition<T, B>>,
    tag: u64,
    entity: Entity,
    world: World,
    x: int,
    y: int,
)
    requires
        0 <= x < y < ts.len(),
        leaves(ts[x].source, tag),
        leaves(ts[y].source, tag),
        outcome(ts[x].trigger, entity, world) matches Ok(p) && ts[x].builder.spec_build(p) is Some,
        outcome(ts[y].trigger, entity, world) matches Ok(q) && ts[y].builder.spec_build(q) is Some,
    ensures
        scan(ts, tag, entity, world, 0) matches Some(w) && w.0 <= x && w.0 != y,
{
    lemma_scan_reaches(ts, tag, entity, world, 0, x);
}

/// A scan from `i` that passes over no winner before `x` stops at `x` or earlier, when `x` would
/// win.
proof fn lemma_scan_reaches<T: Trigger, B: StateBuilder<Payload<T>>>(
    ts: Seq<Transition<T, B>>,
    tag: u64,
    entity: Entity,
    world: World,
    i: int,
    x: int,
)
    requires
        0 <= i <= x < ts.len(),
        leaves(ts[x].source, tag),
        outcome(ts[x].trigger, entity, world) matches Ok(p) && ts[x].builder.spec_build(p) is Some,
    ensures
        scan(ts, tag, entity, world, i) matches Some(w) && i <= w.0 <= x,
    decreases x - i,
{
    if i < x {
        lemma_scan_reaches(ts, tag, entity, world, i + 1, x);
    }
}

/// A builder that declines does not end the tick: the scan goes on with the next transition, as
/// if the trigger had failed.
pub proof fn lemma_decline_continues<T: Trigger, B: StateBuilder<Payload<T>>>(
    ts: Seq<Transition<T, B>>,
    tag: u64,
    entity: Entity,
    world: World,
    i: int,
)
    requires
        0 <= i < ts.len(),
        leaves(ts[i].source, tag),
        outcome(ts[i].trigger, entity, world) matches Ok(p) && ts[i].builder.spec_build(p) is None,
    ensures
        scan(ts, tag, entity, world, i) == scan(ts, tag, entity, world, i + 1),
{
}

/// After a transition the entity carries every component of the new state, and no component of
/// the old state that the new state does not have: never both bundles, never neither.
pub proof fn lemma_bundles_swapped(
    before: Seq<u64>,
    old_bundle: Seq<u64>,
    new_bundle: Seq<u64>,
    after: Seq<u64>,
)
    requires
        bundle_swapped(before, old_bundle, new_bundle, after),
    ensures
        forall|c: u64| #[trigger] new_bundle.contains(c) ==> after.contains(c),
        forall|c: u64|
            #[trigger] old_bundle.contains(c) && !new_bundle.contains(c) ==> !after.contains(c),
        forall|c: u64|
            !old_bundle.contains(c) && !new_bundle.contains(c) ==> (#[trigger] after.contains(c)
                <==> before.contains(c)),
{
}

/// Entering a state resets the trigger of every transition that leaves it: after a tick that
/// takes a transition, each such trigger is what `init` makes of it, whatever a check in that
/// tick or an earlier visit left in it.
pub proof fn lemma_entry_resets<T: Trigger, B: StateBuilder<Payload<T>>>(
    ts: Seq<Transition<T, B>>,
    tag: u64,
    entity: Entity,
    world: World,
    after: World,
    j: int,
)
    requires
        0 <= j < ts.len(),
        scan(ts, tag, entity, world, 0) matches Some(w) && leaves(ts[j].source, w.1.0),
    ensures
        reset_after_tick(ts, tag, entity, world, after, j) == after_scan(
            ts,
            tag,
            scan(ts, tag, entity, world, 0),
            entity,
            world,
            j,
        ).spec_init(after),
{
}

} // verus!
