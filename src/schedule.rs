//! The phases that the engine adds to the host's post-update stage, and their order.
use vstd::prelude::*;

verus! {

/// The phases of the state machine within one tick.
#[derive(Debug, Clone, Copy, PartialEq, Eq, Structural)]
pub enum StateSet {
    /// Triggers are checked and transitions are made.
    Transition,
    /// Completion markers are removed from every entity.
    RemoveDoneMarkers,
}

/// The host's post-update stage: the phases it runs each tick, in order.
pub struct App {
    pub post_update: Vec<StateSet>,
}

/// The phases of `before` followed by the transition phase, unless it is there already, and then
/// by the phase that removes completion markers.
pub open spec fn with_trigger_phases(before: Seq<StateSet>) -> Seq<StateSet> {
    if before.contains(StateSet::Transition) {
        before.push(StateSet::RemoveDoneMarkers)
    } else {
        before.push(StateSet::Transition).push(StateSet::RemoveDoneMarkers)
    }
}

/// Whether `v` holds `set`.
fn has_set(v: &Vec<StateSet>, set: StateSet) -> (r: bool)
    ensures
        r == v@.contains(set),
{
    let mut i: usize = 0;
    while i < v.len()
        invariant
            0 <= i <= v@.len(),
            forall|k: int| 0 <= k < i ==> v@[k] != set,
        decreases v@.len() - i,
    {
        if v[i] == set {
            return true;
        }
        i = i + 1;
    }
    false
}

/// Adds the phase that removes completion markers to the post-update stage, after the transition
/// phase: every tick, markers are removed once all transitions have been made.
pub fn trigger_plugin(app: &mut App)
    ensures
        final(app).post_update@ == with_trigger_phases(old(app).post_update@),
        final(app).post_update@.last() == StateSet::RemoveDoneMarkers,
        exists|i: int|
            0 <= i < final(app).post_update@.len() - 1 && final(app).post_update@[i]
                == StateSet::Transition,
{
    if !has_set(&app.post_update, StateSet::Transition) {
        app.post_update.push(StateSet::Transition);
    }
    let ghost mid = app.post_update@;
    assert(mid.contains(StateSet::Transition)) by {
        if !old(app).post_update@.contains(StateSet::Transition) {
            assert(mid[mid.len() - 1] == StateSet::Transition);
        }
    }
    app.post_update.push(StateSet::RemoveDoneMarkers);
    proof {
        let i = choose|i: int| 0 <= i < mid.len() && mid[i] == StateSet::Transition;
        assert(app.post_update@[i] == StateSet::Transition);
    }
}

} // verus!
