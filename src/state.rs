//! States and state builders. A state is a bundle of components that an entity carries while it
//! is in that state; [`DynState`] is the form in which the engine holds any state.
use vstd::prelude::*;

verus! {

/// What the engine knows of a state: its tag, and the ids of the components in its bundle.
pub type StateView = (u64, Seq<u64>);

/// A state that an entity may be in. It must be clonable and it must say which components it
/// stands for, so that it can be put on an entity and taken off again.
pub trait MachineState: Sized {
    /// The tag and the bundle of this state.
    spec fn spec_state(&self) -> StateView;

    /// The type-erased form of this state.
    fn to_dyn_state(&self) -> (r: DynState)
        ensures
            r@ == self.spec_state(),
    ;
}

/// State that represents any state. Transitions from [`AnyState`] may transition from any other
/// state. It is never put on an entity.
#[derive(Debug, Clone, Copy, PartialEq, Eq, Structural)]
pub struct AnyState;

/// A state in type-erased form: its tag and the ids of the components in its bundle.
pub struct DynState {
    pub tag: u64,
    pub components: Vec<u64>,
}

impl View for DynState {
    type V = StateView;

    open spec fn view(&self) -> StateView {
        (self.tag, self.components@)
    }
}

/// Copies a list of component ids.
fn copy_ids(v: &Vec<u64>) -> (r: Vec<u64>)
    ensures
        r@ == v@,
{
    let mut r: Vec<u64> = Vec::new();
    let mut i: usize = 0;
    while i < v.len()
        invariant
            0 <= i <= v@.len(),
            r@ == v@.subrange(0, i as int),
        decreases v@.len() - i,
    {
        r.push(v[i]);
        i = i + 1;
    }
    assert(r@ =~= v@);
    r
}

impl DynState {
    /// A copy of this state.
    pub fn dyn_clone(&self) -> (r: DynState)
        ensures
            r@ == self@,
    {
        DynState { tag: self.tag, components: copy_ids(&self.components) }
    }
}

impl MachineState for DynState {
    open spec fn spec_state(&self) -> StateView {
        self@
    }

    fn to_dyn_state(&self) -> (r: DynState) {
        self.dyn_clone()
    }
}

/// Builds the next state from the success payload of a trigger, or declines with `None`.
pub trait StateBuilder<P>: Sized {
    /// The state that `build` gives for `payload`, or `None` where it declines.
    spec fn spec_build(&self, payload: P) -> Option<StateView>;

    /// Attempts to build the next state.
    fn build(&self, payload: &P) -> (r: Option<DynState>)
        ensures
            r is Some <==> self.spec_build(*payload) is Some,
            r is Some ==> self.spec_build(*payload) == Some(r->0@),
    ;
}

/// A state used as a builder: whatever the payload, it builds a copy of itself. This is the
/// builder of a transition to a fixed state.
impl<P> StateBuilder<P> for DynState {
    open spec fn spec_build(&self, payload: P) -> Option<StateView> {
        Some(self@)
    }

    fn build(&self, _payload: &P) -> (r: Option<DynState>) {
        Some(self.dyn_clone())
    }
}

} // verus!
