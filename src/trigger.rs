//! Triggers are checked to determine whether the machine should transition to a new state. They
//! can be combined with the `not`, `and`, and `or` combinators. See [`Trigger`].
use crate::world::{Entity, World};
use either::Either;
use std::convert::Infallible;
use vstd::prelude::*;

verus! {

/// The sum type of the `either` crate, used for the tagged payloads of `and` and `or`.
#[verifier::external_type_specification]
#[verifier::reject_recursive_types(L)]
#[verifier::reject_recursive_types(R)]
pub struct ExEither<L, R>(Either<L, R>);

/// Wrapper for the uninhabited [`Infallible`]. Use for a trigger's failure payload if the trigger
/// cannot fail.
#[derive(Debug, Clone, Copy, PartialEq, Eq)]
pub struct Never {
    never: Infallible,
}

/// Input requested by a trigger
pub trait TriggerIn: Sized {
    /// The input that `entity` stands for.
    spec fn spec_from_entity(entity: Entity) -> Self;

    /// Convert an `Entity` to `Self`
    fn from_entity(entity: Entity) -> (r: Self)
        ensures
            r == Self::spec_from_entity(entity),
    ;
}

impl TriggerIn for () {
    open spec fn spec_from_entity(entity: Entity) -> () {
        ()
    }

    fn from_entity(_entity: Entity) {
    }
}

impl TriggerIn for Entity {
    open spec fn spec_from_entity(entity: Entity) -> Entity {
        entity
    }

    fn from_entity(entity: Entity) -> (r: Entity) {
        entity
    }
}

/// Output returned from a trigger. Indicates whether the transition will occur, and may include
/// data given to the state builder.
pub trait TriggerOut: Sized {
    /// Data given to the state builder on a success
    type Ok;
    /// Data given onwards if this trigger fails and is negated
    type Err;

    /// The outcome that this output stands for.
    spec fn spec_result(self) -> Result<Self::Ok, Self::Err>;

    /// Convert `self` to a `Result`
    fn into_result(self) -> (r: Result<Self::Ok, Self::Err>)
        ensures
            r == self.spec_result(),
    ;
}

impl TriggerOut for bool {
    type Ok = ();
    type Err = ();

    open spec fn spec_result(self) -> Result<(), ()> {
        if self {
            Ok(())
        } else {
            Err(())
        }
    }

    fn into_result(self) -> (r: Result<(), ()>) {
        if self {
            Ok(())
        } else {
            Err(())
        }
    }
}

impl<T> TriggerOut for Option<T> {
    type Ok = T;
    type Err = ();

    open spec fn spec_result(self) -> Result<T, ()> {
        match self {
            Some(t) => Ok(t),
            None => Err(()),
        }
    }

    fn into_result(self) -> (r: Result<T, ()>) {
        match self {
            Some(t) => Ok(t),
            None => Err(()),
        }
    }
}

impl<O, E> TriggerOut for Result<O, E> {
    type Ok = O;
    type Err = E;

    open spec fn spec_result(self) -> Result<O, E> {
        self
    }

    fn into_result(self) -> (r: Result<O, E>) {
        self
    }
}

/// Types that implement this may be used in state machines to transition from one state to
/// another.
///
/// A trigger may keep bookkeeping of its own between checks: `spec_init` and `spec_after_check`
/// say what becomes of it, `spec_out` what a check returns.
pub trait Trigger: Sized {
    /// The trigger's output. See [`TriggerOut`].
    type Out: TriggerOut;

    /// The trigger as `init` leaves it.
    spec fn spec_init(self, world: World) -> Self;

    /// What `check` returns for `entity` in `world`.
    spec fn spec_out(self, entity: Entity, world: World) -> Self::Out;

    /// The trigger as `check` leaves it.
    spec fn spec_after_check(self, entity: Entity, world: World) -> Self;

    /// Initializes/resets this trigger. Runs every time the state machine transitions.
    fn init(&mut self, world: &World)
        ensures
            *final(self) == old(self).spec_init(*world),
    ;

    /// Checks whether the state machine should transition
    fn check(&mut self, entity: Entity, world: &World) -> (r: Self::Out)
        ensures
            r == old(self).spec_out(entity, *world),
            *final(self) == old(self).spec_after_check(entity, *world),
    ;
}

/// The success payload of trigger type `T`.
pub type Payload<T> = <<T as Trigger>::Out as TriggerOut>::Ok;

/// The failure payload of trigger type `T`.
pub type Failure<T> = <<T as Trigger>::Out as TriggerOut>::Err;

/// The outcome of checking `t` for `entity` in `world`, as a `Result`.
pub open spec fn outcome<T: Trigger>(t: T, entity: Entity, world: World) -> Result<
    <T::Out as TriggerOut>::Ok,
    <T::Out as TriggerOut>::Err,
> {
    t.spec_out(entity, world).spec_result()
}

/// Whether checking `t` for `entity` in `world` succeeds.
pub open spec fn succeeds<T: Trigger>(t: T, entity: Entity, world: World) -> bool {
    outcome(t, entity, world) is Ok
}

/// Converts a value into a [`Trigger`]. Implemented for every trigger and for every read-only
/// system; the `Marker` parameter keeps those two implementations apart.
pub trait IntoTrigger<Marker>: Sized {
    /// The [`Trigger`] type that this is converted into
    type Trigger: Trigger;

    /// The trigger that `self` becomes.
    spec fn spec_into_trigger(self) -> Self::Trigger;

    /// Convert into a [`Trigger`]
    fn into_trigger(self) -> (r: Self::Trigger)
        ensures
            r == self.spec_into_trigger(),
    ;

    /// Negates the trigger.
    fn not(self) -> (r: NotTrigger<Self::Trigger>)
        ensures
            r == NotTrigger(self.spec_into_trigger()),
    {
        NotTrigger(self.into_trigger())
    }

    /// Combines these triggers by logical AND. A system is made a trigger first, by
    /// `into_trigger`.
    fn and<U: Trigger>(self, other: U) -> (r: AndTrigger<Self::Trigger, U>)
        ensures
            r == AndTrigger(self.spec_into_trigger(), other),
    {
        AndTrigger(self.into_trigger(), other)
    }

    /// Combines these triggers by logical OR. A system is made a trigger first, by
    /// `into_trigger`.
    fn or<U: Trigger>(self, other: U) -> (r: OrTrigger<Self::Trigger, U>)
        ensures
            r == OrTrigger(self.spec_into_trigger(), other),
    {
        OrTrigger(self.into_trigger(), other)
    }
}

impl<T: Trigger> IntoTrigger<()> for T {
    type Trigger = T;

    open spec fn spec_into_trigger(self) -> T {
        self
    }

    fn into_trigger(self) -> (r: T) {
        self
    }
}

/// A stateless check of the world: its result depends on its input and the world alone.
pub trait ReadOnlySystem: Sized {
    /// What the system is given, made from the checked entity.
    type In: TriggerIn;
    /// What the system returns.
    type Out: TriggerOut;

    /// What `run_readonly` returns.
    spec fn spec_run(&self, input: Self::In, world: World) -> Self::Out;

    /// Runs the system against `world`.
    fn run_readonly(&self, input: Self::In, world: &World) -> (r: Self::Out)
        ensures
            r == self.spec_run(input, *world),
    ;
}

/// The trigger form of a system: a no-op `init`, and a `check` that runs the system.
pub struct SystemTrigger<S: ReadOnlySystem>(pub S);

impl<S: ReadOnlySystem> Trigger for SystemTrigger<S> {
    type Out = S::Out;

    open spec fn spec_init(self, world: World) -> Self {
        self
    }

    open spec fn spec_out(self, entity: Entity, world: World) -> S::Out {
        self.0.spec_run(S::In::spec_from_entity(entity), world)
    }

    open spec fn spec_after_check(self, entity: Entity, world: World) -> Self {
        self
    }

    fn init(&mut self, _world: &World) {
    }

    fn check(&mut self, entity: Entity, world: &World) -> (r: S::Out) {
        self.0.run_readonly(S::In::from_entity(entity), world)
    }
}

/// Marker that tells the system implementation of [`IntoTrigger`] from the trigger one.
pub struct SystemMarker;

impl<S: ReadOnlySystem> IntoTrigger<SystemMarker> for S {
    type Trigger = SystemTrigger<S>;

    open spec fn spec_into_trigger(self) -> SystemTrigger<S> {
        SystemTrigger(self)
    }

    fn into_trigger(self) -> (r: SystemTrigger<S>) {
        SystemTrigger(self)
    }
}

/// Trigger that always transitions
pub fn always() -> (r: bool)
    ensures
        r,
{
    true
}

/// The system form of [`always`].
pub struct Always;

impl ReadOnlySystem for Always {
    type In = ();
    type Out = bool;

    open spec fn spec_run(&self, input: (), world: World) -> bool {
        true
    }

    fn run_readonly(&self, _input: (), _world: &World) -> (r: bool) {
        always()
    }
}

/// Negates the given trigger
pub struct NotTrigger<T: Trigger>(pub T);

impl<T: Trigger> Trigger for NotTrigger<T> {
    type Out = Result<<T::Out as TriggerOut>::Err, <T::Out as TriggerOut>::Ok>;

    open spec fn spec_init(self, world: World) -> Self {
        NotTrigger(self.0.spec_init(world))
    }

    open spec fn spec_out(self, entity: Entity, world: World) -> Self::Out {
        match outcome(self.0, entity, world) {
            Ok(ok) => Err(ok),
            Err(err) => Ok(err),
        }
    }

    open spec fn spec_after_check(self, entity: Entity, world: World) -> Self {
        NotTrigger(self.0.spec_after_check(entity, world))
    }

    fn init(&mut self, world: &World) {
        self.0.init(world);
    }

    fn check(&mut self, entity: Entity, world: &World) -> (r: Self::Out) {
        match self.0.check(entity, world).into_result() {
            Ok(ok) => Err(ok),
            Err(err) => Ok(err),
        }
    }
}

/// Combines two triggers by logical AND. The first is checked first; when it fails, the second
/// is not checked.
pub struct AndTrigger<T: Trigger, U: Trigger>(pub T, pub U);

impl<T: Trigger, U: Trigger> Trigger for AndTrigger<T, U> {
    type Out = Result<
        (<T::Out as TriggerOut>::Ok, <U::Out as TriggerOut>::Ok),
        Either<<T::Out as TriggerOut>::Err, <U::Out as TriggerOut>::Err>,
    >;

    open spec fn spec_init(self, world: World) -> Self {
        AndTrigger(self.0.spec_init(world), self.1.spec_init(world))
    }

    open spec fn spec_out(self, entity: Entity, world: World) -> Self::Out {
        match outcome(self.0, entity, world) {
            Err(e) => Err(Either::Left(e)),
            Ok(a) => match outcome(self.1, entity, world) {
                Err(e) => Err(Either::Right(e)),
                Ok(b) => Ok((a, b)),
            },
        }
    }

    open spec fn spec_after_check(self, entity: Entity, world: World) -> Self {
        if succeeds(self.0, entity, world) {
            AndTrigger(
                self.0.spec_after_check(entity, world),
                self.1.spec_after_check(entity, world),
            )
        } else {
            AndTrigger(self.0.spec_after_check(entity, world), self.1)
        }
    }

    fn init(&mut self, world: &World) {
        self.0.init(world);
        self.1.init(world);
    }

    fn check(&mut self, entity: Entity, world: &World) -> (r: Self::Out) {
        match self.0.check(entity, world).into_result() {
            Err(e) => Err(Either::Left(e)),
            Ok(a) => match self.1.check(entity, world).into_result() {
                Err(e) => Err(Either::Right(e)),
                Ok(b) => Ok((a, b)),
            },
        }
    }
}

/// Combines two triggers by logical OR. The first is checked first; when it succeeds, the second
/// is not checked.
pub struct OrTrigger<T: Trigger, U: Trigger>(pub T, pub U);

impl<T: Trigger, U: Trigger> Trigger for OrTrigger<T, U> {
    type Out = Result<
        Either<<T::Out as TriggerOut>::Ok, <U::Out as TriggerOut>::Ok>,
        (<T::Out as TriggerOut>::Err, <U::Out as TriggerOut>::Err),
    >;

    open spec fn spec_init(self, world: World) -> Self {
        OrTrigger(self.0.spec_init(world), self.1.spec_init(world))
    }

    open spec fn spec_out(self, entity: Entity, world: World) -> Self::Out {
        match outcome(self.0, entity, world) {
            Ok(a) => Ok(Either::Left(a)),
            Err(e1) => match outcome(self.1, entity, world) {
                Ok(b) => Ok(Either::Right(b)),
                Err(e2) => Err((e1, e2)),
            },
        }
    }

    open spec fn spec_after_check(self, entity: Entity, world: World) -> Self {
        if succeeds(self.0, entity, world) {
            OrTrigger(self.0.spec_after_check(entity, world), self.1)
        } else {
            OrTrigger(
                self.0.spec_after_check(entity, world),
                self.1.spec_after_check(entity, world),
            )
        }
    }

    fn init(&mut self, world: &World) {
        self.0.init(world);
        self.1.init(world);
    }

    fn check(&mut self, entity: Entity, world: &World) -> (r: Self::Out) {
        match self.0.check(entity, world).into_result() {
            Ok(a) => Ok(Either::Left(a)),
            Err(e1) => match self.1.check(entity, world).into_result() {
                Ok(b) => Ok(Either::Right(b)),
                Err(e2) => Err((e1, e2)),
            },
        }
    }
}

/// Marker component that represents that the current state has completed. Removed from every
/// entity each tick after checking triggers. To be used with [`done`].
#[derive(Debug, Clone, Copy, PartialEq, Eq, Structural)]
pub enum Done {
    /// Success variant
    Success,
    /// Failure variant
    Failure,
}

/// Whether the marker `marker` satisfies the expectation `expected`: a marker must be there, and
/// it must be the expected variant when one is given.
pub open spec fn done_matches(expected: Option<Done>, marker: Option<Done>) -> bool {
    match marker {
        Some(d) => expected is None || expected == Some(d),
        None => false,
    }
}

/// The system behind [`done`].
pub struct DoneSystem {
    /// The variant to wait for, or `None` for either.
    pub expected: Option<Done>,
}

impl ReadOnlySystem for DoneSystem {
    type In = Entity;
    type Out = bool;

    open spec fn spec_run(&self, input: Entity, world: World) -> bool {
        done_matches(self.expected, world.done_of(input))
    }

    fn run_readonly(&self, input: Entity, world: &World) -> (r: bool) {
        match world.get_done(input) {
            Some(d) => self.expected.is_none() || self.expected == Some(d),
            None => false,
        }
    }
}

/// Trigger that transitions if the entity has the [`Done`] component. Provide
/// `Some(Done::Variant)` to transition upon that particular variant, or `None` to transition upon
/// either.
pub fn done(expected: Option<Done>) -> (r: SystemTrigger<DoneSystem>)
    ensures
        r.0.expected == expected,
        forall|e: Entity, w: World| #[trigger]
            r.spec_out(e, w) == done_matches(expected, w.done_of(e)),
{
    DoneSystem { expected }.into_trigger()
}

/// Trigger that transitions when it receives the associated event: the last event of the tick,
/// if there was one.
pub fn on_event<T: Copy>(events: &Vec<T>) -> (r: Option<T>)
    ensures
        r == (if events@.len() == 0 {
            None
        } else {
            Some(events@.last())
        }),
{
    if events.len() == 0 {
        None
    } else {
        Some(events[events.len() - 1])
    }
}

/// Removes the completion marker from every entity, and changes nothing else.
pub fn remove_done_markers(world: &mut World)
    ensures
        final(world).entities@.len() == old(world).entities@.len(),
        forall|e: Entity| #[trigger] final(world).done_of(e) is None,
        forall|i: int|
            0 <= i < final(world).entities@.len() ==> {
                &&& (#[trigger] final(world).entities@[i]).done is None
                &&& final(world).entities@[i].components == old(world).entities@[i].components
            },
{
    let n = world.entities.len();
    let mut i: usize = 0;
    while i < n
        invariant
            n == old(world).entities@.len(),
            world.entities@.len() == n,
            0 <= i <= n,
            forall|j: int|
                0 <= j < n ==> {
                    &&& j < i ==> (#[trigger] world.entities@[j]).done is None
                    &&& j >= i ==> world.entities@[j].done == old(world).entities@[j].done
                    &&& world.entities@[j].components == old(world).entities@[j].components
                },
        decreases n - i,
    {
        world.entities[i].done = None;
        i = i + 1;
    }
}

/// Negating twice gives back the trigger: the same outcome, payloads included, the same
/// bookkeeping after a check, and the same reset.
pub proof fn lemma_not_not<T: Trigger>(t: T, entity: Entity, world: World)
    ensures
        outcome(NotTrigger(NotTrigger(t)), entity, world) == outcome(t, entity, world),
        NotTrigger(NotTrigger(t)).spec_after_check(entity, world) == NotTrigger(
            NotTrigger(t.spec_after_check(entity, world)),
        ),
        NotTrigger(NotTrigger(t)).spec_init(world) == NotTrigger(NotTrigger(t.spec_init(world))),
{
}

/// `and` succeeds exactly when both triggers succeed, with both payloads. When it fails, its
/// payload says which side failed first: the left one is checked first, and when it fails the
/// right one is neither reported nor checked.
pub proof fn lemma_and<T: Trigger, U: Trigger>(t: T, u: U, entity: Entity, world: World)
    ensures
        succeeds(AndTrigger(t, u), entity, world) <==> (succeeds(t, entity, world) && succeeds(
            u,
            entity,
            world,
        )),
        outcome(t, entity, world) matches Ok(a) ==> (outcome(u, entity, world) matches Ok(b)
            ==> outcome(AndTrigger(t, u), entity, world) == Ok::<
            (Payload<T>, Payload<U>),
            Either<Failure<T>, Failure<U>>,
        >((a, b))),
        outcome(t, entity, world) matches Err(e) ==> {
            &&& outcome(AndTrigger(t, u), entity, world) == Err::<
                (Payload<T>, Payload<U>),
                Either<Failure<T>, Failure<U>>,
            >(Either::Left(e))
            &&& AndTrigger(t, u).spec_after_check(entity, world).1 == u
        },
        succeeds(t, entity, world) ==> (outcome(u, entity, world) matches Err(e) ==> outcome(
            AndTrigger(t, u),
            entity,
            world,
        ) == Err::<(Payload<T>, Payload<U>), Either<Failure<T>, Failure<U>>>(Either::Right(e))),
{
}

/// `or` fails exactly when both triggers fail, with both payloads. When it succeeds, its payload
/// says which side succeeded: the left one is checked first, and when it succeeds the right one
/// is not checked.
pub proof fn lemma_or<T: Trigger, U: Trigger>(t: T, u: U, entity: Entity, world: World)
    ensures
        !succeeds(OrTrigger(t, u), entity, world) <==> (!succeeds(t, entity, world) && !succeeds(
            u,
            entity,
            world,
        )),
        outcome(t, entity, world) matches Err(a) ==> (outcome(u, entity, world) matches Err(b)
            ==> outcome(OrTrigger(t, u), entity, world) == Err::<
            Either<Payload<T>, Payload<U>>,
            (Failure<T>, Failure<U>),
        >((a, b))),
        outcome(t, entity, world) matches Ok(p) ==> {
            &&& outcome(OrTrigger(t, u), entity, world) == Ok::<
                Either<Payload<T>, Payload<U>>,
                (Failure<T>, Failure<U>),
            >(Either::Left(p))
            &&& OrTrigger(t, u).spec_after_check(entity, world).1 == u
        },
        !succeeds(t, entity, world) ==> (outcome(u, entity, world) matches Ok(p) ==> outcome(
            OrTrigger(t, u),
            entity,
            world,
        ) == Ok::<Either<Payload<T>, Payload<U>>, (Failure<T>, Failure<U>)>(Either::Right(p))),
{
}

/// `done(None)` succeeds on an entity that carries either marker, and fails on one that
/// carries none; `done(Some(Done::Success))` succeeds only on the success marker.
pub proof fn lemma_done(entity: Entity, world: World)
    ensures
        SystemTrigger(DoneSystem { expected: None }).spec_out(entity, world) <==> world.done_of(
            entity,
        ) is Some,
        SystemTrigger(DoneSystem { expected: Some(Done::Success) }).spec_out(entity, world)
            <==> world.done_of(entity) == Some(Done::Success),
        SystemTrigger(DoneSystem { expected: Some(Done::Failure) }).spec_out(entity, world)
            <==> world.done_of(entity) == Some(Done::Failure),
{
}

} // verus!
