//! A small engine for finite-state machines whose legal transitions are
//! declared apart from the states and checked when the crate is compiled.
//!
//! A machine acts on a resource. The resource names the closed set of states
//! its machine can be in; a state computes what follows it, and can only name
//! a successor for which a transition has been declared.

use vstd::prelude::*;

verus! {

/// Declares that a state of type `Self` may be followed by a state of type `S`.
pub trait TransitionTo<S> {

}

/// A resource that a state machine acts on.
pub trait ResourceState {
    /// The status that the parts of the resource report.
    type Status;

    /// The closed set of states of the machine that acts on the resource.
    type Phase;
}

/// The failure that a machine can end with.
pub struct StateError {
    /// Why the machine stopped.
    pub reason: String,
}

/// Holds the one state that a machine is in.
pub struct StateHolder<S: ResourceState> {
    pub state: S::Phase,
}

/// What a state hands back once it has acted.
pub enum Transition<S: ResourceState> {
    /// Go on in a new state.
    Next(StateHolder<S>),
    /// Stop the machine and report how it ended.
    Complete(Result<(), StateError>),
}

/// A state that has its place among the states of the machine on `S`.
pub trait PhaseOf<S: ResourceState>: Sized {
    /// The member of the machine's set of states that stands for `self`.
    spec fn phase(self) -> S::Phase;

    /// Wraps the state for the machine to hold.
    fn hold(self) -> (holder: StateHolder<S>)
        ensures
            holder.state == self.phase(),
    ;
}

/// A state of the machine on `S`: it acts on the resource and says what follows.
pub trait State<S: ResourceState>: Sized {
    /// What the state needs of the resource before it can act.
    spec fn ready(&self, resource: &S) -> bool;

    /// Whether acting in this state can take the resource from `before` to
    /// `after` and end in `transition`.
    spec fn acts(&self, before: &S, after: &S, transition: Transition<S>) -> bool;

    /// Acts on the resource and returns the transition to take.
    fn next(self, resource: &mut S) -> (transition: Transition<S>)
        requires
            self.ready(old(resource)),
        ensures
            self.acts(old(resource), final(resource), transition),
    ;
}

impl<S: ResourceState> Transition<S> {
    /// The transition from a state of type `I` to the state `o`. It exists only
    /// where `I: TransitionTo<O>` has been declared.
    pub fn next<I: TransitionTo<O>, O: PhaseOf<S>>(_i: I, o: O) -> (transition: Transition<S>)
        ensures
            transition == Transition::<S>::Next(StateHolder { state: o.phase() }),
    {
        Transition::Next(o.hold())
    }
}

} // verus!
