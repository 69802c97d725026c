//! The lifecycle state machine of the network service.
//!
//! The service owns either a parked orchestrator awaiting start
//! (`Idle`), the handle of the running task (`Running`), or neither
//! while a stop is draining (`Empty`). Starting takes the parked
//! orchestrator out and, once the task is spawned, stores its handle;
//! stopping takes the handle out, and the awaiting side parks the
//! returned orchestrator again. The transitions are pure and verified;
//! spawning, awaiting and the lock around the state are asynchronous
//! I/O and live outside the library.

use vstd::prelude::*;

verus! {

/// The one state variable of the service: a parked orchestrator, a
/// running task handle, or neither.
#[derive(Clone, PartialEq, Eq, Debug)]
pub enum ServiceState<P, H> {
    /// Parked and ready to start.
    Idle(P),
    /// Started; the handle resolves to the orchestrator when it stops.
    Running(H),
    /// Neither parked nor running: a start or stop is in flight.
    Empty,
}

/// What a start attempt decides.
#[derive(Clone, PartialEq, Eq, Debug)]
pub enum StartOutcome<P> {
    /// The parked orchestrator, to be spawned by the caller.
    Launch(P),
    /// The service is already running.
    AlreadyStarted,
    /// The service is stopping and cannot be started yet.
    StartingWhileStopping,
}

/// What starting does to the state: only an idle service launches, and
/// it hands its parked orchestrator to the caller.
pub open spec fn start_transition_spec<P, H>(state: ServiceState<P, H>) -> (
    ServiceState<P, H>,
    StartOutcome<P>,
) {
    match state {
        ServiceState::Idle(p) => (ServiceState::Empty, StartOutcome::Launch(p)),
        ServiceState::Running(h) => (ServiceState::Running(h), StartOutcome::AlreadyStarted),
        ServiceState::Empty => (ServiceState::Empty, StartOutcome::StartingWhileStopping),
    }
}

/// What storing the spawned handle does: the state becomes `Running`.
pub open spec fn set_running_spec<P, H>(handle: H) -> ServiceState<P, H> {
    ServiceState::Running(handle)
}

/// What stopping does to the state: only a running service yields its
/// handle; stopping an idle or draining service does nothing.
pub open spec fn stop_transition_spec<P, H>(state: ServiceState<P, H>) -> (
    ServiceState<P, H>,
    Option<H>,
) {
    match state {
        ServiceState::Idle(p) => (ServiceState::Idle(p), None),
        ServiceState::Running(h) => (ServiceState::Empty, Some(h)),
        ServiceState::Empty => (ServiceState::Empty, None),
    }
}

/// What parking the returned orchestrator does: the state becomes
/// `Idle` again, enabling a restart.
pub open spec fn repark_spec<P, H>(parked: P) -> ServiceState<P, H> {
    ServiceState::Idle(parked)
}

/// Decide a start attempt: take the parked orchestrator out, or report
/// why the service cannot start.
pub fn start_transition<P, H>(state: ServiceState<P, H>) -> (r: (
    ServiceState<P, H>,
    StartOutcome<P>,
))
    ensures
        r == start_transition_spec(state),
{
    match state {
        ServiceState::Idle(p) => (ServiceState::Empty, StartOutcome::Launch(p)),
        ServiceState::Running(h) => (ServiceState::Running(h), StartOutcome::AlreadyStarted),
        ServiceState::Empty => (ServiceState::Empty, StartOutcome::StartingWhileStopping),
    }
}

/// Store the handle of the task just spawned for a launched start.
pub fn set_running<P, H>(state: ServiceState<P, H>, handle: H) -> (r: ServiceState<P, H>)
    requires
        state is Empty,
    ensures
        r == set_running_spec::<P, H>(handle),
{
    match state {
        ServiceState::Empty => ServiceState::Running(handle),
        _ => vstd::pervasive::unreached(),
    }
}

/// Decide a stop attempt: take the running handle out, if any.
pub fn stop_transition<P, H>(state: ServiceState<P, H>) -> (r: (ServiceState<P, H>, Option<H>))
    ensures
        r == stop_transition_spec(state),
{
    match state {
        ServiceState::Idle(p) => (ServiceState::Idle(p), None),
        ServiceState::Running(h) => (ServiceState::Empty, Some(h)),
        ServiceState::Empty => (ServiceState::Empty, None),
    }
}

/// Park the orchestrator returned by the stopped task.
pub fn repark<P, H>(state: ServiceState<P, H>, parked: P) -> (r: ServiceState<P, H>)
    requires
        state is Empty,
    ensures
        r == repark_spec::<P, H>(parked),
{
    match state {
        ServiceState::Empty => ServiceState::Idle(parked),
        _ => vstd::pervasive::unreached(),
    }
}

/// The lifecycle round trip: an idle service starts; a second start
/// while running fails with `AlreadyStarted`; stopping yields the
/// handle; stopping while idle yields nothing; and once the
/// orchestrator is parked again, a restart launches it.
pub proof fn lemma_lifecycle_restart<P, H>(p: P, h: H)
    ensures
        start_transition_spec::<P, H>(ServiceState::Idle(p)) == (
            ServiceState::<P, H>::Empty,
            StartOutcome::Launch(p),
        ),
        start_transition_spec::<P, H>(ServiceState::Running(h)) == (
            ServiceState::<P, H>::Running(h),
            StartOutcome::<P>::AlreadyStarted,
        ),
        start_transition_spec::<P, H>(ServiceState::Empty) == (
            ServiceState::<P, H>::Empty,
            StartOutcome::<P>::StartingWhileStopping,
        ),
        stop_transition_spec::<P, H>(set_running_spec(h)) == (
            ServiceState::<P, H>::Empty,
            Some(h),
        ),
        stop_transition_spec::<P, H>(ServiceState::Idle(p)) == (
            ServiceState::<P, H>::Idle(p),
            None::<H>,
        ),
        start_transition_spec::<P, H>(repark_spec(p)) == (
            ServiceState::<P, H>::Empty,
            StartOutcome::Launch(p),
        ),
{
}

} // verus!
