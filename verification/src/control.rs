//! The control machine of one invocation: guard acquisition, the optional
//! kill-all recovery pass, and the wallpaper cycle loop.
//!
//! The process's behaviour is an explicit state machine rather than a
//! literal infinite loop: each [`State`] has one pending [`Action`] (given by
//! [`action_of`]), the process-level glue performs that action against the
//! operating system and reports what it observed as an [`Event`], and
//! [`step`] computes the next state. The loop `Setting -> Sleeping ->
//! Setting` has no terminal state of its own; it ends only when an external
//! termination request arrives ([`Event::Stop`]), which unwinds through the
//! guard's release.
//!
//! For reasoning about whole executions, [`World`] models the two facts of
//! the environment the machine acts on — whether the marker file exists and
//! whether the source directory exists — and [`run_from`] folds a sequence
//! of events into the reached state and world. [`valid_run`] restricts the
//! event sequences to those the environment can actually produce: probes
//! report the world truthfully, and each event answers the pending action.

use vstd::prelude::*;

use crate::guard::spec_force_clear;
use crate::guard::spec_try_create;

verus! {

/// The per-process run configuration: the suspension interval in whole
/// seconds (a positive integer) and the directory the wallpaper images are
/// drawn from. Created once from command-line input; never mutated.
pub struct Config {
    pub interval_secs: u64,
    pub dir: String,
}

impl Config {
    /// The configuration's invariant: the interval is a positive count of
    /// seconds.
    pub open spec fn wf(&self) -> bool {
        self.interval_secs >= 1
    }

    /// Builds the run configuration, rejecting a zero interval.
    pub fn new(interval_secs: u64, dir: String) -> (r: Option<Config>)
        ensures
            r is Some <==> interval_secs >= 1,
            (r matches Some(c) ==> c.interval_secs == interval_secs && c.dir@ == dir@ && c.wf()),
    {
        if interval_secs >= 1 {
            Some(Config { interval_secs, dir })
        } else {
            None
        }
    }
}

/// How a terminated invocation ended. Every outcome is a success exit
/// (status 0); fatal aborts (marker creation or removal failure, a missing
/// external tool) kill the process outside the machine.
#[derive(Clone, Copy, PartialEq, Eq, Structural, Debug)]
pub enum Outcome {
    /// Another instance held the marker: informational early exit, before
    /// the guard's own life-cycle begins.
    AlreadyRunning,
    /// The source directory does not exist: silent no-op exit after the
    /// guard was acquired and released.
    NoSourceDir,
    /// An external termination request ended the cycle loop; the release
    /// still ran on the way out.
    Stopped,
}

/// The states of one invocation. Each state's pending action is given by
/// [`action_of`].
#[derive(Clone, Copy, PartialEq, Eq, Structural, Debug)]
pub enum State {
    /// Kill-all pass: dispatch a termination signal to every same-named
    /// process (fire-and-forget).
    Killing,
    /// Kill-all pass: clear the marker unconditionally.
    Clearing,
    /// Probe whether another instance holds the marker.
    Checking,
    /// Another instance runs: report it and exit with success.
    AlreadyRunning,
    /// The marker was absent: create it (acquire the guard).
    Acquiring,
    /// Guard held: probe whether the source directory exists.
    CheckingDir,
    /// Cycle loop: dispatch a wallpaper-change delegation (fire-and-forget).
    Setting,
    /// Cycle loop: suspend for the configured interval.
    Sleeping,
    /// On the way out with the guard held: remove the marker.
    Releasing { outcome: Outcome },
    /// Terminated.
    Done { outcome: Outcome },
}

/// What the process-level glue reports back after performing a state's
/// pending action.
#[derive(Clone, Copy, PartialEq, Eq, Structural, Debug)]
pub enum Event {
    /// The pending dispatch, creation, removal, report or suspension
    /// completed.
    Ready,
    /// Answer to the marker probe: whether the marker file exists.
    MarkerSeen(bool),
    /// Answer to the directory probe: whether the source directory exists.
    DirSeen(bool),
    /// An external termination request that unwinds normally (not a hard
    /// kill), delivered during the cycle loop.
    Stop,
}

/// What the process-level glue must do next.
#[derive(Clone, Copy, PartialEq, Eq, Structural, Debug)]
pub enum Action {
    /// Signal every process with this program's name (fire-and-forget).
    DispatchKill,
    /// Remove the marker file if it exists; no error if it does not.
    ForceClear,
    /// Report whether the marker file exists.
    ProbeMarker,
    /// Print the informational "already running" message.
    ReportRunning,
    /// Create the marker file (fatal abort if creation fails).
    CreateMarker,
    /// Report whether the source directory exists.
    ProbeDir,
    /// Dispatch the wallpaper-change delegation for the configured
    /// directory, without awaiting its outcome.
    SetWallpaper,
    /// Suspend the thread for `secs` whole seconds.
    Sleep { secs: u64 },
    /// Remove the marker file (the guard's release).
    RemoveMarker,
    /// Exit the process with success status.
    Exit,
}

/// The environment the machine acts on: whether the marker file exists and
/// whether the source directory exists. The directory's existence never
/// changes during a run; the marker changes only through the machine's own
/// clear, create and remove actions (cross-process races at the marker are
/// the concern of [`crate::guard`]).
pub struct World {
    pub marker: bool,
    pub dir: bool,
}

/// The state an invocation starts in: the kill-all recovery pass when the
/// flag was given, else the instance probe.
pub open spec fn spec_initial(kill_all: bool) -> State {
    if kill_all {
        State::Killing
    } else {
        State::Checking
    }
}

/// The transition relation: the state reached from `s` when the glue
/// reports `e`. Pairs that a valid run never produces leave the state
/// unchanged.
pub open spec fn spec_step(s: State, e: Event) -> State {
    match (s, e) {
        (State::Killing, Event::Ready) => State::Clearing,
        (State::Clearing, Event::Ready) => State::Checking,
        (State::Checking, Event::MarkerSeen(held)) => if held {
            State::AlreadyRunning
        } else {
            State::Acquiring
        },
        (State::AlreadyRunning, Event::Ready) => State::Done { outcome: Outcome::AlreadyRunning },
        (State::Acquiring, Event::Ready) => State::CheckingDir,
        (State::CheckingDir, Event::DirSeen(found)) => if found {
            State::Setting
        } else {
            State::Releasing { outcome: Outcome::NoSourceDir }
        },
        (State::Setting, Event::Ready) => State::Sleeping,
        (State::Setting, Event::Stop) => State::Releasing { outcome: Outcome::Stopped },
        (State::Sleeping, Event::Ready) => State::Setting,
        (State::Sleeping, Event::Stop) => State::Releasing { outcome: Outcome::Stopped },
        (State::Releasing { outcome }, Event::Ready) => State::Done { outcome },
        (_, _) => s,
    }
}

/// What performing the pending action of `s` does to the environment:
/// clearing and releasing remove the marker, acquiring creates it, and no
/// other action touches the world.
pub open spec fn spec_world_after(s: State, e: Event, w: World) -> World {
    match (s, e) {
        (State::Clearing, Event::Ready) => World { marker: spec_force_clear(w.marker), dir: w.dir },
        (State::Acquiring, Event::Ready) => World { marker: spec_try_create(w.marker), dir: w.dir },
        (State::Releasing { .. }, Event::Ready) => World { marker: false, dir: w.dir },
        (_, _) => w,
    }
}

/// Which events the environment can produce at `s`: the probes answer
/// truthfully about the world, acquisition happens only against an absent
/// marker (the atomic create either acquires or the earlier probe would
/// have seen the marker), the cycle loop may at any point receive the
/// external termination request, and a terminated invocation produces
/// nothing further.
pub open spec fn enabled(s: State, e: Event, w: World) -> bool {
    match s {
        State::Killing => e is Ready,
        State::Clearing => e is Ready,
        State::Checking => e == Event::MarkerSeen(w.marker),
        State::AlreadyRunning => e is Ready,
        State::Acquiring => e is Ready && !w.marker,
        State::CheckingDir => e == Event::DirSeen(w.dir),
        State::Setting => e is Ready || e is Stop,
        State::Sleeping => e is Ready || e is Stop,
        State::Releasing { .. } => e is Ready,
        State::Done { .. } => false,
    }
}

/// The pending action of each state.
pub open spec fn spec_action(cfg: Config, s: State) -> Action {
    match s {
        State::Killing => Action::DispatchKill,
        State::Clearing => Action::ForceClear,
        State::Checking => Action::ProbeMarker,
        State::AlreadyRunning => Action::ReportRunning,
        State::Acquiring => Action::CreateMarker,
        State::CheckingDir => Action::ProbeDir,
        State::Setting => Action::SetWallpaper,
        State::Sleeping => Action::Sleep { secs: cfg.interval_secs },
        State::Releasing { .. } => Action::RemoveMarker,
        State::Done { .. } => Action::Exit,
    }
}

/// The state an invocation starts in (executable form of [`spec_initial`]).
pub fn initial(kill_all: bool) -> (s: State)
    ensures
        s == spec_initial(kill_all),
{
    if kill_all {
        State::Killing
    } else {
        State::Checking
    }
}

/// One transition of the machine (executable form of [`spec_step`]).
pub fn step(s: &State, e: &Event) -> (r: State)
    ensures
        r == spec_step(*s, *e),
{
    match (*s, *e) {
        (State::Killing, Event::Ready) => State::Clearing,
        (State::Clearing, Event::Ready) => State::Checking,
        (State::Checking, Event::MarkerSeen(held)) => if held {
            State::AlreadyRunning
        } else {
            State::Acquiring
        },
        (State::AlreadyRunning, Event::Ready) => State::Done { outcome: Outcome::AlreadyRunning },
        (State::Acquiring, Event::Ready) => State::CheckingDir,
        (State::CheckingDir, Event::DirSeen(found)) => if found {
            State::Setting
        } else {
            State::Releasing { outcome: Outcome::NoSourceDir }
        },
        (State::Setting, Event::Ready) => State::Sleeping,
        (State::Setting, Event::Stop) => State::Releasing { outcome: Outcome::Stopped },
        (State::Sleeping, Event::Ready) => State::Setting,
        (State::Sleeping, Event::Stop) => State::Releasing { outcome: Outcome::Stopped },
        (State::Releasing { outcome }, Event::Ready) => State::Done { outcome },
        (_, _) => *s,
    }
}

/// The pending action of `s` (executable form of [`spec_action`]).
pub fn action_of(cfg: &Config, s: &State) -> (a: Action)
    ensures
        a == spec_action(*cfg, *s),
{
    match *s {
        State::Killing => Action::DispatchKill,
        State::Clearing => Action::ForceClear,
        State::Checking => Action::ProbeMarker,
        State::AlreadyRunning => Action::ReportRunning,
        State::Acquiring => Action::CreateMarker,
        State::CheckingDir => Action::ProbeDir,
        State::Setting => Action::SetWallpaper,
        State::Sleeping => Action::Sleep { secs: cfg.interval_secs },
        State::Releasing { .. } => Action::RemoveMarker,
        State::Done { .. } => Action::Exit,
    }
}

/// Whether the guard is held at `s`: from the step after successful
/// acquisition until the release's removal has run.
pub open spec fn holds_guard(s: State) -> bool {
    match s {
        State::CheckingDir | State::Setting | State::Sleeping | State::Releasing { .. } => true,
        _ => false,
    }
}

/// The run invariant: the marker is present exactly as the guard's window
/// requires — present while this invocation holds the guard, present when
/// another instance was observed holding it, and absent once an invocation
/// that acquired the guard has terminated.
pub open spec fn inv(s: State, w: World) -> bool {
    match s {
        State::AlreadyRunning => w.marker,
        State::CheckingDir | State::Setting | State::Sleeping => w.marker,
        State::Releasing { outcome } => w.marker && !(outcome is AlreadyRunning),
        State::Done { outcome } => if outcome is AlreadyRunning {
            w.marker
        } else {
            !w.marker
        },
        _ => true,
    }
}

/// The state and world reached by folding `events` from `s` and `w`.
pub open spec fn run_from(s: State, w: World, events: Seq<Event>) -> (State, World)
    decreases events.len(),
{
    if events.len() == 0 {
        (s, w)
    } else {
        let prev = run_from(s, w, events.drop_last());
        (
            spec_step(prev.0, events.last()),
            spec_world_after(prev.0, events.last(), prev.1),
        )
    }
}

/// Whether `events` is a sequence the environment can produce from `s` and
/// `w`: every event is enabled at the state and world it meets.
pub open spec fn valid_run(s: State, w: World, events: Seq<Event>) -> bool
    decreases events.len(),
{
    if events.len() == 0 {
        true
    } else {
        let prev = run_from(s, w, events.drop_last());
        valid_run(s, w, events.drop_last()) && enabled(prev.0, events.last(), prev.1)
    }
}

/// The invariant holds in both possible initial states, whatever the
/// environment looks like at startup.
pub proof fn lemma_initial_inv(kill_all: bool, w: World)
    ensures
        inv(spec_initial(kill_all), w),
{
}

/// Each enabled step preserves the run invariant.
pub proof fn lemma_step_preserves_inv(s: State, e: Event, w: World)
    requires
        inv(s, w),
        enabled(s, e, w),
    ensures
        inv(spec_step(s, e), spec_world_after(s, e, w)),
{
}

/// The run invariant holds at the end of every valid run that starts in a
/// state satisfying it.
pub proof fn lemma_run_inv(s: State, w: World, events: Seq<Event>)
    requires
        inv(s, w),
        valid_run(s, w, events),
    ensures
        inv(run_from(s, w, events).0, run_from(s, w, events).1),
    decreases events.len(),
{
    if events.len() > 0 {
        lemma_run_inv(s, w, events.drop_last());
        let prev = run_from(s, w, events.drop_last());
        lemma_step_preserves_inv(prev.0, events.last(), prev.1);
    }
}

/// Every prefix of a valid run is itself a valid run.
pub proof fn lemma_valid_run_prefix(s: State, w: World, events: Seq<Event>, i: int)
    requires
        valid_run(s, w, events),
        0 <= i <= events.len(),
    ensures
        valid_run(s, w, events.take(i)),
    decreases events.len(),
{
    if i == events.len() {
        assert(events.take(i) =~= events);
    } else {
        assert(events.drop_last().take(i) =~= events.take(i));
        lemma_valid_run_prefix(s, w, events.drop_last(), i);
    }
}

/// Unfolds one step of a run at position `i`: the state and world after
/// `i + 1` events are one transition past the state and world after `i`.
pub proof fn lemma_run_unfold(s: State, w: World, events: Seq<Event>, i: int)
    requires
        0 <= i < events.len(),
    ensures
        run_from(s, w, events.take(i + 1)).0 == spec_step(
            run_from(s, w, events.take(i)).0,
            events[i],
        ),
        run_from(s, w, events.take(i + 1)).1 == spec_world_after(
            run_from(s, w, events.take(i)).0,
            events[i],
            run_from(s, w, events.take(i)).1,
        ),
{
    assert(events.take(i + 1).drop_last() =~= events.take(i));
    assert(events.take(i + 1).last() == events[i]);
}

/// In a valid run, the event consumed at position `i` is enabled at the
/// state and world reached after `i` events.
pub proof fn lemma_run_enabled_at(s: State, w: World, events: Seq<Event>, i: int)
    requires
        valid_run(s, w, events),
        0 <= i < events.len(),
    ensures
        enabled(run_from(s, w, events.take(i)).0, events[i], run_from(s, w, events.take(i)).1),
{
    lemma_valid_run_prefix(s, w, events, i + 1);
    assert(events.take(i + 1).drop_last() =~= events.take(i));
    assert(events.take(i + 1).last() == events[i]);
}

/// Guard window: at any point of a valid run where this invocation holds
/// the guard — from successful acquisition until its release — the marker
/// is present.
pub proof fn lemma_marker_present_while_held(kill_all: bool, w0: World, events: Seq<Event>)
    requires
        valid_run(spec_initial(kill_all), w0, events),
        holds_guard(run_from(spec_initial(kill_all), w0, events).0),
    ensures
        run_from(spec_initial(kill_all), w0, events).1.marker,
{
    lemma_initial_inv(kill_all, w0);
    lemma_run_inv(spec_initial(kill_all), w0, events);
}

/// Cleanup on normal exit: a valid run that terminates through any path
/// other than the informational "already running" early exit — that is,
/// any path that acquired the guard — leaves the marker absent. A hard
/// kill, which ends a run without reaching a terminated state, sits
/// outside this contract and may leave a stale marker.
pub proof fn lemma_cleanup_on_normal_exit(kill_all: bool, w0: World, events: Seq<Event>)
    requires
        valid_run(spec_initial(kill_all), w0, events),
        (run_from(spec_initial(kill_all), w0, events).0 matches State::Done { outcome }
            && !(outcome is AlreadyRunning)),
    ensures
        !run_from(spec_initial(kill_all), w0, events).1.marker,
{
    lemma_initial_inv(kill_all, w0);
    lemma_run_inv(spec_initial(kill_all), w0, events);
}

/// When another instance was observed holding the marker, the early exit
/// leaves that instance's marker in place.
pub proof fn lemma_early_exit_keeps_marker(kill_all: bool, w0: World, events: Seq<Event>)
    requires
        valid_run(spec_initial(kill_all), w0, events),
        (run_from(spec_initial(kill_all), w0, events).0 matches State::Done { outcome }
            && outcome is AlreadyRunning),
    ensures
        run_from(spec_initial(kill_all), w0, events).1.marker,
{
    lemma_initial_inv(kill_all, w0);
    lemma_run_inv(spec_initial(kill_all), w0, events);
}

/// The strengthened invariant for a run whose source directory is missing:
/// the directory stays missing and the cycle loop is never entered.
pub open spec fn no_dir_inv(s: State, w: World) -> bool {
    &&& !w.dir
    &&& !(s is Setting)
    &&& !(s is Sleeping)
}

/// Each enabled step preserves [`no_dir_inv`]: the loop can only be entered
/// on a truthful observation that the directory exists.
pub proof fn lemma_step_preserves_no_dir_inv(s: State, e: Event, w: World)
    requires
        no_dir_inv(s, w),
        enabled(s, e, w),
    ensures
        no_dir_inv(spec_step(s, e), spec_world_after(s, e, w)),
{
}

/// [`no_dir_inv`] holds at the end of every valid run that starts under it.
pub proof fn lemma_run_no_dir_inv(s: State, w: World, events: Seq<Event>)
    requires
        no_dir_inv(s, w),
        valid_run(s, w, events),
    ensures
        no_dir_inv(run_from(s, w, events).0, run_from(s, w, events).1),
    decreases events.len(),
{
    if events.len() > 0 {
        lemma_run_no_dir_inv(s, w, events.drop_last());
        let prev = run_from(s, w, events.drop_last());
        lemma_step_preserves_no_dir_inv(prev.0, events.last(), prev.1);
    }
}

/// No-op on a missing source directory: in a valid run whose source
/// directory does not exist, the machine is never in the state that
/// dispatches a wallpaper-change delegation (nor in the suspension that
/// follows one), at any point of the run; the only exits left are clean
/// ones.
pub proof fn lemma_no_delegation_without_dir(kill_all: bool, w0: World, events: Seq<Event>, i: int)
    requires
        !w0.dir,
        valid_run(spec_initial(kill_all), w0, events),
        0 <= i <= events.len(),
    ensures
        !(run_from(spec_initial(kill_all), w0, events.take(i)).0 is Setting),
        !(run_from(spec_initial(kill_all), w0, events.take(i)).0 is Sleeping),
{
    lemma_valid_run_prefix(spec_initial(kill_all), w0, events, i);
    lemma_run_no_dir_inv(spec_initial(kill_all), w0, events.take(i));
}

/// Once an invocation is releasing the guard or terminated, it never
/// re-enters any earlier state.
pub proof fn lemma_exit_region_persists(s: State, w: World, events: Seq<Event>, i: int, j: int)
    requires
        valid_run(s, w, events),
        0 <= i <= j <= events.len(),
        run_from(s, w, events.take(i)).0 is Releasing || run_from(s, w, events.take(i)).0 is Done,
    ensures
        run_from(s, w, events.take(j)).0 is Releasing || run_from(s, w, events.take(j)).0 is Done,
    decreases j - i,
{
    if i < j {
        lemma_run_enabled_at(s, w, events, i);
        lemma_run_unfold(s, w, events, i);
        lemma_exit_region_persists(s, w, events, i + 1, j);
    }
}

/// Interval fidelity: whenever a valid run dispatches a wallpaper-change
/// delegation at position `i` and dispatches another one later at position
/// `j`, the state immediately after the first dispatch is the suspension
/// state, whose pending action suspends for the full configured interval;
/// so consecutive delegation dispatches are at least the configured
/// interval of wall-clock seconds apart (dispatch itself is fire-and-forget
/// and adds only its own near-zero overhead).
pub proof fn lemma_interval_between_delegations(
    cfg: Config,
    s: State,
    w: World,
    events: Seq<Event>,
    i: int,
    j: int,
)
    requires
        valid_run(s, w, events),
        0 <= i < j <= events.len(),
        run_from(s, w, events.take(i)).0 is Setting,
        run_from(s, w, events.take(j)).0 is Setting,
    ensures
        i + 1 < j,
        run_from(s, w, events.take(i + 1)).0 is Sleeping,
        spec_action(cfg, run_from(s, w, events.take(i + 1)).0) == (Action::Sleep {
            secs: cfg.interval_secs,
        }),
{
    lemma_run_enabled_at(s, w, events, i);
    lemma_run_unfold(s, w, events, i);
    if events[i] is Stop {
        lemma_exit_region_persists(s, w, events, i + 1, j);
    }
}

} // verus!
