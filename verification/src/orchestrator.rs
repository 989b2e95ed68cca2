//! The launch–inject–initialize–resume state machine.
//!
//! A run drives one target process: launch it suspended, then for each
//! discovered mod in load order materialize its extension library, inject
//! it, and invoke its initialization entry point across the process
//! boundary; resume the target only once every mod has been handled; then
//! relay the target's output until it exits. Any failure after the target
//! exists aborts the run by terminating the target — a half-initialized
//! target is never left running.
//!
//! The orchestrator itself performs no outside work. It hands the caller
//! one [`Action`] at a time, and the caller reports how the action went;
//! every transition is verified against the machine's invariant, and the
//! ghost trace of target-visible calls supports the ordering and abort
//! guarantees stated as the proof functions further down.

use vstd::prelude::*;

use crate::bytes::clone_bytes;
use crate::mods::ModDescriptor;

verus! {

/// A call the run makes against the target process, as a mock target would
/// observe it: an injection of mod `j`'s library, an initialization call
/// into mod `j`'s injected module, the resume of the primary thread, or a
/// forced termination.
pub enum Ev {
    Inject(int),
    Init(int),
    Resume,
    Terminate,
}

/// Where the run stands.
#[derive(Clone, Copy, Debug)]
pub enum Phase {
    /// The target process is being created, suspended.
    Launching,
    /// Mod `i`'s extension library is being materialized.
    Materializing(usize),
    /// Mod `i`'s materialized library is being injected.
    Injecting(usize),
    /// Mod `i`'s initialization entry point is being resolved and invoked.
    Initializing(usize),
    /// Every mod has been handled; the primary thread is being released.
    Resuming,
    /// The target runs; its output is being relayed until it exits.
    Relaying,
    /// The run is over: the target was resumed and its output relayed.
    Completed,
    /// The run failed; the target is being forcibly terminated.
    Terminating,
    /// The run is over: it failed, and the target was torn down (or the
    /// teardown itself failed and the caller was warned).
    Failed,
}

/// The target process, as the run owns it.
#[derive(Clone, Copy, Debug, PartialEq, Eq, Structural)]
pub enum TargetState {
    NotCreated,
    Suspended,
    Resumed,
    Terminated,
}

/// What the caller must do next on the orchestrator's behalf.
#[derive(Clone, Copy, Debug)]
pub enum Action {
    /// Create the target process suspended, with a redirected output pipe.
    Launch,
    /// Extract mod `i`'s extension library to its materialization path.
    Materialize(usize),
    /// Inject mod `i`'s materialized library into the target.
    Inject(usize),
    /// Resolve and invoke mod `i`'s initialization entry point.
    Initialize(usize),
    /// Release the target's primary thread and close the handles.
    Resume,
    /// Copy the target's output to our own until the target exits.
    Relay,
    /// Forcibly terminate the target.
    Terminate,
    /// Nothing is left to do; collect the report.
    Finish,
}

/// Why a run failed. Every mod-attributed variant carries the failing
/// mod's name first.
#[derive(Debug)]
pub enum RunError {
    /// The target process could not be created; nothing to clean up.
    Launch(Vec<u8>),
    /// Post-launch setup (finding the target, building the initialization
    /// context) failed.
    Setup(Vec<u8>),
    /// A mod's package is corrupted.
    Extract(Vec<u8>, Vec<u8>),
    /// A mod's extracted library could not be written.
    Write(Vec<u8>, Vec<u8>),
    /// The injection primitive failed for a mod.
    Inject(Vec<u8>, Vec<u8>),
    /// The injected module's entry point could not be resolved.
    ResolveFailed(Vec<u8>, Vec<u8>),
    /// The injected module exports no initialization entry point.
    NoEntryPoint(Vec<u8>),
    /// The initialization call returned a failure message.
    InitFailed(Vec<u8>, Vec<u8>),
    /// The initialization call crashed inside the target.
    InitCrashed(Vec<u8>, Vec<u8>),
    /// Copying the resumed target's output failed; the target was already
    /// running on its own and was not touched.
    Relay(Vec<u8>),
}

/// The outcome of a finished run.
#[derive(Debug)]
pub struct RunReport {
    /// Names of the mods that were injected and initialized, in load
    /// order. Mods without a payload do not appear.
    pub injected: Vec<Vec<u8>>,
    /// Whether the target was resumed.
    pub resumed: bool,
    /// Why the run failed, if it did.
    pub error: Option<RunError>,
    /// Whether the forced termination itself failed, leaving a process
    /// that may need manual intervention.
    pub termination_failed: bool,
}

/// The target-visible calls one handled mod contributes: nothing for a mod
/// without a payload, an injection followed by an initialization call for
/// a mod with one.
pub open spec fn seg(j: int, done: bool) -> Seq<Ev> {
    if done {
        seq![Ev::Inject(j), Ev::Init(j)]
    } else {
        Seq::empty()
    }
}

/// The target-visible calls of a prefix of handled mods: `h[j]` records
/// whether mod `j` was injected and initialized (`true`) or skipped for
/// lack of a payload (`false`).
pub open spec fn segments(h: Seq<bool>) -> Seq<Ev>
    decreases h.len(),
{
    if h.len() == 0 {
        Seq::empty()
    } else {
        segments(h.drop_last()) + seg(h.len() - 1, h.last())
    }
}

/// The names the report lists for a prefix of handled mods: those with
/// `h[j]` set, in load order.
pub open spec fn injected_names(mods: Seq<Seq<u8>>, h: Seq<bool>) -> Seq<Seq<u8>>
    decreases h.len(),
{
    if h.len() == 0 {
        Seq::empty()
    } else {
        injected_names(mods, h.drop_last()) + if h.last() {
            seq![mods[h.len() - 1]]
        } else {
            Seq::empty()
        }
    }
}

/// The views of a list of owned byte strings.
pub open spec fn names_of(s: Seq<Vec<u8>>) -> Seq<Seq<u8>> {
    Seq::new(s.len(), |i: int| s[i]@)
}

/// Whether the error is one that aborts a run against a live suspended
/// target, and names the right mod: `mods[k]` is the failing mod, where
/// `k` mods were handled before the failure.
pub open spec fn abort_ok(e: RunError, mods: Seq<Seq<u8>>, k: int) -> bool {
    match e {
        RunError::Setup(_) => true,
        RunError::Extract(nm, _) => k < mods.len() && nm@ == mods[k],
        RunError::Write(nm, _) => k < mods.len() && nm@ == mods[k],
        RunError::Inject(nm, _) => k < mods.len() && nm@ == mods[k],
        RunError::ResolveFailed(nm, _) => k < mods.len() && nm@ == mods[k],
        RunError::NoEntryPoint(nm) => k < mods.len() && nm@ == mods[k],
        RunError::InitFailed(nm, _) => k < mods.len() && nm@ == mods[k],
        RunError::InitCrashed(nm, _) => k < mods.len() && nm@ == mods[k],
        RunError::Launch(_) => false,
        RunError::Relay(_) => false,
    }
}

/// The target-visible calls the failing step itself contributed before the
/// abort, for a failure at mod `i`: a failed injection was still an
/// injection call; a failure inside the initialization call still issued
/// that call; a materialization or entry-point-resolution failure touched
/// the target not at all beyond the calls already recorded.
pub open spec fn abort_tail(e: RunError, i: int) -> Seq<Ev> {
    match e {
        RunError::Setup(_) => Seq::empty(),
        RunError::Extract(_, _) => Seq::empty(),
        RunError::Write(_, _) => Seq::empty(),
        RunError::Inject(_, _) => seq![Ev::Inject(i)],
        RunError::ResolveFailed(_, _) => seq![Ev::Inject(i)],
        RunError::NoEntryPoint(_) => seq![Ev::Inject(i)],
        RunError::InitFailed(_, _) => seq![Ev::Inject(i), Ev::Init(i)],
        RunError::InitCrashed(_, _) => seq![Ev::Inject(i), Ev::Init(i)],
        RunError::Launch(_) => Seq::empty(),
        RunError::Relay(_) => Seq::empty(),
    }
}

/// The action each phase asks of the caller.
pub open spec fn action_of(p: Phase) -> Action {
    match p {
        Phase::Launching => Action::Launch,
        Phase::Materializing(i) => Action::Materialize(i),
        Phase::Injecting(i) => Action::Inject(i),
        Phase::Initializing(i) => Action::Initialize(i),
        Phase::Resuming => Action::Resume,
        Phase::Relaying => Action::Relay,
        Phase::Terminating => Action::Terminate,
        Phase::Completed => Action::Finish,
        Phase::Failed => Action::Finish,
    }
}

/// The single-run state machine.
pub struct Orchestrator {
    mods: Vec<ModDescriptor>,
    phase: Phase,
    injected: Vec<Vec<u8>>,
    error: Option<RunError>,
    target: TargetState,
    termination_failed: bool,
    completed: Ghost<Seq<bool>>,
    trace: Ghost<Seq<Ev>>,
}

impl Orchestrator {
    /// The discovered mods' names, in load order.
    pub closed spec fn mods_view(&self) -> Seq<Seq<u8>> {
        Seq::new(self.mods@.len(), |i: int| self.mods@[i].name@)
    }

    pub closed spec fn phase_of(&self) -> Phase {
        self.phase
    }

    pub closed spec fn target_of(&self) -> TargetState {
        self.target
    }

    pub closed spec fn error_of(&self) -> Option<RunError> {
        self.error
    }

    /// One entry per handled mod: `true` for injected and initialized,
    /// `false` for skipped without a payload.
    pub closed spec fn completed_of(&self) -> Seq<bool> {
        self.completed@
    }

    /// The target-visible calls made so far.
    pub closed spec fn trace_of(&self) -> Seq<Ev> {
        self.trace@
    }

    /// The names the report will list as injected.
    pub closed spec fn injected_report(&self) -> Seq<Seq<u8>> {
        names_of(self.injected@)
    }

    pub closed spec fn termination_failed_of(&self) -> bool {
        self.termination_failed
    }

    /// The machine's invariant. Every public transition preserves it; the
    /// proof functions below draw the run's guarantees from it.
    pub closed spec fn wf(&self) -> bool {
        let n = self.mods@.len() as int;
        let h = self.completed@;
        let t = self.trace@;
        &&& forall|i: int| 0 <= i < n ==> (#[trigger] self.mods@[i].load_order_index) == i
        &&& h.len() <= n
        &&& self.injected_report() == injected_names(self.mods_view(), h)
        &&& match self.phase {
            Phase::Launching => {
                &&& h.len() == 0
                &&& t == Seq::<Ev>::empty()
                &&& self.error is None
                &&& self.target is NotCreated
                &&& !self.termination_failed
            },
            Phase::Materializing(i) => {
                &&& h.len() == i as int
                &&& (i as int) < n
                &&& t == segments(h)
                &&& self.error is None
                &&& self.target is Suspended
                &&& !self.termination_failed
            },
            Phase::Injecting(i) => {
                &&& h.len() == i as int
                &&& (i as int) < n
                &&& t == segments(h)
                &&& self.error is None
                &&& self.target is Suspended
                &&& !self.termination_failed
            },
            Phase::Initializing(i) => {
                &&& h.len() == i as int
                &&& (i as int) < n
                &&& t == segments(h) + seq![Ev::Inject(i as int)]
                &&& self.error is None
                &&& self.target is Suspended
                &&& !self.termination_failed
            },
            Phase::Resuming => {
                &&& h.len() == n
                &&& t == segments(h)
                &&& self.error is None
                &&& self.target is Suspended
                &&& !self.termination_failed
            },
            Phase::Relaying => {
                &&& h.len() == n
                &&& t == segments(h) + seq![Ev::Resume]
                &&& self.error is None
                &&& self.target is Resumed
                &&& !self.termination_failed
            },
            Phase::Completed => {
                &&& h.len() == n
                &&& t == segments(h) + seq![Ev::Resume]
                &&& (self.error is None || self.error matches Some(RunError::Relay(_)))
                &&& self.target is Resumed
                &&& !self.termination_failed
            },
            Phase::Terminating => {
                &&& self.target is Suspended
                &&& !self.termination_failed
                &&& match self.error {
                    Some(e) => abort_ok(e, self.mods_view(), h.len() as int) && t == segments(h)
                        + abort_tail(e, h.len() as int),
                    None => false,
                }
            },
            Phase::Failed => {
                match self.error {
                    Some(RunError::Launch(_)) => {
                        &&& h.len() == 0
                        &&& t == Seq::<Ev>::empty()
                        &&& self.target is NotCreated
                        &&& !self.termination_failed
                    },
                    Some(e) => {
                        &&& abort_ok(e, self.mods_view(), h.len() as int)
                        &&& t == segments(h) + abort_tail(e, h.len() as int) + seq![Ev::Terminate]
                        &&& (self.termination_failed ==> self.target is Suspended)
                        &&& (!self.termination_failed ==> self.target is Terminated)
                    },
                    None => false,
                }
            },
        }
    }

    /// A fresh run over the discovered mods, which discovery hands over in
    /// load order: mod `i`'s load-order index is `i`.
    pub fn new(mods: Vec<ModDescriptor>) -> (r: Orchestrator)
        requires
            forall|i: int| 0 <= i < mods@.len() ==> (#[trigger] mods@[i].load_order_index) == i,
        ensures
            r.wf(),
            r.phase_of() is Launching,
            r.mods_view() == Seq::new(mods@.len(), |i: int| mods@[i].name@),
            r.trace_of() == Seq::<Ev>::empty(),
            r.completed_of() == Seq::<bool>::empty(),
            r.error_of() is None,
            r.target_of() is NotCreated,
            r.injected_report() == Seq::<Seq<u8>>::empty(),
            !r.termination_failed_of(),
    {
        let r = Orchestrator {
            mods,
            phase: Phase::Launching,
            injected: Vec::new(),
            error: None,
            target: TargetState::NotCreated,
            termination_failed: false,
            completed: Ghost(Seq::empty()),
            trace: Ghost(Seq::empty()),
        };
        proof {
            assert(names_of(r.injected@) =~= Seq::<Seq<u8>>::empty());
            assert(injected_names(r.mods_view(), Seq::empty()) == Seq::<Seq<u8>>::empty());
        }
        r
    }

    /// How many mods the run knows.
    pub fn mod_count(&self) -> (n: usize)
        ensures
            n == self.mods_view().len(),
    {
        self.mods.len()
    }

    /// Mod `i`'s name.
    pub fn mod_name(&self, i: usize) -> (r: Vec<u8>)
        requires
            i < self.mods_view().len(),
        ensures
            r@ == self.mods_view()[i as int],
    {
        clone_bytes(&self.mods[i].name)
    }

    /// The target process's current state.
    pub fn target_state(&self) -> (t: TargetState)
        ensures
            t == self.target_of(),
    {
        self.target
    }

    /// What the caller must do next.
    pub fn next_action(&self) -> (a: Action)
        ensures
            a == action_of(self.phase_of()),
    {
        match self.phase {
            Phase::Launching => Action::Launch,
            Phase::Materializing(i) => Action::Materialize(i),
            Phase::Injecting(i) => Action::Inject(i),
            Phase::Initializing(i) => Action::Initialize(i),
            Phase::Resuming => Action::Resume,
            Phase::Relaying => Action::Relay,
            Phase::Terminating => Action::Terminate,
            Phase::Completed => Action::Finish,
            Phase::Failed => Action::Finish,
        }
    }

    /// The target process was created, suspended. With no mods to handle
    /// the run moves straight to resuming; otherwise the first mod's
    /// library is materialized.
    pub fn launched(&mut self)
        requires
            old(self).wf(),
            old(self).phase_of() is Launching,
        ensures
            final(self).wf(),
            !final(self).termination_failed_of(),
            final(self).mods_view() == old(self).mods_view(),
            final(self).target_of() is Suspended,
            final(self).trace_of() == old(self).trace_of(),
            final(self).completed_of() == old(self).completed_of(),
            final(self).error_of() is None,
            final(self).injected_report() == old(self).injected_report(),
            old(self).mods_view().len() == 0 ==> final(self).phase_of() is Resuming,
            old(self).mods_view().len() > 0 ==> final(self).phase_of() == Phase::Materializing(0),
    {
        self.target = TargetState::Suspended;
        if self.mods.len() == 0 {
            self.phase = Phase::Resuming;
        } else {
            self.phase = Phase::Materializing(0);
        }
    }

    /// Creating the target process failed. Nothing exists to clean up; the
    /// run is over.
    pub fn launch_failed(&mut self, message: Vec<u8>)
        requires
            old(self).wf(),
            old(self).phase_of() is Launching,
        ensures
            final(self).wf(),
            !final(self).termination_failed_of(),
            final(self).mods_view() == old(self).mods_view(),
            final(self).phase_of() is Failed,
            final(self).target_of() is NotCreated,
            final(self).trace_of() == old(self).trace_of(),
            final(self).error_of() matches Some(e) && (e matches RunError::Launch(m) && m@
                == message@),
            final(self).injected_report() == old(self).injected_report(),
    {
        self.error = Some(RunError::Launch(message));
        self.phase = Phase::Failed;
    }

    /// Post-launch setup failed before any mod was touched: the target
    /// exists and must be torn down.
    pub fn setup_failed(&mut self, message: Vec<u8>)
        requires
            old(self).wf(),
            old(self).phase_of() matches Phase::Materializing(_) || old(self).phase_of()
                is Resuming,
        ensures
            final(self).wf(),
            !final(self).termination_failed_of(),
            final(self).mods_view() == old(self).mods_view(),
            final(self).phase_of() is Terminating,
            final(self).trace_of() == old(self).trace_of(),
            final(self).completed_of() == old(self).completed_of(),
            final(self).error_of() matches Some(e) && (e matches RunError::Setup(m) && m@
                == message@),
    {
        self.error = Some(RunError::Setup(message));
        self.phase = Phase::Terminating;
        proof {
            assert(self.trace@ =~= segments(self.completed@) + abort_tail(
                RunError::Setup(message),
                self.completed@.len() as int,
            ));
        }
    }

    /// Mod `i` has no extension payload: it is skipped, the run goes on,
    /// and the target is not touched.
    pub fn payload_absent(&mut self, i: usize)
        requires
            old(self).wf(),
            old(self).phase_of() == Phase::Materializing(i),
        ensures
            final(self).wf(),
            !final(self).termination_failed_of(),
            final(self).mods_view() == old(self).mods_view(),
            final(self).completed_of() == old(self).completed_of().push(false),
            final(self).trace_of() == old(self).trace_of(),
            final(self).injected_report() == old(self).injected_report(),
            final(self).error_of() is None,
            final(self).target_of() is Suspended,
            i + 1 == old(self).mods_view().len() ==> final(self).phase_of() is Resuming,
            i + 1 < old(self).mods_view().len() ==> final(self).phase_of()
                == Phase::Materializing((i + 1) as usize),
    {
        proof {
            lemma_segments_push(self.completed@, false);
            lemma_injected_names_push(self.mods_view(), self.completed@, false);
            assert(segments(self.completed@.push(false)) =~= segments(self.completed@));
            assert(injected_names(self.mods_view(), self.completed@.push(false)) =~= injected_names(
                self.mods_view(),
                self.completed@,
            ));
        }
        self.completed = Ghost(self.completed@.push(false));
        let n = self.mods.len();
        proof {
            assert(i < n);
        }
        if i + 1 == n {
            self.phase = Phase::Resuming;
        } else {
            self.phase = Phase::Materializing(i + 1);
        }
    }

    /// Mod `i`'s extension library was written to its materialization
    /// path; injection is next.
    pub fn payload_written(&mut self, i: usize)
        requires
            old(self).wf(),
            old(self).phase_of() == Phase::Materializing(i),
        ensures
            final(self).wf(),
            !final(self).termination_failed_of(),
            final(self).mods_view() == old(self).mods_view(),
            final(self).completed_of() == old(self).completed_of(),
            final(self).trace_of() == old(self).trace_of(),
            final(self).injected_report() == old(self).injected_report(),
            final(self).error_of() is None,
            final(self).phase_of() == Phase::Injecting(i),
    {
        self.phase = Phase::Injecting(i);
    }

    /// Mod `i`'s package is corrupted: the run aborts.
    pub fn payload_corrupted(&mut self, i: usize, message: Vec<u8>)
        requires
            old(self).wf(),
            old(self).phase_of() == Phase::Materializing(i),
        ensures
            final(self).wf(),
            !final(self).termination_failed_of(),
            final(self).mods_view() == old(self).mods_view(),
            final(self).phase_of() is Terminating,
            final(self).trace_of() == old(self).trace_of(),
            final(self).completed_of() == old(self).completed_of(),
            final(self).error_of() matches Some(e) && (e matches RunError::Extract(nm, m) && nm@
                == old(self).mods_view()[i as int] && m@ == message@),
    {
        let name = clone_bytes(&self.mods[i].name);
        self.error = Some(RunError::Extract(name, message));
        self.phase = Phase::Terminating;
        proof {
            let e = self.error->Some_0;
            assert(self.trace@ =~= segments(self.completed@) + abort_tail(
                e,
                self.completed@.len() as int,
            ));
        }
    }

    /// Writing mod `i`'s extracted library to disk failed: the run aborts.
    pub fn payload_write_failed(&mut self, i: usize, message: Vec<u8>)
        requires
            old(self).wf(),
            old(self).phase_of() == Phase::Materializing(i),
        ensures
            final(self).wf(),
            !final(self).termination_failed_of(),
            final(self).mods_view() == old(self).mods_view(),
            final(self).phase_of() is Terminating,
            final(self).trace_of() == old(self).trace_of(),
            final(self).completed_of() == old(self).completed_of(),
            final(self).error_of() matches Some(e) && (e matches RunError::Write(nm, m) && nm@
                == old(self).mods_view()[i as int] && m@ == message@),
    {
        let name = clone_bytes(&self.mods[i].name);
        self.error = Some(RunError::Write(name, message));
        self.phase = Phase::Terminating;
        proof {
            let e = self.error->Some_0;
            assert(self.trace@ =~= segments(self.completed@) + abort_tail(
                e,
                self.completed@.len() as int,
            ));
        }
    }

    /// Mod `i`'s library was injected; its entry point is invoked next.
    pub fn injected_ok(&mut self, i: usize)
        requires
            old(self).wf(),
            old(self).phase_of() == Phase::Injecting(i),
        ensures
            final(self).wf(),
            !final(self).termination_failed_of(),
            final(self).mods_view() == old(self).mods_view(),
            final(self).completed_of() == old(self).completed_of(),
            final(self).trace_of() == old(self).trace_of().push(Ev::Inject(i as int)),
            final(self).injected_report() == old(self).injected_report(),
            final(self).error_of() is None,
            final(self).phase_of() == Phase::Initializing(i),
    {
        self.trace = Ghost(self.trace@.push(Ev::Inject(i as int)));
        self.phase = Phase::Initializing(i);
        proof {
            assert(self.trace@ =~= segments(self.completed@) + seq![Ev::Inject(i as int)]);
        }
    }

    /// Injecting mod `i`'s library failed: the injection call was observed
    /// by the target, and the run aborts.
    pub fn inject_failed(&mut self, i: usize, message: Vec<u8>)
        requires
            old(self).wf(),
            old(self).phase_of() == Phase::Injecting(i),
        ensures
            final(self).wf(),
            !final(self).termination_failed_of(),
            final(self).mods_view() == old(self).mods_view(),
            final(self).phase_of() is Terminating,
            final(self).trace_of() == old(self).trace_of().push(Ev::Inject(i as int)),
            final(self).completed_of() == old(self).completed_of(),
            final(self).error_of() matches Some(e) && (e matches RunError::Inject(nm, m) && nm@
                == old(self).mods_view()[i as int] && m@ == message@),
    {
        let name = clone_bytes(&self.mods[i].name);
        self.error = Some(RunError::Inject(name, message));
        self.trace = Ghost(self.trace@.push(Ev::Inject(i as int)));
        self.phase = Phase::Terminating;
        proof {
            let e = self.error->Some_0;
            assert(self.trace@ =~= segments(self.completed@) + abort_tail(
                e,
                self.completed@.len() as int,
            ));
        }
    }

    /// Resolving mod `i`'s entry point failed outright: the run aborts
    /// without issuing the initialization call.
    pub fn entry_point_resolve_failed(&mut self, i: usize, message: Vec<u8>)
        requires
            old(self).wf(),
            old(self).phase_of() == Phase::Initializing(i),
        ensures
            final(self).wf(),
            !final(self).termination_failed_of(),
            final(self).mods_view() == old(self).mods_view(),
            final(self).phase_of() is Terminating,
            final(self).trace_of() == old(self).trace_of(),
            final(self).completed_of() == old(self).completed_of(),
            final(self).error_of() matches Some(e) && (e matches RunError::ResolveFailed(nm, m)
                && nm@ == old(self).mods_view()[i as int] && m@ == message@),
    {
        let name = clone_bytes(&self.mods[i].name);
        self.error = Some(RunError::ResolveFailed(name, message));
        self.phase = Phase::Terminating;
        proof {
            let e = self.error->Some_0;
            assert(self.trace@ =~= segments(self.completed@) + abort_tail(
                e,
                self.completed@.len() as int,
            ));
        }
    }

    /// Mod `i`'s injected module exports no initialization entry point —
    /// distinguished from a failed injection: the run aborts without
    /// issuing the initialization call.
    pub fn entry_point_missing(&mut self, i: usize)
        requires
            old(self).wf(),
            old(self).phase_of() == Phase::Initializing(i),
        ensures
            final(self).wf(),
            !final(self).termination_failed_of(),
            final(self).mods_view() == old(self).mods_view(),
            final(self).phase_of() is Terminating,
            final(self).trace_of() == old(self).trace_of(),
            final(self).completed_of() == old(self).completed_of(),
            final(self).error_of() matches Some(e) && (e matches RunError::NoEntryPoint(nm) && nm@
                == old(self).mods_view()[i as int]),
    {
        let name = clone_bytes(&self.mods[i].name);
        self.error = Some(RunError::NoEntryPoint(name));
        self.phase = Phase::Terminating;
        proof {
            let e = self.error->Some_0;
            assert(self.trace@ =~= segments(self.completed@) + abort_tail(
                e,
                self.completed@.len() as int,
            ));
        }
    }

    /// Mod `i`'s initialization call returned success: the mod is fully
    /// initialized and the run advances.
    pub fn init_ok(&mut self, i: usize)
        requires
            old(self).wf(),
            old(self).phase_of() == Phase::Initializing(i),
        ensures
            final(self).wf(),
            !final(self).termination_failed_of(),
            final(self).mods_view() == old(self).mods_view(),
            final(self).completed_of() == old(self).completed_of().push(true),
            final(self).trace_of() == old(self).trace_of().push(Ev::Init(i as int)),
            final(self).injected_report() == old(self).injected_report().push(
                old(self).mods_view()[i as int],
            ),
            final(self).error_of() is None,
            final(self).target_of() is Suspended,
            i + 1 == old(self).mods_view().len() ==> final(self).phase_of() is Resuming,
            i + 1 < old(self).mods_view().len() ==> final(self).phase_of()
                == Phase::Materializing((i + 1) as usize),
    {
        proof {
            lemma_segments_push(self.completed@, true);
            lemma_injected_names_push(self.mods_view(), self.completed@, true);
        }
        let ghost old_names = names_of(self.injected@);
        let name = clone_bytes(&self.mods[i].name);
        self.injected.push(name);
        self.trace = Ghost(self.trace@.push(Ev::Init(i as int)));
        self.completed = Ghost(self.completed@.push(true));
        let n = self.mods.len();
        proof {
            assert(i < n);
        }
        if i + 1 == n {
            self.phase = Phase::Resuming;
        } else {
            self.phase = Phase::Materializing(i + 1);
        }
        proof {
            assert(names_of(self.injected@) =~= old_names.push(self.mods_view()[i as int]));
            assert(self.trace@ =~= segments(self.completed@));
            assert(injected_names(self.mods_view(), self.completed@) =~= old_names.push(
                self.mods_view()[i as int],
            ));
        }
    }

    /// Mod `i`'s initialization call returned a failure message: the run
    /// aborts.
    pub fn init_reported_failure(&mut self, i: usize, message: Vec<u8>)
        requires
            old(self).wf(),
            old(self).phase_of() == Phase::Initializing(i),
        ensures
            final(self).wf(),
            !final(self).termination_failed_of(),
            final(self).mods_view() == old(self).mods_view(),
            final(self).phase_of() is Terminating,
            final(self).trace_of() == old(self).trace_of().push(Ev::Init(i as int)),
            final(self).completed_of() == old(self).completed_of(),
            final(self).error_of() matches Some(e) && (e matches RunError::InitFailed(nm, m) && nm@
                == old(self).mods_view()[i as int] && m@ == message@),
    {
        let name = clone_bytes(&self.mods[i].name);
        self.error = Some(RunError::InitFailed(name, message));
        self.trace = Ghost(self.trace@.push(Ev::Init(i as int)));
        self.phase = Phase::Terminating;
        proof {
            let e = self.error->Some_0;
            assert(self.trace@ =~= segments(self.completed@) + abort_tail(
                e,
                self.completed@.len() as int,
            ));
        }
    }

    /// Mod `i`'s initialization call crashed inside the target: the run
    /// aborts.
    pub fn init_crashed(&mut self, i: usize, message: Vec<u8>)
        requires
            old(self).wf(),
            old(self).phase_of() == Phase::Initializing(i),
        ensures
            final(self).wf(),
            !final(self).termination_failed_of(),
            final(self).mods_view() == old(self).mods_view(),
            final(self).phase_of() is Terminating,
            final(self).trace_of() == old(self).trace_of().push(Ev::Init(i as int)),
            final(self).completed_of() == old(self).completed_of(),
            final(self).error_of() matches Some(e) && (e matches RunError::InitCrashed(nm, m)
                && nm@ == old(self).mods_view()[i as int] && m@ == message@),
    {
        let name = clone_bytes(&self.mods[i].name);
        self.error = Some(RunError::InitCrashed(name, message));
        self.trace = Ghost(self.trace@.push(Ev::Init(i as int)));
        self.phase = Phase::Terminating;
        proof {
            let e = self.error->Some_0;
            assert(self.trace@ =~= segments(self.completed@) + abort_tail(
                e,
                self.completed@.len() as int,
            ));
        }
    }

    /// The target's primary thread was released: the target now runs on
    /// its own, and the run relays its output.
    pub fn resumed(&mut self)
        requires
            old(self).wf(),
            old(self).phase_of() is Resuming,
        ensures
            final(self).wf(),
            !final(self).termination_failed_of(),
            final(self).mods_view() == old(self).mods_view(),
            final(self).phase_of() is Relaying,
            final(self).target_of() is Resumed,
            final(self).trace_of() == old(self).trace_of().push(Ev::Resume),
            final(self).completed_of() == old(self).completed_of(),
            final(self).injected_report() == old(self).injected_report(),
            final(self).error_of() is None,
    {
        self.target = TargetState::Resumed;
        self.trace = Ghost(self.trace@.push(Ev::Resume));
        self.phase = Phase::Relaying;
        proof {
            assert(self.trace@ =~= segments(self.completed@) + seq![Ev::Resume]);
        }
    }

    /// The target exited and its output was relayed to the end: the run
    /// succeeded.
    pub fn relay_finished(&mut self)
        requires
            old(self).wf(),
            old(self).phase_of() is Relaying,
        ensures
            final(self).wf(),
            !final(self).termination_failed_of(),
            final(self).mods_view() == old(self).mods_view(),
            final(self).phase_of() is Completed,
            final(self).trace_of() == old(self).trace_of(),
            final(self).completed_of() == old(self).completed_of(),
            final(self).injected_report() == old(self).injected_report(),
            final(self).error_of() is None,
            final(self).target_of() is Resumed,
    {
        self.phase = Phase::Completed;
    }

    /// Relaying the output failed. The target was already running on its
    /// own; it is not touched, but the failure is reported.
    pub fn relay_failed(&mut self, message: Vec<u8>)
        requires
            old(self).wf(),
            old(self).phase_of() is Relaying,
        ensures
            final(self).wf(),
            !final(self).termination_failed_of(),
            final(self).mods_view() == old(self).mods_view(),
            final(self).phase_of() is Completed,
            final(self).trace_of() == old(self).trace_of(),
            final(self).completed_of() == old(self).completed_of(),
            final(self).injected_report() == old(self).injected_report(),
            final(self).error_of() matches Some(e) && (e matches RunError::Relay(m) && m@
                == message@),
            final(self).target_of() is Resumed,
    {
        self.error = Some(RunError::Relay(message));
        self.phase = Phase::Completed;
    }

    /// The target was forcibly terminated: the abort is complete.
    pub fn terminated(&mut self)
        requires
            old(self).wf(),
            old(self).phase_of() is Terminating,
        ensures
            final(self).wf(),
            final(self).mods_view() == old(self).mods_view(),
            final(self).phase_of() is Failed,
            final(self).target_of() is Terminated,
            final(self).trace_of() == old(self).trace_of().push(Ev::Terminate),
            final(self).completed_of() == old(self).completed_of(),
            final(self).error_of() == old(self).error_of(),
            !final(self).termination_failed_of(),
    {
        self.target = TargetState::Terminated;
        self.trace = Ghost(self.trace@.push(Ev::Terminate));
        self.phase = Phase::Failed;
        proof {
            let e = self.error->Some_0;
            assert(self.trace@ =~= segments(self.completed@) + abort_tail(
                e,
                self.completed@.len() as int,
            ) + seq![Ev::Terminate]);
        }
    }

    /// Forcible termination itself failed: the abort is still over, but
    /// the report must warn that a process may be left running and need
    /// manual intervention.
    pub fn terminate_failed(&mut self)
        requires
            old(self).wf(),
            old(self).phase_of() is Terminating,
        ensures
            final(self).wf(),
            final(self).mods_view() == old(self).mods_view(),
            final(self).phase_of() is Failed,
            final(self).target_of() is Suspended,
            final(self).trace_of() == old(self).trace_of().push(Ev::Terminate),
            final(self).completed_of() == old(self).completed_of(),
            final(self).error_of() == old(self).error_of(),
            final(self).termination_failed_of(),
    {
        self.termination_failed = true;
        self.trace = Ghost(self.trace@.push(Ev::Terminate));
        self.phase = Phase::Failed;
        proof {
            let e = self.error->Some_0;
            assert(self.trace@ =~= segments(self.completed@) + abort_tail(
                e,
                self.completed@.len() as int,
            ) + seq![Ev::Terminate]);
        }
    }

    /// The finished run's outcome.
    pub fn into_report(self) -> (r: RunReport)
        requires
            self.wf(),
            self.phase_of() is Completed || self.phase_of() is Failed,
        ensures
            names_of(r.injected@) == self.injected_report(),
            r.resumed == (self.phase_of() is Completed),
            r.error == self.error_of(),
            r.termination_failed == self.termination_failed_of(),
    {
        let resumed = match self.phase {
            Phase::Completed => true,
            _ => false,
        };
        RunReport {
            injected: self.injected,
            resumed,
            error: self.error,
            termination_failed: self.termination_failed,
        }
    }
}

/// Whether `e` is the injection call for mod `j`.
pub open spec fn is_inject(e: Ev, j: int) -> bool {
    e == Ev::Inject(j)
}

/// Whether `e` is the initialization call for mod `j`.
pub open spec fn is_init(e: Ev, j: int) -> bool {
    e == Ev::Init(j)
}

/// Whether `e` is an injection or initialization call for mod `j`.
pub open spec fn is_mod_ev(e: Ev, j: int) -> bool {
    is_inject(e, j) || is_init(e, j)
}

/// Whether `e` is an initialization call at all.
pub open spec fn is_init_ev(e: Ev) -> bool {
    e matches Ev::Init(_)
}

/// Whether `e` is an injection call at all.
pub open spec fn is_inject_ev(e: Ev) -> bool {
    e matches Ev::Inject(_)
}

/// What the calls of a fully handled prefix look like: every call belongs
/// to a successfully handled mod; call indices never step backwards;
/// initialization calls (and injection calls) are strictly ordered; and
/// the prefix neither resumes nor terminates the target.
proof fn lemma_segments_facts(h: Seq<bool>)
    ensures
        forall|p: int, j: int|
            0 <= p < segments(h).len() && #[trigger] is_mod_ev(segments(h)[p], j) ==> 0 <= j
                < h.len() && h[j],
        forall|p: int, q: int, ja: int, jb: int|
            0 <= p < q < segments(h).len() && #[trigger] is_mod_ev(segments(h)[p], ja)
                && #[trigger] is_mod_ev(segments(h)[q], jb) ==> ja <= jb,
        forall|p: int, q: int, ja: int, jb: int|
            0 <= p < q < segments(h).len() && #[trigger] is_init(segments(h)[p], ja)
                && #[trigger] is_init(segments(h)[q], jb) ==> ja < jb,
        forall|p: int, q: int, ja: int, jb: int|
            0 <= p < q < segments(h).len() && #[trigger] is_inject(segments(h)[p], ja)
                && #[trigger] is_inject(segments(h)[q], jb) ==> ja < jb,
        forall|p: int| 0 <= p < segments(h).len() ==> segments(h)[p] != Ev::Resume && segments(
            h,
        )[p] != Ev::Terminate,
    decreases h.len(),
{
    if h.len() == 0 {
    } else {
        let h0 = h.drop_last();
        lemma_segments_facts(h0);
        let t0 = segments(h0);
        let s = seg(h.len() - 1, h.last());
        let t = segments(h);
        assert(t == t0 + s);
        assert forall|p: int, j: int|
            0 <= p < t.len() && #[trigger] is_mod_ev(t[p], j) implies 0 <= j < h.len() && h[j] by {
            if p < t0.len() {
                assert(t[p] == t0[p]);
                assert(is_mod_ev(segments(h0)[p], j));
                assert(h0[j] == h[j]);
            } else {
                assert(h.last());
                assert(t[p] == s[p - t0.len()]);
                assert(j == h.len() - 1);
                assert(h[j] == h.last());
            }
        }
        assert forall|p: int, q: int, ja: int, jb: int|
            0 <= p < q < t.len() && #[trigger] is_mod_ev(t[p], ja) && #[trigger] is_mod_ev(
            t[q],
            jb,
        ) implies ja <= jb by {
            if q < t0.len() {
                assert(t[p] == t0[p]);
                assert(t[q] == t0[q]);
                assert(is_mod_ev(segments(h0)[p], ja));
                assert(is_mod_ev(segments(h0)[q], jb));
            } else if p < t0.len() {
                assert(t[p] == t0[p]);
                assert(is_mod_ev(segments(h0)[p], ja));
                assert(h.last());
                assert(t[q] == s[q - t0.len()]);
                assert(jb == h.len() - 1);
            } else {
                assert(h.last());
                assert(t[p] == s[p - t0.len()]);
                assert(t[q] == s[q - t0.len()]);
            }
        }
        assert forall|p: int, q: int, ja: int, jb: int|
            0 <= p < q < t.len() && #[trigger] is_init(t[p], ja) && #[trigger] is_init(
            t[q],
            jb,
        ) implies ja < jb by {
            if q < t0.len() {
                assert(t[p] == t0[p]);
                assert(t[q] == t0[q]);
                assert(is_init(segments(h0)[p], ja));
                assert(is_init(segments(h0)[q], jb));
            } else if p < t0.len() {
                assert(t[p] == t0[p]);
                assert(is_init(segments(h0)[p], ja));
                assert(is_mod_ev(segments(h0)[p], ja));
                assert(ja < h0.len());
                assert(h.last());
                assert(t[q] == s[q - t0.len()]);
                assert(jb == h.len() - 1);
            } else {
                assert(h.last());
                assert(t[p] == s[p - t0.len()]);
                assert(t[q] == s[q - t0.len()]);
                assert(p - t0.len() == 1 && q - t0.len() == 1);
                assert(false);
            }
        }
        assert forall|p: int, q: int, ja: int, jb: int|
            0 <= p < q < t.len() && #[trigger] is_inject(t[p], ja) && #[trigger] is_inject(
            t[q],
            jb,
        ) implies ja < jb by {
            if q < t0.len() {
                assert(t[p] == t0[p]);
                assert(t[q] == t0[q]);
                assert(is_inject(segments(h0)[p], ja));
                assert(is_inject(segments(h0)[q], jb));
            } else if p < t0.len() {
                assert(t[p] == t0[p]);
                assert(is_inject(segments(h0)[p], ja));
                assert(is_mod_ev(segments(h0)[p], ja));
                assert(ja < h0.len());
                assert(h.last());
                assert(t[q] == s[q - t0.len()]);
                assert(jb == h.len() - 1);
            } else {
                assert(h.last());
                assert(t[p] == s[p - t0.len()]);
                assert(t[q] == s[q - t0.len()]);
                assert(p - t0.len() == 0 && q - t0.len() == 0);
                assert(false);
            }
        }
        assert forall|p: int| 0 <= p < t.len() implies t[p] != Ev::Resume && t[p]
            != Ev::Terminate by {
            if p < t0.len() {
                assert(t[p] == t0[p]);
            } else {
                assert(h.last());
                assert(t[p] == s[p - t0.len()]);
            }
        }
    }
}

/// How many of the handled mods were injected.
pub open spec fn num_injected(h: Seq<bool>) -> int
    decreases h.len(),
{
    if h.len() == 0 {
        0
    } else {
        num_injected(h.drop_last()) + if h.last() {
            1int
        } else {
            0int
        }
    }
}

/// Which handled mod the report's entry `k` came from.
pub open spec fn source_index(h: Seq<bool>, k: int) -> int
    decreases h.len(),
{
    if h.len() == 0 {
        0
    } else if h.last() && k == num_injected(h.drop_last()) {
        h.len() - 1
    } else {
        source_index(h.drop_last(), k)
    }
}

proof fn lemma_injected_names_len(mods: Seq<Seq<u8>>, h: Seq<bool>)
    ensures
        injected_names(mods, h).len() == num_injected(h),
        num_injected(h) >= 0,
    decreases h.len(),
{
    if h.len() != 0 {
        lemma_injected_names_len(mods, h.drop_last());
    }
}

/// Every member of the injected report is the name of some successfully
/// handled mod: entry `k` is the name of mod `source_index(h, k)`.
proof fn lemma_injected_names_members(mods: Seq<Seq<u8>>, h: Seq<bool>)
    ensures
        forall|k: int|
            0 <= k < injected_names(mods, h).len() ==> (#[trigger] injected_names(mods, h)[k])
                == mods[source_index(h, k)] && 0 <= source_index(h, k) < h.len() && h[
                source_index(h, k)
            ],
    decreases h.len(),
{
    lemma_injected_names_len(mods, h);
    if h.len() != 0 {
        let h0 = h.drop_last();
        lemma_injected_names_members(mods, h0);
        lemma_injected_names_len(mods, h0);
        let r0 = injected_names(mods, h0);
        let r = injected_names(mods, h);
        assert forall|k: int| 0 <= k < r.len() implies (#[trigger] injected_names(mods, h)[k])
            == mods[source_index(h, k)] && 0 <= source_index(h, k) < h.len() && h[
            source_index(h, k)
        ] by {
            if k < r0.len() {
                assert(r[k] == r0[k]);
                assert(r0[k] == mods[source_index(h0, k)]);
                assert(k != num_injected(h0));
                assert(source_index(h, k) == source_index(h0, k));
                let a = source_index(h, k);
                assert(h[a] == h0[a]);
            } else {
                assert(h.last());
                assert(k == r0.len());
                assert(k == num_injected(h0));
                assert(source_index(h, k) == h.len() - 1);
                assert(r[k] == mods[h.len() - 1]);
            }
        }
    }
}

/// Every trace is the calls of the handled prefix followed by a short
/// tail: the tail's injection or initialization calls, if any, belong to
/// the mod being handled when the trace ended; the tail holds at most one
/// initialization call; a resume opens the tail exactly when the run made
/// it past every mod; a termination closes the trace exactly when the run
/// failed against a live target.
proof fn lemma_trace_structure(o: &Orchestrator)
    requires
        o.wf(),
    ensures
        segments(o.completed_of()).len() <= o.trace_of().len(),
        forall|p: int|
            0 <= p < segments(o.completed_of()).len() ==> o.trace_of()[p] == segments(
                o.completed_of(),
            )[p],
        forall|p: int, j: int|
            segments(o.completed_of()).len() <= p < o.trace_of().len() && #[trigger] is_mod_ev(
                o.trace_of()[p],
                j,
            ) ==> j == o.completed_of().len() && o.completed_of().len() < o.mods_view().len(),
        forall|p: int, q: int|
            segments(o.completed_of()).len() <= p < q < o.trace_of().len() ==> !(is_init_ev(
                o.trace_of()[p],
            ) && is_init_ev(o.trace_of()[q])),
        forall|p: int, q: int|
            segments(o.completed_of()).len() <= p < q < o.trace_of().len() ==> !(is_inject_ev(
                o.trace_of()[p],
            ) && is_inject_ev(o.trace_of()[q])),
        forall|p: int|
            segments(o.completed_of()).len() <= p < o.trace_of().len() && o.trace_of()[p]
                == Ev::Resume ==> p == segments(o.completed_of()).len() && (o.phase_of()
                is Relaying || o.phase_of() is Completed),
        forall|p: int|
            segments(o.completed_of()).len() <= p < o.trace_of().len() && o.trace_of()[p]
                == Ev::Terminate ==> p == o.trace_of().len() - 1 && o.phase_of() is Failed,
{
    let h = o.completed@;
    let t = o.trace@;
    let t0 = segments(h);
    match o.phase {
        Phase::Launching => {},
        Phase::Materializing(_) => {},
        Phase::Injecting(_) => {},
        Phase::Resuming => {},
        Phase::Initializing(i) => {
            assert(t == t0 + seq![Ev::Inject(i as int)]);
        },
        Phase::Relaying => {
            assert(t == t0 + seq![Ev::Resume]);
        },
        Phase::Completed => {
            assert(t == t0 + seq![Ev::Resume]);
        },
        Phase::Terminating => {
            let e = o.error->Some_0;
            assert(t == t0 + abort_tail(e, h.len() as int));
        },
        Phase::Failed => {
            let e = o.error->Some_0;
            if e matches RunError::Launch(_) {
                assert(t == Seq::<Ev>::empty());
                assert(t0 == Seq::<Ev>::empty());
            } else {
                assert(t == t0 + abort_tail(e, h.len() as int) + seq![Ev::Terminate]);
            }
        },
    }
}

/// Initialization calls are observed in exactly load order: whenever one
/// initialization call is observed before another, the earlier one belongs
/// to a mod strictly earlier in the load order, and that earlier mod had
/// completed its initialization successfully before the later call was
/// issued.
pub proof fn lemma_init_calls_in_load_order(o: &Orchestrator)
    requires
        o.wf(),
    ensures
        forall|p: int, q: int, ja: int, jb: int|
            0 <= p < q < o.trace_of().len() && #[trigger] is_init(o.trace_of()[p], ja)
                && #[trigger] is_init(o.trace_of()[q], jb) ==> ja < jb && 0 <= ja
                < o.completed_of().len() && o.completed_of()[ja],
{
    let h = o.completed_of();
    let t = o.trace_of();
    let t0 = segments(h);
    lemma_segments_facts(h);
    lemma_trace_structure(o);
    assert forall|p: int, q: int, ja: int, jb: int|
        0 <= p < q < t.len() && #[trigger] is_init(t[p], ja) && #[trigger] is_init(
        t[q],
        jb,
    ) implies ja < jb && 0 <= ja < h.len() && h[ja] by {
        if q < t0.len() {
            assert(t[p] == t0[p]);
            assert(t[q] == t0[q]);
            assert(is_init(segments(h)[p], ja));
            assert(is_init(segments(h)[q], jb));
            assert(is_mod_ev(segments(h)[p], ja));
        } else if p < t0.len() {
            assert(t[p] == t0[p]);
            assert(is_init(segments(h)[p], ja));
            assert(is_mod_ev(segments(h)[p], ja));
            assert(is_mod_ev(t[q], jb));
            assert(jb == h.len());
        } else {
            assert(is_init_ev(t[p]) && is_init_ev(t[q]));
            assert(false);
        }
    }
}

/// Injection calls are observed in exactly load order too.
pub proof fn lemma_inject_calls_in_load_order(o: &Orchestrator)
    requires
        o.wf(),
    ensures
        forall|p: int, q: int, ja: int, jb: int|
            0 <= p < q < o.trace_of().len() && #[trigger] is_inject(o.trace_of()[p], ja)
                && #[trigger] is_inject(o.trace_of()[q], jb) ==> ja < jb,
{
    let h = o.completed_of();
    let t = o.trace_of();
    let t0 = segments(h);
    lemma_segments_facts(h);
    lemma_trace_structure(o);
    assert forall|p: int, q: int, ja: int, jb: int|
        0 <= p < q < t.len() && #[trigger] is_inject(t[p], ja) && #[trigger] is_inject(
        t[q],
        jb,
    ) implies ja < jb by {
        if q < t0.len() {
            assert(t[p] == t0[p]);
            assert(t[q] == t0[q]);
            assert(is_inject(segments(h)[p], ja));
            assert(is_inject(segments(h)[q], jb));
        } else if p < t0.len() {
            assert(t[p] == t0[p]);
            assert(is_inject(segments(h)[p], ja));
            assert(is_mod_ev(segments(h)[p], ja));
            assert(ja < h.len());
            assert(is_mod_ev(t[q], jb));
            assert(jb == h.len());
        } else {
            assert(is_mod_ev(t[p], ja));
            assert(is_mod_ev(t[q], jb));
            assert(ja == h.len() && jb == h.len());
            assert(is_inject_ev(t[p]) && is_inject_ev(t[q]));
            assert(false);
        }
    }
}

/// A failure against a live target tears the target down before the run
/// returns: the trace closes with the termination call, and no mod past
/// the failing one is ever injected or initialized. Should the forced
/// termination itself fail, the target is reported still suspended and the
/// caller warned.
pub proof fn lemma_abort_stops_run(o: &Orchestrator)
    requires
        o.wf(),
        o.phase_of() is Failed,
        !(o.error_of() matches Some(RunError::Launch(_))),
    ensures
        o.error_of() is Some,
        o.trace_of().len() > 0,
        o.trace_of().last() == Ev::Terminate,
        forall|p: int, j: int|
            0 <= p < o.trace_of().len() && #[trigger] is_mod_ev(o.trace_of()[p], j) ==> j
                <= o.completed_of().len(),
        !o.termination_failed_of() ==> o.target_of() is Terminated,
        o.termination_failed_of() ==> o.target_of() is Suspended,
{
    let h = o.completed_of();
    let t = o.trace_of();
    let t0 = segments(h);
    lemma_segments_facts(h);
    lemma_trace_structure(o);
    let e = o.error->Some_0;
    assert(t == t0 + abort_tail(e, h.len() as int) + seq![Ev::Terminate]);
    assert(t.last() == Ev::Terminate);
    assert forall|p: int, j: int|
        0 <= p < t.len() && #[trigger] is_mod_ev(t[p], j) implies j <= h.len() by {
        if p < t0.len() {
            assert(t[p] == t0[p]);
            assert(is_mod_ev(segments(h)[p], j));
        }
    }
}

/// An abort's error names the mod whose step failed: the mod at the
/// position right after the handled prefix.
pub proof fn lemma_error_names_failing_mod(o: &Orchestrator)
    requires
        o.wf(),
        o.phase_of() is Terminating || o.phase_of() is Failed,
        o.error_of() matches Some(e) && error_mod_name(e) is Some,
    ensures
        o.completed_of().len() < o.mods_view().len(),
        o.error_of() matches Some(e) && error_mod_name(e) == Some(
            o.mods_view()[o.completed_of().len() as int],
        ),
{
}

/// The failing mod's name inside an abort error, where the error is
/// attributed to a mod at all.
pub open spec fn error_mod_name(e: RunError) -> Option<Seq<u8>> {
    match e {
        RunError::Extract(nm, _) => Some(nm@),
        RunError::Write(nm, _) => Some(nm@),
        RunError::Inject(nm, _) => Some(nm@),
        RunError::ResolveFailed(nm, _) => Some(nm@),
        RunError::NoEntryPoint(nm) => Some(nm@),
        RunError::InitFailed(nm, _) => Some(nm@),
        RunError::InitCrashed(nm, _) => Some(nm@),
        RunError::Launch(_) => None,
        RunError::Setup(_) => None,
        RunError::Relay(_) => None,
    }
}

/// A mod skipped for lack of a payload is never touched: no injection or
/// initialization call in the whole run carries its index.
pub proof fn lemma_skipped_mod_untouched(o: &Orchestrator, j: int)
    requires
        o.wf(),
        0 <= j < o.completed_of().len(),
        !o.completed_of()[j],
    ensures
        forall|p: int| 0 <= p < o.trace_of().len() ==> !is_mod_ev(o.trace_of()[p], j),
{
    let h = o.completed_of();
    let t = o.trace_of();
    let t0 = segments(h);
    lemma_segments_facts(h);
    lemma_trace_structure(o);
    assert forall|p: int| 0 <= p < t.len() implies !is_mod_ev(t[p], j) by {
        if is_mod_ev(t[p], j) {
            if p < t0.len() {
                assert(t[p] == t0[p]);
                assert(is_mod_ev(segments(h)[p], j));
                assert(h[j]);
            } else {
                assert(j == h.len());
            }
        }
    }
}

/// A mod skipped for lack of a payload is absent from the injected
/// report, provided discovery reported distinct names.
pub proof fn lemma_skipped_mod_not_reported(o: &Orchestrator, j: int)
    requires
        o.wf(),
        0 <= j < o.completed_of().len(),
        !o.completed_of()[j],
        forall|a: int, b: int|
            0 <= a < b < o.mods_view().len() ==> o.mods_view()[a] != o.mods_view()[b],
    ensures
        !o.injected_report().contains(o.mods_view()[j]),
{
    let h = o.completed_of();
    let m = o.mods_view();
    let r = o.injected_report();
    lemma_injected_names_members(m, h);
    if r.contains(m[j]) {
        let k = choose|k: int| 0 <= k < r.len() && r[k] == m[j];
        assert(injected_names(m, h)[k] == m[j]);
        let a = source_index(h, k);
        assert(0 <= a < h.len() && h[a] && injected_names(m, h)[k] == m[a]);
        assert(m[a] == m[j]);
        assert(a != j);
        assert(j < m.len());
        assert(a < m.len());
        if a < j {
            assert(m[a] != m[j]);
        } else {
            assert(m[j] != m[a]);
        }
        assert(false);
    }
}

/// The target is resumed at most once, it is resumed exactly in the runs
/// that made it past every mod, and a resumed run handled every discovered
/// mod with no failure other than, possibly, relaying output.
pub proof fn lemma_resume_iff_all_ready(o: &Orchestrator)
    requires
        o.wf(),
    ensures
        o.trace_of().contains(Ev::Resume) <==> (o.phase_of() is Relaying || o.phase_of()
            is Completed),
        o.trace_of().contains(Ev::Resume) ==> o.completed_of().len() == o.mods_view().len(),
        o.trace_of().contains(Ev::Resume) ==> (o.error_of() is None || o.error_of() matches Some(
            RunError::Relay(_),
        )),
        o.target_of() is Resumed <==> o.trace_of().contains(Ev::Resume),
        forall|p: int, q: int|
            0 <= p < q < o.trace_of().len() ==> !(o.trace_of()[p] == Ev::Resume && o.trace_of()[q]
                == Ev::Resume),
{
    let h = o.completed_of();
    let t = o.trace_of();
    let t0 = segments(h);
    lemma_segments_facts(h);
    lemma_trace_structure(o);
    if o.phase_of() is Relaying || o.phase_of() is Completed {
        assert(t == t0 + seq![Ev::Resume]);
        assert(t[t0.len() as int] == Ev::Resume);
        assert(t.contains(Ev::Resume));
    }
    if t.contains(Ev::Resume) {
        let p = choose|p: int| 0 <= p < t.len() && t[p] == Ev::Resume;
        assert(!(p < t0.len()));
        assert(o.phase_of() is Relaying || o.phase_of() is Completed);
    }
    assert forall|p: int, q: int|
        0 <= p < q < t.len() implies !(t[p] == Ev::Resume && t[q] == Ev::Resume) by {
        if t[p] == Ev::Resume && t[q] == Ev::Resume {
            assert(!(p < t0.len()));
            assert(!(q < t0.len()));
            assert(p == t0.len() && q == t0.len());
        }
    }
}

proof fn lemma_segments_push(h: Seq<bool>, b: bool)
    ensures
        segments(h.push(b)) == segments(h) + seg(h.len() as int, b),
{
    assert(h.push(b).drop_last() =~= h);
    assert(h.push(b).last() == b);
}

proof fn lemma_injected_names_push(mods: Seq<Seq<u8>>, h: Seq<bool>, b: bool)
    ensures
        injected_names(mods, h.push(b)) == injected_names(mods, h) + if b {
            seq![mods[h.len() as int]]
        } else {
            Seq::<Seq<u8>>::empty()
        },
{
    assert(h.push(b).drop_last() =~= h);
    assert(h.push(b).last() == b);
}

} // verus!
