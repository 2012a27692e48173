//! Provider lifecycle and the orchestration of one demo run.
//!
//! Three providers — tracer, meter, logger — are initialized in that order,
//! the three emitters run in log, span, metrics order, and the providers are
//! shut down in the same order as they were initialized. Only a shutdown can
//! fail, and the first failure aborts the remaining steps. A provider that
//! is shut down a second time reports `AlreadyShutDown` instead of
//! panicking or hanging.

use crate::attrs::keys_unique;
use crate::attrs::value_model;
use crate::attrs::Attr;
use crate::attrs::AttrValue;
use crate::attrs::ValueModel;
use vstd::prelude::*;

verus! {

/// The resource attached to every signal: the service name.
pub fn service_resource() -> (r: Vec<Attr>)
    ensures
        keys_unique(r@),
        r@.len() == 1,
        r@[0].key@ == "service.name"@,
        value_model(r@[0].value) == ValueModel::Text("demo-rust-opentelemetry-stdout"@),
{
    let mut r: Vec<Attr> = Vec::new();
    r.push(
        Attr {
            key: String::from_str("service.name"),
            value: AttrValue::Text(String::from_str("demo-rust-opentelemetry-stdout")),
        },
    );
    r
}

/// Why a provider shutdown failed.
#[derive(Debug, Clone, Copy, PartialEq, Eq, Structural)]
pub enum ShutdownError {
    /// The exporter could not flush.
    FlushFailed,
    /// The provider had already been shut down.
    AlreadyShutDown,
}

/// The lifecycle state of one signal provider: accepting and exporting
/// signals while active, releasing its exporter on shutdown.
#[derive(Debug, Clone, Copy, PartialEq, Eq, Structural)]
pub struct ProviderModel {
    pub active: bool,
}

/// A provider's state after a shutdown call, whatever it was before.
pub open spec fn after_shutdown(p: ProviderModel) -> ProviderModel {
    ProviderModel { active: false }
}

impl ProviderModel {
    /// A provider as initialization leaves it: active.
    pub fn init() -> (p: ProviderModel)
        ensures
            p.active,
    {
        ProviderModel { active: true }
    }

    /// Shuts the provider down, flushing through its exporter; `flush_ok`
    /// is the exporter's verdict. The provider ends inactive whatever
    /// happens. The first call succeeds exactly when the flush does; any
    /// later call reports `AlreadyShutDown` — it does not panic and does
    /// not hang.
    pub fn shutdown(&mut self, flush_ok: bool) -> (r: Result<(), ShutdownError>)
        ensures
            *final(self) == after_shutdown(*old(self)),
            r == if !old(self).active {
                Err::<(), ShutdownError>(ShutdownError::AlreadyShutDown)
            } else if flush_ok {
                Ok::<(), ShutdownError>(())
            } else {
                Err::<(), ShutdownError>(ShutdownError::FlushFailed)
            },
    {
        if !self.active {
            return Err(ShutdownError::AlreadyShutDown);
        }
        self.active = false;
        if flush_ok {
            Ok(())
        } else {
            Err(ShutdownError::FlushFailed)
        }
    }
}

/// Shutting a provider down is idempotent on its state: a second shutdown
/// leaves exactly what the first left, an inactive provider.
pub proof fn lemma_shutdown_idempotent(p: ProviderModel)
    ensures
        after_shutdown(after_shutdown(p)) == after_shutdown(p),
        !after_shutdown(p).active,
{
}

/// The nine steps of one demo run.
#[derive(Debug, Clone, Copy, PartialEq, Eq, Structural)]
pub enum SignalAction {
    InitTracer,
    InitMeter,
    InitLogger,
    EmitLog,
    EmitSpan,
    EmitMetrics,
    ShutdownTracer,
    ShutdownMeter,
    ShutdownLogger,
}

/// The steps of one run, in the order they must be performed: providers
/// initialized tracer, meter, logger; signals emitted log, span, metrics;
/// providers shut down in initialization order.
pub open spec fn planned_actions() -> Seq<SignalAction> {
    seq![
        SignalAction::InitTracer,
        SignalAction::InitMeter,
        SignalAction::InitLogger,
        SignalAction::EmitLog,
        SignalAction::EmitSpan,
        SignalAction::EmitMetrics,
        SignalAction::ShutdownTracer,
        SignalAction::ShutdownMeter,
        SignalAction::ShutdownLogger,
    ]
}

/// Only a provider shutdown can fail: initialization has no error path and
/// the emitters report no errors.
pub open spec fn can_fail(a: SignalAction) -> bool {
    match a {
        SignalAction::ShutdownTracer => true,
        SignalAction::ShutdownMeter => true,
        SignalAction::ShutdownLogger => true,
        _ => false,
    }
}

/// The lifecycle phase of a run.
#[derive(Debug, Clone, Copy, PartialEq, Eq, Structural)]
pub enum Phase {
    /// Not every provider is initialized yet.
    Initializing,
    /// Providers up; the signals are being emitted.
    Initialized,
    /// Every signal emitted; the providers are being shut down.
    Emitted,
    /// Every provider shut down; the run is complete.
    ShutDown,
    /// A shutdown failed; the rest of the run was aborted.
    Failed,
}

/// The orchestrator of one run: how many steps are done, and whether one
/// has failed.
#[derive(Debug, Clone, Copy, PartialEq, Eq, Structural)]
pub struct Orchestrator {
    pub pos: usize,
    pub failed: bool,
}

/// The orchestrator before any step has run.
pub open spec fn initial_orchestrator() -> Orchestrator {
    Orchestrator { pos: 0, failed: false }
}

/// One transition: a successful step advances, a failed one marks the run
/// failed and keeps its place.
pub open spec fn step_spec(o: Orchestrator, ok: bool) -> Orchestrator {
    if ok {
        Orchestrator { pos: (o.pos + 1) as usize, failed: o.failed }
    } else {
        Orchestrator { pos: o.pos, failed: true }
    }
}

/// The orchestrator after `n` successful steps from the start.
pub open spec fn run_steps(n: int) -> Orchestrator
    decreases n,
{
    if n <= 0 {
        initial_orchestrator()
    } else {
        step_spec(run_steps(n - 1), true)
    }
}

/// The phase a state is in.
pub open spec fn phase_of(o: Orchestrator) -> Phase {
    if o.failed {
        Phase::Failed
    } else if o.pos < 3 {
        Phase::Initializing
    } else if o.pos < 6 {
        Phase::Initialized
    } else if o.pos < 9 {
        Phase::Emitted
    } else {
        Phase::ShutDown
    }
}

impl Orchestrator {
    /// More steps remain and none has failed.
    pub open spec fn in_progress(self) -> bool {
        !self.failed && self.pos < 9
    }

    /// Every step ran and none failed.
    pub open spec fn done(self) -> bool {
        !self.failed && self.pos >= 9
    }

    /// Starts a run: no step done, none failed.
    pub fn new() -> (o: Orchestrator)
        ensures
            o == initial_orchestrator(),
    {
        Orchestrator { pos: 0, failed: false }
    }

    /// The next step to perform: the planned actions in order, and none
    /// once the run is complete or a step has failed.
    pub fn next_action(&self) -> (r: Option<SignalAction>)
        ensures
            self.in_progress() ==> r == Some(planned_actions()[self.pos as int]),
            !self.in_progress() ==> r is None,
    {
        if self.failed || self.pos >= 9 {
            None
        } else if self.pos == 0 {
            Some(SignalAction::InitTracer)
        } else if self.pos == 1 {
            Some(SignalAction::InitMeter)
        } else if self.pos == 2 {
            Some(SignalAction::InitLogger)
        } else if self.pos == 3 {
            Some(SignalAction::EmitLog)
        } else if self.pos == 4 {
            Some(SignalAction::EmitSpan)
        } else if self.pos == 5 {
            Some(SignalAction::EmitMetrics)
        } else if self.pos == 6 {
            Some(SignalAction::ShutdownTracer)
        } else if self.pos == 7 {
            Some(SignalAction::ShutdownMeter)
        } else {
            Some(SignalAction::ShutdownLogger)
        }
    }

    /// Records the outcome of the step `next_action` last gave. Only a
    /// shutdown step may report failure.
    pub fn complete(&mut self, ok: bool)
        requires
            old(self).in_progress(),
            ok || can_fail(planned_actions()[old(self).pos as int]),
        ensures
            *final(self) == step_spec(*old(self), ok),
    {
        if ok {
            self.pos += 1;
        } else {
            self.failed = true;
        }
    }

    /// The lifecycle phase the run is in.
    pub fn phase(&self) -> (ph: Phase)
        ensures
            ph == phase_of(*self),
    {
        if self.failed {
            Phase::Failed
        } else if self.pos < 3 {
            Phase::Initializing
        } else if self.pos < 6 {
            Phase::Initialized
        } else if self.pos < 9 {
            Phase::Emitted
        } else {
            Phase::ShutDown
        }
    }
}

proof fn lemma_run_steps_pos(n: int)
    requires
        0 <= n <= 9,
    ensures
        run_steps(n) == (Orchestrator { pos: n as usize, failed: false }),
    decreases n,
{
    if n > 0 {
        lemma_run_steps_pos(n - 1);
    }
}

/// A run whose every step succeeds walks the planned actions in order —
/// providers up, then one log record, one span, one set of metrics, then
/// the providers down — and ends complete, in the shut-down phase.
pub proof fn lemma_run_all_ok()
    ensures
        run_steps(9).done(),
        phase_of(run_steps(9)) == Phase::ShutDown,
        forall|k: int| 0 <= k < 9 ==> (#[trigger] run_steps(k)).in_progress(),
        forall|k: int| 0 <= k < 9 ==> (#[trigger] run_steps(k)).pos == k,
{
    lemma_run_steps_pos(9);
    assert forall|k: int| 0 <= k < 9 implies (#[trigger] run_steps(k)).in_progress() && run_steps(
        k,
    ).pos == k by {
        lemma_run_steps_pos(k);
    }
}

/// The first failure aborts the rest of the run: after a failed step no
/// further action is offered and the run never completes, whatever comes
/// later.
pub proof fn lemma_failure_aborts(o: Orchestrator, ok: bool)
    ensures
        !step_spec(o, false).in_progress(),
        !step_spec(o, false).done(),
        !step_spec(step_spec(o, false), ok).in_progress(),
        !step_spec(step_spec(o, false), ok).done(),
{
}

} // verus!
