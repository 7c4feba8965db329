//! The fixture lifecycle: a state machine that sequences provisioning,
//! connecting, migrating, the test body and teardown.
//!
//! The machine never performs work itself. Each call of
//! [`Fixture::handle`] takes an event (what the driver observed) and returns
//! the next action for the driver to perform. Teardown is requested on every
//! path once a container may have been started, exactly once, and the first
//! error met is the one reported.
use vstd::prelude::*;
use crate::source::{Unit, UnitModel, units_view};
use crate::attributes::opt_string_view;

verus! {

/// How often, and how far apart, connection attempts are made.
#[derive(Clone, Copy, Debug)]
pub struct RetryPolicy {
    pub max_attempts: u32,
    pub backoff_ms: u64,
}

impl RetryPolicy {
    pub open spec fn wf(&self) -> bool {
        &&& self.max_attempts >= 1
        &&& self.max_attempts as int * self.backoff_ms as int <= u64::MAX
    }

    /// A policy of `max_attempts` attempts with a fixed delay of `backoff_ms`
    /// between two of them; `None` where no attempt is allowed or the total
    /// delay does not fit in a `u64`.
    pub fn new(max_attempts: u32, backoff_ms: u64) -> (r: Option<RetryPolicy>)
        ensures
            r is Some <==> (max_attempts >= 1 && max_attempts as int * backoff_ms as int
                <= u64::MAX),
            r matches Some(p) ==> p.wf() && p.max_attempts == max_attempts && p.backoff_ms
                == backoff_ms,
    {
        if max_attempts == 0 {
            return None;
        }
        assert(max_attempts as int * backoff_ms as int == backoff_ms as int * max_attempts as int)
            by (nonlinear_arith);
        match backoff_ms.checked_mul(max_attempts as u64) {
            Some(_) => Some(RetryPolicy { max_attempts, backoff_ms }),
            None => None,
        }
    }

    /// The total delay that the policy may spend waiting.
    pub fn budget_ms(&self) -> (r: u64)
        requires
            self.wf(),
        ensures
            r == self.max_attempts * self.backoff_ms,
    {
        self.max_attempts as u64 * self.backoff_ms
    }
}

/// The release state of a running database container. Stopping is idempotent:
/// only the first call asks the engine to stop the container.
pub struct ContainerHandle {
    running: bool,
}

impl ContainerHandle {
    pub closed spec fn is_running(&self) -> bool {
        self.running
    }

    /// The handle of a container that the engine reported running.
    pub fn started() -> (r: ContainerHandle)
        ensures
            r.is_running(),
    {
        ContainerHandle { running: true }
    }

    pub fn running(&self) -> (r: bool)
        ensures
            r == self.is_running(),
    {
        self.running
    }

    /// Marks the container stopped; returns whether the engine must be asked
    /// to stop it, which is so only while it was running.
    pub fn stop(&mut self) -> (engine_stop: bool)
        ensures
            (engine_stop, final(self).is_running()) == stop_outcome(old(self).is_running()),
    {
        let was = self.running;
        self.running = false;
        was
    }
}

/// What stopping does to a handle that is `running`: whether the engine is
/// asked to stop the container, and whether it is running afterwards.
pub open spec fn stop_outcome(running: bool) -> (bool, bool) {
    (running, false)
}

/// Stopping a container twice asks the engine at most once: the second stop
/// finds it stopped, asks nothing and leaves it stopped.
pub proof fn law_stop_idempotent(running: bool)
    ensures
        ({
            let (first, after_first) = stop_outcome(running);
            let (second, after_second) = stop_outcome(after_first);
            &&& first == running
            &&& !second
            &&& !after_first
            &&& !after_second
        }),
{
}

#[derive(Clone, Copy, Debug, PartialEq, Eq, Structural)]
pub enum WorkKind {
    /// One step of a migration set.
    Step,
    /// A raw script, as one batch.
    Script,
}

/// One piece of migration work: step `step` of unit `unit`, or the raw script
/// of unit `unit` (then `step` is 0).
#[derive(Clone, Copy, Debug, PartialEq, Eq, Structural)]
pub struct Work {
    pub unit: usize,
    pub step: usize,
    pub kind: WorkKind,
}

pub open spec fn works_of(u: usize, unit: UnitModel) -> Seq<Work> {
    match unit {
        UnitModel::MigrationSet { steps, .. } => Seq::new(
            steps.len(),
            |k: int| Work { unit: u, step: k as usize, kind: WorkKind::Step },
        ),
        UnitModel::RawScript { .. } => seq![Work { unit: u, step: 0, kind: WorkKind::Script }],
    }
}

/// All migration work of `units`, unit after unit, each set's steps in order.
pub open spec fn plan_spec(units: Seq<UnitModel>) -> Seq<Work>
    decreases units.len(),
{
    if units.len() == 0 {
        seq![]
    } else {
        plan_spec(units.drop_last()) + works_of((units.len() - 1) as usize, units.last())
    }
}

pub open spec fn fits(units: Seq<UnitModel>) -> bool {
    &&& units.len() <= usize::MAX
    &&& forall|i: int|
        0 <= i < units.len() ==> (#[trigger] units[i] matches UnitModel::MigrationSet { steps, .. }
            ==> steps.len() <= usize::MAX)
}

pub open spec fn before(a: Work, b: Work) -> bool {
    a.unit < b.unit || (a.unit == b.unit && a.step < b.step)
}

pub proof fn lemma_plan_bounds(units: Seq<UnitModel>)
    requires
        fits(units),
    ensures
        forall|k: int| 0 <= k < plan_spec(units).len() ==> (#[trigger] plan_spec(units)[k]).unit
            < units.len(),
    decreases units.len(),
{
    if units.len() > 0 {
        let init = units.drop_last();
        assert forall|i: int| 0 <= i < init.len() implies (#[trigger] init[i] matches UnitModel::MigrationSet { steps, .. }
            ==> steps.len() <= usize::MAX) by {
            assert(init[i] == units[i]);
        }
        lemma_plan_bounds(init);
    }
}

/// The work of a fixture is done in the declared order: unit after unit, and
/// within a migration set, step after step.
pub proof fn law_plan_in_declared_order(units: Seq<UnitModel>)
    requires
        fits(units),
    ensures
        forall|i: int, j: int|
            0 <= i < j < plan_spec(units).len() ==> before(
                #[trigger] plan_spec(units)[i],
                #[trigger] plan_spec(units)[j],
            ),
    decreases units.len(),
{
    if units.len() > 0 {
        let init = units.drop_last();
        assert forall|i: int| 0 <= i < init.len() implies (#[trigger] init[i] matches UnitModel::MigrationSet { steps, .. }
            ==> steps.len() <= usize::MAX) by {
            assert(init[i] == units[i]);
        }
        law_plan_in_declared_order(init);
        lemma_plan_bounds(init);
        let p = plan_spec(init);
        let w = works_of((units.len() - 1) as usize, units.last());
        assert(units[units.len() - 1] == units.last());
        assert forall|i: int, j: int|
            0 <= i < j < plan_spec(units).len() implies before(
            #[trigger] plan_spec(units)[i],
            #[trigger] plan_spec(units)[j],
        ) by {
            assert(plan_spec(units) == p + w);
            if j < p.len() {
            } else if i < p.len() {
                assert(p[i].unit < init.len());
            } else {
            }
        }
    }
}

/// The migration work of `units`, in the order it is to be applied.
pub fn plan(units: &Vec<Unit>) -> (r: Vec<Work>)
    ensures
        r@ == plan_spec(units_view(units@)),
{
    let ghost uv = units_view(units@);
    let mut r: Vec<Work> = Vec::new();
    let mut u: usize = 0;
    while u < units.len()
        invariant
            u <= units.len(),
            uv == units_view(units@),
            r@ == plan_spec(uv.take(u as int)),
        decreases units.len() - u,
    {
        let ghost prev = r@;
        assert(uv.take(u as int + 1).drop_last() =~= uv.take(u as int));
        assert(uv.take(u as int + 1).last() == units@[u as int]@);
        match &units[u] {
            Unit::MigrationSet { steps, .. } => {
                let mut k: usize = 0;
                while k < steps.len()
                    invariant
                        k <= steps.len(),
                        r@ == prev + Seq::new(
                            k as nat,
                            |j: int| Work { unit: u, step: j as usize, kind: WorkKind::Step },
                        ),
                    decreases steps.len() - k,
                {
                    r.push(Work { unit: u, step: k, kind: WorkKind::Step });
                    k = k + 1;
                    assert(r@ =~= prev + Seq::new(
                        k as nat,
                        |j: int| Work { unit: u, step: j as usize, kind: WorkKind::Step },
                    ));
                }
                assert(r@ =~= prev + works_of(u, units@[u as int]@));
            },
            Unit::RawScript { .. } => {
                r.push(Work { unit: u, step: 0, kind: WorkKind::Script });
                assert(r@ =~= prev + works_of(u, units@[u as int]@));
            },
        }
        u = u + 1;
    }
    assert(uv.take(u as int) =~= uv);
    r
}

#[derive(Clone, Copy, Debug, PartialEq, Eq, Structural)]
pub enum Phase {
    Idle,
    Provisioning,
    Connecting,
    Migrating,
    /// The test body holds the connection.
    Running,
    TearingDown,
    Closed,
}

/// Why a fixture failed. Provisioning and connection failures are
/// infrastructure errors; migration failures name the offending work.
#[derive(Debug)]
pub enum FixtureError {
    /// The container engine could not start the database.
    Provision(String),
    /// The database did not accept a connection within the retry budget.
    ConnectionTimeout { attempts: u32 },
    /// A migration step or raw script failed.
    Migration { work: Work, cause: String },
    /// The test body failed.
    TestBody(String),
    /// Setup was cancelled, for instance by a deadline.
    Aborted,
}

pub enum ErrorModel {
    Provision(Seq<char>),
    ConnectionTimeout { attempts: u32 },
    Migration { work: Work, cause: Seq<char> },
    TestBody(Seq<char>),
    Aborted,
}

impl View for FixtureError {
    type V = ErrorModel;

    open spec fn view(&self) -> ErrorModel {
        match self {
            FixtureError::Provision(m) => ErrorModel::Provision(m@),
            FixtureError::ConnectionTimeout { attempts } => ErrorModel::ConnectionTimeout {
                attempts: *attempts,
            },
            FixtureError::Migration { work, cause } => ErrorModel::Migration {
                work: *work,
                cause: cause@,
            },
            FixtureError::TestBody(m) => ErrorModel::TestBody(m@),
            FixtureError::Aborted => ErrorModel::Aborted,
        }
    }
}

impl FixtureError {
    /// Whether the error comes from the infrastructure (the container engine or
    /// the connection) rather than from migration content or the test.
    pub fn is_infrastructure(&self) -> (r: bool)
        ensures
            r == (self is Provision || self is ConnectionTimeout),
    {
        match self {
            FixtureError::Provision(_) => true,
            FixtureError::ConnectionTimeout { .. } => true,
            _ => false,
        }
    }
}

/// What the driver observed after performing the last action.
#[derive(Debug)]
pub enum Event {
    /// The test starts.
    Begin,
    /// The container engine reports the database container running.
    Started,
    StartFailed(String),
    Connected,
    ConnectFailed,
    /// The last requested work was applied.
    Applied,
    ApplyFailed(String),
    BodyPassed,
    BodyFailed(String),
    Stopped,
    StopFailed(String),
    /// Setup is cancelled.
    Abort,
}

pub enum EventModel {
    Begin,
    Started,
    StartFailed(Seq<char>),
    Connected,
    ConnectFailed,
    Applied,
    ApplyFailed(Seq<char>),
    BodyPassed,
    BodyFailed(Seq<char>),
    Stopped,
    StopFailed(Seq<char>),
    Abort,
}

impl View for Event {
    type V = EventModel;

    open spec fn view(&self) -> EventModel {
        match self {
            Event::Begin => EventModel::Begin,
            Event::Started => EventModel::Started,
            Event::StartFailed(m) => EventModel::StartFailed(m@),
            Event::Connected => EventModel::Connected,
            Event::ConnectFailed => EventModel::ConnectFailed,
            Event::Applied => EventModel::Applied,
            Event::ApplyFailed(m) => EventModel::ApplyFailed(m@),
            Event::BodyPassed => EventModel::BodyPassed,
            Event::BodyFailed(m) => EventModel::BodyFailed(m@),
            Event::Stopped => EventModel::Stopped,
            Event::StopFailed(m) => EventModel::StopFailed(m@),
            Event::Abort => EventModel::Abort,
        }
    }
}

/// What the driver is to do next.
#[derive(Clone, Copy, Debug, PartialEq, Eq, Structural)]
pub enum Action {
    StartContainer,
    /// Attempt a connection after waiting `delay_ms`.
    Connect { delay_ms: u64 },
    Apply(Work),
    /// Hand the live connection to the test body.
    RunBody,
    StopContainer,
    /// The fixture is closed; its outcome is final.
    Finish,
    /// The event does not belong to the current phase and changes nothing.
    Ignore,
}

pub struct FixtureModel {
    pub phase: Phase,
    pub plan: Seq<Work>,
    pub policy: RetryPolicy,
    pub attempts: nat,
    pub waited: nat,
    pub next: nat,
    pub started: bool,
    pub stop_requested: bool,
    pub error: Option<ErrorModel>,
    pub teardown_failure: Option<Seq<char>>,
}

/// A fixture's lifecycle state.
pub struct Fixture {
    pub phase: Phase,
    pub plan: Vec<Work>,
    pub policy: RetryPolicy,
    /// Connection attempts made.
    pub attempts: u32,
    /// Total delay requested between connection attempts.
    pub waited_ms: u64,
    /// Index in `plan` of the work applied next.
    pub next: usize,
    /// Whether the container engine was asked to start a container.
    pub started: bool,
    /// Whether the container engine was asked to stop it.
    pub stop_requested: bool,
    /// The first error met.
    pub error: Option<FixtureError>,
    /// Why stopping the container failed, if it did; never the reported error.
    pub teardown_failure: Option<String>,
}

impl View for Fixture {
    type V = FixtureModel;

    open spec fn view(&self) -> FixtureModel {
        FixtureModel {
            phase: self.phase,
            plan: self.plan@,
            policy: self.policy,
            attempts: self.attempts as nat,
            waited: self.waited_ms as nat,
            next: self.next as nat,
            started: self.started,
            stop_requested: self.stop_requested,
            error: opt_error_view(self.error),
            teardown_failure: opt_string_view(self.teardown_failure),
        }
    }
}

pub open spec fn is_setup(p: Phase) -> bool {
    p == Phase::Provisioning || p == Phase::Connecting || p == Phase::Migrating || p
        == Phase::Running
}

/// The states that a fixture can be in.
pub open spec fn fixture_inv(s: FixtureModel) -> bool {
    &&& s.policy.wf()
    &&& s.plan.len() <= usize::MAX
    &&& s.next <= s.plan.len()
    &&& s.phase == Phase::Migrating ==> s.next < s.plan.len()
    &&& s.attempts <= s.policy.max_attempts
    &&& s.waited <= s.attempts * s.policy.backoff_ms
    &&& s.phase == Phase::Connecting ==> s.attempts >= 1
    &&& s.phase == Phase::Provisioning ==> s.attempts == 0
    &&& s.phase == Phase::Idle ==> !s.started && s.attempts == 0 && s.error is None
    &&& is_setup(s.phase) ==> s.started && !s.stop_requested && s.error is None
    &&& s.phase == Phase::TearingDown ==> s.started && s.stop_requested
    &&& s.phase == Phase::Closed ==> (s.started ==> s.stop_requested)
    &&& s.stop_requested ==> s.started
}

/// The fixture before the test starts, with the work `plan` to apply.
pub open spec fn initial(plan: Seq<Work>, policy: RetryPolicy) -> FixtureModel {
    FixtureModel {
        phase: Phase::Idle,
        plan,
        policy,
        attempts: 0,
        waited: 0,
        next: 0,
        started: false,
        stop_requested: false,
        error: None,
        teardown_failure: None,
    }
}

pub open spec fn first_error(kept: Option<ErrorModel>, e: ErrorModel) -> Option<ErrorModel> {
    match kept {
        Some(k) => Some(k),
        None => Some(e),
    }
}

/// Leaves setup for teardown: the container is to be stopped.
pub open spec fn tear_down(s: FixtureModel, e: Option<ErrorModel>) -> (FixtureModel, Action) {
    (
        FixtureModel {
            phase: Phase::TearingDown,
            stop_requested: true,
            error: match e {
                Some(e) => first_error(s.error, e),
                None => s.error,
            },
            ..s
        },
        Action::StopContainer,
    )
}

/// The migration work at `next`, or the test body once all work is applied.
pub open spec fn work_or_body(s: FixtureModel, next: nat) -> (FixtureModel, Action) {
    if next < s.plan.len() {
        (FixtureModel { phase: Phase::Migrating, next, ..s }, Action::Apply(s.plan[next as int]))
    } else {
        (FixtureModel { phase: Phase::Running, next, ..s }, Action::RunBody)
    }
}

/// The transition of the lifecycle on event `ev`: the next state and the
/// action for the driver.
pub open spec fn step_spec(s: FixtureModel, ev: EventModel) -> (FixtureModel, Action) {
    match (s.phase, ev) {
        (Phase::Idle, EventModel::Begin) => (
            FixtureModel { phase: Phase::Provisioning, started: true, ..s },
            Action::StartContainer,
        ),
        (Phase::Idle, EventModel::Abort) => (
            FixtureModel { phase: Phase::Closed, error: Some(ErrorModel::Aborted), ..s },
            Action::Finish,
        ),
        (Phase::Provisioning, EventModel::Started) => (
            FixtureModel { phase: Phase::Connecting, attempts: 1, ..s },
            Action::Connect { delay_ms: 0 },
        ),
        (Phase::Provisioning, EventModel::StartFailed(m)) => tear_down(
            s,
            Some(ErrorModel::Provision(m)),
        ),
        (Phase::Connecting, EventModel::Connected) => work_or_body(s, 0),
        (Phase::Connecting, EventModel::ConnectFailed) => if s.attempts
            < s.policy.max_attempts {
            (
                FixtureModel {
                    attempts: s.attempts + 1,
                    waited: (s.waited + s.policy.backoff_ms) as nat,
                    ..s
                },
                Action::Connect { delay_ms: s.policy.backoff_ms },
            )
        } else {
            tear_down(
                s,
                Some(ErrorModel::ConnectionTimeout { attempts: s.attempts as u32 }),
            )
        },
        (Phase::Migrating, EventModel::Applied) => work_or_body(s, s.next + 1),
        (Phase::Migrating, EventModel::ApplyFailed(m)) => tear_down(
            s,
            Some(ErrorModel::Migration { work: s.plan[s.next as int], cause: m }),
        ),
        (Phase::Running, EventModel::BodyPassed) => tear_down(s, None),
        (Phase::Running, EventModel::BodyFailed(m)) => tear_down(
            s,
            Some(ErrorModel::TestBody(m)),
        ),
        (Phase::TearingDown, EventModel::Stopped) => (
            FixtureModel { phase: Phase::Closed, ..s },
            Action::Finish,
        ),
        (Phase::TearingDown, EventModel::StopFailed(m)) => (
            FixtureModel { phase: Phase::Closed, teardown_failure: Some(m), ..s },
            Action::Finish,
        ),
        (p, EventModel::Abort) => if is_setup(p) {
            tear_down(s, Some(ErrorModel::Aborted))
        } else {
            (s, Action::Ignore)
        },
        _ => (s, Action::Ignore),
    }
}

pub open spec fn opt_error_view(e: Option<FixtureError>) -> Option<ErrorModel> {
    match e {
        Some(e) => Some(e@),
        None => None,
    }
}

/// Every transition keeps a fixture in the states that it can be in.
pub proof fn law_step_keeps_inv(s: FixtureModel, ev: EventModel)
    requires
        fixture_inv(s),
    ensures
        fixture_inv(step_spec(s, ev).0),
{
    let b = s.policy.backoff_ms as int;
    let m = s.policy.max_attempts as int;
    let a = s.attempts as int;
    if s.phase == Phase::Connecting && ev is ConnectFailed && a < m {
        assert(s.waited + b <= (a + 1) * b) by (nonlinear_arith)
            requires
                s.waited <= a * b,
        ;
    }
    if s.phase == Phase::Provisioning {
        assert(a * b == 0) by (nonlinear_arith)
            requires
                a == 0,
        ;
    }
}

/// Once the engine was asked to start a container, no path closes the fixture
/// without asking it to stop the container: a closed fixture whose container
/// was started has requested its stop.
pub proof fn law_closed_means_stopped(s: FixtureModel, ev: EventModel)
    requires
        fixture_inv(s),
    ensures
        ({
            let t = step_spec(s, ev).0;
            t.phase == Phase::Closed && t.started ==> t.stop_requested
        }),
{
    law_step_keeps_inv(s, ev);
}

/// Whatever the test body's outcome, the container is stopped and the fixture
/// closes: the body's end asks for the stop, and the engine's answer, success
/// or failure, closes the fixture. A failing body is the reported error unless
/// an earlier one was met.
pub proof fn law_body_end_closes(s: FixtureModel, body: EventModel, stop: EventModel)
    requires
        fixture_inv(s),
        s.phase == Phase::Running,
        body is BodyPassed || body is BodyFailed,
        stop is Stopped || stop is StopFailed,
    ensures
        ({
            let (s1, a1) = step_spec(s, body);
            let (s2, a2) = step_spec(s1, stop);
            &&& a1 == Action::StopContainer
            &&& s1.phase == Phase::TearingDown
            &&& a2 == Action::Finish
            &&& s2.phase == Phase::Closed
            &&& s2.stop_requested
            &&& body matches EventModel::BodyFailed(m) ==> s2.error == Some(ErrorModel::TestBody(m))
            &&& body is BodyPassed ==> s2.error is None
        }),
{
}

/// The stop of the container is requested at most once: a transition that
/// asks for it starts from a state that had not asked, and a request is never
/// withdrawn.
pub proof fn law_stop_requested_once(s: FixtureModel, ev: EventModel)
    requires
        fixture_inv(s),
    ensures
        step_spec(s, ev).1 == Action::StopContainer ==> !s.stop_requested,
        s.stop_requested ==> step_spec(s, ev).0.stop_requested,
{
}

/// The first error is the one kept: once a fixture has failed, no later event
/// replaces its error, and no migration work is asked for any more.
pub proof fn law_first_error_kept(s: FixtureModel, ev: EventModel)
    requires
        fixture_inv(s),
        s.error is Some,
    ensures
        step_spec(s, ev).0.error == s.error,
        !(step_spec(s, ev).1 is Apply),
        !(step_spec(s, ev).1 is RunBody),
{
}

/// Migration fails fast: when the current work fails, the error names that
/// work, the fixture goes to teardown, and no work is asked for afterwards,
/// whatever the driver reports next.
pub proof fn law_fast_fail(s: FixtureModel, cause: Seq<char>, later: EventModel)
    requires
        fixture_inv(s),
        s.phase == Phase::Migrating,
    ensures
        ({
            let (s1, a1) = step_spec(s, EventModel::ApplyFailed(cause));
            &&& a1 == Action::StopContainer
            &&& s1.phase == Phase::TearingDown
            &&& s1.error == Some(ErrorModel::Migration { work: s.plan[s.next as int], cause })
            &&& !(step_spec(s1, later).1 is Apply)
            &&& step_spec(s1, later).0.error == s1.error
        }),
{
}

/// Work is asked for in the order of the plan: the n-th `Apply` action is the
/// n-th work of the plan, from the first on.
pub proof fn law_apply_in_plan_order(s: FixtureModel, ev: EventModel)
    requires
        fixture_inv(s),
    ensures
        ({
            let (t, a) = step_spec(s, ev);
            a is Apply ==> {
                &&& t.next < t.plan.len()
                &&& a == Action::Apply(t.plan[t.next as int])
                &&& t.plan == s.plan
                &&& (s.phase == Phase::Migrating && t.next == s.next + 1) || (s.phase
                    == Phase::Connecting && t.next == 0)
            }
        }),
{
}

/// Connecting is bounded: no more than the policy's attempts are made, the
/// delays requested never add up to more than its budget, and the failure of
/// the last attempt ends setup with a connection timeout.
pub proof fn law_connect_bounded(s: FixtureModel)
    requires
        fixture_inv(s),
    ensures
        s.attempts <= s.policy.max_attempts,
        s.waited <= s.policy.max_attempts * s.policy.backoff_ms,
        s.phase == Phase::Connecting && s.attempts == s.policy.max_attempts ==> {
            let (t, a) = step_spec(s, EventModel::ConnectFailed);
            &&& a == Action::StopContainer
            &&& t.phase == Phase::TearingDown
            &&& t.error == Some(ErrorModel::ConnectionTimeout { attempts: s.policy.max_attempts })
        },
{
    let b = s.policy.backoff_ms as int;
    let m = s.policy.max_attempts as int;
    let a = s.attempts as int;
    assert(a * b <= m * b) by (nonlinear_arith)
        requires
            a <= m,
            0 <= b,
    ;
}

/// How many transitions a fixture in state `s` can still make before it is
/// closed.
pub open spec fn remaining(s: FixtureModel) -> nat {
    let work = s.plan.len() - s.next;
    let tries = s.policy.max_attempts - s.attempts;
    match s.phase {
        Phase::Closed => 0,
        Phase::TearingDown => 1,
        Phase::Running => 2,
        Phase::Migrating => (3 + work) as nat,
        Phase::Connecting => (4 + s.plan.len() + tries) as nat,
        Phase::Provisioning => (5 + s.plan.len() + s.policy.max_attempts) as nat,
        Phase::Idle => (6 + s.plan.len() + s.policy.max_attempts) as nat,
    }
}

/// Every run ends: each transition that is not ignored brings the fixture
/// closer to `Closed`, an ignored event changes nothing, and a closed fixture
/// ignores every event. A driver that answers each action therefore reaches
/// `Closed` within `remaining` of the initial state.
pub proof fn law_progress(s: FixtureModel, ev: EventModel)
    requires
        fixture_inv(s),
    ensures
        ({
            let (t, a) = step_spec(s, ev);
            &&& a != Action::Ignore ==> remaining(t) < remaining(s)
            &&& a == Action::Ignore ==> t == s
            &&& s.phase == Phase::Closed ==> a == Action::Ignore
            &&& a == Action::Finish ==> t.phase == Phase::Closed
        }),
{
}

impl Fixture {
    pub open spec fn wf(&self) -> bool {
        fixture_inv(self@)
    }

    /// A fixture, before the test starts, that will apply the work of `units`.
    pub fn new(units: &Vec<Unit>, policy: RetryPolicy) -> (r: Fixture)
        requires
            policy.wf(),
        ensures
            r@ == initial(plan_spec(units_view(units@)), policy),
            r.wf(),
    {
        let plan = plan(units);
        assert(plan@.len() == plan.len());
        assert(0 * (policy.backoff_ms as int) == 0);
        Fixture {
            phase: Phase::Idle,
            plan,
            policy,
            attempts: 0,
            waited_ms: 0,
            next: 0,
            started: false,
            stop_requested: false,
            error: None,
            teardown_failure: None,
        }
    }

    fn tear_down(&mut self, e: Option<FixtureError>) -> (a: Action)
        ensures
            (final(self)@, a) == tear_down(old(self)@, opt_error_view(e)),
    {
        self.phase = Phase::TearingDown;
        self.stop_requested = true;
        if self.error.is_none() {
            self.error = e;
        }
        Action::StopContainer
    }

    fn work_or_body(&mut self, next: usize) -> (a: Action)
        ensures
            (final(self)@, a) == work_or_body(old(self)@, next as nat),
    {
        self.next = next;
        if next < self.plan.len() {
            self.phase = Phase::Migrating;
            Action::Apply(self.plan[next])
        } else {
            self.phase = Phase::Running;
            Action::RunBody
        }
    }

    /// Takes the event that the driver observed and returns the next action.
    pub fn handle(&mut self, ev: Event) -> (a: Action)
        requires
            old(self).wf(),
        ensures
            final(self).wf(),
            (final(self)@, a) == step_spec(old(self)@, ev@),
    {
        proof {
            law_step_keeps_inv(self@, ev@);
        }
        let phase = self.phase;
        match ev {
            Event::Begin => {
                if phase == Phase::Idle {
                    self.phase = Phase::Provisioning;
                    self.started = true;
                    Action::StartContainer
                } else {
                    Action::Ignore
                }
            },
            Event::Abort => {
                if phase == Phase::Idle {
                    self.phase = Phase::Closed;
                    self.error = Some(FixtureError::Aborted);
                    Action::Finish
                } else if phase == Phase::Provisioning || phase == Phase::Connecting || phase
                    == Phase::Migrating || phase == Phase::Running {
                    self.tear_down(Some(FixtureError::Aborted))
                } else {
                    Action::Ignore
                }
            },
            Event::Started => {
                if phase == Phase::Provisioning {
                    self.phase = Phase::Connecting;
                    self.attempts = 1;
                    Action::Connect { delay_ms: 0 }
                } else {
                    Action::Ignore
                }
            },
            Event::StartFailed(m) => {
                if phase == Phase::Provisioning {
                    self.tear_down(Some(FixtureError::Provision(m)))
                } else {
                    Action::Ignore
                }
            },
            Event::Connected => {
                if phase == Phase::Connecting {
                    self.work_or_body(0)
                } else {
                    Action::Ignore
                }
            },
            Event::ConnectFailed => {
                if phase == Phase::Connecting {
                    if self.attempts < self.policy.max_attempts {
                        proof {
                            let b = self.policy.backoff_ms as int;
                            let m = self.policy.max_attempts as int;
                            let a = self.attempts as int;
                            assert(self.waited_ms + b <= m * b) by (nonlinear_arith)
                                requires
                                    self.waited_ms <= a * b,
                                    a + 1 <= m,
                                    0 <= b,
                            ;
                        }
                        self.attempts = self.attempts + 1;
                        self.waited_ms = self.waited_ms + self.policy.backoff_ms;
                        Action::Connect { delay_ms: self.policy.backoff_ms }
                    } else {
                        let attempts: u32 = self.attempts;
                        self.tear_down(Some(FixtureError::ConnectionTimeout { attempts }))
                    }
                } else {
                    Action::Ignore
                }
            },
            Event::Applied => {
                if phase == Phase::Migrating {
                    self.work_or_body(self.next + 1)
                } else {
                    Action::Ignore
                }
            },
            Event::ApplyFailed(m) => {
                if phase == Phase::Migrating {
                    let work = self.plan[self.next];
                    self.tear_down(Some(FixtureError::Migration { work, cause: m }))
                } else {
                    Action::Ignore
                }
            },
            Event::BodyPassed => {
                if phase == Phase::Running {
                    self.tear_down(None)
                } else {
                    Action::Ignore
                }
            },
            Event::BodyFailed(m) => {
                if phase == Phase::Running {
                    self.tear_down(Some(FixtureError::TestBody(m)))
                } else {
                    Action::Ignore
                }
            },
            Event::Stopped => {
                if phase == Phase::TearingDown {
                    self.phase = Phase::Closed;
                    Action::Finish
                } else {
                    Action::Ignore
                }
            },
            Event::StopFailed(m) => {
                if phase == Phase::TearingDown {
                    self.phase = Phase::Closed;
                    self.teardown_failure = Some(m);
                    Action::Finish
                } else {
                    Action::Ignore
                }
            },
        }
    }
}

} // verus!
