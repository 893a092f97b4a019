//! Scheduling of a fixed-concurrency run: the deadline, the global request budget,
//! request pacing and the decisions of each worker's loop.
//!
//! Times are nanoseconds on a monotonic clock that the caller reads.
use vstd::prelude::*;

verus! {

/// Whether a requests-per-second limit is shared by all workers or applies to each.
#[derive(Clone, Copy, Debug, PartialEq, Eq, Structural)]
pub enum RpsMode {
    Global,
    PerWorker,
}

impl RpsMode {
    pub open spec fn spec_name(self) -> Seq<char> {
        match self {
            RpsMode::Global => "global"@,
            RpsMode::PerWorker => "perWorker"@,
        }
    }

    /// The mode's name.
    pub fn as_str(self) -> (r: &'static str)
        ensures
            r@ == self.spec_name(),
    {
        match self {
            RpsMode::Global => "global",
            RpsMode::PerWorker => "perWorker",
        }
    }
}

/// A positive limit, or none for zero.
pub open spec fn positive_limit(l: Option<u64>) -> Option<u64> {
    match l {
        Some(x) => if x > 0 { Some(x) } else { None },
        None => None,
    }
}

/// Settings of a fixed-concurrency run.
#[derive(Clone, Copy, Debug)]
pub struct ScheduleConfig {
    pub duration_nanos: u64,
    pub concurrency: usize,
    /// Time between two paced requests, when the rate is limited.
    pub pacing_interval_nanos: Option<u64>,
    pub rps_mode: RpsMode,
    pub ramp_up_nanos: u64,
    pub total_requests_limit: Option<u64>,
    pub iterations_per_worker: Option<u64>,
}

impl ScheduleConfig {
    /// Settings with at least one worker; a zero request limit means no limit.
    pub fn new(
        duration_nanos: u64,
        concurrency: usize,
        pacing_interval_nanos: Option<u64>,
        rps_mode: RpsMode,
        ramp_up_nanos: u64,
        total_requests_limit: Option<u64>,
        iterations_per_worker: Option<u64>,
    ) -> (r: Self)
        ensures
            r.duration_nanos == duration_nanos,
            r.concurrency == if concurrency == 0 { 1 } else { concurrency },
            r.pacing_interval_nanos == pacing_interval_nanos,
            r.rps_mode == rps_mode,
            r.ramp_up_nanos == ramp_up_nanos,
            r.total_requests_limit == positive_limit(total_requests_limit),
            r.iterations_per_worker == positive_limit(iterations_per_worker),
    {
        ScheduleConfig {
            duration_nanos,
            concurrency: if concurrency == 0 { 1 } else { concurrency },
            pacing_interval_nanos,
            rps_mode,
            ramp_up_nanos,
            total_requests_limit: match total_requests_limit {
                Some(x) => if x > 0 { Some(x) } else { None },
                None => None,
            },
            iterations_per_worker: match iterations_per_worker {
                Some(x) => if x > 0 { Some(x) } else { None },
                None => None,
            },
        }
    }
}

/// The shared state of a run: its start, its deadline and the requests reserved.
pub struct Schedule {
    start_nanos: u64,
    deadline_nanos: u64,
    total_requests_limit: Option<u64>,
    request_count: u64,
}

/// The abstract state of a [`Schedule`].
pub struct ScheduleView {
    pub start_nanos: u64,
    pub deadline_nanos: u64,
    pub total_requests_limit: Option<u64>,
    /// Requests reserved so far under a limit (not counted without one).
    pub request_count: u64,
}

impl View for Schedule {
    type V = ScheduleView;

    closed spec fn view(&self) -> ScheduleView {
        ScheduleView {
            start_nanos: self.start_nanos,
            deadline_nanos: self.deadline_nanos,
            total_requests_limit: self.total_requests_limit,
            request_count: self.request_count,
        }
    }
}

/// Whether the request budget is used up.
pub open spec fn spec_reached_limit(v: ScheduleView) -> bool {
    match v.total_requests_limit {
        Some(l) => v.request_count >= l,
        None => false,
    }
}

impl Schedule {
    /// Never more requests reserved than the limit allows.
    pub open spec fn wf(&self) -> bool {
        match self@.total_requests_limit {
            Some(l) => self@.request_count <= l,
            None => self@.request_count == 0,
        }
    }

    /// The schedule of a run starting at `start_nanos`.
    pub fn new(config: &ScheduleConfig, start_nanos: u64) -> (r: Self)
        requires
            start_nanos + config.duration_nanos <= u64::MAX,
        ensures
            r.wf(),
            r@ == (ScheduleView {
                start_nanos,
                deadline_nanos: (start_nanos + config.duration_nanos) as u64,
                total_requests_limit: config.total_requests_limit,
                request_count: 0,
            }),
    {
        Schedule {
            start_nanos,
            deadline_nanos: start_nanos + config.duration_nanos,
            total_requests_limit: config.total_requests_limit,
            request_count: 0,
        }
    }

    /// When the run started.
    pub fn start(&self) -> (r: u64)
        ensures
            r == self@.start_nanos,
    {
        self.start_nanos
    }

    /// Time since the start at `now_nanos` (zero before it).
    pub fn elapsed(&self, now_nanos: u64) -> (r: u64)
        ensures
            r == if now_nanos >= self@.start_nanos { now_nanos - self@.start_nanos } else { 0 },
    {
        if now_nanos >= self.start_nanos {
            now_nanos - self.start_nanos
        } else {
            0
        }
    }

    /// When the run ends.
    pub fn deadline(&self) -> (r: u64)
        ensures
            r == self@.deadline_nanos,
    {
        self.deadline_nanos
    }

    /// Whether the request budget is used up.
    pub fn reached_request_limit(&self) -> (r: bool)
        ensures
            r == spec_reached_limit(self@),
    {
        match self.total_requests_limit {
            Some(limit) => self.request_count >= limit,
            None => false,
        }
    }

    /// Whether workers go on at `now_nanos`: before the deadline, not stopped, and with
    /// budget left.
    pub fn should_continue(&self, now_nanos: u64, stopped: bool) -> (r: bool)
        ensures
            r == (now_nanos < self@.deadline_nanos && !stopped && !spec_reached_limit(self@)),
    {
        now_nanos < self.deadline_nanos && !stopped && !self.reached_request_limit()
    }

    /// Takes one request from the budget; `false` when none is left. Without a limit
    /// every request is granted and nothing is counted.
    pub fn try_reserve_request(&mut self) -> (r: bool)
        requires
            old(self).wf(),
        ensures
            final(self).wf(),
            final(self)@.start_nanos == old(self)@.start_nanos,
            final(self)@.deadline_nanos == old(self)@.deadline_nanos,
            final(self)@.total_requests_limit == old(self)@.total_requests_limit,
            match old(self)@.total_requests_limit {
                None => r && final(self)@.request_count == 0,
                Some(l) => if old(self)@.request_count < l {
                    r && final(self)@.request_count == old(self)@.request_count + 1
                } else {
                    !r && final(self)@.request_count == old(self)@.request_count
                },
            },
    {
        match self.total_requests_limit {
            None => true,
            Some(limit) => {
                if self.request_count >= limit {
                    false
                } else {
                    self.request_count = self.request_count + 1;
                    true
                }
            },
        }
    }
}

/// The slot of a request asked for at `now` when the next one is due at `due`: never
/// in the past.
pub open spec fn pace_slot(due: u64, now: u64) -> u64 {
    if due <= now { now } else { due }
}

/// Paces requests to one every `interval_nanos`, for all workers together or for each.
pub struct Pacer {
    global: bool,
    interval_nanos: u64,
    next_at: u64,
}

/// The abstract state of a [`Pacer`].
pub struct PacerView {
    pub global: bool,
    pub interval_nanos: u64,
    /// The earliest slot of the next global request.
    pub next_at: u64,
}

impl View for Pacer {
    type V = PacerView;

    closed spec fn view(&self) -> PacerView {
        PacerView { global: self.global, interval_nanos: self.interval_nanos, next_at: self.next_at }
    }
}

impl Pacer {
    /// A pacer created at `now_nanos`; a zero interval becomes one nanosecond.
    pub fn new(interval_nanos: u64, mode: RpsMode, now_nanos: u64) -> (r: Self)
        ensures
            r@ == (PacerView {
                global: mode == RpsMode::Global,
                interval_nanos: if interval_nanos == 0 { 1 } else { interval_nanos },
                next_at: now_nanos,
            }),
    {
        Pacer {
            global: match mode {
                RpsMode::Global => true,
                RpsMode::PerWorker => false,
            },
            interval_nanos: if interval_nanos == 0 { 1 } else { interval_nanos },
            next_at: now_nanos,
        }
    }

    /// The time between two paced requests.
    pub fn interval(&self) -> (r: u64)
        ensures
            r == self@.interval_nanos,
    {
        self.interval_nanos
    }

    /// The earliest slot of the next global request.
    pub fn next_due(&self) -> (r: u64)
        ensures
            r == self@.next_at,
    {
        self.next_at
    }

    /// The slot of a worker's next request asked for at `now_nanos`, with `local_next`
    /// the worker's own next slot. The slot is never in the past; the next one is an
    /// interval after it, shared by all workers in global mode and kept by the worker
    /// otherwise.
    pub fn next_slot(&mut self, local_next: &mut Option<u64>, now_nanos: u64) -> (slot: u64)
        requires
            now_nanos + old(self)@.interval_nanos <= u64::MAX,
            old(self)@.next_at + old(self)@.interval_nanos <= u64::MAX,
            match *old(local_next) {
                Some(t) => t + old(self)@.interval_nanos <= u64::MAX,
                None => true,
            },
        ensures
            final(self)@.global == old(self)@.global,
            final(self)@.interval_nanos == old(self)@.interval_nanos,
            old(self)@.global ==> {
                &&& slot == pace_slot(old(self)@.next_at, now_nanos)
                &&& final(self)@.next_at == slot + old(self)@.interval_nanos
                &&& *final(local_next) == *old(local_next)
            },
            !old(self)@.global ==> {
                &&& slot == match *old(local_next) {
                    Some(t) => pace_slot(t, now_nanos),
                    None => now_nanos,
                }
                &&& *final(local_next) == Some((slot + old(self)@.interval_nanos) as u64)
                &&& final(self)@.next_at == old(self)@.next_at
            },
    {
        if self.global {
            let scheduled = if self.next_at <= now_nanos { now_nanos } else { self.next_at };
            self.next_at = scheduled + self.interval_nanos;
            scheduled
        } else {
            let scheduled = match *local_next {
                Some(t) => if t <= now_nanos { now_nanos } else { t },
                None => now_nanos,
            };
            *local_next = Some(scheduled + self.interval_nanos);
            scheduled
        }
    }
}

/// What a worker does next.
#[derive(Clone, Copy, Debug, PartialEq, Eq, Structural)]
pub enum WorkerAction {
    /// Wait for the pacer's slot, then ask again.
    Pace,
    /// Run one step (a request), then report it with `step_done`.
    Step,
    /// Stop and finish.
    Finish,
}

/// The loop of one worker: its iteration count and where it is in a round.
pub struct WorkerLoop {
    iterations: u64,
    iteration_limit: Option<u64>,
    paced: bool,
    has_pacer: bool,
}

/// The abstract state of a [`WorkerLoop`].
pub struct WorkerLoopView {
    pub iterations: u64,
    pub iteration_limit: Option<u64>,
    /// The current round has waited for its pacing slot.
    pub paced: bool,
    pub has_pacer: bool,
}

impl View for WorkerLoop {
    type V = WorkerLoopView;

    closed spec fn view(&self) -> WorkerLoopView {
        WorkerLoopView {
            iterations: self.iterations,
            iteration_limit: self.iteration_limit,
            paced: self.paced,
            has_pacer: self.has_pacer,
        }
    }
}

/// Whether a worker has used up its iterations.
pub open spec fn iterations_done(v: WorkerLoopView) -> bool {
    match v.iteration_limit {
        Some(l) => v.iterations >= l,
        None => false,
    }
}

/// A worker's next move and the states after it (see [`WorkerLoop::next`]).
pub open spec fn spec_worker_next(w: WorkerLoopView, s: ScheduleView, now_nanos: u64, stopped: bool) -> (
    WorkerAction,
    WorkerLoopView,
    ScheduleView,
) {
    if !(now_nanos < s.deadline_nanos && !stopped && !spec_reached_limit(s)) {
        (WorkerAction::Finish, w, s)
    } else if !w.paced && iterations_done(w) {
        (WorkerAction::Finish, w, s)
    } else if !w.paced && w.has_pacer {
        (WorkerAction::Pace, WorkerLoopView { paced: true, ..w }, s)
    } else {
        (
            WorkerAction::Step,
            w,
            ScheduleView {
                request_count: match s.total_requests_limit {
                    Some(_) => (s.request_count + 1) as u64,
                    None => s.request_count,
                },
                ..s
            },
        )
    }
}

/// A worker's state after a step ran.
pub open spec fn spec_step_done(w: WorkerLoopView) -> WorkerLoopView {
    WorkerLoopView { iterations: w.iterations.wrapping_add(1), paced: false, ..w }
}

impl WorkerLoop {
    /// Never more iterations than the limit, and only a paced round when there is a pacer.
    pub open spec fn wf(&self) -> bool {
        &&& match self@.iteration_limit {
            Some(l) => self@.iterations <= l,
            None => true,
        }
        &&& self@.paced ==> self@.has_pacer && !iterations_done(self@)
    }

    /// A worker that has run no step yet.
    pub fn new(iteration_limit: Option<u64>, has_pacer: bool) -> (r: Self)
        ensures
            r.wf(),
            r@ == (WorkerLoopView { iterations: 0, iteration_limit, paced: false, has_pacer }),
    {
        WorkerLoop { iterations: 0, iteration_limit, paced: false, has_pacer }
    }

    /// Steps run so far.
    pub fn iterations(&self) -> (r: u64)
        ensures
            r == self@.iterations,
    {
        self.iterations
    }

    /// The worker's next move at `now_nanos`: finish when the run is over, when its
    /// iterations are used up or when the budget is; otherwise wait for the pacer once
    /// per round, then reserve a request and step.
    pub fn next(&mut self, schedule: &mut Schedule, now_nanos: u64, stopped: bool) -> (r: WorkerAction)
        requires
            old(self).wf(),
            old(schedule).wf(),
        ensures
            final(self).wf(),
            final(schedule).wf(),
            final(self)@.iterations == old(self)@.iterations,
            final(self)@.iteration_limit == old(self)@.iteration_limit,
            final(self)@.has_pacer == old(self)@.has_pacer,
            final(schedule)@.start_nanos == old(schedule)@.start_nanos,
            final(schedule)@.deadline_nanos == old(schedule)@.deadline_nanos,
            final(schedule)@.total_requests_limit == old(schedule)@.total_requests_limit,
            (r, final(self)@, final(schedule)@) == spec_worker_next(old(self)@, old(schedule)@, now_nanos, stopped),
            !(now_nanos < old(schedule)@.deadline_nanos && !stopped && !spec_reached_limit(old(schedule)@))
                ==> r == WorkerAction::Finish && final(schedule)@ == old(schedule)@
                && final(self)@ == old(self)@,
            (now_nanos < old(schedule)@.deadline_nanos && !stopped && !spec_reached_limit(old(schedule)@)
                && !old(self)@.paced && iterations_done(old(self)@)) ==> r == WorkerAction::Finish
                && final(schedule)@ == old(schedule)@ && final(self)@ == old(self)@,
            (now_nanos < old(schedule)@.deadline_nanos && !stopped && !spec_reached_limit(old(schedule)@)
                && !old(self)@.paced && !iterations_done(old(self)@) && old(self)@.has_pacer) ==> r
                == WorkerAction::Pace && final(schedule)@ == old(schedule)@ && final(self)@.paced,
            (now_nanos < old(schedule)@.deadline_nanos && !stopped && !spec_reached_limit(old(schedule)@)
                && (old(self)@.paced || (!iterations_done(old(self)@) && !old(self)@.has_pacer))) ==> {
                // the budget was checked above, so a reservation succeeds
                &&& r == WorkerAction::Step
                &&& final(self)@.paced == old(self)@.paced
                &&& !iterations_done(final(self)@)
                &&& final(schedule)@.request_count == match old(schedule)@.total_requests_limit {
                    Some(_) => (old(schedule)@.request_count + 1) as u64,
                    None => old(schedule)@.request_count,
                }
            },
    {
        if !schedule.should_continue(now_nanos, stopped) {
            return WorkerAction::Finish;
        }
        if !self.paced {
            match self.iteration_limit {
                Some(limit) => {
                    if self.iterations >= limit {
                        return WorkerAction::Finish;
                    }
                },
                None => {},
            }
            if self.has_pacer {
                self.paced = true;
                return WorkerAction::Pace;
            }
        }
        if !schedule.try_reserve_request() {
            return WorkerAction::Finish;
        }
        WorkerAction::Step
    }

    /// A step ran: one more iteration, and the next round waits for the pacer again.
    pub fn step_done(&mut self)
        requires
            old(self).wf(),
            !iterations_done(old(self)@),
        ensures
            final(self).wf(),
            final(self)@ == spec_step_done(old(self)@),
    {
        self.iterations = self.iterations.wrapping_add(1);
        self.paced = false;
    }
}

/// All workers of a run together: the shared schedule, each worker's loop, and which
/// workers run a step they have not reported yet.
pub struct FleetView {
    pub schedule: ScheduleView,
    pub workers: Seq<WorkerLoopView>,
    pub stepping: Seq<bool>,
}

/// One thing that happens in a run.
pub enum FleetEvent {
    /// A worker asks for its next move.
    Ask { worker: int, now_nanos: u64, stopped: bool },
    /// A worker reports the step it ran.
    Done { worker: int },
}

/// Whether the event can happen: a worker asks only when it is not running a step, and
/// reports only a step it runs.
pub open spec fn fleet_event_ok(f: FleetView, e: FleetEvent) -> bool {
    match e {
        FleetEvent::Ask { worker, .. } => 0 <= worker < f.workers.len() && !f.stepping[worker],
        FleetEvent::Done { worker } => 0 <= worker < f.workers.len() && f.stepping[worker],
    }
}

/// The run after an event: an asking worker takes its next move (see
/// [`WorkerLoop::next`]) and runs a step when told to; a report ends the step (see
/// [`WorkerLoop::step_done`]).
pub open spec fn fleet_apply(f: FleetView, e: FleetEvent) -> FleetView {
    match e {
        FleetEvent::Ask { worker, now_nanos, stopped } => {
            let (a, w, s) = spec_worker_next(f.workers[worker], f.schedule, now_nanos, stopped);
            FleetView {
                schedule: s,
                workers: f.workers.update(worker, w),
                stepping: f.stepping.update(worker, a == WorkerAction::Step),
            }
        },
        FleetEvent::Done { worker } => FleetView {
            workers: f.workers.update(worker, spec_step_done(f.workers[worker])),
            stepping: f.stepping.update(worker, false),
            ..f
        },
    }
}

/// A run of `n` workers just started on `schedule`.
pub open spec fn fleet_start(schedule: ScheduleView, n: nat, iteration_limit: Option<u64>, has_pacer: bool) -> FleetView {
    FleetView {
        schedule,
        workers: Seq::new(n, |i: int| WorkerLoopView { iterations: 0, iteration_limit, paced: false, has_pacer }),
        stepping: Seq::new(n, |i: int| false),
    }
}

/// Steps the workers have completed.
pub open spec fn total_steps(ws: Seq<WorkerLoopView>) -> int
    decreases ws.len(),
{
    if ws.len() == 0 {
        0
    } else {
        total_steps(ws.drop_last()) + ws.last().iterations
    }
}

/// Steps under way.
pub open spec fn steps_in_flight(st: Seq<bool>) -> int
    decreases st.len(),
{
    if st.len() == 0 {
        0
    } else {
        steps_in_flight(st.drop_last()) + if st.last() { 1int } else { 0int }
    }
}

/// What holds at every point of a run with request limit `limit`, iteration limit
/// `iteration_limit` and at least one worker: each worker keeps within its iterations,
/// and under a request limit the requests reserved are exactly the steps completed and
/// under way, and never more than the limit.
pub open spec fn fleet_inv(f: FleetView, limit: Option<u64>, iteration_limit: Option<u64>) -> bool {
    &&& f.workers.len() >= 1
    &&& f.stepping.len() == f.workers.len()
    &&& f.schedule.total_requests_limit == limit
    &&& forall|i: int| 0 <= i < f.workers.len() ==> {
        let w = #[trigger] f.workers[i];
        &&& w.iteration_limit == iteration_limit
        &&& (match iteration_limit {
            Some(k) => w.iterations <= k,
            None => true,
        })
        &&& (w.paced ==> w.has_pacer && !iterations_done(w))
        &&& (f.stepping[i] ==> !iterations_done(w))
    }
    &&& match limit {
        Some(l) => f.schedule.request_count <= l && f.schedule.request_count == total_steps(f.workers)
            + steps_in_flight(f.stepping),
        None => f.schedule.request_count == 0,
    }
}

/// Every worker has been told to finish before the deadline and without a stop: the
/// budget is used up, or its own iterations are, and no step is under way.
pub open spec fn fleet_finished(f: FleetView) -> bool {
    &&& forall|i: int| 0 <= i < f.stepping.len() ==> !#[trigger] f.stepping[i]
    &&& forall|i: int|
        0 <= i < f.workers.len() ==> spec_reached_limit(f.schedule) || iterations_done(#[trigger] f.workers[i])
}

proof fn lemma_total_update(ws: Seq<WorkerLoopView>, i: int, w: WorkerLoopView)
    requires
        0 <= i < ws.len(),
    ensures
        total_steps(ws.update(i, w)) == total_steps(ws) - ws[i].iterations + w.iterations,
    decreases ws.len(),
{
    let u = ws.update(i, w);
    assert(u.drop_last() =~= if i == ws.len() - 1 { ws.drop_last() } else { ws.drop_last().update(i, w) });
    if i < ws.len() - 1 {
        lemma_total_update(ws.drop_last(), i, w);
    }
}

proof fn lemma_flight_update(st: Seq<bool>, i: int, b: bool)
    requires
        0 <= i < st.len(),
    ensures
        steps_in_flight(st.update(i, b)) == steps_in_flight(st) - (if st[i] { 1int } else { 0int }) + (if b {
            1int
        } else {
            0int
        }),
    decreases st.len(),
{
    let u = st.update(i, b);
    assert(u.drop_last() =~= if i == st.len() - 1 { st.drop_last() } else { st.drop_last().update(i, b) });
    if i < st.len() - 1 {
        lemma_flight_update(st.drop_last(), i, b);
    }
}

proof fn lemma_flight_none(st: Seq<bool>)
    requires
        forall|i: int| 0 <= i < st.len() ==> !#[trigger] st[i],
    ensures
        steps_in_flight(st) == 0,
    decreases st.len(),
{
    if st.len() > 0 {
        lemma_flight_none(st.drop_last());
    }
}

proof fn lemma_flight_nonneg(st: Seq<bool>)
    ensures
        steps_in_flight(st) >= 0,
    decreases st.len(),
{
    if st.len() > 0 {
        lemma_flight_nonneg(st.drop_last());
    }
}

proof fn lemma_total_bounds(ws: Seq<WorkerLoopView>, k: u64)
    ensures
        total_steps(ws) >= 0,
        (forall|i: int| 0 <= i < ws.len() ==> (#[trigger] ws[i]).iterations <= k) ==> total_steps(ws) <= ws.len() * k,
        (forall|i: int| 0 <= i < ws.len() ==> (#[trigger] ws[i]).iterations == k) ==> total_steps(ws) == ws.len() * k,
        forall|i: int| 0 <= i < ws.len() ==> (#[trigger] ws[i]).iterations <= total_steps(ws),
    decreases ws.len(),
{
    if ws.len() > 0 {
        let d = ws.drop_last();
        lemma_total_bounds(d, k);
        assert forall|i: int| 0 <= i < d.len() implies (#[trigger] d[i]) == ws[i] by {}
        assert(ws.len() * k == d.len() * k + k) by (nonlinear_arith)
            requires
                ws.len() == d.len() + 1,
        ;
        assert forall|i: int| 0 <= i < ws.len() implies (#[trigger] ws[i]).iterations <= total_steps(ws) by {
            if i < d.len() {
                assert(d[i] == ws[i]);
            }
        }
    }
}

/// The invariant of a run holds when it starts and after everything that can happen in
/// it: no worker runs past its iterations, and the requests stepped never exceed the
/// request limit.
pub proof fn lemma_fleet_inv(
    schedule: ScheduleView,
    n: nat,
    iteration_limit: Option<u64>,
    has_pacer: bool,
    f: FleetView,
    e: FleetEvent,
)
    requires
        n >= 1,
        schedule.request_count == 0,
    ensures
        fleet_inv(
            fleet_start(schedule, n, iteration_limit, has_pacer),
            schedule.total_requests_limit,
            iteration_limit,
        ),
        fleet_inv(f, f.schedule.total_requests_limit, iteration_limit) && fleet_event_ok(f, e) ==> fleet_inv(
            fleet_apply(f, e),
            f.schedule.total_requests_limit,
            iteration_limit,
        ),
{
    let f0 = fleet_start(schedule, n, iteration_limit, has_pacer);
    assert(total_steps(f0.workers) == 0) by {
        lemma_total_bounds(f0.workers, 0);
    }
    lemma_flight_none(f0.stepping);
    let limit = f.schedule.total_requests_limit;
    if fleet_inv(f, limit, iteration_limit) && fleet_event_ok(f, e) {
        let g = fleet_apply(f, e);
        lemma_flight_nonneg(f.stepping);
        lemma_total_bounds(f.workers, 0);
        match e {
            FleetEvent::Ask { worker, now_nanos, stopped } => {
                let w = f.workers[worker];
                let (a, w2, s2) = spec_worker_next(w, f.schedule, now_nanos, stopped);
                lemma_total_update(f.workers, worker, w2);
                lemma_flight_update(f.stepping, worker, a == WorkerAction::Step);
                assert forall|i: int| 0 <= i < g.workers.len() implies {
                    let x = #[trigger] g.workers[i];
                    &&& x.iteration_limit == iteration_limit
                    &&& (match iteration_limit {
                        Some(k) => x.iterations <= k,
                        None => true,
                    })
                    &&& (x.paced ==> x.has_pacer && !iterations_done(x))
                    &&& (g.stepping[i] ==> !iterations_done(x))
                } by {
                    if i != worker {
                        assert(g.workers[i] == f.workers[i]);
                    }
                }
            },
            FleetEvent::Done { worker } => {
                let w = f.workers[worker];
                let w2 = spec_step_done(w);
                lemma_flight_update(f.stepping, worker, false);
                lemma_flight_nonneg(f.stepping.update(worker, false));
                match limit {
                    Some(l) => {
                        assert(w.iterations <= total_steps(f.workers));
                        assert(w.iterations + 1 <= l);
                    },
                    None => {},
                }
                lemma_total_update(f.workers, worker, w2);
                lemma_flight_update(f.stepping, worker, false);
                assert forall|i: int| 0 <= i < g.workers.len() implies {
                    let x = #[trigger] g.workers[i];
                    &&& x.iteration_limit == iteration_limit
                    &&& (match iteration_limit {
                        Some(k) => x.iterations <= k,
                        None => true,
                    })
                    &&& (x.paced ==> x.has_pacer && !iterations_done(x))
                    &&& (g.stepping[i] ==> !iterations_done(x))
                } by {
                    if i != worker {
                        assert(g.workers[i] == f.workers[i]);
                    }
                }
            },
        }
    }
}

/// A run's start and deadline never move: whatever worker asks or reports, the
/// schedule keeps the start and the deadline (`start + duration`) it was made with.
pub proof fn lemma_schedule_times_fixed(f: FleetView, e: FleetEvent)
    ensures
        fleet_apply(f, e).schedule.start_nanos == f.schedule.start_nanos,
        fleet_apply(f, e).schedule.deadline_nanos == f.schedule.deadline_nanos,
        fleet_apply(f, e).schedule.total_requests_limit == f.schedule.total_requests_limit,
{
}

/// How many requests a run steps: when every worker has been told to finish before
/// the deadline and without a stop, the steps completed are the smaller of the request
/// limit and the iterations of all workers, whichever are set; and at every point they
/// are within both.
pub proof fn lemma_fleet_total(f: FleetView, limit: Option<u64>, iteration_limit: Option<u64>)
    requires
        fleet_inv(f, limit, iteration_limit),
    ensures
        limit matches Some(l) ==> total_steps(f.workers) <= l,
        iteration_limit matches Some(k) ==> total_steps(f.workers) <= f.workers.len() * k,
        fleet_finished(f) ==> match (limit, iteration_limit) {
            (Some(l), Some(k)) => total_steps(f.workers) == if l <= f.workers.len() * k {
                l as int
            } else {
                f.workers.len() * k
            },
            (Some(l), None) => total_steps(f.workers) == l,
            (None, Some(k)) => total_steps(f.workers) == f.workers.len() * k,
            (None, None) => true,
        },
{
    let ws = f.workers;
    let n = ws.len();
    lemma_flight_nonneg(f.stepping);
    match iteration_limit {
        Some(k) => {
            lemma_total_bounds(ws, k);
        },
        None => {
            lemma_total_bounds(ws, 0);
        },
    }
    if fleet_finished(f) {
        lemma_flight_none(f.stepping);
        if !spec_reached_limit(f.schedule) {
            assert(iterations_done(ws[0]));
            match iteration_limit {
                Some(k) => {
                    assert forall|i: int| 0 <= i < n implies (#[trigger] ws[i]).iterations == k by {
                        assert(iterations_done(ws[i]));
                    }
                    lemma_total_bounds(ws, k);
                },
                None => {},
            }
        }
    }
}

/// Paced requests are spaced by at least the interval: the slot after a slot `s` is
/// never before `s + interval`, and no slot is before the time it was asked for.
pub proof fn lemma_slots_spaced(due: u64, interval: u64, now1: u64, now2: u64)
    requires
        pace_slot(due, now1) + interval <= u64::MAX,
    ensures
        pace_slot(due, now1) >= now1,
        pace_slot((pace_slot(due, now1) + interval) as u64, now2) >= pace_slot(due, now1) + interval,
        pace_slot((pace_slot(due, now1) + interval) as u64, now2) >= now2,
{
}

/// The request budget is never overdrawn: a reservation is granted only while fewer
/// than `limit` are taken, so after any run of reservations at most `limit` were
/// granted.
pub proof fn lemma_budget_respected(s: Schedule)
    requires
        s.wf(),
    ensures
        match s@.total_requests_limit {
            Some(l) => s@.request_count <= l,
            None => true,
        },
{
}

} // verus!
