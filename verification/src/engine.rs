//! The render pass as a state machine. The engine decides; its driver acts:
//! it hands the engine an event, gets the next state and an action, performs
//! the action and comes back with the event that the action led to.
//!
//! Each asset goes from pending to skipped, or through rendering to rendered
//! or aborted. Aborted ends the whole pass.

use vstd::prelude::*;
use crate::plan::{
    build_invocation, invocation_for, jobs_view, Invocation, InvocationView, JobView, Opts,
    RenderJob, Renderer, RendererView,
};

verus! {

/// Where the pass stands with the asset at its cursor.
#[derive(Clone, Copy, Debug, PartialEq, Eq, Structural)]
pub enum Phase {
    /// Nothing is decided yet for the asset at the cursor.
    Pending,
    /// The driver is asked whether the asset's output file exists.
    Probing,
    /// The renderer is running for the asset.
    Rendering,
    /// Every asset is processed.
    Finished,
    /// The renderer failed for the asset at the cursor; nothing follows.
    Aborted,
}

/// How an asset was processed.
#[derive(Clone, Copy, Debug, PartialEq, Eq, Structural)]
pub enum Outcome {
    /// Its output file was there and was kept.
    Skipped,
    /// The renderer ran and succeeded.
    Rendered,
}

/// Where one asset of a pass stands.
#[derive(Clone, Copy, Debug, PartialEq, Eq, Structural)]
pub enum AssetState {
    /// Not decided yet.
    Pending,
    /// Its output file was there and was kept.
    Skipped,
    /// The renderer is running for it.
    Rendering,
    /// The renderer ran and succeeded.
    Rendered,
    /// The renderer failed for it, which ended the pass.
    Aborted,
}

/// The moves of one asset: from pending to skipped or to rendering, and from
/// rendering to rendered or to aborted. Skipped, rendered and aborted are
/// final.
pub open spec fn may_follow(from: AssetState, to: AssetState) -> bool {
    ||| from == to
    ||| from == AssetState::Pending && (to == AssetState::Skipped || to == AssetState::Rendering)
    ||| from == AssetState::Rendering && (to == AssetState::Rendered || to == AssetState::Aborted)
}

/// What the driver reports to the engine.
#[derive(Debug, Clone, PartialEq, Eq)]
pub enum Event {
    /// The driver is ready for the next asset.
    Next,
    /// Whether the output file that the engine asked about exists.
    Probed { exists: bool },
    /// The renderer ran to its end, with a zero exit status or another.
    Exited { success: bool },
    /// The renderer could not be started.
    SpawnFailed { cause: String },
}

/// What an `Event` holds.
pub enum EventView {
    Next,
    Probed { exists: bool },
    Exited { success: bool },
    SpawnFailed { cause: Seq<char> },
}

impl View for Event {
    type V = EventView;

    open spec fn view(&self) -> EventView {
        match self {
            Event::Next => EventView::Next,
            Event::Probed { exists } => EventView::Probed { exists: *exists },
            Event::Exited { success } => EventView::Exited { success: *success },
            Event::SpawnFailed { cause } => EventView::SpawnFailed { cause: cause@ },
        }
    }
}

/// Why a pass was aborted.
#[derive(Debug, Clone, PartialEq, Eq)]
pub enum RenderError {
    /// The renderer could not be started for `object`.
    InvocationError { object: String, cause: String },
    /// The renderer ran for `object` and exited with a non-zero status.
    RenderFailure { object: String },
}

/// What a `RenderError` holds.
pub enum RenderErrorView {
    InvocationError { object: Seq<char>, cause: Seq<char> },
    RenderFailure { object: Seq<char> },
}

impl View for RenderError {
    type V = RenderErrorView;

    open spec fn view(&self) -> RenderErrorView {
        match self {
            RenderError::InvocationError { object, cause } => RenderErrorView::InvocationError {
                object: object@,
                cause: cause@,
            },
            RenderError::RenderFailure { object } => RenderErrorView::RenderFailure {
                object: object@,
            },
        }
    }
}

impl RenderErrorView {
    /// The message for the operator: it names the object that failed, and
    /// the cause where the renderer could not be started.
    pub open spec fn message(self) -> Seq<char> {
        match self {
            RenderErrorView::InvocationError { object, cause } => "Failed to render "@ + object
                + ": "@ + cause,
            RenderErrorView::RenderFailure { object } => "Failed to render "@ + object + ":"@,
        }
    }
}

impl RenderError {
    /// The message for the operator.
    pub fn message(&self) -> (message: String)
        ensures
            message@ == self@.message(),
    {
        match self {
            RenderError::InvocationError { object, cause } => String::from_str(
                "Failed to render ",
            ).concat(object.as_str()).concat(": ").concat(cause.as_str()),
            RenderError::RenderFailure { object } => String::from_str("Failed to render ").concat(
                object.as_str(),
            ).concat(":"),
        }
    }
}

/// What the renderer wrote, as it is shown to the operator whether the
/// renderer succeeded or not: each stream under its heading.
pub open spec fn diagnostics(stdout: Seq<char>, stderr: Seq<char>) -> Seq<char> {
    "-- blender stdout:\n"@ + stdout + "\n-- blender stderr:\n"@ + stderr + "\n"@
}

/// Lays out what the renderer wrote for the operator.
pub fn diagnostic_text(stdout: &str, stderr: &str) -> (shown: String)
    ensures
        shown@ == diagnostics(stdout@, stderr@),
{
    String::from_str("-- blender stdout:\n").concat(stdout).concat(
        "\n-- blender stderr:\n",
    ).concat(stderr).concat("\n")
}

/// What the engine asks of the driver.
#[derive(Debug, Clone, PartialEq, Eq)]
pub enum Action {
    /// Find out whether the file at `path` exists; report `Probed`.
    Probe { path: String },
    /// Start the renderer and wait for it; report `Exited` or `SpawnFailed`.
    Invoke(Invocation),
    /// An asset is processed: advance progress by one; report `Next`.
    Advance,
    /// The pass is complete.
    Finish,
    /// The pass failed; no asset is processed any more.
    Abort(RenderError),
    /// The event is not one that the engine waits for; nothing changed.
    Rejected,
}

/// What an `Action` holds.
pub enum ActionView {
    Probe { path: Seq<char> },
    Invoke(InvocationView),
    Advance,
    Finish,
    Abort(RenderErrorView),
    Rejected,
}

impl View for Action {
    type V = ActionView;

    open spec fn view(&self) -> ActionView {
        match self {
            Action::Probe { path } => ActionView::Probe { path: path@ },
            Action::Invoke(invocation) => ActionView::Invoke(invocation@),
            Action::Advance => ActionView::Advance,
            Action::Finish => ActionView::Finish,
            Action::Abort(error) => ActionView::Abort(error@),
            Action::Rejected => ActionView::Rejected,
        }
    }
}

/// The number of rendered assets among `outcomes`.
pub open spec fn rendered_count(outcomes: Seq<Outcome>) -> nat
    decreases outcomes.len(),
{
    if outcomes.len() == 0 {
        0
    } else {
        rendered_count(outcomes.drop_last()) + if outcomes.last() == Outcome::Rendered {
            1nat
        } else {
            0nat
        }
    }
}

/// The state of a pass.
pub struct RunView {
    /// The work, in order.
    pub jobs: Seq<JobView>,
    pub renderer: RendererView,
    /// Whether an output file that exists is kept.
    pub no_override: bool,
    /// The number of assets that are processed; the index of the next one.
    pub cursor: nat,
    pub phase: Phase,
    /// The number of times the renderer was asked for.
    pub invocations: nat,
    /// How each processed asset was processed.
    pub outcomes: Seq<Outcome>,
}

impl RunView {
    /// A pass before its first event.
    pub open spec fn initial(jobs: Seq<JobView>, renderer: RendererView, no_override: bool) -> RunView {
        RunView {
            jobs,
            renderer,
            no_override,
            cursor: 0,
            phase: Phase::Pending,
            invocations: 0,
            outcomes: Seq::empty(),
        }
    }

    /// The invariant of a pass.
    pub open spec fn wf(self) -> bool {
        &&& self.cursor <= self.jobs.len()
        &&& self.outcomes.len() == self.cursor
        &&& (self.phase == Phase::Probing ==> self.no_override)
        &&& (self.phase == Phase::Probing || self.phase == Phase::Rendering || self.phase
            == Phase::Aborted ==> self.cursor < self.jobs.len())
        &&& (self.phase == Phase::Finished ==> self.cursor == self.jobs.len())
        &&& self.invocations == rendered_count(self.outcomes) + if self.phase == Phase::Rendering
            || self.phase == Phase::Aborted {
            1nat
        } else {
            0nat
        }
    }

    /// Progress: the number of assets that are processed, rendered or skipped.
    pub open spec fn progress(self) -> nat {
        self.cursor
    }

    /// The asset at the cursor.
    pub open spec fn current(self) -> JobView {
        self.jobs[self.cursor as int]
    }

    /// Whether the pass waits for `event`.
    pub open spec fn expects(self, event: EventView) -> bool {
        match self.phase {
            Phase::Pending => event is Next,
            Phase::Probing => event is Probed,
            Phase::Rendering => event is Exited || event is SpawnFailed,
            Phase::Finished => false,
            Phase::Aborted => false,
        }
    }

    /// Where asset `k` stands: a processed asset by its outcome, the asset at
    /// the cursor by the phase of the pass, and a later asset pending.
    pub open spec fn asset_state(self, k: int) -> AssetState {
        if k < self.cursor {
            match self.outcomes[k] {
                Outcome::Skipped => AssetState::Skipped,
                Outcome::Rendered => AssetState::Rendered,
            }
        } else if k == self.cursor {
            match self.phase {
                Phase::Rendering => AssetState::Rendering,
                Phase::Aborted => AssetState::Aborted,
                _ => AssetState::Pending,
            }
        } else {
            AssetState::Pending
        }
    }

    /// The renderer is asked for the asset at the cursor.
    pub open spec fn rendering(self) -> RunView {
        RunView { phase: Phase::Rendering, invocations: self.invocations + 1, ..self }
    }

    /// The asset at the cursor is processed.
    pub open spec fn settled(self, outcome: Outcome) -> RunView {
        RunView {
            phase: Phase::Pending,
            cursor: self.cursor + 1,
            outcomes: self.outcomes.push(outcome),
            ..self
        }
    }

    /// The state after `event`. An event that the pass does not wait for
    /// changes nothing.
    pub open spec fn after(self, event: EventView) -> RunView {
        match (self.phase, event) {
            (Phase::Pending, EventView::Next) => {
                if self.cursor >= self.jobs.len() {
                    RunView { phase: Phase::Finished, ..self }
                } else if self.no_override {
                    RunView { phase: Phase::Probing, ..self }
                } else {
                    self.rendering()
                }
            },
            (Phase::Probing, EventView::Probed { exists }) => {
                if exists {
                    self.settled(Outcome::Skipped)
                } else {
                    self.rendering()
                }
            },
            (Phase::Rendering, EventView::Exited { success }) => {
                if success {
                    self.settled(Outcome::Rendered)
                } else {
                    RunView { phase: Phase::Aborted, ..self }
                }
            },
            (Phase::Rendering, EventView::SpawnFailed { cause }) => {
                RunView { phase: Phase::Aborted, ..self }
            },
            _ => self,
        }
    }

    /// What the driver is asked to do after `event`.
    pub open spec fn action(self, event: EventView) -> ActionView {
        match (self.phase, event) {
            (Phase::Pending, EventView::Next) => {
                if self.cursor >= self.jobs.len() {
                    ActionView::Finish
                } else if self.no_override {
                    ActionView::Probe { path: self.current().output_path }
                } else {
                    ActionView::Invoke(invocation_for(self.renderer, self.current()))
                }
            },
            (Phase::Probing, EventView::Probed { exists }) => {
                if exists {
                    ActionView::Advance
                } else {
                    ActionView::Invoke(invocation_for(self.renderer, self.current()))
                }
            },
            (Phase::Rendering, EventView::Exited { success }) => {
                if success {
                    ActionView::Advance
                } else {
                    ActionView::Abort(
                        RenderErrorView::RenderFailure { object: self.current().object },
                    )
                }
            },
            (Phase::Rendering, EventView::SpawnFailed { cause }) => {
                ActionView::Abort(
                    RenderErrorView::InvocationError { object: self.current().object, cause },
                )
            },
            _ => ActionView::Rejected,
        }
    }

    /// The state after the events of `events`, in order.
    pub open spec fn after_all(self, events: Seq<EventView>) -> RunView
        decreases events.len(),
    {
        if events.len() == 0 {
            self
        } else {
            self.after_all(events.drop_last()).after(events.last())
        }
    }
}

/// A pass in progress.
#[derive(Debug)]
pub struct RenderRun {
    jobs: Vec<RenderJob>,
    renderer: Renderer,
    no_override: bool,
    cursor: usize,
    phase: Phase,
    invocations: usize,
    outcomes: Vec<Outcome>,
}

impl View for RenderRun {
    type V = RunView;

    closed spec fn view(&self) -> RunView {
        RunView {
            jobs: jobs_view(self.jobs@),
            renderer: self.renderer@,
            no_override: self.no_override,
            cursor: self.cursor as nat,
            phase: self.phase,
            invocations: self.invocations as nat,
            outcomes: self.outcomes@,
        }
    }
}

/// One more outcome adds to the rendered assets if it is a rendered one.
pub proof fn lemma_rendered_count_push(outcomes: Seq<Outcome>, outcome: Outcome)
    ensures
        rendered_count(outcomes.push(outcome)) == rendered_count(outcomes) + if outcome
            == Outcome::Rendered {
            1nat
        } else {
            0nat
        },
        rendered_count(outcomes) <= outcomes.len(),
    decreases outcomes.len(),
{
    assert(outcomes.push(outcome).drop_last() =~= outcomes);
    if outcomes.len() > 0 {
        lemma_rendered_count_push(outcomes.drop_last(), outcomes.last());
        assert(outcomes.drop_last().push(outcomes.last()) =~= outcomes);
    }
}

/// Every event leaves a pass within its invariant.
pub proof fn lemma_after_keeps_wf(run: RunView, event: EventView)
    requires
        run.wf(),
    ensures
        run.after(event).wf(),
{
    lemma_rendered_count_push(run.outcomes, Outcome::Skipped);
    lemma_rendered_count_push(run.outcomes, Outcome::Rendered);
}

/// Any sequence of events leaves a pass within its invariant.
pub proof fn lemma_after_all_keeps_wf(run: RunView, events: Seq<EventView>)
    requires
        run.wf(),
    ensures
        run.after_all(events).wf(),
    decreases events.len(),
{
    if events.len() > 0 {
        lemma_after_all_keeps_wf(run, events.drop_last());
        lemma_after_keeps_wf(run.after_all(events.drop_last()), events.last());
    }
}

/// Progress never goes back and moves one asset at a time. It moves exactly
/// when the asset at the cursor is skipped or rendered, which is when the
/// driver is told to advance. The renderer is asked for once more exactly
/// when the driver is told to invoke it, and the work itself never changes.
pub proof fn lemma_progress_steps(run: RunView, event: EventView)
    requires
        run.wf(),
    ensures
        run.after(event).progress() == run.progress() + if run.action(event) is Advance {
            1nat
        } else {
            0nat
        },
        run.after(event).invocations == run.invocations + if run.action(event) is Invoke {
            1nat
        } else {
            0nat
        },
        run.action(event) is Advance ==> run.after(event).outcomes.drop_last() == run.outcomes,
        !(run.action(event) is Advance) ==> run.after(event).outcomes == run.outcomes,
        run.after(event).jobs == run.jobs,
        run.after(event).renderer == run.renderer,
        run.after(event).no_override == run.no_override,
{
    assert(run.outcomes.push(Outcome::Skipped).drop_last() =~= run.outcomes);
    assert(run.outcomes.push(Outcome::Rendered).drop_last() =~= run.outcomes);
}

/// An event that the pass does not wait for is rejected and changes nothing,
/// and an event that it waits for is never rejected.
pub proof fn lemma_rejects_unexpected(run: RunView, event: EventView)
    ensures
        run.expects(event) <==> run.action(event) != ActionView::Rejected,
        !run.expects(event) ==> run.after(event) == run,
{
}

/// Every asset moves only as `may_follow` allows, and an event moves no
/// asset but the one at the cursor.
pub proof fn lemma_asset_moves(run: RunView, event: EventView, k: int)
    requires
        run.wf(),
        0 <= k < run.jobs.len(),
    ensures
        may_follow(run.asset_state(k), run.after(event).asset_state(k)),
        k != run.cursor ==> run.after(event).asset_state(k) == run.asset_state(k),
{
}

/// Skip if present: where existing outputs are kept and the output file of
/// the pending asset exists, the engine asks about that file, never for the
/// renderer, and progress still advances by one.
pub proof fn lemma_existing_output_is_skipped(run: RunView)
    requires
        run.wf(),
        run.no_override,
        run.phase == Phase::Pending,
        run.cursor < run.jobs.len(),
    ensures
        run.action(EventView::Next) == (ActionView::Probe { path: run.current().output_path }),
        run.after(EventView::Next).action(EventView::Probed { exists: true })
            == ActionView::Advance,
        ({
            let done = run.after(EventView::Next).after(EventView::Probed { exists: true });
            &&& done.invocations == run.invocations
            &&& done.progress() == run.progress() + 1
            &&& done.outcomes == run.outcomes.push(Outcome::Skipped)
            &&& done.phase == Phase::Pending
        }),
{
}

/// A renderer that cannot be started, or that exits with a non-zero status,
/// aborts the pass at the asset it was asked for.
pub proof fn lemma_failure_aborts(run: RunView, event: EventView)
    requires
        run.wf(),
        run.phase == Phase::Rendering,
        event == (EventView::Exited { success: false }) || event is SpawnFailed,
    ensures
        run.after(event).phase == Phase::Aborted,
        run.action(event) is Abort,
        run.after(event).progress() == run.progress(),
        run.after(event).invocations == run.invocations,
{
}

/// Aborted is final: an aborted pass rejects every event, and no sequence of
/// events changes it. No asset after the failed one is ever attempted.
pub proof fn lemma_aborted_is_final(run: RunView, events: Seq<EventView>)
    requires
        run.phase == Phase::Aborted,
    ensures
        run.after_all(events) == run,
        forall|event: EventView| run.action(event) == ActionView::Rejected,
    decreases events.len(),
{
    if events.len() > 0 {
        lemma_aborted_is_final(run, events.drop_last());
    }
}

/// Finished is final in the same way.
pub proof fn lemma_finished_is_final(run: RunView, events: Seq<EventView>)
    requires
        run.phase == Phase::Finished,
    ensures
        run.after_all(events) == run,
        forall|event: EventView| run.action(event) == ActionView::Rejected,
    decreases events.len(),
{
    if events.len() > 0 {
        lemma_finished_is_final(run, events.drop_last());
    }
}

/// The work of a pass never changes, whatever the driver reports.
pub proof fn lemma_after_all_keeps_work(run: RunView, events: Seq<EventView>)
    ensures
        run.after_all(events).jobs == run.jobs,
        run.after_all(events).renderer == run.renderer,
        run.after_all(events).no_override == run.no_override,
    decreases events.len(),
{
    if events.len() > 0 {
        lemma_after_all_keeps_work(run, events.drop_last());
    }
}

/// A pass that finishes has processed every asset exactly once: each has
/// one outcome, and the renderer was asked for once for each rendered asset
/// and never for a skipped one.
pub proof fn lemma_finished_pass_is_complete(
    jobs: Seq<JobView>,
    renderer: RendererView,
    no_override: bool,
    events: Seq<EventView>,
)
    requires
        RunView::initial(jobs, renderer, no_override).after_all(events).phase == Phase::Finished,
    ensures
        ({
            let end = RunView::initial(jobs, renderer, no_override).after_all(events);
            &&& end.progress() == jobs.len()
            &&& end.outcomes.len() == jobs.len()
            &&& end.invocations == rendered_count(end.outcomes)
            &&& !no_override ==> end.invocations == jobs.len()
        }),
{
    let start = RunView::initial(jobs, renderer, no_override);
    lemma_after_all_keeps_wf(start, events);
    lemma_after_all_keeps_work(start, events);
    if !no_override {
        lemma_never_skips(start, events);
        lemma_all_rendered(start.after_all(events).outcomes);
    }
}

/// Outcomes that are all rendered ones count in full.
proof fn lemma_all_rendered(outcomes: Seq<Outcome>)
    requires
        forall|i: int| 0 <= i < outcomes.len() ==> outcomes[i] == Outcome::Rendered,
    ensures
        rendered_count(outcomes) == outcomes.len(),
    decreases outcomes.len(),
{
    if outcomes.len() > 0 {
        lemma_all_rendered(outcomes.drop_last());
    }
}

/// A pass that renders every asset anew never probes and never skips.
pub proof fn lemma_never_skips(run: RunView, events: Seq<EventView>)
    requires
        run.wf(),
        !run.no_override,
        forall|i: int| 0 <= i < run.outcomes.len() ==> run.outcomes[i] == Outcome::Rendered,
    ensures
        run.after_all(events).phase != Phase::Probing,
        forall|i: int|
            0 <= i < run.after_all(events).outcomes.len() ==> run.after_all(events).outcomes[i]
                == Outcome::Rendered,
    decreases events.len(),
{
    if events.len() > 0 {
        lemma_never_skips(run, events.drop_last());
        lemma_after_all_keeps_wf(run, events.drop_last());
        lemma_after_all_keeps_work(run, events.drop_last());
    }
}

/// Abort on first failure: in a pass that renders every asset anew, if the
/// renderer fails for the first asset, it was asked for exactly once, and it
/// is never asked for again whatever the driver reports afterwards: the pass
/// stays aborted with no asset processed.
pub proof fn lemma_first_failure_ends_pass(
    jobs: Seq<JobView>,
    renderer: RendererView,
    failure: EventView,
    later: Seq<EventView>,
)
    requires
        jobs.len() >= 1,
        failure == (EventView::Exited { success: false }) || failure is SpawnFailed,
    ensures
        RunView::initial(jobs, renderer, false).action(EventView::Next) == ActionView::Invoke(
            invocation_for(renderer, jobs[0]),
        ),
        RunView::initial(jobs, renderer, false).after(EventView::Next).action(failure) is Abort,
        ({
            let end = RunView::initial(jobs, renderer, false).after(EventView::Next).after(
                failure,
            ).after_all(later);
            &&& end.phase == Phase::Aborted
            &&& end.invocations == 1
            &&& end.progress() == 0
        }),
{
    let aborted = RunView::initial(jobs, renderer, false).after(EventView::Next).after(failure);
    lemma_aborted_is_final(aborted, later);
}


impl RenderRun {
    #[verifier::type_invariant]
    spec fn inv(self) -> bool {
        self@.wf()
    }

    /// A pass over `jobs` before its first event.
    pub fn new(jobs: Vec<RenderJob>, renderer: Renderer, opts: Opts) -> (run: RenderRun)
        ensures
            run@ == RunView::initial(jobs_view(jobs@), renderer@, opts.no_override),
            run@.wf(),
    {
        RenderRun {
            jobs,
            renderer,
            no_override: opts.no_override,
            cursor: 0,
            phase: Phase::Pending,
            invocations: 0,
            outcomes: Vec::new(),
        }
    }

    /// Where the pass stands.
    pub fn phase(&self) -> (phase: Phase)
        ensures
            phase == self@.phase,
    {
        self.phase
    }

    /// The number of assets that are processed.
    pub fn progress(&self) -> (done: usize)
        ensures
            done == self@.progress(),
    {
        self.cursor
    }

    /// The number of assets of the pass: the total that progress runs to.
    pub fn total(&self) -> (total: usize)
        ensures
            total == self@.jobs.len(),
    {
        self.jobs.len()
    }

    /// The number of times the renderer was asked for.
    pub fn invocations(&self) -> (count: usize)
        ensures
            count == self@.invocations,
    {
        self.invocations
    }

    /// How each processed asset was processed, in order.
    pub fn outcomes(&self) -> (outcomes: &Vec<Outcome>)
        ensures
            outcomes@ == self@.outcomes,
    {
        &self.outcomes
    }

    /// The asset at the cursor, while there is one.
    pub fn current_job(&self) -> (job: Option<&RenderJob>)
        ensures
            match job {
                Some(job) => self@.cursor < self@.jobs.len() && job@ == self@.current(),
                None => self@.cursor >= self@.jobs.len(),
            },
    {
        if self.cursor < self.jobs.len() {
            Some(&self.jobs[self.cursor])
        } else {
            None
        }
    }

    /// Whether a pass in `phase` waits for `event`.
    fn waits_for(phase: Phase, event: &Event) -> (waits: bool)
        ensures
            waits == match phase {
                Phase::Pending => event@ is Next,
                Phase::Probing => event@ is Probed,
                Phase::Rendering => event@ is Exited || event@ is SpawnFailed,
                Phase::Finished => false,
                Phase::Aborted => false,
            },
    {
        match phase {
            Phase::Pending => matches!(event, Event::Next),
            Phase::Probing => matches!(event, Event::Probed { .. }),
            Phase::Rendering => matches!(event, Event::Exited { .. })
                || matches!(event, Event::SpawnFailed { .. }),
            Phase::Finished => false,
            Phase::Aborted => false,
        }
    }

    /// Takes one event: the state after it, and what the driver does next.
    /// An event that the pass does not wait for is rejected and changes
    /// nothing; a finished or aborted pass waits for none.
    pub fn step(self, event: Event) -> (next: (RenderRun, Action))
        ensures
            self@.wf(),
            next.0@ == self@.after(event@),
            next.1@ == self@.action(event@),
            next.0@.wf(),
    {
        proof {
            use_type_invariant(&self);
            lemma_rendered_count_push(self.outcomes@, Outcome::Skipped);
            lemma_rendered_count_push(self.outcomes@, Outcome::Rendered);
        }
        let RenderRun { jobs, renderer, no_override, cursor, phase, invocations, mut outcomes } =
            self;
        let total = jobs.len();
        if !Self::waits_for(phase, &event) {
            return (
                RenderRun { jobs, renderer, no_override, cursor, phase, invocations, outcomes },
                Action::Rejected,
            );
        }
        match event {
            Event::Next => {
                if cursor >= total {
                    (
                        RenderRun {
                            jobs,
                            renderer,
                            no_override,
                            cursor,
                            phase: Phase::Finished,
                            invocations,
                            outcomes,
                        },
                        Action::Finish,
                    )
                } else if no_override {
                    let path = jobs[cursor].output_path.clone();
                    (
                        RenderRun {
                            jobs,
                            renderer,
                            no_override,
                            cursor,
                            phase: Phase::Probing,
                            invocations,
                            outcomes,
                        },
                        Action::Probe { path },
                    )
                } else {
                    let invocation = build_invocation(&renderer, &jobs[cursor]);
                    (
                        RenderRun {
                            jobs,
                            renderer,
                            no_override,
                            cursor,
                            phase: Phase::Rendering,
                            invocations: invocations + 1,
                            outcomes,
                        },
                        Action::Invoke(invocation),
                    )
                }
            },
            Event::Probed { exists } => {
                if exists {
                    outcomes.push(Outcome::Skipped);
                    (
                        RenderRun {
                            jobs,
                            renderer,
                            no_override,
                            cursor: cursor + 1,
                            phase: Phase::Pending,
                            invocations,
                            outcomes,
                        },
                        Action::Advance,
                    )
                } else {
                    let invocation = build_invocation(&renderer, &jobs[cursor]);
                    (
                        RenderRun {
                            jobs,
                            renderer,
                            no_override,
                            cursor,
                            phase: Phase::Rendering,
                            invocations: invocations + 1,
                            outcomes,
                        },
                        Action::Invoke(invocation),
                    )
                }
            },
            Event::Exited { success } => {
                if success {
                    outcomes.push(Outcome::Rendered);
                    (
                        RenderRun {
                            jobs,
                            renderer,
                            no_override,
                            cursor: cursor + 1,
                            phase: Phase::Pending,
                            invocations,
                            outcomes,
                        },
                        Action::Advance,
                    )
                } else {
                    let object = jobs[cursor].object.clone();
                    (
                        RenderRun {
                            jobs,
                            renderer,
                            no_override,
                            cursor,
                            phase: Phase::Aborted,
                            invocations,
                            outcomes,
                        },
                        Action::Abort(RenderError::RenderFailure { object }),
                    )
                }
            },
            Event::SpawnFailed { cause } => {
                let object = jobs[cursor].object.clone();
                (
                    RenderRun {
                        jobs,
                        renderer,
                        no_override,
                        cursor,
                        phase: Phase::Aborted,
                        invocations,
                        outcomes,
                    },
                    Action::Abort(RenderError::InvocationError { object, cause }),
                )
            },
        }
    }
}

} // verus!
