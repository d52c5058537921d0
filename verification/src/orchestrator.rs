//! The life of one request, as a state machine.
//!
//! The caller does the outside work (probing the file system, running the
//! child, delivering events) and reports each outcome as a `TaskEvent`. The
//! orchestrator answers with the phases it entered and the next thing to do.
//! A request ends in `Done` or `Errored`; it gets there with exactly one final
//! event, a success or an error, unless it was cancelled, in which case
//! nothing more is emitted.

use vstd::prelude::*;
use vstd::string::StringExecFns;
use crate::backend::BackendNames;
use crate::ids::{fresh_id, is_id};
use crate::registry::CancellationRegistry;
use crate::resolver::ResolutionError;
use crate::runner::{
    interpret_output, interpreted, invocation_of, plan_invocation, CliExecResult,
    CodeagentRunSpec, Invocation, InvocationView, IoStage, RunError, RunFailure,
};
use crate::stream::{
    error_event, event_count, initial_state, EmitterState, StreamEmitter, StreamEvent,
    StreamEventView,
};
use crate::text::clone_text;

verus! {

/// Where a request stands.
#[derive(Clone, Copy, Debug, PartialEq, Eq, Structural)]
pub enum Phase {
    /// Nothing has happened yet.
    Idle,
    /// The backend is chosen; the executable is being looked for.
    BackendResolved,
    /// The executable is known.
    ExecutableResolved,
    /// The child has been handed to the caller to run.
    ProcessRunning,
    /// The child exited with zero and its output has been parsed.
    TrailerParsed,
    /// The message is being delivered chunk by chunk.
    Streaming,
    /// The request ended without error.
    Done,
    /// The request ended with an error.
    Errored,
}

/// The transitions that a request can make.
pub open spec fn is_edge(from: Phase, to: Phase) -> bool {
    match (from, to) {
        (Phase::Idle, Phase::BackendResolved) => true,
        (Phase::BackendResolved, Phase::ExecutableResolved) => true,
        (Phase::ExecutableResolved, Phase::ProcessRunning) => true,
        (Phase::ProcessRunning, Phase::TrailerParsed) => true,
        (Phase::TrailerParsed, Phase::Streaming) => true,
        (Phase::Streaming, Phase::Done) => true,
        (Phase::BackendResolved, Phase::Errored) => true,
        (Phase::ProcessRunning, Phase::Errored) => true,
        (Phase::TrailerParsed, Phase::Errored) => true,
        _ => false,
    }
}

/// The phases in which a request is over.
pub open spec fn is_terminal(phase: Phase) -> bool {
    phase == Phase::Done || phase == Phase::Errored
}

/// `entered` is a walk along transitions that starts at `from`.
pub open spec fn is_walk(from: Phase, entered: Seq<Phase>) -> bool
    decreases entered.len(),
{
    entered.len() == 0 || (is_edge(from, entered[0]) && is_walk(entered[0], entered.skip(1)))
}

/// The phase at the end of a walk that starts at `from`.
pub open spec fn walk_end(from: Phase, entered: Seq<Phase>) -> Phase {
    if entered.len() == 0 {
        from
    } else {
        entered.last()
    }
}

/// What the caller reports to the orchestrator.
#[derive(Debug)]
pub enum TaskEvent {
    /// The request is to be served by this invocation.
    Start(CodeagentRunSpec),
    /// The search for the executable ended.
    Located(Result<String, ResolutionError>),
    /// The operating system could not start the child.
    SpawnFailed { detail: String },
    /// Talking to the child failed.
    IoFailed { stage: IoStage, detail: String },
    /// The child exited.
    Exited(CliExecResult),
    /// The event last handed out has reached the subscriber.
    Delivered,
    /// The request is to be cancelled.
    Cancel,
}

/// What the orchestrator asks the caller to do next.
#[derive(Debug)]
pub enum TaskAction {
    /// Probe the candidate paths, resolve the executable, and report
    /// `Located`.
    Locate { binary_path: Option<String> },
    /// Run the child and report `Exited`, `SpawnFailed` or `IoFailed`.
    Run(Invocation),
    /// Deliver the event; unless it is final, report `Delivered` afterwards.
    Emit(StreamEvent),
    /// The request is over and nothing is to be delivered.
    Finish,
    /// The event does not apply; there is nothing to do.
    Ignore,
}

/// The mathematical content of a `TaskAction`.
pub enum ActionView {
    Locate { binary_path: Option<Seq<char>> },
    Run(InvocationView),
    Emit(StreamEventView),
    Finish,
    Ignore,
}

impl View for TaskAction {
    type V = ActionView;

    open spec fn view(&self) -> ActionView {
        match self {
            TaskAction::Locate { binary_path } => ActionView::Locate {
                binary_path: binary_path.deep_view(),
            },
            TaskAction::Run(invocation) => ActionView::Run(invocation@),
            TaskAction::Emit(event) => ActionView::Emit(event@),
            TaskAction::Finish => ActionView::Finish,
            TaskAction::Ignore => ActionView::Ignore,
        }
    }
}

/// The answer to one event: the phases entered by it, in order, and the
/// next thing to do.
#[derive(Debug)]
pub struct TaskStep {
    pub entered: Vec<Phase>,
    pub action: TaskAction,
}

/// The mathematical content of the orchestrator of one request.
pub struct TaskView {
    pub names: BackendNames,
    pub request_id: Seq<char>,
    pub phase: Phase,
    pub cancelled: bool,
    pub run: Option<CodeagentRunSpec>,
    pub program: Option<Seq<char>>,
    pub stream: Option<EmitterState>,
}

/// The words that introduce an error in the text of an error event.
pub open spec fn error_banner() -> Seq<char> {
    "[AI 错误] AI service error: "@
}

/// The one event that reports the failure of a request: it is final, names
/// the failure, and carries no session identifier.
pub open spec fn failure_event(request_id: Seq<char>, failure: RunFailure) -> StreamEventView {
    StreamEventView {
        request_id,
        delta: error_banner() + failure.rendered(),
        is_final: true,
        session_id: None,
    }
}

impl TaskView {
    /// The parts of the state that a phase relies on are there.
    pub open spec fn wf(self) -> bool {
        &&& self.phase == Phase::BackendResolved ==> self.run is Some
        &&& self.phase == Phase::ProcessRunning ==> self.run is Some && self.program is Some
        &&& self.phase == Phase::Streaming ==> {
            &&& self.stream is Some
            &&& !self.cancelled
            &&& !self.stream->0.cancelled
            &&& !self.stream->0.finished()
            &&& self.stream->0.request_id == self.request_id
        }
        &&& self.phase != Phase::Streaming ==> self.stream is None
    }

    /// The request fails: it enters `Errored` at the end of `entered` and
    /// reports the failure, unless it was cancelled before.
    pub open spec fn fail(self, failure: RunFailure, entered: Seq<Phase>) -> (
        TaskView,
        Seq<Phase>,
        ActionView,
    ) {
        (
            TaskView { phase: Phase::Errored, stream: None, ..self },
            entered,
            if self.cancelled {
                ActionView::Finish
            } else {
                ActionView::Emit(failure_event(self.request_id, failure))
            },
        )
    }

    /// The event does not apply: nothing changes.
    pub open spec fn ignore(self) -> (TaskView, Seq<Phase>, ActionView) {
        (self, Seq::empty(), ActionView::Ignore)
    }

    /// The stream hands out its next event. The request is done once that
    /// was the last one. `entered` holds the phases entered before.
    pub open spec fn emit_next(self, stream: EmitterState, entered: Seq<Phase>) -> (
        TaskView,
        Seq<Phase>,
        ActionView,
    ) {
        let (next, event) = stream.step();
        if next.finished() {
            (
                TaskView { phase: Phase::Done, stream: None, ..self },
                entered.push(Phase::Done),
                ActionView::Emit(event->0),
            )
        } else {
            (
                TaskView { phase: Phase::Streaming, stream: Some(next), ..self },
                entered,
                ActionView::Emit(event->0),
            )
        }
    }

    /// The state after an event, the phases entered by it, and the next
    /// thing to do.
    ///
    /// A request that is over ignores every event. A cancellation ends a
    /// request that is streaming, and is remembered by any other: such a
    /// request goes on to its end but emits nothing. Every other event
    /// applies in one phase only and is ignored elsewhere.
    pub open spec fn stepped(self, event: TaskEvent) -> (TaskView, Seq<Phase>, ActionView) {
        if is_terminal(self.phase) {
            self.ignore()
        } else {
            match event {
                TaskEvent::Cancel => if self.phase == Phase::Streaming {
                    (
                        TaskView { phase: Phase::Done, cancelled: true, stream: None, ..self },
                        seq![Phase::Done],
                        ActionView::Finish,
                    )
                } else {
                    (TaskView { cancelled: true, ..self }, Seq::empty(), ActionView::Ignore)
                },
                TaskEvent::Start(run) => if self.phase == Phase::Idle {
                    (
                        TaskView { phase: Phase::BackendResolved, run: Some(run), ..self },
                        seq![Phase::BackendResolved],
                        ActionView::Locate { binary_path: run.binary_path.deep_view() },
                    )
                } else {
                    self.ignore()
                },
                TaskEvent::Located(found) => if self.phase == Phase::BackendResolved {
                    match found {
                        Ok(program) => (
                            TaskView {
                                phase: Phase::ProcessRunning,
                                program: Some(program@),
                                ..self
                            },
                            seq![Phase::ExecutableResolved, Phase::ProcessRunning],
                            ActionView::Run(invocation_of(self.names, program@, self.run->0)),
                        ),
                        Err(e) => self.fail(RunFailure::Resolution(e@), seq![Phase::Errored]),
                    }
                } else {
                    self.ignore()
                },
                TaskEvent::SpawnFailed { detail } => if self.phase == Phase::ProcessRunning {
                    self.fail(
                        RunFailure::Spawn { detail: detail@, program: self.program->0 },
                        seq![Phase::Errored],
                    )
                } else {
                    self.ignore()
                },
                TaskEvent::IoFailed { stage, detail } => if self.phase == Phase::ProcessRunning {
                    self.fail(RunFailure::Io { stage, detail: detail@ }, seq![Phase::Errored])
                } else {
                    self.ignore()
                },
                TaskEvent::Exited(output) => if self.phase == Phase::ProcessRunning {
                    match interpreted(output.stdout@, output.stderr@, output.exit_code as int) {
                        Err(failure) => if failure is EmptyResult {
                            self.fail(failure, seq![Phase::TrailerParsed, Phase::Errored])
                        } else {
                            self.fail(failure, seq![Phase::Errored])
                        },
                        Ok(outcome) => if self.cancelled {
                            (
                                TaskView { phase: Phase::Done, ..self },
                                seq![Phase::TrailerParsed, Phase::Streaming, Phase::Done],
                                ActionView::Finish,
                            )
                        } else {
                            self.emit_next(
                                initial_state(self.request_id, outcome.message, outcome.session_id),
                                seq![Phase::TrailerParsed, Phase::Streaming],
                            )
                        },
                    }
                } else {
                    self.ignore()
                },
                TaskEvent::Delivered => if self.phase == Phase::Streaming {
                    self.emit_next(self.stream->0, Seq::empty())
                } else {
                    self.ignore()
                },
            }
        }
    }
}

/// The event starts the request.
pub open spec fn starts(state: TaskView, event: TaskEvent) -> bool {
    state.phase == Phase::Idle && event is Start
}

/// The registry once a request that starts has been entered: a request that
/// starts gets an entry, not cancelled, unless its id is in flight already.
pub open spec fn entered_registry(
    registry: Map<Seq<char>, bool>,
    state: TaskView,
    event: TaskEvent,
) -> Map<Seq<char>, bool> {
    if starts(state, event) && !registry.dom().contains(state.request_id) {
        registry.insert(state.request_id, false)
    } else {
        registry
    }
}

/// The registry asks the request to stop.
pub open spec fn asked_to_stop(registry: Map<Seq<char>, bool>, state: TaskView) -> bool {
    registry.dom().contains(state.request_id) && registry[state.request_id]
}

/// One turn of a request that is served under a registry: a request that
/// was asked to stop takes note of that first, and takes the event only if
/// it is not over then.
pub open spec fn advanced(state: TaskView, asked: bool, event: TaskEvent) -> (
    TaskView,
    Seq<Phase>,
    ActionView,
) {
    if asked && !is_terminal(state.phase) {
        let noted = state.stepped(TaskEvent::Cancel);
        if is_terminal(noted.0.phase) {
            noted
        } else {
            noted.0.stepped(event)
        }
    } else {
        state.stepped(event)
    }
}

/// Drives one request from its start to its end.
pub struct TaskOrchestrator {
    names: BackendNames,
    request_id: String,
    phase: Phase,
    cancelled: bool,
    run: Option<CodeagentRunSpec>,
    program: Option<String>,
    emitter: Option<StreamEmitter>,
}

impl View for TaskOrchestrator {
    type V = TaskView;

    closed spec fn view(&self) -> TaskView {
        TaskView {
            names: self.names,
            request_id: self.request_id@,
            phase: self.phase,
            cancelled: self.cancelled,
            run: self.run,
            program: self.program.deep_view(),
            stream: match self.emitter {
                Some(e) => Some(e.state()),
                None => None,
            },
        }
    }
}

impl TaskOrchestrator {
    /// The orchestrator holds what its phase relies on.
    pub closed spec fn wf(&self) -> bool {
        &&& self@.wf()
        &&& self.emitter is Some ==> self.emitter->0.wf()
    }

    /// An orchestrator for the request `request_id`, before anything has
    /// happened. The child will be told its backend by the name that
    /// `names` gives to it.
    pub fn new(request_id: String, names: BackendNames) -> (task: Self)
        ensures
            task.wf(),
            task@ == (TaskView {
                names,
                request_id: request_id@,
                phase: Phase::Idle,
                cancelled: false,
                run: None,
                program: None,
                stream: None,
            }),
    {
        TaskOrchestrator {
            names,
            request_id,
            phase: Phase::Idle,
            cancelled: false,
            run: None,
            program: None,
            emitter: None,
        }
    }

    /// An orchestrator for a new request, under a fresh correlation id.
    pub fn with_fresh_id(names: BackendNames) -> (task: Self)
        ensures
            task.wf(),
            is_id(task@.request_id),
            task@ == (TaskView {
                names,
                request_id: task@.request_id,
                phase: Phase::Idle,
                cancelled: false,
                run: None,
                program: None,
                stream: None,
            }),
    {
        TaskOrchestrator::new(fresh_id(), names)
    }

    /// The request that this orchestrator drives.
    pub fn request_id(&self) -> (id: &str)
        ensures
            id@ == self@.request_id,
    {
        self.request_id.as_str()
    }

    /// Where the request stands.
    pub fn phase(&self) -> (phase: Phase)
        ensures
            phase == self@.phase,
    {
        self.phase
    }

    /// Whether the request is over, so that its entry can leave the registry
    /// of running requests.
    pub fn is_finished(&self) -> (over: bool)
        ensures
            over == is_terminal(self@.phase),
    {
        matches!(self.phase, Phase::Done | Phase::Errored)
    }

    /// Whether a cancellation was asked for.
    pub fn is_cancelled(&self) -> (cancelled: bool)
        ensures
            cancelled == self@.cancelled,
    {
        self.cancelled
    }

    fn fail(&mut self, error: RunError, entered: Vec<Phase>) -> (step: TaskStep)
        requires
            old(self).wf(),
        ensures
            final(self).wf(),
            (final(self)@, step.entered@, step.action@) == old(self)@.fail(error@, entered@),
    {
        self.phase = Phase::Errored;
        self.emitter = None;
        let action = if self.cancelled {
            TaskAction::Finish
        } else {
            let mut text = "[AI 错误] AI service error: ".to_owned();
            text.append(error.message().as_str());
            TaskAction::Emit(error_event(self.request_id.as_str(), text.as_str()))
        };
        TaskStep { entered, action }
    }

    fn emit_next(&mut self, emitter: StreamEmitter, entered: Vec<Phase>) -> (step: TaskStep)
        requires
            emitter.wf(),
            !emitter.state().cancelled,
            !emitter.state().finished(),
            emitter.state().request_id == old(self)@.request_id,
            !old(self).cancelled,
        ensures
            final(self).wf(),
            (final(self)@, step.entered@, step.action@) == old(self)@.emit_next(
                emitter.state(),
                entered@,
            ),
    {
        let mut emitter = emitter;
        let mut entered = entered;
        let event = emitter.next_event();
        let event = match event {
            Some(e) => e,
            None => {
                assert(false);
                error_event("", "")
            },
        };
        if emitter.is_finished() {
            self.phase = Phase::Done;
            self.emitter = None;
            entered.push(Phase::Done);
        } else {
            self.phase = Phase::Streaming;
            self.emitter = Some(emitter);
        }
        TaskStep { entered, action: TaskAction::Emit(event) }
    }

    /// Serves one turn of the request under the registry of requests in
    /// flight. The request is entered when it starts. A request that the
    /// registry asks to stop is cancelled before the event is taken. The
    /// entry leaves as soon as the request is over.
    pub fn advance(&mut self, registry: &mut CancellationRegistry, event: TaskEvent) -> (step:
        TaskStep)
        requires
            old(self).wf(),
            old(registry).wf(),
        ensures
            final(self).wf(),
            final(registry).wf(),
            (final(self)@, step.entered@, step.action@) == advanced(
                old(self)@,
                asked_to_stop(entered_registry(old(registry)@, old(self)@, event), old(self)@),
                event,
            ),
            final(registry)@ == (if is_terminal(final(self)@.phase) {
                entered_registry(old(registry)@, old(self)@, event).remove(old(self)@.request_id)
            } else {
                entered_registry(old(registry)@, old(self)@, event)
            }),
    {
        let starting = matches!(self.phase, Phase::Idle) && matches!(event, TaskEvent::Start(_));
        if starting {
            registry.insert(self.request_id.clone());
        }
        let asked = registry.is_cancelled(self.request_id.as_str());
        let step = if asked && !self.is_finished() {
            let noted = self.step(TaskEvent::Cancel);
            if self.is_finished() {
                noted
            } else {
                self.step(event)
            }
        } else {
            self.step(event)
        };
        if self.is_finished() {
            registry.remove(self.request_id.as_str());
        }
        step
    }

    /// Takes note of an event and says what to do next.
    pub fn step(&mut self, event: TaskEvent) -> (step: TaskStep)
        requires
            old(self).wf(),
        ensures
            final(self).wf(),
            (final(self)@, step.entered@, step.action@) == old(self)@.stepped(event),
    {
        if self.is_finished() {
            return TaskStep { entered: Vec::new(), action: TaskAction::Ignore };
        }
        match event {
            TaskEvent::Cancel => {
                self.cancelled = true;
                if matches!(self.phase, Phase::Streaming) {
                    self.phase = Phase::Done;
                    self.emitter = None;
                    let mut entered: Vec<Phase> = Vec::new();
                    entered.push(Phase::Done);
                    assert(entered@ =~= seq![Phase::Done]);
                    TaskStep { entered, action: TaskAction::Finish }
                } else {
                    TaskStep { entered: Vec::new(), action: TaskAction::Ignore }
                }
            },
            TaskEvent::Start(run) => {
                if matches!(self.phase, Phase::Idle) {
                    let binary_path = clone_text(&run.binary_path);
                    self.phase = Phase::BackendResolved;
                    self.run = Some(run);
                    let mut entered: Vec<Phase> = Vec::new();
                    entered.push(Phase::BackendResolved);
                    assert(entered@ =~= seq![Phase::BackendResolved]);
                    TaskStep { entered, action: TaskAction::Locate { binary_path } }
                } else {
                    TaskStep { entered: Vec::new(), action: TaskAction::Ignore }
                }
            },
            TaskEvent::Located(found) => {
                if matches!(self.phase, Phase::BackendResolved) {
                    match found {
                        Ok(program) => {
                            let invocation = match &self.run {
                                Some(run) => plan_invocation(&self.names, program.clone(), run),
                                None => {
                                    assert(false);
                                    return TaskStep {
                                        entered: Vec::new(),
                                        action: TaskAction::Ignore,
                                    };
                                },
                            };
                            self.phase = Phase::ProcessRunning;
                            self.program = Some(program);
                            let mut entered: Vec<Phase> = Vec::new();
                            entered.push(Phase::ExecutableResolved);
                            entered.push(Phase::ProcessRunning);
                            assert(entered@ =~= seq![
                                Phase::ExecutableResolved,
                                Phase::ProcessRunning,
                            ]);
                            TaskStep { entered, action: TaskAction::Run(invocation) }
                        },
                        Err(e) => {
                            let mut entered: Vec<Phase> = Vec::new();
                            entered.push(Phase::Errored);
                            assert(entered@ =~= seq![Phase::Errored]);
                            self.fail(RunError::Resolution(e), entered)
                        },
                    }
                } else {
                    TaskStep { entered: Vec::new(), action: TaskAction::Ignore }
                }
            },
            TaskEvent::SpawnFailed { detail } => {
                if matches!(self.phase, Phase::ProcessRunning) {
                    let program = match &self.program {
                        Some(p) => p.clone(),
                        None => {
                            assert(false);
                            String::new()
                        },
                    };
                    let mut entered: Vec<Phase> = Vec::new();
                    entered.push(Phase::Errored);
                    assert(entered@ =~= seq![Phase::Errored]);
                    self.fail(RunError::Spawn { detail, program }, entered)
                } else {
                    TaskStep { entered: Vec::new(), action: TaskAction::Ignore }
                }
            },
            TaskEvent::IoFailed { stage, detail } => {
                if matches!(self.phase, Phase::ProcessRunning) {
                    let mut entered: Vec<Phase> = Vec::new();
                    entered.push(Phase::Errored);
                    assert(entered@ =~= seq![Phase::Errored]);
                    self.fail(RunError::Io { stage, detail }, entered)
                } else {
                    TaskStep { entered: Vec::new(), action: TaskAction::Ignore }
                }
            },
            TaskEvent::Exited(output) => {
                if matches!(self.phase, Phase::ProcessRunning) {
                    let mut entered: Vec<Phase> = Vec::new();
                    match interpret_output(output) {
                        Err(error) => {
                            if matches!(error, RunError::EmptyResult { .. }) {
                                entered.push(Phase::TrailerParsed);
                                entered.push(Phase::Errored);
                                assert(entered@ =~= seq![Phase::TrailerParsed, Phase::Errored]);
                            } else {
                                entered.push(Phase::Errored);
                                assert(entered@ =~= seq![Phase::Errored]);
                            }
                            self.fail(error, entered)
                        },
                        Ok(result) => {
                            entered.push(Phase::TrailerParsed);
                            entered.push(Phase::Streaming);
                            if self.cancelled {
                                entered.push(Phase::Done);
                                assert(entered@ =~= seq![
                                    Phase::TrailerParsed,
                                    Phase::Streaming,
                                    Phase::Done,
                                ]);
                                self.phase = Phase::Done;
                                TaskStep { entered, action: TaskAction::Finish }
                            } else {
                                assert(entered@ =~= seq![Phase::TrailerParsed, Phase::Streaming]);
                                let emitter = StreamEmitter::new(
                                    self.request_id.clone(),
                                    result.message.as_str(),
                                    result.session_id,
                                );
                                self.emit_next(emitter, entered)
                            }
                        },
                    }
                } else {
                    TaskStep { entered: Vec::new(), action: TaskAction::Ignore }
                }
            },
            TaskEvent::Delivered => {
                if matches!(self.phase, Phase::Streaming) {
                    match self.emitter.take() {
                        Some(emitter) => self.emit_next(emitter, Vec::new()),
                        None => {
                            assert(false);
                            TaskStep { entered: Vec::new(), action: TaskAction::Ignore }
                        },
                    }
                } else {
                    TaskStep { entered: Vec::new(), action: TaskAction::Ignore }
                }
            },
        }
    }
}

/// A walk of up to three transitions, spelled out.
proof fn lemma_short_walks(from: Phase, a: Phase, b: Phase, c: Phase)
    ensures
        is_walk(from, Seq::empty()),
        is_edge(from, a) ==> is_walk(from, seq![a]),
        is_edge(from, a) && is_edge(a, b) ==> is_walk(from, seq![a, b]),
        is_edge(from, a) && is_edge(a, b) && is_edge(b, c) ==> is_walk(from, seq![a, b, c]),
{
    assert(seq![a].skip(1) =~= Seq::<Phase>::empty());
    assert(seq![a, b].skip(1) =~= seq![b]);
    assert(seq![a, b, c].skip(1) =~= seq![b, c]);
    assert(seq![b].skip(1) =~= Seq::<Phase>::empty());
    assert(seq![b, c].skip(1) =~= seq![c]);
    assert(seq![c].skip(1) =~= Seq::<Phase>::empty());
    reveal_with_fuel(is_walk, 4);
}

/// Every step keeps the state well formed and walks along the transitions of
/// the state machine, from the phase before it to the phase after it. So a
/// request enters `Errored` from `BackendResolved`, `ProcessRunning` or
/// `TrailerParsed` only, and `Done` from `Streaming` only. The request stays
/// the same, and a cancellation is never forgotten.
pub proof fn lemma_step_walks(state: TaskView, event: TaskEvent)
    requires
        state.wf(),
    ensures
        ({
            let (next, entered, action) = state.stepped(event);
            &&& next.wf()
            &&& is_walk(state.phase, entered)
            &&& next.phase == walk_end(state.phase, entered)
            &&& next.request_id == state.request_id
            &&& next.names == state.names
            &&& state.cancelled ==> next.cancelled
        }),
{
    let (next, entered, action) = state.stepped(event);
    lemma_short_walks(state.phase, Phase::Done, Phase::Done, Phase::Done);
    lemma_short_walks(state.phase, Phase::Errored, Phase::Done, Phase::Done);
    lemma_short_walks(state.phase, Phase::BackendResolved, Phase::Done, Phase::Done);
    lemma_short_walks(
        state.phase,
        Phase::ExecutableResolved,
        Phase::ProcessRunning,
        Phase::Done,
    );
    lemma_short_walks(state.phase, Phase::TrailerParsed, Phase::Errored, Phase::Done);
    lemma_short_walks(state.phase, Phase::TrailerParsed, Phase::Streaming, Phase::Done);
    assert(seq![Phase::TrailerParsed, Phase::Streaming].push(Phase::Done) =~= seq![
        Phase::TrailerParsed,
        Phase::Streaming,
        Phase::Done,
    ]);
    assert(Seq::<Phase>::empty().push(Phase::Done) =~= seq![Phase::Done]);
    if state.phase == Phase::ProcessRunning && !state.cancelled {
        if let TaskEvent::Exited(output) = event {
            if let Ok(outcome) = interpreted(
                output.stdout@,
                output.stderr@,
                output.exit_code as int,
            ) {
                assert(event_count(outcome.message.len()) >= 1);
            }
        }
    }
}

/// A request that is over ignores every event: nothing changes and nothing
/// is to be done.
pub proof fn lemma_finished_request_ignores(state: TaskView, event: TaskEvent)
    requires
        is_terminal(state.phase),
    ensures
        state.stepped(event) == (state, Seq::<Phase>::empty(), ActionView::Ignore),
{
}

/// Every request ends with exactly one observable outcome. A step hands out
/// a final event exactly if it ends a request that was not cancelled; the
/// final event of a request that ends in `Errored` is the report of a
/// failure, without session identifier. A step that ends a cancelled request
/// hands out nothing, and so does every step of a request that was cancelled
/// before. Every event handed out belongs to the request.
pub proof fn lemma_one_outcome(state: TaskView, event: TaskEvent)
    requires
        state.wf(),
    ensures
        ({
            let (next, entered, action) = state.stepped(event);
            let ends = !is_terminal(state.phase) && is_terminal(next.phase);
            &&& (action is Emit && action->Emit_0.is_final) <==> (ends && !next.cancelled)
            &&& ends && next.cancelled ==> action == ActionView::Finish
            &&& state.cancelled ==> !(action is Emit)
            &&& action is Emit ==> action->Emit_0.request_id == state.request_id
            &&& action is Emit && next.phase == Phase::Errored ==> action->Emit_0.session_id
                is None
        }),
{
    let (next, entered, action) = state.stepped(event);
    if state.phase == Phase::ProcessRunning && !state.cancelled {
        if let TaskEvent::Exited(output) = event {
            if let Ok(outcome) = interpreted(
                output.stdout@,
                output.stderr@,
                output.exit_code as int,
            ) {
                assert(event_count(outcome.message.len()) >= 1);
            }
        }
    }
}

/// An invocation that ends with an exit code other than zero fails the
/// request with one final event, whose text holds the exit code as a decimal
/// numeral and the end of the child's standard error.
pub proof fn lemma_failed_exit_is_reported(state: TaskView, output: CliExecResult)
    requires
        state.wf(),
        state.phase == Phase::ProcessRunning,
        !state.cancelled,
        output.exit_code != 0,
    ensures
        ({
            let (next, entered, action) = state.stepped(TaskEvent::Exited(output));
            &&& next.phase == Phase::Errored
            &&& entered == seq![Phase::Errored]
            &&& action == ActionView::Emit(
                StreamEventView {
                    request_id: state.request_id,
                    delta: error_banner() + ("codeagent-wrapper 退出码 "@
                        + crate::text::signed_decimal(output.exit_code as int) + "。stderr: "@
                        + crate::text::trim(
                        crate::runner::tail_of(
                            output.stderr@,
                            crate::runner::DIAGNOSTIC_TAIL_CHARS as nat,
                        ),
                    )),
                    is_final: true,
                    session_id: None,
                },
            )
        }),
{
}

/// A request that is served under a registry has no entry once it is over,
/// and a request that starts has one as long as it is not over. A request
/// that the registry asks to stop hands out no event.
pub proof fn lemma_registry_follows_request(
    state: TaskView,
    registry: Map<Seq<char>, bool>,
    event: TaskEvent,
)
    requires
        state.wf(),
    ensures
        ({
            let entered = entered_registry(registry, state, event);
            let (next, _, action) = advanced(state, asked_to_stop(entered, state), event);
            let after = if is_terminal(next.phase) {
                entered.remove(state.request_id)
            } else {
                entered
            };
            &&& next.wf()
            &&& is_terminal(next.phase) ==> !after.dom().contains(state.request_id)
            &&& starts(state, event) && !is_terminal(next.phase) ==> after.dom().contains(
                state.request_id,
            )
            &&& asked_to_stop(entered, state) ==> !(action is Emit)
            &&& forall|id: Seq<char>|
                id != state.request_id ==> (after.dom().contains(id) == registry.dom().contains(id)
                    && (after.dom().contains(id) ==> after[id] == registry[id]))
        }),
{
    let entered = entered_registry(registry, state, event);
    let asked = asked_to_stop(entered, state);
    lemma_step_walks(state, event);
    lemma_one_outcome(state, event);
    if asked && !is_terminal(state.phase) {
        lemma_step_walks(state, TaskEvent::Cancel);
        lemma_one_outcome(state, TaskEvent::Cancel);
        let noted = state.stepped(TaskEvent::Cancel);
        if !is_terminal(noted.0.phase) {
            lemma_step_walks(noted.0, event);
            lemma_one_outcome(noted.0, event);
        }
    }
}

} // verus!
