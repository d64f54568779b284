//! Pipelines: the simpler predecessor of flows. A pipeline has a source,
//! processors and branches, no sink and no feedback; it stops at the first
//! error and keeps no results.
//!
//! A pipeline's stages are flow stages without sinks, and they run the same
//! way (see `engine`).
use vstd::prelude::*;
use crate::composer::{is_branch_of, lemma_closed_branch_ok, lemma_side_ok_grows, lemma_side_ok_push, side_ok};
use crate::engine::{found_view, seek, spec_enter, spec_past, spec_seek, start_cursor, Call, Cursor, CursorView};
use crate::run::{accepts, enter, phase_ok, phase_view, Event, Phase, RunPhase};
use crate::stage::{lemma_no_sink_push, lemma_registered_grows, lemma_registered_push, no_sink, stages_registered, Registry};
pub use crate::stage::{BranchStage, Stage};

verus! {

/// The shape of a pipeline, as the contracts see it.
pub struct PipelineView {
    pub has_source: bool,
    pub stages: Seq<Stage>,
    pub registry: Registry,
}

/// A pipeline under construction.
pub struct Pipeline {
    has_source: bool,
    stages: Vec<Stage>,
    registry: Registry,
}

impl View for Pipeline {
    type V = PipelineView;

    closed spec fn view(&self) -> PipelineView {
        PipelineView { has_source: self.has_source, stages: self.stages@, registry: self.registry }
    }
}

impl PipelineView {
    pub open spec fn wf(self) -> bool {
        stages_registered(self.stages, self.registry) && no_sink(self.stages)
    }
}

impl Pipeline {
    pub open spec fn wf(&self) -> bool {
        self@.wf()
    }

    /// How many components of each kind are registered.
    pub fn registry(&self) -> (r: Registry)
        ensures
            r == self@.registry,
    {
        self.registry
    }

    /// Creates an empty pipeline.
    pub fn new() -> (p: Pipeline)
        ensures
            p.wf(),
            p@ == (PipelineView { has_source: false, stages: Seq::empty(), registry: Registry { processors: 0, conditions: 0, sinks: 0 } }),
    {
        Pipeline { has_source: false, stages: Vec::new(), registry: Registry::empty() }
    }

    /// Sets the source.
    pub fn source(self) -> (p: Pipeline)
        requires
            self.wf(),
        ensures
            p.wf(),
            p@ == (PipelineView { has_source: true, ..self@ }),
    {
        Pipeline { has_source: true, ..self }
    }

    /// Appends a processor stage, running the next processor to be registered.
    pub fn process(self) -> (p: Pipeline)
        requires
            self.wf(),
            self@.registry.processors < usize::MAX,
        ensures
            p.wf(),
            p@ == (PipelineView {
                stages: self@.stages.push(Stage::Process(self@.registry.processors)),
                registry: Registry { processors: (self@.registry.processors + 1) as usize, ..self@.registry },
                ..self@
            }),
    {
        let mut p = self;
        let id = p.registry.processors;
        p.registry.processors = id + 1;
        proof {
            lemma_registered_grows(p.stages@, self.registry, p.registry);
            lemma_registered_push(p.stages@, Stage::Process(id), p.registry);
            lemma_no_sink_push(p.stages@, Stage::Process(id));
        }
        p.stages.push(Stage::Process(id));
        p
    }

    /// Starts a conditional branch on the next condition to be registered.
    pub fn when(self) -> (b: BranchBuilder)
        requires
            self.wf(),
            self@.registry.conditions < usize::MAX,
        ensures
            b.wf(),
            b@ == (BranchBuilderView {
                condition: self@.registry.conditions,
                then_branch: Seq::empty(),
                parent: PipelineView {
                    registry: Registry { conditions: (self@.registry.conditions + 1) as usize, ..self@.registry },
                    ..self@
                },
            }),
    {
        BranchBuilder::new(self)
    }

    /// Sets up a run of the pipeline; it fails when no source is set.
    pub fn start<D>(self) -> (r: Result<PipelineRun<D>, PipelineError>)
        requires
            self.wf(),
        ensures
            match r {
                Ok(run) => self@.has_source && run.wf() && run@ == (PipelineRunView { stages: self@.stages, registry: self@.registry, phase: Phase::<D>::Opening }),
                Err(e) => !self@.has_source && e == PipelineError::SourceNotSet,
            },
    {
        if !self.has_source {
            return Err(PipelineError::SourceNotSet);
        }
        Ok(PipelineRun { stages: self.stages, registry: self.registry, phase: RunPhase::Opening })
    }
}

/// A pipeline branch builder, as the contracts see it.
pub struct BranchBuilderView {
    pub condition: usize,
    pub then_branch: Seq<Stage>,
    pub parent: PipelineView,
}

impl BranchBuilderView {
    pub open spec fn wf(self) -> bool {
        &&& self.parent.wf()
        &&& self.condition < self.parent.registry.conditions
        &&& side_ok(self.then_branch, self.parent.registry)
    }
}

/// Builds the `then` side of a pipeline branch.
pub struct BranchBuilder {
    condition: usize,
    then_branch: Vec<Stage>,
    parent: Pipeline,
}

impl View for BranchBuilder {
    type V = BranchBuilderView;

    closed spec fn view(&self) -> BranchBuilderView {
        BranchBuilderView { condition: self.condition, then_branch: self.then_branch@, parent: self.parent@ }
    }
}

impl BranchBuilder {
    pub open spec fn wf(&self) -> bool {
        self@.wf()
    }

    /// How many components of each kind are registered.
    pub fn registry(&self) -> (r: Registry)
        ensures
            r == self@.parent.registry,
    {
        self.parent.registry
    }

    /// Creates a builder for a branch of `parent` on the next condition to be registered.
    pub fn new(parent: Pipeline) -> (b: BranchBuilder)
        requires
            parent.wf(),
            parent@.registry.conditions < usize::MAX,
        ensures
            b.wf(),
            b@ == (BranchBuilderView {
                condition: parent@.registry.conditions,
                then_branch: Seq::empty(),
                parent: PipelineView {
                    registry: Registry { conditions: (parent@.registry.conditions + 1) as usize, ..parent@.registry },
                    ..parent@
                },
            }),
    {
        let mut parent = parent;
        let id = parent.registry.conditions;
        let ghost before = parent.registry;
        parent.registry.conditions = id + 1;
        proof {
            lemma_registered_grows(parent.stages@, before, parent.registry);
        }
        BranchBuilder { condition: id, then_branch: Vec::new(), parent }
    }

    /// Adds a processor, the next to be registered, to the `then` side.
    pub fn process(self) -> (b: BranchBuilder)
        requires
            self.wf(),
            self@.parent.registry.processors < usize::MAX,
        ensures
            b.wf(),
            b@ == (BranchBuilderView {
                then_branch: self@.then_branch.push(Stage::Process(self@.parent.registry.processors)),
                parent: PipelineView {
                    registry: Registry { processors: (self@.parent.registry.processors + 1) as usize, ..self@.parent.registry },
                    ..self@.parent
                },
                ..self@
            }),
    {
        let mut b = self;
        let id = b.parent.registry.processors;
        let ghost before = b.parent.registry;
        b.parent.registry.processors = id + 1;
        proof {
            lemma_registered_grows(b.parent.stages@, before, b.parent.registry);
            lemma_side_ok_grows(b.then_branch@, before, b.parent.registry);
        }
        proof {
            lemma_side_ok_push(b.then_branch@, Stage::Process(id), b.parent.registry);
        }
        b.then_branch.push(Stage::Process(id));
        b
    }

    /// Turns to the side that runs when the condition does not hold.
    pub fn otherwise(self) -> (o: OtherwiseBuilder)
        requires
            self.wf(),
        ensures
            o.wf(),
            o@ == (OtherwiseBuilderView {
                condition: self@.condition,
                then_branch: self@.then_branch,
                else_branch: Seq::empty(),
                parent: self@.parent,
            }),
    {
        OtherwiseBuilder { condition: self.condition, then_branch: self.then_branch, else_branch: Vec::new(), parent: self.parent }
    }
}

/// A pipeline otherwise builder, as the contracts see it.
pub struct OtherwiseBuilderView {
    pub condition: usize,
    pub then_branch: Seq<Stage>,
    pub else_branch: Seq<Stage>,
    pub parent: PipelineView,
}

impl OtherwiseBuilderView {
    pub open spec fn wf(self) -> bool {
        &&& self.parent.wf()
        &&& self.condition < self.parent.registry.conditions
        &&& side_ok(self.then_branch, self.parent.registry)
        &&& side_ok(self.else_branch, self.parent.registry)
    }
}

/// Builds the `otherwise` side of a pipeline branch.
pub struct OtherwiseBuilder {
    condition: usize,
    then_branch: Vec<Stage>,
    else_branch: Vec<Stage>,
    parent: Pipeline,
}

impl View for OtherwiseBuilder {
    type V = OtherwiseBuilderView;

    closed spec fn view(&self) -> OtherwiseBuilderView {
        OtherwiseBuilderView {
            condition: self.condition,
            then_branch: self.then_branch@,
            else_branch: self.else_branch@,
            parent: self.parent@,
        }
    }
}

impl OtherwiseBuilder {
    pub open spec fn wf(&self) -> bool {
        self@.wf()
    }

    /// How many components of each kind are registered.
    pub fn registry(&self) -> (r: Registry)
        ensures
            r == self@.parent.registry,
    {
        self.parent.registry
    }

    /// Adds a processor, the next to be registered, to the `otherwise` side.
    pub fn process(self) -> (o: OtherwiseBuilder)
        requires
            self.wf(),
            self@.parent.registry.processors < usize::MAX,
        ensures
            o.wf(),
            o@ == (OtherwiseBuilderView {
                else_branch: self@.else_branch.push(Stage::Process(self@.parent.registry.processors)),
                parent: PipelineView {
                    registry: Registry { processors: (self@.parent.registry.processors + 1) as usize, ..self@.parent.registry },
                    ..self@.parent
                },
                ..self@
            }),
    {
        let mut o = self;
        let id = o.parent.registry.processors;
        let ghost before = o.parent.registry;
        o.parent.registry.processors = id + 1;
        proof {
            lemma_registered_grows(o.parent.stages@, before, o.parent.registry);
            lemma_side_ok_grows(o.then_branch@, before, o.parent.registry);
            lemma_side_ok_grows(o.else_branch@, before, o.parent.registry);
        }
        proof {
            lemma_side_ok_push(o.else_branch@, Stage::Process(id), o.parent.registry);
        }
        o.else_branch.push(Stage::Process(id));
        o
    }

    /// Closes the branch and appends it to the pipeline.
    pub fn end(self) -> (p: Pipeline)
        requires
            self.wf(),
        ensures
            p.wf(),
            p@.has_source == self@.parent.has_source,
            p@.registry == self@.parent.registry,
            p@.stages.len() == self@.parent.stages.len() + 1,
            p@.stages.drop_last() == self@.parent.stages,
            is_branch_of(p@.stages.last(), self@.condition, self@.then_branch, self@.else_branch),
    {
        let ghost v = self@;
        let OtherwiseBuilder { condition, then_branch, else_branch, parent } = self;
        let stage = Stage::Branch(BranchStage { condition, then_branch, else_branch });
        let mut p = parent;
        let ghost before = p.stages@;
        proof {
            lemma_closed_branch_ok(condition, v.then_branch, v.else_branch, stage, p.registry);
            lemma_registered_push(before, stage, p.registry);
            lemma_no_sink_push(before, stage);
        }
        p.stages.push(stage);
        proof {
            assert(p.stages@.drop_last() =~= before);
        }
        p
    }
}

/// Why a pipeline cannot run.
#[derive(Debug, Clone, PartialEq, Eq, Structural)]
pub enum PipelineError {
    SourceNotSet,
}

impl PipelineError {
    /// The text of the error.
    pub fn to_string(&self) -> (text: String)
        ensures
            text@ == "Pipeline source not set"@,
    {
        String::from_str("Pipeline source not set")
    }
}

/// What a pipeline run asks for next.
pub enum PipelineNext<D, E> {
    /// Wait for the next item.
    Receive,
    /// Call the processor with this number on `input`.
    Process { processor: usize, input: D },
    /// Evaluate the condition with this number on `input`, a copy of the data.
    Evaluate { condition: usize, input: D },
    /// The run is over: every item went through, or this error stopped it.
    Done(Result<(), E>),
}

/// A pipeline run, as the contracts see it.
pub struct PipelineRunView<D> {
    pub stages: Seq<Stage>,
    pub registry: Registry,
    pub phase: Phase<D>,
}

/// The decision state of a running pipeline.
pub struct PipelineRun<D> {
    stages: Vec<Stage>,
    registry: Registry,
    phase: RunPhase<D>,
}

impl<D> View for PipelineRun<D> {
    type V = PipelineRunView<D>;

    closed spec fn view(&self) -> PipelineRunView<D> {
        PipelineRunView { stages: self.stages@, registry: self.registry, phase: phase_view(self.phase) }
    }
}

/// Which events a pipeline run in this phase is waiting for. A pipeline has
/// no shutdown signal and no sinks.
pub open spec fn pipeline_accepts<D, E>(phase: Phase<D>, event: Event<D, E>) -> bool {
    accepts(phase, event) && !(event is Shutdown) && !(event is Sunk)
}

/// Where an item goes once the next call it needs is known.
pub open spec fn pipeline_dispatch<D, E>(v: PipelineRunView<D>, found: Option<(CursorView, Call)>, d: D) -> (PipelineRunView<D>, PipelineNext<D, E>) {
    match found {
        Some((c, Call::Process(id))) => (PipelineRunView { phase: Phase::AwaitProcess(c), ..v }, PipelineNext::Process { processor: id, input: d }),
        Some((c, Call::Evaluate(id))) => (PipelineRunView { phase: Phase::AwaitCondition(c, d), ..v }, PipelineNext::Evaluate { condition: id, input: d }),
        _ => (PipelineRunView { phase: Phase::Receiving, ..v }, PipelineNext::Receive),
    }
}

/// One decision of a pipeline run. The first error ends the run.
pub open spec fn pipeline_step<D, E>(v: PipelineRunView<D>, event: Event<D, E>) -> (PipelineRunView<D>, PipelineNext<D, E>) {
    let done = PipelineRunView { phase: Phase::Finished, ..v };
    match (v.phase, event) {
        (Phase::Opening, Event::Opened(Ok(()))) => (PipelineRunView { phase: Phase::Receiving, ..v }, PipelineNext::Receive),
        (Phase::Opening, Event::Opened(Err(e))) => (done, PipelineNext::Done(Err(e))),
        (Phase::Receiving, Event::Closed) => (done, PipelineNext::Done(Ok(()))),
        (Phase::Receiving, Event::Item(Err(e))) => (done, PipelineNext::Done(Err(e))),
        (Phase::Receiving, Event::Item(Ok(d))) => pipeline_dispatch(v, spec_seek(v.stages, start_cursor()), d),
        (Phase::AwaitProcess(c), Event::Processed(Ok(d))) => pipeline_dispatch(v, spec_seek(v.stages, spec_past(c)), d),
        (Phase::AwaitProcess(_), Event::Processed(Err(e))) => (done, PipelineNext::Done(Err(e))),
        (Phase::AwaitCondition(c, d), Event::Evaluated(Ok(taken))) => pipeline_dispatch(
            v,
            spec_seek(v.stages, spec_enter(c, taken)),
            d,
        ),
        (Phase::AwaitCondition(..), Event::Evaluated(Err(e))) => (done, PipelineNext::Done(Err(e))),
        _ => (v, PipelineNext::Receive),
    }
}

/// `n` is what `v` asks for; a condition is handed a copy of the data.
pub open spec fn pipeline_next_matches<D: Clone, E>(n: PipelineNext<D, E>, v: PipelineNext<D, E>) -> bool {
    match (n, v) {
        (PipelineNext::Evaluate { condition, input }, PipelineNext::Evaluate { condition: c, input: i }) => condition == c && cloned(i, input),
        _ => n == v,
    }
}

impl<D> PipelineRun<D> {
    pub closed spec fn wf(&self) -> bool {
        &&& stages_registered(self.stages@, self.registry)
        &&& no_sink(self.stages@)
        &&& phase_ok(self.stages@, phase_view(self.phase))
        &&& !(self.phase is AwaitSink)
    }

    /// Whether the run is waiting for this event.
    pub fn accepts<E>(&self, event: &Event<D, E>) -> (r: bool)
        ensures
            r == pipeline_accepts(self@.phase, *event),
    {
        match &self.phase {
            RunPhase::Opening => matches!(event, Event::Opened(_)),
            RunPhase::Receiving => matches!(event, Event::Closed | Event::Item(_)),
            RunPhase::AwaitProcess(_) => matches!(event, Event::Processed(_)),
            RunPhase::AwaitCondition(..) => matches!(event, Event::Evaluated(_)),
            _ => false,
        }
    }
}

impl<D: Clone> PipelineRun<D> {
    fn dispatch<E>(stages: Vec<Stage>, registry: Registry, found: Option<(Cursor, Call)>, d: D) -> (r: (PipelineRun<D>, PipelineNext<D, E>))
        requires
            stages_registered(stages@, registry),
            no_sink(stages@),
            found_view(found) matches Some((c, call)) ==> phase_ok(stages@, pipeline_dispatch::<D, E>(PipelineRunView { stages: stages@, registry, phase: Phase::Receiving }, found_view(found), d).0.phase),
            found matches Some((c, call)) ==> !(call is Sink),
        ensures
            r.0.wf(),
            ({
                let (w, n) = pipeline_dispatch::<D, E>(PipelineRunView { stages: stages@, registry, phase: Phase::Receiving }, found_view(found), d);
                r.0@ == w && pipeline_next_matches(r.1, n)
            }),
    {
        match found {
            Some((c, Call::Process(id))) => (PipelineRun { stages, registry, phase: RunPhase::AwaitProcess(c) }, PipelineNext::Process { processor: id, input: d }),
            Some((c, Call::Evaluate(id))) => {
                let input = d.clone();
                (PipelineRun { stages, registry, phase: RunPhase::AwaitCondition(c, d) }, PipelineNext::Evaluate { condition: id, input })
            },
            _ => (PipelineRun { stages, registry, phase: RunPhase::Receiving }, PipelineNext::Receive),
        }
    }

    /// Takes one decision: given what happened, returns the new state and
    /// what to do next (see `pipeline_step`).
    pub fn step<E>(self, event: Event<D, E>) -> (r: (PipelineRun<D>, PipelineNext<D, E>))
        requires
            self.wf(),
            pipeline_accepts(self@.phase, event),
        ensures
            r.0.wf(),
            ({
                let (w, n) = pipeline_step(self@, event);
                r.0@ == w && pipeline_next_matches(r.1, n)
            }),
    {
        let PipelineRun { stages, registry, phase } = self;
        proof {
            assert(stages@.len() <= usize::MAX) by {
                assert(stages.len() == stages@.len());
            }
        }
        match phase {
            RunPhase::Opening => match event {
                Event::Opened(Ok(())) => (PipelineRun { stages, registry, phase: RunPhase::Receiving }, PipelineNext::Receive),
                Event::Opened(Err(e)) => (PipelineRun { stages, registry, phase: RunPhase::Finished }, PipelineNext::Done(Err(e))),
                _ => (PipelineRun { stages, registry, phase: RunPhase::Finished }, PipelineNext::Receive),
            },
            RunPhase::Receiving => match event {
                Event::Closed => (PipelineRun { stages, registry, phase: RunPhase::Finished }, PipelineNext::Done(Ok(()))),
                Event::Item(Err(e)) => (PipelineRun { stages, registry, phase: RunPhase::Finished }, PipelineNext::Done(Err(e))),
                Event::Item(Ok(d)) => {
                    let start = Cursor { frames: Vec::new(), pos: 0 };
                    proof {
                        assert(start@ == start_cursor());
                    }
                    let found = seek(&stages, start);
                    proof {
                        lemma_found_ok::<D, E>(stages@, registry, start_cursor(), d);
                    }
                    PipelineRun::dispatch(stages, registry, found, d)
                },
                _ => (PipelineRun { stages, registry, phase: RunPhase::Finished }, PipelineNext::Receive),
            },
            RunPhase::AwaitProcess(c) => match event {
                Event::Processed(Ok(d)) => {
                    let next = crate::run::past(&stages, c);
                    let ghost at = next@;
                    let found = seek(&stages, next);
                    proof {
                        lemma_found_ok::<D, E>(stages@, registry, at, d);
                    }
                    PipelineRun::dispatch(stages, registry, found, d)
                },
                Event::Processed(Err(e)) => (PipelineRun { stages, registry, phase: RunPhase::Finished }, PipelineNext::Done(Err(e))),
                _ => (PipelineRun { stages, registry, phase: RunPhase::Finished }, PipelineNext::Receive),
            },
            RunPhase::AwaitCondition(c, d) => match event {
                Event::Evaluated(Ok(taken)) => {
                    let inner = enter(c, taken);
                    let ghost at = inner@;
                    let found = seek(&stages, inner);
                    proof {
                        lemma_found_ok::<D, E>(stages@, registry, at, d);
                    }
                    PipelineRun::dispatch(stages, registry, found, d)
                },
                Event::Evaluated(Err(e)) => (PipelineRun { stages, registry, phase: RunPhase::Finished }, PipelineNext::Done(Err(e))),
                _ => (PipelineRun { stages, registry, phase: RunPhase::Finished }, PipelineNext::Receive),
            },
            _ => (PipelineRun { stages, registry, phase: RunPhase::Finished }, PipelineNext::Receive),
        }
    }
}

proof fn lemma_found_ok<D, E>(stages: Seq<Stage>, r: Registry, c: CursorView, d: D)
    requires
        stages.len() <= usize::MAX,
        stages_registered(stages, r),
        no_sink(stages),
    ensures
        match spec_seek(stages, c) {
            Some((c2, call)) => {
                &&& !(call is Sink)
                &&& phase_ok(stages, pipeline_dispatch::<D, E>(PipelineRunView { stages, registry: r, phase: Phase::Receiving }, Some((c2, call)), d).0.phase)
            },
            None => true,
        },
{
    crate::engine::lemma_seek_lands(stages, c);
    if let Some((c2, call)) = spec_seek(stages, c) {
        crate::engine::lemma_stage_no_sink(stages, c2);
    }
}

/// `p` asks the pipeline for what `f` asks the flow for; where the flow
/// gives back its results, the pipeline only says it is done.
pub open spec fn asks_alike<D, E>(p: PipelineNext<D, E>, f: crate::run::NextView<D, E>) -> bool {
    match (p, f) {
        (PipelineNext::Receive, crate::run::NextView::Receive) => true,
        (PipelineNext::Process { processor, input }, crate::run::NextView::Process { processor: q, input: i }) => processor == q && input == i,
        (PipelineNext::Evaluate { condition, input }, crate::run::NextView::Evaluate { condition: c, input: i }) => condition == c && input == i,
        (PipelineNext::Done(Ok(())), crate::run::NextView::Done(Ok(_))) => true,
        (PipelineNext::Done(Err(e)), crate::run::NextView::Done(Err(g))) => e == g,
        _ => false,
    }
}

/// Law: a pipeline runs its stages as a flow runs the same stages: at every
/// event the pipeline accepts, both move to the same phase and ask for the
/// same thing; only the flow keeps results and sends feedback.
pub proof fn law_pipeline_steps_like_flow<D, E>(p: PipelineRunView<D>, f: crate::run::FlowRunView<D>, event: Event<D, E>)
    requires
        p.stages == f.stages,
        p.registry == f.registry,
        p.phase == f.phase,
        p.stages.len() <= usize::MAX,
        stages_registered(p.stages, p.registry),
        no_sink(p.stages),
        pipeline_accepts(p.phase, event),
    ensures
        ({
            let (pw, pn) = pipeline_step(p, event);
            let (fw, fb, fnext) = crate::run::spec_step(f, event);
            &&& pw.phase == fw.phase
            &&& pw.stages == fw.stages
            &&& asks_alike(pn, fnext)
        }),
{
    match (p.phase, event) {
        (Phase::Receiving, Event::Item(Ok(d))) => {
            lemma_found_ok::<D, E>(p.stages, p.registry, start_cursor(), d);
        },
        (Phase::AwaitProcess(c), Event::Processed(Ok(d))) => {
            lemma_found_ok::<D, E>(p.stages, p.registry, spec_past(c), d);
        },
        (Phase::AwaitCondition(c, d), Event::Evaluated(Ok(taken))) => {
            lemma_found_ok::<D, E>(p.stages, p.registry, spec_enter(c, taken), d);
        },
        _ => {},
    }
}

/// Answers the calls a pipeline run asks for, at most `fuel` times, with the
/// results of the given component functions; stops as soon as the run asks
/// for something else.
pub open spec fn pipeline_drive<D, E>(
    p: PipelineRunView<D>,
    n: PipelineNext<D, E>,
    fuel: nat,
    process: spec_fn(usize, D) -> Result<D, E>,
    evaluate: spec_fn(usize, D) -> Result<bool, E>,
) -> (PipelineRunView<D>, PipelineNext<D, E>)
    decreases fuel,
{
    if fuel == 0 {
        (p, n)
    } else {
        match n {
            PipelineNext::Process { processor, input } => {
                let (w, m) = pipeline_step(p, Event::Processed(process(processor, input)));
                pipeline_drive(w, m, (fuel - 1) as nat, process, evaluate)
            },
            PipelineNext::Evaluate { condition, input } => {
                let (w, m) = pipeline_step(p, Event::Evaluated(evaluate(condition, input)));
                pipeline_drive(w, m, (fuel - 1) as nat, process, evaluate)
            },
            _ => (p, n),
        }
    }
}

/// What a pipeline run asks for fits the phase it is in.
pub open spec fn asks_from<D, E>(phase: Phase<D>, n: PipelineNext<D, E>) -> bool {
    match n {
        PipelineNext::Process { .. } => phase is AwaitProcess,
        PipelineNext::Evaluate { .. } => phase is AwaitCondition,
        PipelineNext::Receive => phase is Receiving,
        PipelineNext::Done(_) => phase is Finished,
    }
}

proof fn lemma_steps_ask_from<D, E>(p: PipelineRunView<D>, event: Event<D, E>)
    requires
        pipeline_accepts(p.phase, event),
    ensures
        ({
            let (w, n) = pipeline_step(p, event);
            asks_from(w.phase, n)
        }),
{
}

/// Driving a pipeline and a flow over the same stages with the same answers
/// keeps them alike.
proof fn lemma_drive_alike<D, E>(
    p: PipelineRunView<D>,
    pn: PipelineNext<D, E>,
    f: crate::run::FlowRunView<D>,
    fnext: crate::run::NextView<D, E>,
    fuel: nat,
    process: spec_fn(usize, D) -> Result<D, E>,
    evaluate: spec_fn(usize, D) -> Result<bool, E>,
    sink: spec_fn(usize, D) -> Result<D, E>,
)
    requires
        p.stages == f.stages,
        p.registry == f.registry,
        p.phase == f.phase,
        p.stages.len() <= usize::MAX,
        stages_registered(p.stages, p.registry),
        no_sink(p.stages),
        asks_alike(pn, fnext),
        asks_from(p.phase, pn),
    ensures
        ({
            let (pw, pm) = pipeline_drive(p, pn, fuel, process, evaluate);
            let (fw, fb, fm) = crate::laws::drive(f, fnext, fuel, process, evaluate, sink);
            pw.phase == fw.phase && asks_alike(pm, fm)
        }),
    decreases fuel,
{
    if fuel > 0 {
        let event = match pn {
            PipelineNext::Process { processor, input } => Some(Event::Processed(process(processor, input))),
            PipelineNext::Evaluate { condition, input } => Some(Event::Evaluated(evaluate(condition, input))),
            _ => None,
        };
        if let Some(ev) = event {
            law_pipeline_steps_like_flow(p, f, ev);
            lemma_steps_ask_from(p, ev);
            let (pw, pm) = pipeline_step(p, ev);
            let (fw, fb, fm) = crate::run::spec_step(f, ev);
            assert(crate::laws::answer(fnext, process, evaluate, sink) == Some(ev));
            lemma_drive_alike(pw, pm, fw, fm, (fuel - 1) as nat, process, evaluate, sink);
        }
    }
}

/// Law: a pipeline takes each item through its stages as `run_stages` says,
/// and the first error ends the run.
///
/// From a pipeline run waiting for items, an item arrives; if every call the
/// run asks for is answered by the component functions, the run comes back
/// waiting for the next item when the stages let the item through, and stops
/// with the error otherwise. A pipeline has no sinks, so the sink function
/// given to `run_stages` plays no part. The returned fuel is enough answers.
pub proof fn law_pipeline_item_follows_stages<D, E>(
    p: PipelineRunView<D>,
    d: D,
    process: spec_fn(usize, D) -> Result<D, E>,
    evaluate: spec_fn(usize, D) -> Result<bool, E>,
    sink: spec_fn(usize, D) -> Result<D, E>,
) -> (fuel: nat)
    requires
        p.phase is Receiving,
        p.stages.len() <= usize::MAX,
        stages_registered(p.stages, p.registry),
        no_sink(p.stages),
    ensures
        ({
            let (w, n) = pipeline_step(p, Event::Item(Ok(d)));
            let (x, m) = pipeline_drive(w, n, fuel, process, evaluate);
            match crate::semantics::run_stages(p.stages, d, process, evaluate, sink).0 {
                Ok(_) => x.phase is Receiving && m is Receive,
                Err(e) => x.phase is Finished && m == PipelineNext::<D, E>::Done(Err(e)),
            }
        }),
{
    let f = crate::run::FlowRunView { stages: p.stages, registry: p.registry, phase: p.phase, results: Seq::empty() };
    let ev = Event::<D, E>::Item(Ok(d));
    law_pipeline_steps_like_flow(p, f, ev);
    lemma_steps_ask_from(p, ev);
    let fuel = crate::laws::law_item_follows_stages(f, d, process, evaluate, sink);
    let (w, n) = pipeline_step(p, ev);
    let (fw, fb, fnext) = crate::run::spec_step(f, ev);
    lemma_drive_alike(w, n, fw, fnext, fuel, process, evaluate, sink);
    assert(crate::laws::drive(fw, fnext, fuel, process, evaluate, sink) == crate::laws::item_end(
        f,
        crate::semantics::run_stages(p.stages, d, process, evaluate, sink),
    ));
    fuel
}

} // verus!
