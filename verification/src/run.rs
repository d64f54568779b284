//! Running a flow, one decision at a time.
//!
//! Running a flow waits on things outside this library: the source stream,
//! the components, a shutdown signal. `FlowRun` makes the decisions between
//! those waits: it takes what happened (`Event`) and says what to do next
//! (`Action`): which component to call on which data, what feedback to send
//! to the source, and when the run is over.
use vstd::prelude::*;
use crate::engine::{
    cursor_on_stage, found_view, seek, spec_enter, spec_past, spec_seek, stage_at, start_cursor, Call,
    Cursor, CursorView,
};
use crate::stage::{stages_registered, stage_registered, Registry, Stage};

verus! {

/// Where a run stands, as the contracts see it.
pub enum Phase<D> {
    /// The source stream is being opened.
    Opening,
    /// Waiting for the next item from the source, or a shutdown signal.
    Receiving,
    /// Waiting for the processor at this place.
    AwaitProcess(CursorView),
    /// Waiting for the sink at this place.
    AwaitSink(CursorView),
    /// Waiting for the condition of the branch at this place; the item's
    /// data waits with it.
    AwaitCondition(CursorView, D),
    /// The run is over.
    Finished,
}

/// Where a run stands (see `Phase`).
pub enum RunPhase<D> {
    Opening,
    Receiving,
    AwaitProcess(Cursor),
    AwaitSink(Cursor),
    AwaitCondition(Cursor, D),
    Finished,
}

/// A run's phase, as the contracts see it.
pub open spec fn phase_view<D>(p: RunPhase<D>) -> Phase<D> {
    match p {
        RunPhase::Opening => Phase::Opening,
        RunPhase::Receiving => Phase::Receiving,
        RunPhase::AwaitProcess(c) => Phase::AwaitProcess(c@),
        RunPhase::AwaitSink(c) => Phase::AwaitSink(c@),
        RunPhase::AwaitCondition(c, d) => Phase::AwaitCondition(c@, d),
        RunPhase::Finished => Phase::Finished,
    }
}

/// What happened while the run waited.
pub enum Event<D, E> {
    /// The source stream was opened, or failed to open.
    Opened(Result<(), E>),
    /// The shutdown signal came before the next item.
    Shutdown,
    /// The source produced an item, or an error.
    Item(Result<D, E>),
    /// The source channel is closed.
    Closed,
    /// A processor returned.
    Processed(Result<D, E>),
    /// A condition returned whether it holds.
    Evaluated(Result<bool, E>),
    /// A sink returned.
    Sunk(Result<D, E>),
}

/// What the run asks for next.
pub enum Next<D, E> {
    /// Wait for the next item or the shutdown signal.
    Receive,
    /// Call the processor with this number on `input`.
    Process { processor: usize, input: D },
    /// Evaluate the condition with this number on `input`, a copy of the data.
    Evaluate { condition: usize, input: D },
    /// Call the sink with this number on `input`.
    Sink { sink: usize, input: D },
    /// The run is over, with the results of all items or the error that ended it.
    Done(Result<Vec<D>, E>),
}

/// The feedback to send to the source, in order, and what to do next.
pub struct Action<D, E> {
    pub feedback: Vec<Result<D, E>>,
    pub next: Next<D, E>,
}

/// What the run asks for next, as the contracts see it.
pub enum NextView<D, E> {
    Receive,
    Process { processor: usize, input: D },
    Evaluate { condition: usize, input: D },
    Sink { sink: usize, input: D },
    Done(Result<Seq<D>, E>),
}

/// A run of a flow, as the contracts see it.
pub struct FlowRunView<D> {
    pub stages: Seq<Stage>,
    pub registry: Registry,
    pub phase: Phase<D>,
    pub results: Seq<D>,
}

/// The decision state of a running flow.
pub struct FlowRun<D> {
    stages: Vec<Stage>,
    registry: Registry,
    phase: RunPhase<D>,
    results: Vec<D>,
}

impl<D> View for FlowRun<D> {
    type V = FlowRunView<D>;

    closed spec fn view(&self) -> FlowRunView<D> {
        FlowRunView { stages: self.stages@, registry: self.registry, phase: phase_view(self.phase), results: self.results@ }
    }
}

/// `b` is a copy of the result `a`.
pub open spec fn result_copy<D: Clone, E: Clone>(a: Result<D, E>, b: Result<D, E>) -> bool {
    match (a, b) {
        (Ok(x), Ok(y)) => cloned(x, y),
        (Err(x), Err(y)) => cloned(x, y),
        _ => false,
    }
}

/// The feedback sent holds copies of the expected feedback, in order.
pub open spec fn feedback_copies<D: Clone, E: Clone>(sent: Seq<Result<D, E>>, expected: Seq<Result<D, E>>) -> bool {
    &&& sent.len() == expected.len()
    &&& forall|i: int| 0 <= i < sent.len() ==> result_copy(#[trigger] expected[i], sent[i])
}

/// `n` is what `v` asks for; a condition is handed a copy of the data.
pub open spec fn next_matches<D: Clone, E>(n: Next<D, E>, v: NextView<D, E>) -> bool {
    match (n, v) {
        (Next::Receive, NextView::Receive) => true,
        (Next::Process { processor, input }, NextView::Process { processor: p, input: i }) => processor == p && input == i,
        (Next::Evaluate { condition, input }, NextView::Evaluate { condition: c, input: i }) => condition == c && cloned(i, input),
        (Next::Sink { sink, input }, NextView::Sink { sink: s, input: i }) => sink == s && input == i,
        (Next::Done(Ok(results)), NextView::Done(Ok(r))) => results@ == r,
        (Next::Done(Err(e)), NextView::Done(Err(f))) => e == f,
        _ => false,
    }
}

/// Which events a run in this phase is waiting for.
pub open spec fn accepts<D, E>(phase: Phase<D>, event: Event<D, E>) -> bool {
    match phase {
        Phase::Opening => event is Opened,
        Phase::Receiving => event is Shutdown || event is Closed || event is Item,
        Phase::AwaitProcess(_) => event is Processed,
        Phase::AwaitSink(_) => event is Sunk,
        Phase::AwaitCondition(..) => event is Evaluated,
        Phase::Finished => false,
    }
}

/// Each place the run waits at holds the stage it waits for.
pub open spec fn phase_ok<D>(stages: Seq<Stage>, phase: Phase<D>) -> bool {
    match phase {
        Phase::AwaitProcess(c) => cursor_on_stage(stages, c) && stage_at(stages, c) is Process,
        Phase::AwaitSink(c) => cursor_on_stage(stages, c) && stage_at(stages, c) is Sink,
        Phase::AwaitCondition(c, _) => cursor_on_stage(stages, c) && stage_at(stages, c) is Branch,
        _ => true,
    }
}

/// Where an item goes once the next call it needs is known: to that call,
/// or, when it needs none, to the results.
pub open spec fn spec_dispatch<D, E>(
    v: FlowRunView<D>,
    found: Option<(CursorView, Call)>,
    d: D,
) -> (FlowRunView<D>, NextView<D, E>) {
    match found {
        None => (FlowRunView { phase: Phase::Receiving, results: v.results.push(d), ..v }, NextView::Receive),
        Some((c, Call::Process(id))) => (FlowRunView { phase: Phase::AwaitProcess(c), ..v }, NextView::Process { processor: id, input: d }),
        Some((c, Call::Sink(id))) => (FlowRunView { phase: Phase::AwaitSink(c), ..v }, NextView::Sink { sink: id, input: d }),
        Some((c, Call::Evaluate(id))) => (FlowRunView { phase: Phase::AwaitCondition(c, d), ..v }, NextView::Evaluate { condition: id, input: d }),
    }
}

/// The run stops with an error: the feedback reports it as often as given.
pub open spec fn spec_fail<D, E>(v: FlowRunView<D>, e: E, reports: nat) -> (FlowRunView<D>, Seq<Result<D, E>>, NextView<D, E>) {
    (FlowRunView { phase: Phase::Finished, ..v }, Seq::new(reports, |i: int| Err(e)), NextView::Done(Err(e)))
}

/// One decision of a run: the next state, the feedback to send, and what to do next.
///
/// A failing processor, condition or sink is reported twice: once where it
/// failed and once more as the error that ends the run. A sink's result is
/// always reported. A failing source item is reported once. Opening errors,
/// the end of the source and the shutdown signal send no feedback.
pub open spec fn spec_step<D, E>(v: FlowRunView<D>, event: Event<D, E>) -> (FlowRunView<D>, Seq<Result<D, E>>, NextView<D, E>) {
    match v.phase {
        Phase::Opening => match event {
            Event::Opened(Ok(())) => (FlowRunView { phase: Phase::Receiving, ..v }, Seq::empty(), NextView::Receive),
            Event::Opened(Err(e)) => spec_fail(v, e, 0),
            _ => (v, Seq::empty(), NextView::Receive),
        },
        Phase::Receiving => match event {
            Event::Shutdown | Event::Closed => (
                FlowRunView { phase: Phase::Finished, results: Seq::empty(), ..v },
                Seq::empty(),
                NextView::Done(Ok(v.results)),
            ),
            Event::Item(Err(e)) => spec_fail(v, e, 1),
            Event::Item(Ok(d)) => {
                let (w, n) = spec_dispatch(v, spec_seek(v.stages, start_cursor()), d);
                (w, Seq::empty(), n)
            },
            _ => (v, Seq::empty(), NextView::Receive),
        },
        Phase::AwaitProcess(c) => match event {
            Event::Processed(Ok(d)) => {
                let (w, n) = spec_dispatch(v, spec_seek(v.stages, spec_past(c)), d);
                (w, Seq::empty(), n)
            },
            Event::Processed(Err(e)) => spec_fail(v, e, 2),
            _ => (v, Seq::empty(), NextView::Receive),
        },
        Phase::AwaitSink(c) => match event {
            Event::Sunk(Ok(d)) => {
                let (w, n) = spec_dispatch(v, spec_seek(v.stages, spec_past(c)), d);
                (w, seq![Ok(d)], n)
            },
            Event::Sunk(Err(e)) => spec_fail(v, e, 2),
            _ => (v, Seq::empty(), NextView::Receive),
        },
        Phase::AwaitCondition(c, d) => match event {
            Event::Evaluated(Ok(taken)) => {
                let (w, n) = spec_dispatch(v, spec_seek(v.stages, spec_enter(c, taken)), d);
                (w, Seq::empty(), n)
            },
            Event::Evaluated(Err(e)) => spec_fail(v, e, 2),
            _ => (v, Seq::empty(), NextView::Receive),
        },
        Phase::Finished => (v, Seq::empty(), NextView::Receive),
    }
}

/// Every component the run asks for is registered.
pub open spec fn next_registered<D, E>(n: NextView<D, E>, r: Registry) -> bool {
    match n {
        NextView::Process { processor, .. } => processor < r.processors,
        NextView::Evaluate { condition, .. } => condition < r.conditions,
        NextView::Sink { sink, .. } => sink < r.sinks,
        _ => true,
    }
}

impl<D> FlowRun<D> {
    pub closed spec fn wf(&self) -> bool {
        &&& stages_registered(self.stages@, self.registry)
        &&& phase_ok(self.stages@, phase_view(self.phase))
    }

    pub(crate) fn new(stages: Vec<Stage>, registry: Registry) -> (run: FlowRun<D>)
        requires
            stages_registered(stages@, registry),
        ensures
            run.wf(),
            run@ == (FlowRunView { stages: stages@, registry, phase: Phase::<D>::Opening, results: Seq::empty() }),
    {
        FlowRun { stages, registry, phase: RunPhase::Opening, results: Vec::new() }
    }

    /// Whether the run is waiting for this event.
    pub fn accepts<E>(&self, event: &Event<D, E>) -> (r: bool)
        ensures
            r == accepts(self@.phase, *event),
    {
        match &self.phase {
            RunPhase::Opening => matches!(event, Event::Opened(_)),
            RunPhase::Receiving => matches!(event, Event::Shutdown | Event::Closed | Event::Item(_)),
            RunPhase::AwaitProcess(_) => matches!(event, Event::Processed(_)),
            RunPhase::AwaitSink(_) => matches!(event, Event::Sunk(_)),
            RunPhase::AwaitCondition(..) => matches!(event, Event::Evaluated(_)),
            RunPhase::Finished => false,
        }
    }

    /// Whether the run is over.
    pub fn is_finished(&self) -> (r: bool)
        ensures
            r == (self@.phase is Finished),
    {
        matches!(self.phase, RunPhase::Finished)
    }
}

proof fn lemma_found_registered<D, E>(stages: Seq<Stage>, r: Registry, c: CursorView, d: D)
    requires
        stages.len() <= usize::MAX,
        stages_registered(stages, r),
    ensures
        match spec_seek(stages, c) {
            Some((c2, call)) => {
                &&& phase_ok(stages, spec_dispatch::<D, E>(FlowRunView { stages, registry: r, phase: Phase::Receiving, results: Seq::empty() }, Some((c2, call)), d).0.phase)
                &&& next_registered(spec_dispatch::<D, E>(FlowRunView { stages, registry: r, phase: Phase::Receiving, results: Seq::empty() }, Some((c2, call)), d).1, r)
            },
            None => true,
        },
{
    crate::engine::lemma_seek_lands(stages, c);
    if let Some((c2, call)) = spec_seek(stages, c) {
        crate::engine::lemma_stage_registered(stages, c2, r);
    }
}

pub(crate) fn past(stages: &Vec<Stage>, c: Cursor) -> (r: Cursor)
    requires
        cursor_on_stage(stages@, c@),
    ensures
        r@ == spec_past(c@),
{
    proof {
        assert(stages.len() == stages@.len());
        crate::engine::lemma_list_len(stages@, c@.frames);
    }
    Cursor { pos: c.pos + 1, frames: c.frames }
}

/// The cursor at the first stage of the side that the branch at `c` chose.
pub(crate) fn enter(c: Cursor, taken: bool) -> (r: Cursor)
    ensures
        r@ == spec_enter(c@, taken),
{
    let Cursor { frames, pos } = c;
    let mut frames = frames;
    frames.push((pos, taken));
    Cursor { frames, pos: 0 }
}

fn copy_result<D: Clone, E: Clone>(r: &Result<D, E>) -> (c: Result<D, E>)
    ensures
        result_copy(*r, c),
{
    match r {
        Ok(x) => Ok(x.clone()),
        Err(e) => Err(e.clone()),
    }
}

impl<D: Clone> FlowRun<D> {
    fn dispatch<E>(stages: Vec<Stage>, registry: Registry, results: Vec<D>, found: Option<(Cursor, Call)>, d: D) -> (r: (FlowRun<D>, Next<D, E>))
        requires
            stages_registered(stages@, registry),
            found_view(found) matches Some((c, call)) ==> phase_ok(stages@, spec_dispatch::<D, E>(FlowRunView { stages: stages@, registry, phase: Phase::Receiving, results: results@ }, found_view(found), d).0.phase),
        ensures
            r.0.wf(),
            ({
                let (w, n) = spec_dispatch::<D, E>(FlowRunView { stages: stages@, registry, phase: Phase::Receiving, results: results@ }, found_view(found), d);
                r.0@ == w && next_matches(r.1, n)
            }),
    {
        match found {
            None => {
                let mut results = results;
                results.push(d);
                (FlowRun { stages, registry, phase: RunPhase::Receiving, results }, Next::Receive)
            },
            Some((c, Call::Process(id))) => (FlowRun { stages, registry, phase: RunPhase::AwaitProcess(c), results }, Next::Process { processor: id, input: d }),
            Some((c, Call::Sink(id))) => (FlowRun { stages, registry, phase: RunPhase::AwaitSink(c), results }, Next::Sink { sink: id, input: d }),
            Some((c, Call::Evaluate(id))) => {
                let input = d.clone();
                (FlowRun { stages, registry, phase: RunPhase::AwaitCondition(c, d), results }, Next::Evaluate { condition: id, input })
            },
        }
    }

    fn fail<E: Clone>(stages: Vec<Stage>, registry: Registry, results: Vec<D>, e: E, reports: usize) -> (r: (FlowRun<D>, Action<D, E>))
        requires
            stages_registered(stages@, registry),
        ensures
            r.0.wf(),
            ({
                let (w, fb, n) = spec_fail::<D, E>(FlowRunView { stages: stages@, registry, phase: Phase::Receiving, results: results@ }, e, reports as nat);
                r.0@ == w && feedback_copies(r.1.feedback@, fb) && next_matches(r.1.next, n)
            }),
    {
        let mut feedback: Vec<Result<D, E>> = Vec::new();
        let mut k: usize = 0;
        while k < reports
            invariant
                k <= reports,
                feedback@.len() == k,
                forall|i: int| 0 <= i < k ==> result_copy(Err::<D, E>(e), #[trigger] feedback@[i]),
            decreases reports - k,
        {
            feedback.push(Err(e.clone()));
            k = k + 1;
        }
        let ghost expected = Seq::new(reports as nat, |i: int| Err::<D, E>(e));
        assert forall|i: int| 0 <= i < feedback@.len() implies result_copy(#[trigger] expected[i], feedback@[i]) by {
            assert(expected[i] == Err::<D, E>(e));
        }
        (FlowRun { stages, registry, phase: RunPhase::Finished, results }, Action { feedback, next: Next::Done(Err(e)) })
    }

    /// Takes one decision: given what happened, returns the new state, the
    /// feedback to send and what to do next (see `spec_step`).
    pub fn step<E: Clone>(self, event: Event<D, E>) -> (r: (FlowRun<D>, Action<D, E>))
        requires
            self.wf(),
            accepts(self@.phase, event),
        ensures
            r.0.wf(),
            ({
                let (w, fb, n) = spec_step(self@, event);
                &&& r.0@ == w
                &&& feedback_copies(r.1.feedback@, fb)
                &&& next_matches(r.1.next, n)
                &&& next_registered(n, self@.registry)
            }),
    {
        let ghost old_view = self@;
        let FlowRun { stages, registry, phase, results } = self;
        proof {
            assert(stages@.len() <= usize::MAX) by {
                assert(stages.len() == stages@.len());
            }
        }
        match phase {
            RunPhase::Opening => match event {
                Event::Opened(Ok(())) => (
                    FlowRun { stages, registry, phase: RunPhase::Receiving, results },
                    Action { feedback: Vec::new(), next: Next::Receive },
                ),
                Event::Opened(Err(e)) => FlowRun::fail(stages, registry, results, e, 0),
                _ => {
                    proof { assert(false); }
                    (FlowRun { stages, registry, phase: RunPhase::Finished, results }, Action { feedback: Vec::new(), next: Next::Receive })
                },
            },
            RunPhase::Receiving => match event {
                Event::Shutdown | Event::Closed => (
                    FlowRun { stages, registry, phase: RunPhase::Finished, results: Vec::new() },
                    Action { feedback: Vec::new(), next: Next::Done(Ok(results)) },
                ),
                Event::Item(Err(e)) => FlowRun::fail(stages, registry, results, e, 1),
                Event::Item(Ok(d)) => {
                    let start = Cursor { frames: Vec::new(), pos: 0 };
                    proof {
                        assert(start@ == start_cursor());
                    }
                    let found = seek(&stages, start);
                    proof {
                        lemma_found_registered::<D, E>(stages@, registry, start_cursor(), d);
                    }
                    let (run, next) = FlowRun::dispatch(stages, registry, results, found, d);
                    (run, Action { feedback: Vec::new(), next })
                },
                _ => {
                    proof { assert(false); }
                    (FlowRun { stages, registry, phase: RunPhase::Finished, results }, Action { feedback: Vec::new(), next: Next::Receive })
                },
            },
            RunPhase::AwaitProcess(c) => match event {
                Event::Processed(Ok(d)) => {
                    let next = past(&stages, c);
                    let ghost at = next@;
                    let found = seek(&stages, next);
                    proof {
                        lemma_found_registered::<D, E>(stages@, registry, at, d);
                    }
                    let (run, next) = FlowRun::dispatch(stages, registry, results, found, d);
                    (run, Action { feedback: Vec::new(), next })
                },
                Event::Processed(Err(e)) => FlowRun::fail(stages, registry, results, e, 2),
                _ => {
                    proof { assert(false); }
                    (FlowRun { stages, registry, phase: RunPhase::Finished, results }, Action { feedback: Vec::new(), next: Next::Receive })
                },
            },
            RunPhase::AwaitSink(c) => match event {
                Event::Sunk(Ok(d)) => {
                    let report: Result<D, E> = Ok(d.clone());
                    let next = past(&stages, c);
                    let ghost at = next@;
                    let found = seek(&stages, next);
                    proof {
                        lemma_found_registered::<D, E>(stages@, registry, at, d);
                    }
                    let (run, next) = FlowRun::dispatch(stages, registry, results, found, d);
                    let mut feedback = Vec::new();
                    feedback.push(report);
                    proof {
                        assert(feedback@ =~= seq![report]);
                    }
                    (run, Action { feedback, next })
                },
                Event::Sunk(Err(e)) => FlowRun::fail(stages, registry, results, e, 2),
                _ => {
                    proof { assert(false); }
                    (FlowRun { stages, registry, phase: RunPhase::Finished, results }, Action { feedback: Vec::new(), next: Next::Receive })
                },
            },
            RunPhase::AwaitCondition(c, d) => match event {
                Event::Evaluated(Ok(taken)) => {
                    let inner = enter(c, taken);
                    let ghost at = inner@;
                    let found = seek(&stages, inner);
                    proof {
                        lemma_found_registered::<D, E>(stages@, registry, at, d);
                    }
                    let (run, next) = FlowRun::dispatch(stages, registry, results, found, d);
                    (run, Action { feedback: Vec::new(), next })
                },
                Event::Evaluated(Err(e)) => FlowRun::fail(stages, registry, results, e, 2),
                _ => {
                    proof { assert(false); }
                    (FlowRun { stages, registry, phase: RunPhase::Finished, results }, Action { feedback: Vec::new(), next: Next::Receive })
                },
            },
            RunPhase::Finished => {
                proof { assert(false); }
                (FlowRun { stages, registry, phase: RunPhase::Finished, results }, Action { feedback: Vec::new(), next: Next::Receive })
            },
        }
    }
}

} // verus!
