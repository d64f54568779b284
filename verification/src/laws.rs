//! What a run computes for each item.
//!
//! `drive` plays the part of the outside world: it answers every call a run
//! asks for with what the given component functions return, and
//! `drive_stream` also hands it the source items. The laws of this file say
//! that a run then does, item by item, exactly what `run_stages` says: it
//! sends the feedback of the stages, keeps the item's result, or stops with
//! the first error, reported once more; and over a whole stream it gives back
//! the results in arrival order, as `run_items` says, whether the stream
//! ends or the shutdown signal stops it.
use vstd::prelude::*;
use crate::engine::{
    lemma_enter, lemma_past, lemma_seek_lands, remaining, spec_enter, spec_past, spec_seek,
    start_cursor, Call, CursorView,
};
use crate::run::{spec_dispatch, spec_step, Event, FlowRunView, NextView, Phase};
use crate::semantics::{lemma_call_step, lemma_evaluate_step, lemma_seek_keeps_outcome, run_from, run_stages, Trace};
use crate::stage::Stage;

verus! {

/// The event that answers the call `n` with what the component functions
/// give; `None` when `n` is no call.
pub open spec fn answer<D, E>(
    n: NextView<D, E>,
    process: spec_fn(usize, D) -> Result<D, E>,
    evaluate: spec_fn(usize, D) -> Result<bool, E>,
    sink: spec_fn(usize, D) -> Result<D, E>,
) -> Option<Event<D, E>> {
    match n {
        NextView::Process { processor, input } => Some(Event::Processed(process(processor, input))),
        NextView::Evaluate { condition, input } => Some(Event::Evaluated(evaluate(condition, input))),
        NextView::Sink { sink: id, input } => Some(Event::Sunk(sink(id, input))),
        _ => None,
    }
}

/// Answers the calls a run asks for, at most `fuel` times, with the results
/// of the given component functions; stops as soon as the run asks for
/// something else. Gives the state reached, all feedback sent on the way,
/// and what the run asks for at that point.
pub open spec fn drive<D, E>(
    v: FlowRunView<D>,
    n: NextView<D, E>,
    fuel: nat,
    process: spec_fn(usize, D) -> Result<D, E>,
    evaluate: spec_fn(usize, D) -> Result<bool, E>,
    sink: spec_fn(usize, D) -> Result<D, E>,
) -> (FlowRunView<D>, Seq<Result<D, E>>, NextView<D, E>)
    decreases fuel,
{
    if fuel == 0 {
        (v, Seq::empty(), n)
    } else {
        match answer(n, process, evaluate, sink) {
            Some(ev) => {
                let (w, fb, m) = spec_step(v, ev);
                let (x, fb2, m2) = drive(w, m, (fuel - 1) as nat, process, evaluate, sink);
                (x, fb + fb2, m2)
            },
            None => (v, Seq::empty(), n),
        }
    }
}

/// Each of the `fuel` answers `drive` gives goes to a call: no fuel is
/// left over once the run asks for something else.
pub open spec fn drive_exact<D, E>(
    v: FlowRunView<D>,
    n: NextView<D, E>,
    fuel: nat,
    process: spec_fn(usize, D) -> Result<D, E>,
    evaluate: spec_fn(usize, D) -> Result<bool, E>,
    sink: spec_fn(usize, D) -> Result<D, E>,
) -> bool
    decreases fuel,
{
    fuel > 0 ==> match answer(n, process, evaluate, sink) {
        Some(ev) => {
            let (w, fb, m) = spec_step(v, ev);
            drive_exact(w, m, (fuel - 1) as nat, process, evaluate, sink)
        },
        None => false,
    }
}

/// Where a run stands once an item with outcome `t` is through: the result
/// joins the others and the run waits for the next item, or the run stops
/// with the error, which is reported once more.
pub open spec fn item_end<D, E>(v: FlowRunView<D>, t: Trace<D, E>) -> (FlowRunView<D>, Seq<Result<D, E>>, NextView<D, E>) {
    match t.0 {
        Ok(d) => (FlowRunView { phase: Phase::Receiving, results: v.results.push(d), ..v }, t.1, NextView::Receive),
        Err(e) => (FlowRunView { phase: Phase::Finished, ..v }, t.1 + seq![Err(e)], NextView::Done(Err(e))),
    }
}

/// Once a run asks for something other than a call, more fuel changes nothing.
proof fn lemma_drive_settled<D, E>(
    v: FlowRunView<D>,
    n: NextView<D, E>,
    fuel: nat,
    more: nat,
    process: spec_fn(usize, D) -> Result<D, E>,
    evaluate: spec_fn(usize, D) -> Result<bool, E>,
    sink: spec_fn(usize, D) -> Result<D, E>,
)
    requires
        fuel <= more,
        ({
            let r = drive(v, n, fuel, process, evaluate, sink).2;
            r is Receive || r is Done
        }),
    ensures
        drive(v, n, more, process, evaluate, sink) == drive(v, n, fuel, process, evaluate, sink),
    decreases fuel,
{
    if fuel == 0 {
        if more > 0 {
            assert(drive(v, n, more, process, evaluate, sink) == (v, Seq::<Result<D, E>>::empty(), n));
        }
    } else {
        if let Some(ev) = answer(n, process, evaluate, sink) {
            let (w, fb, m) = spec_step(v, ev);
            lemma_drive_settled(w, m, (fuel - 1) as nat, (more - 1) as nat, process, evaluate, sink);
        }
    }
}

/// A failing call is reported twice: where it failed, and as the end of the run.
proof fn lemma_fail_end<D, E>(v: FlowRunView<D>, e: E)
    ensures
        crate::run::spec_fail::<D, E>(v, e, 2).1 =~= seq![Err::<D, E>(e)] + seq![Err::<D, E>(e)],
{
}

/// From a place `c` in an item, with data `d`, the run reaches the end of the
/// item that `run_from` describes.
proof fn lemma_drive_from<D, E>(
    v: FlowRunView<D>,
    c: CursorView,
    d: D,
    process: spec_fn(usize, D) -> Result<D, E>,
    evaluate: spec_fn(usize, D) -> Result<bool, E>,
    sink: spec_fn(usize, D) -> Result<D, E>,
) -> (fuel: nat)
    requires
        v.stages.len() <= usize::MAX,
    ensures
        ({
            let (w, n) = spec_dispatch::<D, E>(v, spec_seek(v.stages, c), d);
            &&& drive(w, n, fuel, process, evaluate, sink) == item_end(v, run_from(v.stages, c, d, process, evaluate, sink))
            &&& drive_exact(w, n, fuel, process, evaluate, sink)
        }),
    decreases remaining(v.stages, c),
{
    let stages = v.stages;
    lemma_seek_keeps_outcome(stages, c, d, process, evaluate, sink);
    lemma_seek_lands(stages, c);
    match spec_seek(stages, c) {
        None => {
            0
        },
        Some((c2, call)) => {
            let (w, n) = spec_dispatch::<D, E>(v, Some((c2, call)), d);
            lemma_past(stages, c2);
            match call {
                Call::Process(id) => {
                    lemma_call_step(stages, c2, d, process, evaluate, sink);
                    match process(id, d) {
                        Ok(d2) => {
                            let next = spec_past(c2);
                            let f = lemma_drive_from(v, next, d2, process, evaluate, sink);
                            let (w2, n2) = spec_dispatch::<D, E>(v, spec_seek(stages, next), d2);
                            assert(spec_step(w, Event::Processed(process(id, d))) == (w2, Seq::<Result<D, E>>::empty(), n2));
                            assert(Seq::<Result<D, E>>::empty() + drive(w2, n2, f, process, evaluate, sink).1 =~= drive(w2, n2, f, process, evaluate, sink).1);
                            assert(drive_exact(w2, n2, f, process, evaluate, sink));
                            f + 1
                        },
                        Err(e) => {
                            lemma_fail_end::<D, E>(w, e);
                            let (w2, fb, n2) = spec_step(w, Event::Processed(process(id, d)));
                            assert(drive(w2, n2, 0, process, evaluate, sink) == (w2, Seq::<Result<D, E>>::empty(), n2));
                            assert(fb + Seq::<Result<D, E>>::empty() =~= fb);
                            assert(drive_exact(w2, n2, 0, process, evaluate, sink));
                            1
                        },
                    }
                },
                Call::Sink(id) => {
                    lemma_call_step(stages, c2, d, process, evaluate, sink);
                    match sink(id, d) {
                        Ok(d2) => {
                            let next = spec_past(c2);
                            let f = lemma_drive_from(v, next, d2, process, evaluate, sink);
                            let (w2, n2) = spec_dispatch::<D, E>(v, spec_seek(stages, next), d2);
                            assert(spec_step(w, Event::Sunk(sink(id, d))) == (w2, seq![Ok::<D, E>(d2)], n2));
                            assert(drive_exact(w2, n2, f, process, evaluate, sink));
                            f + 1
                        },
                        Err(e) => {
                            lemma_fail_end::<D, E>(w, e);
                            let (w2, fb, n2) = spec_step(w, Event::Sunk(sink(id, d)));
                            assert(drive(w2, n2, 0, process, evaluate, sink) == (w2, Seq::<Result<D, E>>::empty(), n2));
                            assert(fb + Seq::<Result<D, E>>::empty() =~= fb);
                            assert(drive_exact(w2, n2, 0, process, evaluate, sink));
                            1
                        },
                    }
                },
                Call::Evaluate(id) => {
                    lemma_evaluate_step(stages, c2, d, process, evaluate, sink);
                    match evaluate(id, d) {
                        Ok(taken) => {
                            let next = spec_enter(c2, taken);
                            lemma_enter(stages, c2, taken);
                            let f = lemma_drive_from(v, next, d, process, evaluate, sink);
                            let (w2, n2) = spec_dispatch::<D, E>(v, spec_seek(stages, next), d);
                            assert(Seq::<Result<D, E>>::empty() + drive(w2, n2, f, process, evaluate, sink).1 =~= drive(w2, n2, f, process, evaluate, sink).1);
                            assert(drive_exact(w2, n2, f, process, evaluate, sink));
                            f + 1
                        },
                        Err(e) => {
                            lemma_fail_end::<D, E>(w, e);
                            let (w2, fb, n2) = spec_step(w, Event::Evaluated(evaluate(id, d)));
                            assert(drive(w2, n2, 0, process, evaluate, sink) == (w2, Seq::<Result<D, E>>::empty(), n2));
                            assert(fb + Seq::<Result<D, E>>::empty() =~= fb);
                            assert(drive_exact(w2, n2, 0, process, evaluate, sink));
                            1
                        },
                    }
                },
            }
        },
    }
}

/// Law: a run takes each item through the stages as `run_stages` says.
///
/// From a run waiting for items, an item arrives; if every call the run then
/// asks for is answered with what the component functions give, the run
/// ends the item where `item_end` says: the feedback of the stages is sent,
/// and the item's result is kept for the final results; or, when a stage
/// fails, the run stops with that error after reporting it once more.
/// The returned fuel is enough answers; more change nothing.
pub proof fn law_item_follows_stages<D, E>(
    v: FlowRunView<D>,
    d: D,
    process: spec_fn(usize, D) -> Result<D, E>,
    evaluate: spec_fn(usize, D) -> Result<bool, E>,
    sink: spec_fn(usize, D) -> Result<D, E>,
) -> (fuel: nat)
    requires
        v.phase is Receiving,
        v.stages.len() <= usize::MAX,
    ensures
        ({
            let (w, fb, n) = spec_step(v, Event::Item(Ok(d)));
            &&& fb.len() == 0
            &&& drive_exact(w, n, fuel, process, evaluate, sink)
            &&& forall|more: nat| more >= fuel ==> #[trigger] drive(w, n, more, process, evaluate, sink) == item_end(v, run_stages(v.stages, d, process, evaluate, sink))
        }),
{
    let fuel = lemma_drive_from(v, start_cursor(), d, process, evaluate, sink);
    let stages = v.stages;
    if stages.len() > 0 {
        assert(stages.subrange(0, stages.len() as int) =~= stages);
    } else {
        assert(stages =~= Seq::<Stage>::empty());
    }
    assert(run_from(stages, start_cursor(), d, process, evaluate, sink) == run_stages(stages, d, process, evaluate, sink));
    let (w, fb, n) = spec_step(v, Event::Item(Ok(d)));
    assert forall|more: nat| more >= fuel implies #[trigger] drive(w, n, more, process, evaluate, sink) == item_end(v, run_stages(v.stages, d, process, evaluate, sink)) by {
        lemma_drive_settled(w, n, fuel, more, process, evaluate, sink);
    }
    fuel
}

/// Answers a run's calls with the component functions and its requests for
/// items with `items`, in order, then with the end of the source; at most
/// `fuel` times. Gives the state reached, all feedback sent, and what the
/// run asks for at that point.
pub open spec fn drive_stream<D, E>(
    v: FlowRunView<D>,
    n: NextView<D, E>,
    items: Seq<Result<D, E>>,
    fuel: nat,
    process: spec_fn(usize, D) -> Result<D, E>,
    evaluate: spec_fn(usize, D) -> Result<bool, E>,
    sink: spec_fn(usize, D) -> Result<D, E>,
) -> (FlowRunView<D>, Seq<Result<D, E>>, NextView<D, E>) {
    drive_stream_until(v, n, items, Event::Closed, fuel, process, evaluate, sink)
}

/// As `drive_stream`, but once the items are used up the run is handed
/// `end`: the end of the source, or the shutdown signal.
pub open spec fn drive_stream_until<D, E>(
    v: FlowRunView<D>,
    n: NextView<D, E>,
    items: Seq<Result<D, E>>,
    end: Event<D, E>,
    fuel: nat,
    process: spec_fn(usize, D) -> Result<D, E>,
    evaluate: spec_fn(usize, D) -> Result<bool, E>,
    sink: spec_fn(usize, D) -> Result<D, E>,
) -> (FlowRunView<D>, Seq<Result<D, E>>, NextView<D, E>)
    decreases fuel,
{
    if fuel == 0 {
        (v, Seq::empty(), n)
    } else {
        let (event, rest) = match n {
            NextView::Receive => if items.len() > 0 {
                (Some(Event::Item(items[0])), items.drop_first())
            } else {
                (Some(end), items)
            },
            _ => (answer(n, process, evaluate, sink), items),
        };
        match event {
            Some(ev) => {
                let (w, fb, m) = spec_step(v, ev);
                let (x, fb2, m2) = drive_stream_until(w, m, rest, end, (fuel - 1) as nat, process, evaluate, sink);
                (x, fb + fb2, m2)
            },
            None => (v, Seq::empty(), n),
        }
    }
}

/// What a flow gives for the source items `items` when the results so far
/// are `results`: the results of all items in order, or the first error;
/// and the feedback sent, in order. A failing item stops the flow.
pub open spec fn run_items<D, E>(
    stages: Seq<Stage>,
    results: Seq<D>,
    items: Seq<Result<D, E>>,
    process: spec_fn(usize, D) -> Result<D, E>,
    evaluate: spec_fn(usize, D) -> Result<bool, E>,
    sink: spec_fn(usize, D) -> Result<D, E>,
) -> (Result<Seq<D>, E>, Seq<Result<D, E>>)
    decreases items.len(),
{
    if items.len() == 0 {
        (Ok(results), Seq::empty())
    } else {
        match items[0] {
            Err(e) => (Err(e), seq![Err(e)]),
            Ok(d) => {
                let t = run_stages(stages, d, process, evaluate, sink);
                match t.0 {
                    Err(e) => (Err(e), t.1 + seq![Err(e)]),
                    Ok(d2) => {
                        let r = run_items(stages, results.push(d2), items.drop_first(), process, evaluate, sink);
                        (r.0, t.1 + r.1)
                    },
                }
            },
        }
    }
}

/// While the run is in an item, the source is not read: `drive_stream`
/// does what `drive` does, then goes on.
proof fn lemma_stream_through_item<D, E>(
    w: FlowRunView<D>,
    n: NextView<D, E>,
    items: Seq<Result<D, E>>,
    end: Event<D, E>,
    f: nat,
    g: nat,
    process: spec_fn(usize, D) -> Result<D, E>,
    evaluate: spec_fn(usize, D) -> Result<bool, E>,
    sink: spec_fn(usize, D) -> Result<D, E>,
)
    requires
        drive_exact(w, n, f, process, evaluate, sink),
    ensures
        ({
            let (x, fb, m) = drive(w, n, f, process, evaluate, sink);
            let (y, fb2, m2) = drive_stream_until(x, m, items, end, g, process, evaluate, sink);
            drive_stream_until(w, n, items, end, f + g, process, evaluate, sink) == (y, fb + fb2, m2)
        }),
    decreases f,
{
    let (x, fb, m) = drive(w, n, f, process, evaluate, sink);
    let (y, fb2, m2) = drive_stream_until(x, m, items, end, g, process, evaluate, sink);
    if f == 0 {
        assert(Seq::<Result<D, E>>::empty() + fb2 =~= fb2);
    } else {
        let ev = answer(n, process, evaluate, sink)->0;
        let (w1, fb1, n1) = spec_step(w, ev);
        lemma_stream_through_item(w1, n1, items, end, (f - 1) as nat, g, process, evaluate, sink);
        let (x1, fbx, m1) = drive(w1, n1, (f - 1) as nat, process, evaluate, sink);
        assert(((f + g) - 1) as nat == ((f - 1) as nat + g));
        assert(fb1 + (fbx + fb2) =~= (fb1 + fbx) + fb2);
    }
}

/// A run that has stopped asks for nothing more.
proof fn lemma_stream_done<D, E>(
    v: FlowRunView<D>,
    e: Result<Seq<D>, E>,
    items: Seq<Result<D, E>>,
    end: Event<D, E>,
    fuel: nat,
    process: spec_fn(usize, D) -> Result<D, E>,
    evaluate: spec_fn(usize, D) -> Result<bool, E>,
    sink: spec_fn(usize, D) -> Result<D, E>,
)
    ensures
        drive_stream_until(v, NextView::Done(e), items, end, fuel, process, evaluate, sink) == (v, Seq::<Result<D, E>>::empty(), NextView::<D, E>::Done(e)),
{
}

proof fn lemma_stream_from<D, E>(
    v: FlowRunView<D>,
    items: Seq<Result<D, E>>,
    end: Event<D, E>,
    process: spec_fn(usize, D) -> Result<D, E>,
    evaluate: spec_fn(usize, D) -> Result<bool, E>,
    sink: spec_fn(usize, D) -> Result<D, E>,
) -> (fuel: nat)
    requires
        v.phase is Receiving,
        v.stages.len() <= usize::MAX,
        end is Closed || end is Shutdown,
    ensures
        ({
            let out = drive_stream_until(v, NextView::Receive, items, end, fuel, process, evaluate, sink);
            let expected = run_items(v.stages, v.results, items, process, evaluate, sink);
            out.1 == expected.1 && out.2 == NextView::<D, E>::Done(expected.0)
        }),
    decreases items.len(),
{
    if items.len() == 0 {
        let (w, fb, m) = spec_step(v, end);
        lemma_stream_done(w, Ok(v.results), items, end, 0, process, evaluate, sink);
        assert(fb + Seq::<Result<D, E>>::empty() =~= fb);
        1
    } else {
        let rest = items.drop_first();
        match items[0] {
            Err(e) => {
                let (w, fb, m) = spec_step(v, Event::<D, E>::Item(Err(e)));
                lemma_stream_done(w, Err(e), rest, end, 0, process, evaluate, sink);
                assert(fb =~= seq![Err::<D, E>(e)]);
                assert(fb + Seq::<Result<D, E>>::empty() =~= fb);
                1
            },
            Ok(d) => {
                let (w, fb, n) = spec_step(v, Event::<D, E>::Item(Ok(d)));
                let f = law_item_follows_stages(v, d, process, evaluate, sink);
                let t = run_stages(v.stages, d, process, evaluate, sink);
                let (x, fbi, m) = drive(w, n, f, process, evaluate, sink);
                assert(drive(w, n, f, process, evaluate, sink) == item_end(v, t));
                match t.0 {
                    Err(e) => {
                        lemma_stream_through_item(w, n, rest, end, f, 0, process, evaluate, sink);
                        assert(Seq::<Result<D, E>>::empty() + (fbi + Seq::<Result<D, E>>::empty()) =~= fbi);
                        f + 1
                    },
                    Ok(d2) => {
                        let v2 = FlowRunView { phase: Phase::Receiving, results: v.results.push(d2), ..v };
                        let g = lemma_stream_from(v2, rest, end, process, evaluate, sink);
                        lemma_stream_through_item(w, n, rest, end, f, g, process, evaluate, sink);
                        let out2 = drive_stream_until(v2, NextView::Receive, rest, end, g, process, evaluate, sink);
                        assert(Seq::<Result<D, E>>::empty() + (fbi + out2.1) =~= fbi + out2.1);
                        f + g + 1
                    },
                }
            },
        }
    }
}

/// Law: a flow run gives back, in order, what each source item becomes.
///
/// A run that was started and whose source opened, when fed the source items
/// `items` and then the end of the source, with every call answered by the
/// component functions, stops with what `run_items` says: the results of all
/// items in arrival order, or the first error; and it sends exactly the
/// feedback `run_items` lists. The returned fuel is enough steps.
pub proof fn law_run_follows_items<D, E>(
    v: FlowRunView<D>,
    items: Seq<Result<D, E>>,
    process: spec_fn(usize, D) -> Result<D, E>,
    evaluate: spec_fn(usize, D) -> Result<bool, E>,
    sink: spec_fn(usize, D) -> Result<D, E>,
) -> (fuel: nat)
    requires
        v.phase is Opening,
        v.results.len() == 0,
        v.stages.len() <= usize::MAX,
    ensures
        ({
            let (w, fb, n) = spec_step(v, Event::Opened(Ok(())));
            let out = drive_stream(w, n, items, fuel, process, evaluate, sink);
            let expected = run_items(v.stages, Seq::empty(), items, process, evaluate, sink);
            &&& fb.len() == 0
            &&& out.1 == expected.1
            &&& out.2 == NextView::<D, E>::Done(expected.0)
        }),
{
    let (w, fb, n) = spec_step(v, Event::<D, E>::Opened(Ok(())));
    assert(v.results =~= Seq::<D>::empty());
    lemma_stream_from(w, items, Event::Closed, process, evaluate, sink)
}

/// Law: the shutdown signal keeps what the run has done. A run that was
/// started and whose source opened, fed the source items `items` and then
/// the shutdown signal, with every call answered by the component
/// functions, stops exactly as when the source ends there: with the results
/// of all those items in arrival order, or the first error, and the
/// feedback `run_items` lists. The signal itself sends no feedback.
pub proof fn law_shutdown_keeps_results<D, E>(
    v: FlowRunView<D>,
    items: Seq<Result<D, E>>,
    process: spec_fn(usize, D) -> Result<D, E>,
    evaluate: spec_fn(usize, D) -> Result<bool, E>,
    sink: spec_fn(usize, D) -> Result<D, E>,
) -> (fuel: nat)
    requires
        v.phase is Opening,
        v.results.len() == 0,
        v.stages.len() <= usize::MAX,
    ensures
        ({
            let (w, fb, n) = spec_step(v, Event::Opened(Ok(())));
            let out = drive_stream_until(w, n, items, Event::Shutdown, fuel, process, evaluate, sink);
            let expected = run_items(v.stages, Seq::empty(), items, process, evaluate, sink);
            &&& out.1 == expected.1
            &&& out.2 == NextView::<D, E>::Done(expected.0)
        }),
{
    let (w, fb, n) = spec_step(v, Event::<D, E>::Opened(Ok(())));
    assert(v.results =~= Seq::<D>::empty());
    lemma_stream_from(w, items, Event::Shutdown, process, evaluate, sink)
}

/// Law: a run waiting for an item that gets the shutdown signal stops and
/// gives back the results of every item it has taken through, with no
/// feedback, as when the source ends.
pub proof fn law_shutdown_gives_results<D, E>(v: FlowRunView<D>)
    requires
        v.phase is Receiving,
    ensures
        spec_step(v, Event::<D, E>::Shutdown) == spec_step(v, Event::<D, E>::Closed),
        spec_step(v, Event::<D, E>::Shutdown).1.len() == 0,
        spec_step(v, Event::<D, E>::Shutdown).2 == NextView::<D, E>::Done(Ok(v.results)),
{
}

} // verus!
