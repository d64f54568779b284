//! What running one item through a flow's stages means, stated directly.
//!
//! The components are described by three functions: what each processor,
//! condition and sink returns for a given input. The result of an item is the
//! value that comes out of the last stage, or the first error; the feedback is
//! what the stages report on the way, in order: every sink result, and the
//! error of a failing processor, condition or sink. A branch runs the side
//! its condition chooses, at any depth.
use vstd::prelude::*;
use crate::engine::{
    body_of, cursor_on_stage, lemma_enter, lemma_past, list_at, rest_of, spec_enter, spec_past,
    spec_seek, stage_at, up_cursor, CursorView,
};
use crate::stage::{no_sink, BranchStage, Stage};

verus! {

/// The outcome of one item: its result and the feedback sent on the way.
pub type Trace<D, E> = (Result<D, E>, Seq<Result<D, E>>);

/// Runs `stages` on `d`.
pub open spec fn run_stages<D, E>(
    stages: Seq<Stage>,
    d: D,
    process: spec_fn(usize, D) -> Result<D, E>,
    evaluate: spec_fn(usize, D) -> Result<bool, E>,
    sink: spec_fn(usize, D) -> Result<D, E>,
) -> Trace<D, E>
    decreases stages,
{
    if stages.len() == 0 {
        (Ok(d), Seq::empty())
    } else {
        let rest = stages.subrange(1, stages.len() as int);
        match stages[0] {
            Stage::Process(id) => match process(id, d) {
                Ok(d2) => run_stages(rest, d2, process, evaluate, sink),
                Err(e) => (Err(e), seq![Err(e)]),
            },
            Stage::Sink(id) => match sink(id, d) {
                Ok(d2) => {
                    let after = run_stages(rest, d2, process, evaluate, sink);
                    (after.0, seq![Ok(d2)] + after.1)
                },
                Err(e) => (Err(e), seq![Err(e)]),
            },
            Stage::Branch(b) => match evaluate(b.condition, d) {
                Err(e) => (Err(e), seq![Err(e)]),
                Ok(taken) => {
                    let inner = if taken {
                        run_stages(b.then_branch@, d, process, evaluate, sink)
                    } else {
                        run_stages(b.else_branch@, d, process, evaluate, sink)
                    };
                    match inner.0 {
                        Ok(d2) => {
                            let after = run_stages(rest, d2, process, evaluate, sink);
                            (after.0, inner.1 + after.1)
                        },
                        Err(_) => inner,
                    }
                },
            },
        }
    }
}

/// What is left to do for an item whose next stage is at `c`: the rest of
/// its list, then what follows each branch it is inside of.
pub open spec fn run_from<D, E>(
    stages: Seq<Stage>,
    c: CursorView,
    d: D,
    process: spec_fn(usize, D) -> Result<D, E>,
    evaluate: spec_fn(usize, D) -> Result<bool, E>,
    sink: spec_fn(usize, D) -> Result<D, E>,
) -> Trace<D, E>
    decreases c.frames.len(), 1int,
{
    let here = run_stages(rest_of(list_at(stages, c.frames), c.pos as int), d, process, evaluate, sink);
    resume(stages, c.frames, here, process, evaluate, sink)
}

/// Goes on after the innermost side in `frames` ended with `t`: a result
/// runs the stages after the branch; an error ends the item.
pub open spec fn resume<D, E>(
    stages: Seq<Stage>,
    frames: Seq<(usize, bool)>,
    t: Trace<D, E>,
    process: spec_fn(usize, D) -> Result<D, E>,
    evaluate: spec_fn(usize, D) -> Result<bool, E>,
    sink: spec_fn(usize, D) -> Result<D, E>,
) -> Trace<D, E>
    decreases frames.len(), 0int,
{
    if frames.len() == 0 {
        t
    } else {
        match t.0 {
            Ok(d2) => if frames.last().0 == usize::MAX {
                t
            } else {
                let after = run_from(stages, up_cursor(frames), d2, process, evaluate, sink);
                (after.0, t.1 + after.1)
            },
            Err(_) => t,
        }
    }
}

/// Feedback sent before the innermost side ended stays in front.
pub proof fn lemma_resume_prefix<D, E>(
    stages: Seq<Stage>,
    frames: Seq<(usize, bool)>,
    x: Trace<D, E>,
    pre: Seq<Result<D, E>>,
    process: spec_fn(usize, D) -> Result<D, E>,
    evaluate: spec_fn(usize, D) -> Result<bool, E>,
    sink: spec_fn(usize, D) -> Result<D, E>,
)
    ensures
        ({
            let r = resume(stages, frames, x, process, evaluate, sink);
            resume(stages, frames, (x.0, pre + x.1), process, evaluate, sink) == (r.0, pre + r.1)
        }),
{
    if frames.len() > 0 {
        if let Ok(d2) = x.0 {
            if frames.last().0 != usize::MAX {
                let after = run_from(stages, up_cursor(frames), d2, process, evaluate, sink);
                assert((pre + x.1) + after.1 =~= pre + (x.1 + after.1));
            }
        }
    }
}

/// Seeking keeps what is left to do: when nothing is found the item is done
/// unchanged.
pub proof fn lemma_seek_keeps_outcome<D, E>(
    stages: Seq<Stage>,
    c: CursorView,
    d: D,
    process: spec_fn(usize, D) -> Result<D, E>,
    evaluate: spec_fn(usize, D) -> Result<bool, E>,
    sink: spec_fn(usize, D) -> Result<D, E>,
)
    ensures
        match spec_seek(stages, c) {
            None => run_from(stages, c, d, process, evaluate, sink) == (Ok::<D, E>(d), Seq::<Result<D, E>>::empty()),
            Some((c2, call)) => run_from(stages, c2, d, process, evaluate, sink) == run_from(stages, c, d, process, evaluate, sink),
        },
    decreases c.frames.len(),
{
    let l = list_at(stages, c.frames);
    if c.pos >= l.len() {
        assert(rest_of(l, c.pos as int) =~= Seq::<Stage>::empty());
        if c.frames.len() > 0 && c.frames.last().0 != usize::MAX {
            let up = up_cursor(c.frames);
            lemma_seek_keeps_outcome(stages, up, d, process, evaluate, sink);
            let after = run_from(stages, up, d, process, evaluate, sink);
            assert(Seq::<Result<D, E>>::empty() + after.1 =~= after.1);
        }
    }
}

/// Running the processor or sink at `c` and going on after it.
pub proof fn lemma_call_step<D, E>(
    stages: Seq<Stage>,
    c: CursorView,
    d: D,
    process: spec_fn(usize, D) -> Result<D, E>,
    evaluate: spec_fn(usize, D) -> Result<bool, E>,
    sink: spec_fn(usize, D) -> Result<D, E>,
)
    requires
        stages.len() <= usize::MAX,
        cursor_on_stage(stages, c),
        !(stage_at(stages, c) is Branch),
    ensures
        ({
            let here = run_from(stages, c, d, process, evaluate, sink);
            match stage_at(stages, c) {
                Stage::Process(id) => match process(id, d) {
                    Ok(d2) => here == run_from(stages, spec_past(c), d2, process, evaluate, sink),
                    Err(e) => here == (Err::<D, E>(e), seq![Err::<D, E>(e)]),
                },
                Stage::Sink(id) => match sink(id, d) {
                    Ok(d2) => {
                        let next = run_from(stages, spec_past(c), d2, process, evaluate, sink);
                        here == (next.0, seq![Ok::<D, E>(d2)] + next.1)
                    },
                    Err(e) => here == (Err::<D, E>(e), seq![Err::<D, E>(e)]),
                },
                Stage::Branch(_) => true,
            }
        }),
{
    lemma_past(stages, c);
    let l = list_at(stages, c.frames);
    let rest = rest_of(l, c.pos as int);
    let after_list = rest_of(l, c.pos + 1);
    if let Stage::Sink(id) = stage_at(stages, c) {
        if let Ok(d2) = sink(id, d) {
            let x = run_stages(after_list, d2, process, evaluate, sink);
            lemma_resume_prefix(stages, c.frames, x, seq![Ok::<D, E>(d2)], process, evaluate, sink);
        }
    }
}

/// Evaluating the condition of the branch at `c` and going on with the side
/// it chooses.
pub proof fn lemma_evaluate_step<D, E>(
    stages: Seq<Stage>,
    c: CursorView,
    d: D,
    process: spec_fn(usize, D) -> Result<D, E>,
    evaluate: spec_fn(usize, D) -> Result<bool, E>,
    sink: spec_fn(usize, D) -> Result<D, E>,
)
    requires
        stages.len() <= usize::MAX,
        cursor_on_stage(stages, c),
        stage_at(stages, c) is Branch,
    ensures
        ({
            let here = run_from(stages, c, d, process, evaluate, sink);
            match evaluate(stage_at(stages, c)->Branch_0.condition, d) {
                Ok(taken) => here == run_from(stages, spec_enter(c, taken), d, process, evaluate, sink),
                Err(e) => here == (Err::<D, E>(e), seq![Err::<D, E>(e)]),
            }
        }),
{
    lemma_past(stages, c);
    let l = list_at(stages, c.frames);
    let after_list = rest_of(l, c.pos + 1);
    let b = stage_at(stages, c)->Branch_0;
    let rest = rest_of(l, c.pos as int);
    assert(rest[0] == Stage::Branch(b));
    if let Ok(taken) = evaluate(b.condition, d) {
        lemma_enter(stages, c, taken);
        let e = spec_enter(c, taken);
        let body = body_of(stage_at(stages, c), taken);
        assert(body == (if taken { b.then_branch@ } else { b.else_branch@ }));
        let inner = run_stages(body, d, process, evaluate, sink);
        assert(run_from(stages, e, d, process, evaluate, sink) == resume(stages, e.frames, inner, process, evaluate, sink));
        if let Ok(d2) = inner.0 {
            let x = run_stages(after_list, d2, process, evaluate, sink);
            assert(run_stages(rest, d, process, evaluate, sink) == (x.0, inner.1 + x.1));
            assert(run_from(stages, spec_past(c), d2, process, evaluate, sink) == resume(stages, c.frames, x, process, evaluate, sink));
            lemma_resume_prefix(stages, c.frames, x, inner.1, process, evaluate, sink);
        } else {
            assert(run_stages(rest, d, process, evaluate, sink) == inner);
        }
    }
}

/// Law: a branch nested in a branch runs like a top-level one. When the
/// outer condition chooses a side that holds just the inner branch, the
/// item goes exactly as through the inner branch alone: its condition is
/// evaluated and the side it chooses runs.
pub proof fn law_nested_branch_runs<D, E>(
    outer: BranchStage,
    inner: BranchStage,
    d: D,
    process: spec_fn(usize, D) -> Result<D, E>,
    evaluate: spec_fn(usize, D) -> Result<bool, E>,
    sink: spec_fn(usize, D) -> Result<D, E>,
)
    requires
        evaluate(outer.condition, d) matches Ok(taken) && crate::stage::branch_body(outer, taken) == seq![Stage::Branch(inner)],
    ensures
        run_stages(seq![Stage::Branch(outer)], d, process, evaluate, sink) == run_stages(seq![Stage::Branch(inner)], d, process, evaluate, sink),
{
    let one = seq![Stage::Branch(inner)];
    let top = seq![Stage::Branch(outer)];
    assert(top.subrange(1, 1) =~= Seq::<Stage>::empty());
    assert(one.subrange(1, 1) =~= Seq::<Stage>::empty());
    let t = run_stages(one, d, process, evaluate, sink);
    let taken = evaluate(outer.condition, d)->Ok_0;
    assert((if taken { outer.then_branch@ } else { outer.else_branch@ }) == one);
    if let Ok(d2) = t.0 {
        assert(run_stages(top.subrange(1, 1), d2, process, evaluate, sink) == (Ok::<D, E>(d2), Seq::<Result<D, E>>::empty()));
        assert(t.1 + Seq::<Result<D, E>>::empty() =~= t.1);
    }
}

/// Law: without sinks, only failures are reported. An item that goes through
/// sends no feedback; one that fails sends its error once.
pub proof fn law_only_sinks_report_success<D, E>(
    stages: Seq<Stage>,
    d: D,
    process: spec_fn(usize, D) -> Result<D, E>,
    evaluate: spec_fn(usize, D) -> Result<bool, E>,
    sink: spec_fn(usize, D) -> Result<D, E>,
)
    requires
        no_sink(stages),
    ensures
        ({
            let t = run_stages(stages, d, process, evaluate, sink);
            match t.0 {
                Ok(_) => t.1 == Seq::<Result<D, E>>::empty(),
                Err(e) => t.1 == seq![Err::<D, E>(e)],
            }
        }),
    decreases stages,
{
    if stages.len() > 0 {
        let rest = stages.subrange(1, stages.len() as int);
        match stages[0] {
            Stage::Process(id) => {
                if let Ok(d2) = process(id, d) {
                    law_only_sinks_report_success(rest, d2, process, evaluate, sink);
                }
            },
            Stage::Sink(_) => {},
            Stage::Branch(b) => {
                if let Ok(taken) = evaluate(b.condition, d) {
                    let body = if taken { b.then_branch@ } else { b.else_branch@ };
                    law_only_sinks_report_success(body, d, process, evaluate, sink);
                    let inner = run_stages(body, d, process, evaluate, sink);
                    if let Ok(d2) = inner.0 {
                        law_only_sinks_report_success(rest, d2, process, evaluate, sink);
                        let after = run_stages(rest, d2, process, evaluate, sink);
                        assert(inner.1 + after.1 =~= after.1);
                    }
                }
            },
        }
    }
}

} // verus!
