//! Walking one data item through a flow's stages.
//!
//! A cursor marks the stage that runs next. Its frames are the path to the
//! list that holds that stage: for each branch entered on the way down, the
//! index of the branch in the list above and the side its condition chose.
//! `seek` moves the cursor to the next stage that needs a component call,
//! climbing out of each side once its stages are done.
use vstd::prelude::*;
use crate::stage::{
    branch_body, lemma_no_sink_each, lemma_registered_each, no_sink, stage_registered, stage_without_sink,
    stages_registered, tree_size, Registry, Stage,
};

verus! {

/// Where an item stands in a flow's stages.
pub struct Cursor {
    /// The branches entered, outermost first: index in the list above, side taken.
    pub frames: Vec<(usize, bool)>,
    /// Position in the list the frames lead to.
    pub pos: usize,
}

/// A cursor, as the contracts see it.
pub struct CursorView {
    pub frames: Seq<(usize, bool)>,
    pub pos: usize,
}

impl View for Cursor {
    type V = CursorView;

    open spec fn view(&self) -> CursorView {
        CursorView { frames: self.frames@, pos: self.pos }
    }
}

/// A component call that the item needs next.
#[derive(Clone, Copy)]
pub enum Call {
    Process(usize),
    Evaluate(usize),
    Sink(usize),
}

/// The call that running a stage starts with.
pub open spec fn stage_call(s: Stage) -> Call {
    match s {
        Stage::Process(id) => Call::Process(id),
        Stage::Sink(id) => Call::Sink(id),
        Stage::Branch(b) => Call::Evaluate(b.condition),
    }
}

/// The side of a branch stage chosen by `taken` (empty for other stages).
pub open spec fn body_of(s: Stage, taken: bool) -> Seq<Stage> {
    match s {
        Stage::Branch(b) => branch_body(b, taken),
        _ => Seq::empty(),
    }
}

/// The list of stages that `frames` lead to from the top-level `stages`;
/// empty where a frame names no branch.
pub open spec fn list_at(stages: Seq<Stage>, frames: Seq<(usize, bool)>) -> Seq<Stage>
    decreases frames.len(),
{
    if frames.len() == 0 {
        stages
    } else {
        let up = list_at(stages, frames.drop_last());
        let i = frames.last().0;
        if i < up.len() {
            body_of(up[i as int], frames.last().1)
        } else {
            Seq::empty()
        }
    }
}

/// The first stage of an item: position 0 of the top-level list.
pub open spec fn start_cursor() -> CursorView {
    CursorView { frames: Seq::empty(), pos: 0 }
}

/// Where an item goes once the innermost side in `frames` is done: just
/// after the branch it left.
pub open spec fn up_cursor(frames: Seq<(usize, bool)>) -> CursorView {
    CursorView { frames: frames.drop_last(), pos: (frames.last().0 + 1) as usize }
}

/// The cursor just after the stage at `c`.
pub open spec fn spec_past(c: CursorView) -> CursorView {
    CursorView { pos: (c.pos + 1) as usize, ..c }
}

/// The first stage of the side that the branch at `c` chose.
pub open spec fn spec_enter(c: CursorView, taken: bool) -> CursorView {
    CursorView { frames: c.frames.push((c.pos, taken)), pos: 0 }
}

/// The cursor has a stage under it.
pub open spec fn cursor_on_stage(stages: Seq<Stage>, c: CursorView) -> bool {
    c.pos < list_at(stages, c.frames).len()
}

/// The stage under the cursor.
pub open spec fn stage_at(stages: Seq<Stage>, c: CursorView) -> Stage {
    list_at(stages, c.frames)[c.pos as int]
}

/// The stages of `l` from position `pos` on.
pub open spec fn rest_of(l: Seq<Stage>, pos: int) -> Seq<Stage> {
    if 0 <= pos < l.len() {
        l.subrange(pos, l.len() as int)
    } else {
        Seq::empty()
    }
}

/// The next cursor, at or after `c`, whose stage needs a component call,
/// together with that call; `None` when the item has passed every stage.
pub open spec fn spec_seek(stages: Seq<Stage>, c: CursorView) -> Option<(CursorView, Call)>
    decreases c.frames.len(),
{
    let l = list_at(stages, c.frames);
    if c.pos < l.len() {
        Some((c, stage_call(l[c.pos as int])))
    } else if c.frames.len() == 0 {
        None
    } else if c.frames.last().0 == usize::MAX {
        None
    } else {
        spec_seek(stages, up_cursor(c.frames))
    }
}

/// How many stages, counted as `tree_size` does, an item at `c` may still
/// pass through: the rest of its list and of each list around it.
pub open spec fn remaining(stages: Seq<Stage>, c: CursorView) -> nat
    decreases c.frames.len(),
{
    let here = tree_size(rest_of(list_at(stages, c.frames), c.pos as int));
    if c.frames.len() == 0 {
        here
    } else {
        here + remaining(stages, up_cursor(c.frames))
    }
}

/// What `seek` returns, as the contracts see it.
pub open spec fn found_view(r: Option<(Cursor, Call)>) -> Option<(CursorView, Call)> {
    match r {
        Some((c, call)) => Some((c@, call)),
        None => None,
    }
}

/// Every list a cursor can reach is held in a `Vec`, so its length fits in `usize`.
pub proof fn lemma_list_len(stages: Seq<Stage>, frames: Seq<(usize, bool)>)
    requires
        stages.len() <= usize::MAX,
    ensures
        list_at(stages, frames).len() <= usize::MAX,
    decreases frames.len(),
{
    if frames.len() > 0 {
        lemma_list_len(stages, frames.drop_last());
        let up = list_at(stages, frames.drop_last());
        let i = frames.last().0;
        if i < up.len() {
            if let Stage::Branch(b) = up[i as int] {
                assert(b.then_branch.len() == b.then_branch@.len());
                assert(b.else_branch.len() == b.else_branch@.len());
            }
        }
    }
}

/// Stepping over the stage at `c`: the rest of its list starts with that
/// stage and goes on with the rest after it.
pub proof fn lemma_past(stages: Seq<Stage>, c: CursorView)
    requires
        stages.len() <= usize::MAX,
        cursor_on_stage(stages, c),
    ensures
        ({
            let l = list_at(stages, c.frames);
            let rest = rest_of(l, c.pos as int);
            &&& c.pos < usize::MAX
            &&& spec_past(c).pos == c.pos + 1
            &&& rest.len() > 0
            &&& rest[0] == l[c.pos as int]
            &&& rest.subrange(1, rest.len() as int) == rest_of(l, c.pos + 1)
            &&& tree_size(rest) == tree_size(rest_of(l, c.pos + 1)) + match l[c.pos as int] {
                Stage::Branch(b) => 1 + tree_size(b.then_branch@) + tree_size(b.else_branch@),
                _ => 1,
            }
            &&& remaining(stages, c) == tree_size(rest) + remaining(stages, spec_past(c)) - tree_size(rest_of(l, c.pos + 1))
        }),
{
    lemma_list_len(stages, c.frames);
    let l = list_at(stages, c.frames);
    let rest = rest_of(l, c.pos as int);
    assert(rest.subrange(1, rest.len() as int) =~= rest_of(l, c.pos + 1));
}

/// Entering the side that the branch at `c` chose: the list there is that
/// side, and once it is done the item goes on just after the branch.
pub proof fn lemma_enter(stages: Seq<Stage>, c: CursorView, taken: bool)
    requires
        stages.len() <= usize::MAX,
        cursor_on_stage(stages, c),
    ensures
        ({
            let body = body_of(stage_at(stages, c), taken);
            let e = spec_enter(c, taken);
            &&& list_at(stages, e.frames) == body
            &&& rest_of(body, 0) == body
            &&& e.frames.len() > 0
            &&& e.frames.last().0 == c.pos
            &&& c.pos < usize::MAX
            &&& up_cursor(e.frames) == spec_past(c)
            &&& remaining(stages, e) == tree_size(body) + remaining(stages, spec_past(c))
        }),
{
    lemma_list_len(stages, c.frames);
    let e = spec_enter(c, taken);
    assert(e.frames.drop_last() =~= c.frames);
    let body = body_of(stage_at(stages, c), taken);
    assert(list_at(stages, e.frames) == body);
    if body.len() > 0 {
        assert(body.subrange(0, body.len() as int) =~= body);
    } else {
        assert(body =~= Seq::<Stage>::empty());
    }
    assert(up_cursor(e.frames) == spec_past(c));
}

/// Where seeking lands: on a stage, with the call that stage needs, with
/// as much left to pass through as where it started.
pub proof fn lemma_seek_lands(stages: Seq<Stage>, c: CursorView)
    requires
        stages.len() <= usize::MAX,
    ensures
        spec_seek(stages, c) matches Some((c2, call)) ==> {
            &&& cursor_on_stage(stages, c2)
            &&& call == stage_call(stage_at(stages, c2))
            &&& call matches Call::Process(id) ==> stage_at(stages, c2) == Stage::Process(id)
            &&& call matches Call::Sink(id) ==> stage_at(stages, c2) == Stage::Sink(id)
            &&& call matches Call::Evaluate(id) ==> stage_at(stages, c2) is Branch && stage_at(stages, c2)->Branch_0.condition == id
            &&& remaining(stages, c2) == remaining(stages, c)
        },
    decreases c.frames.len(),
{
    let l = list_at(stages, c.frames);
    if c.pos >= l.len() && c.frames.len() > 0 && c.frames.last().0 != usize::MAX {
        lemma_seek_lands(stages, up_cursor(c.frames));
        assert(rest_of(l, c.pos as int) =~= Seq::<Stage>::empty());
    }
}

/// Every list a cursor can reach in registered stages is registered.
pub proof fn lemma_list_registered(stages: Seq<Stage>, frames: Seq<(usize, bool)>, r: Registry)
    requires
        stages_registered(stages, r),
    ensures
        stages_registered(list_at(stages, frames), r),
    decreases frames.len(),
{
    if frames.len() > 0 {
        lemma_list_registered(stages, frames.drop_last(), r);
        let up = list_at(stages, frames.drop_last());
        let i = frames.last().0;
        if i < up.len() {
            lemma_registered_each(up, r);
            assert(stage_registered(up[i as int], r));
        }
    }
}

/// The stage under a cursor in registered stages is registered.
pub proof fn lemma_stage_registered(stages: Seq<Stage>, c: CursorView, r: Registry)
    requires
        stages_registered(stages, r),
        cursor_on_stage(stages, c),
    ensures
        stage_registered(stage_at(stages, c), r),
{
    lemma_list_registered(stages, c.frames, r);
    lemma_registered_each(list_at(stages, c.frames), r);
}

/// Every list a cursor can reach in stages without sinks has none.
pub proof fn lemma_list_no_sink(stages: Seq<Stage>, frames: Seq<(usize, bool)>)
    requires
        no_sink(stages),
    ensures
        no_sink(list_at(stages, frames)),
    decreases frames.len(),
{
    if frames.len() > 0 {
        lemma_list_no_sink(stages, frames.drop_last());
        let up = list_at(stages, frames.drop_last());
        let i = frames.last().0;
        if i < up.len() {
            lemma_no_sink_each(up);
            assert(stage_without_sink(up[i as int]));
        }
    }
}

/// The stage under a cursor in stages without sinks is no sink.
pub proof fn lemma_stage_no_sink(stages: Seq<Stage>, c: CursorView)
    requires
        no_sink(stages),
        cursor_on_stage(stages, c),
    ensures
        stage_without_sink(stage_at(stages, c)),
{
    lemma_list_no_sink(stages, c.frames);
    lemma_no_sink_each(list_at(stages, c.frames));
}

/// The list that `frames` lead to; `None` when it is empty.
fn list_ref<'a>(stages: &'a Vec<Stage>, frames: &Vec<(usize, bool)>) -> (r: Option<&'a Vec<Stage>>)
    ensures
        match r {
            Some(l) => l@ == list_at(stages@, frames@),
            None => list_at(stages@, frames@).len() == 0,
        },
{
    let mut cur: Option<&'a Vec<Stage>> = Some(stages);
    let mut k: usize = 0;
    while k < frames.len()
        invariant
            k <= frames@.len(),
            match cur {
                Some(l) => l@ == list_at(stages@, frames@.subrange(0, k as int)),
                None => list_at(stages@, frames@.subrange(0, k as int)).len() == 0,
            },
        decreases frames@.len() - k,
    {
        let (i, taken) = frames[k];
        proof {
            let next = frames@.subrange(0, k + 1);
            assert(next.drop_last() =~= frames@.subrange(0, k as int));
            assert(next.last() == (i, taken));
        }
        cur = match cur {
            Some(l) => if i < l.len() {
                match &l[i] {
                    Stage::Branch(b) => if taken {
                        Some(&b.then_branch)
                    } else {
                        Some(&b.else_branch)
                    },
                    _ => None,
                }
            } else {
                None
            },
            None => None,
        };
        k = k + 1;
    }
    proof {
        assert(frames@.subrange(0, frames@.len() as int) =~= frames@);
    }
    cur
}

/// Finds the next stage, at or after `c`, that needs a component call.
pub fn seek(stages: &Vec<Stage>, c: Cursor) -> (r: Option<(Cursor, Call)>)
    ensures
        found_view(r) == spec_seek(stages@, c@),
{
    let mut cur = c;
    loop
        invariant
            spec_seek(stages@, cur@) == spec_seek(stages@, c@),
        decreases cur.frames@.len(),
    {
        let found = list_ref(stages, &cur.frames);
        if let Some(l) = found {
            if cur.pos < l.len() {
                let call = match &l[cur.pos] {
                    Stage::Process(id) => Call::Process(*id),
                    Stage::Sink(id) => Call::Sink(*id),
                    Stage::Branch(b) => Call::Evaluate(b.condition),
                };
                return Some((cur, call));
            }
        }
        let ghost before = cur@;
        match cur.frames.pop() {
            None => {
                return None;
            },
            Some((i, _)) => {
                if i == usize::MAX {
                    return None;
                }
                cur.pos = i + 1;
                proof {
                    assert(cur@ == up_cursor(before.frames));
                }
            },
        }
    }
}

} // verus!
