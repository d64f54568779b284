//! The stages a flow is made of.
//!
//! A stage names the component it runs by a registration number: processors,
//! conditions and sinks are numbered from zero, each kind on its own, in the
//! order in which they were added to the flow.
use vstd::prelude::*;

verus! {

/// One step of a flow.
pub enum Stage {
    /// Runs the processor with the given number on the current data.
    Process(usize),
    /// Runs one of two stage lists, chosen by a condition.
    Branch(BranchStage),
    /// Hands the current data to the sink with the given number.
    Sink(usize),
}

/// A conditional step: the condition decides which list of stages runs.
/// Either list may hold further branches, which run in the same way.
pub struct BranchStage {
    /// Number of the condition that chooses the branch.
    pub condition: usize,
    /// Stages that run when the condition holds.
    pub then_branch: Vec<Stage>,
    /// Stages that run when it does not.
    pub else_branch: Vec<Stage>,
}

/// How many components of each kind a flow has registered.
#[derive(Clone, Copy)]
pub struct Registry {
    pub processors: usize,
    pub conditions: usize,
    pub sinks: usize,
}

impl Registry {
    /// Nothing registered yet.
    pub fn empty() -> (r: Registry)
        ensures
            r == (Registry { processors: 0, conditions: 0, sinks: 0 }),
    {
        Registry { processors: 0, conditions: 0, sinks: 0 }
    }

    /// Every count of `self` is at most the matching count of `other`.
    pub open spec fn within(self, other: Registry) -> bool {
        &&& self.processors <= other.processors
        &&& self.conditions <= other.conditions
        &&& self.sinks <= other.sinks
    }
}

/// The list of stages that a branch runs when its condition gives `taken`.
pub open spec fn branch_body(b: BranchStage, taken: bool) -> Seq<Stage> {
    if taken {
        b.then_branch@
    } else {
        b.else_branch@
    }
}

/// The number of stages in a list, counting those inside branches.
pub open spec fn tree_size(l: Seq<Stage>) -> nat
    decreases l,
{
    if l.len() == 0 {
        0
    } else {
        let rest = tree_size(l.subrange(1, l.len() as int));
        match l[0] {
            Stage::Branch(b) => 1 + tree_size(b.then_branch@) + tree_size(b.else_branch@) + rest,
            _ => 1 + rest,
        }
    }
}

/// Every component that running these stages may call, at any depth, is
/// registered.
pub open spec fn stages_registered(l: Seq<Stage>, r: Registry) -> bool
    decreases l,
{
    if l.len() == 0 {
        true
    } else {
        let rest = stages_registered(l.subrange(1, l.len() as int), r);
        match l[0] {
            Stage::Process(id) => id < r.processors && rest,
            Stage::Sink(id) => id < r.sinks && rest,
            Stage::Branch(b) => b.condition < r.conditions && stages_registered(b.then_branch@, r)
                && stages_registered(b.else_branch@, r) && rest,
        }
    }
}

/// No stage of the list is a sink, at any depth.
pub open spec fn no_sink(l: Seq<Stage>) -> bool
    decreases l,
{
    if l.len() == 0 {
        true
    } else {
        let rest = no_sink(l.subrange(1, l.len() as int));
        match l[0] {
            Stage::Process(_) => rest,
            Stage::Sink(_) => false,
            Stage::Branch(b) => no_sink(b.then_branch@) && no_sink(b.else_branch@) && rest,
        }
    }
}

/// What `stages_registered` says of one stage of the list.
pub open spec fn stage_registered(s: Stage, r: Registry) -> bool {
    match s {
        Stage::Process(id) => id < r.processors,
        Stage::Sink(id) => id < r.sinks,
        Stage::Branch(b) => b.condition < r.conditions && stages_registered(b.then_branch@, r)
            && stages_registered(b.else_branch@, r),
    }
}

/// What `no_sink` says of one stage of the list.
pub open spec fn stage_without_sink(s: Stage) -> bool {
    match s {
        Stage::Process(_) => true,
        Stage::Sink(_) => false,
        Stage::Branch(b) => no_sink(b.then_branch@) && no_sink(b.else_branch@),
    }
}

/// A list is registered exactly when each of its stages is.
pub proof fn lemma_registered_each(l: Seq<Stage>, r: Registry)
    ensures
        stages_registered(l, r) <==> forall|i: int| 0 <= i < l.len() ==> stage_registered(#[trigger] l[i], r),
    decreases l.len(),
{
    if l.len() > 0 {
        let rest = l.subrange(1, l.len() as int);
        lemma_registered_each(rest, r);
        assert forall|i: int| 0 < i < l.len() implies #[trigger] l[i] == rest[i - 1] by {}
        if forall|i: int| 0 <= i < l.len() ==> stage_registered(#[trigger] l[i], r) {
            assert forall|i: int| 0 <= i < rest.len() implies stage_registered(#[trigger] rest[i], r) by {
                assert(rest[i] == l[i + 1]);
            }
        }
        if stages_registered(l, r) {
            assert forall|i: int| 0 <= i < l.len() implies stage_registered(#[trigger] l[i], r) by {
                if i > 0 {
                    assert(rest[i - 1] == l[i]);
                }
            }
        }
    }
}

/// A list holds no sink exactly when none of its stages does.
pub proof fn lemma_no_sink_each(l: Seq<Stage>)
    ensures
        no_sink(l) <==> forall|i: int| 0 <= i < l.len() ==> stage_without_sink(#[trigger] l[i]),
    decreases l.len(),
{
    if l.len() > 0 {
        let rest = l.subrange(1, l.len() as int);
        lemma_no_sink_each(rest);
        if forall|i: int| 0 <= i < l.len() ==> stage_without_sink(#[trigger] l[i]) {
            assert forall|i: int| 0 <= i < rest.len() implies stage_without_sink(#[trigger] rest[i]) by {
                assert(rest[i] == l[i + 1]);
            }
        }
        if no_sink(l) {
            assert forall|i: int| 0 <= i < l.len() implies stage_without_sink(#[trigger] l[i]) by {
                if i > 0 {
                    assert(rest[i - 1] == l[i]);
                }
            }
        }
    }
}

/// Registration only ever grows, so what was registered stays registered.
pub proof fn lemma_registered_grows(l: Seq<Stage>, r: Registry, r2: Registry)
    requires
        stages_registered(l, r),
        r.within(r2),
    ensures
        stages_registered(l, r2),
    decreases l,
{
    if l.len() > 0 {
        lemma_registered_grows(l.subrange(1, l.len() as int), r, r2);
        if let Stage::Branch(b) = l[0] {
            lemma_registered_grows(b.then_branch@, r, r2);
            lemma_registered_grows(b.else_branch@, r, r2);
        }
    }
}

/// Appending a registered stage keeps a list registered.
pub proof fn lemma_registered_push(l: Seq<Stage>, s: Stage, r: Registry)
    requires
        stages_registered(l, r),
        stage_registered(s, r),
    ensures
        stages_registered(l.push(s), r),
{
    lemma_registered_each(l, r);
    lemma_registered_each(l.push(s), r);
    assert forall|i: int| 0 <= i < l.push(s).len() implies stage_registered(#[trigger] l.push(s)[i], r) by {
        if i < l.len() {
            assert(l.push(s)[i] == l[i]);
        }
    }
}

/// Appending a stage without sinks keeps a list without sinks.
pub proof fn lemma_no_sink_push(l: Seq<Stage>, s: Stage)
    requires
        no_sink(l),
        stage_without_sink(s),
    ensures
        no_sink(l.push(s)),
{
    lemma_no_sink_each(l);
    lemma_no_sink_each(l.push(s));
    assert forall|i: int| 0 <= i < l.push(s).len() implies stage_without_sink(#[trigger] l.push(s)[i]) by {
        if i < l.len() {
            assert(l.push(s)[i] == l[i]);
        }
    }
}

} // verus!
