//! Building flows: a source, then processors, branches and a final sink.
//!
//! The builders record the shape of a flow. Components are referred to by
//! registration numbers (see `stage`); whoever holds the components keeps
//! them in the order in which they were registered here.
use vstd::prelude::*;
use crate::error::FlowError;
use vstd::string::StringExecFns;
use crate::run::{FlowRun, FlowRunView, Phase};
use crate::stage::{
    lemma_no_sink_push, lemma_registered_grows, lemma_registered_push, no_sink, stage_registered,
    stage_without_sink, stages_registered, BranchStage, Registry, Stage,
};

verus! {

/// The shape of a flow, as the contracts see it.
pub struct FlowView {
    pub has_source: bool,
    pub stages: Seq<Stage>,
    pub has_sink: bool,
    pub registry: Registry,
}

/// A flow under construction: whether a source is set, its stages, and
/// whether it ends in a sink.
pub struct Flow {
    pub(crate) has_source: bool,
    pub(crate) stages: Vec<Stage>,
    pub(crate) has_sink: bool,
    pub(crate) registry: Registry,
}

impl View for Flow {
    type V = FlowView;

    closed spec fn view(&self) -> FlowView {
        FlowView {
            has_source: self.has_source,
            stages: self.stages@,
            has_sink: self.has_sink,
            registry: self.registry,
        }
    }
}

/// `s` is a branch on `condition` whose sides hold `then_branch` and `else_branch`.
pub open spec fn is_branch_of(s: Stage, condition: usize, then_branch: Seq<Stage>, else_branch: Seq<Stage>) -> bool {
    &&& s is Branch
    &&& s->Branch_0.condition == condition
    &&& s->Branch_0.then_branch@ == then_branch
    &&& s->Branch_0.else_branch@ == else_branch
}

/// `s` closes the branch on `condition` with sides `then_branch` and
/// `else_branch`, nested in the branches of `enclosing` (innermost first,
/// each with its condition and the `then` side it had so far): each of
/// those gets the branch inside it as the last stage of its `then` side and
/// an empty `otherwise` side, and `s` is the outermost one.
pub open spec fn closes(
    s: Stage,
    condition: usize,
    then_branch: Seq<Stage>,
    else_branch: Seq<Stage>,
    enclosing: Seq<(usize, Seq<Stage>)>,
) -> bool
    decreases enclosing.len(),
{
    if enclosing.len() == 0 {
        is_branch_of(s, condition, then_branch, else_branch)
    } else {
        let side = enclosing.last().1;
        &&& s is Branch
        &&& s->Branch_0.condition == enclosing.last().0
        &&& s->Branch_0.else_branch@.len() == 0
        &&& s->Branch_0.then_branch@.len() == side.len() + 1
        &&& s->Branch_0.then_branch@.drop_last() == side
        &&& closes(s->Branch_0.then_branch@.last(), condition, then_branch, else_branch, enclosing.drop_last())
    }
}

impl FlowView {
    /// The rules of composition: the source comes before any stage; a flow
    /// with a sink ends in it and holds no other, at any depth; a flow
    /// without one holds none.
    pub open spec fn well_ordered(self) -> bool {
        &&& self.stages.len() > 0 ==> self.has_source
        &&& if self.has_sink {
            &&& self.stages.len() > 0
            &&& self.stages.last() is Sink
            &&& no_sink(self.stages.drop_last())
        } else {
            no_sink(self.stages)
        }
    }
}

/// Law: every flow the builders give keeps the rules of composition. A flow
/// comes from `Flow::new` or `Flow::default` and each builder step keeps the
/// flow valid (`wf`), so whatever sequence of steps built it, its source comes
/// before any stage, and it either holds no sink at any depth or ends in its
/// only sink, with none inside a branch.
pub proof fn law_built_flow_well_ordered(flow: &Flow)
    requires
        flow.wf(),
    ensures
        flow@.well_ordered(),
        flow@.stages.len() > 0 ==> flow@.has_source,
        flow@.has_sink ==> flow@.stages.last() is Sink && no_sink(flow@.stages.drop_last()),
        !flow@.has_sink ==> no_sink(flow@.stages),
{
}

impl Flow {
    /// Every component that running the flow may call is registered, and the
    /// stages keep the rules of composition.
    pub open spec fn wf(&self) -> bool {
        &&& stages_registered(self@.stages, self@.registry)
        &&& self@.well_ordered()
    }

    /// Creates an empty flow: no source, no stages.
    pub fn new() -> (flow: Flow)
        ensures
            flow.wf(),
            flow@ == (FlowView { has_source: false, stages: Seq::empty(), has_sink: false, registry: Registry { processors: 0, conditions: 0, sinks: 0 } }),
    {
        Flow { has_source: false, stages: Vec::new(), has_sink: false, registry: Registry::empty() }
    }

    /// Sets the source. The source must come before every other component.
    pub fn source(self) -> (flow: Flow)
        requires
            self.wf(),
            self@.stages.len() == 0,
        ensures
            flow.wf(),
            flow@ == (FlowView { has_source: true, ..self@ }),
    {
        Flow { has_source: true, ..self }
    }

    /// Appends a processor stage, running the next processor to be registered.
    pub fn process(self) -> (flow: Flow)
        requires
            self.wf(),
            self@.has_source,
            !self@.has_sink,
            self@.registry.processors < usize::MAX,
        ensures
            flow.wf(),
            flow@ == (FlowView {
                stages: self@.stages.push(Stage::Process(self@.registry.processors)),
                registry: Registry { processors: (self@.registry.processors + 1) as usize, ..self@.registry },
                ..self@
            }),
    {
        let mut flow = self;
        let id = flow.registry.processors;
        flow.registry.processors = id + 1;
        proof {
            lemma_registered_grows(flow.stages@, self.registry, flow.registry);
            lemma_registered_push(flow.stages@, Stage::Process(id), flow.registry);
            lemma_no_sink_push(flow.stages@, Stage::Process(id));
        }
        flow.stages.push(Stage::Process(id));
        flow
    }

    /// Starts a conditional branch on the next condition to be registered.
    pub fn when(self) -> (builder: BranchBuilder)
        requires
            self.wf(),
            self@.has_source,
            !self@.has_sink,
            self@.registry.conditions < usize::MAX,
        ensures
            builder.wf(),
            builder@ == (BranchBuilderView {
                condition: self@.registry.conditions,
                then_branch: Seq::empty(),
                parent: FlowView {
                    registry: Registry { conditions: (self@.registry.conditions + 1) as usize, ..self@.registry },
                    ..self@
                },
                enclosing: Seq::empty(),
            }),
    {
        BranchBuilder::new(self)
    }

    /// Appends the final sink stage, running the next sink to be registered.
    pub fn sink(self) -> (flow: Flow)
        requires
            self.wf(),
            self@.has_source,
            self@.stages.len() > 0,
            !self@.has_sink,
            self@.registry.sinks < usize::MAX,
        ensures
            flow.wf(),
            flow@ == (FlowView {
                stages: self@.stages.push(Stage::Sink(self@.registry.sinks)),
                has_sink: true,
                registry: Registry { sinks: (self@.registry.sinks + 1) as usize, ..self@.registry },
                ..self@
            }),
    {
        let mut flow = self;
        let id = flow.registry.sinks;
        flow.registry.sinks = id + 1;
        proof {
            lemma_registered_grows(flow.stages@, self.registry, flow.registry);
            lemma_registered_push(flow.stages@, Stage::Sink(id), flow.registry);
        }
        flow.stages.push(Stage::Sink(id));
        flow.has_sink = true;
        proof {
            assert(flow.stages@.drop_last() =~= self@.stages);
        }
        flow
    }

    /// A flow can run only with a source and a sink.
    pub fn validate(&self) -> (r: Result<(), FlowError>)
        ensures
            r == (if !self@.has_source {
                Err(FlowError::NoSource)
            } else if !self@.has_sink {
                Err(FlowError::NoSink)
            } else {
                Ok(())
            }),
    {
        if !self.has_source {
            return Err(FlowError::NoSource);
        }
        if !self.has_sink {
            return Err(FlowError::NoSink);
        }
        Ok(())
    }

    /// Checks that the flow can run (see `validate`) and sets up its run,
    /// which starts by opening the source stream.
    pub fn start<D>(self) -> (r: Result<FlowRun<D>, FlowError>)
        requires
            self.wf(),
        ensures
            match r {
                Ok(run) => {
                    &&& self@.has_source && self@.has_sink
                    &&& run.wf()
                    &&& run@ == (FlowRunView { stages: self@.stages, registry: self@.registry, phase: Phase::<D>::Opening, results: Seq::empty() })
                },
                Err(e) => e == (if !self@.has_source { FlowError::NoSource } else { FlowError::NoSink }) && !(self@.has_source && self@.has_sink),
            },
    {
        match self.validate() {
            Err(e) => Err(e),
            Ok(()) => Ok(FlowRun::new(self.stages, self.registry)),
        }
    }

    /// Whether a source is set.
    pub fn has_source(&self) -> (r: bool)
        ensures
            r == self@.has_source,
    {
        self.has_source
    }

    /// Whether the flow ends in a sink.
    pub fn has_sink(&self) -> (r: bool)
        ensures
            r == self@.has_sink,
    {
        self.has_sink
    }

    /// The number of top-level stages.
    pub fn stage_count(&self) -> (r: usize)
        ensures
            r == self@.stages.len(),
    {
        self.stages.len()
    }

    /// How many components of each kind are registered.
    pub fn registry(&self) -> (r: Registry)
        ensures
            r == self@.registry,
    {
        self.registry
    }

    /// The top-level stages.
    pub fn stages(&self) -> (r: &Vec<Stage>)
        ensures
            r@ == self@.stages,
    {
        &self.stages
    }
}

/// Why a component cannot be added to a flow at this point.
#[derive(Debug, Clone, Copy, PartialEq, Eq, Structural)]
pub enum BuildError {
    SourceNotFirst,
    NoSource,
    ProcessorAfterSink,
    ConditionAfterSink,
    NothingBeforeSink,
    SecondSink,
}

impl BuildError {
    /// The text of the error.
    pub open spec fn message(self) -> Seq<char> {
        match self {
            BuildError::SourceNotFirst => "Source must be the first component in a flow"@,
            BuildError::NoSource => "Flow must start with a source"@,
            BuildError::ProcessorAfterSink => "Cannot add processor after sink - sink must be the last component"@,
            BuildError::ConditionAfterSink => "Cannot add condition after sink - sink must be the last component"@,
            BuildError::NothingBeforeSink => "Flow must have at least one processor or condition before sink"@,
            BuildError::SecondSink => "Flow already has a sink component"@,
        }
    }

    /// Renders the error as text.
    pub fn to_string(&self) -> (text: String)
        ensures
            text@ == self.message(),
    {
        match self {
            BuildError::SourceNotFirst => String::from_str("Source must be the first component in a flow"),
            BuildError::NoSource => String::from_str("Flow must start with a source"),
            BuildError::ProcessorAfterSink => String::from_str("Cannot add processor after sink - sink must be the last component"),
            BuildError::ConditionAfterSink => String::from_str("Cannot add condition after sink - sink must be the last component"),
            BuildError::NothingBeforeSink => String::from_str("Flow must have at least one processor or condition before sink"),
            BuildError::SecondSink => String::from_str("Flow already has a sink component"),
        }
    }
}

impl Flow {
    /// Whether a source may be set now: only before any stage.
    pub fn check_source(&self) -> (r: Result<(), BuildError>)
        ensures
            r == (if self@.stages.len() > 0 { Err(BuildError::SourceNotFirst) } else { Ok(()) }),
    {
        if self.stages.len() > 0 {
            Err(BuildError::SourceNotFirst)
        } else {
            Ok(())
        }
    }

    /// Whether a processor may be added now: after the source, before any sink.
    pub fn check_process(&self) -> (r: Result<(), BuildError>)
        ensures
            r == (if !self@.has_source {
                Err(BuildError::NoSource)
            } else if self@.has_sink {
                Err(BuildError::ProcessorAfterSink)
            } else {
                Ok(())
            }),
    {
        if !self.has_source {
            Err(BuildError::NoSource)
        } else if self.has_sink {
            Err(BuildError::ProcessorAfterSink)
        } else {
            Ok(())
        }
    }

    /// Whether a branch may start now: after the source, before any sink.
    pub fn check_when(&self) -> (r: Result<(), BuildError>)
        ensures
            r == (if !self@.has_source {
                Err(BuildError::NoSource)
            } else if self@.has_sink {
                Err(BuildError::ConditionAfterSink)
            } else {
                Ok(())
            }),
    {
        if !self.has_source {
            Err(BuildError::NoSource)
        } else if self.has_sink {
            Err(BuildError::ConditionAfterSink)
        } else {
            Ok(())
        }
    }

    /// Whether the sink may be added now: after the source and at least one
    /// other stage, and only once.
    pub fn check_sink(&self) -> (r: Result<(), BuildError>)
        ensures
            r == (if !self@.has_source {
                Err(BuildError::NoSource)
            } else if self@.stages.len() == 0 {
                Err(BuildError::NothingBeforeSink)
            } else if self@.has_sink {
                Err(BuildError::SecondSink)
            } else {
                Ok(())
            }),
    {
        if !self.has_source {
            Err(BuildError::NoSource)
        } else if self.stages.len() == 0 {
            Err(BuildError::NothingBeforeSink)
        } else if self.has_sink {
            Err(BuildError::SecondSink)
        } else {
            Ok(())
        }
    }
}

impl Default for Flow {
    fn default() -> (flow: Flow)
        ensures
            flow@ == (FlowView { has_source: false, stages: Seq::empty(), has_sink: false, registry: Registry { processors: 0, conditions: 0, sinks: 0 } }),
    {
        Flow::new()
    }
}

/// What `BranchBuilder::end` gives back: the enclosing branch builder when
/// the branch was nested, else the flow.
pub enum Either<L, R> {
    Left(L),
    Right(R),
}

/// A branch that is still open around a nested one.
struct OpenBranch {
    condition: usize,
    then_branch: Vec<Stage>,
    parent_branch: Option<Box<OpenBranch>>,
}

/// The open branches around a nested branch, innermost first.
spec fn enclosing_view(o: Option<Box<OpenBranch>>) -> Seq<(usize, Seq<Stage>)>
    decreases o,
{
    match o {
        None => Seq::empty(),
        Some(b) => seq![(b.condition, b.then_branch@)] + enclosing_view(b.parent_branch),
    }
}

/// A branch builder, as the contracts see it.
pub struct BranchBuilderView {
    pub condition: usize,
    pub then_branch: Seq<Stage>,
    pub parent: FlowView,
    /// The branches this one is nested in, innermost first, each with its
    /// condition and the stages of its `then` side so far.
    pub enclosing: Seq<(usize, Seq<Stage>)>,
}

/// A side of a branch being built refers to registered components and
/// holds no sink, at any depth.
pub open spec fn side_ok(side: Seq<Stage>, r: Registry) -> bool {
    stages_registered(side, r) && no_sink(side)
}

/// Each enclosing branch has a registered condition and a good `then` side.
pub open spec fn enclosing_ok(enclosing: Seq<(usize, Seq<Stage>)>, r: Registry) -> bool {
    forall|k: int| 0 <= k < enclosing.len() ==> {
        &&& (#[trigger] enclosing[k]).0 < r.conditions
        &&& side_ok(enclosing[k].1, r)
    }
}

/// A branch may be built on `parent`: the flow is valid, has its source and
/// no sink yet.
pub open spec fn parent_ok(parent: FlowView) -> bool {
    &&& stages_registered(parent.stages, parent.registry)
    &&& parent.well_ordered()
    &&& parent.has_source
    &&& !parent.has_sink
}

/// Builds the branch started by `Flow::when`: first the stages that run when
/// the condition holds.
pub struct BranchBuilder {
    condition: usize,
    then_branch: Vec<Stage>,
    parent: Flow,
    parent_branch: Option<Box<OpenBranch>>,
}

impl View for BranchBuilder {
    type V = BranchBuilderView;

    closed spec fn view(&self) -> BranchBuilderView {
        BranchBuilderView {
            condition: self.condition,
            then_branch: self.then_branch@,
            parent: self.parent@,
            enclosing: enclosing_view(self.parent_branch),
        }
    }
}

impl BranchBuilderView {
    pub open spec fn wf(self) -> bool {
        &&& parent_ok(self.parent)
        &&& self.condition < self.parent.registry.conditions
        &&& side_ok(self.then_branch, self.parent.registry)
        &&& enclosing_ok(self.enclosing, self.parent.registry)
    }
}

pub(crate) proof fn lemma_side_ok_grows(side: Seq<Stage>, r: Registry, r2: Registry)
    requires
        side_ok(side, r),
        r.within(r2),
    ensures
        side_ok(side, r2),
{
    lemma_registered_grows(side, r, r2);
}

pub(crate) proof fn lemma_side_ok_push(side: Seq<Stage>, s: Stage, r: Registry)
    requires
        side_ok(side, r),
        stage_registered(s, r),
        stage_without_sink(s),
    ensures
        side_ok(side.push(s), r),
{
    lemma_registered_push(side, s, r);
    lemma_no_sink_push(side, s);
}

proof fn lemma_enclosing_grows(enclosing: Seq<(usize, Seq<Stage>)>, r: Registry, r2: Registry)
    requires
        r.within(r2),
        enclosing_ok(enclosing, r),
    ensures
        enclosing_ok(enclosing, r2),
{
    assert forall|k: int| 0 <= k < enclosing.len() implies {
        &&& (#[trigger] enclosing[k]).0 < r2.conditions
        &&& side_ok(enclosing[k].1, r2)
    } by {
        lemma_side_ok_grows(enclosing[k].1, r, r2);
    }
}

/// The branch on `condition` with these sides is registered and holds no sink.
pub(crate) proof fn lemma_closed_branch_ok(condition: usize, then_branch: Seq<Stage>, else_branch: Seq<Stage>, s: Stage, r: Registry)
    requires
        condition < r.conditions,
        side_ok(then_branch, r),
        side_ok(else_branch, r),
        is_branch_of(s, condition, then_branch, else_branch),
    ensures
        stage_registered(s, r),
        stage_without_sink(s),
{
}

/// Appending a stage without sinks keeps a flow without a sink well ordered.
proof fn lemma_append_ok(parent: FlowView, s: Stage, stages: Seq<Stage>)
    requires
        parent_ok(parent),
        stage_registered(s, parent.registry),
        stage_without_sink(s),
        stages == parent.stages.push(s),
    ensures
        stages_registered(stages, parent.registry),
        (FlowView { stages, ..parent }).well_ordered(),
        stages.drop_last() == parent.stages,
{
    lemma_registered_push(parent.stages, s, parent.registry);
    lemma_no_sink_push(parent.stages, s);
    assert(stages.drop_last() =~= parent.stages);
}

impl BranchBuilder {
    pub closed spec fn wf(&self) -> bool {
        self@.wf()
    }

    /// Creates a builder for a branch of `parent` on the next condition to be
    /// registered.
    pub fn new(parent: Flow) -> (builder: BranchBuilder)
        requires
            parent.wf(),
            parent@.has_source,
            !parent@.has_sink,
            parent@.registry.conditions < usize::MAX,
        ensures
            builder.wf(),
            builder@ == (BranchBuilderView {
                condition: parent@.registry.conditions,
                then_branch: Seq::empty(),
                parent: FlowView {
                    registry: Registry { conditions: (parent@.registry.conditions + 1) as usize, ..parent@.registry },
                    ..parent@
                },
                enclosing: Seq::empty(),
            }),
    {
        let mut parent = parent;
        let id = parent.registry.conditions;
        let ghost before = parent.registry;
        parent.registry.conditions = id + 1;
        proof {
            lemma_registered_grows(parent.stages@, before, parent.registry);
        }
        let builder = BranchBuilder { condition: id, then_branch: Vec::new(), parent, parent_branch: None };
        proof {
            assert(enclosing_view(builder.parent_branch) =~= Seq::<(usize, Seq<Stage>)>::empty());
        }
        builder
    }

    /// How many components of each kind are registered.
    pub fn registry(&self) -> (r: Registry)
        ensures
            r == self@.parent.registry,
    {
        self.parent.registry
    }

    /// Adds a processor, the next to be registered, to the `then` side.
    pub fn process(self) -> (builder: BranchBuilder)
        requires
            self.wf(),
            self@.parent.registry.processors < usize::MAX,
        ensures
            builder.wf(),
            builder@ == (BranchBuilderView {
                then_branch: self@.then_branch.push(Stage::Process(self@.parent.registry.processors)),
                parent: FlowView {
                    registry: Registry { processors: (self@.parent.registry.processors + 1) as usize, ..self@.parent.registry },
                    ..self@.parent
                },
                ..self@
            }),
    {
        let mut builder = self;
        let id = builder.parent.registry.processors;
        let ghost before = builder.parent.registry;
        builder.parent.registry.processors = id + 1;
        proof {
            lemma_registered_grows(builder.parent.stages@, before, builder.parent.registry);
            lemma_side_ok_grows(builder.then_branch@, before, builder.parent.registry);
            lemma_enclosing_grows(enclosing_view(builder.parent_branch), before, builder.parent.registry);
            lemma_side_ok_push(builder.then_branch@, Stage::Process(id), builder.parent.registry);
        }
        builder.then_branch.push(Stage::Process(id));
        builder
    }

    /// Turns to the side that runs when the condition does not hold. The
    /// branches this one is nested in stay open around it.
    pub fn otherwise(self) -> (builder: OtherwiseBuilder)
        requires
            self.wf(),
        ensures
            builder.wf(),
            builder@ == (OtherwiseBuilderView {
                condition: self@.condition,
                then_branch: self@.then_branch,
                else_branch: Seq::empty(),
                parent: self@.parent,
                enclosing: self@.enclosing,
            }),
    {
        let BranchBuilder { condition, then_branch, parent, parent_branch } = self;
        OtherwiseBuilder { condition, then_branch, else_branch: Vec::new(), parent, parent_branch }
    }

    /// Starts a branch nested in the `then` side of this one, on the next
    /// condition to be registered.
    pub fn when(self) -> (builder: BranchBuilder)
        requires
            self.wf(),
            self@.parent.registry.conditions < usize::MAX,
        ensures
            builder.wf(),
            builder@ == (BranchBuilderView {
                condition: self@.parent.registry.conditions,
                then_branch: Seq::empty(),
                parent: FlowView {
                    registry: Registry { conditions: (self@.parent.registry.conditions + 1) as usize, ..self@.parent.registry },
                    ..self@.parent
                },
                enclosing: seq![(self@.condition, self@.then_branch)] + self@.enclosing,
            }),
    {
        let BranchBuilder { condition, then_branch, parent, parent_branch } = self;
        let ghost before = parent.registry;
        let open = OpenBranch { condition, then_branch, parent_branch };
        let mut nested = BranchBuilder::new(parent);
        proof {
            lemma_side_ok_grows(open.then_branch@, before, nested.parent.registry);
            lemma_enclosing_grows(enclosing_view(open.parent_branch), before, nested.parent.registry);
        }
        nested.parent_branch = Some(Box::new(open));
        proof {
            let e = enclosing_view(nested.parent_branch);
            assert forall|k: int| 0 <= k < e.len() implies {
                &&& (#[trigger] e[k]).0 < nested.parent.registry.conditions
                &&& side_ok(e[k].1, nested.parent.registry)
            } by {
                if k > 0 {
                    assert(e[k] == enclosing_view(open.parent_branch)[k - 1]);
                }
            }
        }
        nested
    }

    /// Closes the branch with an empty `otherwise` side. A nested branch
    /// goes to the end of the `then` side of the branch around it, which is
    /// given back; an outermost one goes to the end of the flow.
    pub fn end(self) -> (r: Either<BranchBuilder, Flow>)
        requires
            self.wf(),
        ensures
            self@.enclosing.len() == 0 ==> (r matches Either::Right(flow) && {
                &&& flow.wf()
                &&& flow@.has_source == self@.parent.has_source
                &&& flow@.has_sink == self@.parent.has_sink
                &&& flow@.registry == self@.parent.registry
                &&& flow@.stages.len() == self@.parent.stages.len() + 1
                &&& flow@.stages.drop_last() == self@.parent.stages
                &&& is_branch_of(flow@.stages.last(), self@.condition, self@.then_branch, Seq::empty())
            }),
            self@.enclosing.len() > 0 ==> (r matches Either::Left(outer) && {
                &&& outer.wf()
                &&& outer@.condition == self@.enclosing[0].0
                &&& outer@.then_branch.len() == self@.enclosing[0].1.len() + 1
                &&& outer@.then_branch.drop_last() == self@.enclosing[0].1
                &&& is_branch_of(outer@.then_branch.last(), self@.condition, self@.then_branch, Seq::empty())
                &&& outer@.parent == self@.parent
                &&& outer@.enclosing == self@.enclosing.drop_first()
            }),
    {
        let ghost old_view = self@;
        let BranchBuilder { condition, then_branch, parent, parent_branch } = self;
        let stage = Stage::Branch(BranchStage { condition, then_branch, else_branch: Vec::new() });
        proof {
            lemma_closed_branch_ok(condition, old_view.then_branch, Seq::empty(), stage, parent.registry);
        }
        match parent_branch {
            Some(open) => {
                let ghost e = enclosing_view(Some(open));
                proof {
                    assert(e[0] == (open.condition, open.then_branch@));
                }
                let OpenBranch { condition: outer_condition, then_branch: outer_then, parent_branch: outer_parent } = *open;
                let mut outer_then = outer_then;
                proof {
                    lemma_side_ok_push(outer_then@, stage, parent.registry);
                }
                outer_then.push(stage);
                let outer = BranchBuilder {
                    condition: outer_condition,
                    then_branch: outer_then,
                    parent,
                    parent_branch: outer_parent,
                };
                proof {
                    assert(outer_then@.drop_last() =~= e[0].1);
                    assert(enclosing_view(outer_parent) =~= e.drop_first());
                    assert forall|k: int| 0 <= k < outer@.enclosing.len() implies {
                        &&& (#[trigger] outer@.enclosing[k]).0 < outer@.parent.registry.conditions
                        &&& side_ok(outer@.enclosing[k].1, outer@.parent.registry)
                    } by {
                        assert(outer@.enclosing[k] == e[k + 1]);
                    }
                }
                Either::Left(outer)
            },
            None => {
                let mut flow = parent;
                proof {
                    lemma_append_ok(flow@, stage, flow.stages@.push(stage));
                }
                flow.stages.push(stage);
                Either::Right(flow)
            },
        }
    }
}

/// An otherwise builder, as the contracts see it.
pub struct OtherwiseBuilderView {
    pub condition: usize,
    pub then_branch: Seq<Stage>,
    pub else_branch: Seq<Stage>,
    pub parent: FlowView,
    /// The branches this one is nested in, innermost first, as for
    /// `BranchBuilderView`.
    pub enclosing: Seq<(usize, Seq<Stage>)>,
}

/// Builds the side of a branch that runs when its condition does not hold.
pub struct OtherwiseBuilder {
    condition: usize,
    then_branch: Vec<Stage>,
    else_branch: Vec<Stage>,
    parent: Flow,
    parent_branch: Option<Box<OpenBranch>>,
}

impl View for OtherwiseBuilder {
    type V = OtherwiseBuilderView;

    closed spec fn view(&self) -> OtherwiseBuilderView {
        OtherwiseBuilderView {
            condition: self.condition,
            then_branch: self.then_branch@,
            else_branch: self.else_branch@,
            parent: self.parent@,
            enclosing: enclosing_view(self.parent_branch),
        }
    }
}

impl OtherwiseBuilderView {
    pub open spec fn wf(self) -> bool {
        &&& parent_ok(self.parent)
        &&& self.condition < self.parent.registry.conditions
        &&& side_ok(self.then_branch, self.parent.registry)
        &&& side_ok(self.else_branch, self.parent.registry)
        &&& enclosing_ok(self.enclosing, self.parent.registry)
    }
}

impl OtherwiseBuilder {
    pub closed spec fn wf(&self) -> bool {
        self@.wf()
    }

    /// How many components of each kind are registered.
    pub fn registry(&self) -> (r: Registry)
        ensures
            r == self@.parent.registry,
    {
        self.parent.registry
    }

    /// Adds a processor, the next to be registered, to the `otherwise` side.
    pub fn process(self) -> (builder: OtherwiseBuilder)
        requires
            self.wf(),
            self@.parent.registry.processors < usize::MAX,
        ensures
            builder.wf(),
            builder@ == (OtherwiseBuilderView {
                else_branch: self@.else_branch.push(Stage::Process(self@.parent.registry.processors)),
                parent: FlowView {
                    registry: Registry { processors: (self@.parent.registry.processors + 1) as usize, ..self@.parent.registry },
                    ..self@.parent
                },
                ..self@
            }),
    {
        let mut builder = self;
        let id = builder.parent.registry.processors;
        let ghost before = builder.parent.registry;
        builder.parent.registry.processors = id + 1;
        proof {
            lemma_registered_grows(builder.parent.stages@, before, builder.parent.registry);
            lemma_side_ok_grows(builder.then_branch@, before, builder.parent.registry);
            lemma_side_ok_grows(builder.else_branch@, before, builder.parent.registry);
            lemma_enclosing_grows(enclosing_view(builder.parent_branch), before, builder.parent.registry);
            lemma_side_ok_push(builder.else_branch@, Stage::Process(id), builder.parent.registry);
        }
        builder.else_branch.push(Stage::Process(id));
        builder
    }

    /// Closes the branch and every branch it is nested in, innermost first:
    /// each goes to the end of the `then` side of the one around it, which
    /// gets an empty `otherwise` side; the outermost goes to the end of the
    /// flow.
    pub fn end(self) -> (flow: Flow)
        requires
            self.wf(),
        ensures
            flow.wf(),
            flow@.has_source == self@.parent.has_source,
            flow@.has_sink == self@.parent.has_sink,
            flow@.registry == self@.parent.registry,
            flow@.stages.len() == self@.parent.stages.len() + 1,
            flow@.stages.drop_last() == self@.parent.stages,
            closes(flow@.stages.last(), self@.condition, self@.then_branch, self@.else_branch, self@.enclosing),
    {
        let ghost v = self@;
        let OtherwiseBuilder { condition, then_branch, else_branch, parent, parent_branch } = self;
        let mut cur = Stage::Branch(BranchStage { condition, then_branch, else_branch });
        let mut rest = parent_branch;
        let ghost mut k: int = 0;
        proof {
            lemma_closed_branch_ok(condition, v.then_branch, v.else_branch, cur, parent.registry);
            assert(v.enclosing.subrange(0, 0) =~= Seq::<(usize, Seq<Stage>)>::empty());
            assert(v.enclosing.subrange(0, v.enclosing.len() as int) =~= v.enclosing);
        }
        while rest.is_some()
            invariant
                0 <= k <= v.enclosing.len(),
                enclosing_view(rest) == v.enclosing.subrange(k, v.enclosing.len() as int),
                closes(cur, v.condition, v.then_branch, v.else_branch, v.enclosing.subrange(0, k)),
                stage_registered(cur, parent@.registry),
                stage_without_sink(cur),
                enclosing_ok(v.enclosing, parent@.registry),
                parent@ == v.parent,
            decreases enclosing_view(rest).len(),
        {
            let open = rest.unwrap();
            let ghost here = enclosing_view(Some(open));
            proof {
                assert(here[0] == (open.condition, open.then_branch@));
                assert(here[0] == v.enclosing[k]);
                assert(enclosing_view(open.parent_branch) =~= here.drop_first());
            }
            let OpenBranch { condition: outer_condition, then_branch: outer_then, parent_branch: outer_parent } = *open;
            let mut outer_then = outer_then;
            let ghost inner = cur;
            proof {
                lemma_side_ok_push(outer_then@, cur, parent.registry);
            }
            outer_then.push(cur);
            cur = Stage::Branch(BranchStage { condition: outer_condition, then_branch: outer_then, else_branch: Vec::new() });
            rest = outer_parent;
            proof {
                let done = v.enclosing.subrange(0, k + 1);
                assert(done.drop_last() =~= v.enclosing.subrange(0, k));
                assert(done.last() == v.enclosing[k]);
                assert(outer_then@.drop_last() =~= v.enclosing[k].1);
                assert(outer_then@.last() == inner);
                assert(enclosing_view(rest) =~= v.enclosing.subrange(k + 1, v.enclosing.len() as int));
                k = k + 1;
            }
        }
        proof {
            assert(k == v.enclosing.len()) by {
                assert(enclosing_view(rest).len() == 0);
            }
        }
        let mut flow = parent;
        proof {
            lemma_append_ok(flow@, cur, flow.stages@.push(cur));
        }
        flow.stages.push(cur);
        flow
    }
}

} // verus!
