use cortex_ai::composer::{Either, Flow};
use cortex_ai::error::FlowError;
use cortex_ai::run::{Event, FlowRun, Next};
use cortex_ai::stage::Stage;

#[derive(Debug, Clone)]
struct TestError(String);

impl TestError {
    fn to_string(&self) -> String {
        format!("Test error: {}", self.0)
    }
}

impl From<FlowError> for TestError {
    fn from(e: FlowError) -> Self {
        TestError(e.to_string())
    }
}

fn test_processor(s: String) -> Result<String, TestError> {
    Ok(format!("processed_{}", s))
}

fn test_condition(s: String) -> Result<bool, TestError> {
    Ok(s.contains("test"))
}

fn error_condition(_s: String) -> Result<bool, TestError> {
    Err(TestError("Condition error".to_string()))
}

fn keep(s: String) -> Result<String, TestError> {
    Ok(s)
}

/// Runs a flow with one source item, processors `procs`, conditions `conds`
/// and sinks `sinks`, until the source ends.
fn run_one(
    flow: Flow,
    item: &str,
    procs: &[&dyn Fn(String) -> Result<String, TestError>],
    conds: &[&dyn Fn(String) -> Result<bool, TestError>],
    sinks: &[&dyn Fn(String) -> Result<String, TestError>],
) -> (Result<Vec<String>, TestError>, Vec<Result<String, TestError>>, Vec<String>) {
    let mut calls = Vec::new();
    let mut feedback = Vec::new();
    let mut run: FlowRun<String> = match flow.start() {
        Ok(r) => r,
        Err(e) => return (Err(TestError::from(e)), feedback, calls),
    };
    let mut event = Event::Opened(Ok(()));
    let mut items = vec![Ok(item.to_string())].into_iter();
    loop {
        assert!(run.accepts(&event));
        let (r, action) = run.step(event);
        run = r;
        feedback.extend(action.feedback);
        event = match action.next {
            Next::Receive => match items.next() {
                Some(i) => Event::Item(i),
                None => Event::Closed,
            },
            Next::Process { processor, input } => {
                calls.push(format!("process {}", processor));
                Event::Processed(procs[processor](input))
            }
            Next::Evaluate { condition, input } => {
                calls.push(format!("evaluate {}", condition));
                Event::Evaluated(conds[condition](input))
            }
            Next::Sink { sink, input } => {
                calls.push(format!("sink {}", sink));
                Event::Sunk(sinks[sink](input))
            }
            Next::Done(r) => return (r, feedback, calls),
        };
    }
}

fn branching_flow() -> Flow {
    Flow::new().source().when().process().otherwise().process().end().sink()
}

#[test]
fn then_branch_runs_when_condition_holds() {
    let (result, _, calls) = run_one(branching_flow(), "test_input", &[&test_processor, &test_processor], &[&test_condition], &[&keep]);
    let result = result.unwrap();
    assert_eq!(result.len(), 1);
    assert_eq!(result[0], "processed_test_input");
    assert_eq!(calls, vec!["evaluate 0", "process 0", "sink 0"]);
}

#[test]
fn else_branch_runs_when_condition_fails() {
    let (result, _, calls) = run_one(branching_flow(), "no_match", &[&test_processor, &test_processor], &[&test_condition], &[&keep]);
    let result = result.unwrap();
    assert_eq!(result.len(), 1);
    assert_eq!(result[0], "processed_no_match");
    assert_eq!(calls, vec!["evaluate 0", "process 1", "sink 0"]);
}

#[test]
fn condition_error_stops_the_flow() {
    let (result, feedback, _) = run_one(branching_flow(), "test_input", &[&test_processor, &test_processor], &[&error_condition], &[&keep]);
    assert!(result.is_err());
    assert_eq!(result.unwrap_err().to_string(), "Test error: Condition error");
    assert_eq!(feedback.len(), 2);
}

fn never(_s: String) -> Result<bool, TestError> {
    Ok(false)
}

fn nested_flow() -> Flow {
    let inner = Flow::new().source().when().process().when().process();
    let outer = match inner.end() {
        Either::Left(b) => b,
        Either::Right(_) => panic!("a nested branch gives back the branch around it"),
    };
    let flow = match outer.end() {
        Either::Right(f) => f,
        Either::Left(_) => panic!("an outermost branch gives back the flow"),
    };
    flow.sink()
}

#[test]
fn nested_branch_is_recorded_inside_the_outer_one() {
    let flow = nested_flow();
    assert_eq!(flow.stage_count(), 2);
    match &flow.stages()[0] {
        Stage::Branch(b) => {
            assert_eq!(b.condition, 0);
            assert_eq!(b.then_branch.len(), 2);
            assert!(matches!(b.then_branch[0], Stage::Process(0)));
            match &b.then_branch[1] {
                Stage::Branch(inner) => {
                    assert_eq!(inner.condition, 1);
                    assert!(matches!(inner.then_branch[..], [Stage::Process(1)]));
                    assert!(inner.else_branch.is_empty());
                }
                _ => panic!("the nested branch closes the then side"),
            }
            assert!(b.else_branch.is_empty());
        }
        _ => panic!("the first stage is the branch"),
    }
}

#[test]
fn nested_branch_runs_like_a_top_level_one() {
    let (result, _, calls) = run_one(nested_flow(), "test", &[&test_processor, &test_processor], &[&test_condition, &test_condition], &[&keep]);
    assert_eq!(result.unwrap(), vec!["processed_processed_test".to_string()]);
    assert_eq!(calls, vec!["evaluate 0", "process 0", "evaluate 1", "process 1", "sink 0"]);
}

#[test]
fn nested_branch_condition_can_skip_its_side() {
    let (result, _, calls) = run_one(nested_flow(), "test", &[&test_processor, &test_processor], &[&test_condition, &never], &[&keep]);
    assert_eq!(result.unwrap(), vec!["processed_test".to_string()]);
    assert_eq!(calls, vec!["evaluate 0", "process 0", "evaluate 1", "sink 0"]);
}

#[test]
fn outer_condition_decides_before_the_nested_one() {
    let (result, _, calls) = run_one(nested_flow(), "other", &[&test_processor, &test_processor], &[&test_condition, &test_condition], &[&keep]);
    assert_eq!(result.unwrap(), vec!["other".to_string()]);
    assert_eq!(calls, vec!["evaluate 0", "sink 0"]);
}

#[test]
fn otherwise_on_a_nested_branch_keeps_the_outer_branch() {
    let flow = Flow::new().source().when().process().when().process().otherwise().process().end();
    assert_eq!(flow.stage_count(), 1);
    match &flow.stages()[0] {
        Stage::Branch(b) => {
            assert_eq!(b.condition, 0);
            assert_eq!(b.then_branch.len(), 2);
            assert!(matches!(b.then_branch[0], Stage::Process(0)));
            match &b.then_branch[1] {
                Stage::Branch(inner) => {
                    assert_eq!(inner.condition, 1);
                    assert!(matches!(inner.then_branch[..], [Stage::Process(1)]));
                    assert!(matches!(inner.else_branch[..], [Stage::Process(2)]));
                }
                _ => panic!("the nested branch closes the then side"),
            }
            assert!(b.else_branch.is_empty());
        }
        _ => panic!("the outer branch is the stage of the flow"),
    }
    let flow = flow.sink();
    let (result, _, calls) = run_one(flow, "test_x", &[&test_processor, &keep, &test_processor], &[&test_condition, &never], &[&keep]);
    assert_eq!(result.unwrap(), vec!["processed_processed_test_x".to_string()]);
    assert_eq!(calls, vec!["evaluate 0", "process 0", "evaluate 1", "process 2", "sink 0"]);
}

#[test]
fn components_are_numbered_in_order_of_registration() {
    let flow = Flow::new().source().process().when().process().otherwise().process().process().end().process().sink();
    let registry = flow.registry();
    assert_eq!(registry.processors, 5);
    assert_eq!(registry.conditions, 1);
    assert_eq!(registry.sinks, 1);
    assert!(matches!(flow.stages()[0], Stage::Process(0)));
    match &flow.stages()[1] {
        Stage::Branch(b) => {
            assert!(matches!(b.then_branch[0], Stage::Process(1)));
            assert!(matches!(b.else_branch[0], Stage::Process(2)));
            assert!(matches!(b.else_branch[1], Stage::Process(3)));
        }
        _ => panic!("the second stage is the branch"),
    }
    assert!(matches!(flow.stages()[2], Stage::Process(4)));
    assert!(matches!(flow.stages()[3], Stage::Sink(0)));
}

#[test]
fn validation_names_the_missing_part() {
    assert_eq!(Flow::new().validate().unwrap_err().to_string(), "Flow error: No source configured");
    assert_eq!(Flow::new().source().process().validate().unwrap_err().to_string(), "Flow error: No sink configured");
    assert!(Flow::new().source().process().sink().validate().is_ok());
}

#[test]
fn builder_checks_name_each_refusal() {
    assert_eq!(Flow::new().check_process().unwrap_err().to_string(), "Flow must start with a source");
    assert_eq!(Flow::new().check_when().unwrap_err().to_string(), "Flow must start with a source");
    assert_eq!(Flow::new().check_sink().unwrap_err().to_string(), "Flow must start with a source");
    assert_eq!(
        Flow::new().source().process().check_source().unwrap_err().to_string(),
        "Source must be the first component in a flow"
    );
    assert_eq!(
        Flow::new().source().process().sink().check_sink().unwrap_err().to_string(),
        "Flow already has a sink component"
    );
    assert!(Flow::new().source().check_process().is_ok());
    assert!(Flow::new().source().process().check_sink().is_ok());
}

#[test]
fn sink_error_is_reported_twice_and_ends_the_run() {
    fn bad_sink(_s: String) -> Result<String, TestError> {
        Err(TestError("disk full".to_string()))
    }
    let flow = Flow::new().source().process().sink();
    let (result, feedback, _) = run_one(flow, "x", &[&keep], &[], &[&bad_sink]);
    assert_eq!(result.unwrap_err().to_string(), "Test error: disk full");
    assert_eq!(feedback.len(), 2);
    assert!(feedback.iter().all(|f| matches!(f, Err(TestError(m)) if m == "disk full")));
}

#[test]
fn processor_error_in_a_branch_is_reported_twice() {
    fn failing(_s: String) -> Result<String, TestError> {
        Err(TestError("bad".to_string()))
    }
    let (result, feedback, calls) = run_one(branching_flow(), "test", &[&failing, &test_processor], &[&test_condition], &[&keep]);
    assert_eq!(result.unwrap_err().to_string(), "Test error: bad");
    assert_eq!(feedback.len(), 2);
    assert_eq!(calls, vec!["evaluate 0", "process 0"]);
}

fn holds_no_sink(stages: &[Stage]) -> bool {
    stages.iter().all(|s| match s {
        Stage::Sink(_) => false,
        Stage::Branch(b) => holds_no_sink(&b.then_branch) && holds_no_sink(&b.else_branch),
        Stage::Process(_) => true,
    })
}

#[test]
fn built_flow_ends_in_its_only_sink() {
    let flow = Flow::new().source().when().process().when().process().otherwise().process().end().process().sink();
    assert!(flow.has_source());
    assert!(flow.has_sink());
    let stages = flow.stages();
    assert_eq!(stages.len(), 3);
    assert!(matches!(stages[2], Stage::Sink(0)));
    assert!(holds_no_sink(&stages[..2]));
}

#[test]
fn flow_without_sink_holds_none() {
    let flow = Flow::new().source().process().when().process().otherwise().end();
    assert!(!flow.has_sink());
    assert!(holds_no_sink(flow.stages()));
}
