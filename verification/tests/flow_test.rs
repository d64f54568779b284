use cortex_ai::composer::Flow;
use cortex_ai::error::FlowError;
use cortex_ai::run::{Event, FlowRun, Next};

type Proc<'a, E> = &'a dyn Fn(String) -> Result<String, E>;
type Cond<'a, E> = &'a dyn Fn(String) -> Result<bool, E>;

struct World<'a, E> {
    opened: Result<(), E>,
    items: Vec<Result<String, E>>,
    shutdown_first: bool,
    processors: Vec<Proc<'a, E>>,
    conditions: Vec<Cond<'a, E>>,
    sinks: Vec<Proc<'a, E>>,
}

impl<'a, E> World<'a, E> {
    fn new(items: Vec<Result<String, E>>) -> Self {
        World {
            opened: Ok(()),
            items,
            shutdown_first: false,
            processors: Vec::new(),
            conditions: Vec::new(),
            sinks: Vec::new(),
        }
    }
}

/// Runs a flow to its end, answering its requests from `world`; gives the
/// outcome and all feedback sent.
fn run_flow<E: Clone + From<FlowError>>(flow: Flow, world: World<E>) -> (Result<Vec<String>, E>, Vec<Result<String, E>>) {
    let mut feedback = Vec::new();
    let mut run: FlowRun<String> = match flow.start() {
        Ok(r) => r,
        Err(e) => return (Err(E::from(e)), feedback),
    };
    let mut event = Event::Opened(world.opened);
    let mut items = world.items.into_iter();
    let mut shutdown = world.shutdown_first;
    loop {
        assert!(run.accepts(&event));
        let (next_run, action) = run.step(event);
        run = next_run;
        feedback.extend(action.feedback);
        event = match action.next {
            Next::Receive => {
                if shutdown {
                    shutdown = false;
                    Event::Shutdown
                } else {
                    match items.next() {
                        Some(item) => Event::Item(item),
                        None => Event::Closed,
                    }
                }
            }
            Next::Process { processor, input } => Event::Processed((world.processors[processor])(input)),
            Next::Evaluate { condition, input } => Event::Evaluated((world.conditions[condition])(input)),
            Next::Sink { sink, input } => Event::Sunk((world.sinks[sink])(input)),
            Next::Done(r) => return (r, feedback),
        };
    }
}

fn passthrough(s: String) -> Result<String, FlowError> {
    Ok(s)
}

fn error_processor(_s: String) -> Result<String, FlowError> {
    Err(FlowError::Process("Processing failed".to_string()))
}

fn test_sink(s: String) -> Result<String, FlowError> {
    Ok(s)
}

fn contains_test(s: String) -> Result<bool, FlowError> {
    Ok(s.contains("test"))
}

fn source_process_sink() -> Flow {
    Flow::new().source().process().sink()
}

fn world_with<'a>(items: Vec<Result<String, FlowError>>) -> World<'a, FlowError> {
    let mut w = World::new(items);
    w.processors.push(&passthrough);
    w.sinks.push(&test_sink);
    w
}

#[test]
fn it_should_error_when_source_not_set() {
    let flow = Flow::new();
    let (result, _) = run_flow::<FlowError>(flow, World::new(vec![]));
    assert!(result.is_err());
    assert_eq!(result.unwrap_err().to_string(), "Flow error: No source configured");
}

#[test]
fn it_should_handle_source_stream_error() {
    let mut w = world_with(vec![]);
    w.opened = Err(FlowError::Source("Stream initialization error".to_string()));
    let (result, feedback) = run_flow(source_process_sink(), w);
    assert!(result.is_err());
    assert_eq!(result.unwrap_err().to_string(), "Source error: Stream initialization error");
    assert!(feedback.is_empty());
}

#[test]
fn it_should_handle_processor_error() {
    let mut w = world_with(vec![Ok("test_input".to_string())]);
    w.processors[0] = &error_processor;
    let (result, feedback) = run_flow(source_process_sink(), w);
    assert!(result.is_err());
    assert_eq!(result.unwrap_err().to_string(), "Process error: Processing failed");
    assert_eq!(feedback.len(), 2);
}

#[test]
fn it_should_handle_empty_source() {
    let (result, _) = run_flow(source_process_sink(), world_with(vec![]));
    assert!(result.is_ok());
    assert_eq!(result.unwrap().len(), 0);
}

#[test]
fn it_should_create_flow_using_default() {
    let flow = Flow::default();
    let (result, _) = run_flow::<FlowError>(flow, World::new(vec![]));
    assert!(result.is_err());
    assert_eq!(result.unwrap_err().to_string(), "Flow error: No source configured");
}

#[test]
fn it_should_send_error_feedback_for_source_errors() {
    let w = world_with(vec![Err(FlowError::Source("Source error".to_string()))]);
    let (result, feedback) = run_flow(source_process_sink(), w);
    assert!(result.is_err());
    assert_eq!(result.unwrap_err().to_string(), "Source error: Source error");
    assert_eq!(feedback.len(), 1);
    assert!(matches!(&feedback[0], Err(e) if e.to_string() == "Source error: Source error"));
}

fn skip_processor(_s: String) -> Result<String, FlowError> {
    Ok("skipped".to_string())
}

#[test]
fn it_should_handle_skipped_items() {
    let mut w = world_with(vec![Ok("skip_me".to_string())]);
    w.processors[0] = &skip_processor;
    let (result, feedback) = run_flow(source_process_sink(), w);
    assert!(result.is_ok());
    let results = result.unwrap();
    assert_eq!(results.len(), 1);
    assert_eq!(results[0], "skipped");
    assert_eq!(feedback.len(), 1);
    assert!(matches!(&feedback[0], Ok(msg) if msg == "skipped"));
}

#[test]
fn it_should_set_source() {
    let (result, _) = run_flow(source_process_sink(), world_with(vec![Ok("test".to_string())]));
    assert!(result.is_ok());
}

#[test]
fn it_should_handle_source_item_error() {
    let w = world_with(vec![Err(FlowError::Source("Source error".to_string()))]);
    let (result, feedback) = run_flow(source_process_sink(), w);
    assert!(result.is_err());
    assert_eq!(result.unwrap_err().to_string(), "Source error: Source error");
    assert_eq!(feedback.len(), 1);
    assert!(matches!(&feedback[0], Err(e) if e.to_string() == "Source error: Source error"));
}

#[test]
fn it_should_return_empty_vec_when_no_items_processed() {
    let (result, _) = run_flow(source_process_sink(), world_with(vec![]));
    assert!(result.is_ok());
    assert!(result.unwrap().is_empty());
}

#[test]
fn it_should_add_processor_to_stages() {
    let (result, _) = run_flow(source_process_sink(), world_with(vec![Ok("test".to_string())]));
    assert!(result.is_ok());
    let results = result.unwrap();
    assert_eq!(results.len(), 1);
    assert_eq!(results[0], "test");
}

#[test]
fn it_should_preserve_source_after_setting() {
    let source_data = "test".to_string();
    let (result, _) = run_flow(source_process_sink(), world_with(vec![Ok(source_data.clone())]));
    assert!(result.is_ok());
    let results = result.unwrap();
    assert_eq!(results.len(), 1);
    assert_eq!(results[0], source_data);
}

#[test]
fn it_should_handle_source_item_with_feedback() {
    let test_data = "test_data".to_string();
    let (result, feedback) = run_flow(source_process_sink(), world_with(vec![Ok(test_data.clone())]));
    assert!(result.is_ok());
    let results = result.unwrap();
    assert_eq!(results.len(), 1);
    assert_eq!(results[0], test_data);
    assert_eq!(feedback.len(), 1);
    assert!(matches!(&feedback[0], Ok(data) if data == &test_data));
}

#[test]
fn it_should_process_multiple_items() {
    let w = world_with(vec![Ok("item1".to_string()), Ok("item2".to_string())]);
    let (result, _) = run_flow(source_process_sink(), w);
    assert!(result.is_ok());
    let results = result.unwrap();
    assert_eq!(results.len(), 2);
    assert_eq!(results, vec!["item1".to_string(), "item2".to_string()]);
}

#[test]
fn it_should_show_tracing_metrics() {
    let flow = Flow::new().source().process().when().process().otherwise().process().end().sink();
    let mut w = world_with(vec![Ok("test_data".to_string())]);
    w.processors.push(&passthrough);
    w.processors.push(&passthrough);
    w.conditions.push(&contains_test);
    let (result, _) = run_flow(flow, w);
    assert!(result.is_ok());
}

#[test]
fn it_should_require_processor_before_sink() {
    let flow = Flow::new().source();
    let refused = flow.check_sink();
    assert!(refused.is_err());
    assert!(refused
        .unwrap_err()
        .to_string()
        .contains("Flow must have at least one processor or condition before sink"));
}

#[test]
fn it_should_not_allow_processor_after_sink() {
    let flow = Flow::new().source().process().sink();
    let refused = flow.check_process();
    assert!(refused.unwrap_err().to_string().contains("Cannot add processor after sink"));
}

#[test]
fn it_should_not_allow_condition_after_sink() {
    let flow = Flow::new().source().process().sink();
    let refused = flow.check_when();
    assert!(refused.unwrap_err().to_string().contains("Cannot add condition after sink"));
}

#[test]
fn it_should_error_when_sink_not_set() {
    let flow = Flow::new().source().process();
    let (result, _) = run_flow(flow, world_with(vec![Ok("test".to_string())]));
    assert!(result.is_err());
    assert_eq!(result.unwrap_err().to_string(), "Flow error: No sink configured");
}

fn error_sink(_s: String) -> Result<String, FlowError> {
    Err(FlowError::Sink("Sink error".to_string()))
}

#[test]
fn it_should_handle_sink_error() {
    let mut w = world_with(vec![Ok("test".to_string())]);
    w.sinks[0] = &error_sink;
    let (result, feedback) = run_flow(source_process_sink(), w);
    assert!(matches!(&feedback[0], Err(e) if e.to_string().contains("Sink error")));
    assert!(result.is_err());
    assert!(result.unwrap_err().to_string().contains("Sink error"));
}

#[test]
fn it_should_handle_concurrent_processing() {
    let items = (0..5).map(|i| Ok(format!("item{}", i))).collect();
    let (result, feedback) = run_flow(source_process_sink(), world_with(items));
    assert!(result.is_ok());
    assert_eq!(result.unwrap().len(), 5);
    assert_eq!(feedback.len(), 5);
}

#[test]
fn it_should_handle_shutdown_during_processing() {
    let items = (0..50).map(|i| Ok(format!("item{}", i))).collect();
    let mut w = world_with(items);
    w.shutdown_first = true;
    let (result, _) = run_flow(source_process_sink(), w);
    assert!(result.is_ok());
    assert!(result.unwrap().len() < 50);
}

#[test]
fn it_should_handle_slow_processor() {
    let (result, _) = run_flow(source_process_sink(), world_with(vec![Ok("test".to_string())]));
    assert!(result.is_ok());
}

#[test]
fn it_should_handle_channel_closure() {
    let (result, _) = run_flow(source_process_sink(), world_with(vec![]));
    assert!(result.is_ok());
    assert!(result.unwrap().is_empty());
}
