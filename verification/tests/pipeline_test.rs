use cortex_ai::pipeline::{Pipeline, PipelineNext, PipelineRun};
use cortex_ai::run::Event;

fn run_pipeline(
    pipeline: Pipeline,
    items: Vec<Result<i64, String>>,
    procs: &[&dyn Fn(i64) -> Result<i64, String>],
    conds: &[&dyn Fn(i64) -> Result<bool, String>],
) -> (Result<(), String>, Vec<i64>) {
    let mut seen = Vec::new();
    let mut run: PipelineRun<i64> = match pipeline.start() {
        Ok(r) => r,
        Err(e) => return (Err(e.to_string()), seen),
    };
    let mut event = Event::Opened(Ok(()));
    let mut items = items.into_iter();
    loop {
        assert!(run.accepts(&event));
        let (r, next) = run.step(event);
        run = r;
        event = match next {
            PipelineNext::Receive => match items.next() {
                Some(i) => Event::Item(i),
                None => Event::Closed,
            },
            PipelineNext::Process { processor, input } => {
                let out = procs[processor](input);
                if let Ok(v) = &out {
                    seen.push(*v);
                }
                Event::Processed(out)
            }
            PipelineNext::Evaluate { condition, input } => Event::Evaluated(conds[condition](input)),
            PipelineNext::Done(r) => return (r, seen),
        };
    }
}

fn double(x: i64) -> Result<i64, String> {
    Ok(x * 2)
}

fn negate(x: i64) -> Result<i64, String> {
    Ok(-x)
}

fn is_even(x: i64) -> Result<bool, String> {
    Ok(x % 2 == 0)
}

#[test]
fn pipeline_without_source_is_refused() {
    let (result, _) = run_pipeline(Pipeline::new().process(), vec![], &[&double], &[]);
    assert_eq!(result.unwrap_err(), "Pipeline source not set");
}

#[test]
fn pipeline_runs_each_item_through_its_branches() {
    let p = Pipeline::new().source().when().process().otherwise().process().end();
    let (result, seen) = run_pipeline(p, vec![Ok(2), Ok(3)], &[&double, &negate], &[&is_even]);
    assert!(result.is_ok());
    assert_eq!(seen, vec![4, -3]);
}

#[test]
fn pipeline_stops_at_the_first_error() {
    fn fail_on_three(x: i64) -> Result<i64, String> {
        if x == 3 { Err("three".to_string()) } else { Ok(x) }
    }
    let p = Pipeline::new().source().process().process();
    let (result, seen) = run_pipeline(p, vec![Ok(1), Ok(3), Ok(5)], &[&fail_on_three, &double], &[]);
    assert_eq!(result.unwrap_err(), "three");
    assert_eq!(seen, vec![1, 2]);
}

#[test]
fn pipeline_item_error_stops_the_run() {
    let p = Pipeline::new().source().process();
    let (result, seen) = run_pipeline(p, vec![Err("broken item".to_string()), Ok(1)], &[&double], &[]);
    assert_eq!(result.unwrap_err(), "broken item");
    assert!(seen.is_empty());
}
