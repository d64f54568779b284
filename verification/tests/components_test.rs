use cortex_ai::error::FlowError;
use cortex_ai::fields::{FieldCondition, FieldFilter};
use cortex_ai::processors::{FilterProcessor, TransformProcessor};

#[derive(Clone, Debug, PartialEq)]
struct Click {
    event_type: String,
    session_id: String,
}

fn click(event_type: &str, session_id: &str) -> Click {
    Click { event_type: event_type.to_string(), session_id: session_id.to_string() }
}

#[test]
fn filter_processor_keeps_accepted_items() {
    let f: FilterProcessor<i32, _, FlowError> = FilterProcessor::new(|x: &i32| *x > 10);
    assert_eq!(f.apply(30).unwrap(), 30);
    assert_eq!(f.apply(11).unwrap(), 11);
}

#[test]
fn filter_processor_filters_out_rejected_items() {
    let f: FilterProcessor<i32, _, FlowError> = FilterProcessor::new(|x: &i32| *x > 10);
    assert_eq!(f.apply(3).unwrap_err().to_string(), "Process error: Item filtered out");
    assert_eq!(f.apply(10).unwrap_err().to_string(), "Process error: Item filtered out");
}

#[test]
fn transform_processor_applies_its_function() {
    let t: TransformProcessor<i32, String, _, FlowError> = TransformProcessor::new(|x: i32| format!("n={}", x * 2));
    assert_eq!(t.apply(21).unwrap(), "n=42");
}

#[test]
fn field_filter_accepts_matching_items() {
    let f = FieldFilter::new(|c: &Click| c.event_type.clone(), "button_click".to_string());
    assert_eq!(f.apply(click("button_click", "s1")).unwrap(), click("button_click", "s1"));
}

#[test]
fn field_filter_rejects_with_a_message() {
    let f = FieldFilter::new(|c: &Click| c.event_type.clone(), "purchase".to_string());
    let err = f.apply(click("view", "s1")).unwrap_err();
    assert_eq!(err.to_string(), "Process error: Field mismatch: expected purchase, got view");
}

#[test]
fn field_condition_compares_the_field() {
    let c = FieldCondition::new(|c: &Click| c.session_id.clone(), "session123".to_string());
    assert_eq!(c.evaluate(click("view", "session123")).unwrap(), (true, Some(true)));
    assert_eq!(c.evaluate(click("view", "other")).unwrap(), (false, Some(true)));
}

#[test]
fn flow_errors_render_as_text() {
    assert_eq!(FlowError::Process("x".to_string()).to_string(), "Process error: x");
    assert_eq!(FlowError::Condition("c".to_string()).to_string(), "Condition error: c");
    assert_eq!(FlowError::Sink("s".to_string()).to_string(), "Sink error: s");
    assert_eq!(FlowError::Custom("boom".to_string()).to_string(), "Flow error: boom");
    assert_eq!(FlowError::NoSink.to_string(), "Flow error: No sink configured");
}
