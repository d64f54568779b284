use cortex_ai::error::FlowError;
use cortex_ai::sinks::{FileSinkConfig, SinkError, VectorStoreSinkConfig};
use cortex_ai::sources::{commits_offsets, consumer_settings, decimal_string, forward, KafkaConfig, Received, SourceError};

#[test]
fn test_kafka_config_default() {
    let config = KafkaConfig::default();
    assert_eq!(config.bootstrap_servers, "localhost:9092");
    assert_eq!(config.topic, "default-topic");
    assert_eq!(config.group_id, "cortex-consumer");
    assert_eq!(config.auto_offset_reset, "earliest");
    assert_eq!(config.session_timeout_ms, 6000);
}

#[test]
fn decimal_string_writes_numbers_like_to_string() {
    for n in [0u64, 7, 10, 6000, 1234567890, u64::MAX] {
        assert_eq!(decimal_string(n), n.to_string());
    }
}

#[test]
fn consumer_settings_follow_the_config() {
    let config = KafkaConfig {
        bootstrap_servers: "broker:9092".to_string(),
        topic: "click-events".to_string(),
        group_id: "click-processor".to_string(),
        auto_offset_reset: "latest".to_string(),
        session_timeout_ms: 45000,
    };
    let settings = consumer_settings(&config);
    let expected = vec![
        ("group.id", "click-processor"),
        ("bootstrap.servers", "broker:9092"),
        ("enable.auto.commit", "true"),
        ("auto.offset.reset", "latest"),
        ("session.timeout.ms", "45000"),
    ];
    assert_eq!(settings.len(), expected.len());
    for (got, want) in settings.iter().zip(expected) {
        assert_eq!((got.0.as_str(), got.1.as_str()), want);
    }
}

#[test]
fn forward_sends_items_and_failures() {
    assert!(matches!(forward(Received::Payload(Ok(5))), Some(Ok(5))));
    assert!(matches!(forward::<i32>(Received::Payload(Err("bad utf-8".to_string()))), Some(Err(SourceError::Custom(m))) if m == "bad utf-8"));
    assert!(forward::<i32>(Received::NoPayload).is_none());
    assert!(matches!(forward::<i32>(Received::Failed("broker down".to_string())), Some(Err(SourceError::Custom(m))) if m == "broker down"));
}

#[test]
fn offsets_are_committed_on_success_only() {
    assert!(commits_offsets::<i32, String>(&Ok(1)));
    assert!(!commits_offsets::<i32, String>(&Err("no".to_string())));
}

#[test]
fn source_and_sink_errors_render_as_text() {
    assert_eq!(SourceError::Io("gone".to_string()).to_string(), "IO error: gone");
    assert_eq!(SourceError::Custom("plain".to_string()).to_string(), "plain");
    assert_eq!(SinkError::Database("locked".to_string()).to_string(), "Database error: locked");
    assert_eq!(SinkError::VectorStore("dim".to_string()).to_string(), "Vector store error: dim");
    assert_eq!(SinkError::Custom("c".to_string()).to_string(), "c");
    assert_eq!(SinkError::Io("eof".to_string()).to_string(), "IO error: eof");
    assert_eq!(SinkError::Queue("full".to_string()).to_string(), "Queue error: full");
    assert_eq!(SinkError::Metrics("down".to_string()).to_string(), "Metrics error: down");
    let e = SourceError::from_flow_error(FlowError::NoSource);
    assert_eq!(e.to_string(), "Flow error: No source configured");
    let e = SinkError::from_flow_error(FlowError::Sink("x".to_string()));
    assert_eq!(e.to_string(), "Sink error: x");
}

#[test]
fn sink_configs_keep_their_settings_when_copied() {
    let file = FileSinkConfig { path: std::path::PathBuf::from("output.txt"), append: true };
    let copy = file.clone();
    assert_eq!(copy.path, std::path::PathBuf::from("output.txt"));
    assert!(copy.append);
    let store = VectorStoreSinkConfig {
        connection_string: "qdrant://local".to_string(),
        collection_name: "docs".to_string(),
        dimension: 768,
    };
    assert_eq!(store.clone().dimension, 768);
}
