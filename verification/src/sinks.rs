//! Errors and settings of sinks.
use vstd::prelude::*;
use vstd::string::StringExecFns;
use crate::error::FlowError;

verus! {

/// The path type of file sinks.
#[verifier::external_type_specification]
#[verifier::external_body]
pub struct ExPathBuf(std::path::PathBuf);

/// `PathBuf::clone` copies the path; nothing of the copy is stated here, as
/// the path is opaque to the contracts.
pub assume_specification[ <std::path::PathBuf as Clone>::clone ](p: &std::path::PathBuf) -> std::path::PathBuf;

/// Errors that can occur when working with sinks.
#[derive(Debug)]
pub enum SinkError {
    /// An IO error occurred.
    Io(String),
    /// A database error occurred.
    Database(String),
    /// A queue error occurred.
    Queue(String),
    /// A metrics error occurred.
    Metrics(String),
    /// A vector store error occurred.
    VectorStore(String),
    /// A custom error occurred.
    Custom(String),
}

impl Clone for SinkError {
    /// A copy equal to the original: same variant, same text.
    fn clone(&self) -> (r: Self)
        ensures
            r == *self,
    {
        match self {
            SinkError::Io(m) => SinkError::Io(m.clone()),
            SinkError::Database(m) => SinkError::Database(m.clone()),
            SinkError::Queue(m) => SinkError::Queue(m.clone()),
            SinkError::Metrics(m) => SinkError::Metrics(m.clone()),
            SinkError::VectorStore(m) => SinkError::VectorStore(m.clone()),
            SinkError::Custom(m) => SinkError::Custom(m.clone()),
        }
    }
}

impl SinkError {
    /// The human-readable text of the error.
    pub open spec fn message(&self) -> Seq<char> {
        match self {
            SinkError::Io(m) => "IO error: "@ + m@,
            SinkError::Database(m) => "Database error: "@ + m@,
            SinkError::Queue(m) => "Queue error: "@ + m@,
            SinkError::Metrics(m) => "Metrics error: "@ + m@,
            SinkError::VectorStore(m) => "Vector store error: "@ + m@,
            SinkError::Custom(m) => m@,
        }
    }

    /// Renders the error as text.
    pub fn to_string(&self) -> (text: String)
        ensures
            text@ == self.message(),
    {
        match self {
            SinkError::Io(m) => String::from_str("IO error: ").concat(m.as_str()),
            SinkError::Database(m) => String::from_str("Database error: ").concat(m.as_str()),
            SinkError::Queue(m) => String::from_str("Queue error: ").concat(m.as_str()),
            SinkError::Metrics(m) => String::from_str("Metrics error: ").concat(m.as_str()),
            SinkError::VectorStore(m) => String::from_str("Vector store error: ").concat(m.as_str()),
            SinkError::Custom(m) => String::from_str(m.as_str()),
        }
    }

    /// A flow error becomes a custom sink error carrying its text.
    pub fn from_flow_error(err: FlowError) -> (e: SinkError)
        ensures
            e matches SinkError::Custom(m) && m@ == err.message(),
    {
        SinkError::Custom(err.to_string())
    }
}

/// Configuration for file system sinks.
#[derive(Debug, Clone)]
pub struct FileSinkConfig {
    /// Path to write output to.
    pub path: std::path::PathBuf,
    /// Whether to append to an existing file.
    pub append: bool,
}

/// Configuration for database sinks.
#[derive(Debug, Clone)]
pub struct DatabaseSinkConfig {
    /// Database connection string.
    pub connection_string: String,
    /// Table or collection name.
    pub table_name: String,
}

/// Configuration for message queue sinks.
#[derive(Debug, Clone)]
pub struct QueueSinkConfig {
    /// Queue connection string.
    pub connection_string: String,
    /// Queue or topic name.
    pub queue_name: String,
}

/// Configuration for metrics sinks.
#[derive(Debug, Clone)]
pub struct MetricsSinkConfig {
    /// Metrics endpoint.
    pub endpoint: String,
    /// Metric name.
    pub metric_name: String,
}

/// Configuration for vector store sinks.
#[derive(Debug, Clone)]
pub struct VectorStoreSinkConfig {
    /// Vector store connection string.
    pub connection_string: String,
    /// Collection name.
    pub collection_name: String,
    /// Vector dimension.
    pub dimension: usize,
}

} // verus!
