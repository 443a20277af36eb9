//! The records that producers submit, and the configuration of the
//! aggregator.

use vstd::prelude::*;
use vstd::string::StringExecFns;
use crate::json::JsonValue;

verus! {

/// A timestamped, typed record from one source, with free-form metadata.
#[derive(Clone, Debug)]
pub struct Event {
    /// Milliseconds since the epoch.
    pub timestamp: i64,
    pub source: String,
    pub event_type: String,
    pub metadata: JsonValue,
    pub partition_key: Option<String>,
}

/// How a captured text came to be on screen.
#[derive(Clone, Copy, Debug, PartialEq, Eq, Structural)]
pub enum TextType {
    /// Written by the user: typed or pasted.
    Input,
    /// Produced by the application.
    Output,
    /// Already there and only viewed.
    Static,
}

/// Where in the user interface a text was captured.
#[derive(Clone, Debug)]
pub struct CaptureContext {
    pub element_type: String,
    pub parent_element: String,
    pub url: Option<String>,
    pub interaction_type: String,
}

/// A snippet of text captured from an application window.
#[derive(Clone, Debug)]
pub struct TextCapture {
    pub text: String,
    pub app_name: String,
    pub window_title: String,
    /// Milliseconds since the epoch.
    pub timestamp: i64,
    pub text_type: TextType,
    pub context: CaptureContext,
    pub partition_key: Option<String>,
}

/// Settings of the text pipeline.
#[derive(Clone, Debug)]
pub struct TextCaptureConfig {
    /// Captures shorter than this are dropped.
    pub min_text_length: usize,
    /// Captures at least this long are stored with a summary.
    pub summarization_threshold: usize,
    pub model_path: String,
    pub enable_accessibility: bool,
}

/// Settings of the aggregator.
#[derive(Clone, Debug)]
pub struct AggregatorConfig {
    pub db_path: String,
    pub encryption_key: String,
    /// Number of buffered records that triggers a flush.
    pub batch_size: usize,
    /// Period of the timer that flushes a buffer that is not full.
    pub batch_interval_ms: u64,
    pub text_capture_config: TextCaptureConfig,
}

impl Default for TextCaptureConfig {
    fn default() -> (config: Self)
        ensures
            config.min_text_length == 10,
            config.summarization_threshold == 1000,
            config.model_path@ == "models/bart-large-cnn"@,
            config.enable_accessibility,
    {
        TextCaptureConfig {
            min_text_length: 10,
            summarization_threshold: 1000,
            model_path: String::from_str("models/bart-large-cnn"),
            enable_accessibility: true,
        }
    }
}

impl Default for AggregatorConfig {
    fn default() -> (config: Self)
        ensures
            config.db_path@ == "activity.db"@,
            config.encryption_key@ == "default-key"@,
            config.batch_size == 100,
            config.batch_interval_ms == 5000,
            config.text_capture_config.min_text_length == 10,
            config.text_capture_config.summarization_threshold == 1000,
            config.text_capture_config.model_path@ == "models/bart-large-cnn"@,
            config.text_capture_config.enable_accessibility,
    {
        AggregatorConfig {
            db_path: String::from_str("activity.db"),
            encryption_key: String::from_str("default-key"),
            batch_size: 100,
            batch_interval_ms: 5000,
            text_capture_config: TextCaptureConfig::default(),
        }
    }
}

/// The length of a text as the pipeline measures it: its size in bytes when
/// encoded as UTF-8.
pub open spec fn text_length(text: Seq<char>) -> usize {
    vstd::utf8::encode_utf8(text).len() as usize
}

/// The length of a text in bytes.
pub fn text_len(text: &String) -> (n: usize)
    ensures
        n == text_length(text@),
{
    text.as_str().len()
}

} // verus!
