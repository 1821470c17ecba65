//! Settings of the assistant and their defaults.
//!
//! Shares (thresholds) are held in millionths, as everywhere in this crate.

use vstd::prelude::*;

verus! {

/// All settings.
#[derive(Debug, Clone)]
pub struct Config {
    pub model: ModelConfig,
    pub capture: CaptureConfig,
    pub storage: StorageConfig,
}

/// Which analyzer is asked, and how it is reached.
#[derive(Debug, Clone)]
pub struct ModelConfig {
    pub provider: String,
    pub api: ApiConfig,
    pub ollama: OllamaConfig,
}

/// An analyzer behind a web interface.
#[derive(Debug, Clone)]
pub struct ApiConfig {
    pub api_type: String,
    pub endpoint: String,
    pub api_key: String,
    pub model: String,
}

/// An analyzer on this machine.
#[derive(Debug, Clone)]
pub struct OllamaConfig {
    pub endpoint: String,
    pub model: String,
}

/// How frames are sampled, and when an alert is worth raising.
#[derive(Debug, Clone)]
pub struct CaptureConfig {
    pub enabled: bool,
    pub interval_ms: u64,
    pub compress_quality: u8,
    /// Leave out frames that show what the frame before them showed.
    pub skip_unchanged: bool,
    /// From which similarity on, in millionths, a frame counts as unchanged.
    pub change_threshold: u32,
    /// How many recent records are handed to the analyzer as context.
    pub recent_summary_limit: usize,
    /// How many of those, the most recent, carry their detail.
    pub recent_detail_limit: usize,
    /// From which confidence on, in millionths, an issue may raise an alert.
    pub alert_confidence_threshold: u32,
    /// How long one alert keeps its like quiet, in seconds.
    pub alert_cooldown_seconds: u64,
}

/// What is kept, and how much context is handed out.
#[derive(Debug, Clone)]
pub struct StorageConfig {
    pub retention_days: u32,
    pub max_screenshots: u32,
    /// The largest context, in characters.
    pub max_context_chars: usize,
}

/// Unchanged frames are left out unless the settings say otherwise.
pub fn default_skip_unchanged() -> (r: bool)
    ensures
        r,
{
    true
}

/// Frames that agree on 95 % of their fingerprint count as unchanged.
pub fn default_change_threshold() -> (r: u32)
    ensures
        r == 950_000,
{
    950_000
}

/// Eight recent records are handed to the analyzer as context.
pub fn default_recent_summary_limit() -> (r: usize)
    ensures
        r == 8,
{
    8
}

/// The three most recent of them carry their detail.
pub fn default_recent_detail_limit() -> (r: usize)
    ensures
        r == 3,
{
    3
}

/// An issue needs a confidence of 60 % to raise an alert.
pub fn default_alert_confidence_threshold() -> (r: u32)
    ensures
        r == 600_000,
{
    600_000
}

/// An alert keeps its like quiet for a minute.
pub fn default_alert_cooldown_seconds() -> (r: u64)
    ensures
        r == 60,
{
    60
}

/// A context holds ten thousand characters at most.
pub fn default_max_context_chars() -> (r: usize)
    ensures
        r == 10_000,
{
    10_000
}

impl Default for Config {
    fn default() -> (c: Self)
        ensures
            c.model.provider@ == "api"@,
            c.model.api.api_type@ == "openai"@,
            c.model.api.endpoint@ == "https://api.openai.com/v1"@,
            c.model.api.api_key@ == Seq::<char>::empty(),
            c.model.api.model@ == "gpt-4-vision-preview"@,
            c.model.ollama.endpoint@ == "http://localhost:11434"@,
            c.model.ollama.model@ == "llava"@,
            c.capture.enabled,
            c.capture.interval_ms == 1000,
            c.capture.compress_quality == 80,
            c.capture.skip_unchanged,
            c.capture.change_threshold == 950_000,
            c.capture.recent_summary_limit == 8,
            c.capture.recent_detail_limit == 3,
            c.capture.alert_confidence_threshold == 600_000,
            c.capture.alert_cooldown_seconds == 60,
            c.storage.retention_days == 7,
            c.storage.max_screenshots == 10_000,
            c.storage.max_context_chars == 10_000,
    {
        Config {
            model: ModelConfig {
                provider: "api".to_string(),
                api: ApiConfig {
                    api_type: "openai".to_string(),
                    endpoint: "https://api.openai.com/v1".to_string(),
                    api_key: String::new(),
                    model: "gpt-4-vision-preview".to_string(),
                },
                ollama: OllamaConfig {
                    endpoint: "http://localhost:11434".to_string(),
                    model: "llava".to_string(),
                },
            },
            capture: CaptureConfig {
                enabled: true,
                interval_ms: 1000,
                compress_quality: 80,
                skip_unchanged: default_skip_unchanged(),
                change_threshold: default_change_threshold(),
                recent_summary_limit: default_recent_summary_limit(),
                recent_detail_limit: default_recent_detail_limit(),
                alert_confidence_threshold: default_alert_confidence_threshold(),
                alert_cooldown_seconds: default_alert_cooldown_seconds(),
            },
            storage: StorageConfig {
                retention_days: 7,
                max_screenshots: 10_000,
                max_context_chars: default_max_context_chars(),
            },
        }
    }
}

} // verus!
