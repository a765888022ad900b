//! Logging set-up decisions: which output layers a configuration asks for,
//! how a log file rotates, and which initialisation failures count.
use vstd::prelude::*;
use crate::error::{AppError, ErrorCode};
use crate::text::chars_of;
use crate::middleware::{contains_chars, contains_text};

verus! {

/// Settings of the standard-output log.
#[derive(Debug)]
pub struct StdoutLogConfig {
    pub enabled: bool,
    pub level: String,
    pub format: String,
}

/// Settings of the rolling file log.
#[derive(Debug)]
pub struct FileLogConfig {
    pub enabled: bool,
    pub path: String,
    pub filename: String,
    pub rotation: String,
    pub max_files: u32,
    pub level: String,
    pub format: String,
}

impl FileLogConfig {
    /// Off; daily files `logs/app.log*`, seven kept, JSON at `info`.
    pub fn default_config() -> (c: FileLogConfig)
        ensures
            !c.enabled,
            c.path@ == "logs"@,
            c.filename@ == "app.log"@,
            c.rotation@ == "daily"@,
            c.max_files == 7,
            c.level@ == "info"@,
            c.format@ == "json"@,
    {
        FileLogConfig {
            enabled: false,
            path: "logs".to_string(),
            filename: "app.log".to_string(),
            rotation: "daily".to_string(),
            max_files: 7,
            level: "info".to_string(),
            format: "json".to_string(),
        }
    }
}

/// Both log outputs.
#[derive(Debug)]
pub struct LogPluginConfigs {
    pub stdout: StdoutLogConfig,
    pub file: FileLogConfig,
}

/// When a log file starts anew.
#[derive(Debug, Clone, Copy, PartialEq, Eq, Structural)]
pub enum Rotation {
    Hourly,
    Daily,
    Never,
}

/// `hourly` and `never` are taken as such; anything else rotates daily.
pub open spec fn spec_rotation(s: Seq<char>) -> Rotation {
    if s == "hourly"@ {
        Rotation::Hourly
    } else if s == "never"@ {
        Rotation::Never
    } else {
        Rotation::Daily
    }
}

pub fn rotation_of(s: &str) -> (r: Rotation)
    ensures
        r == spec_rotation(s@),
{
    let t = s.to_string();
    if t == "hourly".to_string() {
        Rotation::Hourly
    } else if t == "never".to_string() {
        Rotation::Never
    } else {
        Rotation::Daily
    }
}

/// One output layer of the subscriber.
#[derive(Debug, Clone, Copy, PartialEq, Eq, Structural)]
pub enum LogLayer {
    /// Standard output; `json` when the format says so, else human-readable.
    Stdout { json: bool },
    /// The rolling file, without colours.
    File { json: bool },
    /// The OpenTelemetry exporter.
    Otel,
}

/// The layers a configuration asks for, in the order they are stacked.
pub open spec fn spec_layers(stdout_enabled: bool, stdout_json: bool, file_enabled: bool, file_json: bool, otel: bool) -> Seq<LogLayer> {
    (if stdout_enabled { seq![LogLayer::Stdout { json: stdout_json }] } else { Seq::empty() })
    + (if file_enabled { seq![LogLayer::File { json: file_json }] } else { Seq::empty() })
    + (if otel { seq![LogLayer::Otel] } else { Seq::empty() })
}

/// The layers to install; empty when nothing is enabled, in which case no
/// subscriber is installed at all.
pub fn log_layers(config: &LogPluginConfigs, otel: bool) -> (v: Vec<LogLayer>)
    ensures
        v@ == spec_layers(config.stdout.enabled, config.stdout.format@ == "json"@, config.file.enabled,
            config.file.format@ == "json"@, otel),
{
    let mut v: Vec<LogLayer> = Vec::new();
    let json = "json".to_string();
    if config.stdout.enabled {
        v.push(LogLayer::Stdout { json: config.stdout.format == json });
    }
    if config.file.enabled {
        v.push(LogLayer::File { json: config.file.format == json });
    }
    if otel {
        v.push(LogLayer::Otel);
    }
    assert(v@ =~= spec_layers(config.stdout.enabled, config.stdout.format@ == "json"@, config.file.enabled,
        config.file.format@ == "json"@, otel));
    v
}

/// The outcome of installing the subscriber: a subscriber installed
/// earlier (an error saying the global default "already been set") is no
/// failure; any other error is `LogInitFailed`.
pub fn init_outcome(result: Result<(), String>) -> (r: Result<(), AppError>)
    ensures
        match result {
            Ok(()) => r is Ok,
            Err(msg) => if contains_text(msg@, "already been set"@) {
                r is Ok
            } else {
                r matches Err(e) && e.code == ErrorCode::LogInitFailed
            },
        },
{
    match result {
        Ok(()) => Ok(()),
        Err(msg) => {
            let cs = chars_of(msg.as_str());
            let needle = chars_of("already been set");
            if contains_chars(cs.as_slice(), needle.as_slice()) {
                Ok(())
            } else {
                Err(AppError::from_static(ErrorCode::LogInitFailed, "failed to initialize logging"))
            }
        },
    }
}

} // verus!
