//! Watching the configuration file: the watcher's settings and lifecycle,
//! change detection by modification time, and what the reload handlers do.
use vstd::prelude::*;
use crate::middleware::{AuditOutcome, AuditRecord};

verus! {

/// A file modification time: seconds and nanoseconds since the epoch.
pub type Mtime = (u64, u32);

/// Polls a configuration file for changes.
pub struct FileConfigWatcher {
    config_path: String,
    poll_interval_secs: u64,
    running: bool,
    last_mtime: Option<Mtime>,
}

impl FileConfigWatcher {
    pub closed spec fn path(&self) -> Seq<char> {
        self.config_path@
    }

    pub closed spec fn interval(&self) -> u64 {
        self.poll_interval_secs
    }

    pub closed spec fn is_running(&self) -> bool {
        self.running
    }

    pub closed spec fn last_seen(&self) -> Option<Mtime> {
        self.last_mtime
    }

    /// A stopped watcher; the poll interval is at least one second.
    pub fn new(config_path: &str, poll_interval_secs: u64) -> (w: FileConfigWatcher)
        ensures
            w.path() == config_path@,
            w.interval() == (if poll_interval_secs < 1 { 1 } else { poll_interval_secs }),
            !w.is_running(),
            w.last_seen() is None,
    {
        FileConfigWatcher {
            config_path: config_path.to_string(),
            poll_interval_secs: if poll_interval_secs < 1 { 1 } else { poll_interval_secs },
            running: false,
            last_mtime: None,
        }
    }

    pub fn watcher_name(&self) -> (n: &'static str)
        ensures
            n@ == "file"@,
    {
        "file"
    }

    pub fn config_path(&self) -> (p: &str)
        ensures
            p@ == self.path(),
    {
        self.config_path.as_str()
    }

    pub fn poll_interval_secs(&self) -> (s: u64)
        ensures
            s == self.interval(),
    {
        self.poll_interval_secs
    }

    /// Starts watching, with the file's modification time at that moment;
    /// returns whether the polling loop is to be started (not when it already runs).
    pub fn start(&mut self, mtime: Option<Mtime>) -> (spawn: bool)
        ensures
            spawn == !old(self).is_running(),
            final(self).is_running(),
            final(self).last_seen() == (if spawn { mtime } else { old(self).last_seen() }),
            final(self).path() == old(self).path(),
            final(self).interval() == old(self).interval(),
    {
        if self.running {
            return false;
        }
        self.running = true;
        self.last_mtime = mtime;
        true
    }

    /// Stops watching.
    pub fn stop(&mut self)
        ensures
            !final(self).is_running(),
            final(self).path() == old(self).path(),
            final(self).interval() == old(self).interval(),
            final(self).last_seen() == old(self).last_seen(),
    {
        self.running = false;
    }

    /// One poll: whether the modification time differs from the last one
    /// seen (a file that appears or disappears counts); the new time is
    /// remembered.
    pub fn poll(&mut self, mtime: Option<Mtime>) -> (changed: bool)
        ensures
            changed == (mtime != old(self).last_seen()),
            final(self).last_seen() == mtime,
            final(self).is_running() == old(self).is_running(),
            final(self).path() == old(self).path(),
            final(self).interval() == old(self).interval(),
    {
        let changed = match (mtime, self.last_mtime) {
            (Some(a), Some(b)) => a.0 != b.0 || a.1 != b.1,
            (None, None) => false,
            _ => true,
        };
        self.last_mtime = mtime;
        changed
    }
}

/// Notes configuration reloads in the log and points out log settings that
/// need a restart.
pub struct LogConfigReloadHandler;

impl LogConfigReloadHandler {
    /// Whether the reloaded configuration has log output whose level
    /// changes only take effect after a restart.
    pub fn restart_notice(&self, stdout_enabled: bool, file_enabled: bool) -> (b: bool)
        ensures
            b == (stdout_enabled || file_enabled),
    {
        stdout_enabled || file_enabled
    }
}

/// Records configuration reloads in the audit trail.
pub struct AuditConfigReloadHandler;

impl AuditConfigReloadHandler {
    /// The record of a reload: the system reloaded the configuration.
    pub fn reload_record(&self) -> (r: AuditRecord)
        ensures
            r.actor@ == "system"@,
            r.action@ == "config.reload"@,
            r.resource_type@ == "config"@,
            r.resource_id is None,
            r.ip is None,
            r.outcome == AuditOutcome::Success,
    {
        AuditRecord {
            actor: "system".to_string(),
            action: "config.reload".to_string(),
            resource_type: "config".to_string(),
            resource_id: None,
            ip: None,
            outcome: AuditOutcome::Success,
        }
    }
}

} // verus!
