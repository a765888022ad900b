use rinfra_plugins::middleware::{query_lines, AuditFilter};
use rinfra_plugins::cache::{CacheOp, MultilevelCache, RedisCache, RedisCacheConfig, TieredStep};
use rinfra_plugins::config_watch::{AuditConfigReloadHandler, FileConfigWatcher, LogConfigReloadHandler};
use rinfra_plugins::error::{AppError, ErrorCode};
use rinfra_plugins::file_store::{make_relative, normalize_store_path, sort_by_path, FileInfo, IoOutcome, LocalFileStore};
use rinfra_plugins::health::{
    readiness, CacheHealthChecker, HealthCheckResult, HealthData, HealthStatus, MessageBusHealthChecker,
    StoreHealthChecker,
};
use rinfra_plugins::log::{init_outcome, log_layers, rotation_of, FileLogConfig, LogLayer, LogPluginConfigs, Rotation, StdoutLogConfig};
use rinfra_plugins::middleware::AuditOutcome;

#[test]
fn test_store_name() {
    let store = LocalFileStore::new("/tmp/test");
    assert_eq!(store.store_name(), "local");
}

#[test]
fn store_resolves_paths_below_the_root() {
    let store = LocalFileStore::new("/srv/files");
    assert_eq!(store.resolve("a/b.txt"), "/srv/files/a/b.txt");
    assert_eq!(store.resolve("/etc/passwd"), "/srv/files/etc/passwd");
    assert_eq!(store.resolve("../x"), "/srv/files/x");
    assert_eq!(store.resolve("a/../../b/./c//d"), "/srv/files/b/c/d");
    assert_eq!(store.resolve("a/b/.."), "/srv/files/a");
    assert_eq!(store.resolve(""), "/srv/files/");
    assert_eq!(LocalFileStore::new("/data/").resolve("x"), "/data/x");
}

#[test]
fn normalize_store_path_drops_dots_and_empty_segments() {
    assert_eq!(normalize_store_path("/a//b/./c/"), "a/b/c");
    assert_eq!(normalize_store_path("../../.."), "");
    assert_eq!(normalize_store_path("x/y/../z"), "x/z");
}

#[test]
fn make_relative_strips_root() {
    assert_eq!(make_relative("/data/files", "/data/files/dir/a.txt"), "dir/a.txt");
    assert_eq!(make_relative("/data/files", "/other/a.txt"), "/other/a.txt");
    assert_eq!(make_relative("/data/files", "/data/filesx/a.txt"), "/data/filesx/a.txt");
}

#[test]
fn store_results_map_io_outcomes() {
    let store = LocalFileStore::new("/tmp/test");
    assert!(store.delete_result(IoOutcome::Done).unwrap());
    assert!(!store.delete_result(IoOutcome::NotFound).unwrap());
    assert_eq!(store.delete_result(IoOutcome::Failed).unwrap_err().code, ErrorCode::FileDeleteFailed);
    assert_eq!(store.get_result(Err(IoOutcome::NotFound)).unwrap_err().code, ErrorCode::FileNotFound);
    assert_eq!(store.get_result(Err(IoOutcome::Failed)).unwrap_err().code, ErrorCode::FileReadFailed);
    assert_eq!(store.get_result(Ok(b"world".to_vec())).unwrap(), b"world");
    assert!(store.put_result(IoOutcome::Done, IoOutcome::Done).is_ok());
    assert_eq!(store.put_result(IoOutcome::Failed, IoOutcome::Done).unwrap_err().code, ErrorCode::FileWriteFailed);
    let info = store.metadata_result("meta.txt", Ok((5, Some(1700000000), false))).unwrap();
    assert_eq!(info.size, 5);
    assert!(!info.is_dir);
    assert!(info.last_modified.is_some());
    assert_eq!(store.metadata_result("m", Err(IoOutcome::NotFound)).unwrap_err().code, ErrorCode::FileNotFound);
}

#[test]
fn listing_is_relative_and_sorted() {
    let store = LocalFileStore::new("/root");
    let items = store.listing(vec![
        ("/root/dir/b.txt".to_string(), 2, None, false),
        ("/root/dir/a.txt".to_string(), 1, Some(3), false),
    ]);
    assert_eq!(items.len(), 2);
    assert_eq!(items[0].path, "dir/a.txt");
    assert_eq!(items[1].path, "dir/b.txt");
    assert_eq!(items[0].size, 1);
}

#[test]
fn sort_by_path_is_stable() {
    let f = |p: &str, size: u64| FileInfo { path: p.to_string(), size, last_modified: None, content_type: None, is_dir: false };
    let sorted = sort_by_path(vec![f("b", 1), f("a", 2), f("b", 3), f("a", 4)]);
    let got: Vec<(String, u64)> = sorted.into_iter().map(|i| (i.path, i.size)).collect();
    assert_eq!(got, vec![("a".to_string(), 2), ("a".to_string(), 4), ("b".to_string(), 1), ("b".to_string(), 3)]);
}

// ── Caches ──────────────────────────────────────────────────────────

#[test]
fn multilevel_read_through_and_backfill() {
    let c = MultilevelCache;
    assert!(matches!(c.after_first_read(Ok(Some(b"v".to_vec()))), TieredStep::Answer(Ok(Some(v))) if v == b"v"));
    assert!(matches!(c.after_first_read(Ok(None)), TieredStep::AskSecond));
    assert!(matches!(c.after_second_read(Ok(Some(b"w".to_vec()))), TieredStep::BackfillThenAnswer(v) if v == b"w"));
    assert!(matches!(c.after_second_read(Ok(None)), TieredStep::Answer(Ok(None))));
    let e = AppError::from_static(ErrorCode::CacheGetFailed, "down");
    assert!(matches!(c.after_first_read(Err(e)), TieredStep::Answer(Err(_))));
}

#[test]
fn multilevel_exists_and_writes() {
    let c = MultilevelCache;
    assert!(matches!(c.after_first_exists(Ok(true)), Some(Ok(true))));
    assert!(c.after_first_exists(Ok(false)).is_none());
    assert!(c.continue_to_second(&Ok(())));
    assert!(!c.continue_to_second(&Err(AppError::from_static(ErrorCode::CacheSetFailed, "x"))));
}

#[test]
fn redis_cache_rules() {
    let cache = RedisCache::new(&RedisCacheConfig { enabled: false, url: "redis://127.0.0.1:6379".into() });
    assert!(!cache.connects());
    assert_eq!(cache.not_connected().code, ErrorCode::CacheConnectionFailed);
    assert_eq!(cache.command_failed(CacheOp::Get).code, ErrorCode::CacheGetFailed);
    assert_eq!(cache.command_failed(CacheOp::Put).code, ErrorCode::CacheSetFailed);
    assert_eq!(cache.command_failed(CacheOp::Delete).code, ErrorCode::CacheDeleteFailed);
    assert_eq!(cache.expiry_secs(0), 1);
    assert_eq!(cache.expiry_secs(30), 30);
}

// ── Health ──────────────────────────────────────────────────────────

#[test]
fn readiness_without_probes_is_ready() {
    let r = readiness(vec![]);
    assert_eq!(r.http_status, 200);
    assert_eq!(r.status, "ready");
    assert!(r.checks.is_empty());
}

#[test]
fn readiness_with_a_failed_probe() {
    let db = StoreHealthChecker::new("db");
    let bus = MessageBusHealthChecker::new("bus");
    let cache = CacheHealthChecker::new("cache");
    let r = readiness(vec![
        (db.name().to_string(), db.judge(Ok(true))),
        (bus.name().to_string(), bus.judge(Ok(false))),
        (cache.name().to_string(), cache.judge(Ok(false))),
    ]);
    assert_eq!(r.http_status, 503);
    assert_eq!(r.status, "not_ready");
    assert_eq!(r.checks[0].status, "ok");
    assert_eq!(r.checks[1].status, "fail");
    assert_eq!(r.checks[1].error.as_deref(), Some("health check returned false"));
    assert_eq!(r.checks[2].status, "ok");
    assert_eq!(cache.probe_key(), "__health_probe__");
}

#[test]
fn degraded_probe_keeps_ready() {
    let r = readiness(vec![("x".into(), HealthCheckResult { status: HealthStatus::Degraded, error: None })]);
    assert_eq!(r.http_status, 200);
    assert_eq!(r.checks[0].status, "degraded");
    assert_eq!(HealthData::healthy().status, "healthy");
}

// ── Logging ─────────────────────────────────────────────────────────

#[test]
fn test_file_log_config_defaults() {
    let config = FileLogConfig::default_config();
    assert!(!config.enabled);
    assert_eq!(config.path, "logs");
    assert_eq!(config.filename, "app.log");
    assert_eq!(config.rotation, "daily");
    assert_eq!(config.max_files, 7);
    assert_eq!(config.level, "info");
    assert_eq!(config.format, "json");
}

#[test]
fn rotation_names() {
    assert_eq!(rotation_of("hourly"), Rotation::Hourly);
    assert_eq!(rotation_of("never"), Rotation::Never);
    assert_eq!(rotation_of("daily"), Rotation::Daily);
    assert_eq!(rotation_of("weekly"), Rotation::Daily);
}

#[test]
fn layers_follow_configuration() {
    let config = LogPluginConfigs {
        stdout: StdoutLogConfig { enabled: false, level: "info".into(), format: "pretty".into() },
        file: FileLogConfig::default_config(),
    };
    assert!(log_layers(&config, false).is_empty());
    let config = LogPluginConfigs {
        stdout: StdoutLogConfig { enabled: true, level: "info".into(), format: "json".into() },
        file: FileLogConfig { enabled: true, format: "text".into(), ..FileLogConfig::default_config() },
    };
    assert_eq!(log_layers(&config, true), vec![LogLayer::Stdout { json: true }, LogLayer::File { json: false }, LogLayer::Otel]);
}

#[test]
fn init_outcome_tolerates_existing_subscriber() {
    assert!(init_outcome(Ok(())).is_ok());
    assert!(init_outcome(Err("a global default trace dispatcher has already been set".into())).is_ok());
    assert_eq!(init_outcome(Err("bad filter".into())).unwrap_err().code, ErrorCode::LogInitFailed);
}

// ── Configuration watching ──────────────────────────────────────────

#[test]
fn watcher_settings_and_lifecycle() {
    let mut w = FileConfigWatcher::new("test.yaml", 0);
    assert_eq!(w.watcher_name(), "file");
    assert_eq!(w.poll_interval_secs(), 1);
    assert!(w.start(Some((10, 0))));
    assert!(!w.start(Some((11, 0))));
    assert!(!w.poll(Some((10, 0))));
    assert!(w.poll(Some((12, 5))));
    assert!(!w.poll(Some((12, 5))));
    assert!(w.poll(None));
    w.stop();
    assert!(w.start(None));
}

#[test]
fn reload_handlers() {
    assert!(LogConfigReloadHandler.restart_notice(true, false));
    assert!(!LogConfigReloadHandler.restart_notice(false, false));
    let r = AuditConfigReloadHandler.reload_record();
    assert_eq!(r.actor, "system");
    assert_eq!(r.action, "config.reload");
    assert_eq!(r.outcome, AuditOutcome::Success);
}

#[test]
fn audit_query_keeps_matching_records_in_order() {
    let lines: Vec<String> = vec![
        r#"{"actor":"alice","action":"login","resource_type":"user"}"#,
        "",
        "not json",
        r#"{"actor":"bob","action":"login"}"#,
        r#"{"actor":"alice","action":"logout","resource_type":"user"}"#,
        r#"{"actor":"alice","action":"login","resource_type":"doc"}"#,
    ]
    .into_iter()
    .map(String::from)
    .collect();
    let f = AuditFilter { actor: Some("alice".into()), action: None, resource_type: None, limit: 2 };
    let r = query_lines(&lines, &f);
    assert_eq!(r.len(), 2);
    assert_eq!(r[0]["action"], "login");
    assert_eq!(r[1]["action"], "logout");
    let by_type = AuditFilter { actor: None, action: Some("login".into()), resource_type: Some("doc".into()), limit: 10 };
    let r = query_lines(&lines, &by_type);
    assert_eq!(r.len(), 1);
    assert_eq!(r[0]["resource_type"], "doc");
    let zero = AuditFilter { actor: None, action: Some("login".into()), resource_type: None, limit: 0 };
    assert_eq!(query_lines(&lines, &zero).len(), 1);
}
