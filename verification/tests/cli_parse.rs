use rinfra_plugins::cli::{
    collect_enabled, find_config, plan, plugin_list, select_config, CacheArgs, CacheCommands, Cli, CliClient,
    CliErrorKind, CliOutputFormat, CliTask, ClientSettings, ClusterCacheCommands, ClusterCommands, Commands,
    ConfigCommands, ListenerProtocol, ListenerSpec, MqBackend, PluginSettings, ServerCommands,
};
use rinfra_plugins::cli::{client_settings, config_listeners, listener_protocol, mq_backend, plugin_settings};
use rinfra_plugins::config::ConfigValue;

#[test]
fn test_cli_parses_server_start() {
    let cli = Cli::parse_from(&["rinfra", "server", "start"]);
    assert!(matches!(cli.command, Some(Commands::Server(_))));
    if let Some(Commands::Server(args)) = cli.command {
        assert!(matches!(args.command, ServerCommands::Start));
    }
}

#[test]
fn test_cli_no_subcommand_is_none() {
    let cli = Cli::parse_from(&["rinfra"]);
    assert!(cli.command.is_none());
}

#[test]
fn test_cli_parses_plugin_list_json() {
    let cli = Cli::parse_from(&["rinfra", "--format", "json", "plugin", "list"]);
    assert_eq!(cli.format, CliOutputFormat::Json);
    assert!(matches!(cli.command, Some(Commands::Plugin(_))));
}

#[test]
fn test_cli_parses_config_show() {
    let cli = Cli::parse_from(&["rinfra", "config", "show"]);
    if let Some(Commands::Config(args)) = cli.command {
        if let ConfigCommands::Show(show_args) = args.command {
            assert!(!show_args.defaults);
        } else {
            panic!("expected ConfigCommands::Show");
        }
    } else {
        panic!("expected Commands::Config");
    }
}

#[test]
fn test_cli_parses_config_show_defaults() {
    let cli = Cli::parse_from(&["rinfra", "config", "show", "--defaults"]);
    if let Some(Commands::Config(args)) = cli.command {
        if let ConfigCommands::Show(show_args) = args.command {
            assert!(show_args.defaults);
        } else {
            panic!("expected ConfigCommands::Show");
        }
    } else {
        panic!("expected Commands::Config");
    }
}

#[test]
fn test_cli_parses_config_init() {
    let cli = Cli::parse_from(&["rinfra", "config", "init"]);
    if let Some(Commands::Config(args)) = cli.command {
        if let ConfigCommands::Init(init_args) = args.command {
            assert_eq!(init_args.output, "rinfra.standalone.yaml");
            assert!(!init_args.force);
        } else {
            panic!("expected ConfigCommands::Init");
        }
    } else {
        panic!("expected Commands::Config");
    }
}

#[test]
fn test_cli_parses_config_init_with_options() {
    let cli = Cli::parse_from(&["rinfra", "config", "init", "-o", "my.yaml", "--force"]);
    if let Some(Commands::Config(args)) = cli.command {
        if let ConfigCommands::Init(init_args) = args.command {
            assert_eq!(init_args.output, "my.yaml");
            assert!(init_args.force);
        } else {
            panic!("expected ConfigCommands::Init");
        }
    } else {
        panic!("expected Commands::Config");
    }
}

#[test]
fn test_cli_parses_config_validate() {
    let cli = Cli::parse_from(&["rinfra", "config", "validate"]);
    if let Some(Commands::Config(args)) = cli.command {
        assert!(matches!(args.command, ConfigCommands::Validate));
    } else {
        panic!("expected Commands::Config");
    }
}

#[test]
fn test_cli_parses_cache_get() {
    let cli = Cli::parse_from(&["rinfra", "cache", "get", "my-key"]);
    if let Some(Commands::Cache(args)) = cli.command {
        if let CacheCommands::Get { key } = args.command {
            assert_eq!(key, "my-key");
        } else {
            panic!("expected CacheCommands::Get");
        }
    } else {
        panic!("expected Commands::Cache");
    }
}

#[test]
fn test_cli_parses_cache_flush() {
    let cli = Cli::parse_from(&["rinfra", "cache", "flush"]);
    assert!(matches!(cli.command, Some(Commands::Cache(CacheArgs { command: CacheCommands::Flush }))));
}

#[test]
fn test_cli_parses_cluster_nodes() {
    let cli = Cli::parse_from(&["rinfra", "cluster", "nodes"]);
    if let Some(Commands::Cluster(args)) = cli.command {
        assert!(args.target.is_none());
        assert!(matches!(args.command, ClusterCommands::Nodes));
    } else {
        panic!("expected Commands::Cluster");
    }
}

#[test]
fn test_cli_parses_cluster_with_target() {
    let cli = Cli::parse_from(&["rinfra", "cluster", "--target", "192.168.1.10:8089", "nodes"]);
    if let Some(Commands::Cluster(args)) = cli.command {
        assert_eq!(args.target, Some("192.168.1.10:8089".to_string()));
    } else {
        panic!("expected Commands::Cluster");
    }
}

#[test]
fn test_cli_parses_cluster_cache_get() {
    let cli = Cli::parse_from(&["rinfra", "cluster", "cache", "get", "foo"]);
    if let Some(Commands::Cluster(args)) = cli.command {
        if let ClusterCommands::Cache(cache_args) = args.command {
            assert!(matches!(cache_args.command, ClusterCacheCommands::Get { key } if key == "foo"));
        } else {
            panic!("expected ClusterCommands::Cache");
        }
    }
}

#[test]
fn test_cli_parses_cluster_cache_flush() {
    let cli = Cli::parse_from(&["rinfra", "cluster", "cache", "flush", "--yes"]);
    if let Some(Commands::Cluster(args)) = cli.command {
        if let ClusterCommands::Cache(cache_args) = args.command {
            assert!(matches!(cache_args.command, ClusterCacheCommands::Flush { yes: true }));
        } else {
            panic!("expected ClusterCommands::Cache");
        }
    }
}

#[test]
fn test_cli_default_config_path() {
    let cli = Cli::parse_from(&["rinfra", "server", "start"]);
    assert_eq!(cli.config, "config/standalone.example.yaml");
}

#[test]
fn test_cli_custom_config_path() {
    let cli = Cli::parse_from(&["rinfra", "--config", "my.yaml", "server", "start"]);
    assert_eq!(cli.config, "my.yaml");
}

#[test]
fn test_find_config_prefers_hint_when_it_exists() {
    let path = find_config("Cargo.toml");
    assert_eq!(path, "Cargo.toml");
}

// ── Further parsing cases ───────────────────────────────────────────

#[test]
fn cli_global_options_after_subcommand() {
    let cli = Cli::parse_from(&["rinfra", "cache", "get", "k", "--format=json", "--config=c.yaml"]);
    assert_eq!(cli.format, CliOutputFormat::Json);
    assert_eq!(cli.config, "c.yaml");
}

#[test]
fn cli_short_output_attached() {
    let cli = Cli::parse_from(&["rinfra", "config", "init", "-oout.yaml"]);
    if let Some(Commands::Config(args)) = cli.command {
        if let ConfigCommands::Init(init_args) = args.command {
            assert_eq!(init_args.output, "out.yaml");
        } else {
            panic!("expected init");
        }
    } else {
        panic!("expected config");
    }
}

#[test]
fn cli_external_subcommand_keeps_words() {
    let cli = Cli::parse_from(&["rinfra", "migrate", "--up", "3"]);
    match cli.command {
        Some(Commands::External(args)) => assert_eq!(args, vec!["migrate", "--up", "3"]),
        _ => panic!("expected external"),
    }
}

#[test]
fn cli_errors_are_classified() {
    let kind = |args: &[&str]| Cli::try_parse_from(args).unwrap_err().kind;
    assert_eq!(kind(&["rinfra", "--help"]), CliErrorKind::Help);
    assert_eq!(kind(&["rinfra", "-V"]), CliErrorKind::Version);
    assert_eq!(kind(&["rinfra", "config"]), CliErrorKind::MissingSubcommand);
    assert_eq!(kind(&["rinfra", "cache", "get"]), CliErrorKind::MissingArgument);
    assert_eq!(kind(&["rinfra", "--format", "xml"]), CliErrorKind::InvalidValue);
    assert_eq!(kind(&["rinfra", "--config"]), CliErrorKind::MissingValue);
    assert_eq!(kind(&["rinfra", "--config", "a", "--config", "b"]), CliErrorKind::Duplicate);
    assert_eq!(kind(&["rinfra", "--force"]), CliErrorKind::UnknownArgument);
    assert_eq!(kind(&["rinfra", "server", "stop"]), CliErrorKind::UnexpectedArgument);
    assert_eq!(kind(&["rinfra", "cache", "get", "a", "b"]), CliErrorKind::UnexpectedArgument);
}

#[test]
fn cli_target_only_under_cluster() {
    let err = Cli::try_parse_from(&["rinfra", "--target", "x", "cluster", "nodes"]).unwrap_err();
    assert_eq!(err.kind, CliErrorKind::UnknownArgument);
    assert_eq!(err.arg, "--target");
}

// ── Dispatch ────────────────────────────────────────────────────────

#[test]
fn plan_without_subcommand_runs_server() {
    assert!(matches!(plan(Cli::parse_from(&["rinfra"])), CliTask::RunServer));
    assert!(matches!(plan(Cli::parse_from(&["rinfra", "server", "start"])), CliTask::RunServer));
}

#[test]
fn plan_cluster_flush_needs_confirmation() {
    assert!(matches!(plan(Cli::parse_from(&["rinfra", "cluster", "cache", "flush"])), CliTask::RefuseUnconfirmedFlush));
    match plan(Cli::parse_from(&["rinfra", "cluster", "--target", "h:1", "cache", "flush", "--yes"])) {
        CliTask::ClusterCacheFlush { target } => assert_eq!(target.as_deref(), Some("h:1")),
        _ => panic!("expected a flush"),
    }
}

#[test]
fn plan_show_defaults_and_init() {
    assert!(matches!(plan(Cli::parse_from(&["rinfra", "config", "show", "--defaults"])), CliTask::ShowConfigDefaults));
    match plan(Cli::parse_from(&["rinfra", "config", "init", "--output", "x.yaml"])) {
        CliTask::InitConfig { output, force } => {
            assert_eq!(output, "x.yaml");
            assert!(!force);
        },
        _ => panic!("expected init"),
    }
}

#[test]
fn select_config_order() {
    assert_eq!(select_config("h.yaml", true, &[true, true, true]), "h.yaml");
    assert_eq!(select_config("h.yaml", false, &[false, true, true]), "../config/standalone.example.yaml");
    assert_eq!(select_config("h.yaml", false, &[false, false, false]), "h.yaml");
}

// ── Client addressing ───────────────────────────────────────────────

fn settings_with_http_listener(bind: &str) -> ClientSettings {
    let mut s = ClientSettings::new();
    s.listeners.push(ListenerSpec { name: "main".into(), protocol: ListenerProtocol::Http, bind: bind.into() });
    s
}

#[test]
fn test_cli_client_for_local_normalizes_bind_all() {
    let client = CliClient::for_local(&settings_with_http_listener("0.0.0.0:8080"));
    assert_eq!(client.base_url, "http://127.0.0.1:8080");
}

#[test]
fn test_cli_client_for_local_preserves_specific_host() {
    let client = CliClient::for_local(&settings_with_http_listener("10.0.0.1:9000"));
    assert_eq!(client.base_url, "http://10.0.0.1:9000");
}

#[test]
fn test_cli_client_for_cluster_uses_main_address() {
    let mut settings = ClientSettings::new();
    settings.main_address = "192.168.1.10:8089".into();
    let client = CliClient::for_cluster(&settings, None);
    assert_eq!(client.base_url, "http://192.168.1.10:8089");
}

#[test]
fn test_cli_client_for_cluster_target_override() {
    let mut settings = ClientSettings::new();
    settings.main_address = "192.168.1.10:8089".into();
    let client = CliClient::for_cluster(&settings, Some("10.0.0.1:7777"));
    assert_eq!(client.base_url, "http://10.0.0.1:7777");
}

#[test]
fn test_cli_client_for_cluster_with_http_prefix() {
    let settings = ClientSettings::new();
    let client = CliClient::for_cluster(&settings, Some("http://example.com:8080"));
    assert_eq!(client.base_url, "http://example.com:8080");
}

#[test]
fn test_cli_client_for_cluster_fallback_to_local() {
    let client = CliClient::for_cluster(&settings_with_http_listener("0.0.0.0:8089"), None);
    assert_eq!(client.base_url, "http://127.0.0.1:8089");
}

#[test]
fn test_cli_client_carries_token() {
    let mut settings = ClientSettings::new();
    settings.cluster_token = "secret123".into();
    let client = CliClient::for_cluster(&settings, None);
    assert_eq!(client.token, "secret123");
}

#[test]
fn cli_client_urls_and_bearer() {
    let client = CliClient::for_local(&ClientSettings::new());
    assert_eq!(client.base_url, "http://127.0.0.1:8080");
    assert_eq!(client.cache_get_url("k1"), "http://127.0.0.1:8080/api/admin/cache/k1");
    assert_eq!(client.cache_flush_url(), "http://127.0.0.1:8080/api/admin/cache/flush");
    assert_eq!(client.cluster_nodes_url(), "http://127.0.0.1:8080/api/admin/cluster/nodes");
    assert_eq!(client.cluster_info_url(), "http://127.0.0.1:8080/api/admin/health");
    assert_eq!(client.bearer(), None);
}

// ── Plugin overview ─────────────────────────────────────────────────

fn default_plugins() -> PluginSettings {
    PluginSettings {
        log_stdout: true,
        store_postgres: false,
        cache_memory: true,
        cache_redis: false,
        cache_multilevel: false,
        ratelimit_memory: false,
        ratelimit_redis: false,
        crypto_aesgcm: false,
        mq_backend: MqBackend::Memory,
        script_wasm: false,
        cluster: false,
        admin: true,
        admin_auth: false,
        listeners: vec![],
    }
}

#[test]
fn test_collect_enabled_defaults() {
    let enabled = collect_enabled(&default_plugins());
    assert!(enabled.contains(&"log.stdout".to_string()));
    assert!(enabled.contains(&"cache.memory".to_string()));
    assert!(enabled.contains(&"mq.memory".to_string()));
    assert!(enabled.contains(&"admin".to_string()));
    assert!(!enabled.contains(&"store.postgres".to_string()));
}

#[test]
fn collect_enabled_lists_listeners_and_admin_auth() {
    let mut p = default_plugins();
    p.listeners = vec!["main".into(), "game".into()];
    p.admin_auth = true;
    p.mq_backend = MqBackend::Nats;
    let enabled = collect_enabled(&p);
    assert_eq!(enabled, vec!["log.stdout", "net.main", "net.game", "cache.memory", "mq.nats", "admin (auth)"]);
}

#[test]
fn plugin_list_marks_status() {
    let mut p = default_plugins();
    p.listeners = vec!["main".into()];
    let list = plugin_list(&p);
    assert_eq!(list.len(), 16);
    assert_eq!(list[0].name, "log.stdout");
    assert_eq!(list[0].status, "enabled");
    assert_eq!(list[1].name, "store.postgres");
    assert_eq!(list[1].status, "available");
    assert_eq!(list[8].name, "codec.json");
    assert_eq!(list[15].name, "main");
    assert_eq!(list[15].category, "network");
}

#[test]
fn test_cli_verify_command() {
    assert!(Cli::command().debug_assert());
}

fn cfg_obj(entries: Vec<(&str, ConfigValue)>) -> ConfigValue {
    ConfigValue::Object(entries.into_iter().map(|(k, v)| (k.to_string(), v)).collect())
}

fn cfg_text(s: &str) -> ConfigValue {
    ConfigValue::Text(s.to_string())
}

#[test]
fn listener_protocol_and_mq_backend_names() {
    assert!(matches!(listener_protocol("TCP"), ListenerProtocol::Tcp));
    assert!(matches!(listener_protocol("WebSocket"), ListenerProtocol::Ws));
    assert!(matches!(listener_protocol("ws"), ListenerProtocol::Ws));
    assert!(matches!(listener_protocol("grpc"), ListenerProtocol::Grpc));
    assert!(matches!(listener_protocol("quic"), ListenerProtocol::Http));
    assert!(matches!(mq_backend("nats"), MqBackend::Nats));
    assert!(matches!(mq_backend("redis_streams"), MqBackend::RedisStreams));
    assert!(matches!(mq_backend("none"), MqBackend::Off));
    assert!(matches!(mq_backend("NATS"), MqBackend::Memory));
}

#[test]
fn plugin_and_client_settings_from_config_tree() {
    let tree = cfg_obj(vec![(
        "plugins",
        cfg_obj(vec![
            (
                "net",
                cfg_obj(vec![(
                    "listeners",
                    ConfigValue::Array(vec![
                        cfg_obj(vec![("name", cfg_text("main")), ("bind", cfg_text("0.0.0.0:8080"))]),
                        cfg_obj(vec![("name", cfg_text("game")), ("protocol", cfg_text("tcp")), ("bind", cfg_text(":9000"))]),
                    ]),
                )]),
            ),
            ("cache", cfg_obj(vec![("memory", cfg_obj(vec![("enabled", ConfigValue::Bool(false))]))])),
            ("mq", cfg_obj(vec![("backend", cfg_text("redis_streams"))])),
            (
                "cluster",
                cfg_obj(vec![("mode", cfg_text("cluster")), ("main_address", cfg_text("10.0.0.1:7000")), ("cluster_token", cfg_text("t"))]),
            ),
        ]),
    )]);
    let ls = config_listeners(&tree);
    assert_eq!(ls.len(), 2);
    assert_eq!(ls[0].name, "main");
    assert!(matches!(ls[0].protocol, ListenerProtocol::Http));
    assert!(matches!(ls[1].protocol, ListenerProtocol::Tcp));
    assert_eq!(ls[1].bind, ":9000");
    let p = plugin_settings(&tree);
    assert!(p.log_stdout);
    assert!(!p.cache_memory);
    assert!(matches!(p.mq_backend, MqBackend::RedisStreams));
    assert!(p.cluster);
    assert!(p.admin);
    assert_eq!(p.listeners, vec!["main".to_string(), "game".to_string()]);
    let c = client_settings(&tree);
    assert_eq!(c.main_address, "10.0.0.1:7000");
    assert_eq!(c.cluster_token, "t");
    assert_eq!(c.listeners.len(), 2);
    let empty = plugin_settings(&ConfigValue::Null);
    assert!(matches!(empty.mq_backend, MqBackend::Memory));
    assert!(!empty.cluster);
    assert!(empty.listeners.is_empty());
}
