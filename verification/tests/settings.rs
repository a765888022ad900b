use rinfra_plugins::middleware::localize_error_body;
use rinfra_plugins::config::{config_from_yaml, env_override_path, flag, lookup, merge_env_overrides, number, parse_env_value, parse_u64, set_nested, split_path, text, ConfigValue};
use rinfra_plugins::error::{AppError, ErrorCode};
use rinfra_plugins::i18n::{locale_from_file_name, parse_accept_language, FileI18n, YamlNode};

fn scalar(s: &str) -> YamlNode {
    YamlNode::Scalar(s.to_string())
}

fn mapping(entries: Vec<(&str, YamlNode)>) -> YamlNode {
    YamlNode::Mapping(entries.into_iter().map(|(k, v)| (k.to_string(), v)).collect())
}

fn catalog(docs: Vec<(&str, YamlNode)>, default_locale: &str) -> FileI18n {
    let docs: Vec<(String, YamlNode)> = docs.into_iter().map(|(l, d)| (l.to_string(), d)).collect();
    FileI18n::from_documents(&docs, default_locale)
}

fn load(files: Vec<(&str, &str)>, default_locale: &str) -> FileI18n {
    let files: Vec<(String, String)> = files.into_iter().map(|(n, t)| (n.to_string(), t.to_string())).collect();
    FileI18n::load_documents(files, default_locale).unwrap()
}

#[test]
fn test_t_args() {
    let i18n = load(vec![("en.yaml", "welcome: \"Welcome, {user}! You have {count} messages.\"")], "en");
    let args = vec![("user".to_string(), "Alice".to_string()), ("count".to_string(), "5".to_string())];
    assert_eq!(i18n.t_args("welcome", "en", &args), "Welcome, Alice! You have 5 messages.");
}

#[test]
fn t_args_replaces_every_occurrence_and_keeps_unknown_placeholders() {
    let i18n = catalog(vec![("en", mapping(vec![("echo", scalar("{x}-{x}-{y}"))]))], "en");
    let args = vec![("x".to_string(), "ab".to_string())];
    assert_eq!(i18n.t_args("echo", "en", &args), "ab-ab-{y}");
    assert_eq!(i18n.t_args("missing.key", "en", &args), "missing.key");
}

#[test]
fn test_load_and_translate() {
    let en = r#"
greeting: "Hello!"
errors:
  not_found: "Not found"
  unauthorized: "Forbidden"
"#;
    let zh = r#"
greeting: "你好！"
errors:
  not_found: "未找到"
  unauthorized: "无权限"
"#;
    let i18n = load(vec![("en.yaml", en), ("zh-CN.yaml", zh)], "en");
    assert_eq!(i18n.t("greeting", "en"), "Hello!");
    assert_eq!(i18n.t("greeting", "zh-CN"), "你好！");
    assert_eq!(i18n.t("errors.not_found", "en"), "Not found");
    assert_eq!(i18n.t("errors.unauthorized", "zh-CN"), "无权限");
}

#[test]
fn test_fallback_to_default_locale() {
    let i18n = load(vec![("en.yaml", "hello: Hello\nonly_en: English only"), ("fr.yaml", "hello: Bonjour")], "en");
    assert_eq!(i18n.t("hello", "fr"), "Bonjour");
    assert_eq!(i18n.t("only_en", "fr"), "English only");
}

#[test]
fn test_missing_key_returns_key() {
    let i18n = load(vec![("en.yaml", "a: value_a")], "en");
    assert_eq!(i18n.t("nonexistent.key", "en"), "nonexistent.key");
}

#[test]
fn test_missing_dir_returns_empty() {
    let i18n = FileI18n::empty("en");
    assert!(i18n.available_locales().is_empty());
    assert_eq!(i18n.t("hello", "en"), "hello");
}

#[test]
fn test_available_locales() {
    let i18n = load(vec![("en.yaml", "a: 1"), ("fr.yaml", "a: 2"), ("zh-CN.yaml", "a: 3")], "en");
    let locales = i18n.available_locales();
    assert_eq!(locales.len(), 3);
    assert!(locales.contains(&"en".to_string()));
    assert!(locales.contains(&"fr".to_string()));
    assert!(locales.contains(&"zh-CN".to_string()));
}

#[test]
fn test_default_locale() {
    let i18n = load(vec![("en.yaml", "a: 1")], "en");
    assert_eq!(i18n.default_locale(), "en");
}

#[test]
fn test_nested_yaml_flattening() {
    let en = r#"
level1:
  level2:
    level3: "deep value"
top: "top value"
"#;
    let i18n = load(vec![("en.yaml", en)], "en");
    assert_eq!(i18n.t("top", "en"), "top value");
    assert_eq!(i18n.t("level1.level2.level3", "en"), "deep value");
}

#[test]
fn load_documents_reads_scalars_skips_other_files_and_fails_on_bad_yaml() {
    let i18n = load(
        vec![
            ("en.yml", "n: 42\nf: 1.5\nb: true\nlist: [1, 2]\nnothing: ~\n7: seven"),
            ("notes.txt", "not: [yaml"),
        ],
        "en",
    );
    assert_eq!(i18n.t("n", "en"), "42");
    assert_eq!(i18n.t("f", "en"), "1.5");
    assert_eq!(i18n.t("b", "en"), "true");
    assert_eq!(i18n.t("list", "en"), "list");
    assert_eq!(i18n.t("nothing", "en"), "nothing");
    assert_eq!(i18n.t("Number(7)", "en"), "seven");
    assert_eq!(i18n.available_locales(), vec!["en".to_string()]);
    let bad = vec![("fr.yaml".to_string(), "a: [unclosed".to_string())];
    assert_eq!(FileI18n::load_documents(bad, "en").err().unwrap().code, ErrorCode::I18nLoadFailed);
}

#[test]
fn later_document_replaces_earlier_for_same_locale() {
    let i18n = catalog(
        vec![
            ("en", mapping(vec![("a", scalar("first")), ("b", scalar("only first"))])),
            ("en", mapping(vec![("a", scalar("second")), ("n", mapping(vec![("k", scalar("v"))]))])),
        ],
        "en",
    );
    assert_eq!(i18n.t("a", "en"), "second");
    assert_eq!(i18n.t("b", "en"), "b");
    assert_eq!(i18n.t("n.k", "en"), "v");
    assert_eq!(i18n.available_locales(), vec!["en".to_string()]);
}

#[test]
fn error_messages_are_looked_up_by_code() {
    let en = mapping(vec![("error", mapping(vec![("auth_token_missing", scalar("Please sign in"))]))]);
    let i18n = catalog(vec![("en", en)], "en");
    assert_eq!(i18n.error_message("AUTH_TOKEN_MISSING", "de").as_deref(), Some("Please sign in"));
    assert_eq!(i18n.error_message("INTERNAL", "en"), None);
}

#[test]
fn accept_language_and_file_names() {
    assert_eq!(parse_accept_language(Some("zh-CN;q=0.9, en")), "zh-CN");
    assert_eq!(parse_accept_language(Some(" fr , en")), "fr");
    assert_eq!(parse_accept_language(None), "en");
    assert_eq!(locale_from_file_name("zh-CN.yaml").as_deref(), Some("zh-CN"));
    assert_eq!(locale_from_file_name("en.yml").as_deref(), Some("en"));
    assert_eq!(locale_from_file_name("notes.txt"), None);
    assert_eq!(locale_from_file_name(".yaml"), None);
}

// ── Environment overrides ───────────────────────────────────────────

#[test]
fn test_bool_auto_detection() {
    assert!(matches!(parse_env_value("true"), ConfigValue::Bool(true)));
    assert!(matches!(parse_env_value("FALSE"), ConfigValue::Bool(false)));
}

#[test]
fn test_integer_auto_detection() {
    assert!(matches!(parse_env_value("8090"), ConfigValue::UInt(8090)));
}

#[test]
fn test_string_fallback() {
    assert!(matches!(parse_env_value("hello-world"), ConfigValue::Text(s) if s == "hello-world"));
}

#[test]
fn test_set_nested_creates_intermediate_objects() {
    let val = ConfigValue::Object(vec![]);
    let val = set_nested(val, &["a".to_string(), "b".to_string(), "c".to_string()], parse_env_value("42"));
    let c = lookup(lookup(lookup(&val, "a").unwrap(), "b").unwrap(), "c").unwrap();
    assert!(matches!(c, ConfigValue::UInt(42)));
}

#[test]
fn test_merge_env_skips_non_rinfra_vars() {
    let env = [("PATH", "/usr/bin"), ("HOME", "/root"), ("RINFRA", "x"), ("MY_RINFRA_X", "y")];
    let vars: Vec<(String, ConfigValue)> = env.iter().map(|(k, v)| (k.to_string(), parse_env_value(v))).collect();
    let (_val, count) = merge_env_overrides(ConfigValue::Object(vec![]), vars);
    assert!(count < 1000);
    assert_eq!(count, 0);
}

#[test]
fn env_paths_and_merging() {
    assert_eq!(env_override_path("RINFRA_APP__NAME"), Some(vec!["app".to_string(), "name".to_string()]));
    assert_eq!(
        env_override_path("RINFRA_PLUGINS__LOG__STDOUT__LEVEL"),
        Some(vec!["plugins".to_string(), "log".to_string(), "stdout".to_string(), "level".to_string()])
    );
    assert_eq!(env_override_path("HOME"), None);
    assert_eq!(env_override_path("RINFRA_"), None);
    let root = ConfigValue::Object(vec![(
        "app".to_string(),
        ConfigValue::Object(vec![("name".to_string(), ConfigValue::Text("rinfra-app".to_string()))]),
    )]);
    let (merged, count) = merge_env_overrides(
        root,
        vec![
            ("RINFRA_APP__NAME".to_string(), parse_env_value("overridden")),
            ("PATH".to_string(), parse_env_value("/bin")),
        ],
    );
    assert_eq!(count, 1);
    let name = lookup(lookup(&merged, "app").unwrap(), "name").unwrap();
    assert!(matches!(name, ConfigValue::Text(s) if s == "overridden"));
}

fn text_at(v: &ConfigValue, path: &[&str]) -> String {
    let mut cur = v;
    for p in path {
        cur = lookup(cur, p).unwrap();
    }
    match cur {
        ConfigValue::Text(s) => s.clone(),
        _ => panic!("not text"),
    }
}

fn default_tree() -> ConfigValue {
    let obj = |entries: Vec<(&str, ConfigValue)>| {
        ConfigValue::Object(entries.into_iter().map(|(k, v)| (k.to_string(), v)).collect())
    };
    let text = |s: &str| ConfigValue::Text(s.to_string());
    obj(vec![
        ("app", obj(vec![("name", text("rinfra-app"))])),
        (
            "plugins",
            obj(vec![
                ("log", obj(vec![("stdout", obj(vec![("level", text("info"))]))])),
                ("cluster", obj(vec![("mode", text("standalone"))])),
            ]),
        ),
    ])
}

fn with_env(var: &str, value: &str) -> ConfigValue {
    merge_env_overrides(default_tree(), vec![(var.to_string(), parse_env_value(value))]).0
}

#[test]
fn test_apply_env_overrides() {
    assert_eq!(text_at(&default_tree(), &["app", "name"]), "rinfra-app");
    let config = with_env("RINFRA_APP__NAME", "overridden");
    assert_eq!(text_at(&config, &["app", "name"]), "overridden");
}

#[test]
fn test_apply_env_overrides_log_level() {
    let config = with_env("RINFRA_PLUGINS__LOG__STDOUT__LEVEL", "trace");
    assert_eq!(text_at(&config, &["plugins", "log", "stdout", "level"]), "trace");
}

#[test]
fn test_deep_nested_override_cluster_mode() {
    assert_eq!(text_at(&default_tree(), &["plugins", "cluster", "mode"]), "standalone");
    let config = with_env("RINFRA_PLUGINS__CLUSTER__MODE", "cluster");
    assert_eq!(text_at(&config, &["plugins", "cluster", "mode"]), "cluster");
}

#[test]
fn test_deep_override_app_name() {
    assert_eq!(text_at(&default_tree(), &["app", "name"]), "rinfra-app");
    let config = with_env("RINFRA_APP__NAME", "overridden");
    assert_eq!(text_at(&config, &["app", "name"]), "overridden");
}

#[test]
fn set_nested_stops_at_scalars() {
    let root = ConfigValue::Object(vec![("a".to_string(), ConfigValue::UInt(1))]);
    let out = set_nested(root, &["a".to_string(), "b".to_string()], ConfigValue::Bool(true));
    assert!(matches!(lookup(&out, "a").unwrap(), ConfigValue::UInt(1)));
}

#[test]
fn decimal_parsing() {
    let chars = |s: &str| s.chars().collect::<Vec<char>>();
    assert_eq!(parse_u64(&chars("18446744073709551615")), Some(u64::MAX));
    assert_eq!(parse_u64(&chars("18446744073709551616")), None);
    assert_eq!(parse_u64(&chars("+7")), Some(7));
    assert_eq!(parse_u64(&chars("")), None);
    assert_eq!(parse_u64(&chars("-1")), None);
}

#[test]
fn error_codes_text_and_status() {
    assert_eq!(ErrorCode::AuthTokenExpired.as_str(), "AUTH_TOKEN_EXPIRED");
    assert_eq!(ErrorCode::RateLimitExceeded.http_status(), 429);
    assert_eq!(ErrorCode::FileNotFound.http_status(), 404);
    assert_eq!(ErrorCode::Internal.http_status(), 500);
    let e = AppError::from_static(ErrorCode::HttpTimeout, "slow");
    assert_eq!(e.code.http_status(), 504);
    assert_eq!(e.message, "slow");
}

fn obj(entries: Vec<(&str, ConfigValue)>) -> ConfigValue {
    ConfigValue::Object(entries.into_iter().map(|(k, v)| (k.to_string(), v)).collect())
}

#[test]
fn config_tree_is_read_by_dotted_paths() {
    let tree = obj(vec![(
        "plugins",
        obj(vec![
            ("cache", obj(vec![("redis", obj(vec![("enabled", ConfigValue::Bool(true))]))])),
            ("mq", obj(vec![("backend", ConfigValue::Text("nats".into()))])),
            ("port", ConfigValue::UInt(8090)),
        ]),
    )]);
    assert_eq!(split_path("a.b..c"), vec!["a", "b", "", "c"]);
    assert!(matches!(lookup(&tree, "plugins.port"), Some(ConfigValue::UInt(8090))));
    assert!(lookup(&tree, "plugins.port.x").is_none());
    assert!(lookup(&tree, "plugins.missing").is_none());
    assert!(flag(&tree, "plugins.cache.redis.enabled", false));
    assert!(flag(&tree, "plugins.cache.memory.enabled", true));
    assert!(!flag(&tree, "plugins.mq.backend", false));
    assert_eq!(text(&tree, "plugins.mq.backend", "memory"), "nats");
    assert_eq!(text(&tree, "plugins.port", "none"), "none");
    assert_eq!(number(&tree, "plugins.port", 1), 8090);
    assert_eq!(number(&tree, "plugins.cache", 7), 7);
}

#[test]
fn config_from_yaml_reads_the_tree() {
    let c = config_from_yaml("a: 1\nb: [true, x]\nc:\n  d: -3\n  e: 1.5\n  f: ~\n").unwrap();
    assert!(matches!(lookup(&c, "a"), Some(ConfigValue::UInt(1))));
    assert!(matches!(lookup(&c, "c.d"), Some(ConfigValue::Int(-3))));
    assert!(matches!(lookup(&c, "c.e"), Some(ConfigValue::Float(t)) if t == "1.5"));
    assert!(matches!(lookup(&c, "c.f"), Some(ConfigValue::Null)));
    match lookup(&c, "b") {
        Some(ConfigValue::Array(items)) => {
            assert_eq!(items.len(), 2);
            assert!(matches!(items[0], ConfigValue::Bool(true)));
            assert!(matches!(&items[1], ConfigValue::Text(t) if t == "x"));
        }
        _ => panic!("b is not an array"),
    }
    assert_eq!(config_from_yaml("a: [1, 2").unwrap_err().code, ErrorCode::ConfigParseFailed);
}

#[test]
fn error_bodies_are_localized() {
    let i18n = load(vec![("en.yaml", "error:\n  auth_token_missing: Please sign in")], "en");
    let out = localize_error_body(&i18n, br#"{"code":"AUTH_TOKEN_MISSING","message":"missing token"}"#, "de");
    let v: serde_json::Value = serde_json::from_slice(&out).unwrap();
    assert_eq!(v["message"], "Please sign in");
    assert_eq!(v["code"], "AUTH_TOKEN_MISSING");
    let out = localize_error_body(&i18n, br#"{"code":"INTERNAL","message":"boom"}"#, "en");
    let v: serde_json::Value = serde_json::from_slice(&out).unwrap();
    assert_eq!(v["message"], "boom");
    assert_eq!(localize_error_body(&i18n, b"plain text", "en"), b"plain text".to_vec());
}
