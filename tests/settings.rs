use plane_cli::json::{deep_merge, Json};
use plane_cli::settings::{
    merge_cli, merge_env, merge_file, CliOverrides, ConfigFile, EnvOverrides, FileContent,
    Settings, SettingsError,
};

fn num(n: &str) -> Json {
    Json::Number(n.to_string())
}

fn text(s: &str) -> Json {
    Json::Str(s.to_string())
}

fn obj(entries: Vec<(&str, Json)>) -> Json {
    Json::Object(entries.into_iter().map(|(k, v)| (k.to_string(), v)).collect())
}

fn empty_cli() -> CliOverrides {
    CliOverrides {
        api_key: None,
        base_url: None,
        workspace: None,
        timeout: None,
    }
}

fn no_env() -> EnvOverrides {
    EnvOverrides {
        api_key: None,
        base_url: None,
        workspace: None,
        timeout: None,
    }
}

fn missing(path: &str) -> ConfigFile {
    ConfigFile {
        path: path.to_string(),
        content: FileContent::Missing,
    }
}

fn document(path: &str, doc: Json) -> ConfigFile {
    ConfigFile {
        path: path.to_string(),
        content: FileContent::Document(doc),
    }
}

fn default_doc() -> Json {
    Settings::default().to_json()
}

// deep_merge

#[test]
fn test_deep_merge_flat_override() {
    let mut base = obj(vec![("a", num("1")), ("b", num("2"))]);
    let overlay = obj(vec![("b", num("99"))]);
    deep_merge(&mut base, &overlay);
    assert_eq!(base, obj(vec![("a", num("1")), ("b", num("99"))]));
}

#[test]
fn test_deep_merge_adds_new_keys() {
    let mut base = obj(vec![("a", num("1"))]);
    let overlay = obj(vec![("b", num("2"))]);
    deep_merge(&mut base, &overlay);
    assert_eq!(base, obj(vec![("a", num("1")), ("b", num("2"))]));
}

#[test]
fn test_deep_merge_nested_objects() {
    let mut base = obj(vec![("outer", obj(vec![("a", num("1")), ("b", num("2"))]))]);
    let overlay = obj(vec![("outer", obj(vec![("b", num("99")), ("c", num("3"))]))]);
    deep_merge(&mut base, &overlay);
    assert_eq!(
        base,
        obj(vec![(
            "outer",
            obj(vec![("a", num("1")), ("b", num("99")), ("c", num("3"))])
        )])
    );
}

#[test]
fn deep_merge_scalar_overlay_replaces_object() {
    let mut base = obj(vec![("outer", obj(vec![("a", num("1"))]))]);
    let overlay = obj(vec![("outer", Json::Array(vec![num("7")]))]);
    deep_merge(&mut base, &overlay);
    assert_eq!(base, obj(vec![("outer", Json::Array(vec![num("7")]))]));
}

#[test]
fn deep_merge_null_overlay_replaces_value() {
    let mut base = obj(vec![("a", num("1"))]);
    deep_merge(&mut base, &obj(vec![("a", Json::Null)]));
    assert_eq!(base, obj(vec![("a", Json::Null)]));
}

#[test]
fn deep_merge_empty_overlay_keeps_base() {
    let mut base = obj(vec![("a", num("1")), ("b", text("x"))]);
    deep_merge(&mut base, &obj(vec![]));
    assert_eq!(base, obj(vec![("a", num("1")), ("b", text("x"))]));
}

#[test]
fn deep_merge_non_object_base_is_replaced() {
    let mut base = num("5");
    deep_merge(&mut base, &obj(vec![("a", num("1"))]));
    assert_eq!(base, obj(vec![("a", num("1"))]));
}

// merge_file

#[test]
fn test_merge_file_applies_values() {
    let file = document("settings.json", obj(vec![("timeout", num("60"))]));
    let mut base = obj(vec![("timeout", num("30")), ("base_url", text("https://example.com"))]);
    merge_file(&mut base, &file).unwrap();
    assert_eq!(base.get("timeout"), Some(&num("60")));
    assert_eq!(base.get("base_url"), Some(&text("https://example.com")));
}

#[test]
fn test_merge_file_missing_file_is_ok() {
    let file = missing("/tmp/somewhere/nonexistent.json");
    let mut base = obj(vec![("timeout", num("30"))]);
    let result = merge_file(&mut base, &file);
    assert!(result.is_ok());
    assert_eq!(base.get("timeout"), Some(&num("30")));
}

#[test]
fn test_merge_file_invalid_json_returns_error() {
    let file = ConfigFile {
        path: "/tmp/somewhere/bad.json".to_string(),
        content: FileContent::Malformed,
    };
    let mut base = obj(vec![("timeout", num("30"))]);
    let result = merge_file(&mut base, &file);
    assert!(result.is_err());
    let msg = result.unwrap_err().message();
    assert!(msg.contains("bad.json"), "error should mention file: {msg}");
    assert_eq!(msg, "invalid JSON in /tmp/somewhere/bad.json");
    assert_eq!(base, obj(vec![("timeout", num("30"))]));
}

// merge_env

#[test]
fn test_merge_env_reads_all_vars() {
    let env = EnvOverrides {
        api_key: Some("key123".to_string()),
        base_url: Some("https://custom.api".to_string()),
        workspace: Some("my-ws".to_string()),
        timeout: Some("120".to_string()),
    };
    let mut base = default_doc();
    merge_env(&mut base, &env);
    assert_eq!(base.get("api_key"), Some(&text("key123")));
    assert_eq!(base.get("base_url"), Some(&text("https://custom.api")));
    assert_eq!(base.get("workspace"), Some(&text("my-ws")));
    assert_eq!(base.get("timeout"), Some(&num("120")));
}

#[test]
fn test_merge_env_skips_unset_vars() {
    let mut base = default_doc();
    let before = default_doc();
    merge_env(&mut base, &no_env());
    assert_eq!(base, before);
}

#[test]
fn test_merge_env_ignores_non_numeric_timeout() {
    let env = EnvOverrides {
        timeout: Some("abc".to_string()),
        ..no_env()
    };
    let mut base = default_doc();
    merge_env(&mut base, &env);
    assert_eq!(base.get("timeout"), Some(&num("30")));
}

#[test]
fn merge_env_ignores_negative_and_overflowing_timeout() {
    for bad in ["-5", "", "+", "12a", "18446744073709551616", "1.5"] {
        let env = EnvOverrides {
            timeout: Some(bad.to_string()),
            ..no_env()
        };
        let mut base = default_doc();
        merge_env(&mut base, &env);
        assert_eq!(base.get("timeout"), Some(&num("30")), "value {bad:?}");
    }
}

#[test]
fn merge_env_accepts_largest_timeout_and_plus_sign() {
    let env = EnvOverrides {
        timeout: Some("18446744073709551615".to_string()),
        ..no_env()
    };
    let mut base = default_doc();
    merge_env(&mut base, &env);
    assert_eq!(base.get("timeout"), Some(&num("18446744073709551615")));

    let env = EnvOverrides {
        timeout: Some("+45".to_string()),
        ..no_env()
    };
    let mut base = default_doc();
    merge_env(&mut base, &env);
    assert_eq!(base.get("timeout"), Some(&num("45")));
}

// merge_cli

#[test]
fn test_merge_cli_applies_all_overrides() {
    let mut base = default_doc();
    merge_cli(
        &mut base,
        CliOverrides {
            api_key: Some("cli-key".to_string()),
            base_url: Some("https://cli.api".to_string()),
            workspace: Some("cli-ws".to_string()),
            timeout: Some(99),
        },
    );
    assert_eq!(base.get("api_key"), Some(&text("cli-key")));
    assert_eq!(base.get("base_url"), Some(&text("https://cli.api")));
    assert_eq!(base.get("workspace"), Some(&text("cli-ws")));
    assert_eq!(base.get("timeout"), Some(&num("99")));
}

#[test]
fn test_merge_cli_skips_none_fields() {
    let mut base = default_doc();
    let before = default_doc();
    merge_cli(&mut base, empty_cli());
    assert_eq!(base, before);
}

// Settings::load

#[test]
fn test_load_defaults_only() {
    let s = Settings::load(
        empty_cli(),
        &missing("config/settings.json"),
        &missing("config/settings.local.json"),
        &no_env(),
    )
    .unwrap();
    assert_eq!(s.base_url, "https://api.plane.so");
    assert_eq!(s.timeout, 30);
    assert!(s.api_key.is_none());
    assert!(s.workspace.is_none());
}

#[test]
fn test_load_file_overrides_defaults() {
    let s = Settings::load(
        empty_cli(),
        &document("config/settings.json", obj(vec![("timeout", num("60"))])),
        &missing("config/settings.local.json"),
        &no_env(),
    )
    .unwrap();
    assert_eq!(s.timeout, 60);
    assert_eq!(s.base_url, "https://api.plane.so");
}

#[test]
fn test_load_local_overrides_base() {
    let s = Settings::load(
        empty_cli(),
        &document(
            "config/settings.json",
            obj(vec![("timeout", num("60")), ("base_url", text("https://base.api"))]),
        ),
        &document("config/settings.local.json", obj(vec![("timeout", num("90"))])),
        &no_env(),
    )
    .unwrap();
    assert_eq!(s.timeout, 90);
    assert_eq!(s.base_url, "https://base.api");
}

#[test]
fn test_load_env_overrides_file() {
    let env = EnvOverrides {
        timeout: Some("200".to_string()),
        ..no_env()
    };
    let s = Settings::load(
        empty_cli(),
        &document("config/settings.json", obj(vec![("timeout", num("60"))])),
        &missing("config/settings.local.json"),
        &env,
    )
    .unwrap();
    assert_eq!(s.timeout, 200);
}

#[test]
fn test_load_cli_overrides_everything() {
    let env = EnvOverrides {
        timeout: Some("200".to_string()),
        api_key: Some("env-key".to_string()),
        ..no_env()
    };
    let cli = CliOverrides {
        api_key: Some("cli-key".to_string()),
        base_url: None,
        workspace: None,
        timeout: Some(999),
    };
    let s = Settings::load(
        cli,
        &document("config/settings.json", obj(vec![("timeout", num("60"))])),
        &missing("config/settings.local.json"),
        &env,
    )
    .unwrap();
    assert_eq!(s.timeout, 999);
    assert_eq!(s.api_key.as_deref(), Some("cli-key"));
}

#[test]
fn load_missing_files_leave_defaults() {
    let s = Settings::load(
        empty_cli(),
        &missing("a.json"),
        &missing("b.json"),
        &EnvOverrides {
            workspace: Some("ws".to_string()),
            ..no_env()
        },
    )
    .unwrap();
    assert_eq!(s.timeout, 30);
    assert_eq!(s.base_url, "https://api.plane.so");
    assert_eq!(s.workspace.as_deref(), Some("ws"));
}

#[test]
fn load_non_numeric_env_timeout_keeps_default() {
    let s = Settings::load(
        empty_cli(),
        &missing("a.json"),
        &missing("b.json"),
        &EnvOverrides {
            timeout: Some("abc".to_string()),
            ..no_env()
        },
    )
    .unwrap();
    assert_eq!(s.timeout, 30);
}

#[test]
fn load_malformed_local_file_names_its_path() {
    let err = Settings::load(
        empty_cli(),
        &document("config/settings.json", obj(vec![("timeout", num("60"))])),
        &ConfigFile {
            path: "/home/me/config/settings.local.json".to_string(),
            content: FileContent::Malformed,
        },
        &no_env(),
    )
    .unwrap_err();
    assert!(matches!(err, SettingsError::InvalidJson { .. }));
    assert!(err.message().contains("/home/me/config/settings.local.json"));
}

#[test]
fn load_wrong_type_is_an_error() {
    let err = Settings::load(
        empty_cli(),
        &document("config/settings.json", obj(vec![("timeout", text("soon"))])),
        &missing("b.json"),
        &no_env(),
    )
    .unwrap_err();
    assert!(matches!(err, SettingsError::InvalidType { .. }));
    assert!(err.message().contains("timeout"));
}

#[test]
fn load_keeps_unknown_keys_out() {
    let s = Settings::load(
        empty_cli(),
        &document(
            "config/settings.json",
            obj(vec![("colour", text("blue")), ("workspace", text("w1"))]),
        ),
        &missing("b.json"),
        &no_env(),
    )
    .unwrap();
    assert_eq!(s.workspace.as_deref(), Some("w1"));
}

#[test]
fn load_non_object_file_is_an_error() {
    let err = Settings::load(
        empty_cli(),
        &document("config/settings.json", Json::Array(vec![])),
        &missing("b.json"),
        &no_env(),
    )
    .unwrap_err();
    assert!(matches!(err, SettingsError::NotAnObject));
}

#[test]
fn load_null_base_url_is_an_error_and_missing_one_too() {
    let err = Settings::load(
        empty_cli(),
        &document("config/settings.json", obj(vec![("base_url", Json::Null)])),
        &missing("b.json"),
        &no_env(),
    )
    .unwrap_err();
    assert!(matches!(err, SettingsError::InvalidType { .. }));

    let err = Settings::from_json(&obj(vec![("timeout", num("3"))])).unwrap_err();
    assert_eq!(
        err.message(),
        "failed to parse merged settings: missing field `base_url`"
    );
}

#[test]
fn higher_layer_wins_at_every_level() {
    let base = document(
        "s.json",
        obj(vec![("timeout", num("60")), ("workspace", text("base-ws"))]),
    );
    let local = document("l.json", obj(vec![("timeout", num("90"))]));
    let s = Settings::load(empty_cli(), &base, &local, &no_env()).unwrap();
    assert_eq!(s.timeout, 90);
    assert_eq!(s.workspace.as_deref(), Some("base-ws"));

    let base = document("s.json", obj(vec![("timeout", num("60"))]));
    let local = document("l.json", obj(vec![("timeout", num("90"))]));
    let env = EnvOverrides {
        timeout: Some("120".to_string()),
        ..no_env()
    };
    let cli = CliOverrides {
        timeout: Some(5),
        ..empty_cli()
    };
    assert_eq!(Settings::load(cli, &base, &local, &env).unwrap().timeout, 5);
}

#[test]
fn settings_document_round_trips() {
    let s = Settings {
        api_key: Some("k".to_string()),
        base_url: "https://h".to_string(),
        workspace: None,
        timeout: 1234567,
    };
    let doc = s.to_json();
    assert_eq!(doc.get("timeout"), Some(&num("1234567")));
    assert_eq!(doc.get("workspace"), Some(&Json::Null));
    let back = Settings::from_json(&doc).unwrap();
    assert_eq!(back.api_key.as_deref(), Some("k"));
    assert_eq!(back.base_url, "https://h");
    assert_eq!(back.workspace, None);
    assert_eq!(back.timeout, 1234567);
}
