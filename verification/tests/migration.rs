use opendev::json::{Json, JsonNumber};
use opendev::migration::{
    config_version, migrate_config, migrate_v0_to_v1, migrate_v1_to_v2, needs_migration,
    CURRENT_CONFIG_VERSION,
};
use opendev::parse::parse;

fn json(text: &str) -> Json {
    parse(text).unwrap()
}

fn text<'a>(value: &'a Json, path: &[&str]) -> Option<&'a str> {
    let mut at = value;
    for key in path {
        at = at.get(key)?;
    }
    at.as_str()
}

#[test]
fn test_current_version() {
    assert!(CURRENT_CONFIG_VERSION >= 2);
}

#[test]
fn test_migrate_unversioned_config() {
    let value = json(r#"{"model_provider": "openai", "model": "gpt-4"}"#);

    assert!(needs_migration(&value));
    assert_eq!(config_version(&value), 0);

    let (migrated, changed) = migrate_config(value);
    assert!(changed);
    assert_eq!(config_version(&migrated), CURRENT_CONFIG_VERSION);

    assert_eq!(text(&migrated, &["model_provider"]), Some("openai"));
    assert_eq!(text(&migrated, &["model"]), Some("gpt-4"));
}

#[test]
fn test_migrate_already_current() {
    let value = json(&format!(
        r#"{{"config_version": {}, "model_provider": "anthropic", "model": "model-3-opus"}}"#,
        CURRENT_CONFIG_VERSION
    ));

    assert!(!needs_migration(&value));

    let (migrated, changed) = migrate_config(value);
    assert!(!changed);
    assert_eq!(config_version(&migrated), CURRENT_CONFIG_VERSION);
}

#[test]
fn test_migrate_v0_to_v1() {
    let value = json(r#"{"model_provider": "fireworks", "temperature": 0.7, "verbose": true}"#);

    let migrated = migrate_v0_to_v1(value);
    assert_eq!(config_version(&migrated), 1);
    assert_eq!(text(&migrated, &["model_provider"]), Some("fireworks"));
    assert!(matches!(
        migrated.get("temperature"),
        Some(Json::Number(JsonNumber::Float(bits))) if *bits == 0.7f64.to_bits()
    ));
    assert_eq!(migrated.get("verbose").unwrap().as_bool(), Some(true));
}

#[test]
fn test_migrate_v1_to_v2_with_compact() {
    let value = json(
        r#"{
            "config_version": 1,
            "model_provider": "openai",
            "model": "gpt-4",
            "model_compact": "gemini-2.0-flash",
            "model_compact_provider": "google"
        }"#,
    );

    let (migrated, changed) = migrate_config(value);
    assert!(changed);
    assert_eq!(config_version(&migrated), 2);

    assert!(migrated.get("model_compact").is_none());
    assert!(migrated.get("model_compact_provider").is_none());

    assert_eq!(
        text(&migrated, &["agents", "compact", "model"]),
        Some("gemini-2.0-flash")
    );
    assert_eq!(
        text(&migrated, &["agents", "compact", "provider"]),
        Some("google")
    );

    assert_eq!(text(&migrated, &["model_provider"]), Some("openai"));
    assert_eq!(text(&migrated, &["model"]), Some("gpt-4"));
}

#[test]
fn test_migrate_v1_to_v2_removes_critique() {
    let value = json(
        r#"{"config_version": 1, "model_critique": "gpt-4o", "model_critique_provider": "openai"}"#,
    );

    let (migrated, _) = migrate_config(value);
    assert!(migrated.get("model_critique").is_none());
    assert!(migrated.get("model_critique_provider").is_none());
}

#[test]
fn test_migrate_v1_to_v2_no_compact_no_agents() {
    let value = json(r#"{"config_version": 1, "model_provider": "openai", "model": "gpt-4"}"#);

    let (migrated, changed) = migrate_config(value);
    assert!(changed);
    assert_eq!(config_version(&migrated), 2);
    assert!(migrated.get("agents").is_none());
}

#[test]
fn test_migrate_v1_to_v2_preserves_existing_agents() {
    let value = json(
        r#"{
            "config_version": 1,
            "model_compact": "flash",
            "model_compact_provider": "google",
            "agents": {
                "explore": { "model": "gpt-4o", "max_steps": 5 }
            }
        }"#,
    );

    let (migrated, _) = migrate_config(value);
    assert_eq!(
        text(&migrated, &["agents", "explore", "model"]),
        Some("gpt-4o")
    );
    let explore = migrated.get("agents").unwrap().get("explore").unwrap();
    assert_eq!(explore.get("max_steps").unwrap().as_u64(), Some(5));
    assert_eq!(
        text(&migrated, &["agents", "compact", "model"]),
        Some("flash")
    );
    assert_eq!(
        text(&migrated, &["agents", "compact", "provider"]),
        Some("google")
    );
}

#[test]
fn test_migrate_v1_to_v2_compact_model_only() {
    let value = json(r#"{"config_version": 1, "model_compact": "flash"}"#);

    let (migrated, _) = migrate_config(value);
    assert_eq!(
        text(&migrated, &["agents", "compact", "model"]),
        Some("flash")
    );
    let compact = migrated.get("agents").unwrap().get("compact").unwrap();
    assert!(compact.get("provider").is_none());
}

#[test]
fn test_migrate_v0_through_v2() {
    let value = json(
        r#"{
            "model_provider": "openai",
            "model": "gpt-4",
            "model_compact": "flash",
            "model_compact_provider": "google",
            "model_critique": "gpt-4o",
            "model_critique_provider": "openai"
        }"#,
    );

    assert_eq!(config_version(&value), 0);
    let (migrated, changed) = migrate_config(value);
    assert!(changed);
    assert_eq!(config_version(&migrated), 2);

    assert!(migrated.get("model_critique").is_none());
    assert!(migrated.get("model_critique_provider").is_none());

    assert!(migrated.get("model_compact").is_none());
    assert_eq!(
        text(&migrated, &["agents", "compact", "model"]),
        Some("flash")
    );
    assert_eq!(
        text(&migrated, &["agents", "compact", "provider"]),
        Some("google")
    );
}

#[test]
fn test_needs_migration_empty_object() {
    let value = json("{}");
    assert!(needs_migration(&value));
}

#[test]
fn test_config_version_missing() {
    let value = json(r#"{"model": "gpt-4"}"#);
    assert_eq!(config_version(&value), 0);
}

#[test]
fn test_config_version_present() {
    let value = json(r#"{"config_version": 2}"#);
    assert_eq!(config_version(&value), 2);
}

#[test]
fn test_migrate_preserves_all_fields() {
    let value = json(
        r#"{
            "model_provider": "openai",
            "model": "gpt-4",
            "api_key": "sk-test",
            "max_tokens": 8192,
            "temperature": 0.5,
            "verbose": true,
            "debug_logging": false,
            "custom_field": "should_survive"
        }"#,
    );

    let (migrated, _) = migrate_config(value);
    assert_eq!(text(&migrated, &["model_provider"]), Some("openai"));
    assert_eq!(text(&migrated, &["api_key"]), Some("sk-test"));
    assert_eq!(migrated.get("max_tokens").unwrap().as_u64(), Some(8192));
    assert_eq!(text(&migrated, &["custom_field"]), Some("should_survive"));
}

#[test]
fn migrated_config_is_not_migrated_again() {
    let (once, changed) = migrate_config(json(r#"{"model_compact": "flash"}"#));
    assert!(changed);
    assert!(!needs_migration(&once));
    let (twice, changed) = migrate_config(once);
    assert!(!changed);
    assert_eq!(text(&twice, &["agents", "compact", "model"]), Some("flash"));
}

#[test]
fn config_that_is_no_object_stays() {
    let (same, changed) = migrate_config(json("\"text\""));
    assert!(changed);
    assert_eq!(same.as_str(), Some("text"));
}

#[test]
fn large_versions_keep_their_low_bits() {
    assert_eq!(config_version(&json(r#"{"config_version": 4294967298}"#)), 2);
    assert_eq!(config_version(&json(r#"{"config_version": -1}"#)), 0);
    assert_eq!(config_version(&json(r#"{"config_version": "2"}"#)), 0);
}

#[test]
fn empty_compact_model_is_dropped() {
    let migrated = migrate_v1_to_v2(json(
        r#"{"config_version": 1, "model_compact": 7, "agents": {"a": 1}}"#,
    ));
    assert!(migrated.get("model_compact").is_none());
    assert_eq!(
        migrated.get("agents").unwrap().get("a").unwrap().as_u64(),
        Some(1)
    );
}
