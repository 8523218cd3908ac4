use opendev::json::Json;
use opendev::parse::parse;
use opendev::session_model::{
    clear_session_model, get_session_model, set_session_model, validate_session_model,
    SessionModelManager, SessionOverlay, SESSION_MODEL_FIELDS,
};
use opendev::strmap::StrMap;
use std::cell::RefCell;
use std::collections::HashMap;

fn overlay(pairs: &[(&str, &str)]) -> SessionOverlay {
    let mut overlay: SessionOverlay = StrMap::new();
    for (key, value) in pairs {
        overlay.insert(key, value.to_string());
    }
    overlay
}

fn config(pairs: &[(&str, &str)]) -> RefCell<HashMap<String, String>> {
    RefCell::new(
        pairs
            .iter()
            .map(|(k, v)| (k.to_string(), v.to_string()))
            .collect(),
    )
}

#[test]
fn test_new_manager_inactive() {
    let mgr = SessionModelManager::new();
    assert!(!mgr.is_active());
    assert!(mgr.get_overlay().is_none());
}

#[test]
fn test_apply_overlay() {
    let mut mgr = SessionModelManager::new();
    let config = config(&[("model", "gpt-4"), ("model_provider", "openai")]);

    let overlay = overlay(&[
        ("model", "model-3-opus"),
        ("model_provider", "anthropic"),
    ]);

    mgr.apply(
        &overlay,
        |key: &str| config.borrow().get(key).cloned(),
        |key: &str, value: &str| {
            config
                .borrow_mut()
                .insert(key.to_string(), value.to_string());
        },
    );

    assert!(mgr.is_active());
    assert_eq!(config.borrow().get("model").unwrap(), "model-3-opus");
    assert_eq!(config.borrow().get("model_provider").unwrap(), "anthropic");
}

#[test]
fn test_restore_overlay() {
    let mut mgr = SessionModelManager::new();
    let config = config(&[("model", "gpt-4")]);

    let overlay = overlay(&[("model", "model-3-opus")]);

    mgr.apply(
        &overlay,
        |key: &str| config.borrow().get(key).cloned(),
        |key: &str, value: &str| {
            config
                .borrow_mut()
                .insert(key.to_string(), value.to_string());
        },
    );

    assert_eq!(config.borrow().get("model").unwrap(), "model-3-opus");

    mgr.restore(|key: &str, value: &str| {
        config
            .borrow_mut()
            .insert(key.to_string(), value.to_string());
    });

    assert!(!mgr.is_active());
    assert_eq!(config.borrow().get("model").unwrap(), "gpt-4");
}

#[test]
fn test_apply_empty_overlay_is_noop() {
    let mut mgr = SessionModelManager::new();
    mgr.apply(&StrMap::new(), |_: &str| None, |_: &str, _: &str| {});
    assert!(!mgr.is_active());
}

#[test]
fn test_apply_ignores_invalid_fields() {
    let mut mgr = SessionModelManager::new();
    let config = config(&[]);

    let overlay = overlay(&[("invalid_field", "value")]);

    mgr.apply(
        &overlay,
        |key: &str| config.borrow().get(key).cloned(),
        |key: &str, value: &str| {
            config
                .borrow_mut()
                .insert(key.to_string(), value.to_string());
        },
    );

    assert!(mgr.is_active());
    assert!(config.borrow().is_empty());
}

#[test]
fn test_get_set_clear_session_model() {
    let mut metadata = Json::empty_object();

    let overlay = overlay(&[("model", "model-3-opus")]);
    set_session_model(&mut metadata, &overlay);

    let retrieved = get_session_model(&metadata);
    assert!(retrieved.is_some());
    assert_eq!(retrieved.unwrap().get("model").unwrap(), "model-3-opus");

    clear_session_model(&mut metadata);
    assert!(get_session_model(&metadata).is_none());
}

#[test]
fn test_validate_session_model() {
    let overlay = overlay(&[
        ("model", "gpt-4"),
        ("model_provider", "openai"),
        ("garbage_field", "value"),
    ]);

    let (valid, warnings) = validate_session_model(&overlay);
    assert_eq!(valid.len(), 2);
    assert!(valid.contains_key("model"));
    assert!(valid.contains_key("model_provider"));
    assert_eq!(warnings.len(), 1);
    assert!(warnings[0].contains("garbage_field"));
    assert_eq!(
        warnings[0],
        "Unknown session-model field 'garbage_field', ignored"
    );
}

#[test]
fn test_validate_empty() {
    let (valid, warnings) = validate_session_model(&StrMap::new());
    assert!(valid.is_empty());
    assert!(warnings.is_empty());
}

#[test]
fn test_session_model_fields_contains_expected() {
    assert!(SESSION_MODEL_FIELDS.contains(&"model"));
    assert!(SESSION_MODEL_FIELDS.contains(&"model_thinking"));
    assert!(SESSION_MODEL_FIELDS.contains(&"model_vlm_provider"));
}

#[test]
fn restore_keeps_settings_that_the_config_lacked() {
    let mut mgr = SessionModelManager::default();
    let config = config(&[]);
    mgr.apply(
        &overlay(&[("model", "m")]),
        |key: &str| config.borrow().get(key).cloned(),
        |key: &str, value: &str| {
            config
                .borrow_mut()
                .insert(key.to_string(), value.to_string());
        },
    );
    let copy = mgr.clone();
    mgr.restore(|key: &str, value: &str| {
        config
            .borrow_mut()
            .insert(key.to_string(), value.to_string());
    });
    assert_eq!(config.borrow().get("model").unwrap(), "m");
    assert!(mgr.get_overlay().is_none());
    assert_eq!(copy.get_overlay().unwrap().get("model").unwrap(), "m");
}

#[test]
fn overlay_of_other_values_is_none() {
    for text in [
        r#"{"session_model": {"model": 1}}"#,
        r#"{"session_model": ["model"]}"#,
        r#"{"session_model": null}"#,
        r#""session_model""#,
        "{}",
    ] {
        assert!(get_session_model(&parse(text).unwrap()).is_none());
    }
    let read = get_session_model(&parse(r#"{"session_model": {}}"#).unwrap());
    assert!(read.unwrap().is_empty());
}

#[test]
fn overlay_is_written_into_objects_only() {
    let mut list = parse("[1]").unwrap();
    set_session_model(&mut list, &overlay(&[("model", "m")]));
    assert_eq!(list.as_array().unwrap().len(), 1);
    clear_session_model(&mut list);
    assert_eq!(list.as_array().unwrap().len(), 1);

    let mut object = parse(r#"{"other": 1}"#).unwrap();
    set_session_model(&mut object, &overlay(&[("model", "m"), ("x", "y")]));
    assert_eq!(object.get("other").unwrap().as_u64(), Some(1));
    assert_eq!(get_session_model(&object).unwrap().get("x").unwrap(), "y");
}

#[test]
fn settings_come_back_after_an_overlay() {
    let mut mgr = SessionModelManager::new();
    let mut settings = overlay(&[("model", "a"), ("model_vlm", "b"), ("theme", "dark")]);

    mgr.apply_to(
        &overlay(&[("model", "x"), ("model_vlm", "y"), ("theme", "light")]),
        &mut settings,
    );
    assert!(mgr.is_active());
    assert_eq!(settings.get("model").unwrap(), "x");
    assert_eq!(settings.get("model_vlm").unwrap(), "y");
    assert_eq!(settings.get("theme").unwrap(), "dark");
    assert_eq!(mgr.originals().len(), 2);

    mgr.restore_to(&mut settings);
    assert!(!mgr.is_active());
    assert!(mgr.get_overlay().is_none());
    assert_eq!(settings.len(), 3);
    assert_eq!(settings.get("model").unwrap(), "a");
    assert_eq!(settings.get("model_vlm").unwrap(), "b");

    settings.insert("model", "c".to_string());
    mgr.restore_to(&mut settings);
    assert_eq!(settings.get("model").unwrap(), "c");
}

#[test]
fn only_the_last_overlay_is_put_back() {
    let mut mgr = SessionModelManager::new();
    let mut settings = overlay(&[("model", "a"), ("model_vlm", "b")]);
    mgr.apply_to(&overlay(&[("model", "x")]), &mut settings);
    mgr.apply_to(&overlay(&[("model_vlm", "y")]), &mut settings);
    mgr.apply_to(&StrMap::new(), &mut settings);
    assert_eq!(mgr.is_active(), mgr.get_overlay().is_some());
    mgr.restore_to(&mut settings);
    assert_eq!(settings.get("model").unwrap(), "x");
    assert_eq!(settings.get("model_vlm").unwrap(), "b");
}

#[test]
fn recorded_values_are_set_once() {
    let calls: RefCell<Vec<(String, String)>> = RefCell::new(Vec::new());
    let record = |key: &str, value: &str| {
        calls
            .borrow_mut()
            .push((key.to_string(), value.to_string()));
    };
    let mut mgr = SessionModelManager::new();
    let mut settings = overlay(&[("model", "a"), ("model_vlm", "b")]);
    mgr.apply_to(
        &overlay(&[("model", "x"), ("model_thinking", "y"), ("junk", "z")]),
        &mut settings,
    );
    mgr.restore(record);
    mgr.restore(record);
    assert_eq!(
        *calls.borrow(),
        vec![("model".to_string(), "a".to_string())]
    );
    assert!(mgr.take_originals().is_empty());
    assert_eq!(
        format!("{:?}", mgr),
        "SessionModelManager { originals: {}, active_overlay: None }"
    );
}

#[test]
fn values_are_read_before_they_are_replaced() {
    let calls: RefCell<Vec<String>> = RefCell::new(Vec::new());
    let mut mgr = SessionModelManager::new();
    mgr.apply(
        &overlay(&[("model", "x"), ("junk", "y"), ("model_vlm", "z")]),
        |key: &str| {
            calls.borrow_mut().push(format!("get {key}"));
            None
        },
        |key: &str, value: &str| {
            calls.borrow_mut().push(format!("set {key} {value}"));
        },
    );
    assert_eq!(
        *calls.borrow(),
        vec!["get model", "set model x", "get model_vlm", "set model_vlm z"]
    );
    assert!(mgr.is_active());
    assert!(mgr.originals().is_empty());
}
