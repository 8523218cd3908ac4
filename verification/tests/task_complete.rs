use opendev::json::Json;
use opendev::strmap::StrMap;
use opendev::task_complete::TaskCompleteTool;

fn make_args(pairs: &[(&str, Json)]) -> StrMap<Json> {
    let mut args = StrMap::new();
    for (key, value) in pairs {
        args.insert(key, value.clone());
    }
    args
}

#[test]
fn test_task_complete_success() {
    let tool = TaskCompleteTool;
    let args = make_args(&[(
        "result",
        Json::text("Implemented the feature and added tests"),
    )]);
    let result = tool.execute(&args);
    assert!(result.success);
    let output = result.output.unwrap();
    assert!(output.contains("success"));
    assert!(output.contains("Implemented the feature"));
    assert_eq!(
        result.metadata.get("_completion").unwrap().as_bool(),
        Some(true)
    );
    assert_eq!(
        result.metadata.get("status").unwrap().as_str(),
        Some("success")
    );
}

#[test]
fn test_task_complete_partial() {
    let tool = TaskCompleteTool;
    let args = make_args(&[
        ("result", Json::text("Completed 3 of 5 items")),
        ("status", Json::text("partial")),
    ]);
    let result = tool.execute(&args);
    assert!(result.success);
    assert!(result.output.unwrap().contains("partial"));
}

#[test]
fn test_task_complete_failed() {
    let tool = TaskCompleteTool;
    let args = make_args(&[
        ("result", Json::text("Could not resolve the issue")),
        ("status", Json::text("failed")),
    ]);
    let result = tool.execute(&args);
    assert!(result.success);
    assert!(result.output.unwrap().contains("failed"));
}

#[test]
fn test_task_complete_missing_result() {
    let tool = TaskCompleteTool;
    let result = tool.execute(&StrMap::new());
    assert!(!result.success);
    assert!(result.error.unwrap().contains("Result is required"));
}

#[test]
fn test_task_complete_empty_result() {
    let tool = TaskCompleteTool;
    let args = make_args(&[("result", Json::text("   "))]);
    let result = tool.execute(&args);
    assert!(!result.success);
    assert!(result.error.unwrap().contains("Result is required"));
}

#[test]
fn test_task_complete_invalid_status() {
    let tool = TaskCompleteTool;
    let args = make_args(&[
        ("result", Json::text("Done")),
        ("status", Json::text("cancelled")),
    ]);
    let result = tool.execute(&args);
    assert!(!result.success);
    assert!(result.error.unwrap().contains("Invalid status"));
}

#[test]
fn test_task_complete_default_status() {
    let tool = TaskCompleteTool;
    let args = make_args(&[("result", Json::text("All done"))]);
    let result = tool.execute(&args);
    assert!(result.success);
    assert_eq!(
        result.metadata.get("status").unwrap().as_str(),
        Some("success")
    );
}

#[test]
fn test_task_complete_trims_result() {
    let tool = TaskCompleteTool;
    let args = make_args(&[("result", Json::text("  Trimmed result  "))]);
    let result = tool.execute(&args);
    assert!(result.success);
    assert_eq!(
        result.metadata.get("summary").unwrap().as_str(),
        Some("Trimmed result")
    );
}

#[test]
fn completion_messages_are_exact() {
    let tool = TaskCompleteTool;
    let done = tool.execute(&make_args(&[
        ("summary", Json::text("\u{a0}all\tgood\n")),
        ("status", Json::text("partial")),
    ]));
    assert_eq!(
        done.output.as_deref(),
        Some("Task completed (partial): all\tgood")
    );
    assert_eq!(done.error, None);
    assert_eq!(done.metadata.len(), 3);

    let wrong = tool.execute(&make_args(&[
        ("result", Json::text("x")),
        ("status", Json::text("?")),
    ]));
    assert_eq!(
        wrong.error.as_deref(),
        Some("Invalid status '?'. Must be one of: success, partial, failed")
    );
    assert_eq!(wrong.output, None);

    let hidden = tool.execute(&make_args(&[
        ("result", Json::unsigned(1)),
        ("summary", Json::text("x")),
    ]));
    assert_eq!(
        hidden.error.as_deref(),
        Some("Result is required for task_complete")
    );
}

#[test]
fn tool_describes_itself() {
    let tool = TaskCompleteTool;
    assert_eq!(tool.name(), "task_complete");
    assert!(tool.description().starts_with("Call this tool when"));
    let schema = tool.parameter_schema();
    assert_eq!(schema.get_str("type"), Some("object"));
    let status = schema.get("properties").unwrap().get("status").unwrap();
    assert_eq!(status.get_str("default"), Some("success"));
    let names: Vec<&str> = status
        .get("enum")
        .unwrap()
        .as_array()
        .unwrap()
        .iter()
        .map(|v| v.as_str().unwrap())
        .collect();
    assert_eq!(names, vec!["success", "partial", "failed"]);
    let required = schema.get("required").unwrap().as_array().unwrap();
    assert_eq!(required[0].as_str(), Some("result"));
}
