use opendev::bedrock::BedrockAdapter;
use opendev::bedrock::request::{
    build_tool_use, convert_tool_messages, convert_tools, ensure_max_tokens, extract_system,
};
use opendev::json::Json;
use opendev::parse::parse;

fn json(text: &str) -> Json {
    parse(text).unwrap()
}

fn messages(payload: &Json) -> &Vec<Json> {
    payload.get("messages").unwrap().as_array().unwrap()
}

fn blocks(message: &Json) -> &Vec<Json> {
    message.get("content").unwrap().as_array().unwrap()
}

#[test]
fn test_provider_name() {
    let adapter = BedrockAdapter::new("anthropic.model-3-sonnet-20240229-v1:0", None);
    assert_eq!(adapter.provider_name(), "bedrock");
}

#[test]
fn test_api_url_format() {
    let adapter =
        BedrockAdapter::with_region("anthropic.model-3-sonnet-20240229-v1:0", "us-west-2");
    assert_eq!(
        adapter.api_url(),
        "https://bedrock-runtime.us-west-2.amazonaws.com/model/anthropic.model-3-sonnet-20240229-v1:0/invoke"
    );
}

#[test]
fn test_api_url_default_region() {
    let adapter =
        BedrockAdapter::with_region("anthropic.model-3-haiku-20240307-v1:0", "us-east-1");
    assert!(adapter.api_url().contains("us-east-1"));
}

#[test]
fn test_model_id() {
    let adapter = BedrockAdapter::new("anthropic.model-3-sonnet-20240229-v1:0", None);
    assert_eq!(
        adapter.model_id(),
        "anthropic.model-3-sonnet-20240229-v1:0"
    );
}

#[test]
fn test_region() {
    let adapter = BedrockAdapter::with_region("model", "eu-west-1");
    assert_eq!(adapter.region(), "eu-west-1");
}

#[test]
fn test_convert_request_removes_unsupported_fields() {
    let adapter = BedrockAdapter::with_region("model-id", "us-east-1");
    let payload = json(
        r#"{
            "model": "model-id",
            "messages": [{"role": "user", "content": "Hi"}],
            "n": 1,
            "frequency_penalty": 0.5,
            "presence_penalty": 0.5,
            "logprobs": true,
            "stream": true
        }"#,
    );
    let result = adapter.convert_request(payload);
    assert!(result.get("model").is_none());
    assert!(result.get("n").is_none());
    assert!(result.get("frequency_penalty").is_none());
    assert!(result.get("presence_penalty").is_none());
    assert!(result.get("logprobs").is_none());
    assert!(result.get("stream").is_none());
    assert_eq!(
        result.get_str("anthropic_version"),
        Some("bedrock-2023-05-31")
    );
}

#[test]
fn test_convert_request_sets_max_tokens() {
    let adapter = BedrockAdapter::with_region("model-id", "us-east-1");
    let payload = json(r#"{"messages": [{"role": "user", "content": "Hi"}]}"#);
    let result = adapter.convert_request(payload);
    assert_eq!(result.get("max_tokens").unwrap().as_u64(), Some(4096));
}

#[test]
fn test_convert_request_preserves_custom_max_tokens() {
    let adapter = BedrockAdapter::with_region("model-id", "us-east-1");
    let payload = json(
        r#"{"messages": [{"role": "user", "content": "Hi"}], "max_tokens": 8192}"#,
    );
    let result = adapter.convert_request(payload);
    assert_eq!(result.get("max_tokens").unwrap().as_u64(), Some(8192));
}

#[test]
fn test_convert_request_converts_max_completion_tokens() {
    let adapter = BedrockAdapter::with_region("model-id", "us-east-1");
    let payload = json(
        r#"{"messages": [{"role": "user", "content": "Hi"}], "max_completion_tokens": 2048}"#,
    );
    let result = adapter.convert_request(payload);
    assert_eq!(result.get("max_tokens").unwrap().as_u64(), Some(2048));
    assert!(result.get("max_completion_tokens").is_none());
}

#[test]
fn test_extra_headers() {
    let adapter = BedrockAdapter::with_region("model-id", "us-east-1");
    let headers = adapter.extra_headers();
    assert!(headers
        .iter()
        .any(|(k, v)| k == "Content-Type" && v == "application/json"));
    assert!(headers
        .iter()
        .any(|(k, v)| k == "Accept" && v == "application/json"));
}

#[test]
fn test_build_url() {
    let url = BedrockAdapter::build_url("ap-southeast-1", "anthropic.model-v2");
    assert_eq!(
        url,
        "https://bedrock-runtime.ap-southeast-1.amazonaws.com/model/anthropic.model-v2/invoke"
    );
}

#[test]
fn test_extract_system() {
    let mut payload = json(
        r#"{
            "messages": [
                {"role": "system", "content": "You are helpful."},
                {"role": "user", "content": "Hello"}
            ]
        }"#,
    );
    extract_system(&mut payload);
    assert_eq!(payload.get_str("system"), Some("You are helpful."));
    assert_eq!(messages(&payload).len(), 1);
    assert_eq!(messages(&payload)[0].get_str("role"), Some("user"));
}

#[test]
fn test_extract_system_multiple() {
    let mut payload = json(
        r#"{
            "messages": [
                {"role": "system", "content": "Part 1"},
                {"role": "system", "content": "Part 2"},
                {"role": "user", "content": "Hello"}
            ]
        }"#,
    );
    extract_system(&mut payload);
    assert_eq!(payload.get_str("system"), Some("Part 1\n\nPart 2"));
}

#[test]
fn test_extract_system_none() {
    let mut payload = json(r#"{"messages": [{"role": "user", "content": "Hello"}]}"#);
    extract_system(&mut payload);
    assert!(payload.get("system").is_none());
}

#[test]
fn test_convert_tools() {
    let mut payload = json(
        r#"{
            "tools": [{
                "type": "function",
                "function": {
                    "name": "read_file",
                    "description": "Read a file",
                    "parameters": {"type": "object", "properties": {"path": {"type": "string"}}}
                }
            }]
        }"#,
    );
    convert_tools(&mut payload);
    let tools = payload.get("tools").unwrap().as_array().unwrap();
    assert_eq!(tools.len(), 1);
    assert_eq!(tools[0].get_str("name"), Some("read_file"));
    assert_eq!(tools[0].get_str("description"), Some("Read a file"));
    assert!(tools[0].get("input_schema").is_some());
}

#[test]
fn test_convert_tool_messages() {
    let mut payload = json(
        r#"{
            "messages": [
                {"role": "user", "content": "Read the file"},
                {
                    "role": "assistant",
                    "content": "I'll read it.",
                    "tool_calls": [{
                        "id": "tc-1",
                        "function": {"name": "read_file", "arguments": "{\"path\": \"a.rs\"}"}
                    }]
                },
                {
                    "role": "tool",
                    "tool_call_id": "tc-1",
                    "content": "fn main() {}"
                }
            ]
        }"#,
    );
    convert_tool_messages(&mut payload);
    let messages = messages(&payload);
    assert_eq!(messages.len(), 3);

    let content = blocks(&messages[1]);
    assert_eq!(content[0].get_str("type"), Some("text"));
    assert_eq!(content[1].get_str("type"), Some("tool_use"));
    assert_eq!(content[1].get_str("name"), Some("read_file"));
    assert_eq!(
        content[1].get("input").unwrap().get_str("path"),
        Some("a.rs")
    );

    assert_eq!(messages[2].get_str("role"), Some("user"));
    let results = blocks(&messages[2]);
    assert_eq!(results[0].get_str("type"), Some("tool_result"));
    assert_eq!(results[0].get_str("tool_use_id"), Some("tc-1"));
}

#[test]
fn test_convert_tool_messages_merge_consecutive() {
    let mut payload = json(
        r#"{
            "messages": [
                {
                    "role": "assistant",
                    "content": "",
                    "tool_calls": [
                        {"id": "tc-1", "function": {"name": "read_file", "arguments": "{}"}},
                        {"id": "tc-2", "function": {"name": "search", "arguments": "{}"}}
                    ]
                },
                {"role": "tool", "tool_call_id": "tc-1", "content": "file1"},
                {"role": "tool", "tool_call_id": "tc-2", "content": "file2"}
            ]
        }"#,
    );
    convert_tool_messages(&mut payload);
    let messages = messages(&payload);
    assert_eq!(messages.len(), 2);
    assert_eq!(messages[1].get_str("role"), Some("user"));
    let results = blocks(&messages[1]);
    assert_eq!(results.len(), 2);
    assert_eq!(results[0].get_str("tool_use_id"), Some("tc-1"));
    assert_eq!(results[1].get_str("tool_use_id"), Some("tc-2"));
}

#[test]
fn test_ensure_max_tokens_default() {
    let mut payload = json(r#"{"messages": []}"#);
    ensure_max_tokens(&mut payload);
    assert_eq!(payload.get("max_tokens").unwrap().as_u64(), Some(4096));
}

#[test]
fn test_ensure_max_tokens_preserves_existing() {
    let mut payload = json(r#"{"messages": [], "max_tokens": 8192}"#);
    ensure_max_tokens(&mut payload);
    assert_eq!(payload.get("max_tokens").unwrap().as_u64(), Some(8192));
}

#[test]
fn test_ensure_max_tokens_converts_max_completion_tokens() {
    let mut payload = json(r#"{"messages": [], "max_completion_tokens": 2048}"#);
    ensure_max_tokens(&mut payload);
    assert_eq!(payload.get("max_tokens").unwrap().as_u64(), Some(2048));
    assert!(payload.get("max_completion_tokens").is_none());
}

#[test]
fn region_comes_from_the_setting_or_the_default() {
    assert_eq!(BedrockAdapter::new("m", None).region(), "us-east-1");
    assert_eq!(
        BedrockAdapter::new("m", Some("eu-central-1")).region(),
        "eu-central-1"
    );
}

#[test]
fn copied_adapter_is_the_same() {
    let adapter = BedrockAdapter::with_region("m", "eu-west-1");
    let copy = adapter.clone();
    assert_eq!(copy.api_url(), adapter.api_url());
    assert_eq!(copy.region(), "eu-west-1");
    assert_eq!(copy.model_id(), "m");
}

#[test]
fn requests_are_not_signed() {
    let adapter = BedrockAdapter::with_region("m", "eu-west-1");
    assert!(adapter.sigv4_headers(b"{}").is_empty());
    assert_eq!(adapter.extra_headers().len(), 2);
}

#[test]
fn null_request_becomes_an_object() {
    let adapter = BedrockAdapter::with_region("m", "eu-west-1");
    let result = adapter.convert_request(json("null"));
    assert_eq!(result.get("max_tokens").unwrap().as_u64(), Some(4096));
    assert_eq!(
        result.get_str("anthropic_version"),
        Some("bedrock-2023-05-31")
    );
}

#[test]
fn arguments_that_are_no_json_become_empty_input() {
    let mut payload = json(
        r#"{
            "messages": [{
                "role": "assistant",
                "tool_calls": [{"id": "x", "function": {"name": "f", "arguments": "{oops"}}]
            }]
        }"#,
    );
    convert_tool_messages(&mut payload);
    let content = blocks(&messages(&payload)[0]);
    assert_eq!(content.len(), 1);
    assert!(content[0].get("input").unwrap().as_object().unwrap().is_empty());
}

#[test]
fn tool_use_takes_what_the_call_holds() {
    let call = json(r#"{"id": "x", "function": {"name": "f", "arguments": "ignored"}}"#);
    let block = build_tool_use(&call, json("[1]"));
    assert_eq!(block.get_str("type"), Some("tool_use"));
    assert_eq!(block.get_str("id"), Some("x"));
    assert_eq!(block.get_str("name"), Some("f"));
    assert_eq!(block.get("input").unwrap().as_array().unwrap().len(), 1);
}

#[test]
fn other_fields_of_a_request_are_kept() {
    let adapter = BedrockAdapter::with_region("m", "eu-west-1");
    let result = adapter.convert_request(json(r#"{"messages": [], "top_p": 1, "user": "u"}"#));
    assert_eq!(result.get("top_p").unwrap().as_u64(), Some(1));
    assert_eq!(result.get_str("user"), Some("u"));
}

#[test]
fn runs_of_results_become_one_message_each() {
    let mut payload = json(
        r#"{
            "messages": [
                {"role": "tool", "tool_call_id": "a", "content": "1"},
                {"role": "tool", "tool_call_id": "b", "content": "2"},
                {"role": "assistant", "content": "x"},
                {"role": "tool", "tool_call_id": "c", "content": "3"},
                {"role": "user", "content": "y"},
                {"role": "tool", "tool_call_id": "d", "content": "4"},
                {"role": "tool", "tool_call_id": "e", "content": "5"}
            ]
        }"#,
    );
    convert_tool_messages(&mut payload);
    let messages = messages(&payload);
    assert_eq!(messages.len(), 5);
    assert_eq!(blocks(&messages[0]).len(), 2);
    assert_eq!(blocks(&messages[2]).len(), 1);
    assert_eq!(blocks(&messages[4]).len(), 2);
    assert_eq!(blocks(&messages[4])[1].get_str("tool_use_id"), Some("e"));
}
