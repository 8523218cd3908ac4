use opendev::models::{
    default_api_type, default_pricing_unit, default_true, ModelInfo, Price, ProviderInfo,
    RegistryError,
};
use opendev::strmap::StrMap;

fn price(value: f64) -> Price {
    Price {
        bits: value.to_bits(),
        text: format!("{:.2}", value),
    }
}

fn model(id: &str, name: &str, context_length: u64, capabilities: &[&str]) -> ModelInfo {
    ModelInfo {
        id: id.to_string(),
        name: name.to_string(),
        provider: "Test".to_string(),
        context_length,
        capabilities: capabilities.iter().map(|c| c.to_string()).collect(),
        pricing_input: price(0.0),
        pricing_output: price(0.0),
        pricing_unit: "per million tokens".to_string(),
        serverless: false,
        tunable: false,
        recommended: false,
        max_tokens: None,
        supports_temperature: true,
        api_type: "chat".to_string(),
    }
}

fn provider(models: StrMap<ModelInfo>) -> ProviderInfo {
    ProviderInfo {
        id: "test".to_string(),
        name: "Test".to_string(),
        description: "Test provider".to_string(),
        api_key_env: "TEST_API_KEY".to_string(),
        api_base_url: "https://api.test.com".to_string(),
        models,
    }
}

#[test]
fn test_model_info_display() {
    let model = ModelInfo {
        provider: "OpenAI".to_string(),
        pricing_input: price(30.0),
        pricing_output: price(60.0),
        recommended: true,
        max_tokens: Some(4096),
        ..model("gpt-4", "GPT-4", 128_000, &["text", "vision"])
    };
    let display = model.display();
    assert!(display.contains("GPT-4"));
    assert!(display.contains("128000"));
    assert_eq!(
        display,
        "GPT-4\n  Provider: OpenAI\n  Context: 128000 tokens\n  Capabilities: text, vision"
    );
}

#[test]
fn test_model_info_pricing() {
    let model = ModelInfo {
        pricing_input: price(1.5),
        pricing_output: price(2.0),
        ..model("test", "Test", 4096, &[])
    };
    assert_eq!(
        model.format_pricing(),
        "$1.50 in / $2.00 out per million tokens"
    );

    let free = ModelInfo {
        pricing_input: price(0.0),
        pricing_output: price(0.0),
        ..model.clone()
    };
    assert_eq!(free.format_pricing(), "N/A");
}

#[test]
fn test_provider_list_models() {
    let mut models = StrMap::new();
    models.insert("small", model("small", "Small", 4096, &["text"]));
    models.insert(
        "large",
        ModelInfo {
            recommended: true,
            ..model("large", "Large", 128_000, &["text", "vision"])
        },
    );
    let provider = provider(models);

    let all = provider.list_models(None);
    assert_eq!(all.len(), 2);
    assert_eq!(all[0].context_length, 128_000);

    let vision = provider.list_models(Some("vision"));
    assert_eq!(vision.len(), 1);
    assert_eq!(vision[0].id, "large");

    assert_eq!(provider.get_recommended_model().unwrap().id, "large");
}

#[test]
fn equal_contexts_keep_their_order() {
    let mut models = StrMap::new();
    for (id, length) in [("a", 1u64), ("b", 2), ("c", 1), ("d", 2)] {
        models.insert(id, model(id, id, length, &["text"]));
    }
    let provider = provider(models);
    let ids: Vec<&str> = provider
        .list_models(Some("text"))
        .iter()
        .map(|m| m.id.as_str())
        .collect();
    assert_eq!(ids, vec!["b", "d", "a", "c"]);
    assert!(provider.list_models(Some("tex")).is_empty());
}

#[test]
fn first_model_is_taken_where_none_is_recommended() {
    assert!(provider(StrMap::new()).get_recommended_model().is_none());
    let mut models = StrMap::new();
    models.insert("x", model("x", "X", 1, &[]));
    models.insert("y", model("y", "Y", 2, &[]));
    assert_eq!(
        provider(models).get_recommended_model().unwrap().id,
        "x"
    );
}

#[test]
fn zero_prices_have_either_sign() {
    let free = ModelInfo {
        pricing_input: price(-0.0),
        ..model("m", "M", 1, &[])
    };
    assert_eq!(free.format_pricing(), "N/A");
    let cheap = ModelInfo {
        pricing_output: price(0.001),
        ..model("m", "M", 1, &[])
    };
    assert_eq!(
        cheap.format_pricing(),
        "$0.00 in / $0.00 out per million tokens"
    );
}

#[test]
fn defaults_are_filled_in() {
    assert_eq!(default_pricing_unit(), "per million tokens");
    assert!(default_true());
    assert_eq!(default_api_type(), "chat");
}

#[test]
fn registry_errors_have_messages() {
    assert_eq!(
        RegistryError::CacheRead("gone".to_string()).message(),
        "failed to read cache: gone"
    );
    assert_eq!(
        RegistryError::JsonParse("line 1".to_string()).message(),
        "failed to parse JSON: line 1"
    );
    assert_eq!(
        RegistryError::NetworkError("down".to_string()).message(),
        "network fetch failed: down"
    );
}

#[test]
fn copied_provider_is_the_same() {
    let mut models = StrMap::new();
    models.insert("x", model("x", "X", 1, &["text"]));
    models.insert("y", model("y", "Y", 2, &[]));
    let provider = provider(models);
    let copy = provider.clone();
    assert_eq!(copy.id, "test");
    assert_eq!(copy.models.len(), 2);
    assert_eq!(copy.models.pair(0).0, "x");
    assert_eq!(copy.models.get("x").unwrap().display(), "X\n  Provider: Test\n  Context: 1 tokens\n  Capabilities: text");
    assert_eq!(copy.list_models(None)[0].id, "y");
}
