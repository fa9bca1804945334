use warpllm::model::{deepseek_models, models, openai_models, parse_model, ModelSpec, ANY_MODEL};
use warpllm::Protocol;

#[test]
fn parses_openai() {
    let spec = parse_model("openai/gpt-4o").unwrap();
    assert_eq!(spec.provider, "openai");
    assert_eq!(spec.model, "gpt-4o");
}

#[test]
fn parses_deepseek() {
    let spec = parse_model("deepseek/deepseek-v4-flash").unwrap();
    assert_eq!(spec.provider, "deepseek");
    assert_eq!(spec.model, "deepseek-v4-flash");
    assert_eq!(spec.base_url, "https://api.deepseek.com");
    assert_eq!(spec.env_key, "DEEPSEEK_API_KEY");
    assert_eq!(spec.protocol, Protocol::OpenAiCompat);
}

#[test]
fn capabilities_resolve_for_the_addressed_model() {
    let openai = parse_model("openai/gpt-4o").unwrap();
    assert!(openai.capabilities.supports_endpoint("/chat/completions"));
    assert!(openai.capabilities.supports_endpoint("/responses"));

    let deepseek = parse_model("deepseek/deepseek-v4-flash").unwrap();
    assert!(deepseek.capabilities.supports_endpoint("/chat/completions"));
    assert!(!deepseek.capabilities.supports_endpoint("/responses"));
}

#[test]
fn unlisted_models_fall_back_to_the_providers_base_spec() {
    let spec = parse_model("openai/some-future-model").unwrap();
    assert_eq!(spec.model, "some-future-model");
    assert_eq!(spec.base_url, "https://api.openai.com/v1");
    assert!(spec.capabilities.supports_endpoint("/responses"));
}

#[test]
fn listed_models_resolve_to_their_own_entry() {
    let listed: Vec<ModelSpec> = models().into_iter().filter(|spec| spec.model != ANY_MODEL).collect();
    assert!(!listed.is_empty(), "roster has no per-model entries");
    for spec in listed {
        let requested = format!("{}/{}", spec.provider, spec.model);
        let resolved = parse_model(&requested).unwrap();
        assert_eq!(resolved.model, spec.model);
        assert_eq!(resolved.base_url, spec.base_url);
        assert_eq!(
            resolved.capabilities.max_concurrent_requests,
            spec.capabilities.max_concurrent_requests
        );
    }
}

#[test]
fn concurrency_limits_resolve_per_model() {
    let flash = parse_model("deepseek/deepseek-v4-flash").unwrap();
    let pro = parse_model("deepseek/deepseek-v4-pro").unwrap();
    assert_eq!(flash.capabilities.max_concurrent_requests, Some(2500));
    assert_eq!(pro.capabilities.max_concurrent_requests, Some(500));
    assert_eq!(flash.base_url, pro.base_url);

    let unlisted = parse_model("deepseek/deepseek-v5").unwrap();
    assert_eq!(unlisted.capabilities.max_concurrent_requests, None);
}

#[test]
fn every_provider_has_exactly_one_base_spec() {
    let mut bases: Vec<String> = models()
        .into_iter()
        .filter(|spec| spec.model == ANY_MODEL)
        .map(|spec| spec.provider)
        .collect();
    let count = bases.len();
    bases.sort_unstable();
    bases.dedup();
    assert_eq!(bases.len(), count, "a provider declared two base specs");
}

#[test]
fn keeps_slashes_in_model_name() {
    let spec = parse_model("openai/org/custom-model").unwrap();
    assert_eq!(spec.provider, "openai");
    assert_eq!(spec.model, "org/custom-model");
}

#[test]
fn model_rejects_bare_model() {
    let msg = parse_model("gpt-4o").unwrap_err().text();
    assert!(msg.contains("not a supported provider"), "{msg}");
}

#[test]
fn model_rejects_unknown_provider() {
    let msg = parse_model("mistral/large").unwrap_err().text();
    assert!(msg.contains("mistral/large"), "{msg}");
    assert!(msg.contains("not a supported provider"), "{msg}");
}

#[test]
fn rejects_empty_model_name() {
    assert!(parse_model("openai/").is_err());
}

fn deepseek(model: &str) -> ModelSpec {
    deepseek_models().into_iter().find(|s| s.model == model).unwrap()
}

#[test]
fn the_v4_pair_diverges_only_on_concurrency() {
    let base = deepseek(ANY_MODEL);
    let flash = deepseek("deepseek-v4-flash");
    let pro = deepseek("deepseek-v4-pro");
    assert_eq!(flash.capabilities.max_concurrent_requests, Some(2500));
    assert_eq!(pro.capabilities.max_concurrent_requests, Some(500));
    for model in [&flash, &pro] {
        assert_eq!(model.base_url, base.base_url);
        assert_eq!(model.env_key, base.env_key);
        assert_eq!(model.capabilities.supported_endpoints, base.capabilities.supported_endpoints);
    }
}

#[test]
fn mod_the_base_spec_covers_unlisted_models() {
    let base = deepseek(ANY_MODEL);
    assert_eq!(base.provider, "deepseek");
    assert_eq!(base.env_key, "DEEPSEEK_API_KEY");
    assert!(base.capabilities.supports_endpoint("/chat/completions"));
    assert!(!base.capabilities.supports_endpoint("/responses"));
    assert_eq!(base.capabilities.max_concurrent_requests, None);

    let base = openai_models().into_iter().find(|s| s.model == ANY_MODEL).unwrap();
    assert_eq!(base.provider, "openai");
    assert_eq!(base.base_url, "https://api.openai.com/v1");
    assert!(base.capabilities.supports_endpoint("/chat/completions"));
    assert!(!base.capabilities.supports_endpoint("/batch"));
    assert_eq!(base.capabilities.max_concurrent_requests, None);
}

/// The rejection reads as one sentence naming what was asked for.
#[test]
fn the_rejection_names_the_model_string() {
    assert_eq!(
        parse_model("mistral/large").unwrap_err().text(),
        "invalid model string 'mistral/large': not a supported provider"
    );
    assert_eq!(parse_model("nothing").unwrap_err().given, "nothing");
}
