use warpllm::registry::lint::check;
use warpllm::registry::load::load;
use warpllm::registry::specs::SPECS_YAML;
use warpllm::registry::{fetch_model, resolve, Registry};
use warpllm::{Api, Protocol};

/// One provider with no models yet: nine lines, ending on its `models:` key,
/// so a case that appends entries knows its first key lands on line 10.
const PROVIDER: &str = "providers:
  demo:
    base_url: \"https://api.demo.test/v1\"
    env_api_key: DEMO_API_KEY
    protocol: openai_compat
    supported_apis:
      - chat_completions
      - responses
    models:
";

/// A second provider, complete with a model, sorted after `demo`.
const OTHER_PROVIDER: &str = "  other:
    base_url: \"https://api.other.test\"
    env_api_key: OTHER_API_KEY
    protocol: openai_compat
    supported_apis:
      - chat_completions
    models:
      other/plain: {}
";

fn with(models: &str) -> String {
    format!("{PROVIDER}{models}")
}

/// A roster expected to be valid and clean, loaded.
fn clean(yaml: &str) -> Registry {
    if let Err(e) = check(yaml) {
        panic!("{e}");
    }
    match load(yaml) {
        Ok(r) => r,
        Err(e) => panic!("{e}"),
    }
}

fn keys(registry: &Registry) -> Vec<String> {
    let mut keys = registry.model_keys();
    keys.sort_unstable();
    keys
}

fn providers(registry: &Registry) -> Vec<String> {
    let mut names = registry.provider_names();
    names.sort_unstable();
    names
}

/// `PROVIDER` with one field's line dropped.
fn without(field: &str) -> String {
    PROVIDER
        .lines()
        .filter(|line| !line.trim_start().starts_with(&format!("{field}:")))
        .fold(String::new(), |acc, line| acc + line + "\n")
}

// ------------------------------------------------------------------ load

#[test]
fn providers_and_models_land_in_their_own_tables() {
    let registry = clean(&with("      demo/one: {}\n      demo/two: {}\n"));
    assert_eq!(providers(&registry), vec!["demo"]);
    assert_eq!(keys(&registry), vec!["demo/one", "demo/two"]);
}

#[test]
fn a_providers_transport_is_stored_once() {
    let registry = clean(&with("      demo/one: {}\n      demo/two: {}\n"));
    let provider = registry.provider("demo").unwrap();
    assert_eq!(provider.name(), "demo");
    assert_eq!(provider.base_url(), "https://api.demo.test/v1");
    assert_eq!(provider.env_api_key(), Some("DEMO_API_KEY"));
    assert_eq!(provider.protocol(), Protocol::OpenAiCompat);
    assert_eq!(provider.supported_apis(), [Api::ChatCompletions, Api::Responses]);
    for key in ["demo/one", "demo/two"] {
        assert_eq!(registry.model(key).unwrap().provider(), "demo");
    }
}

#[test]
fn a_provider_may_name_no_env_api_key() {
    let registry = clean(&format!("{}      demo/plain: {{}}\n", without("env_api_key")));
    let provider = registry.provider("demo").unwrap();
    assert_eq!(provider.env_api_key(), None);
    assert_eq!(provider.base_url(), "https://api.demo.test/v1");
}

#[test]
fn an_empty_entry_is_routable_and_records_no_limits() {
    let registry = clean(&with("      demo/plain: {}\n"));
    let spec = registry.model("demo/plain").unwrap();
    assert_eq!(spec.model(), "plain");
    assert_eq!(spec.capabilities().max_input_tokens(), None);
    assert_eq!(spec.capabilities().max_concurrent_requests(), None);
}

#[test]
fn capabilities_are_read_per_model() {
    let registry = clean(&with(
        "      demo/fast:\n        capabilities:\n          max_concurrent_requests: 2500\n      demo/slow:\n        capabilities:\n          max_concurrent_requests: 500\n",
    ));
    let caps = |key| *registry.model(key).unwrap().capabilities();
    assert_eq!(caps("demo/fast").max_concurrent_requests(), Some(2500));
    assert_eq!(caps("demo/slow").max_concurrent_requests(), Some(500));
    assert_eq!(caps("demo/fast").max_input_tokens(), None);
}

#[test]
fn the_wire_name_defaults_to_the_keys_last_segment() {
    let registry = clean(&with("      demo/plain: {}\n"));
    assert_eq!(registry.model("demo/plain").unwrap().model(), "plain");
}

#[test]
fn an_explicit_model_beats_the_keys_last_segment() {
    let registry = clean(&with("      demo/chat:\n        model: demo-chat-20240101\n"));
    assert_eq!(registry.model("demo/chat").unwrap().model(), "demo-chat-20240101");
}

#[test]
fn a_slash_containing_name_is_one_name() {
    let registry = clean(&with("      demo/org/custom: {}\n"));
    assert_eq!(registry.model("demo/org/custom").unwrap().model(), "custom");
}

#[test]
fn every_model_names_a_provider_that_exists() {
    let registry = clean(&format!("{}{OTHER_PROVIDER}", with("      demo/plain: {}\n")));
    for key in registry.model_keys() {
        let spec = registry.model(&key).unwrap();
        let provider = registry
            .provider(spec.provider())
            .unwrap_or_else(|| panic!("`{key}` names provider `{}`", spec.provider()));
        assert_eq!(key.split('/').next(), Some(provider.name()));
    }
}

#[test]
fn unknown_protocols_are_rejected() {
    let err = load(&with("").replace("openai_compat", "anthropic")).unwrap_err();
    assert!(err.contains("unknown variant"), "{err}");
    assert!(err.contains("openai_compat"), "{err}");
}

#[test]
fn misspelled_fields_are_rejected() {
    let err = load(&with("").replace("base_url:", "base_urls:")).unwrap_err();
    assert!(err.contains("unknown field"), "{err}");
    assert!(err.contains("base_url"), "{err}");
}

#[test]
fn a_misspelled_capability_is_rejected() {
    let err = load(&with(
        "      demo/plain:\n        capabilities:\n          max_input_token: 128\n",
    ))
    .unwrap_err();
    assert!(err.contains("unknown field"), "{err}");
    assert!(err.contains("max_input_tokens"), "{err}");
}

#[test]
fn duplicate_keys_are_rejected() {
    let err = load(&with("      demo/plain: {}\n      demo/plain: {}\n")).unwrap_err();
    assert!(err.contains("duplicate"), "{err}");
    assert!(err.contains("demo/plain"), "{err}");
}

#[test]
fn a_missing_provider_field_is_rejected() {
    for field in ["base_url", "protocol", "supported_apis"] {
        let mut yaml = without(field);
        if field == "supported_apis" {
            // Its two list items outlive the key they belonged to.
            yaml = yaml
                .lines()
                .filter(|line| !line.trim_start().starts_with("- "))
                .fold(String::new(), |acc, line| acc + line + "\n");
        }
        let err = load(&format!("{yaml}      demo/plain: {{}}\n")).unwrap_err();
        assert!(
            err.contains("missing field") && err.contains(field),
            "removing {field} gave: {err}"
        );
    }
}

#[test]
fn a_model_key_missing_its_provider_prefix_is_rejected() {
    let err = load(&with("      plain: {}\n")).unwrap_err();
    assert!(err.contains("has to start with `demo/`"), "{err}");
}

#[test]
fn a_model_key_under_the_wrong_provider_is_rejected() {
    let err = load(&with("      other/plain: {}\n")).unwrap_err();
    assert!(err.contains("has to start with `demo/`"), "{err}");
}

#[test]
fn a_key_that_names_no_model_is_rejected() {
    let err = load(&with("      demo/: {}\n")).unwrap_err();
    assert!(err.contains("names no model"), "{err}");
}

#[test]
fn an_empty_path_segment_is_rejected() {
    let err = load(&with("      demo//custom: {}\n")).unwrap_err();
    assert!(err.contains("an empty path segment"), "{err}");
}

#[test]
fn a_provider_name_carrying_a_slash_is_rejected() {
    let err = load(&PROVIDER.replace("  demo:", "  demo/:")).unwrap_err();
    assert!(err.contains("a provider name is one segment"), "{err}");
    assert!(err.contains("write `demo`"), "{err}");
}

// ------------------------------------------------------------------ lint

#[test]
fn colliding_env_api_keys_are_rejected() {
    let yaml = format!(
        "{}{}",
        with("      demo/plain: {}\n"),
        OTHER_PROVIDER.replace("OTHER_API_KEY", "DEMO_API_KEY")
    );
    assert!(load(&yaml).is_ok(), "the roster is what is wrong, not the table");
    let err = check(&yaml).unwrap_err();
    assert!(err.contains("DEMO_API_KEY"), "{err}");
    assert!(err.contains("its own environment variable"), "{err}");
}

#[test]
fn one_provider_may_reuse_its_own_env_api_key() {
    let registry = clean(&with("      demo/a: {}\n      demo/b: {}\n"));
    for key in ["demo/a", "demo/b"] {
        let (provider, _) = resolve(&registry, key).unwrap();
        assert_eq!(provider.env_api_key(), Some("DEMO_API_KEY"));
    }
}

#[test]
fn two_providers_may_both_name_no_env_api_key() {
    let bare = without("env_api_key");
    let other: String = OTHER_PROVIDER
        .lines()
        .filter(|line| !line.trim_start().starts_with("env_api_key:"))
        .fold(String::new(), |acc, line| acc + line + "\n");
    clean(&format!("{bare}      demo/plain: {{}}\n{other}"));
}

#[test]
fn an_empty_env_api_key_points_at_omitting_it() {
    let yaml = with("      demo/plain: {}\n").replace("env_api_key: DEMO_API_KEY", "env_api_key: \"\"");
    let err = check(&yaml).unwrap_err();
    assert!(err.contains("env_api_key is empty"), "{err}");
    assert!(err.contains("omit the field entirely"), "{err}");
}

#[test]
fn an_api_outside_the_vocabulary_fails_to_load() {
    let yaml = with("      demo/typo: {}\n").replace("- responses", "- chat_completion");
    let err = load(&yaml).unwrap_err();
    assert!(err.contains("unknown variant `chat_completion`"), "{err}");
    for known in ["chat_completions", "chat_completions_stream", "responses"] {
        assert!(err.contains(known), "vocabulary missing {known}: {err}");
    }
    assert!(check(&yaml).unwrap_err().contains("unknown variant"), "{err}");
}

#[test]
fn out_of_order_keys_are_rejected() {
    let yaml = with("      demo/zeta: {}\n      demo/alpha: {}\n");
    assert!(load(&yaml).is_ok(), "key order cannot break resolution");
    let err = check(&yaml).unwrap_err();
    assert!(err.contains("`demo/alpha` (line 11)"), "{err}");
    assert!(err.contains("move it above `demo/zeta` (line 10)"), "{err}");
    assert!(err.contains("ascending BYTE order"), "{err}");
}

#[test]
fn the_order_error_points_at_the_right_line() {
    let err = check(&with("      demo/model-x: {}\n      demo/model: {}\n")).unwrap_err();
    assert!(err.contains("`demo/model` (line 11)"), "{err}");
    assert!(err.contains("above `demo/model-x` (line 10)"), "{err}");
}

#[test]
fn an_unreachable_namespace_is_rejected() {
    let err = check(PROVIDER).unwrap_err();
    assert!(err.contains("nothing routes through this namespace"), "{err}");
}

#[test]
fn a_wildcard_alone_makes_its_namespace_reachable() {
    clean(&with("      demo/*: {}\n"));
}

#[test]
fn unroutable_specs_are_rejected() {
    let empty_key = with("      demo/plain: {}\n").replace("env_api_key: DEMO_API_KEY", "env_api_key: \"\"");
    let err = check(&empty_key).unwrap_err();
    assert!(err.contains("env_api_key is empty"), "{err}");

    let trailing = with("      demo/plain: {}\n").replace("api.demo.test/v1", "api.demo.test/v1/");
    let err = check(&trailing).unwrap_err();
    assert!(err.contains("doubled slash"), "{err}");

    // An EMPTY list is a lint failure; omitting the field fails to load.
    let empty = with("      demo/plain: {}\n").replace(
        "    supported_apis:\n      - chat_completions\n      - responses\n",
        "    supported_apis: []\n",
    );
    let err = check(&empty).unwrap_err();
    assert!(err.contains("names no API"), "{err}");

    let err = check("providers: {}\n").unwrap_err();
    assert!(err.contains("names no models"), "{err}");
}

// -------------------------------------------------------------- matching

#[test]
fn a_key_matches_its_own_entry_or_nothing() {
    let registry = clean(&with("      demo/pinned:\n        model: pinned-2024\n      demo/plain: {}\n"));
    assert_eq!(resolve(&registry, "demo/pinned").unwrap().1.model(), "pinned-2024");
    assert_eq!(resolve(&registry, "demo/plain").unwrap().1.model(), "plain");
    assert!(resolve(&registry, "demo/pinnedd").is_none());
    assert!(resolve(&registry, "demo/PLAIN").is_none());
}

#[test]
fn a_match_carries_its_provider() {
    let registry = clean(&with("      demo/plain: {}\n"));
    let (provider, _) = resolve(&registry, "demo/plain").unwrap();
    assert_eq!(provider.name(), "demo");
    assert_eq!(provider.base_url(), "https://api.demo.test/v1");
    assert_eq!(provider.protocol(), Protocol::OpenAiCompat);
}

#[test]
fn an_unlisted_name_is_rejected() {
    let registry = clean(&with("      demo/plain: {}\n"));
    assert!(resolve(&registry, "demo/plain").is_some());
    for unlisted in ["demo/unlisted", "demo/*", "demo/pl*", "*"] {
        assert!(resolve(&registry, unlisted).is_none(), "`{unlisted}`");
    }
}

#[test]
fn a_grouped_name_matches_only_its_own_entry() {
    let registry = clean(&with("      demo/org/one: {}\n      demo/plain: {}\n"));
    assert!(resolve(&registry, "demo/org/one").is_some());
    assert!(resolve(&registry, "demo/org/two").is_none());
    assert!(resolve(&registry, "demo/org").is_none());
}

#[test]
fn a_provider_name_is_not_routable() {
    let registry = clean(&with("      demo/plain: {}\n"));
    assert!(resolve(&registry, "demo/").is_none());
    assert!(resolve(&registry, "demo").is_none());
}

// -------------------------------------------------------- shipped roster

#[test]
fn the_shipped_registry_loads_and_lints() {
    if let Err(e) = check(SPECS_YAML) {
        panic!("specs.yaml: {e}");
    }
    let registry = load(SPECS_YAML).unwrap();
    assert_eq!(providers(&registry), vec!["deepseek", "openai"]);
    assert_eq!(
        keys(&registry),
        vec![
            "deepseek/deepseek-v4-flash",
            "deepseek/deepseek-v4-pro",
            "openai/gpt-5.6",
            "openai/gpt-5.6-luna",
            "openai/gpt-5.6-sol",
            "openai/gpt-5.6-terra",
        ]
    );
}

#[test]
fn resolves_openai() {
    let (provider, model) = fetch_model("openai/gpt-5.6").unwrap();
    assert_eq!(provider.name(), "openai");
    assert_eq!(provider.base_url(), "https://api.openai.com/v1");
    assert_eq!(model.model(), "gpt-5.6");
}

#[test]
fn resolves_deepseek() {
    let (provider, model) = fetch_model("deepseek/deepseek-v4-flash").unwrap();
    assert_eq!(provider.name(), "deepseek");
    assert_eq!(provider.base_url(), "https://api.deepseek.com");
    assert_eq!(provider.env_api_key(), Some("DEEPSEEK_API_KEY"));
    assert_eq!(provider.protocol(), Protocol::OpenAiCompat);
    assert_eq!(model.model(), "deepseek-v4-flash");
}

#[test]
fn the_gpt_5_6_family_is_registered() {
    let (base, _) = fetch_model("openai/gpt-5.6").unwrap();
    for name in ["gpt-5.6-luna", "gpt-5.6-sol", "gpt-5.6-terra"] {
        let (provider, model) = fetch_model(&format!("openai/{name}")).unwrap();
        assert_eq!(model.model(), name);
        // One provider row answers for the whole family.
        assert_eq!(provider.name(), base.name());
        assert_eq!(provider.base_url(), base.base_url());
        assert_eq!(provider.env_api_key(), base.env_api_key());
    }
}

#[test]
fn supported_apis_resolve_for_the_addressed_provider() {
    let (openai, _) = fetch_model("openai/gpt-5.6").unwrap();
    assert!(openai.supports_api(Api::ChatCompletions));
    assert!(openai.supports_api(Api::Responses));

    let (deepseek, _) = fetch_model("deepseek/deepseek-v4-flash").unwrap();
    assert!(deepseek.supports_api(Api::ChatCompletions));
    assert!(!deepseek.supports_api(Api::Responses));
}

#[test]
fn registered_models_resolve_to_their_own_entry() {
    let registry = load(SPECS_YAML).unwrap();
    assert!(!registry.model_keys().is_empty(), "the registry is empty");
    for model_str in registry.model_keys() {
        let spec = registry.model(&model_str).unwrap();
        let (provider, resolved) = fetch_model(&model_str).unwrap();
        assert_eq!(resolved.model(), spec.model());
        assert_eq!(provider.name(), spec.provider());
        assert_eq!(
            resolved.capabilities().max_concurrent_requests(),
            spec.capabilities().max_concurrent_requests()
        );
    }
}

#[test]
fn model_entries_carry_only_what_differs() {
    let (flash_provider, flash) = fetch_model("deepseek/deepseek-v4-flash").unwrap();
    let (pro_provider, pro) = fetch_model("deepseek/deepseek-v4-pro").unwrap();
    assert_eq!(flash_provider.name(), pro_provider.name());
    assert_eq!(flash_provider.base_url(), pro_provider.base_url());
    assert_eq!(flash.capabilities().max_concurrent_requests(), Some(2500));
    assert_eq!(pro.capabilities().max_concurrent_requests(), Some(500));
}

#[test]
fn unregistered_models_are_rejected() {
    for model_str in ["openai/gpt-4o", "deepseek/deepseek-v5", "openai/*"] {
        let msg = fetch_model(model_str).unwrap_err().text();
        assert!(msg.contains(model_str), "{msg}");
        assert!(msg.contains("no registered model spec"), "{msg}");
    }
}

#[test]
fn unregistered_grouped_names_are_rejected() {
    assert!(fetch_model("openai/org/custom-model").is_err());
}

#[test]
fn mod_rejects_bare_model() {
    let msg = fetch_model("gpt-5.6").unwrap_err().text();
    assert!(msg.contains("no registered model spec"), "{msg}");
}

#[test]
fn mod_rejects_unknown_provider() {
    let msg = fetch_model("mistral/large").unwrap_err().text();
    assert!(msg.contains("mistral/large"), "{msg}");
    assert!(msg.contains("no registered model spec"), "{msg}");
}

#[test]
fn rejects_a_provider_key() {
    assert!(fetch_model("openai/").is_err());
    assert!(fetch_model("openai").is_err());
}

#[test]
fn the_table_holds_only_routable_entries() {
    let registry = load(SPECS_YAML).unwrap();
    for model_str in registry.model_keys() {
        let spec = registry.model(&model_str).unwrap();
        let (provider, name) = model_str
            .split_once('/')
            .unwrap_or_else(|| panic!("`{model_str}` names no provider"));
        assert_eq!(spec.provider(), provider, "`{model_str}`");
        assert!(registry.provider(provider).is_some(), "`{model_str}`");
        assert!(!name.is_empty(), "`{model_str}` names no model");
        assert!(
            !model_str.contains('*') && !spec.model().contains('*'),
            "`{model_str}`: a `*` reached the table, which matches nothing"
        );
    }
}

// ------------------------------------------------------------ laws, on values

/// A loaded registry never holds two rows under one key or two providers
/// under one name, and every model's provider is in the table.
#[test]
fn a_loaded_registry_is_well_formed() {
    let registry = clean(&format!("{}{OTHER_PROVIDER}", with("      demo/a: {}\n      demo/b: {}\n")));
    let mut keys = registry.model_keys();
    let n = keys.len();
    keys.dedup();
    assert_eq!(keys.len(), n);
    for key in registry.model_keys() {
        let (provider, model) = resolve(&registry, &key).unwrap();
        assert_eq!(provider.name(), model.provider());
        assert!(key.starts_with(&format!("{}/", provider.name())));
    }
}

/// The shipped roster resolves through `fetch_model` to copies of its rows.
#[test]
fn fetch_model_answers_from_the_shipped_roster() {
    let (provider, model) = fetch_model("deepseek/deepseek-v4-pro").unwrap();
    assert_eq!(provider.supported_apis(), [Api::ChatCompletions, Api::ChatCompletionsStream]);
    assert_eq!(model.provider(), "deepseek");
    assert_eq!(model.capabilities().max_input_tokens(), None);
}

/// A document the parser refuses is reported as the parser's message.
#[test]
fn a_document_that_does_not_parse_is_rejected() {
    assert!(load("providers: [unclosed").is_err());
    assert!(check("providers: [unclosed").is_err());
}

/// Problems are reported in document order, and a missing field only once
/// every entry has been read: a misspelled capability inside `models` wins
/// over the `protocol` the provider leaves out.
#[test]
fn the_first_problem_in_document_order_is_reported() {
    let yaml = without("protocol").replace(
        "    models:\n",
        "    models:\n      demo/plain:\n        capabilities:\n          max_input_token: 128\n",
    );
    let err = load(&yaml).unwrap_err();
    assert!(err.contains("unknown field `max_input_token`"), "{err}");
    // With the misspelling fixed, the missing field is what is left.
    let err = load(&yaml.replace("max_input_token:", "max_input_tokens:")).unwrap_err();
    assert!(err.contains("missing field `protocol`"), "{err}");
    // A bad value before an unknown key is the one reported.
    let err = load(&with("      demo/plain: {}\n").replace("protocol: openai_compat", "protocol: 7\n    bogus: 1")).unwrap_err();
    assert!(err.contains("protocol") && err.contains("invalid type"), "{err}");
}

/// Two keys of one provider resolve to one and the same provider row, whose
/// name is each key's first segment.
#[test]
fn keys_of_one_provider_share_its_row() {
    let (a, _) = fetch_model("openai/gpt-5.6").unwrap();
    let registry = load(SPECS_YAML).unwrap();
    for key in registry.model_keys() {
        let (provider, model) = fetch_model(&key).unwrap();
        let first = key.split_once('/').unwrap().0;
        assert_eq!(provider.name(), first);
        assert_eq!(model.provider(), first);
        if first == "openai" {
            assert_eq!(provider.base_url(), a.base_url());
            assert_eq!(provider.env_api_key(), a.env_api_key());
        }
    }
}
