//! The shipped roster: every provider warpllm serves, and every model name
//! routable under each. Kept in ascending byte order at both levels, and held
//! to the lint by the test suite.

use vstd::prelude::*;

verus! {

/// The roster document compiled into the library.
pub const SPECS_YAML: &'static str = "providers:
  deepseek:
    base_url: https://api.deepseek.com
    env_api_key: DEEPSEEK_API_KEY
    protocol: openai_compat
    supported_apis:
      - chat_completions
      - chat_completions_stream
    models:
      deepseek/deepseek-v4-flash:
        capabilities:
          max_concurrent_requests: 2500
      deepseek/deepseek-v4-pro:
        capabilities:
          max_concurrent_requests: 500
  openai:
    base_url: https://api.openai.com/v1
    env_api_key: OPENAI_API_KEY
    protocol: openai_compat
    supported_apis:
      - chat_completions
      - chat_completions_stream
      - responses
    models:
      openai/gpt-5.6: {}
      openai/gpt-5.6-luna: {}
      openai/gpt-5.6-sol: {}
      openai/gpt-5.6-terra: {}
";

} // verus!
