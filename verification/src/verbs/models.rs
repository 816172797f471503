//! `glide models`: the configured language-model providers.

use vstd::prelude::*;

use crate::config::Config;
use crate::text::owned;

verus! {

/// One provider, its model, and whether it can run.
#[derive(Debug, Clone)]
pub struct ProviderInfo {
    pub id: String,
    pub model: String,
    pub api_key_env: String,
    pub key_present: bool,
    pub feature_compiled: bool,
}

/// The language-model setup.
#[derive(Debug, Clone)]
pub struct ModelsReport {
    pub enabled: bool,
    pub default_provider: String,
    pub providers: Vec<ProviderInfo>,
}

/// Reports the language-model setup. Whether the key's environment variable
/// is set, and whether the binary was built with the provider, are the
/// caller's to say: this crate can see neither.
pub fn models(cfg: &Config, anthropic_compiled: bool, key_present: bool) -> (r: ModelsReport)
    ensures
        r.enabled == cfg.llm.enabled,
        r.default_provider == cfg.llm.default_provider,
        r.providers@.len() == 1,
        r.providers@[0].id@ == "anthropic"@,
        r.providers@[0].model == cfg.llm.anthropic.model,
        r.providers@[0].api_key_env == cfg.llm.anthropic.api_key_env,
        r.providers@[0].key_present == key_present,
        r.providers@[0].feature_compiled == anthropic_compiled,
{
    let mut providers: Vec<ProviderInfo> = Vec::new();
    providers.push(
        ProviderInfo {
            id: owned("anthropic"),
            model: cfg.llm.anthropic.model.clone(),
            api_key_env: cfg.llm.anthropic.api_key_env.clone(),
            key_present,
            feature_compiled: anthropic_compiled,
        },
    );
    ModelsReport { enabled: cfg.llm.enabled, default_provider: cfg.llm.default_provider.clone(), providers }
}

} // verus!
