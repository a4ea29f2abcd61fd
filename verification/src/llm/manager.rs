//! The keys of the providers, and the models that are in rate limit cooldown.
use crate::config::{clone_opt, LlmConfig};
use crate::text;
use crate::text::{split_once, str_eq};
use crate::text_map::TextMap;
use vstd::prelude::*;

verus! {

/// Why there is no key.
pub enum LlmError {
    MissingProviderKey(String),
    UnknownProvider(String),
}

/// Manages provider keys and tracks rate limit state. Points in time are given in
/// nanoseconds of a clock that only runs forward.
pub struct LlmManager {
    config: LlmConfig,
    rate_limited: TextMap<u64>,
}

/// The key of a provider in a configuration: none where the provider is not known.
pub open spec fn configured_key(config: LlmConfig, provider: Seq<char>) -> Option<Option<String>> {
    if provider == "anthropic"@ {
        Some(config.anthropic_key)
    } else if provider == "openai"@ {
        Some(config.openai_key)
    } else if provider == "openrouter"@ {
        Some(config.openrouter_key)
    } else if provider == "zhipu"@ {
        Some(config.zhipu_key)
    } else if provider == "groq"@ {
        Some(config.groq_key)
    } else if provider == "together"@ {
        Some(config.together_key)
    } else if provider == "fireworks"@ {
        Some(config.fireworks_key)
    } else if provider == "deepseek"@ {
        Some(config.deepseek_key)
    } else if provider == "xai"@ {
        Some(config.xai_key)
    } else if provider == "mistral"@ {
        Some(config.mistral_key)
    } else if provider == "opencode-zen"@ {
        Some(config.opencode_zen_key)
    } else {
        None
    }
}

/// The provider and the model that a name stands for.
pub open spec fn model_parts(name: Seq<char>) -> (Seq<char>, Seq<char>) {
    match text::cut_at(name, '/') {
        Some((provider, model)) => (provider, model),
        None => ("anthropic"@, name),
    }
}

/// Nanoseconds of a second.
pub const SECOND_NANOS: u64 = 1_000_000_000;

/// The full seconds between two points in time, none where the first lies ahead.
pub open spec fn seconds_since(now: u64, at: u64) -> u64 {
    if at < now {
        ((now - at) as u64) / SECOND_NANOS
    } else {
        0
    }
}

/// The full seconds between two points in time.
fn elapsed_secs(now: u64, at: u64) -> (r: u64)
    ensures
        r == seconds_since(now, at),
{
    if at < now {
        (now - at) / SECOND_NANOS
    } else {
        0
    }
}

impl LlmManager {
    /// The configuration that it was made with.
    pub closed spec fn config(&self) -> LlmConfig {
        self.config
    }

    /// The points in time at which models were limited.
    pub closed spec fn limits(&self) -> Map<Seq<char>, u64> {
        self.rate_limited@
    }

    /// A model is in cooldown at a point in time.
    pub open spec fn limited(&self, model: Seq<char>, cooldown_secs: u64, now: u64) -> bool {
        self.limits().contains_key(model) && seconds_since(now, self.limits()[model])
            < cooldown_secs
    }

    /// No model has two entries.
    pub closed spec fn wf(&self) -> bool {
        self.rate_limited.wf()
    }

    /// Create a new LLM manager with the given configuration.
    pub fn new(config: LlmConfig) -> (r: Self)
        ensures
            r.wf(),
            r.config() == config,
            r.limits() == Map::<Seq<char>, u64>::empty(),
    {
        LlmManager { config, rate_limited: TextMap::new() }
    }

    /// Get the appropriate API key for a provider.
    pub fn get_api_key(&self, provider: &str) -> (r: Result<String, LlmError>)
        ensures
            match configured_key(self.config(), provider@) {
                Some(Some(key)) => r == Ok::<_, LlmError>(key),
                Some(None) => r matches Err(LlmError::MissingProviderKey(p)) && p@ == provider@,
                None => r matches Err(LlmError::UnknownProvider(p)) && p@ == provider@,
            },
    {
        let c = &self.config;
        let key = if str_eq(provider, "anthropic") {
            &c.anthropic_key
        } else if str_eq(provider, "openai") {
            &c.openai_key
        } else if str_eq(provider, "openrouter") {
            &c.openrouter_key
        } else if str_eq(provider, "zhipu") {
            &c.zhipu_key
        } else if str_eq(provider, "groq") {
            &c.groq_key
        } else if str_eq(provider, "together") {
            &c.together_key
        } else if str_eq(provider, "fireworks") {
            &c.fireworks_key
        } else if str_eq(provider, "deepseek") {
            &c.deepseek_key
        } else if str_eq(provider, "xai") {
            &c.xai_key
        } else if str_eq(provider, "mistral") {
            &c.mistral_key
        } else if str_eq(provider, "opencode-zen") {
            &c.opencode_zen_key
        } else {
            return Err(LlmError::UnknownProvider(provider.to_owned()));
        };
        match clone_opt(key) {
            Some(k) => Ok(k),
            None => Err(LlmError::MissingProviderKey(provider.to_owned())),
        }
    }

    /// Resolve a model name to provider and model components.
    /// Format: "provider/model-name" or just "model-name" (defaults to anthropic).
    pub fn resolve_model(&self, model_name: &str) -> (r: (String, String))
        ensures
            (r.0@, r.1@) == model_parts(model_name@),
    {
        match split_once(model_name, '/') {
            Some(p) => p,
            None => ("anthropic".to_owned(), model_name.to_owned()),
        }
    }

    /// Record that a model hit a rate limit.
    pub fn record_rate_limit(&mut self, model_name: &str, now: u64)
        requires
            old(self).wf(),
        ensures
            final(self).wf(),
            final(self).config() == old(self).config(),
            final(self).limits() == old(self).limits().insert(model_name@, now),
    {
        self.rate_limited.insert(model_name.to_owned(), now);
    }

    /// Check if a model is currently in rate limit cooldown.
    pub fn is_rate_limited(&self, model_name: &str, cooldown_secs: u64, now: u64) -> (r: bool)
        ensures
            r == self.limited(model_name@, cooldown_secs, now),
    {
        match self.rate_limited.get(model_name) {
            Some(at) => elapsed_secs(now, *at) < cooldown_secs,
            None => false,
        }
    }

    /// Clean up expired rate limit entries.
    pub fn cleanup_rate_limits(&mut self, cooldown_secs: u64, now: u64)
        requires
            old(self).wf(),
        ensures
            final(self).wf(),
            final(self).config() == old(self).config(),
            forall|model: Seq<char>| #[trigger]
                final(self).limits().contains_key(model) == old(self).limited(
                    model,
                    cooldown_secs,
                    now,
                ),
            forall|model: Seq<char>|
                final(self).limits().contains_key(model) ==> #[trigger] final(self).limits()[model]
                    == old(self).limits()[model],
    {
        let ghost before = self.rate_limited@;
        let ghost keys = self.rate_limited.keys();
        let mut kept: TextMap<u64> = TextMap::new();
        let n: usize = self.rate_limited.len();
        let mut i: usize = 0;
        while i < n
            invariant
                n == keys.len(),
                i <= n,
                self.wf(),
                self.config == old(self).config,
                self.rate_limited@ == before,
                keys == self.rate_limited.keys(),
                kept.wf(),
                forall|model: Seq<char>| #[trigger]
                    kept@.contains_key(model) <==> keys.take(i as int).contains(model)
                        && before.contains_key(model) && seconds_since(now, before[model])
                        < cooldown_secs,
                forall|model: Seq<char>|
                    kept@.contains_key(model) ==> #[trigger] kept@[model] == before[model],
            decreases n - i,
        {
            let (model, at) = self.rate_limited.entry(i);
            let limited = elapsed_secs(now, *at) < cooldown_secs;
            let ghost old_kept = kept@;
            if limited {
                kept.insert(model.clone(), *at);
            }
            proof {
                let a = keys.take(i as int);
                let b = keys.take(i + 1);
                assert(b =~= a.push(keys[i as int]));
                assert forall|m: Seq<char>| b.contains(m) == (a.contains(m) || m == keys[i as int]) by {
                    if a.contains(m) {
                        let k = choose|k: int| 0 <= k < a.len() && a[k] == m;
                        assert(b[k] == m);
                    }
                    if m == keys[i as int] {
                        assert(b[i as int] == m);
                    }
                    if b.contains(m) {
                        let k = choose|k: int| 0 <= k < b.len() && b[k] == m;
                        if k < i {
                            assert(a[k] == m);
                        }
                    }
                }
                assert forall|m: Seq<char>| #[trigger]
                    kept@.contains_key(m) <==> b.contains(m) && before.contains_key(m)
                        && seconds_since(now, before[m]) < cooldown_secs by {
                    assert(old_kept.contains_key(m) <==> a.contains(m) && before.contains_key(m)
                        && seconds_since(now, before[m]) < cooldown_secs);
                }
            }
            i = i + 1;
        }
        proof {
            assert(keys.take(n as int) =~= keys);
            assert forall|model: Seq<char>| #[trigger]
                kept@.contains_key(model) == old(self).limited(model, cooldown_secs, now) by {
                old(self).rate_limited.lemma_keys(model);
            }
        }
        self.rate_limited = kept;
    }
}

/// A model that was limited is in cooldown until the cooldown is over.
pub proof fn law_cooldown_ends(
    before: LlmManager,
    after: LlmManager,
    model: Seq<char>,
    at: u64,
    now: u64,
    cooldown_secs: u64,
)
    requires
        after.limits() == before.limits().insert(model, at),
        at <= now,
    ensures
        after.limited(model, cooldown_secs, now) == ((now - at) / (SECOND_NANOS as int)
            < cooldown_secs),
{
}

/// Cleaning up changes nothing about which models are in cooldown.
pub proof fn law_cleanup_keeps_cooldowns(
    before: LlmManager,
    after: LlmManager,
    model: Seq<char>,
    cooldown_secs: u64,
    now: u64,
)
    requires
        after.limits().contains_key(model) == before.limited(model, cooldown_secs, now),
        after.limits().contains_key(model) ==> after.limits()[model] == before.limits()[model],
    ensures
        after.limited(model, cooldown_secs, now) == before.limited(model, cooldown_secs, now),
{
}

/// A model that was limited is in cooldown for as many seconds as the cooldown lasts, and
/// no longer; another model is not on that account.
pub proof fn law_cooldown_lasts_its_seconds(
    before: LlmManager,
    after: LlmManager,
    model: Seq<char>,
    other: Seq<char>,
    at: u64,
    now: u64,
    cooldown_secs: u64,
)
    requires
        after.limits() == before.limits().insert(model, at),
        at <= now,
        other != model,
    ensures
        now - at < cooldown_secs * 1_000_000_000 ==> after.limited(model, cooldown_secs, now),
        now - at >= cooldown_secs * 1_000_000_000 ==> !after.limited(model, cooldown_secs, now),
        after.limited(other, cooldown_secs, now) == before.limited(other, cooldown_secs, now),
{
    let s = (now - at) / 1_000_000_000;
    assert(s * 1_000_000_000 <= now - at < (s + 1) * 1_000_000_000);
    if now - at < cooldown_secs * 1_000_000_000 {
        assert(s < cooldown_secs) by (nonlinear_arith)
            requires
                s * 1_000_000_000 <= now - at,
                now - at < cooldown_secs * 1_000_000_000,
        ;
    }
}

/// A name with a slash belongs to the provider before it; a name without one belongs to
/// Anthropic.
pub proof fn law_model_name_tells_its_provider(provider: Seq<char>, model: Seq<char>)
    requires
        !provider.contains('/'),
    ensures
        model_parts(provider + "/"@ + model) == (provider, model),
        !model.contains('/') ==> model_parts(model) == ("anthropic"@, model),
{
    reveal_strlit("/");
    let n = provider.len() as int;
    let full = provider + "/"@ + model;
    assert("/"@ =~= seq!['/']);
    assert forall|i: int| 0 <= i < n implies full[i] != '/' by {
        assert(full[i] == provider[i]);
    }
    text::lemma_index_of_char_unique(full, '/', n);
    assert(full.take(n) =~= provider);
    assert(full.skip(n + 1) =~= model);
    text::lemma_index_of_char(model, '/');
}

/// The names of the providers differ.
proof fn lemma_provider_names()
    ensures
        "anthropic"@ != "openai"@,
        "anthropic"@ != "openrouter"@,
        "anthropic"@ != "zhipu"@,
        "anthropic"@ != "groq"@,
        "anthropic"@ != "together"@,
        "anthropic"@ != "fireworks"@,
        "anthropic"@ != "deepseek"@,
        "anthropic"@ != "xai"@,
        "anthropic"@ != "mistral"@,
        "anthropic"@ != "opencode-zen"@,
        "openai"@ != "openrouter"@,
        "openai"@ != "zhipu"@,
        "openai"@ != "groq"@,
        "openai"@ != "together"@,
        "openai"@ != "fireworks"@,
        "openai"@ != "deepseek"@,
        "openai"@ != "xai"@,
        "openai"@ != "mistral"@,
        "openai"@ != "opencode-zen"@,
        "openrouter"@ != "zhipu"@,
        "openrouter"@ != "groq"@,
        "openrouter"@ != "together"@,
        "openrouter"@ != "fireworks"@,
        "openrouter"@ != "deepseek"@,
        "openrouter"@ != "xai"@,
        "openrouter"@ != "mistral"@,
        "openrouter"@ != "opencode-zen"@,
        "zhipu"@ != "groq"@,
        "zhipu"@ != "together"@,
        "zhipu"@ != "fireworks"@,
        "zhipu"@ != "deepseek"@,
        "zhipu"@ != "xai"@,
        "zhipu"@ != "mistral"@,
        "zhipu"@ != "opencode-zen"@,
        "groq"@ != "together"@,
        "groq"@ != "fireworks"@,
        "groq"@ != "deepseek"@,
        "groq"@ != "xai"@,
        "groq"@ != "mistral"@,
        "groq"@ != "opencode-zen"@,
        "together"@ != "fireworks"@,
        "together"@ != "deepseek"@,
        "together"@ != "xai"@,
        "together"@ != "mistral"@,
        "together"@ != "opencode-zen"@,
        "fireworks"@ != "deepseek"@,
        "fireworks"@ != "xai"@,
        "fireworks"@ != "mistral"@,
        "fireworks"@ != "opencode-zen"@,
        "deepseek"@ != "xai"@,
        "deepseek"@ != "mistral"@,
        "deepseek"@ != "opencode-zen"@,
        "xai"@ != "mistral"@,
        "xai"@ != "opencode-zen"@,
        "mistral"@ != "opencode-zen"@,
{
    reveal_strlit("anthropic");
    reveal_strlit("openai");
    reveal_strlit("openrouter");
    reveal_strlit("zhipu");
    reveal_strlit("groq");
    reveal_strlit("together");
    reveal_strlit("fireworks");
    reveal_strlit("deepseek");
    reveal_strlit("xai");
    reveal_strlit("mistral");
    reveal_strlit("opencode-zen");
    assert("anthropic"@[0] != "fireworks"@[0]);
    assert("together"@[0] != "deepseek"@[0]);
    assert("anthropic"@.len() == 9);
    assert("openai"@.len() == 6);
    assert("openrouter"@.len() == 10);
    assert("zhipu"@.len() == 5);
    assert("groq"@.len() == 4);
    assert("together"@.len() == 8);
    assert("fireworks"@.len() == 9);
    assert("deepseek"@.len() == 8);
    assert("xai"@.len() == 3);
    assert("mistral"@.len() == 7);
    assert("opencode-zen"@.len() == 12);
}

/// Every provider has its own key, and a name that is none has no key.
pub proof fn law_providers_have_their_own_keys(config: LlmConfig, name: Seq<char>)
    ensures
        configured_key(config, "anthropic"@) == Some(config.anthropic_key),
        configured_key(config, "openai"@) == Some(config.openai_key),
        configured_key(config, "openrouter"@) == Some(config.openrouter_key),
        configured_key(config, "zhipu"@) == Some(config.zhipu_key),
        configured_key(config, "groq"@) == Some(config.groq_key),
        configured_key(config, "together"@) == Some(config.together_key),
        configured_key(config, "fireworks"@) == Some(config.fireworks_key),
        configured_key(config, "deepseek"@) == Some(config.deepseek_key),
        configured_key(config, "xai"@) == Some(config.xai_key),
        configured_key(config, "mistral"@) == Some(config.mistral_key),
        configured_key(config, "opencode-zen"@) == Some(config.opencode_zen_key),
        configured_key(config, name) is Some ==> name == "anthropic"@ || name == "openai"@ || name == "openrouter"@ || name == "zhipu"@ || name == "groq"@ || name == "together"@ || name == "fireworks"@ || name == "deepseek"@ || name == "xai"@ || name == "mistral"@ || name == "opencode-zen"@,
{
    lemma_provider_names();
}

/// The seconds since a point in time are the full ones, and none where it is yet to come.
pub proof fn law_full_seconds_count(now: u64, at: u64)
    ensures
        at >= now ==> seconds_since(now, at) == 0,
        at < now ==> seconds_since(now, at) * 1_000_000_000 <= now - at < (seconds_since(now, at)
            + 1) * 1_000_000_000,
{
}

} // verus!
