//! The models that can be chosen: a curated list, and the ones that a provider
//! offers.
use crate::config::environment::EnvVars;
use crate::api::ApiError;
use crate::text::{cat2, cat3, slice_text, str_eq, to_chars};
use crate::toml_doc;
use crate::toml_doc::{find_section, item_str, parse_document};
use vstd::prelude::*;

verus! {

/// A model that can be chosen.
pub struct ModelInfo {
    /// Full routing string.
    pub id: String,
    /// Human-readable name.
    pub name: String,
    /// Provider ID.
    pub provider: String,
    /// Context window size in tokens, if known.
    pub context_window: Option<u64>,
    /// Whether this is a recommended model.
    pub curated: bool,
}

/// What a [`ModelInfo`] says.
pub struct ModelView {
    pub id: Seq<char>,
    pub name: Seq<char>,
    pub provider: Seq<char>,
    pub context_window: Option<u64>,
    pub curated: bool,
}

impl View for ModelInfo {
    type V = ModelView;

    open spec fn view(&self) -> ModelView {
        ModelView {
            id: self.id@,
            name: self.name@,
            provider: self.provider@,
            context_window: self.context_window,
            curated: self.curated,
        }
    }
}

impl Clone for ModelInfo {
    fn clone(&self) -> (r: Self)
        ensures
            r@ == self@,
    {
        ModelInfo {
            id: self.id.clone(),
            name: self.name.clone(),
            provider: self.provider.clone(),
            context_window: self.context_window,
            curated: self.curated,
        }
    }
}

/// What a list of models says.
pub open spec fn models_view(v: Seq<ModelInfo>) -> Seq<ModelView> {
    Seq::new(v.len(), |i: int| v[i]@)
}

/// A recommended model.
pub open spec fn recommended(
    id: Seq<char>,
    name: Seq<char>,
    provider: Seq<char>,
    context_window: Option<u64>,
) -> ModelView {
    ModelView { id, name, provider, context_window, curated: true }
}

/// Appends a recommended model.
fn push_model(
    v: &mut Vec<ModelInfo>,
    id: &str,
    name: &str,
    provider: &str,
    context_window: Option<u64>,
)
    ensures
        models_view(final(v)@) == models_view(old(v)@).push(
            recommended(id@, name@, provider@, context_window),
        ),
{
    v.push(
        ModelInfo {
            id: id.to_owned(),
            name: name.to_owned(),
            provider: provider.to_owned(),
            context_window,
            curated: true,
        },
    );
    assert(models_view(v@) =~= models_view(old(v)@).push(
        recommended(id@, name@, provider@, context_window),
    ));
}

/// A name with its first letter as a capital.
pub open spec fn capitalized(s: Seq<char>) -> Seq<char> {
    if s.len() > 0 && 'a' <= s[0] <= 'z' {
        s.update(0, (s[0] as u32 - 32) as char)
    } else {
        s
    }
}

/// Writes a name with its first letter as a capital.
fn capitalized_text(s: &str) -> (r: String)
    ensures
        r@ == capitalized(s@),
{
    let v = to_chars(s);
    if v.len() > 0 && 'a' <= v[0] && v[0] <= 'z' {
        let mut out = String::new();
        out.push((v[0] as u8 - 32) as char);
        out.append(slice_text(&v, 1, v.len()).as_str());
        assert(out@ =~= capitalized(s@));
        out
    } else {
        s.to_owned()
    }
}

/// A recommended model of Anthropic's family, of which all have the same context
/// window.
pub open spec fn family_model(
    prefix: Seq<char>,
    family: Seq<char>,
    version: Seq<char>,
    title: Seq<char>,
    provider: Seq<char>,
) -> ModelView {
    recommended(prefix + family + version, capitalized(family) + title, provider, Some(200_000u64))
}

/// Appends a recommended model of Anthropic's family.
fn push_family_model(
    v: &mut Vec<ModelInfo>,
    prefix: &str,
    family: &str,
    version: &str,
    title: &str,
    provider: &str,
)
    ensures
        models_view(final(v)@) == models_view(old(v)@).push(
            family_model(prefix@, family@, version@, title@, provider@),
        ),
{
    let id = cat3(prefix, family, version);
    let name = cat2(capitalized_text(family).as_str(), title);
    push_model(v, id.as_str(), name.as_str(), provider, Some(200_000));
}

/// The recommended models of Anthropic.
pub open spec fn anthropic_models(family: Seq<char>) -> Seq<ModelView> {
    seq![
        family_model("anthropic/"@, family, "-sonnet-4-20250514"@, " Sonnet 4"@, "anthropic"@),
        family_model("anthropic/"@, family, "-haiku-4.5-20250514"@, " Haiku 4.5"@, "anthropic"@),
        family_model("anthropic/"@, family, "-opus-4-20250514"@, " Opus 4"@, "anthropic"@),
    ]
}

/// Appends the recommended models of Anthropic.
fn push_anthropic(v: &mut Vec<ModelInfo>, family: &str)
    ensures
        models_view(final(v)@) == models_view(old(v)@) + anthropic_models(family@),
{
    push_family_model(v, "anthropic/", family, "-sonnet-4-20250514", " Sonnet 4", "anthropic");
    push_family_model(v, "anthropic/", family, "-haiku-4.5-20250514", " Haiku 4.5", "anthropic");
    push_family_model(v, "anthropic/", family, "-opus-4-20250514", " Opus 4", "anthropic");
    assert(models_view(v@) =~= models_view(old(v)@) + anthropic_models(family@));
}

/// The recommended models of OpenRouter.
pub open spec fn openrouter_models(family: Seq<char>) -> Seq<ModelView> {
    seq![
        family_model("openrouter/anthropic/"@, family, "-sonnet-4-20250514"@, " Sonnet 4"@, "openrouter"@),
        family_model("openrouter/anthropic/"@, family, "-haiku-4.5-20250514"@, " Haiku 4.5"@, "openrouter"@),
        family_model("openrouter/anthropic/"@, family, "-opus-4-20250514"@, " Opus 4"@, "openrouter"@),
        recommended("openrouter/google/gemini-2.5-pro-preview"@, "Gemini 2.5 Pro"@, "openrouter"@, Some(1_048_576u64)),
        recommended("openrouter/google/gemini-2.5-flash-preview"@, "Gemini 2.5 Flash"@, "openrouter"@, Some(1_048_576u64)),
        recommended("openrouter/deepseek/deepseek-r1"@, "DeepSeek R1"@, "openrouter"@, Some(163_840u64)),
        recommended("openrouter/deepseek/deepseek-chat-v3-0324"@, "DeepSeek V3"@, "openrouter"@, Some(163_840u64)),
        recommended("openrouter/moonshotai/kimi-k2"@, "Kimi K2"@, "openrouter"@, Some(131_072u64)),
        recommended("openrouter/moonshotai/kimi-k2.5"@, "Kimi K2.5"@, "openrouter"@, Some(131_072u64)),
        recommended("openrouter/openai/gpt-4.1"@, "GPT-4.1"@, "openrouter"@, Some(1_047_576u64)),
        recommended("openrouter/openai/gpt-4.1-mini"@, "GPT-4.1 Mini"@, "openrouter"@, Some(1_047_576u64)),
        recommended("openrouter/x-ai/grok-3-mini"@, "Grok 3 Mini"@, "openrouter"@, Some(131_072u64)),
        recommended("openrouter/mistralai/mistral-medium-3"@, "Mistral Medium 3"@, "openrouter"@, Some(131_072u64)),
    ]
}

/// Appends the recommended models of OpenRouter.
fn push_openrouter(v: &mut Vec<ModelInfo>, family: &str)
    ensures
        models_view(final(v)@) == models_view(old(v)@) + openrouter_models(family@),
{
    push_family_model(v, "openrouter/anthropic/", family, "-sonnet-4-20250514", " Sonnet 4", "openrouter");
    push_family_model(v, "openrouter/anthropic/", family, "-haiku-4.5-20250514", " Haiku 4.5", "openrouter");
    push_family_model(v, "openrouter/anthropic/", family, "-opus-4-20250514", " Opus 4", "openrouter");
    push_model(v, "openrouter/google/gemini-2.5-pro-preview", "Gemini 2.5 Pro", "openrouter", Some(1_048_576));
    push_model(v, "openrouter/google/gemini-2.5-flash-preview", "Gemini 2.5 Flash", "openrouter", Some(1_048_576));
    push_model(v, "openrouter/deepseek/deepseek-r1", "DeepSeek R1", "openrouter", Some(163_840));
    push_model(v, "openrouter/deepseek/deepseek-chat-v3-0324", "DeepSeek V3", "openrouter", Some(163_840));
    push_model(v, "openrouter/moonshotai/kimi-k2", "Kimi K2", "openrouter", Some(131_072));
    push_model(v, "openrouter/moonshotai/kimi-k2.5", "Kimi K2.5", "openrouter", Some(131_072));
    push_model(v, "openrouter/openai/gpt-4.1", "GPT-4.1", "openrouter", Some(1_047_576));
    push_model(v, "openrouter/openai/gpt-4.1-mini", "GPT-4.1 Mini", "openrouter", Some(1_047_576));
    push_model(v, "openrouter/x-ai/grok-3-mini", "Grok 3 Mini", "openrouter", Some(131_072));
    push_model(v, "openrouter/mistralai/mistral-medium-3", "Mistral Medium 3", "openrouter", Some(131_072));
    assert(models_view(v@) =~= models_view(old(v)@) + openrouter_models(family@));
}

/// The recommended models of OpenAI.
pub open spec fn openai_models() -> Seq<ModelView> {
    seq![
        recommended("openai/gpt-4.1"@, "GPT-4.1"@, "openai"@, Some(1_047_576u64)),
        recommended("openai/gpt-4.1-mini"@, "GPT-4.1 Mini"@, "openai"@, Some(1_047_576u64)),
        recommended("openai/gpt-4.1-nano"@, "GPT-4.1 Nano"@, "openai"@, Some(1_047_576u64)),
        recommended("openai/o3"@, "o3"@, "openai"@, Some(200_000u64)),
        recommended("openai/o3-mini"@, "o3 Mini"@, "openai"@, Some(200_000u64)),
        recommended("openai/o4-mini"@, "o4 Mini"@, "openai"@, Some(200_000u64)),
    ]
}

/// Appends the recommended models of OpenAI.
fn push_openai(v: &mut Vec<ModelInfo>)
    ensures
        models_view(final(v)@) == models_view(old(v)@) + openai_models(),
{
    push_model(v, "openai/gpt-4.1", "GPT-4.1", "openai", Some(1_047_576));
    push_model(v, "openai/gpt-4.1-mini", "GPT-4.1 Mini", "openai", Some(1_047_576));
    push_model(v, "openai/gpt-4.1-nano", "GPT-4.1 Nano", "openai", Some(1_047_576));
    push_model(v, "openai/o3", "o3", "openai", Some(200_000));
    push_model(v, "openai/o3-mini", "o3 Mini", "openai", Some(200_000));
    push_model(v, "openai/o4-mini", "o4 Mini", "openai", Some(200_000));
    assert(models_view(v@) =~= models_view(old(v)@) + openai_models());
}

/// The recommended models of Z.ai.
pub open spec fn zhipu_models() -> Seq<ModelView> {
    seq![
        recommended("zhipu/glm-4-plus"@, "GLM-4 Plus"@, "zhipu"@, Some(128_000u64)),
        recommended("zhipu/glm-4-flash"@, "GLM-4 Flash"@, "zhipu"@, Some(128_000u64)),
        recommended("zhipu/glm-4-flashx"@, "GLM-4 FlashX"@, "zhipu"@, Some(128_000u64)),
    ]
}

/// Appends the recommended models of Z.ai.
fn push_zhipu(v: &mut Vec<ModelInfo>)
    ensures
        models_view(final(v)@) == models_view(old(v)@) + zhipu_models(),
{
    push_model(v, "zhipu/glm-4-plus", "GLM-4 Plus", "zhipu", Some(128_000));
    push_model(v, "zhipu/glm-4-flash", "GLM-4 Flash", "zhipu", Some(128_000));
    push_model(v, "zhipu/glm-4-flashx", "GLM-4 FlashX", "zhipu", Some(128_000));
    assert(models_view(v@) =~= models_view(old(v)@) + zhipu_models());
}

/// The recommended models of Groq.
pub open spec fn groq_models() -> Seq<ModelView> {
    seq![
        recommended("groq/llama-3.3-70b-versatile"@, "Llama 3.3 70B Versatile"@, "groq"@, Some(32_768u64)),
        recommended("groq/llama-3.3-70b-specdec"@, "Llama 3.3 70B Speculative Decoding"@, "groq"@, Some(8192u64)),
        recommended("groq/llama-3.1-70b-versatile"@, "Llama 3.1 70B Versatile"@, "groq"@, Some(131_072u64)),
        recommended("groq/mixtral-8x7b-32768"@, "Mixtral 8x7B"@, "groq"@, Some(32_768u64)),
        recommended("groq/gemma2-9b-it"@, "Gemma 2 9B"@, "groq"@, Some(8192u64)),
    ]
}

/// Appends the recommended models of Groq.
fn push_groq(v: &mut Vec<ModelInfo>)
    ensures
        models_view(final(v)@) == models_view(old(v)@) + groq_models(),
{
    push_model(v, "groq/llama-3.3-70b-versatile", "Llama 3.3 70B Versatile", "groq", Some(32_768));
    push_model(v, "groq/llama-3.3-70b-specdec", "Llama 3.3 70B Speculative Decoding", "groq", Some(8192));
    push_model(v, "groq/llama-3.1-70b-versatile", "Llama 3.1 70B Versatile", "groq", Some(131_072));
    push_model(v, "groq/mixtral-8x7b-32768", "Mixtral 8x7B", "groq", Some(32_768));
    push_model(v, "groq/gemma2-9b-it", "Gemma 2 9B", "groq", Some(8192));
    assert(models_view(v@) =~= models_view(old(v)@) + groq_models());
}

/// The recommended models of Together AI.
pub open spec fn together_models() -> Seq<ModelView> {
    seq![
        recommended("together/meta-llama/Meta-Llama-3.1-405B-Instruct-Turbo"@, "Llama 3.1 405B Instruct Turbo"@, "together"@, Some(130_815u64)),
        recommended("together/meta-llama/Meta-Llama-3.1-70B-Instruct-Turbo"@, "Llama 3.1 70B Instruct Turbo"@, "together"@, Some(131_072u64)),
        recommended("together/meta-llama/Meta-Llama-3.3-70B-Instruct-Turbo"@, "Llama 3.3 70B Instruct Turbo"@, "together"@, Some(131_072u64)),
        recommended("together/Qwen/Qwen2.5-72B-Instruct-Turbo"@, "Qwen 2.5 72B Instruct Turbo"@, "together"@, Some(32_768u64)),
        recommended("together/deepseek-ai/DeepSeek-V3"@, "DeepSeek V3"@, "together"@, Some(65_536u64)),
    ]
}

/// Appends the recommended models of Together AI.
fn push_together(v: &mut Vec<ModelInfo>)
    ensures
        models_view(final(v)@) == models_view(old(v)@) + together_models(),
{
    push_model(v, "together/meta-llama/Meta-Llama-3.1-405B-Instruct-Turbo", "Llama 3.1 405B Instruct Turbo", "together", Some(130_815));
    push_model(v, "together/meta-llama/Meta-Llama-3.1-70B-Instruct-Turbo", "Llama 3.1 70B Instruct Turbo", "together", Some(131_072));
    push_model(v, "together/meta-llama/Meta-Llama-3.3-70B-Instruct-Turbo", "Llama 3.3 70B Instruct Turbo", "together", Some(131_072));
    push_model(v, "together/Qwen/Qwen2.5-72B-Instruct-Turbo", "Qwen 2.5 72B Instruct Turbo", "together", Some(32_768));
    push_model(v, "together/deepseek-ai/DeepSeek-V3", "DeepSeek V3", "together", Some(65_536));
    assert(models_view(v@) =~= models_view(old(v)@) + together_models());
}

/// The recommended models of Fireworks AI.
pub open spec fn fireworks_models() -> Seq<ModelView> {
    seq![
        recommended("fireworks/accounts/fireworks/models/llama-v3p3-70b-instruct"@, "Llama 3.3 70B Instruct"@, "fireworks"@, Some(131_072u64)),
        recommended("fireworks/accounts/fireworks/models/llama-v3p1-405b-instruct"@, "Llama 3.1 405B Instruct"@, "fireworks"@, Some(131_072u64)),
        recommended("fireworks/accounts/fireworks/models/llama-v3p1-70b-instruct"@, "Llama 3.1 70B Instruct"@, "fireworks"@, Some(131_072u64)),
        recommended("fireworks/accounts/fireworks/models/llama-v3p1-8b-instruct"@, "Llama 3.1 8B Instruct"@, "fireworks"@, Some(131_072u64)),
        recommended("fireworks/accounts/fireworks/models/qwen2p5-72b-instruct"@, "Qwen 2.5 72B Instruct"@, "fireworks"@, Some(32_768u64)),
    ]
}

/// Appends the recommended models of Fireworks AI.
fn push_fireworks(v: &mut Vec<ModelInfo>)
    ensures
        models_view(final(v)@) == models_view(old(v)@) + fireworks_models(),
{
    push_model(v, "fireworks/accounts/fireworks/models/llama-v3p3-70b-instruct", "Llama 3.3 70B Instruct", "fireworks", Some(131_072));
    push_model(v, "fireworks/accounts/fireworks/models/llama-v3p1-405b-instruct", "Llama 3.1 405B Instruct", "fireworks", Some(131_072));
    push_model(v, "fireworks/accounts/fireworks/models/llama-v3p1-70b-instruct", "Llama 3.1 70B Instruct", "fireworks", Some(131_072));
    push_model(v, "fireworks/accounts/fireworks/models/llama-v3p1-8b-instruct", "Llama 3.1 8B Instruct", "fireworks", Some(131_072));
    push_model(v, "fireworks/accounts/fireworks/models/qwen2p5-72b-instruct", "Qwen 2.5 72B Instruct", "fireworks", Some(32_768));
    assert(models_view(v@) =~= models_view(old(v)@) + fireworks_models());
}

/// The recommended models of DeepSeek.
pub open spec fn deepseek_models() -> Seq<ModelView> {
    seq![
        recommended("deepseek/deepseek-chat"@, "DeepSeek Chat"@, "deepseek"@, Some(65_536u64)),
        recommended("deepseek/deepseek-reasoner"@, "DeepSeek Reasoner"@, "deepseek"@, Some(65_536u64)),
    ]
}

/// Appends the recommended models of DeepSeek.
fn push_deepseek(v: &mut Vec<ModelInfo>)
    ensures
        models_view(final(v)@) == models_view(old(v)@) + deepseek_models(),
{
    push_model(v, "deepseek/deepseek-chat", "DeepSeek Chat", "deepseek", Some(65_536));
    push_model(v, "deepseek/deepseek-reasoner", "DeepSeek Reasoner", "deepseek", Some(65_536));
    assert(models_view(v@) =~= models_view(old(v)@) + deepseek_models());
}

/// The recommended models of xAI.
pub open spec fn xai_models() -> Seq<ModelView> {
    seq![
        recommended("xai/grok-2-latest"@, "Grok 2"@, "xai"@, Some(131_072u64)),
        recommended("xai/grok-2-vision-latest"@, "Grok 2 Vision"@, "xai"@, Some(32_768u64)),
        recommended("xai/grok-beta"@, "Grok Beta"@, "xai"@, Some(131_072u64)),
    ]
}

/// Appends the recommended models of xAI.
fn push_xai(v: &mut Vec<ModelInfo>)
    ensures
        models_view(final(v)@) == models_view(old(v)@) + xai_models(),
{
    push_model(v, "xai/grok-2-latest", "Grok 2", "xai", Some(131_072));
    push_model(v, "xai/grok-2-vision-latest", "Grok 2 Vision", "xai", Some(32_768));
    push_model(v, "xai/grok-beta", "Grok Beta", "xai", Some(131_072));
    assert(models_view(v@) =~= models_view(old(v)@) + xai_models());
}

/// The recommended models of Mistral AI.
pub open spec fn mistral_models() -> Seq<ModelView> {
    seq![
        recommended("mistral/mistral-large-latest"@, "Mistral Large"@, "mistral"@, Some(128_000u64)),
        recommended("mistral/mistral-small-latest"@, "Mistral Small"@, "mistral"@, Some(128_000u64)),
        recommended("mistral/mistral-medium-latest"@, "Mistral Medium"@, "mistral"@, Some(128_000u64)),
        recommended("mistral/codestral-latest"@, "Codestral"@, "mistral"@, Some(32_000u64)),
        recommended("mistral/pixtral-large-latest"@, "Pixtral Large"@, "mistral"@, Some(128_000u64)),
    ]
}

/// Appends the recommended models of Mistral AI.
fn push_mistral(v: &mut Vec<ModelInfo>)
    ensures
        models_view(final(v)@) == models_view(old(v)@) + mistral_models(),
{
    push_model(v, "mistral/mistral-large-latest", "Mistral Large", "mistral", Some(128_000));
    push_model(v, "mistral/mistral-small-latest", "Mistral Small", "mistral", Some(128_000));
    push_model(v, "mistral/mistral-medium-latest", "Mistral Medium", "mistral", Some(128_000));
    push_model(v, "mistral/codestral-latest", "Codestral", "mistral", Some(32_000));
    push_model(v, "mistral/pixtral-large-latest", "Pixtral Large", "mistral", Some(128_000));
    assert(models_view(v@) =~= models_view(old(v)@) + mistral_models());
}

/// The recommended models of OpenCode Zen.
pub open spec fn opencode_zen_models() -> Seq<ModelView> {
    seq![
        recommended("opencode-zen/kimi-k2.5"@, "Kimi K2.5"@, "opencode-zen"@, None::<u64>),
        recommended("opencode-zen/kimi-k2"@, "Kimi K2"@, "opencode-zen"@, None::<u64>),
        recommended("opencode-zen/kimi-k2-thinking"@, "Kimi K2 Thinking"@, "opencode-zen"@, None::<u64>),
        recommended("opencode-zen/glm-5"@, "GLM 5"@, "opencode-zen"@, None::<u64>),
        recommended("opencode-zen/minimax-m2.5"@, "MiniMax M2.5"@, "opencode-zen"@, None::<u64>),
        recommended("opencode-zen/qwen3-coder"@, "Qwen3 Coder 480B"@, "opencode-zen"@, None::<u64>),
        recommended("opencode-zen/big-pickle"@, "Big Pickle"@, "opencode-zen"@, None::<u64>),
    ]
}

/// Appends the recommended models of OpenCode Zen.
fn push_opencode_zen(v: &mut Vec<ModelInfo>)
    ensures
        models_view(final(v)@) == models_view(old(v)@) + opencode_zen_models(),
{
    push_model(v, "opencode-zen/kimi-k2.5", "Kimi K2.5", "opencode-zen", None);
    push_model(v, "opencode-zen/kimi-k2", "Kimi K2", "opencode-zen", None);
    push_model(v, "opencode-zen/kimi-k2-thinking", "Kimi K2 Thinking", "opencode-zen", None);
    push_model(v, "opencode-zen/glm-5", "GLM 5", "opencode-zen", None);
    push_model(v, "opencode-zen/minimax-m2.5", "MiniMax M2.5", "opencode-zen", None);
    push_model(v, "opencode-zen/qwen3-coder", "Qwen3 Coder 480B", "opencode-zen", None);
    push_model(v, "opencode-zen/big-pickle", "Big Pickle", "opencode-zen", None);
    assert(models_view(v@) =~= models_view(old(v)@) + opencode_zen_models());
}

/// The recommended models, provider by provider. `family` is the name of Anthropic's
/// family of models, as it stands in their ids.
pub open spec fn curated_table(family: Seq<char>) -> Seq<ModelView> {
    anthropic_models(family) + openrouter_models(family) + openai_models() + zhipu_models() + groq_models()
        + together_models() + fireworks_models() + deepseek_models() + xai_models()
        + mistral_models() + opencode_zen_models()
}

/// Static curated model list: the "known good" models that are recommended. `family`
/// is the name of Anthropic's family of models, as it stands in their ids.
pub fn curated_models(family: &str) -> (r: Vec<ModelInfo>)
    ensures
        models_view(r@) == curated_table(family@),
{
    let mut v: Vec<ModelInfo> = Vec::new();
    push_anthropic(&mut v, family);
    assert(models_view(v@) =~= anthropic_models(family@));
    push_openrouter(&mut v, family);
    push_openai(&mut v);
    push_zhipu(&mut v);
    push_groq(&mut v);
    push_together(&mut v);
    push_fireworks(&mut v);
    push_deepseek(&mut v);
    push_xai(&mut v);
    push_mistral(&mut v);
    push_opencode_zen(&mut v);
    v
}

/// Its provider is among the configured ones.
pub open spec fn is_offered(m: ModelView, configured: Seq<Seq<char>>) -> bool {
    configured.contains(m.provider)
}

/// The models of the configured providers.
pub open spec fn offered(models: Seq<ModelView>, configured: Seq<Seq<char>>) -> Seq<ModelView>
    decreases models.len(),
{
    if models.len() == 0 {
        Seq::empty()
    } else {
        let rest = offered(models.drop_last(), configured);
        if is_offered(models.last(), configured) {
            rest.push(models.last())
        } else {
            rest
        }
    }
}

/// A model with an id is in a list.
pub open spec fn lists(models: Seq<ModelView>, id: Seq<char>) -> bool {
    exists|i: int| 0 <= i < models.len() && (#[trigger] models[i]).id == id
}

/// A list with the models of another that the configured providers offer and that
/// it does not list yet.
pub open spec fn merged(
    models: Seq<ModelView>,
    more: Seq<ModelView>,
    configured: Seq<Seq<char>>,
) -> Seq<ModelView>
    decreases more.len(),
{
    if more.len() == 0 {
        models
    } else {
        let rest = merged(models, more.drop_last(), configured);
        if is_offered(more.last(), configured) && !lists(rest, more.last().id) {
            rest.push(more.last())
        } else {
            rest
        }
    }
}

/// The names of providers.
pub open spec fn names_view(v: Seq<&'static str>) -> Seq<Seq<char>> {
    v.map_values(|s: &'static str| s@)
}

/// Whether a provider is among the configured ones.
fn is_configured(provider: &String, configured: &Vec<&'static str>) -> (r: bool)
    ensures
        r == names_view(configured@).contains(provider@),
{
    let n: usize = configured.len();
    let mut i: usize = 0;
    while i < n
        invariant
            n == configured@.len(),
            i <= n,
            forall|j: int| 0 <= j < i ==> names_view(configured@)[j] != provider@,
        decreases n - i,
    {
        assert(names_view(configured@)[i as int] == configured@[i as int]@);
        if str_eq(configured[i], provider.as_str()) {
            return true;
        }
        i = i + 1;
    }
    false
}

/// Whether a model with an id is in a list.
fn is_listed(models: &Vec<ModelInfo>, id: &String) -> (r: bool)
    ensures
        r == lists(models_view(models@), id@),
{
    let n: usize = models.len();
    let mut i: usize = 0;
    while i < n
        invariant
            n == models@.len(),
            i <= n,
            forall|j: int| 0 <= j < i ==> (#[trigger] models_view(models@)[j]).id != id@,
        decreases n - i,
    {
        assert(models_view(models@)[i as int].id == models@[i as int].id@);
        if str_eq(models[i].id.as_str(), id.as_str()) {
            return true;
        }
        i = i + 1;
    }
    false
}

/// The models of the configured providers.
fn offered_models(models: &Vec<ModelInfo>, configured: &Vec<&'static str>) -> (r: Vec<ModelInfo>)
    ensures
        models_view(r@) == offered(models_view(models@), names_view(configured@)),
{
    let ghost all = models_view(models@);
    let mut out: Vec<ModelInfo> = Vec::new();
    let n: usize = models.len();
    let mut i: usize = 0;
    assert(models_view(out@) =~= Seq::<ModelView>::empty());
    while i < n
        invariant
            n == models@.len(),
            i <= n,
            all == models_view(models@),
            models_view(out@) == offered(all.take(i as int), names_view(configured@)),
        decreases n - i,
    {
        proof {
            assert(all.take(i + 1).drop_last() =~= all.take(i as int));
            assert(all.take(i + 1).last() == models@[i as int]@);
        }
        if is_configured(&models[i].provider, configured) {
            let ghost before = out@;
            out.push(models[i].clone());
            assert(models_view(out@) =~= models_view(before).push(models@[i as int]@));
        }
        i = i + 1;
    }
    assert(all.take(n as int) =~= all);
    out
}

/// Adds the models of another list that the configured providers offer and that
/// are not listed yet.
fn merge_models(
    models: Vec<ModelInfo>,
    more: &Vec<ModelInfo>,
    configured: &Vec<&'static str>,
) -> (r: Vec<ModelInfo>)
    ensures
        models_view(r@) == merged(
            models_view(models@),
            models_view(more@),
            names_view(configured@),
        ),
{
    let ghost all = models_view(more@);
    let ghost first = models_view(models@);
    let mut out = models;
    let n: usize = more.len();
    let mut i: usize = 0;
    while i < n
        invariant
            n == more@.len(),
            i <= n,
            all == models_view(more@),
            models_view(out@) == merged(first, all.take(i as int), names_view(configured@)),
        decreases n - i,
    {
        proof {
            assert(all.take(i + 1).drop_last() =~= all.take(i as int));
            assert(all.take(i + 1).last() == more@[i as int]@);
        }
        if is_configured(&more[i].provider, configured) && !is_listed(&out, &more[i].id) {
            let ghost before = out@;
            out.push(more[i].clone());
            assert(models_view(out@) =~= models_view(before).push(more@[i as int]@));
        }
        i = i + 1;
    }
    assert(all.take(n as int) =~= all);
    out
}

/// Seconds for which fetched models are offered.
pub const MODEL_CACHE_TTL_SECS: u64 = 3600;

/// The models to choose from: the recommended ones of the configured providers,
/// then the fetched ones while they are fresh.
pub fn get_models(
    family: &str,
    configured: &Vec<&'static str>,
    fetched: &Vec<ModelInfo>,
    age_secs: u64,
) -> (r: Vec<ModelInfo>)
    ensures
        models_view(r@) == (if age_secs < 3600 {
            merged(
                offered(curated_table(family@), names_view(configured@)),
                models_view(fetched@),
                names_view(configured@),
            )
        } else {
            offered(curated_table(family@), names_view(configured@))
        }),
{
    let curated = curated_models(family);
    let models = offered_models(&curated, configured);
    if fetched.len() > 0 && age_secs < MODEL_CACHE_TTL_SECS {
        merge_models(models, fetched, configured)
    } else {
        assert(fetched@.len() == 0 ==> models_view(fetched@).len() == 0);
        models
    }
}

/// Every offered model belongs to a configured provider.
proof fn lemma_offered(models: Seq<ModelView>, configured: Seq<Seq<char>>)
    ensures
        forall|i: int|
            0 <= i < offered(models, configured).len() ==> is_offered(
                #[trigger] offered(models, configured)[i],
                configured,
            ),
    decreases models.len(),
{
    if models.len() > 0 {
        lemma_offered(models.drop_last(), configured);
        let rest = offered(models.drop_last(), configured);
        assert forall|i: int| 0 <= i < offered(models, configured).len() implies is_offered(
            #[trigger] offered(models, configured)[i],
            configured,
        ) by {
            if i < rest.len() {
                assert(offered(models, configured)[i] == rest[i]);
            }
        }
    }
}

/// Every model to choose from belongs to a configured provider.
pub proof fn law_only_configured_providers(
    family: Seq<char>,
    more: Seq<ModelView>,
    configured: Seq<Seq<char>>,
    i: int,
)
    requires
        0 <= i < merged(offered(curated_table(family), configured), more, configured).len(),
    ensures
        is_offered(
            merged(offered(curated_table(family), configured), more, configured)[i],
            configured,
        ),
    decreases more.len(),
{
    lemma_offered(curated_table(family), configured);
    if more.len() > 0 {
        let rest = merged(offered(curated_table(family), configured), more.drop_last(), configured);
        if i < rest.len() {
            law_only_configured_providers(family, more.drop_last(), configured, i);
        }
    }
}

/// The recommended models come first, and are all kept.
pub proof fn law_recommended_come_first(
    models: Seq<ModelView>,
    more: Seq<ModelView>,
    configured: Seq<Seq<char>>,
)
    ensures
        models.is_prefix_of(merged(models, more, configured)),
    decreases more.len(),
{
    if more.len() > 0 {
        law_recommended_come_first(models, more.drop_last(), configured);
    }
}

/// A fetched model is not offered under an id that is listed before it.
pub proof fn law_no_id_is_repeated(
    models: Seq<ModelView>,
    more: Seq<ModelView>,
    configured: Seq<Seq<char>>,
    i: int,
    j: int,
)
    requires
        0 <= i < j < merged(models, more, configured).len(),
        j >= models.len(),
    ensures
        merged(models, more, configured)[i].id != merged(models, more, configured)[j].id,
    decreases more.len(),
{
    if more.len() > 0 {
        let rest = merged(models, more.drop_last(), configured);
        law_recommended_come_first(models, more.drop_last(), configured);
        if j < rest.len() {
            law_no_id_is_repeated(models, more.drop_last(), configured, i, j);
        } else {
            assert(rest[i] == merged(models, more, configured)[i]);
        }
    }
}

/// A recommended model is filed under its provider: its id begins with the provider
/// and a slash. Its context window is unknown exactly at OpenCode Zen.
pub open spec fn is_filed(m: ModelView) -> bool {
    &&& m.curated
    &&& !m.provider.contains('/')
    &&& (m.provider + "/"@).is_prefix_of(m.id)
    &&& m.context_window is None <==> m.provider == "opencode-zen"@
}

/// The models are filed under their providers, and no two have the same id.
pub open spec fn is_catalogue(models: Seq<ModelView>) -> bool {
    &&& forall|i: int| 0 <= i < models.len() ==> is_filed(#[trigger] models[i])
    &&& forall|i: int, j: int|
        0 <= i < j < models.len() ==> (#[trigger] models[i]).id != (#[trigger] models[j]).id
}

/// All models belong to one provider.
pub open spec fn all_at(models: Seq<ModelView>, provider: Seq<char>) -> bool {
    forall|i: int| 0 <= i < models.len() ==> (#[trigger] models[i]).provider == provider
}

/// No model belongs to a provider.
pub open spec fn none_at(models: Seq<ModelView>, provider: Seq<char>) -> bool {
    forall|i: int| 0 <= i < models.len() ==> (#[trigger] models[i]).provider != provider
}

/// Models of different providers have different ids.
proof fn lemma_providers_differ(a: ModelView, b: ModelView)
    requires
        is_filed(a),
        is_filed(b),
        a.provider != b.provider,
    ensures
        a.id != b.id,
{
    reveal_strlit("/");
    let p = a.provider + "/"@;
    let q = b.provider + "/"@;
    if a.id == b.id {
        let n = a.provider.len() as int;
        let m = b.provider.len() as int;
        assert(forall|i: int| 0 <= i < p.len() ==> p[i] == a.id[i]);
        assert(forall|i: int| 0 <= i < q.len() ==> q[i] == a.id[i]);
        assert(p[n] == '/' && q[m] == '/');
        if n < m {
            assert(q[n] == b.provider[n]);
            assert(b.provider.contains(b.provider[n]));
        } else if m < n {
            assert(p[m] == a.provider[m]);
            assert(a.provider.contains(a.provider[m]));
        } else {
            assert forall|i: int| 0 <= i < n implies a.provider[i] == b.provider[i] by {
                assert(p[i] == a.provider[i] && q[i] == b.provider[i]);
            }
            assert(a.provider =~= b.provider);
        }
    }
}

/// A catalogue with the models of one more provider is a catalogue.
proof fn lemma_catalogue_grows(a: Seq<ModelView>, b: Seq<ModelView>, provider: Seq<char>)
    requires
        is_catalogue(a),
        is_catalogue(b),
        all_at(b, provider),
        none_at(a, provider),
    ensures
        is_catalogue(a + b),
{
    let all = a + b;
    assert forall|i: int| 0 <= i < all.len() implies is_filed(#[trigger] all[i]) by {
        if i < a.len() {
            assert(all[i] == a[i]);
        } else {
            assert(all[i] == b[i - a.len()]);
        }
    }
    assert forall|i: int, j: int| 0 <= i < j < all.len() implies (#[trigger] all[i]).id != (
    #[trigger] all[j]).id by {
        if j < a.len() {
            assert(all[i] == a[i] && all[j] == a[j]);
        } else if i >= a.len() {
            assert(all[i] == b[i - a.len()] && all[j] == b[j - a.len()]);
        } else {
            assert(all[i] == a[i] && all[j] == b[j - a.len()]);
            lemma_providers_differ(a[i], b[j - a.len()]);
        }
    }
}

proof fn lemma_anthropic_catalogue(family: Seq<char>)
    ensures
        anthropic_models(family).len() == 3,
        is_catalogue(anthropic_models(family)),
        all_at(anthropic_models(family), "anthropic"@),
{
    reveal_strlit("/");
    reveal_strlit("anthropic");
    reveal_strlit("opencode-zen");
    reveal_strlit("anthropic/");
    reveal_strlit("-sonnet-4-20250514");
    reveal_strlit("-haiku-4.5-20250514");
    reveal_strlit("-opus-4-20250514");
    assert("anthropic"@.len() != "opencode-zen"@.len());
    let m = anthropic_models(family);
    assert(m[0].id =~= "anthropic/"@ + (family + "-sonnet-4-20250514"@));
    assert(("anthropic"@ + "/"@).is_prefix_of(m[0].id));
    assert(m[1].id =~= "anthropic/"@ + (family + "-haiku-4.5-20250514"@));
    assert(("anthropic"@ + "/"@).is_prefix_of(m[1].id));
    assert(m[2].id =~= "anthropic/"@ + (family + "-opus-4-20250514"@));
    assert(("anthropic"@ + "/"@).is_prefix_of(m[2].id));
    assert(m[0].id.len() != m[1].id.len());
    assert(m[0].id.len() != m[2].id.len());
    assert(m[1].id.len() != m[2].id.len());
}

proof fn lemma_openrouter_catalogue(family: Seq<char>)
    ensures
        openrouter_models(family).len() == 13,
        is_catalogue(openrouter_models(family)),
        all_at(openrouter_models(family), "openrouter"@),
{
    reveal_strlit("/");
    reveal_strlit("openrouter");
    reveal_strlit("opencode-zen");
    reveal_strlit("openrouter/anthropic/");
    reveal_strlit("-sonnet-4-20250514");
    reveal_strlit("-haiku-4.5-20250514");
    reveal_strlit("-opus-4-20250514");
    reveal_strlit("openrouter/google/gemini-2.5-pro-preview");
    reveal_strlit("openrouter/google/gemini-2.5-flash-preview");
    reveal_strlit("openrouter/deepseek/deepseek-r1");
    reveal_strlit("openrouter/deepseek/deepseek-chat-v3-0324");
    reveal_strlit("openrouter/moonshotai/kimi-k2");
    reveal_strlit("openrouter/moonshotai/kimi-k2.5");
    reveal_strlit("openrouter/openai/gpt-4.1");
    reveal_strlit("openrouter/openai/gpt-4.1-mini");
    reveal_strlit("openrouter/x-ai/grok-3-mini");
    reveal_strlit("openrouter/mistralai/mistral-medium-3");
    assert("openrouter"@.len() != "opencode-zen"@.len());
    let m = openrouter_models(family);
    assert(m[0].id =~= "openrouter/anthropic/"@ + (family + "-sonnet-4-20250514"@));
    assert(("openrouter"@ + "/"@).is_prefix_of(m[0].id));
    assert(m[1].id =~= "openrouter/anthropic/"@ + (family + "-haiku-4.5-20250514"@));
    assert(("openrouter"@ + "/"@).is_prefix_of(m[1].id));
    assert(m[2].id =~= "openrouter/anthropic/"@ + (family + "-opus-4-20250514"@));
    assert(("openrouter"@ + "/"@).is_prefix_of(m[2].id));
    assert(("openrouter"@ + "/"@).is_prefix_of(m[3].id));
    assert(("openrouter"@ + "/"@).is_prefix_of(m[4].id));
    assert(("openrouter"@ + "/"@).is_prefix_of(m[5].id));
    assert(("openrouter"@ + "/"@).is_prefix_of(m[6].id));
    assert(("openrouter"@ + "/"@).is_prefix_of(m[7].id));
    assert(("openrouter"@ + "/"@).is_prefix_of(m[8].id));
    assert(("openrouter"@ + "/"@).is_prefix_of(m[9].id));
    assert(("openrouter"@ + "/"@).is_prefix_of(m[10].id));
    assert(("openrouter"@ + "/"@).is_prefix_of(m[11].id));
    assert(("openrouter"@ + "/"@).is_prefix_of(m[12].id));
    assert(m[0].id.len() != m[1].id.len());
    assert(m[0].id.len() != m[2].id.len());
    assert(m[0].id[11] != m[3].id[11]);
    assert(m[0].id[11] != m[4].id[11]);
    assert(m[0].id[11] != m[5].id[11]);
    assert(m[0].id[11] != m[6].id[11]);
    assert(m[0].id[11] != m[7].id[11]);
    assert(m[0].id[11] != m[8].id[11]);
    assert(m[0].id[11] != m[9].id[11]);
    assert(m[0].id[11] != m[10].id[11]);
    assert(m[0].id[11] != m[11].id[11]);
    assert(m[0].id[11] != m[12].id[11]);
    assert(m[1].id.len() != m[2].id.len());
    assert(m[1].id[11] != m[3].id[11]);
    assert(m[1].id[11] != m[4].id[11]);
    assert(m[1].id[11] != m[5].id[11]);
    assert(m[1].id[11] != m[6].id[11]);
    assert(m[1].id[11] != m[7].id[11]);
    assert(m[1].id[11] != m[8].id[11]);
    assert(m[1].id[11] != m[9].id[11]);
    assert(m[1].id[11] != m[10].id[11]);
    assert(m[1].id[11] != m[11].id[11]);
    assert(m[1].id[11] != m[12].id[11]);
    assert(m[2].id[11] != m[3].id[11]);
    assert(m[2].id[11] != m[4].id[11]);
    assert(m[2].id[11] != m[5].id[11]);
    assert(m[2].id[11] != m[6].id[11]);
    assert(m[2].id[11] != m[7].id[11]);
    assert(m[2].id[11] != m[8].id[11]);
    assert(m[2].id[11] != m[9].id[11]);
    assert(m[2].id[11] != m[10].id[11]);
    assert(m[2].id[11] != m[11].id[11]);
    assert(m[2].id[11] != m[12].id[11]);
    assert(m[3].id.len() != m[4].id.len());
    assert(m[3].id.len() != m[5].id.len());
    assert(m[3].id.len() != m[6].id.len());
    assert(m[3].id.len() != m[7].id.len());
    assert(m[3].id.len() != m[8].id.len());
    assert(m[3].id.len() != m[9].id.len());
    assert(m[3].id.len() != m[10].id.len());
    assert(m[3].id.len() != m[11].id.len());
    assert(m[3].id.len() != m[12].id.len());
    assert(m[4].id.len() != m[5].id.len());
    assert(m[4].id.len() != m[6].id.len());
    assert(m[4].id.len() != m[7].id.len());
    assert(m[4].id.len() != m[8].id.len());
    assert(m[4].id.len() != m[9].id.len());
    assert(m[4].id.len() != m[10].id.len());
    assert(m[4].id.len() != m[11].id.len());
    assert(m[4].id.len() != m[12].id.len());
    assert(m[5].id.len() != m[6].id.len());
    assert(m[5].id.len() != m[7].id.len());
    assert(m[5].id[11] != m[8].id[11]);
    assert(m[5].id.len() != m[9].id.len());
    assert(m[5].id.len() != m[10].id.len());
    assert(m[5].id.len() != m[11].id.len());
    assert(m[5].id.len() != m[12].id.len());
    assert(m[6].id.len() != m[7].id.len());
    assert(m[6].id.len() != m[8].id.len());
    assert(m[6].id.len() != m[9].id.len());
    assert(m[6].id.len() != m[10].id.len());
    assert(m[6].id.len() != m[11].id.len());
    assert(m[6].id.len() != m[12].id.len());
    assert(m[7].id.len() != m[8].id.len());
    assert(m[7].id.len() != m[9].id.len());
    assert(m[7].id.len() != m[10].id.len());
    assert(m[7].id.len() != m[11].id.len());
    assert(m[7].id.len() != m[12].id.len());
    assert(m[8].id.len() != m[9].id.len());
    assert(m[8].id.len() != m[10].id.len());
    assert(m[8].id.len() != m[11].id.len());
    assert(m[8].id.len() != m[12].id.len());
    assert(m[9].id.len() != m[10].id.len());
    assert(m[9].id.len() != m[11].id.len());
    assert(m[9].id.len() != m[12].id.len());
    assert(m[10].id.len() != m[11].id.len());
    assert(m[10].id.len() != m[12].id.len());
    assert(m[11].id.len() != m[12].id.len());
}

proof fn lemma_openai_catalogue()
    ensures
        openai_models().len() == 6,
        is_catalogue(openai_models()),
        all_at(openai_models(), "openai"@),
{
    reveal_strlit("/");
    reveal_strlit("openai");
    reveal_strlit("opencode-zen");
    reveal_strlit("openai/gpt-4.1");
    reveal_strlit("openai/gpt-4.1-mini");
    reveal_strlit("openai/gpt-4.1-nano");
    reveal_strlit("openai/o3");
    reveal_strlit("openai/o3-mini");
    reveal_strlit("openai/o4-mini");
    assert("openai"@.len() != "opencode-zen"@.len());
    let m = openai_models();
    assert(("openai"@ + "/"@).is_prefix_of(m[0].id));
    assert(("openai"@ + "/"@).is_prefix_of(m[1].id));
    assert(("openai"@ + "/"@).is_prefix_of(m[2].id));
    assert(("openai"@ + "/"@).is_prefix_of(m[3].id));
    assert(("openai"@ + "/"@).is_prefix_of(m[4].id));
    assert(("openai"@ + "/"@).is_prefix_of(m[5].id));
    assert(m[0].id.len() != m[1].id.len());
    assert(m[0].id.len() != m[2].id.len());
    assert(m[0].id.len() != m[3].id.len());
    assert(m[0].id[7] != m[4].id[7]);
    assert(m[0].id[7] != m[5].id[7]);
    assert(m[1].id[15] != m[2].id[15]);
    assert(m[1].id.len() != m[3].id.len());
    assert(m[1].id.len() != m[4].id.len());
    assert(m[1].id.len() != m[5].id.len());
    assert(m[2].id.len() != m[3].id.len());
    assert(m[2].id.len() != m[4].id.len());
    assert(m[2].id.len() != m[5].id.len());
    assert(m[3].id.len() != m[4].id.len());
    assert(m[3].id.len() != m[5].id.len());
    assert(m[4].id[8] != m[5].id[8]);
}

proof fn lemma_zhipu_catalogue()
    ensures
        zhipu_models().len() == 3,
        is_catalogue(zhipu_models()),
        all_at(zhipu_models(), "zhipu"@),
{
    reveal_strlit("/");
    reveal_strlit("zhipu");
    reveal_strlit("opencode-zen");
    reveal_strlit("zhipu/glm-4-plus");
    reveal_strlit("zhipu/glm-4-flash");
    reveal_strlit("zhipu/glm-4-flashx");
    assert("zhipu"@.len() != "opencode-zen"@.len());
    let m = zhipu_models();
    assert(("zhipu"@ + "/"@).is_prefix_of(m[0].id));
    assert(("zhipu"@ + "/"@).is_prefix_of(m[1].id));
    assert(("zhipu"@ + "/"@).is_prefix_of(m[2].id));
    assert(m[0].id.len() != m[1].id.len());
    assert(m[0].id.len() != m[2].id.len());
    assert(m[1].id.len() != m[2].id.len());
}

proof fn lemma_groq_catalogue()
    ensures
        groq_models().len() == 5,
        is_catalogue(groq_models()),
        all_at(groq_models(), "groq"@),
{
    reveal_strlit("/");
    reveal_strlit("groq");
    reveal_strlit("opencode-zen");
    reveal_strlit("groq/llama-3.3-70b-versatile");
    reveal_strlit("groq/llama-3.3-70b-specdec");
    reveal_strlit("groq/llama-3.1-70b-versatile");
    reveal_strlit("groq/mixtral-8x7b-32768");
    reveal_strlit("groq/gemma2-9b-it");
    assert("groq"@.len() != "opencode-zen"@.len());
    let m = groq_models();
    assert(("groq"@ + "/"@).is_prefix_of(m[0].id));
    assert(("groq"@ + "/"@).is_prefix_of(m[1].id));
    assert(("groq"@ + "/"@).is_prefix_of(m[2].id));
    assert(("groq"@ + "/"@).is_prefix_of(m[3].id));
    assert(("groq"@ + "/"@).is_prefix_of(m[4].id));
    assert(m[0].id.len() != m[1].id.len());
    assert(m[0].id[13] != m[2].id[13]);
    assert(m[0].id.len() != m[3].id.len());
    assert(m[0].id.len() != m[4].id.len());
    assert(m[1].id.len() != m[2].id.len());
    assert(m[1].id.len() != m[3].id.len());
    assert(m[1].id.len() != m[4].id.len());
    assert(m[2].id.len() != m[3].id.len());
    assert(m[2].id.len() != m[4].id.len());
    assert(m[3].id.len() != m[4].id.len());
}

proof fn lemma_together_catalogue()
    ensures
        together_models().len() == 5,
        is_catalogue(together_models()),
        all_at(together_models(), "together"@),
{
    reveal_strlit("/");
    reveal_strlit("together");
    reveal_strlit("opencode-zen");
    reveal_strlit("together/meta-llama/Meta-Llama-3.1-405B-Instruct-Turbo");
    reveal_strlit("together/meta-llama/Meta-Llama-3.1-70B-Instruct-Turbo");
    reveal_strlit("together/meta-llama/Meta-Llama-3.3-70B-Instruct-Turbo");
    reveal_strlit("together/Qwen/Qwen2.5-72B-Instruct-Turbo");
    reveal_strlit("together/deepseek-ai/DeepSeek-V3");
    assert("together"@.len() != "opencode-zen"@.len());
    let m = together_models();
    assert(("together"@ + "/"@).is_prefix_of(m[0].id));
    assert(("together"@ + "/"@).is_prefix_of(m[1].id));
    assert(("together"@ + "/"@).is_prefix_of(m[2].id));
    assert(("together"@ + "/"@).is_prefix_of(m[3].id));
    assert(("together"@ + "/"@).is_prefix_of(m[4].id));
    assert(m[0].id.len() != m[1].id.len());
    assert(m[0].id.len() != m[2].id.len());
    assert(m[0].id.len() != m[3].id.len());
    assert(m[0].id.len() != m[4].id.len());
    assert(m[1].id[33] != m[2].id[33]);
    assert(m[1].id.len() != m[3].id.len());
    assert(m[1].id.len() != m[4].id.len());
    assert(m[2].id.len() != m[3].id.len());
    assert(m[2].id.len() != m[4].id.len());
    assert(m[3].id.len() != m[4].id.len());
}

proof fn lemma_fireworks_catalogue()
    ensures
        fireworks_models().len() == 5,
        is_catalogue(fireworks_models()),
        all_at(fireworks_models(), "fireworks"@),
{
    reveal_strlit("/");
    reveal_strlit("fireworks");
    reveal_strlit("opencode-zen");
    reveal_strlit("fireworks/accounts/fireworks/models/llama-v3p3-70b-instruct");
    reveal_strlit("fireworks/accounts/fireworks/models/llama-v3p1-405b-instruct");
    reveal_strlit("fireworks/accounts/fireworks/models/llama-v3p1-70b-instruct");
    reveal_strlit("fireworks/accounts/fireworks/models/llama-v3p1-8b-instruct");
    reveal_strlit("fireworks/accounts/fireworks/models/qwen2p5-72b-instruct");
    assert("fireworks"@.len() != "opencode-zen"@.len());
    let m = fireworks_models();
    assert(("fireworks"@ + "/"@).is_prefix_of(m[0].id));
    assert(("fireworks"@ + "/"@).is_prefix_of(m[1].id));
    assert(("fireworks"@ + "/"@).is_prefix_of(m[2].id));
    assert(("fireworks"@ + "/"@).is_prefix_of(m[3].id));
    assert(("fireworks"@ + "/"@).is_prefix_of(m[4].id));
    assert(m[0].id.len() != m[1].id.len());
    assert(m[0].id[45] != m[2].id[45]);
    assert(m[0].id.len() != m[3].id.len());
    assert(m[0].id.len() != m[4].id.len());
    assert(m[1].id.len() != m[2].id.len());
    assert(m[1].id.len() != m[3].id.len());
    assert(m[1].id.len() != m[4].id.len());
    assert(m[2].id.len() != m[3].id.len());
    assert(m[2].id.len() != m[4].id.len());
    assert(m[3].id.len() != m[4].id.len());
}

proof fn lemma_deepseek_catalogue()
    ensures
        deepseek_models().len() == 2,
        is_catalogue(deepseek_models()),
        all_at(deepseek_models(), "deepseek"@),
{
    reveal_strlit("/");
    reveal_strlit("deepseek");
    reveal_strlit("opencode-zen");
    reveal_strlit("deepseek/deepseek-chat");
    reveal_strlit("deepseek/deepseek-reasoner");
    assert("deepseek"@.len() != "opencode-zen"@.len());
    let m = deepseek_models();
    assert(("deepseek"@ + "/"@).is_prefix_of(m[0].id));
    assert(("deepseek"@ + "/"@).is_prefix_of(m[1].id));
    assert(m[0].id.len() != m[1].id.len());
}

proof fn lemma_xai_catalogue()
    ensures
        xai_models().len() == 3,
        is_catalogue(xai_models()),
        all_at(xai_models(), "xai"@),
{
    reveal_strlit("/");
    reveal_strlit("xai");
    reveal_strlit("opencode-zen");
    reveal_strlit("xai/grok-2-latest");
    reveal_strlit("xai/grok-2-vision-latest");
    reveal_strlit("xai/grok-beta");
    assert("xai"@.len() != "opencode-zen"@.len());
    let m = xai_models();
    assert(("xai"@ + "/"@).is_prefix_of(m[0].id));
    assert(("xai"@ + "/"@).is_prefix_of(m[1].id));
    assert(("xai"@ + "/"@).is_prefix_of(m[2].id));
    assert(m[0].id.len() != m[1].id.len());
    assert(m[0].id.len() != m[2].id.len());
    assert(m[1].id.len() != m[2].id.len());
}

proof fn lemma_mistral_catalogue()
    ensures
        mistral_models().len() == 5,
        is_catalogue(mistral_models()),
        all_at(mistral_models(), "mistral"@),
{
    reveal_strlit("/");
    reveal_strlit("mistral");
    reveal_strlit("opencode-zen");
    reveal_strlit("mistral/mistral-large-latest");
    reveal_strlit("mistral/mistral-small-latest");
    reveal_strlit("mistral/mistral-medium-latest");
    reveal_strlit("mistral/codestral-latest");
    reveal_strlit("mistral/pixtral-large-latest");
    assert("mistral"@.len() != "opencode-zen"@.len());
    let m = mistral_models();
    assert(("mistral"@ + "/"@).is_prefix_of(m[0].id));
    assert(("mistral"@ + "/"@).is_prefix_of(m[1].id));
    assert(("mistral"@ + "/"@).is_prefix_of(m[2].id));
    assert(("mistral"@ + "/"@).is_prefix_of(m[3].id));
    assert(("mistral"@ + "/"@).is_prefix_of(m[4].id));
    assert(m[0].id[16] != m[1].id[16]);
    assert(m[0].id.len() != m[2].id.len());
    assert(m[0].id.len() != m[3].id.len());
    assert(m[0].id[8] != m[4].id[8]);
    assert(m[1].id.len() != m[2].id.len());
    assert(m[1].id.len() != m[3].id.len());
    assert(m[1].id[8] != m[4].id[8]);
    assert(m[2].id.len() != m[3].id.len());
    assert(m[2].id.len() != m[4].id.len());
    assert(m[3].id.len() != m[4].id.len());
}

proof fn lemma_opencode_zen_catalogue()
    ensures
        opencode_zen_models().len() == 7,
        is_catalogue(opencode_zen_models()),
        all_at(opencode_zen_models(), "opencode-zen"@),
{
    reveal_strlit("/");
    reveal_strlit("opencode-zen");
    reveal_strlit("opencode-zen/kimi-k2.5");
    reveal_strlit("opencode-zen/kimi-k2");
    reveal_strlit("opencode-zen/kimi-k2-thinking");
    reveal_strlit("opencode-zen/glm-5");
    reveal_strlit("opencode-zen/minimax-m2.5");
    reveal_strlit("opencode-zen/qwen3-coder");
    reveal_strlit("opencode-zen/big-pickle");
    let m = opencode_zen_models();
    assert(("opencode-zen"@ + "/"@).is_prefix_of(m[0].id));
    assert(("opencode-zen"@ + "/"@).is_prefix_of(m[1].id));
    assert(("opencode-zen"@ + "/"@).is_prefix_of(m[2].id));
    assert(("opencode-zen"@ + "/"@).is_prefix_of(m[3].id));
    assert(("opencode-zen"@ + "/"@).is_prefix_of(m[4].id));
    assert(("opencode-zen"@ + "/"@).is_prefix_of(m[5].id));
    assert(("opencode-zen"@ + "/"@).is_prefix_of(m[6].id));
    assert(m[0].id.len() != m[1].id.len());
    assert(m[0].id.len() != m[2].id.len());
    assert(m[0].id.len() != m[3].id.len());
    assert(m[0].id.len() != m[4].id.len());
    assert(m[0].id.len() != m[5].id.len());
    assert(m[0].id.len() != m[6].id.len());
    assert(m[1].id.len() != m[2].id.len());
    assert(m[1].id.len() != m[3].id.len());
    assert(m[1].id.len() != m[4].id.len());
    assert(m[1].id.len() != m[5].id.len());
    assert(m[1].id.len() != m[6].id.len());
    assert(m[2].id.len() != m[3].id.len());
    assert(m[2].id.len() != m[4].id.len());
    assert(m[2].id.len() != m[5].id.len());
    assert(m[2].id.len() != m[6].id.len());
    assert(m[3].id.len() != m[4].id.len());
    assert(m[3].id.len() != m[5].id.len());
    assert(m[3].id.len() != m[6].id.len());
    assert(m[4].id.len() != m[5].id.len());
    assert(m[4].id.len() != m[6].id.len());
    assert(m[5].id.len() != m[6].id.len());
}

/// The curated list has 57 models. Each is marked as curated and filed under its
/// provider, the ids differ, and the context window is unknown exactly at OpenCode
/// Zen.
pub proof fn law_curated_catalogue(family: Seq<char>)
    ensures
        curated_table(family).len() == 57,
        is_catalogue(curated_table(family)),
{
    lemma_anthropic_catalogue(family);
    lemma_openrouter_catalogue(family);
    lemma_openai_catalogue();
    lemma_zhipu_catalogue();
    lemma_groq_catalogue();
    lemma_together_catalogue();
    lemma_fireworks_catalogue();
    lemma_deepseek_catalogue();
    lemma_xai_catalogue();
    lemma_mistral_catalogue();
    lemma_opencode_zen_catalogue();
    reveal_strlit("anthropic");
    reveal_strlit("openrouter");
    reveal_strlit("openai");
    reveal_strlit("zhipu");
    reveal_strlit("groq");
    reveal_strlit("together");
    reveal_strlit("fireworks");
    reveal_strlit("deepseek");
    reveal_strlit("xai");
    reveal_strlit("mistral");
    reveal_strlit("opencode-zen");
    assert("anthropic"@.len() != "openrouter"@.len());
    assert("anthropic"@.len() != "openai"@.len());
    assert("anthropic"@.len() != "zhipu"@.len());
    assert("anthropic"@.len() != "groq"@.len());
    assert("anthropic"@.len() != "together"@.len());
    assert("anthropic"@[0] != "fireworks"@[0]);
    assert("anthropic"@.len() != "deepseek"@.len());
    assert("anthropic"@.len() != "xai"@.len());
    assert("anthropic"@.len() != "mistral"@.len());
    assert("anthropic"@.len() != "opencode-zen"@.len());
    assert("openrouter"@.len() != "openai"@.len());
    assert("openrouter"@.len() != "zhipu"@.len());
    assert("openrouter"@.len() != "groq"@.len());
    assert("openrouter"@.len() != "together"@.len());
    assert("openrouter"@.len() != "fireworks"@.len());
    assert("openrouter"@.len() != "deepseek"@.len());
    assert("openrouter"@.len() != "xai"@.len());
    assert("openrouter"@.len() != "mistral"@.len());
    assert("openrouter"@.len() != "opencode-zen"@.len());
    assert("openai"@.len() != "zhipu"@.len());
    assert("openai"@.len() != "groq"@.len());
    assert("openai"@.len() != "together"@.len());
    assert("openai"@.len() != "fireworks"@.len());
    assert("openai"@.len() != "deepseek"@.len());
    assert("openai"@.len() != "xai"@.len());
    assert("openai"@.len() != "mistral"@.len());
    assert("openai"@.len() != "opencode-zen"@.len());
    assert("zhipu"@.len() != "groq"@.len());
    assert("zhipu"@.len() != "together"@.len());
    assert("zhipu"@.len() != "fireworks"@.len());
    assert("zhipu"@.len() != "deepseek"@.len());
    assert("zhipu"@.len() != "xai"@.len());
    assert("zhipu"@.len() != "mistral"@.len());
    assert("zhipu"@.len() != "opencode-zen"@.len());
    assert("groq"@.len() != "together"@.len());
    assert("groq"@.len() != "fireworks"@.len());
    assert("groq"@.len() != "deepseek"@.len());
    assert("groq"@.len() != "xai"@.len());
    assert("groq"@.len() != "mistral"@.len());
    assert("groq"@.len() != "opencode-zen"@.len());
    assert("together"@.len() != "fireworks"@.len());
    assert("together"@[0] != "deepseek"@[0]);
    assert("together"@.len() != "xai"@.len());
    assert("together"@.len() != "mistral"@.len());
    assert("together"@.len() != "opencode-zen"@.len());
    assert("fireworks"@.len() != "deepseek"@.len());
    assert("fireworks"@.len() != "xai"@.len());
    assert("fireworks"@.len() != "mistral"@.len());
    assert("fireworks"@.len() != "opencode-zen"@.len());
    assert("deepseek"@.len() != "xai"@.len());
    assert("deepseek"@.len() != "mistral"@.len());
    assert("deepseek"@.len() != "opencode-zen"@.len());
    assert("xai"@.len() != "mistral"@.len());
    assert("xai"@.len() != "opencode-zen"@.len());
    assert("mistral"@.len() != "opencode-zen"@.len());
    let t0 = anthropic_models(family);
    let t1 = t0 + openrouter_models(family);
    lemma_catalogue_grows(t0, openrouter_models(family), "openrouter"@);
    let t2 = t1 + openai_models();
    lemma_catalogue_grows(t1, openai_models(), "openai"@);
    let t3 = t2 + zhipu_models();
    lemma_catalogue_grows(t2, zhipu_models(), "zhipu"@);
    let t4 = t3 + groq_models();
    lemma_catalogue_grows(t3, groq_models(), "groq"@);
    let t5 = t4 + together_models();
    lemma_catalogue_grows(t4, together_models(), "together"@);
    let t6 = t5 + fireworks_models();
    lemma_catalogue_grows(t5, fireworks_models(), "fireworks"@);
    let t7 = t6 + deepseek_models();
    lemma_catalogue_grows(t6, deepseek_models(), "deepseek"@);
    let t8 = t7 + xai_models();
    lemma_catalogue_grows(t7, xai_models(), "xai"@);
    let t9 = t8 + mistral_models();
    lemma_catalogue_grows(t8, mistral_models(), "mistral"@);
    let t10 = t9 + opencode_zen_models();
    lemma_catalogue_grows(t9, opencode_zen_models(), "opencode-zen"@);
    assert(t10 == curated_table(family));
}

/// A model as OpenRouter describes it.
pub struct OpenRouterModel {
    pub id: String,
    pub name: Option<String>,
    pub context_length: Option<u64>,
}

/// A model of OpenRouter, to choose from.
pub open spec fn openrouter_view(m: OpenRouterModel) -> ModelView {
    ModelView {
        id: "openrouter/"@ + m.id@,
        name: match m.name {
            Some(n) => n@,
            None => m.id@,
        },
        provider: "openrouter"@,
        context_window: m.context_length,
        curated: false,
    }
}

/// The models of OpenRouter, to choose from.
pub fn openrouter_offer(data: &Vec<OpenRouterModel>) -> (r: Vec<ModelInfo>)
    ensures
        r@.len() == data@.len(),
        forall|i: int| 0 <= i < r@.len() ==> (#[trigger] r@[i])@ == openrouter_view(data@[i]),
{
    let mut out: Vec<ModelInfo> = Vec::new();
    let n: usize = data.len();
    let mut i: usize = 0;
    while i < n
        invariant
            n == data@.len(),
            i <= n,
            out@.len() == i,
            forall|j: int| 0 <= j < i ==> (#[trigger] out@[j])@ == openrouter_view(data@[j]),
        decreases n - i,
    {
        let name = match &data[i].name {
            Some(n) => n.clone(),
            None => data[i].id.clone(),
        };
        out.push(
            ModelInfo {
                id: cat2("openrouter/", data[i].id.as_str()),
                name,
                provider: "openrouter".to_owned(),
                context_window: data[i].context_length,
                curated: false,
            },
        );
        i = i + 1;
    }
    out
}

/// The models to keep after a refresh: those of OpenRouter, where it is
/// configured and answered.
pub fn refresh_models(
    configured: &Vec<&'static str>,
    answer: &Option<Vec<OpenRouterModel>>,
) -> (r: Vec<ModelInfo>)
    ensures
        match answer {
            Some(data) => if names_view(configured@).contains("openrouter"@) {
                r@.len() == data@.len() && forall|i: int|
                    0 <= i < r@.len() ==> (#[trigger] r@[i])@ == openrouter_view(data@[i])
            } else {
                r@.len() == 0
            },
            None => r@.len() == 0,
        },
{
    let name = "openrouter".to_owned();
    match answer {
        Some(data) => if is_configured(&name, configured) {
            openrouter_offer(data)
        } else {
            Vec::new()
        },
        None => Vec::new(),
    }
}

/// The key to ask OpenRouter with, from the text of the configuration file: the
/// text under `openrouter_key`, or the variable that it names. It fails where the
/// text is no document, and where there is no key or an empty one.
pub fn openrouter_key(content: &str, env: &EnvVars) -> (r: Result<String, ApiError>)
    ensures
        match toml_doc::parsed_document(content@) {
            Some(doc) => {
                let key = match crate::api::providers::key_text(doc, "openrouter_key"@) {
                    Some(s) => env.resolved(s),
                    None => None,
                };
                if key is Some && key->0.len() > 0 {
                    r is Ok && r->Ok_0@ == key->0
                } else {
                    r == Err::<String, _>(ApiError::NotFound)
                }
            },
            None => r == Err::<String, _>(ApiError::Internal),
        },
{
    let doc = match parse_document(content) {
        Some(d) => d,
        None => {
            return Err(ApiError::Internal);
        },
    };
    let key = match find_section(&doc, "llm", "openrouter_key") {
        Some(item) => match item_str(item) {
            Some(s) => env.resolve_env_value(s),
            None => None,
        },
        None => None,
    };
    match key {
        Some(k) => if k.as_str().is_empty() {
            Err(ApiError::NotFound)
        } else {
            Ok(k)
        },
        None => Err(ApiError::NotFound),
    }
}

/// A model is offered where its provider is configured, in the order of the list.
pub proof fn law_models_of_configured_providers_are_offered(
    models: Seq<ModelView>,
    m: ModelView,
    configured: Seq<Seq<char>>,
)
    ensures
        configured.contains(m.provider) ==> offered(models.push(m), configured) == offered(
            models,
            configured,
        ).push(m),
        !configured.contains(m.provider) ==> offered(models.push(m), configured) == offered(
            models,
            configured,
        ),
        offered(Seq::empty(), configured).len() == 0,
{
    assert(models.push(m).drop_last() == models);
}

/// A fetched model comes last where its provider is configured and no model before it has
/// its id, and is left out otherwise.
pub proof fn law_fetched_models_are_added(
    models: Seq<ModelView>,
    more: Seq<ModelView>,
    m: ModelView,
    configured: Seq<Seq<char>>,
)
    ensures
        merged(models, Seq::empty(), configured) == models,
        configured.contains(m.provider) && (forall|i: int|
            0 <= i < merged(models, more, configured).len() ==> (#[trigger] merged(
                models,
                more,
                configured,
            )[i]).id != m.id) ==> merged(models, more.push(m), configured) == merged(
            models,
            more,
            configured,
        ).push(m),
        !configured.contains(m.provider) || lists(models, m.id) ==> merged(
            models,
            more.push(m),
            configured,
        ) == merged(models, more, configured),
{
    assert(more.push(m).drop_last() == more);
    law_recommended_come_first(models, more, configured);
    if lists(models, m.id) {
        let i = choose|i: int| 0 <= i < models.len() && (#[trigger] models[i]).id == m.id;
        let all = merged(models, more, configured);
        assert(all.subrange(0, models.len() as int)[i] == all[i]);
        assert(all[i].id == m.id);
    }
}

/// A model of OpenRouter is chosen by its id behind `openrouter/`, and shown under its
/// name, or its id where it has none. It is not a recommended one.
pub proof fn law_models_of_openrouter(m: OpenRouterModel)
    ensures
        openrouter_view(m).id == "openrouter/"@ + m.id@,
        openrouter_view(m).provider == "openrouter"@,
        m.name matches Some(n) ==> openrouter_view(m).name == n@,
        m.name is None ==> openrouter_view(m).name == m.id@,
        openrouter_view(m).context_window == m.context_length,
        !openrouter_view(m).curated,
{
}

/// A name gets a capital in front, and stays as it is behind it.
pub proof fn law_names_get_a_capital(s: Seq<char>, i: int)
    requires
        0 <= i < s.len(),
    ensures
        capitalized(s).len() == s.len(),
        i > 0 ==> capitalized(s)[i] == s[i],
        'a' <= s[0] <= 'z' ==> capitalized(s)[0] as int == s[0] as int - 32,
        !('a' <= s[0] <= 'z') ==> capitalized(s)[0] == s[0],
{
}

/// A model of Anthropic's family is recommended under its family and version, with a
/// context window of two hundred thousand tokens.
pub proof fn law_models_of_the_family(
    prefix: Seq<char>,
    family: Seq<char>,
    version: Seq<char>,
    title: Seq<char>,
    provider: Seq<char>,
)
    ensures
        family_model(prefix, family, version, title, provider).id == prefix + family + version,
        family_model(prefix, family, version, title, provider).name == capitalized(family) + title,
        family_model(prefix, family, version, title, provider).provider == provider,
        family_model(prefix, family, version, title, provider).context_window == Some(200000u64),
        family_model(prefix, family, version, title, provider).curated,
{
}

} // verus!
