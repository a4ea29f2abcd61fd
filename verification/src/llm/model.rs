//! Models and their providers: names, fallbacks, the requests that are sent and
//! the answers that come back.
use crate::json;
use crate::json::JsonTree;
use crate::json::{
    copy_json, json_at, json_item, json_len, json_set, json_str, json_u64, list_json, number_json,
    object_json, parse_json, text_json, write_json,
};
use crate::llm::chat;
use crate::llm::chat::{
    collect_part_texts, collect_said, AssistantContent, ChatMessage, ContentView, ToolCall,
    ToolResultPart, UserContent,
};
use crate::llm::manager::LlmManager;
use crate::text;
use crate::text::{cat2, cat3, join_texts, split_once, str_eq, strip_prefix};
use vstd::prelude::*;

verus! {

// ---------------------------------------------------------------------------
// Names
// ---------------------------------------------------------------------------

/// A model: its provider, and the name that the provider knows it by.
pub struct SpacebotModel {
    pub model_name: String,
    pub provider: String,
    pub full_model_name: String,
}

/// The provider and the model of a name. A name of OpenRouter goes on after its
/// first slash; a name without a provider belongs to Anthropic.
pub open spec fn name_parts(name: Seq<char>) -> (Seq<char>, Seq<char>) {
    match text::after_prefix(name, "openrouter/"@) {
        Some(rest) => ("openrouter"@, rest),
        None => match text::cut_at(name, '/') {
            Some((provider, model)) => (provider, model),
            None => ("anthropic"@, name),
        },
    }
}

impl SpacebotModel {
    /// The model that a name stands for.
    pub fn make(name: &str) -> (r: Self)
        ensures
            (r.provider@, r.model_name@) == name_parts(name@),
            r.full_model_name@ == r.provider@ + "/"@ + r.model_name@,
    {
        let (provider, model_name) = match strip_prefix(name, "openrouter/") {
            Some(rest) => ("openrouter".to_owned(), rest),
            None => match split_once(name, '/') {
                Some(p) => p,
                None => ("anthropic".to_owned(), name.to_owned()),
            },
        };
        let full_model_name = cat3(provider.as_str(), "/", model_name.as_str());
        SpacebotModel { model_name, provider, full_model_name }
    }

    /// The name that the provider knows the model by.
    pub fn model_name(&self) -> (r: &str)
        ensures
            r@ == self.model_name@,
    {
        self.model_name.as_str()
    }

    /// The provider and the name of the model.
    pub fn full_model_name(&self) -> (r: &str)
        ensures
            r@ == self.full_model_name@,
    {
        self.full_model_name.as_str()
    }

    /// The provider to call, where it is one that can be called.
    pub fn endpoint(&self) -> (r: Result<Endpoint, String>)
        ensures
            match r {
                Ok(Endpoint::Anthropic) => self.provider@ == "anthropic"@,
                Ok(Endpoint::OpenAi) => self.provider@ == "openai"@ && self.provider@
                    != "anthropic"@,
                Ok(Endpoint::OpenRouter) => self.provider@ == "openrouter"@ && self.provider@
                    != "anthropic"@ && self.provider@ != "openai"@,
                Err(e) => self.provider@ != "anthropic"@ && self.provider@ != "openai"@
                    && self.provider@ != "openrouter"@ && e@ == "unknown provider: "@
                    + self.provider@,
            },
    {
        if str_eq(self.provider.as_str(), "anthropic") {
            Ok(Endpoint::Anthropic)
        } else if str_eq(self.provider.as_str(), "openai") {
            Ok(Endpoint::OpenAi)
        } else if str_eq(self.provider.as_str(), "openrouter") {
            Ok(Endpoint::OpenRouter)
        } else {
            Err(cat2("unknown provider: ", self.provider.as_str()))
        }
    }
}

/// A provider that can be called.
#[derive(Clone, Copy, Debug, PartialEq, Eq, Structural)]
pub enum Endpoint {
    Anthropic,
    OpenAi,
    OpenRouter,
}

/// The provider of a name holds no slash.
proof fn lemma_provider_has_no_slash(name: Seq<char>)
    ensures
        !name_parts(name).0.contains('/'),
{
    reveal_strlit("openrouter");
    reveal_strlit("anthropic");
    text::lemma_index_of_char(name, '/');
    let provider = name_parts(name).0;
    if text::after_prefix(name, "openrouter/"@) is None && text::cut_at(name, '/') is Some {
        assert forall|i: int| 0 <= i < provider.len() implies provider[i] != '/' by {
            assert(provider[i] == name[i]);
        }
    }
}

/// Making a model from the full name of a model gives the same provider and model.
pub proof fn law_full_name_round_trip(name: Seq<char>)
    ensures
        name_parts(name_parts(name).0 + "/"@ + name_parts(name).1) == name_parts(name),
{
    reveal_strlit("/");
    reveal_strlit("openrouter/");
    reveal_strlit("openrouter");
    let (provider, model) = name_parts(name);
    let n = provider.len() as int;
    let full = provider + "/"@ + model;
    lemma_provider_has_no_slash(name);
    assert("/"@ =~= seq!['/']);
    assert(full[n] == '/');
    assert forall|i: int| 0 <= i < n implies full[i] != '/' by {
        assert(full[i] == provider[i]);
        assert(provider.contains(provider[i]));
    }
    if "openrouter/"@.is_prefix_of(full) {
        assert(full[10] == "openrouter/"@[10]);
        assert(forall|i: int| 0 <= i < 10 ==> full[i] == "openrouter/"@[i]);
        assert(n == 10);
        assert(provider =~= "openrouter"@) by {
            assert forall|i: int| 0 <= i < 10 implies provider[i] == "openrouter"@[i] by {
                assert(full[i] == provider[i]);
            }
        }
        assert(full.skip(11) =~= model);
    } else {
        text::lemma_index_of_char_unique(full, '/', n);
        assert(full.take(n) =~= provider);
        assert(full.skip(n + 1) =~= model);
    }
}

/// A name with a provider belongs to that provider, and what follows the first slash
/// is the model, slashes included; a name without one is a model of Anthropic.
pub proof fn law_name_tells_its_provider(provider: Seq<char>, model: Seq<char>)
    requires
        !provider.contains('/'),
    ensures
        name_parts(provider + "/"@ + model) == (provider, model),
        !model.contains('/') ==> name_parts(model) == ("anthropic"@, model),
{
    reveal_strlit("/");
    reveal_strlit("openrouter/");
    reveal_strlit("openrouter");
    let n = provider.len() as int;
    let full = provider + "/"@ + model;
    assert("/"@ =~= seq!['/']);
    assert(full[n] == '/');
    assert forall|i: int| 0 <= i < n implies full[i] != '/' by {
        assert(full[i] == provider[i]);
    }
    if "openrouter/"@.is_prefix_of(full) {
        assert(full[10] == "openrouter/"@[10]);
        assert(forall|i: int| 0 <= i < 10 ==> full[i] == "openrouter/"@[i]);
        assert(n == 10);
        assert(provider =~= "openrouter"@) by {
            assert forall|i: int| 0 <= i < 10 implies provider[i] == "openrouter"@[i] by {
                assert(full[i] == provider[i]);
            }
        }
        assert(full.skip(11) =~= model);
    } else {
        text::lemma_index_of_char_unique(full, '/', n);
        assert(full.take(n) =~= provider);
        assert(full.skip(n + 1) =~= model);
    }
    if !model.contains('/') {
        text::lemma_index_of_char(model, '/');
        if "openrouter/"@.is_prefix_of(model) {
            assert(model[10] == "openrouter/"@[10]);
            assert(model.contains(model[10]));
        }
    }
}

// ---------------------------------------------------------------------------
// Fallbacks
// ---------------------------------------------------------------------------

/// The models to try for one request: the primary one, then its fallbacks.
pub struct FallbackChain {
    models: Vec<String>,
    at: usize,
    /// There is a routing: models in cooldown are skipped.
    routed: bool,
}

/// The models of a chain: the primary one, then at most some fallbacks.
pub open spec fn chain(
    primary: Seq<char>,
    fallbacks: Seq<Seq<char>>,
    max_fallbacks: nat,
) -> Seq<Seq<char>> {
    seq![primary] + (if max_fallbacks < fallbacks.len() {
        fallbacks.take(max_fallbacks as int)
    } else {
        fallbacks
    })
}

/// The first position from a position on whose model is not in cooldown.
pub open spec fn first_ready(
    models: Seq<Seq<char>>,
    manager: LlmManager,
    cooldown_secs: u64,
    now: u64,
    from: nat,
) -> nat
    decreases models.len() - from,
{
    if from >= models.len() {
        models.len()
    } else if !manager.limited(models[from as int], cooldown_secs, now) {
        from
    } else {
        first_ready(models, manager, cooldown_secs, now, from + 1)
    }
}

/// The position of the next model to try, from a position on. Without a routing no
/// model is skipped.
pub open spec fn next_ready(
    models: Seq<Seq<char>>,
    routed: bool,
    manager: LlmManager,
    cooldown_secs: u64,
    now: u64,
    from: nat,
) -> nat {
    if routed {
        first_ready(models, manager, cooldown_secs, now, from)
    } else {
        from
    }
}

/// What comes of a failure.
#[derive(Clone, Copy, Debug, PartialEq, Eq, Structural)]
pub enum AfterFailure {
    /// The next model is tried.
    TryNext,
    /// The failure is reported.
    Report,
}

impl FallbackChain {
    /// The models of the chain.
    pub closed spec fn models(&self) -> Seq<Seq<char>> {
        text::texts(self.models@)
    }

    /// The position of the next model.
    pub closed spec fn position(&self) -> nat {
        self.at as nat
    }

    /// There is a routing.
    pub closed spec fn is_routed(&self) -> bool {
        self.routed
    }

    #[verifier::type_invariant]
    spec fn within(&self) -> bool {
        self.at <= self.models@.len()
    }

    /// The chain of a request without a routing: the model is called directly, with
    /// no fallback.
    pub fn direct(model: &str) -> (r: Self)
        ensures
            r.models() == seq![model@],
            r.position() == 0,
            !r.is_routed(),
    {
        let mut models: Vec<String> = Vec::new();
        models.push(model.to_owned());
        let r = FallbackChain { models, at: 0, routed: false };
        assert(r.models() =~= seq![model@]);
        r
    }

    /// The chain of a request.
    pub fn new(primary: &str, fallbacks: &Vec<String>, max_fallbacks: usize) -> (r: Self)
        ensures
            r.models() == chain(primary@, text::texts(fallbacks@), max_fallbacks as nat),
            r.position() == 0,
            r.is_routed(),
    {
        let mut models: Vec<String> = Vec::new();
        models.push(primary.to_owned());
        let n: usize = if max_fallbacks < fallbacks.len() {
            max_fallbacks
        } else {
            fallbacks.len()
        };
        let mut i: usize = 0;
        while i < n
            invariant
                i <= n,
                n <= fallbacks@.len(),
                models@.len() == i + 1,
                models@[0]@ == primary@,
                forall|j: int| 0 <= j < i ==> #[trigger] models@[j + 1]@ == fallbacks@[j]@,
            decreases n - i,
        {
            models.push(fallbacks[i].clone());
            i = i + 1;
        }
        let r = FallbackChain { models, at: 0, routed: true };
        proof {
            let c = chain(primary@, text::texts(fallbacks@), max_fallbacks as nat);
            assert(r.models().len() == c.len());
            assert forall|k: int| 0 <= k < c.len() implies r.models()[k] == c[k] by {
                if k > 0 {
                    assert(models@[(k - 1) + 1]@ == fallbacks@[k - 1]@);
                }
            }
            assert(r.models() =~= c);
        }
        r
    }

    /// The next model to try. With a routing, models in cooldown are skipped. A chain
    /// that is used up stays so.
    pub fn next_model(&mut self, manager: &LlmManager, cooldown_secs: u64, now: u64) -> (r: Option<
        String,
    >)
        ensures
            final(self).models() == old(self).models(),
            final(self).is_routed() == old(self).is_routed(),
            ({
                let i = next_ready(
                    old(self).models(),
                    old(self).is_routed(),
                    *manager,
                    cooldown_secs,
                    now,
                    old(self).position(),
                );
                match r {
                    Some(m) => i < old(self).models().len() && m@ == old(self).models()[i as int]
                        && final(self).position() == i + 1,
                    None => i >= old(self).models().len() && final(self).position()
                        == old(self).models().len(),
                }
            }),
    {
        proof {
            use_type_invariant(&*self);
        }
        let n: usize = self.models.len();
        let ghost models = self.models();
        let ghost start = self.position();
        while self.at < n
            invariant
                n == self.models@.len(),
                self.at <= n,
                models == self.models(),
                models == old(self).models(),
                start == old(self).position(),
                self.models == old(self).models,
                self.routed == old(self).routed,
                models.len() == n,
                !self.routed ==> self.at == start,
                self.routed ==> first_ready(models, *manager, cooldown_secs, now, start) == first_ready(
                    models,
                    *manager,
                    cooldown_secs,
                    now,
                    self.at as nat,
                ),
            decreases n - self.at,
        {
            let i: usize = self.at;
            assert(models[i as int] == self.models@[i as int]@);
            self.at = i + 1;
            if !self.routed || !manager.is_rate_limited(
                self.models[i].as_str(),
                cooldown_secs,
                now,
            ) {
                return Some(self.models[i].clone());
            }
        }
        None
    }

    /// Takes in that a model of the chain failed. Without a routing the failure is
    /// reported as it is; with one, see [`model_failed`].
    pub fn failed(&self, manager: &mut LlmManager, model: &str, retriable: bool, now: u64) -> (r:
        AfterFailure)
        requires
            old(manager).wf(),
        ensures
            final(manager).wf(),
            final(manager).config() == old(manager).config(),
            final(manager).limits() == (if self.is_routed() && retriable {
                old(manager).limits().insert(model@, now)
            } else {
                old(manager).limits()
            }),
            r == (if self.is_routed() && retriable {
                AfterFailure::TryNext
            } else {
                AfterFailure::Report
            }),
    {
        if self.routed {
            model_failed(manager, model, retriable, now)
        } else {
            AfterFailure::Report
        }
    }
}

/// Takes in that a model failed. A failure that may pass puts the model into
/// cooldown, and the next one is tried.
pub fn model_failed(manager: &mut LlmManager, model: &str, retriable: bool, now: u64) -> (r:
    AfterFailure)
    requires
        old(manager).wf(),
    ensures
        final(manager).wf(),
        final(manager).config() == old(manager).config(),
        final(manager).limits() == (if retriable {
            old(manager).limits().insert(model@, now)
        } else {
            old(manager).limits()
        }),
        r == (if retriable {
            AfterFailure::TryNext
        } else {
            AfterFailure::Report
        }),
{
    if retriable {
        manager.record_rate_limit(model, now);
        AfterFailure::TryNext
    } else {
        AfterFailure::Report
    }
}

/// What is reported when no model of a chain is left.
pub fn chain_exhausted() -> (r: &'static str)
    ensures
        r@ == "all models in fallback chain failed"@,
{
    "all models in fallback chain failed"
}

/// No model is left in a chain that is used up, whatever was in cooldown.
pub proof fn law_used_up_chain_stays_so(
    models: Seq<Seq<char>>,
    routed: bool,
    manager: LlmManager,
    cooldown_secs: u64,
    now: u64,
)
    ensures
        next_ready(models, routed, manager, cooldown_secs, now, models.len()) >= models.len(),
{
}

/// A model that is tried is not in cooldown, and every model that is skipped is.
pub proof fn law_cooldown_is_skipped(
    models: Seq<Seq<char>>,
    manager: LlmManager,
    cooldown_secs: u64,
    now: u64,
    from: nat,
    j: nat,
)
    requires
        from <= models.len(),
    ensures
        from <= first_ready(models, manager, cooldown_secs, now, from) <= models.len(),
        first_ready(models, manager, cooldown_secs, now, from) < models.len() ==> !manager.limited(
            models[first_ready(models, manager, cooldown_secs, now, from) as int],
            cooldown_secs,
            now,
        ),
        from <= j < first_ready(models, manager, cooldown_secs, now, from) ==> manager.limited(
            models[j as int],
            cooldown_secs,
            now,
        ),
    decreases models.len() - from,
{
    if from < models.len() && manager.limited(models[from as int], cooldown_secs, now) {
        law_cooldown_is_skipped(models, manager, cooldown_secs, now, from + 1, j);
    }
}

/// The primary model is tried first, then its fallbacks in their order, as many as are
/// allowed.
pub proof fn law_chain_follows_the_fallbacks(
    primary: Seq<char>,
    fallbacks: Seq<Seq<char>>,
    max_fallbacks: nat,
    i: int,
)
    requires
        0 <= i < fallbacks.len(),
    ensures
        chain(primary, fallbacks, max_fallbacks)[0] == primary,
        chain(primary, fallbacks, max_fallbacks).len() - 1 == (if fallbacks.len() <= max_fallbacks {
            fallbacks.len()
        } else {
            max_fallbacks
        }),
        i < max_fallbacks ==> chain(primary, fallbacks, max_fallbacks)[i + 1] == fallbacks[i],
{
}

/// Without a routing the models of a chain are tried one after the other, whatever is in
/// cooldown; with one, the first that is not.
pub proof fn law_routing_decides_what_is_skipped(
    models: Seq<Seq<char>>,
    routed: bool,
    manager: LlmManager,
    cooldown_secs: u64,
    now: u64,
    from: nat,
)
    requires
        from < models.len(),
        !routed || !manager.limited(models[from as int], cooldown_secs, now),
    ensures
        next_ready(models, routed, manager, cooldown_secs, now, from) == from,
{
}

// ---------------------------------------------------------------------------
// Requests
// ---------------------------------------------------------------------------

/// A tool that a model may call.
pub struct ToolDefinition {
    pub name: String,
    pub description: String,
    pub parameters: serde_json::Value,
}

/// A request for a completion. The temperature is given as a JSON number.
pub struct CompletionRequest {
    pub preamble: Option<String>,
    pub chat_history: Vec<ChatMessage>,
    pub max_tokens: Option<u64>,
    pub temperature: Option<serde_json::Value>,
    pub tools: Vec<ToolDefinition>,
}

/// A text as a JSON value.
pub open spec fn t(s: Seq<char>) -> JsonTree {
    JsonTree::Text(s)
}

/// The text of a tool's result: its texts, line by line.
pub open spec fn result_text(parts: Seq<ToolResultPart>) -> Seq<char> {
    text::join(chat::part_texts(parts), "\n"@)
}

/// Writes the text of a tool's result.
pub fn tool_result_content_to_string(parts: &Vec<ToolResultPart>) -> (r: String)
    ensures
        r@ == result_text(parts@),
{
    let texts = collect_part_texts(parts);
    join_texts(&texts, "\n")
}

/// A part of a message of a user, for Anthropic.
pub open spec fn anthropic_user_part(c: UserContent) -> Option<JsonTree> {
    match c {
        UserContent::Text(s) => Some(
            JsonTree::Object(json::no_entries().insert("type"@, t("text"@)).insert("text"@, t(s@))),
        ),
        UserContent::ToolResult(r) => Some(
            JsonTree::Object(
                json::no_entries().insert("type"@, t("tool_result"@)).insert(
                    "tool_use_id"@,
                    t(r.id@),
                ).insert("content"@, t(result_text(r.parts@))),
            ),
        ),
        _ => None,
    }
}

/// A part of a message of a model, for Anthropic.
pub open spec fn anthropic_assistant_part(c: AssistantContent) -> Option<JsonTree> {
    match c {
        AssistantContent::Text(s) => Some(
            JsonTree::Object(json::no_entries().insert("type"@, t("text"@)).insert("text"@, t(s@))),
        ),
        AssistantContent::ToolCall(c) => Some(
            JsonTree::Object(
                json::no_entries().insert("type"@, t("tool_use"@)).insert("id"@, t(c.id@)).insert(
                    "name"@,
                    t(c.name@),
                ).insert("input"@, json::json_tree(c.arguments)),
            ),
        ),
        _ => None,
    }
}

/// The parts of a message of a user, for Anthropic.
pub open spec fn anthropic_user_parts(content: Seq<UserContent>) -> Seq<JsonTree>
    decreases content.len(),
{
    if content.len() == 0 {
        Seq::empty()
    } else {
        let rest = anthropic_user_parts(content.drop_last());
        match anthropic_user_part(content.last()) {
            Some(p) => rest.push(p),
            None => rest,
        }
    }
}

/// The parts of a message of a model, for Anthropic.
pub open spec fn anthropic_assistant_parts(content: Seq<AssistantContent>) -> Seq<JsonTree>
    decreases content.len(),
{
    if content.len() == 0 {
        Seq::empty()
    } else {
        let rest = anthropic_assistant_parts(content.drop_last());
        match anthropic_assistant_part(content.last()) {
            Some(p) => rest.push(p),
            None => rest,
        }
    }
}

/// A message, for Anthropic.
pub open spec fn anthropic_message(m: ChatMessage) -> JsonTree {
    match m {
        ChatMessage::User(content) => JsonTree::Object(
            json::no_entries().insert("role"@, t("user"@)).insert(
                "content"@,
                JsonTree::List(anthropic_user_parts(content@)),
            ),
        ),
        ChatMessage::Assistant(content) => JsonTree::Object(
            json::no_entries().insert("role"@, t("assistant"@)).insert(
                "content"@,
                JsonTree::List(anthropic_assistant_parts(content@)),
            ),
        ),
    }
}

/// Messages, for Anthropic: one for each.
pub open spec fn anthropic_messages(messages: Seq<ChatMessage>) -> Seq<JsonTree> {
    Seq::new(messages.len(), |i: int| anthropic_message(messages[i]))
}

/// Makes an object with one text.
fn object_with(key: &str, value: &str) -> (r: serde_json::Value)
    ensures
        json::json_tree(r) == JsonTree::Object(json::no_entries().insert(key@, t(value@))),
{
    let mut v = object_json();
    json_set(&mut v, key, text_json(value));
    v
}

/// Appends a value to a list of values.
proof fn lemma_push_tree(v: Seq<serde_json::Value>, x: serde_json::Value)
    ensures
        json::trees(v.push(x)) == json::trees(v).push(json::json_tree(x)),
{
    assert(json::trees(v.push(x)) =~= json::trees(v).push(json::json_tree(x)));
}

/// Writes the parts of a message of a user, for Anthropic.
fn write_user_parts(content: &Vec<UserContent>) -> (r: Vec<serde_json::Value>)
    ensures
        json::trees(r@) == anthropic_user_parts(content@),
{
    let mut out: Vec<serde_json::Value> = Vec::new();
    let n: usize = content.len();
    let mut i: usize = 0;
    assert(json::trees(out@) =~= Seq::<JsonTree>::empty());
    while i < n
        invariant
            n == content@.len(),
            i <= n,
            json::trees(out@) == anthropic_user_parts(content@.take(i as int)),
        decreases n - i,
    {
        proof {
            assert(content@.take(i + 1).drop_last() =~= content@.take(i as int));
            assert(content@.take(i + 1).last() == content@[i as int]);
        }
        match &content[i] {
            UserContent::Text(s) => {
                let mut v = object_with("type", "text");
                json_set(&mut v, "text", text_json(s.as_str()));
                proof {
                    lemma_push_tree(out@, v);
                }
                out.push(v);
            },
            UserContent::ToolResult(r) => {
                let mut v = object_with("type", "tool_result");
                json_set(&mut v, "tool_use_id", text_json(r.id.as_str()));
                let s = tool_result_content_to_string(&r.parts);
                json_set(&mut v, "content", text_json(s.as_str()));
                proof {
                    lemma_push_tree(out@, v);
                }
                out.push(v);
            },
            _ => {},
        }
        i = i + 1;
    }
    assert(content@.take(n as int) =~= content@);
    out
}

/// Writes the parts of a message of a model, for Anthropic.
fn write_assistant_parts(content: &Vec<AssistantContent>) -> (r: Vec<serde_json::Value>)
    ensures
        json::trees(r@) == anthropic_assistant_parts(content@),
{
    let mut out: Vec<serde_json::Value> = Vec::new();
    let n: usize = content.len();
    let mut i: usize = 0;
    assert(json::trees(out@) =~= Seq::<JsonTree>::empty());
    while i < n
        invariant
            n == content@.len(),
            i <= n,
            json::trees(out@) == anthropic_assistant_parts(content@.take(i as int)),
        decreases n - i,
    {
        proof {
            assert(content@.take(i + 1).drop_last() =~= content@.take(i as int));
            assert(content@.take(i + 1).last() == content@[i as int]);
        }
        match &content[i] {
            AssistantContent::Text(s) => {
                let mut v = object_with("type", "text");
                json_set(&mut v, "text", text_json(s.as_str()));
                proof {
                    lemma_push_tree(out@, v);
                }
                out.push(v);
            },
            AssistantContent::ToolCall(c) => {
                let mut v = object_with("type", "tool_use");
                json_set(&mut v, "id", text_json(c.id.as_str()));
                json_set(&mut v, "name", text_json(c.name.as_str()));
                json_set(&mut v, "input", copy_json(&c.arguments));
                proof {
                    lemma_push_tree(out@, v);
                }
                out.push(v);
            },
            _ => {},
        }
        i = i + 1;
    }
    assert(content@.take(n as int) =~= content@);
    out
}

/// Writes messages for Anthropic.
pub fn convert_messages_to_anthropic(messages: &Vec<ChatMessage>) -> (r: Vec<serde_json::Value>)
    ensures
        json::trees(r@) == anthropic_messages(messages@),
{
    let mut out: Vec<serde_json::Value> = Vec::new();
    let n: usize = messages.len();
    let mut i: usize = 0;
    while i < n
        invariant
            n == messages@.len(),
            i <= n,
            out@.len() == i,
            forall|j: int|
                0 <= j < i ==> json::json_tree(#[trigger] out@[j]) == anthropic_message(
                    messages@[j],
                ),
        decreases n - i,
    {
        let v = match &messages[i] {
            ChatMessage::User(content) => {
                let mut v = object_with("role", "user");
                json_set(&mut v, "content", list_json(write_user_parts(content)));
                v
            },
            ChatMessage::Assistant(content) => {
                let mut v = object_with("role", "assistant");
                json_set(&mut v, "content", list_json(write_assistant_parts(content)));
                v
            },
        };
        out.push(v);
        i = i + 1;
    }
    assert(json::trees(out@) =~= anthropic_messages(messages@));
    out
}

/// The messages of what a user says, for OpenAI: one for each part.
pub open spec fn openai_user(content: Seq<UserContent>) -> Seq<JsonTree>
    decreases content.len(),
{
    if content.len() == 0 {
        Seq::empty()
    } else {
        let rest = openai_user(content.drop_last());
        match content.last() {
            UserContent::Text(s) => rest.push(
                JsonTree::Object(
                    json::no_entries().insert("role"@, t("user"@)).insert("content"@, t(s@)),
                ),
            ),
            UserContent::ToolResult(r) => rest.push(
                JsonTree::Object(
                    json::no_entries().insert("role"@, t("tool"@)).insert(
                        "tool_call_id"@,
                        t(r.id@),
                    ).insert("content"@, t(result_text(r.parts@))),
                ),
            ),
            _ => rest,
        }
    }
}

/// A call of a tool, for OpenAI: its arguments are a JSON text.
pub open spec fn openai_call(c: ToolCall) -> JsonTree {
    JsonTree::Object(
        json::no_entries().insert("id"@, t(c.id@)).insert("type"@, t("function"@)).insert(
            "function"@,
            JsonTree::Object(
                json::no_entries().insert("name"@, t(c.name@)).insert(
                    "arguments"@,
                    t(json::json_text(c.arguments)),
                ),
            ),
        ),
    )
}

/// The calls of tools in what a model says, for OpenAI.
pub open spec fn openai_calls(content: Seq<AssistantContent>) -> Seq<JsonTree>
    decreases content.len(),
{
    if content.len() == 0 {
        Seq::empty()
    } else {
        match content.last() {
            AssistantContent::ToolCall(c) => openai_calls(content.drop_last()).push(openai_call(c)),
            _ => openai_calls(content.drop_last()),
        }
    }
}

/// The message of what a model says, for OpenAI: its texts, line by line, and its
/// calls, each where there are any.
pub open spec fn openai_assistant(content: Seq<AssistantContent>) -> JsonTree {
    let m = json::no_entries().insert("role"@, t("assistant"@));
    let m = if chat::said(content).len() > 0 {
        m.insert("content"@, t(text::join(chat::said(content), "\n"@)))
    } else {
        m
    };
    let m = if openai_calls(content).len() > 0 {
        m.insert("tool_calls"@, JsonTree::List(openai_calls(content)))
    } else {
        m
    };
    JsonTree::Object(m)
}

/// Messages, for OpenAI.
pub open spec fn openai_messages(messages: Seq<ChatMessage>) -> Seq<JsonTree>
    decreases messages.len(),
{
    if messages.len() == 0 {
        Seq::empty()
    } else {
        let rest = openai_messages(messages.drop_last());
        match messages.last() {
            ChatMessage::User(content) => rest + openai_user(content@),
            ChatMessage::Assistant(content) => rest.push(openai_assistant(content@)),
        }
    }
}

/// Writes the messages of what a user says, for OpenAI.
fn push_openai_user(out: &mut Vec<serde_json::Value>, content: &Vec<UserContent>)
    ensures
        json::trees(final(out)@) == json::trees(old(out)@) + openai_user(content@),
{
    let ghost before = json::trees(out@);
    let n: usize = content.len();
    let mut i: usize = 0;
    assert(before + openai_user(content@.take(0)) =~= before);
    while i < n
        invariant
            n == content@.len(),
            i <= n,
            json::trees(out@) == before + openai_user(content@.take(i as int)),
        decreases n - i,
    {
        proof {
            assert(content@.take(i + 1).drop_last() =~= content@.take(i as int));
            assert(content@.take(i + 1).last() == content@[i as int]);
        }
        match &content[i] {
            UserContent::Text(s) => {
                let mut v = object_with("role", "user");
                json_set(&mut v, "content", text_json(s.as_str()));
                proof {
                    lemma_push_tree(out@, v);
                }
                out.push(v);
            },
            UserContent::ToolResult(r) => {
                let mut v = object_with("role", "tool");
                json_set(&mut v, "tool_call_id", text_json(r.id.as_str()));
                let s = tool_result_content_to_string(&r.parts);
                json_set(&mut v, "content", text_json(s.as_str()));
                proof {
                    lemma_push_tree(out@, v);
                }
                out.push(v);
            },
            _ => {},
        }
        assert(json::trees(out@) =~= before + openai_user(content@.take(i + 1)));
        i = i + 1;
    }
    assert(content@.take(n as int) =~= content@);
}

/// Writes the calls of tools in what a model says, for OpenAI.
fn write_openai_calls(content: &Vec<AssistantContent>) -> (r: Vec<serde_json::Value>)
    ensures
        json::trees(r@) == openai_calls(content@),
{
    let mut out: Vec<serde_json::Value> = Vec::new();
    let n: usize = content.len();
    let mut i: usize = 0;
    assert(json::trees(out@) =~= Seq::<JsonTree>::empty());
    while i < n
        invariant
            n == content@.len(),
            i <= n,
            json::trees(out@) == openai_calls(content@.take(i as int)),
        decreases n - i,
    {
        proof {
            assert(content@.take(i + 1).drop_last() =~= content@.take(i as int));
            assert(content@.take(i + 1).last() == content@[i as int]);
        }
        match &content[i] {
            AssistantContent::ToolCall(c) => {
                let args = write_json(&c.arguments);
                let mut f = object_with("name", c.name.as_str());
                json_set(&mut f, "arguments", text_json(args.as_str()));
                let mut v = object_with("id", c.id.as_str());
                json_set(&mut v, "type", text_json("function"));
                json_set(&mut v, "function", f);
                proof {
                    lemma_push_tree(out@, v);
                }
                out.push(v);
            },
            _ => {},
        }
        i = i + 1;
    }
    assert(content@.take(n as int) =~= content@);
    out
}

/// Writes the message of what a model says, for OpenAI.
fn write_openai_assistant(content: &Vec<AssistantContent>) -> (r: serde_json::Value)
    ensures
        json::json_tree(r) == openai_assistant(content@),
{
    let texts = collect_said(content);
    let calls = write_openai_calls(content);
    let mut v = object_with("role", "assistant");
    assert(texts@.len() == text::texts(texts@).len());
    if texts.len() > 0 {
        let s = join_texts(&texts, "\n");
        json_set(&mut v, "content", text_json(s.as_str()));
    }
    assert(calls@.len() == json::trees(calls@).len());
    if calls.len() > 0 {
        json_set(&mut v, "tool_calls", list_json(calls));
    }
    v
}

/// Appends messages for OpenAI.
fn push_openai(out: &mut Vec<serde_json::Value>, messages: &Vec<ChatMessage>)
    ensures
        json::trees(final(out)@) == json::trees(old(out)@) + openai_messages(messages@),
{
    let ghost before = json::trees(out@);
    let n: usize = messages.len();
    let mut i: usize = 0;
    assert(before + openai_messages(messages@.take(0)) =~= before);
    while i < n
        invariant
            n == messages@.len(),
            i <= n,
            json::trees(out@) == before + openai_messages(messages@.take(i as int)),
        decreases n - i,
    {
        proof {
            assert(messages@.take(i + 1).drop_last() =~= messages@.take(i as int));
            assert(messages@.take(i + 1).last() == messages@[i as int]);
        }
        match &messages[i] {
            ChatMessage::User(content) => {
                push_openai_user(out, content);
            },
            ChatMessage::Assistant(content) => {
                let v = write_openai_assistant(content);
                proof {
                    lemma_push_tree(out@, v);
                }
                out.push(v);
            },
        }
        assert(json::trees(out@) =~= before + openai_messages(messages@.take(i + 1)));
        i = i + 1;
    }
    assert(messages@.take(n as int) =~= messages@);
}

/// Writes messages for OpenAI.
pub fn convert_messages_to_openai(messages: &Vec<ChatMessage>) -> (r: Vec<serde_json::Value>)
    ensures
        json::trees(r@) == openai_messages(messages@),
{
    let mut out: Vec<serde_json::Value> = Vec::new();
    push_openai(&mut out, messages);
    assert(json::trees(Seq::<serde_json::Value>::empty()) + openai_messages(messages@)
        =~= openai_messages(messages@));
    out
}

/// A tool, for Anthropic.
pub open spec fn anthropic_tool(d: ToolDefinition) -> JsonTree {
    JsonTree::Object(
        json::no_entries().insert("name"@, t(d.name@)).insert("description"@, t(d.description@)).insert(
            "input_schema"@,
            json::json_tree(d.parameters),
        ),
    )
}

/// A tool, for OpenAI.
pub open spec fn openai_tool(d: ToolDefinition) -> JsonTree {
    JsonTree::Object(
        json::no_entries().insert("type"@, t("function"@)).insert(
            "function"@,
            JsonTree::Object(
                json::no_entries().insert("name"@, t(d.name@)).insert(
                    "description"@,
                    t(d.description@),
                ).insert("parameters"@, json::json_tree(d.parameters)),
            ),
        ),
    )
}

/// An object with one more entry, where there is one.
pub open spec fn with_entry(
    m: Map<Seq<char>, JsonTree>,
    key: Seq<char>,
    value: Option<JsonTree>,
) -> Map<Seq<char>, JsonTree> {
    match value {
        Some(v) => m.insert(key, v),
        None => m,
    }
}

/// The temperature of a request.
pub open spec fn temperature(request: CompletionRequest) -> Option<JsonTree> {
    match request.temperature {
        Some(v) => Some(json::json_tree(v)),
        None => None,
    }
}

/// Tokens of an answer at most where a request names no number.
pub const DEFAULT_MAX_TOKENS: u64 = 4096;

/// The body of a request to Anthropic.
pub open spec fn anthropic_body_tree(model: Seq<char>, request: CompletionRequest) -> JsonTree {
    let m = json::no_entries().insert("model"@, t(model)).insert(
        "messages"@,
        JsonTree::List(anthropic_messages(request.chat_history@)),
    ).insert(
        "max_tokens"@,
        JsonTree::Unsigned(request.max_tokens.unwrap_or(DEFAULT_MAX_TOKENS)),
    );
    let m = with_entry(
        m,
        "system"@,
        match request.preamble {
            Some(p) => Some(t(p@)),
            None => None,
        },
    );
    let m = with_entry(m, "temperature"@, temperature(request));
    let m = if request.tools@.len() > 0 {
        m.insert(
            "tools"@,
            JsonTree::List(
                Seq::new(request.tools@.len(), |i: int| anthropic_tool(request.tools@[i])),
            ),
        )
    } else {
        m
    };
    JsonTree::Object(m)
}

/// Writes the body of a request to Anthropic.
pub fn anthropic_body(model: &str, request: &CompletionRequest) -> (r: serde_json::Value)
    ensures
        json::json_tree(r) == anthropic_body_tree(model@, *request),
{
    let mut body = object_with("model", model);
    json_set(
        &mut body,
        "messages",
        list_json(convert_messages_to_anthropic(&request.chat_history)),
    );
    json_set(
        &mut body,
        "max_tokens",
        number_json(request.max_tokens.unwrap_or(DEFAULT_MAX_TOKENS)),
    );
    if let Some(p) = &request.preamble {
        json_set(&mut body, "system", text_json(p.as_str()));
    }
    if let Some(v) = &request.temperature {
        json_set(&mut body, "temperature", copy_json(v));
    }
    let n: usize = request.tools.len();
    if n > 0 {
        let mut tools: Vec<serde_json::Value> = Vec::new();
        let mut i: usize = 0;
        while i < n
            invariant
                n == request.tools@.len(),
                i <= n,
                tools@.len() == i,
                forall|j: int|
                    0 <= j < i ==> json::json_tree(#[trigger] tools@[j]) == anthropic_tool(
                        request.tools@[j],
                    ),
            decreases n - i,
        {
            let d = &request.tools[i];
            let mut v = object_with("name", d.name.as_str());
            json_set(&mut v, "description", text_json(d.description.as_str()));
            json_set(&mut v, "input_schema", copy_json(&d.parameters));
            tools.push(v);
            i = i + 1;
        }
        assert(json::trees(tools@) =~= Seq::new(
            request.tools@.len(),
            |i: int| anthropic_tool(request.tools@[i]),
        ));
        json_set(&mut body, "tools", list_json(tools));
    }
    body
}

/// The system message of a request, for OpenAI.
pub open spec fn openai_system(preamble: Option<String>) -> Seq<JsonTree> {
    match preamble {
        Some(p) => seq![
            JsonTree::Object(
                json::no_entries().insert("role"@, t("system"@)).insert("content"@, t(p@)),
            ),
        ],
        None => Seq::empty(),
    }
}

/// The body of a request to OpenAI or OpenRouter.
pub open spec fn openai_body_tree(model: Seq<char>, request: CompletionRequest) -> JsonTree {
    let m = json::no_entries().insert("model"@, t(model)).insert(
        "messages"@,
        JsonTree::List(
            openai_system(request.preamble) + openai_messages(request.chat_history@),
        ),
    );
    let m = with_entry(
        m,
        "max_tokens"@,
        match request.max_tokens {
            Some(n) => Some(JsonTree::Unsigned(n)),
            None => None,
        },
    );
    let m = with_entry(m, "temperature"@, temperature(request));
    let m = if request.tools@.len() > 0 {
        m.insert(
            "tools"@,
            JsonTree::List(Seq::new(request.tools@.len(), |i: int| openai_tool(request.tools@[i]))),
        )
    } else {
        m
    };
    JsonTree::Object(m)
}

/// Writes the body of a request to OpenAI or OpenRouter.
pub fn openai_body(model: &str, request: &CompletionRequest) -> (r: serde_json::Value)
    ensures
        json::json_tree(r) == openai_body_tree(model@, *request),
{
    let mut messages: Vec<serde_json::Value> = Vec::new();
    assert(json::trees(messages@) =~= Seq::<JsonTree>::empty());
    if let Some(p) = &request.preamble {
        let mut v = object_with("role", "system");
        json_set(&mut v, "content", text_json(p.as_str()));
        messages.push(v);
    }
    assert(json::trees(messages@) =~= openai_system(request.preamble));
    push_openai(&mut messages, &request.chat_history);
    let mut body = object_with("model", model);
    json_set(&mut body, "messages", list_json(messages));
    if let Some(n) = request.max_tokens {
        json_set(&mut body, "max_tokens", number_json(n));
    }
    if let Some(v) = &request.temperature {
        json_set(&mut body, "temperature", copy_json(v));
    }
    let n: usize = request.tools.len();
    if n > 0 {
        let mut tools: Vec<serde_json::Value> = Vec::new();
        let mut i: usize = 0;
        while i < n
            invariant
                n == request.tools@.len(),
                i <= n,
                tools@.len() == i,
                forall|j: int|
                    0 <= j < i ==> json::json_tree(#[trigger] tools@[j]) == openai_tool(
                        request.tools@[j],
                    ),
            decreases n - i,
        {
            let d = &request.tools[i];
            let mut f = object_with("name", d.name.as_str());
            json_set(&mut f, "description", text_json(d.description.as_str()));
            json_set(&mut f, "parameters", copy_json(&d.parameters));
            let mut v = object_with("type", "function");
            json_set(&mut v, "function", f);
            tools.push(v);
            i = i + 1;
        }
        assert(json::trees(tools@) =~= Seq::new(
            request.tools@.len(),
            |i: int| openai_tool(request.tools@[i]),
        ));
        json_set(&mut body, "tools", list_json(tools));
    }
    body
}

// ---------------------------------------------------------------------------
// Answers
// ---------------------------------------------------------------------------

/// The tokens of a request and its answer.
#[derive(Clone, Copy, Debug, PartialEq, Eq, Structural)]
pub struct Usage {
    pub input_tokens: u64,
    pub output_tokens: u64,
    pub total_tokens: u64,
    pub cached_input_tokens: u64,
}

/// An answer of a model.
pub struct Completion {
    pub choice: Vec<AssistantContent>,
    pub usage: Usage,
}

/// A number that a value is, or 0.
pub open spec fn number_or_zero(v: JsonTree) -> u64 {
    match v {
        JsonTree::Unsigned(n) => n,
        _ => 0,
    }
}

/// A text that a value is, or an empty one.
pub open spec fn text_or_none(v: JsonTree) -> Seq<char> {
    match v {
        JsonTree::Text(s) => s,
        _ => Seq::empty(),
    }
}

/// A number that a value is, or 0.
fn read_number(v: &serde_json::Value) -> (r: u64)
    ensures
        r == number_or_zero(json::json_tree(*v)),
{
    match json_u64(v) {
        Some(n) => n,
        None => 0,
    }
}

/// A text that a value is, or an empty one.
fn read_text(v: &serde_json::Value) -> (r: String)
    ensures
        r@ == text_or_none(json::json_tree(*v)),
{
    match json_str(v) {
        Some(s) => s.to_owned(),
        None => String::new(),
    }
}

/// What is reported when a provider refuses a request: the message of its answer.
pub open spec fn refusal(provider: Seq<char>, status: Seq<char>, body: JsonTree) -> Seq<char> {
    let message = match json::as_text(json::at(json::at(body, "error"@), "message"@)) {
        Some(m) => m,
        None => "unknown error"@,
    };
    provider + " API error ("@ + status + "): "@ + message
}

/// Reports that a provider refused a request.
pub fn api_error(provider: &str, status: &str, body: &serde_json::Value) -> (r: String)
    ensures
        r@ == refusal(provider@, status@, json::json_tree(*body)),
{
    let message = match json_str(json_at(json_at(body, "error"), "message")) {
        Some(m) => m,
        None => "unknown error",
    };
    let mut out = cat3(provider, " API error (", status);
    out.append("): ");
    out.append(message);
    out
}

/// What a block of an answer of Anthropic says, where it is one that counts.
pub open spec fn anthropic_block(b: JsonTree) -> Option<ContentView> {
    match json::as_text(json::at(b, "type"@)) {
        Some(kind) => if kind == "text"@ {
            Some(ContentView::Text(text_or_none(json::at(b, "text"@))))
        } else if kind == "tool_use"@ {
            Some(
                ContentView::ToolCall {
                    id: text_or_none(json::at(b, "id"@)),
                    name: text_or_none(json::at(b, "name"@)),
                    arguments: json::at(b, "input"@),
                },
            )
        } else {
            None
        },
        None => None,
    }
}

/// What some blocks of an answer of Anthropic say.
pub open spec fn anthropic_content(blocks: Seq<JsonTree>) -> Seq<ContentView>
    decreases blocks.len(),
{
    if blocks.len() == 0 {
        Seq::empty()
    } else {
        let rest = anthropic_content(blocks.drop_last());
        match anthropic_block(blocks.last()) {
            Some(c) => rest.push(c),
            None => rest,
        }
    }
}

/// Tokens of an answer of Anthropic.
pub open spec fn anthropic_tokens(body: JsonTree, key: Seq<char>) -> u64 {
    number_or_zero(json::at(json::at(body, "usage"@), key))
}

/// The sum of the tokens stays in range.
pub open spec fn anthropic_usage_fits(body: JsonTree) -> bool {
    anthropic_tokens(body, "input_tokens"@) + anthropic_tokens(body, "output_tokens"@) <= u64::MAX
}

/// Whether the sum of the tokens of an answer of Anthropic stays in range.
pub fn check_anthropic_usage(body: &serde_json::Value) -> (r: bool)
    ensures
        r == anthropic_usage_fits(json::json_tree(*body)),
{
    let usage = json_at(body, "usage");
    let input: u64 = read_number(json_at(usage, "input_tokens"));
    let output: u64 = read_number(json_at(usage, "output_tokens"));
    input <= u64::MAX - output
}

/// What an answer of Anthropic is read as. It is refused where it has no list of
/// blocks, and where none of them counts.
pub open spec fn anthropic_reading(tree: JsonTree, r: Result<Completion, &'static str>) -> bool {
    match json::at(tree, "content"@) {
        JsonTree::List(blocks) => if anthropic_content(blocks).len() == 0 {
            r matches Err(e) && e@ == "empty response from Anthropic"@
        } else {
            r matches Ok(c) && chat::contents_view(c.choice@) == anthropic_content(blocks)
                && c.usage.input_tokens == anthropic_tokens(tree, "input_tokens"@)
                && c.usage.output_tokens == anthropic_tokens(tree, "output_tokens"@)
                && c.usage.total_tokens == c.usage.input_tokens + c.usage.output_tokens
                && c.usage.cached_input_tokens == anthropic_tokens(
                tree,
                "cache_read_input_tokens"@,
            )
        },
        _ => r matches Err(e) && e@ == "missing content array"@,
    }
}

/// Reads an answer of Anthropic. It fails where the answer has no list of blocks,
/// and where none of them counts.
pub fn parse_anthropic_response(body: &serde_json::Value) -> (r: Result<Completion, &'static str>)
    requires
        anthropic_usage_fits(json::json_tree(*body)),
    ensures
        anthropic_reading(json::json_tree(*body), r),
{
    let content = json_at(body, "content");
    let n: usize = match json_len(content) {
        Some(n) => n,
        None => {
            return Err("missing content array");
        },
    };
    let ghost blocks = json::json_tree(*content)->List_0;
    let mut choice: Vec<AssistantContent> = Vec::new();
    let mut i: usize = 0;
    assert(chat::contents_view(choice@) =~= Seq::<ContentView>::empty());
    while i < n
        invariant
            i <= n,
            json::json_tree(*content) == JsonTree::List(blocks),
            n == blocks.len(),
            chat::contents_view(choice@) == anthropic_content(blocks.take(i as int)),
        decreases n - i,
    {
        proof {
            assert(blocks.take(i + 1).drop_last() =~= blocks.take(i as int));
            assert(blocks.take(i + 1).last() == blocks[i as int]);
        }
        let block = json_item(content, i);
        let ghost before = choice@;
        if let Some(kind) = json_str(json_at(block, "type")) {
            if str_eq(kind, "text") {
                let c = AssistantContent::Text(read_text(json_at(block, "text")));
                choice.push(c);
                assert(chat::contents_view(choice@) =~= chat::contents_view(before).push(c@));
            } else if str_eq(kind, "tool_use") {
                let c = AssistantContent::ToolCall(
                    ToolCall {
                        id: read_text(json_at(block, "id")),
                        name: read_text(json_at(block, "name")),
                        arguments: copy_json(json_at(block, "input")),
                    },
                );
                choice.push(c);
                assert(chat::contents_view(choice@) =~= chat::contents_view(before).push(c@));
            }
        }
        i = i + 1;
    }
    assert(blocks.take(n as int) =~= blocks);
    assert(choice@.len() == chat::contents_view(choice@).len());
    if choice.len() == 0 {
        return Err("empty response from Anthropic");
    }
    let usage = json_at(body, "usage");
    let input_tokens: u64 = read_number(json_at(usage, "input_tokens"));
    let output_tokens: u64 = read_number(json_at(usage, "output_tokens"));
    let cached: u64 = read_number(json_at(usage, "cache_read_input_tokens"));
    Ok(
        Completion {
            choice,
            usage: Usage {
                input_tokens,
                output_tokens,
                total_tokens: input_tokens + output_tokens,
                cached_input_tokens: cached,
            },
        },
    )
}

/// The arguments of a call: the value of its JSON text, or an empty object.
pub open spec fn call_arguments(v: JsonTree) -> JsonTree {
    let parsed = match v {
        JsonTree::Text(s) => json::parsed_json(s),
        _ => None,
    };
    match parsed {
        Some(p) => p,
        None => JsonTree::Object(json::no_entries()),
    }
}

/// What a call in an answer of OpenAI says.
pub open spec fn openai_called(c: JsonTree) -> ContentView {
    ContentView::ToolCall {
        id: text_or_none(json::at(c, "id"@)),
        name: text_or_none(json::at(json::at(c, "function"@), "name"@)),
        arguments: call_arguments(json::at(json::at(c, "function"@), "arguments"@)),
    }
}

/// What a message of an answer of OpenAI says: its text, where it is not empty, and
/// its calls.
pub open spec fn openai_content(message: JsonTree) -> Seq<ContentView> {
    let said = match json::at(message, "content"@) {
        JsonTree::Text(s) => if s.len() > 0 {
            seq![ContentView::Text(s)]
        } else {
            Seq::empty()
        },
        _ => Seq::empty(),
    };
    let called = match json::at(message, "tool_calls"@) {
        JsonTree::List(calls) => Seq::new(calls.len(), |i: int| openai_called(calls[i])),
        _ => Seq::empty(),
    };
    said + called
}

/// The message of an answer of OpenAI.
pub open spec fn openai_message(body: JsonTree) -> JsonTree {
    json::at(json::item(json::at(body, "choices"@), 0), "message"@)
}

/// The sum of the tokens stays in range.
pub open spec fn openai_usage_fits(body: JsonTree) -> bool {
    anthropic_tokens(body, "prompt_tokens"@) + anthropic_tokens(body, "completion_tokens"@)
        <= u64::MAX
}

/// Whether the sum of the tokens of an answer of OpenAI stays in range.
pub fn check_openai_usage(body: &serde_json::Value) -> (r: bool)
    ensures
        r == openai_usage_fits(json::json_tree(*body)),
{
    let usage = json_at(body, "usage");
    let input: u64 = read_number(json_at(usage, "prompt_tokens"));
    let output: u64 = read_number(json_at(usage, "completion_tokens"));
    input <= u64::MAX - output
}

/// Reads the arguments of a call.
fn read_arguments(v: &serde_json::Value) -> (r: serde_json::Value)
    ensures
        json::json_tree(r) == call_arguments(json::json_tree(*v)),
{
    if let Some(s) = json_str(v) {
        if let Some(parsed) = parse_json(s) {
            return parsed;
        }
    }
    object_json()
}

/// What an answer of OpenAI or OpenRouter is read as. It is refused where it says
/// nothing.
pub open spec fn openai_reading(tree: JsonTree, r: Result<Completion, &'static str>) -> bool {
    let content = openai_content(openai_message(tree));
    if content.len() == 0 {
        r matches Err(e) && e@ == "empty response from OpenAI"@
    } else {
        r matches Ok(c) && chat::contents_view(c.choice@) == content && c.usage.input_tokens
            == anthropic_tokens(tree, "prompt_tokens"@) && c.usage.output_tokens
            == anthropic_tokens(tree, "completion_tokens"@) && c.usage.total_tokens
            == c.usage.input_tokens + c.usage.output_tokens && c.usage.cached_input_tokens
            == number_or_zero(
            json::at(
                json::at(json::at(tree, "usage"@), "prompt_tokens_details"@),
                "cached_tokens"@,
            ),
        )
    }
}

/// Reads an answer of OpenAI or OpenRouter. It fails where the answer says
/// nothing.
pub fn parse_openai_response(body: &serde_json::Value) -> (r: Result<Completion, &'static str>)
    requires
        openai_usage_fits(json::json_tree(*body)),
    ensures
        openai_reading(json::json_tree(*body), r),
{
    let message = json_at(json_item(json_at(body, "choices"), 0), "message");
    let ghost m = json::json_tree(*message);
    let mut choice: Vec<AssistantContent> = Vec::new();
    assert(chat::contents_view(choice@) =~= Seq::<ContentView>::empty());
    if let Some(s) = json_str(json_at(message, "content")) {
        if !s.is_empty() {
            choice.push(AssistantContent::Text(s.to_owned()));
            assert(chat::contents_view(choice@) =~= seq![ContentView::Text(s@)]);
        }
    }
    let ghost said = chat::contents_view(choice@);
    let calls = json_at(message, "tool_calls");
    if let Some(n) = json_len(calls) {
        let ghost list = json::json_tree(*calls)->List_0;
        let mut i: usize = 0;
        assert(said =~= said + Seq::new(0, |k: int| openai_called(list[k])));
        while i < n
            invariant
                i <= n,
                json::json_tree(*calls) == JsonTree::List(list),
                n == list.len(),
                chat::contents_view(choice@) == said + Seq::new(
                    i as nat,
                    |k: int| openai_called(list[k]),
                ),
            decreases n - i,
        {
            let tc = json_item(calls, i);
            let function = json_at(tc, "function");
            let c = AssistantContent::ToolCall(
                ToolCall {
                    id: read_text(json_at(tc, "id")),
                    name: read_text(json_at(function, "name")),
                    arguments: read_arguments(json_at(function, "arguments")),
                },
            );
            let ghost before = choice@;
            choice.push(c);
            assert(chat::contents_view(choice@) =~= chat::contents_view(before).push(c@));
            assert(chat::contents_view(choice@) =~= said + Seq::new(
                (i + 1) as nat,
                |k: int| openai_called(list[k]),
            ));
            i = i + 1;
        }
    }
    assert(chat::contents_view(choice@) =~= openai_content(m));
    assert(choice@.len() == chat::contents_view(choice@).len());
    if choice.len() == 0 {
        return Err("empty response from OpenAI");
    }
    let usage = json_at(body, "usage");
    let input_tokens: u64 = read_number(json_at(usage, "prompt_tokens"));
    let output_tokens: u64 = read_number(json_at(usage, "completion_tokens"));
    let cached: u64 = read_number(
        json_at(json_at(usage, "prompt_tokens_details"), "cached_tokens"),
    );
    Ok(
        Completion {
            choice,
            usage: Usage {
                input_tokens,
                output_tokens,
                total_tokens: input_tokens + output_tokens,
                cached_input_tokens: cached,
            },
        },
    )
}

/// What a model said is sent back to Anthropic as it came: a part that was read
/// from a block is written as a block that is read the same.
pub proof fn law_anthropic_parts_round_trip(c: AssistantContent)
    requires
        anthropic_assistant_part(c) is Some,
    ensures
        anthropic_block(anthropic_assistant_part(c)->0) == Some(c@),
{
    reveal_strlit("type");
    reveal_strlit("text");
    reveal_strlit("id");
    reveal_strlit("name");
    reveal_strlit("input");
    reveal_strlit("tool_use");
    assert("type"@[1] == 'y' && "text"@[1] == 'e' && "name"@[0] == 'n' && "type"@[0] == 't');
    assert("id"@.len() == 2 && "type"@.len() == 4 && "name"@.len() == 4 && "input"@.len() == 5);
    assert("text"@.len() == 4 && "tool_use"@.len() == 8);
}

/// The keys of a message differ.
proof fn lemma_message_keys()
    ensures
        "role"@ != "content"@,
        "role"@ != "tool_calls"@,
        "role"@ != "tool_call_id"@,
        "content"@ != "tool_calls"@,
        "content"@ != "tool_call_id"@,
        "tool_calls"@ != "tool_call_id"@,
{
    reveal_strlit("role");
    reveal_strlit("content");
    reveal_strlit("tool_calls");
    reveal_strlit("tool_call_id");
    assert("role"@.len() == 4);
    assert("content"@.len() == 7);
    assert("tool_calls"@.len() == 10);
    assert("tool_call_id"@.len() == 12);
}

/// The keys of a call differ.
proof fn lemma_call_keys()
    ensures
        "id"@ != "type"@,
        "id"@ != "function"@,
        "id"@ != "name"@,
        "id"@ != "arguments"@,
        "type"@ != "function"@,
        "type"@ != "name"@,
        "type"@ != "arguments"@,
        "function"@ != "name"@,
        "function"@ != "arguments"@,
        "name"@ != "arguments"@,
{
    reveal_strlit("id");
    reveal_strlit("type");
    reveal_strlit("function");
    reveal_strlit("name");
    reveal_strlit("arguments");
    assert("type"@[0] != "name"@[0]);
    assert("id"@.len() == 2);
    assert("type"@.len() == 4);
    assert("function"@.len() == 8);
    assert("name"@.len() == 4);
    assert("arguments"@.len() == 9);
}

/// The keys of a part differ.
proof fn lemma_part_keys()
    ensures
        "type"@ != "text"@,
        "type"@ != "id"@,
        "type"@ != "name"@,
        "type"@ != "input"@,
        "type"@ != "tool_use_id"@,
        "type"@ != "content"@,
        "text"@ != "id"@,
        "text"@ != "name"@,
        "text"@ != "input"@,
        "text"@ != "tool_use_id"@,
        "text"@ != "content"@,
        "id"@ != "name"@,
        "id"@ != "input"@,
        "id"@ != "tool_use_id"@,
        "id"@ != "content"@,
        "name"@ != "input"@,
        "name"@ != "tool_use_id"@,
        "name"@ != "content"@,
        "input"@ != "tool_use_id"@,
        "input"@ != "content"@,
        "tool_use_id"@ != "content"@,
{
    reveal_strlit("type");
    reveal_strlit("text");
    reveal_strlit("id");
    reveal_strlit("name");
    reveal_strlit("input");
    reveal_strlit("tool_use_id");
    reveal_strlit("content");
    assert("type"@[1] != "text"@[1]);
    assert("type"@[0] != "name"@[0]);
    assert("text"@[0] != "name"@[0]);
    assert("type"@.len() == 4);
    assert("text"@.len() == 4);
    assert("id"@.len() == 2);
    assert("name"@.len() == 4);
    assert("input"@.len() == 5);
    assert("tool_use_id"@.len() == 11);
    assert("content"@.len() == 7);
}

/// The keys of a body differ.
proof fn lemma_body_keys()
    ensures
        "model"@ != "messages"@,
        "model"@ != "max_tokens"@,
        "model"@ != "system"@,
        "model"@ != "temperature"@,
        "model"@ != "tools"@,
        "messages"@ != "max_tokens"@,
        "messages"@ != "system"@,
        "messages"@ != "temperature"@,
        "messages"@ != "tools"@,
        "max_tokens"@ != "system"@,
        "max_tokens"@ != "temperature"@,
        "max_tokens"@ != "tools"@,
        "system"@ != "temperature"@,
        "system"@ != "tools"@,
        "temperature"@ != "tools"@,
{
    reveal_strlit("model");
    reveal_strlit("messages");
    reveal_strlit("max_tokens");
    reveal_strlit("system");
    reveal_strlit("temperature");
    reveal_strlit("tools");
    assert("model"@[0] != "tools"@[0]);
    assert("model"@.len() == 5);
    assert("messages"@.len() == 8);
    assert("max_tokens"@.len() == 10);
    assert("system"@.len() == 6);
    assert("temperature"@.len() == 11);
    assert("tools"@.len() == 5);
}

/// The keys of a tool differ.
proof fn lemma_tool_keys()
    ensures
        "name"@ != "description"@,
        "name"@ != "input_schema"@,
        "name"@ != "parameters"@,
        "name"@ != "type"@,
        "name"@ != "function"@,
        "description"@ != "input_schema"@,
        "description"@ != "parameters"@,
        "description"@ != "type"@,
        "description"@ != "function"@,
        "input_schema"@ != "parameters"@,
        "input_schema"@ != "type"@,
        "input_schema"@ != "function"@,
        "parameters"@ != "type"@,
        "parameters"@ != "function"@,
        "type"@ != "function"@,
{
    reveal_strlit("name");
    reveal_strlit("description");
    reveal_strlit("input_schema");
    reveal_strlit("parameters");
    reveal_strlit("type");
    reveal_strlit("function");
    assert("name"@[0] != "type"@[0]);
    assert("name"@.len() == 4);
    assert("description"@.len() == 11);
    assert("input_schema"@.len() == 12);
    assert("parameters"@.len() == 10);
    assert("type"@.len() == 4);
    assert("function"@.len() == 8);
}

/// The kinds of parts differ.
proof fn lemma_part_kinds()
    ensures
        "text"@ != "tool_use"@,
        "text"@ != "tool_result"@,
        "tool_use"@ != "tool_result"@,
{
    reveal_strlit("text");
    reveal_strlit("tool_use");
    reveal_strlit("tool_result");
    assert("text"@.len() == 4);
    assert("tool_use"@.len() == 8);
    assert("tool_result"@.len() == 11);
}

/// What a model said, with one more part, for OpenAI: a text follows the texts before
/// it on a new line, a call follows the calls before it, and other parts change
/// nothing. Where nothing was said, or nothing was called, there is no such entry.
pub proof fn law_openai_keeps_what_was_said(content: Seq<AssistantContent>, c: AssistantContent)
    ensures
        ({
            let none = openai_assistant(Seq::empty());
            &&& json::at(none, "role"@) == JsonTree::Text("assistant"@)
            &&& json::at(none, "content"@) is Null
            &&& json::at(none, "tool_calls"@) is Null
        }),
        ({
            let before = openai_assistant(content);
            let after = openai_assistant(content.push(c));
            let said = json::at(before, "content"@);
            let called = json::at(before, "tool_calls"@);
            &&& json::at(after, "role"@) == JsonTree::Text("assistant"@)
            &&& said is Null || said is Text
            &&& called is Null || called is List
            &&& json::at(after, "content"@) == (match c {
                AssistantContent::Text(s) => match said {
                    JsonTree::Text(b) => JsonTree::Text(b + "\n"@ + s@),
                    _ => JsonTree::Text(s@),
                },
                _ => said,
            })
            &&& match c {
                AssistantContent::ToolCall(call) => {
                    let list = json::at(after, "tool_calls"@);
                    let more = list->List_0.last();
                    &&& list is List
                    &&& list->List_0.drop_last() == (match called {
                        JsonTree::List(l) => l,
                        _ => Seq::empty(),
                    })
                    &&& list->List_0.len() > 0
                    &&& json::at(more, "id"@) == JsonTree::Text(call.id@)
                    &&& json::at(more, "type"@) == JsonTree::Text("function"@)
                    &&& json::at(json::at(more, "function"@), "name"@) == JsonTree::Text(
                        call.name@,
                    )
                    &&& json::at(json::at(more, "function"@), "arguments"@) == JsonTree::Text(
                        json::json_text(call.arguments),
                    )
                },
                _ => json::at(after, "tool_calls"@) == called,
            }
        }),
{
    lemma_message_keys();
    lemma_call_keys();
    let after = content.push(c);
    assert(after.drop_last() =~= content);
    assert(after.last() == c);
    if let AssistantContent::Text(s) = c {
        let texts = chat::said(content);
        assert(texts.push(s@).drop_last() =~= texts);
        if texts.len() == 0 {
            assert(texts.push(s@)[0] == s@);
        }
    }
    if let AssistantContent::ToolCall(call) = c {
        assert(openai_calls(after).drop_last() =~= openai_calls(content));
        if openai_calls(content).len() == 0 {
            assert(openai_calls(content) =~= Seq::<JsonTree>::empty());
        }
    }
}

/// A call whose arguments are read as what was written: so they are but where they are
/// nested too deeply to be read.
pub open spec fn readable_call(c: AssistantContent) -> bool {
    c matches AssistantContent::ToolCall(call) && json::parsed_json(json::json_text(call.arguments))
        == Some(json::json_tree(call.arguments))
}

/// The calls of contents that are all calls.
proof fn lemma_all_calls(content: Seq<AssistantContent>)
    requires
        forall|i: int| 0 <= i < content.len() ==> #[trigger] content[i] is ToolCall,
    ensures
        chat::said(content).len() == 0,
        openai_calls(content).len() == content.len(),
        forall|i: int|
            0 <= i < content.len() ==> #[trigger] openai_calls(content)[i] == openai_call(
                content[i]->ToolCall_0,
            ),
    decreases content.len(),
{
    if content.len() > 0 {
        let rest = content.drop_last();
        assert forall|i: int| 0 <= i < rest.len() implies #[trigger] rest[i] is ToolCall by {
            assert(content[i] is ToolCall);
        }
        lemma_all_calls(rest);
        assert(content[content.len() - 1] is ToolCall);
    }
}

/// The texts and calls of a text that calls follow.
proof fn lemma_text_and_calls(content: Seq<AssistantContent>)
    requires
        content.len() > 0,
        content[0] is Text,
        forall|i: int| 1 <= i < content.len() ==> #[trigger] content[i] is ToolCall,
    ensures
        chat::said(content) =~= seq![content[0]->Text_0@],
        openai_calls(content).len() == content.len() - 1,
        forall|i: int|
            1 <= i < content.len() ==> openai_calls(content)[i - 1] == openai_call(
                (#[trigger] content[i])->ToolCall_0,
            ),
    decreases content.len(),
{
    let rest = content.drop_last();
    if rest.len() > 0 {
        assert forall|i: int| 1 <= i < rest.len() implies #[trigger] rest[i] is ToolCall by {
            assert(content[i] is ToolCall);
        }
        lemma_text_and_calls(rest);
        assert(content[content.len() - 1] is ToolCall);
        assert forall|i: int| 1 <= i < content.len() implies openai_calls(content)[i - 1]
            == openai_call((#[trigger] content[i])->ToolCall_0) by {
            if i < rest.len() {
                assert(rest[i] == content[i]);
            }
        }
    } else {
        assert(chat::said(rest) =~= Seq::<Seq<char>>::empty());
        assert(openai_calls(rest) =~= Seq::<JsonTree>::empty());
    }
}

/// What a model said survives the way to OpenAI and back: a text, where there is one,
/// and the calls that follow it are written as a message that is read as the same.
pub proof fn law_openai_round_trip(content: Seq<AssistantContent>)
    requires
        content.len() > 0,
        readable_call(content[0]) || (content[0] is Text && content[0]->Text_0@.len() > 0),
        forall|i: int| 1 <= i < content.len() ==> readable_call(#[trigger] content[i]),
    ensures
        openai_content(openai_assistant(content)) == chat::contents_view(content),
{
    lemma_message_keys();
    lemma_call_keys();
    let m = openai_assistant(content);
    let view = chat::contents_view(content);
    if content[0] is Text {
        assert forall|i: int| 1 <= i < content.len() implies #[trigger] content[i] is ToolCall by {
            assert(readable_call(content[i]));
        }
        lemma_text_and_calls(content);
        let s = content[0]->Text_0@;
        assert(text::join(seq![s], "\n"@) == s);
        assert(openai_content(m).len() == view.len());
        assert forall|i: int| 0 <= i < view.len() implies openai_content(m)[i] == view[i] by {
            if i > 0 {
                assert(readable_call(content[i]));
                assert(openai_calls(content)[i - 1] == openai_call(content[i]->ToolCall_0));
            }
        }
    } else {
        assert forall|i: int| 0 <= i < content.len() implies #[trigger] content[i] is ToolCall by {
            assert(readable_call(content[i]));
        }
        lemma_all_calls(content);
        assert forall|i: int| 0 <= i < view.len() implies openai_content(m)[i] == view[i] by {
            assert(readable_call(content[i]));
            assert(openai_calls(content)[i] == openai_call(content[i]->ToolCall_0));
        }
    }
    assert(openai_content(m) =~= view);
}

/// What a user said, with one more part, for OpenAI: a text becomes a message of the
/// user, the result of a tool one of the tool that names the call, and other parts none.
pub proof fn law_openai_keeps_what_a_user_said(content: Seq<UserContent>, c: UserContent)
    ensures
        openai_user(Seq::empty()).len() == 0,
        ({
            let before = openai_user(content);
            let after = openai_user(content.push(c));
            match c {
                UserContent::Text(s) => {
                    &&& after.len() == before.len() + 1
                    &&& after.drop_last() == before
                    &&& json::at(after.last(), "role"@) == JsonTree::Text("user"@)
                    &&& json::at(after.last(), "content"@) == JsonTree::Text(s@)
                },
                UserContent::ToolResult(r) => {
                    &&& after.len() == before.len() + 1
                    &&& after.drop_last() == before
                    &&& json::at(after.last(), "role"@) == JsonTree::Text("tool"@)
                    &&& json::at(after.last(), "tool_call_id"@) == JsonTree::Text(r.id@)
                    &&& json::at(after.last(), "content"@) == JsonTree::Text(
                        result_text(r.parts@),
                    )
                },
                _ => after == before,
            }
        }),
{
    lemma_message_keys();
    let after = content.push(c);
    assert(after.drop_last() =~= content);
    assert(after.last() == c);
    assert(openai_user(after).len() > 0 && openai_user(after).len() > openai_user(content).len()
        ==> openai_user(after).drop_last() =~= openai_user(content));
}

/// The result of a tool, with one more part: a text follows the texts before it on a
/// new line, and an image changes nothing.
pub proof fn law_result_keeps_texts(parts: Seq<ToolResultPart>, p: ToolResultPart)
    ensures
        result_text(Seq::empty()).len() == 0,
        p is Image ==> result_text(parts.push(p)) == result_text(parts),
        p matches ToolResultPart::Text(s) ==> result_text(parts.push(p)) == (if exists|i: int|
            0 <= i < parts.len() && #[trigger] parts[i] is Text {
            result_text(parts) + "\n"@ + s@
        } else {
            s@
        }),
{
    let after = parts.push(p);
    assert(after.drop_last() =~= parts);
    assert(after.last() == p);
    lemma_part_texts(parts);
    if let ToolResultPart::Text(s) = p {
        let texts = chat::part_texts(parts);
        assert(texts.push(s@).drop_last() =~= texts);
        if texts.len() == 0 {
            assert(texts.push(s@)[0] == s@);
        }
    }
}

/// There are texts among parts exactly where some part is one.
proof fn lemma_part_texts(parts: Seq<ToolResultPart>)
    ensures
        chat::part_texts(parts).len() > 0 <==> exists|i: int|
            0 <= i < parts.len() && #[trigger] parts[i] is Text,
    decreases parts.len(),
{
    if parts.len() > 0 {
        let rest = parts.drop_last();
        lemma_part_texts(rest);
        if chat::part_texts(rest).len() > 0 {
            let i = choose|i: int| 0 <= i < rest.len() && #[trigger] rest[i] is Text;
            assert(parts[i] is Text);
        }
        if exists|i: int| 0 <= i < parts.len() && #[trigger] parts[i] is Text {
            let i = choose|i: int| 0 <= i < parts.len() && #[trigger] parts[i] is Text;
            if i < rest.len() {
                assert(rest[i] is Text);
            }
        }
        if parts.last() is Text {
            assert(parts[parts.len() - 1] is Text);
        }
    }
}

/// The messages of a conversation are written one after the other: none is lost,
/// repeated or moved.
pub proof fn law_openai_messages_in_order(a: Seq<ChatMessage>, b: Seq<ChatMessage>)
    ensures
        openai_messages(a + b) == openai_messages(a) + openai_messages(b),
        a.len() == 1 && a[0] is User ==> openai_messages(a) == openai_user(a[0]->User_0@),
        a.len() == 1 && a[0] is Assistant ==> openai_messages(a) == seq![
            openai_assistant(a[0]->Assistant_0@),
        ],
    decreases b.len(),
{
    if b.len() == 0 {
        assert(a + b =~= a);
        assert(openai_messages(a) + openai_messages(b) =~= openai_messages(a));
    } else {
        let rest = b.drop_last();
        law_openai_messages_in_order(a, rest);
        assert((a + b).drop_last() =~= a + rest);
        assert((a + b).last() == b.last());
        assert(openai_messages(a + b) =~= openai_messages(a) + openai_messages(b));
    }
    if a.len() == 1 {
        assert(a.drop_last() =~= Seq::<ChatMessage>::empty());
        assert(openai_messages(a.drop_last()) =~= Seq::<JsonTree>::empty());
        match a[0] {
            ChatMessage::User(content) => {
                assert(openai_messages(a) =~= openai_user(content@));
            },
            ChatMessage::Assistant(content) => {
                assert(openai_messages(a) =~= seq![openai_assistant(content@)]);
            },
        }
    }
}

/// What a model said survives the way to Anthropic and back, where it is texts and
/// calls. Other parts are left out.
pub proof fn law_anthropic_round_trip(content: Seq<AssistantContent>)
    requires
        forall|i: int|
            0 <= i < content.len() ==> #[trigger] content[i] is Text || content[i] is ToolCall,
    ensures
        anthropic_content(anthropic_assistant_parts(content)) == chat::contents_view(content),
    decreases content.len(),
{
    let parts = anthropic_assistant_parts(content);
    let view = chat::contents_view(content);
    if content.len() > 0 {
        let rest = content.drop_last();
        let c = content.last();
        assert forall|i: int| 0 <= i < rest.len() implies #[trigger] rest[i] is Text
            || rest[i] is ToolCall by {
            assert(content[i] is Text || content[i] is ToolCall);
        }
        assert(content[content.len() - 1] is Text || content[content.len() - 1] is ToolCall);
        law_anthropic_round_trip(rest);
        law_anthropic_parts_round_trip(c);
        assert(parts.drop_last() =~= anthropic_assistant_parts(rest));
        assert(parts.last() == anthropic_assistant_part(c)->0);
        assert(view =~= chat::contents_view(rest).push(c@));
    } else {
        assert(view =~= Seq::<ContentView>::empty());
    }
}

/// One more part of what a user or a model said is one more part for Anthropic, where
/// it is a text, a call or the result of a tool; other parts are left out.
pub proof fn law_anthropic_parts_in_order(
    said: Seq<UserContent>,
    u: UserContent,
    answered: Seq<AssistantContent>,
    a: AssistantContent,
)
    ensures
        anthropic_user_parts(Seq::empty()).len() == 0,
        anthropic_assistant_parts(Seq::empty()).len() == 0,
        ({
            let before = anthropic_user_parts(said);
            let after = anthropic_user_parts(said.push(u));
            match u {
                UserContent::Text(s) => {
                    &&& after.len() == before.len() + 1
                    &&& after.drop_last() == before
                    &&& json::at(after.last(), "type"@) == JsonTree::Text("text"@)
                    &&& json::at(after.last(), "text"@) == JsonTree::Text(s@)
                },
                UserContent::ToolResult(r) => {
                    &&& after.len() == before.len() + 1
                    &&& after.drop_last() == before
                    &&& json::at(after.last(), "type"@) == JsonTree::Text("tool_result"@)
                    &&& json::at(after.last(), "tool_use_id"@) == JsonTree::Text(r.id@)
                    &&& json::at(after.last(), "content"@) == JsonTree::Text(
                        result_text(r.parts@),
                    )
                },
                _ => after == before,
            }
        }),
        ({
            let before = anthropic_assistant_parts(answered);
            let after = anthropic_assistant_parts(answered.push(a));
            match a {
                AssistantContent::Text(s) => {
                    &&& after.len() == before.len() + 1
                    &&& after.drop_last() == before
                    &&& json::at(after.last(), "type"@) == JsonTree::Text("text"@)
                    &&& json::at(after.last(), "text"@) == JsonTree::Text(s@)
                },
                AssistantContent::ToolCall(c) => {
                    &&& after.len() == before.len() + 1
                    &&& after.drop_last() == before
                    &&& json::at(after.last(), "type"@) == JsonTree::Text("tool_use"@)
                    &&& json::at(after.last(), "id"@) == JsonTree::Text(c.id@)
                    &&& json::at(after.last(), "name"@) == JsonTree::Text(c.name@)
                    &&& json::at(after.last(), "input"@) == json::json_tree(c.arguments)
                },
                _ => after == before,
            }
        }),
{
    lemma_part_keys();
    assert(said.push(u).drop_last() =~= said);
    assert(said.push(u).last() == u);
    assert(answered.push(a).drop_last() =~= answered);
    assert(answered.push(a).last() == a);
    let x = anthropic_user_parts(said);
    let y = anthropic_user_parts(said.push(u));
    assert(y.len() > x.len() ==> y.drop_last() =~= x);
    let x = anthropic_assistant_parts(answered);
    let y = anthropic_assistant_parts(answered.push(a));
    assert(y.len() > x.len() ==> y.drop_last() =~= x);
}

/// Every message of a conversation is one message for Anthropic, at the same place, of
/// the same speaker, and with the parts of what was said.
pub proof fn law_anthropic_messages_in_order(messages: Seq<ChatMessage>, i: int)
    requires
        0 <= i < messages.len(),
    ensures
        anthropic_messages(messages).len() == messages.len(),
        json::at(anthropic_messages(messages)[i], "role"@) == JsonTree::Text(
            if messages[i] is User {
                "user"@
            } else {
                "assistant"@
            },
        ),
        json::at(anthropic_messages(messages)[i], "content"@) == JsonTree::List(
            match messages[i] {
                ChatMessage::User(content) => anthropic_user_parts(content@),
                ChatMessage::Assistant(content) => anthropic_assistant_parts(content@),
            },
        ),
{
    lemma_message_keys();
}

/// The body of a request to Anthropic names the model, holds the conversation, and the
/// preamble, the temperature and the tools where there are any. The tokens of the
/// answer are bounded in any case.
pub proof fn law_anthropic_body_holds_the_request(model: Seq<char>, request: CompletionRequest)
    ensures
        ({
            let body = anthropic_body_tree(model, request);
            &&& json::at(body, "model"@) == JsonTree::Text(model)
            &&& json::at(body, "messages"@) == JsonTree::List(
                anthropic_messages(request.chat_history@),
            )
            &&& json::at(body, "max_tokens"@) == JsonTree::Unsigned(
                match request.max_tokens {
                    Some(n) => n,
                    None => 4096,
                },
            )
            &&& json::at(body, "system"@) == (match request.preamble {
                Some(p) => JsonTree::Text(p@),
                None => JsonTree::Null,
            })
            &&& json::at(body, "temperature"@) == (match request.temperature {
                Some(x) => json::json_tree(x),
                None => JsonTree::Null,
            })
            &&& (request.tools@.len() == 0 ==> json::at(body, "tools"@) is Null)
            &&& (request.tools@.len() > 0 ==> {
                let tools = json::at(body, "tools"@);
                &&& tools is List
                &&& tools->List_0.len() == request.tools@.len()
                &&& forall|i: int|
                    0 <= i < request.tools@.len() ==> {
                        let d = #[trigger] request.tools@[i];
                        &&& json::at(tools->List_0[i], "name"@) == JsonTree::Text(d.name@)
                        &&& json::at(tools->List_0[i], "description"@) == JsonTree::Text(
                            d.description@,
                        )
                        &&& json::at(tools->List_0[i], "input_schema"@) == json::json_tree(
                            d.parameters,
                        )
                    }
            })
        }),
{
    lemma_body_keys();
    lemma_tool_keys();
}

/// The body of a request to OpenAI names the model, holds the preamble as a message of
/// the system before the conversation, and the bound of tokens, the temperature and the
/// tools where there are any.
pub proof fn law_openai_body_holds_the_request(model: Seq<char>, request: CompletionRequest)
    ensures
        ({
            let body = openai_body_tree(model, request);
            let messages = json::at(body, "messages"@);
            let before: int = if request.preamble is Some { 1 } else { 0 };
            &&& json::at(body, "model"@) == JsonTree::Text(model)
            &&& messages is List
            &&& messages->List_0.skip(before) == openai_messages(request.chat_history@)
            &&& messages->List_0.len() == before + openai_messages(request.chat_history@).len()
            &&& (request.preamble matches Some(p) ==> json::at(messages->List_0[0], "role"@)
                == JsonTree::Text("system"@) && json::at(messages->List_0[0], "content"@)
                == JsonTree::Text(p@))
            &&& json::at(body, "max_tokens"@) == (match request.max_tokens {
                Some(n) => JsonTree::Unsigned(n),
                None => JsonTree::Null,
            })
            &&& json::at(body, "temperature"@) == (match request.temperature {
                Some(x) => json::json_tree(x),
                None => JsonTree::Null,
            })
            &&& (request.tools@.len() == 0 ==> json::at(body, "tools"@) is Null)
            &&& (request.tools@.len() > 0 ==> {
                let tools = json::at(body, "tools"@);
                &&& tools is List
                &&& tools->List_0.len() == request.tools@.len()
                &&& forall|i: int|
                    0 <= i < request.tools@.len() ==> {
                        let d = #[trigger] request.tools@[i];
                        let f = json::at(tools->List_0[i], "function"@);
                        &&& json::at(tools->List_0[i], "type"@) == JsonTree::Text("function"@)
                        &&& json::at(f, "name"@) == JsonTree::Text(d.name@)
                        &&& json::at(f, "description"@) == JsonTree::Text(d.description@)
                        &&& json::at(f, "parameters"@) == json::json_tree(d.parameters)
                    }
            })
        }),
{
    lemma_body_keys();
    lemma_tool_keys();
    lemma_message_keys();
    let messages = openai_system(request.preamble) + openai_messages(request.chat_history@);
    let before: int = if request.preamble is Some { 1 } else { 0 };
    assert(messages.skip(before) =~= openai_messages(request.chat_history@));
}

/// What an answer of OpenAI is read as: its text, where it is not empty, then its calls
/// in their order, with the tokens that it reports. A call whose arguments are no JSON
/// has none. An answer that says nothing is refused.
pub proof fn law_openai_answer_is_read(tree: JsonTree, r: Result<Completion, &'static str>)
    requires
        openai_reading(tree, r),
    ensures
        ({
            let m = json::at(json::item(json::at(tree, "choices"@), 0), "message"@);
            let s = json::at(m, "content"@);
            let calls = match json::at(m, "tool_calls"@) {
                JsonTree::List(l) => l,
                _ => Seq::empty(),
            };
            let usage = json::at(tree, "usage"@);
            let before: int = if s is Text && s->Text_0.len() > 0 { 1 } else { 0 };
            &&& (r is Ok <==> before + calls.len() > 0)
            &&& (r matches Ok(c) ==> {
                &&& c.choice@.len() == before + calls.len()
                &&& (before == 1 ==> c.choice@[0] is Text && c.choice@[0]->Text_0@ == s->Text_0)
                &&& forall|i: int|
                    0 <= i < calls.len() ==> {
                        let part = #[trigger] c.choice@[before + i];
                        let f = json::at(calls[i], "function"@);
                        &&& part is ToolCall
                        &&& (json::at(calls[i], "id"@) matches JsonTree::Text(id)
                            ==> part->ToolCall_0.id@ == id)
                        &&& (json::at(f, "name"@) matches JsonTree::Text(name)
                            ==> part->ToolCall_0.name@ == name)
                        &&& json::json_tree(part->ToolCall_0.arguments) == (match json::at(
                            f,
                            "arguments"@,
                        ) {
                            JsonTree::Text(a) => match json::parsed_json(a) {
                                Some(v) => v,
                                None => JsonTree::Object(Map::empty()),
                            },
                            _ => JsonTree::Object(Map::empty()),
                        })
                    }
                &&& (json::at(usage, "prompt_tokens"@) matches JsonTree::Unsigned(n)
                    ==> c.usage.input_tokens == n)
                &&& (json::at(usage, "completion_tokens"@) matches JsonTree::Unsigned(n)
                    ==> c.usage.output_tokens == n)
                &&& c.usage.total_tokens == c.usage.input_tokens + c.usage.output_tokens
                &&& (json::at(json::at(usage, "prompt_tokens_details"@), "cached_tokens"@) matches JsonTree::Unsigned(
                    n,
                ) ==> c.usage.cached_input_tokens == n)
            })
        }),
{
    let m = json::at(json::item(json::at(tree, "choices"@), 0), "message"@);
    let s = json::at(m, "content"@);
    let before: int = if s is Text && s->Text_0.len() > 0 { 1 } else { 0 };
    let calls = match json::at(m, "tool_calls"@) {
        JsonTree::List(l) => l,
        _ => Seq::empty(),
    };
    let content = openai_content(openai_message(tree));
    assert(content.len() == before + calls.len());
    if let Ok(c) = r {
        let view = chat::contents_view(c.choice@);
        if before == 1 {
            assert(view[0] == ContentView::Text(s->Text_0));
            assert(c.choice@[0]@ == view[0]);
        }
        assert forall|i: int| 0 <= i < calls.len() implies {
            let part = #[trigger] c.choice@[before + i];
            part@ == openai_called(calls[i])
        } by {
            assert(view[before + i] == content[before + i]);
        }
    }
}

/// What an answer of Anthropic is read as: its texts and calls in their order, with the
/// tokens that it reports. Blocks of another kind are left out, and an answer without
/// any of these is refused.
pub proof fn law_anthropic_answer_is_read(blocks: Seq<JsonTree>, b: JsonTree)
    ensures
        anthropic_content(Seq::empty()).len() == 0,
        ({
            let before = anthropic_content(blocks);
            let after = anthropic_content(blocks.push(b));
            let kind = json::at(b, "type"@);
            if kind == JsonTree::Text("text"@) {
                &&& after.len() == before.len() + 1
                &&& after.drop_last() == before
                &&& after.last() is Text
                &&& (json::at(b, "text"@) matches JsonTree::Text(s) ==> after.last()->Text_0 == s)
            } else if kind == JsonTree::Text("tool_use"@) {
                &&& after.len() == before.len() + 1
                &&& after.drop_last() == before
                &&& after.last() is ToolCall
                &&& (json::at(b, "id"@) matches JsonTree::Text(s) ==> after.last()->ToolCall_id == s)
                &&& (json::at(b, "name"@) matches JsonTree::Text(s) ==> after.last()->ToolCall_name
                    == s)
                &&& after.last()->ToolCall_arguments == json::at(b, "input"@)
            } else {
                after == before
            }
        }),
{
    lemma_part_kinds();
    let after = blocks.push(b);
    assert(after.drop_last() =~= blocks);
    assert(after.last() == b);
    let x = anthropic_content(blocks);
    let y = anthropic_content(after);
    assert(y.len() > x.len() ==> y.drop_last() =~= x);
}

/// An answer of Anthropic with blocks that count gives these, and the tokens that it
/// reports; without a list of blocks, or without one that counts, it is refused.
pub proof fn law_anthropic_tokens_are_read(tree: JsonTree, r: Result<Completion, &'static str>)
    requires
        anthropic_reading(tree, r),
    ensures
        ({
            let blocks = json::at(tree, "content"@);
            let usage = json::at(tree, "usage"@);
            &&& (r is Ok <==> blocks is List && anthropic_content(blocks->List_0).len() > 0)
            &&& (r matches Ok(c) ==> {
                &&& chat::contents_view(c.choice@) == anthropic_content(blocks->List_0)
                &&& (json::at(usage, "input_tokens"@) matches JsonTree::Unsigned(n)
                    ==> c.usage.input_tokens == n)
                &&& (json::at(usage, "output_tokens"@) matches JsonTree::Unsigned(n)
                    ==> c.usage.output_tokens == n)
                &&& c.usage.total_tokens == c.usage.input_tokens + c.usage.output_tokens
                &&& (json::at(usage, "cache_read_input_tokens"@) matches JsonTree::Unsigned(n)
                    ==> c.usage.cached_input_tokens == n)
            })
        }),
{
}

/// Why the answer of a provider gives no completion.
pub enum AnswerError {
    /// It is no JSON.
    Unreadable,
    /// The provider refuses the request, with a message.
    Refused(String),
    /// The answer lacks what it should say.
    Incomplete(&'static str),
    /// The sum of its tokens is out of range.
    TooManyTokens,
}

/// Reads the answer of Anthropic from its status and its text.
pub fn read_anthropic_answer(success: bool, status: &str, answer: &str) -> (r: Result<
    Completion,
    AnswerError,
>)
    ensures
        match json::parsed_json(answer@) {
            None => r matches Err(AnswerError::Unreadable),
            Some(tree) => if !success {
                r matches Err(AnswerError::Refused(m)) && m@ == refusal(
                    "Anthropic"@,
                    status@,
                    tree,
                )
            } else if !anthropic_usage_fits(tree) {
                r matches Err(AnswerError::TooManyTokens)
            } else {
                match r {
                    Ok(c) => anthropic_reading(tree, Ok(c)),
                    Err(AnswerError::Incomplete(e)) => anthropic_reading(tree, Err(e)),
                    Err(_) => false,
                }
            },
        },
{
    let body = match parse_json(answer) {
        Some(b) => b,
        None => {
            return Err(AnswerError::Unreadable);
        },
    };
    if !success {
        return Err(AnswerError::Refused(api_error("Anthropic", status, &body)));
    }
    if !check_anthropic_usage(&body) {
        return Err(AnswerError::TooManyTokens);
    }
    match parse_anthropic_response(&body) {
        Ok(c) => Ok(c),
        Err(e) => Err(AnswerError::Incomplete(e)),
    }
}

/// Reads the answer of OpenAI or OpenRouter from its status and its text.
pub fn read_openai_answer(provider: &str, success: bool, status: &str, answer: &str) -> (r: Result<
    Completion,
    AnswerError,
>)
    ensures
        match json::parsed_json(answer@) {
            None => r matches Err(AnswerError::Unreadable),
            Some(tree) => if !success {
                r matches Err(AnswerError::Refused(m)) && m@ == refusal(provider@, status@, tree)
            } else if !openai_usage_fits(tree) {
                r matches Err(AnswerError::TooManyTokens)
            } else {
                match r {
                    Ok(c) => openai_reading(tree, Ok(c)),
                    Err(AnswerError::Incomplete(e)) => openai_reading(tree, Err(e)),
                    Err(_) => false,
                }
            },
        },
{
    let body = match parse_json(answer) {
        Some(b) => b,
        None => {
            return Err(AnswerError::Unreadable);
        },
    };
    if !success {
        return Err(AnswerError::Refused(api_error(provider, status, &body)));
    }
    if !check_openai_usage(&body) {
        return Err(AnswerError::TooManyTokens);
    }
    match parse_openai_response(&body) {
        Ok(c) => Ok(c),
        Err(e) => Err(AnswerError::Incomplete(e)),
    }
}

/// A refused request is told with the provider, the status and the message of the answer,
/// or an unknown error where it has none.
pub proof fn law_refusals_are_told(
    provider: Seq<char>,
    status: Seq<char>,
    body: JsonTree,
    outer: Map<Seq<char>, JsonTree>,
    inner: Map<Seq<char>, JsonTree>,
    s: Seq<char>,
)
    requires
        body == JsonTree::Object(outer),
    ensures
        outer.contains_key("error"@) && outer["error"@] == JsonTree::Object(inner)
            && inner.contains_key("message"@) && inner["message"@] == JsonTree::Text(s) ==> refusal(
            provider,
            status,
            body,
        ) == provider + " API error ("@ + status + "): "@ + s,
        !outer.contains_key("error"@) ==> refusal(provider, status, body) == provider
            + " API error ("@ + status + "): "@ + "unknown error"@,
{
}

/// A number of tokens is that of the usage, and 0 where it is not told.
pub proof fn law_untold_tokens_are_none(
    body: Map<Seq<char>, JsonTree>,
    usage: Map<Seq<char>, JsonTree>,
    key: Seq<char>,
    n: u64,
)
    ensures
        !body.contains_key("usage"@) ==> anthropic_tokens(JsonTree::Object(body), key) == 0,
        body.contains_key("usage"@) && body["usage"@] == JsonTree::Object(usage) ==> {
            &&& (!usage.contains_key(key) ==> anthropic_tokens(JsonTree::Object(body), key) == 0)
            &&& (usage.contains_key(key) && usage[key] == JsonTree::Unsigned(n)
                ==> anthropic_tokens(JsonTree::Object(body), key) == n)
        },
{
}

} // verus!
