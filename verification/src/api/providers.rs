//! The model providers: which of them have a key, and how keys are set and
//! removed in the configuration file.
use crate::api::ApiError;
use crate::config::environment::EnvVars;
use crate::llm::model;
use crate::llm::routing::provider_from_model;
use crate::llm::routing::RoutingConfig;
use crate::llm::routing::RoutingView;
use crate::text;
use crate::text::{cat2, cat3, str_eq, strip_prefix, trim_text};
use crate::toml_doc;
use crate::toml_doc::{
    can_take_values, find_section, item_get, item_str, item_table_mut, parse_document,
    render_document, root_mut, set_in, subtable_mut, table_get_mut, table_remove, table_set,
    text_item,
};
use crate::toml_doc::TomlTree;
use vstd::prelude::*;

verus! {

/// A provider: its name, the name of its key in the `[llm]` section, and the
/// environment variable that can hold the key.
pub struct Provider {
    pub name: &'static str,
    pub key: &'static str,
    pub env_var: &'static str,
}

/// What a [`Provider`] says.
pub struct ProviderView {
    pub name: Seq<char>,
    pub key: Seq<char>,
    pub env_var: Seq<char>,
}

impl View for Provider {
    type V = ProviderView;

    open spec fn view(&self) -> ProviderView {
        ProviderView { name: self.name@, key: self.key@, env_var: self.env_var@ }
    }
}

/// The providers, in the order in which they are listed.
pub open spec fn provider_table() -> Seq<ProviderView> {
    seq![
        ProviderView { name: "anthropic"@, key: "anthropic_key"@, env_var: "ANTHROPIC_API_KEY"@ },
        ProviderView { name: "openai"@, key: "openai_key"@, env_var: "OPENAI_API_KEY"@ },
        ProviderView {
            name: "openrouter"@,
            key: "openrouter_key"@,
            env_var: "OPENROUTER_API_KEY"@,
        },
        ProviderView { name: "zhipu"@, key: "zhipu_key"@, env_var: "ZHIPU_API_KEY"@ },
        ProviderView { name: "groq"@, key: "groq_key"@, env_var: "GROQ_API_KEY"@ },
        ProviderView { name: "together"@, key: "together_key"@, env_var: "TOGETHER_API_KEY"@ },
        ProviderView { name: "fireworks"@, key: "fireworks_key"@, env_var: "FIREWORKS_API_KEY"@ },
        ProviderView { name: "deepseek"@, key: "deepseek_key"@, env_var: "DEEPSEEK_API_KEY"@ },
        ProviderView { name: "xai"@, key: "xai_key"@, env_var: "XAI_API_KEY"@ },
        ProviderView { name: "mistral"@, key: "mistral_key"@, env_var: "MISTRAL_API_KEY"@ },
        ProviderView {
            name: "opencode-zen"@,
            key: "opencode_zen_key"@,
            env_var: "OPENCODE_ZEN_API_KEY"@,
        },
    ]
}

/// Makes an entry of the table.
fn provider(name: &'static str, key: &'static str, env_var: &'static str) -> (r: Provider)
    ensures
        r@ == (ProviderView { name: name@, key: key@, env_var: env_var@ }),
{
    Provider { name, key, env_var }
}

/// The providers, in the order in which they are listed.
pub fn providers() -> (r: Vec<Provider>)
    ensures
        r@.len() == provider_table().len(),
        forall|i: int| 0 <= i < r@.len() ==> (#[trigger] r@[i])@ == provider_table()[i],
{
    let mut v: Vec<Provider> = Vec::new();
    v.push(provider("anthropic", "anthropic_key", "ANTHROPIC_API_KEY"));
    v.push(provider("openai", "openai_key", "OPENAI_API_KEY"));
    v.push(provider("openrouter", "openrouter_key", "OPENROUTER_API_KEY"));
    v.push(provider("zhipu", "zhipu_key", "ZHIPU_API_KEY"));
    v.push(provider("groq", "groq_key", "GROQ_API_KEY"));
    v.push(provider("together", "together_key", "TOGETHER_API_KEY"));
    v.push(provider("fireworks", "fireworks_key", "FIREWORKS_API_KEY"));
    v.push(provider("deepseek", "deepseek_key", "DEEPSEEK_API_KEY"));
    v.push(provider("xai", "xai_key", "XAI_API_KEY"));
    v.push(provider("mistral", "mistral_key", "MISTRAL_API_KEY"));
    v.push(provider("opencode-zen", "opencode_zen_key", "OPENCODE_ZEN_API_KEY"));
    v
}

/// The key of a provider, by its name, in part of the table.
pub open spec fn key_in(table: Seq<ProviderView>, name: Seq<char>) -> Option<Seq<char>>
    decreases table.len(),
{
    if table.len() == 0 {
        None
    } else if table[0].name == name {
        Some(table[0].key)
    } else {
        key_in(table.drop_first(), name)
    }
}

/// The name of the key of a provider.
pub open spec fn key_name(provider: Seq<char>) -> Option<Seq<char>> {
    key_in(provider_table(), provider)
}

/// The name of the key of a provider.
pub fn provider_key(name: &str) -> (r: Option<&'static str>)
    ensures
        match r {
            Some(k) => key_name(name@) == Some(k@),
            None => key_name(name@) is None,
        },
{
    let v = providers();
    let n: usize = v.len();
    let mut i: usize = 0;
    assert(provider_table().skip(0) =~= provider_table());
    while i < n
        invariant
            n == v@.len(),
            n == provider_table().len(),
            i <= n,
            forall|j: int| 0 <= j < n ==> (#[trigger] v@[j])@ == provider_table()[j],
            key_name(name@) == key_in(provider_table().skip(i as int), name@),
        decreases n - i,
    {
        proof {
            assert(provider_table().skip(i as int)[0] == provider_table()[i as int]);
            assert(provider_table().skip(i as int).drop_first() =~= provider_table().skip(i + 1));
            assert(v@[i as int]@ == provider_table()[i as int]);
        }
        if str_eq(v[i].name, name) {
            return Some(v[i].key);
        }
        i = i + 1;
    }
    None
}

/// The key of a provider that a document holds, where it is a text.
pub open spec fn key_text(doc: Map<Seq<char>, TomlTree>, key: Seq<char>) -> Option<Seq<char>> {
    match toml_doc::section(doc, "llm"@, key) {
        Some(part) => toml_doc::tree_text(part),
        None => None,
    }
}

/// A provider has a key: a text in the document that is not empty, or that names
/// a variable that is set; or, without a text there, a variable of its own.
pub open spec fn has_key(
    doc: Map<Seq<char>, TomlTree>,
    env: EnvVars,
    provider: ProviderView,
) -> bool {
    match key_text(doc, provider.key) {
        Some(s) => match text::after_prefix(s, "env:"@) {
            Some(var) => env.value(var) is Some,
            None => s.len() > 0,
        },
        None => env.value(provider.env_var) is Some,
    }
}

/// Whether a provider has a key.
fn check_key(doc: &toml_edit::DocumentMut, env: &EnvVars, provider: &Provider) -> (r: bool)
    ensures
        r == has_key(toml_doc::doc_tree(*doc), *env, provider@),
{
    if let Some(item) = find_section(doc, "llm", provider.key) {
        if let Some(s) = item_str(item) {
            return match strip_prefix(s, "env:") {
                Some(var) => env.is_set(var.as_str()),
                None => !s.is_empty(),
            };
        }
    }
    env.is_set(provider.env_var)
}

/// The names of the providers in part of the table that have a key.
pub open spec fn with_keys(
    table: Seq<ProviderView>,
    doc: Map<Seq<char>, TomlTree>,
    env: EnvVars,
) -> Seq<Seq<char>>
    decreases table.len(),
{
    if table.len() == 0 {
        Seq::empty()
    } else {
        let rest = with_keys(table.drop_last(), doc, env);
        if has_key(doc, env, table.last()) {
            rest.push(table.last().name)
        } else {
            rest
        }
    }
}

/// The names of the providers that have a key in the text of the configuration
/// file. There are none where there is no file, or where it cannot be read.
pub fn configured_providers(content: Option<&str>, env: &EnvVars) -> (r: Vec<&'static str>)
    ensures
        r@.map_values(|s: &'static str| s@) == (match content {
            Some(c) => match toml_doc::parsed_document(c@) {
                Some(doc) => with_keys(provider_table(), doc, *env),
                None => Seq::empty(),
            },
            None => Seq::empty(),
        }),
{
    let mut out: Vec<&'static str> = Vec::new();
    assert(out@.map_values(|s: &'static str| s@) =~= Seq::<Seq<char>>::empty());
    let c = match content {
        Some(c) => c,
        None => {
            return out;
        },
    };
    let doc = match parse_document(c) {
        Some(d) => d,
        None => {
            return out;
        },
    };
    let ghost tree = toml_doc::doc_tree(doc);
    let v = providers();
    let n: usize = v.len();
    let mut i: usize = 0;
    while i < n
        invariant
            n == v@.len(),
            n == provider_table().len(),
            i <= n,
            tree == toml_doc::doc_tree(doc),
            forall|j: int| 0 <= j < n ==> (#[trigger] v@[j])@ == provider_table()[j],
            out@.map_values(|s: &'static str| s@) == with_keys(
                provider_table().take(i as int),
                tree,
                *env,
            ),
        decreases n - i,
    {
        proof {
            assert(provider_table().take(i + 1).drop_last() =~= provider_table().take(i as int));
            assert(provider_table().take(i + 1).last() == provider_table()[i as int]);
            assert(v@[i as int]@ == provider_table()[i as int]);
        }
        if check_key(&doc, env, &v[i]) {
            let ghost before = out@;
            out.push(v[i].name);
            assert(out@.map_values(|s: &'static str| s@) =~= before.map_values(
                |s: &'static str| s@,
            ).push(provider_table()[i as int].name));
        }
        i = i + 1;
    }
    assert(provider_table().take(n as int) =~= provider_table());
    out
}

/// Which providers have a key.
#[derive(Clone, Copy, Debug, PartialEq, Eq, Structural)]
pub struct ProviderStatus {
    pub anthropic: bool,
    pub openai: bool,
    pub openrouter: bool,
    pub zhipu: bool,
    pub groq: bool,
    pub together: bool,
    pub fireworks: bool,
    pub deepseek: bool,
    pub xai: bool,
    pub mistral: bool,
    pub opencode_zen: bool,
}

/// Which providers have a key, and whether any has.
#[derive(Clone, Copy, Debug, PartialEq, Eq, Structural)]
pub struct ProvidersResponse {
    pub providers: ProviderStatus,
    pub has_any: bool,
}

/// The status of the providers for a document.
pub open spec fn status_in(doc: Map<Seq<char>, TomlTree>, env: EnvVars) -> ProviderStatus {
    let t = provider_table();
    ProviderStatus {
        anthropic: has_key(doc, env, t[0]),
        openai: has_key(doc, env, t[1]),
        openrouter: has_key(doc, env, t[2]),
        zhipu: has_key(doc, env, t[3]),
        groq: has_key(doc, env, t[4]),
        together: has_key(doc, env, t[5]),
        fireworks: has_key(doc, env, t[6]),
        deepseek: has_key(doc, env, t[7]),
        xai: has_key(doc, env, t[8]),
        mistral: has_key(doc, env, t[9]),
        opencode_zen: has_key(doc, env, t[10]),
    }
}

/// Some provider has a key.
pub open spec fn any_of(s: ProviderStatus) -> bool {
    s.anthropic || s.openai || s.openrouter || s.zhipu || s.groq || s.together || s.fireworks
        || s.deepseek || s.xai || s.mistral || s.opencode_zen
}

/// Finds out which providers have a key, from a document and the environment.
pub fn document_providers(doc: &toml_edit::DocumentMut, env: &EnvVars) -> (r: ProviderStatus)
    ensures
        r == status_in(toml_doc::doc_tree(*doc), *env),
{
    let v = providers();
    assert forall|i: int| 0 <= i < 11 implies (#[trigger] v@[i])@ == provider_table()[i] by {}
    ProviderStatus {
        anthropic: check_key(doc, env, &v[0]),
        openai: check_key(doc, env, &v[1]),
        openrouter: check_key(doc, env, &v[2]),
        zhipu: check_key(doc, env, &v[3]),
        groq: check_key(doc, env, &v[4]),
        together: check_key(doc, env, &v[5]),
        fireworks: check_key(doc, env, &v[6]),
        deepseek: check_key(doc, env, &v[7]),
        xai: check_key(doc, env, &v[8]),
        mistral: check_key(doc, env, &v[9]),
        opencode_zen: check_key(doc, env, &v[10]),
    }
}

/// Finds out which providers have a key in the environment alone.
fn environment_providers(env: &EnvVars) -> (r: ProviderStatus)
    ensures
        r == status_in(toml_doc::no_parts(), *env),
{
    ProviderStatus {
        anthropic: env.is_set("ANTHROPIC_API_KEY"),
        openai: env.is_set("OPENAI_API_KEY"),
        openrouter: env.is_set("OPENROUTER_API_KEY"),
        zhipu: env.is_set("ZHIPU_API_KEY"),
        groq: env.is_set("GROQ_API_KEY"),
        together: env.is_set("TOGETHER_API_KEY"),
        fireworks: env.is_set("FIREWORKS_API_KEY"),
        deepseek: env.is_set("DEEPSEEK_API_KEY"),
        xai: env.is_set("XAI_API_KEY"),
        mistral: env.is_set("MISTRAL_API_KEY"),
        opencode_zen: env.is_set("OPENCODE_ZEN_API_KEY"),
    }
}

/// Which providers have a key, from the text of the configuration file, where
/// there is one, and the environment.
pub fn get_providers(content: Option<&str>, env: &EnvVars) -> (r: Result<
    ProvidersResponse,
    ApiError,
>)
    ensures
        match content {
            Some(c) => match toml_doc::parsed_document(c@) {
                Some(doc) => r is Ok && r->Ok_0.providers == status_in(doc, *env),
                None => r == Err::<ProvidersResponse, _>(ApiError::Internal),
            },
            None => r is Ok && r->Ok_0.providers == status_in(toml_doc::no_parts(), *env),
        },
        r is Ok ==> r->Ok_0.has_any == any_of(r->Ok_0.providers),
{
    let s = match content {
        Some(c) => match parse_document(c) {
            Some(doc) => document_providers(&doc, env),
            None => {
                return Err(ApiError::Internal);
            },
        },
        None => environment_providers(env),
    };
    let has_any = s.anthropic || s.openai || s.openrouter || s.zhipu || s.groq || s.together
        || s.fireworks || s.deepseek || s.xai || s.mistral || s.opencode_zen;
    Ok(ProvidersResponse { providers: s, has_any })
}

/// What is answered to a change of a provider, with the new text of the
/// configuration file where it changes.
pub struct ProviderUpdated {
    pub content: Option<String>,
    pub success: bool,
    pub message: String,
}

/// A refusal with a message: nothing is changed.
pub open spec fn refuses(r: Result<ProviderUpdated, ApiError>, message: Seq<char>) -> bool {
    r is Ok && r->Ok_0.content is None && !r->Ok_0.success && r->Ok_0.message@ == message
}

/// The model that channels are routed to in a document, where it says one.
pub open spec fn routed_model(doc: Map<Seq<char>, TomlTree>) -> Option<Seq<char>> {
    match toml_doc::section(doc, "defaults"@, "routing"@) {
        Some(routing) => match toml_doc::part_of(routing, "channel"@) {
            Some(part) => toml_doc::tree_text(part),
            None => None,
        },
        None => None,
    }
}

/// The provider that channels are routed to in a document. The built-in model is one
/// of Anthropic.
pub open spec fn routed_provider(doc: Map<Seq<char>, TomlTree>) -> Seq<char> {
    match routed_model(doc) {
        Some(s) => model::name_parts(s).0,
        None => "anthropic"@,
    }
}

/// The provider that channels are routed to in a document.
pub fn document_provider(doc: &toml_edit::DocumentMut) -> (r: String)
    ensures
        r@ == routed_provider(toml_doc::doc_tree(*doc)),
{
    if let Some(routing) = find_section(doc, "defaults", "routing") {
        if let Some(channel) = item_get(routing, "channel") {
            if let Some(s) = item_str(channel) {
                return provider_from_model(s);
            }
        }
    }
    "anthropic".to_owned()
}

/// A document with the key of a provider.
pub open spec fn with_key(
    doc: Map<Seq<char>, TomlTree>,
    key: Seq<char>,
    value: Seq<char>,
) -> Map<Seq<char>, TomlTree> {
    toml_doc::with_in(doc, "llm"@, key, TomlTree::Text(value))
}

/// The document holds no key for a provider, or an empty one.
pub open spec fn lacks_key(doc: Map<Seq<char>, TomlTree>, provider: Seq<char>) -> bool {
    match key_name(provider) {
        Some(key) => match key_text(doc, key) {
            Some(s) => s.len() == 0,
            None => true,
        },
        None => true,
    }
}

/// A routing table with the five models of a routing.
pub open spec fn with_models(
    table: Map<Seq<char>, TomlTree>,
    routing: RoutingView,
) -> Map<Seq<char>, TomlTree> {
    table.insert("channel"@, TomlTree::Text(routing.channel)).insert(
        "branch"@,
        TomlTree::Text(routing.branch),
    ).insert("worker"@, TomlTree::Text(routing.worker)).insert(
        "compactor"@,
        TomlTree::Text(routing.compactor),
    ).insert("cortex"@, TomlTree::Text(routing.cortex))
}

/// A document with the models of a routing as the defaults. It stays as it is
/// where something else stands in the place of the tables.
pub open spec fn with_routing(
    doc: Map<Seq<char>, TomlTree>,
    routing: RoutingView,
) -> Map<Seq<char>, TomlTree> {
    match toml_doc::table_or_new(doc, "defaults"@) {
        Some(defaults) => match toml_doc::table_or_new(defaults, "routing"@) {
            Some(table) => doc.insert(
                "defaults"@,
                TomlTree::Table(
                    defaults.insert("routing"@, TomlTree::Table(with_models(table, routing))),
                ),
            ),
            None => doc,
        },
        None => doc,
    }
}

/// A document after the key of a provider was set, and whether the routing changed:
/// it is set to the provider's defaults where it points to a provider that the
/// document has no key for.
pub open spec fn with_provider(
    doc: Map<Seq<char>, TomlTree>,
    key: Seq<char>,
    value: Seq<char>,
    routing: RoutingView,
) -> (bool, Map<Seq<char>, TomlTree>) {
    let keyed = with_key(doc, key, value);
    if lacks_key(keyed, routed_provider(keyed)) {
        (true, with_routing(keyed, routing))
    } else {
        (false, keyed)
    }
}

/// Writes the models of a routing as the defaults.
fn write_routing(doc: &mut toml_edit::DocumentMut, routing: &RoutingConfig)
    ensures
        toml_doc::doc_tree(*final(doc)) == with_routing(toml_doc::doc_tree(*old(doc)), routing@),
{
    let ghost before = toml_doc::doc_tree(*doc);
    assert(before.contains_key("defaults"@) ==> before.insert("defaults"@, before["defaults"@])
        =~= before);
    if let Some(defaults) = subtable_mut(root_mut(doc), "defaults") {
        if let Some(table) = subtable_mut(defaults, "routing") {
            table_set(table, "channel", text_item(routing.channel.as_str()));
            table_set(table, "branch", text_item(routing.branch.as_str()));
            table_set(table, "worker", text_item(routing.worker.as_str()));
            table_set(table, "compactor", text_item(routing.compactor.as_str()));
            table_set(table, "cortex", text_item(routing.cortex.as_str()));
        }
    }
}

/// Whether the document holds no key for a provider, or an empty one.
fn check_routing(doc: &toml_edit::DocumentMut, provider: &str) -> (r: bool)
    ensures
        r == lacks_key(toml_doc::doc_tree(*doc), provider@),
{
    match provider_key(provider) {
        Some(key) => match find_section(doc, "llm", key) {
            Some(item) => match item_str(item) {
                Some(s) => s.is_empty(),
                None => true,
            },
            None => true,
        },
        None => true,
    }
}

/// Sets the key of a provider in a document. Says whether the routing was set to
/// the provider's defaults too.
pub fn set_provider(
    doc: &mut toml_edit::DocumentMut,
    key: &str,
    value: &str,
    routing: &RoutingConfig,
) -> (r: bool)
    requires
        toml_doc::takes_values(toml_doc::doc_tree(*old(doc)), "llm"@),
    ensures
        (r, toml_doc::doc_tree(*final(doc))) == with_provider(
            toml_doc::doc_tree(*old(doc)),
            key@,
            value@,
            routing@,
        ),
{
    set_in(doc, "llm", key, text_item(value));
    let current = document_provider(doc);
    let set_routing = check_routing(doc, current.as_str());
    if set_routing {
        write_routing(doc, routing);
    }
    set_routing
}

/// Says that a provider is unknown.
pub open spec fn unknown_message(provider: Seq<char>) -> Seq<char> {
    "Unknown provider: "@ + provider
}

/// Says that a provider was configured, and whether the routing changed.
pub open spec fn configured_message(provider: Seq<char>, routed: bool) -> Seq<char> {
    let note = if routed {
        " Model routing updated to use "@ + provider + " defaults."@
    } else {
        Seq::empty()
    };
    "Provider '"@ + provider + "' configured."@ + note
}

/// A request to set the key of a provider.
pub struct ProviderUpdateRequest {
    pub provider: String,
    pub api_key: String,
}

/// Sets the key of a provider in the text of the configuration file. `routing` are
/// the defaults of the requested provider: they are written where the routing points
/// to a provider that the file has no key for. It fails where the text is no
/// document, and where its `llm` part is no table.
pub fn update_provider(
    content: &str,
    request: &ProviderUpdateRequest,
    routing: &RoutingConfig,
) -> (r: Result<ProviderUpdated, ApiError>)
    ensures
        match key_name(request.provider@) {
            None => refuses(r, unknown_message(request.provider@)),
            Some(key) => if text::trim(request.api_key@).len() == 0 {
                refuses(r, "API key cannot be empty"@)
            } else {
                match toml_doc::parsed_document(content@) {
                    None => r == Err::<ProviderUpdated, _>(ApiError::Internal),
                    Some(doc) => if !toml_doc::takes_values(doc, "llm"@) {
                        r == Err::<ProviderUpdated, _>(ApiError::Internal)
                    } else {
                        let after = with_provider(doc, key, request.api_key@, routing@);
                        r is Ok && r->Ok_0.success && r->Ok_0.content is Some && toml_doc::renders(
                            r->Ok_0.content->0@,
                            after.1,
                        ) && r->Ok_0.message@ == configured_message(request.provider@, after.0)
                    },
                }
            },
        },
{
    let name = request.provider.as_str();
    let key = match provider_key(name) {
        Some(k) => k,
        None => {
            return Ok(
                ProviderUpdated {
                    content: None,
                    success: false,
                    message: cat2("Unknown provider: ", name),
                },
            );
        },
    };
    if trim_text(request.api_key.as_str()).as_str().is_empty() {
        return Ok(
            ProviderUpdated {
                content: None,
                success: false,
                message: "API key cannot be empty".to_owned(),
            },
        );
    }
    let mut doc = match parse_document(content) {
        Some(d) => d,
        None => {
            return Err(ApiError::Internal);
        },
    };
    if !can_take_values(&doc, "llm") {
        return Err(ApiError::Internal);
    }
    let routed = set_provider(&mut doc, key, request.api_key.as_str(), routing);
    let text = render_document(&doc);
    assert(toml_doc::doc_text(doc) == text@);
    let note = if routed {
        cat3(" Model routing updated to use ", name, " defaults.")
    } else {
        String::new()
    };
    let mut message = cat3("Provider '", name, "' configured.");
    message.append(note.as_str());
    Ok(ProviderUpdated { content: Some(text), success: true, message })
}

/// A document without the key of a provider. It stays as it is where it has no
/// `[llm]` table.
pub open spec fn without_key(
    doc: Map<Seq<char>, TomlTree>,
    key: Seq<char>,
) -> Map<Seq<char>, TomlTree> {
    if doc.contains_key("llm"@) {
        match doc["llm"@] {
            TomlTree::Table(t) => doc.insert("llm"@, TomlTree::Table(t.remove(key))),
            _ => doc,
        }
    } else {
        doc
    }
}

/// Removes the key of a provider from a document.
pub fn remove_key(doc: &mut toml_edit::DocumentMut, key: &str)
    ensures
        toml_doc::doc_tree(*final(doc)) == without_key(toml_doc::doc_tree(*old(doc)), key@),
{
    let ghost before = toml_doc::doc_tree(*doc);
    assert(before.contains_key("llm"@) ==> before.insert("llm"@, before["llm"@]) =~= before);
    if let Some(llm) = table_get_mut(root_mut(doc), "llm") {
        if let Some(table) = item_table_mut(llm) {
            table_remove(table, key);
        }
    }
}

/// Removes the key of a provider from the text of the configuration file, where
/// there is a file.
pub fn delete_provider(content: Option<&str>, provider: &str) -> (r: Result<
    ProviderUpdated,
    ApiError,
>)
    ensures
        match key_name(provider@) {
            None => refuses(r, unknown_message(provider@)),
            Some(key) => match content {
                None => refuses(r, "No config file found"@),
                Some(c) => match toml_doc::parsed_document(c@) {
                    None => r == Err::<ProviderUpdated, _>(ApiError::Internal),
                    Some(doc) => r is Ok && r->Ok_0.success && r->Ok_0.content is Some
                        && toml_doc::renders(r->Ok_0.content->0@, without_key(doc, key))
                        && r->Ok_0.message@ == "Provider '"@ + provider@ + "' removed"@,
                },
            },
        },
{
    let key = match provider_key(provider) {
        Some(k) => k,
        None => {
            return Ok(
                ProviderUpdated {
                    content: None,
                    success: false,
                    message: cat2("Unknown provider: ", provider),
                },
            );
        },
    };
    let c = match content {
        Some(c) => c,
        None => {
            return Ok(
                ProviderUpdated {
                    content: None,
                    success: false,
                    message: "No config file found".to_owned(),
                },
            );
        },
    };
    let mut doc = match parse_document(c) {
        Some(d) => d,
        None => {
            return Err(ApiError::Internal);
        },
    };
    remove_key(&mut doc, key);
    let text = render_document(&doc);
    assert(toml_doc::doc_text(doc) == text@);
    Ok(
        ProviderUpdated {
            content: Some(text),
            success: true,
            message: cat3("Provider '", provider, "' removed"),
        },
    )
}

/// After the key of a provider was set, the document holds that key.
pub proof fn law_set_key_is_held(
    doc: Map<Seq<char>, TomlTree>,
    key: Seq<char>,
    value: Seq<char>,
    routing: RoutingView,
)
    requires
        toml_doc::takes_values(doc, "llm"@),
    ensures
        key_text(with_provider(doc, key, value, routing).1, key) == Some(value),
{
    reveal_strlit("llm");
    reveal_strlit("defaults");
    assert("llm"@.len() != "defaults"@.len());
}

/// After the key of a provider was removed, the provider has a key only through
/// its own environment variable, unless the `llm` part is written as an inline
/// table.
pub proof fn law_removed_key_is_gone(
    doc: Map<Seq<char>, TomlTree>,
    env: EnvVars,
    provider: ProviderView,
)
    requires
        doc.contains_key("llm"@) ==> !(doc["llm"@] is Inline),
    ensures
        has_key(without_key(doc, provider.key), env, provider) == (env.value(provider.env_var)
            is Some),
{
}

/// Setting a key leaves the routing, and every part but the keys, as it is where the
/// routing points to a provider that has a key, then or now.
pub proof fn law_routing_is_kept(
    doc: Map<Seq<char>, TomlTree>,
    key: Seq<char>,
    value: Seq<char>,
    routing: RoutingView,
    part: Seq<char>,
)
    requires
        toml_doc::takes_values(doc, "llm"@),
        value.len() > 0,
        !lacks_key(doc, routed_provider(doc)) || key_name(routed_provider(doc)) == Some(key),
    ensures
        ({
            let (rerouted, after) = with_provider(doc, key, value, routing);
            &&& !rerouted
            &&& part != "llm"@ ==> after.contains_key(part) == doc.contains_key(part)
            &&& part != "llm"@ && doc.contains_key(part) ==> after[part] == doc[part]
        }),
{
    reveal_strlit("llm");
    reveal_strlit("defaults");
    assert("llm"@.len() != "defaults"@.len());
    assert(routed_model(with_key(doc, key, value)) == routed_model(doc));
}

/// The names of the providers differ.
proof fn lemma_provider_names()
    ensures
        "anthropic"@ != "openai"@,
        "anthropic"@ != "openrouter"@,
        "anthropic"@ != "zhipu"@,
        "anthropic"@ != "groq"@,
        "anthropic"@ != "together"@,
        "anthropic"@ != "fireworks"@,
        "anthropic"@ != "deepseek"@,
        "anthropic"@ != "xai"@,
        "anthropic"@ != "mistral"@,
        "anthropic"@ != "opencode-zen"@,
        "openai"@ != "openrouter"@,
        "openai"@ != "zhipu"@,
        "openai"@ != "groq"@,
        "openai"@ != "together"@,
        "openai"@ != "fireworks"@,
        "openai"@ != "deepseek"@,
        "openai"@ != "xai"@,
        "openai"@ != "mistral"@,
        "openai"@ != "opencode-zen"@,
        "openrouter"@ != "zhipu"@,
        "openrouter"@ != "groq"@,
        "openrouter"@ != "together"@,
        "openrouter"@ != "fireworks"@,
        "openrouter"@ != "deepseek"@,
        "openrouter"@ != "xai"@,
        "openrouter"@ != "mistral"@,
        "openrouter"@ != "opencode-zen"@,
        "zhipu"@ != "groq"@,
        "zhipu"@ != "together"@,
        "zhipu"@ != "fireworks"@,
        "zhipu"@ != "deepseek"@,
        "zhipu"@ != "xai"@,
        "zhipu"@ != "mistral"@,
        "zhipu"@ != "opencode-zen"@,
        "groq"@ != "together"@,
        "groq"@ != "fireworks"@,
        "groq"@ != "deepseek"@,
        "groq"@ != "xai"@,
        "groq"@ != "mistral"@,
        "groq"@ != "opencode-zen"@,
        "together"@ != "fireworks"@,
        "together"@ != "deepseek"@,
        "together"@ != "xai"@,
        "together"@ != "mistral"@,
        "together"@ != "opencode-zen"@,
        "fireworks"@ != "deepseek"@,
        "fireworks"@ != "xai"@,
        "fireworks"@ != "mistral"@,
        "fireworks"@ != "opencode-zen"@,
        "deepseek"@ != "xai"@,
        "deepseek"@ != "mistral"@,
        "deepseek"@ != "opencode-zen"@,
        "xai"@ != "mistral"@,
        "xai"@ != "opencode-zen"@,
        "mistral"@ != "opencode-zen"@,
{
    reveal_strlit("anthropic");
    reveal_strlit("openai");
    reveal_strlit("openrouter");
    reveal_strlit("zhipu");
    reveal_strlit("groq");
    reveal_strlit("together");
    reveal_strlit("fireworks");
    reveal_strlit("deepseek");
    reveal_strlit("xai");
    reveal_strlit("mistral");
    reveal_strlit("opencode-zen");
    assert("anthropic"@[0] != "fireworks"@[0]);
    assert("together"@[0] != "deepseek"@[0]);
    assert("anthropic"@.len() == 9);
    assert("openai"@.len() == 6);
    assert("openrouter"@.len() == 10);
    assert("zhipu"@.len() == 5);
    assert("groq"@.len() == 4);
    assert("together"@.len() == 8);
    assert("fireworks"@.len() == 9);
    assert("deepseek"@.len() == 8);
    assert("xai"@.len() == 3);
    assert("mistral"@.len() == 7);
    assert("opencode-zen"@.len() == 12);
}

/// The keys of the models differ.
proof fn lemma_model_keys()
    ensures
        "channel"@ != "branch"@,
        "channel"@ != "worker"@,
        "channel"@ != "compactor"@,
        "channel"@ != "cortex"@,
        "branch"@ != "worker"@,
        "branch"@ != "compactor"@,
        "branch"@ != "cortex"@,
        "worker"@ != "compactor"@,
        "worker"@ != "cortex"@,
        "compactor"@ != "cortex"@,
{
    reveal_strlit("channel");
    reveal_strlit("branch");
    reveal_strlit("worker");
    reveal_strlit("compactor");
    reveal_strlit("cortex");
    assert("branch"@[0] != "worker"@[0]);
    assert("branch"@[0] != "cortex"@[0]);
    assert("worker"@[0] != "cortex"@[0]);
    assert("channel"@.len() == 7);
    assert("branch"@.len() == 6);
    assert("worker"@.len() == 6);
    assert("compactor"@.len() == 9);
    assert("cortex"@.len() == 6);
}

proof fn lemma_key_in(table: Seq<ProviderView>, name: Seq<char>, i: int)
    requires
        0 <= i <= table.len(),
        i < table.len() ==> table[i].name == name,
        forall|k: int| 0 <= k < i ==> (#[trigger] table[k]).name != name,
    ensures
        key_in(table, name) == (if i < table.len() {
            Some(table[i].key)
        } else {
            None
        }),
    decreases table.len(),
{
    if i > 0 {
        let rest = table.drop_first();
        assert(table[0].name != name);
        assert forall|k: int| 0 <= k < i - 1 implies (#[trigger] rest[k]).name != name by {
            assert(rest[k] == table[k + 1]);
        }
        if i < table.len() {
            assert(rest[i - 1] == table[i]);
        }
        lemma_key_in(rest, name, i - 1);
    }
}

/// Every provider has a key of its own in the configuration file, and nothing else is a
/// provider.
pub proof fn law_providers_have_their_keys(name: Seq<char>)
    ensures
        key_name("anthropic"@) == Some("anthropic_key"@),
        key_name("openai"@) == Some("openai_key"@),
        key_name("openrouter"@) == Some("openrouter_key"@),
        key_name("zhipu"@) == Some("zhipu_key"@),
        key_name("groq"@) == Some("groq_key"@),
        key_name("together"@) == Some("together_key"@),
        key_name("fireworks"@) == Some("fireworks_key"@),
        key_name("deepseek"@) == Some("deepseek_key"@),
        key_name("xai"@) == Some("xai_key"@),
        key_name("mistral"@) == Some("mistral_key"@),
        key_name("opencode-zen"@) == Some("opencode_zen_key"@),
        key_name(name) is Some ==> name == "anthropic"@ || name == "openai"@ || name == "openrouter"@ || name == "zhipu"@ || name == "groq"@ || name == "together"@ || name == "fireworks"@ || name == "deepseek"@ || name == "xai"@ || name == "mistral"@ || name == "opencode-zen"@,
{
    lemma_provider_names();
    let t = provider_table();
    assert(t[0].name == "anthropic"@ && t[0].key == "anthropic_key"@);
    assert(t[1].name == "openai"@ && t[1].key == "openai_key"@);
    assert(t[2].name == "openrouter"@ && t[2].key == "openrouter_key"@);
    assert(t[3].name == "zhipu"@ && t[3].key == "zhipu_key"@);
    assert(t[4].name == "groq"@ && t[4].key == "groq_key"@);
    assert(t[5].name == "together"@ && t[5].key == "together_key"@);
    assert(t[6].name == "fireworks"@ && t[6].key == "fireworks_key"@);
    assert(t[7].name == "deepseek"@ && t[7].key == "deepseek_key"@);
    assert(t[8].name == "xai"@ && t[8].key == "xai_key"@);
    assert(t[9].name == "mistral"@ && t[9].key == "mistral_key"@);
    assert(t[10].name == "opencode-zen"@ && t[10].key == "opencode_zen_key"@);
    lemma_key_in(t, "anthropic"@, 0);
    lemma_key_in(t, "openai"@, 1);
    lemma_key_in(t, "openrouter"@, 2);
    lemma_key_in(t, "zhipu"@, 3);
    lemma_key_in(t, "groq"@, 4);
    lemma_key_in(t, "together"@, 5);
    lemma_key_in(t, "fireworks"@, 6);
    lemma_key_in(t, "deepseek"@, 7);
    lemma_key_in(t, "xai"@, 8);
    lemma_key_in(t, "mistral"@, 9);
    lemma_key_in(t, "opencode-zen"@, 10);
    if name != "anthropic"@ && name != "openai"@ && name != "openrouter"@ && name != "zhipu"@ && name != "groq"@ && name != "together"@ && name != "fireworks"@ && name != "deepseek"@ && name != "xai"@ && name != "mistral"@ && name != "opencode-zen"@ {
        lemma_key_in(t, name, 11);
    }
}

/// The status says of every provider whether it has a key, by the name of its key and of
/// its variable.
pub proof fn law_status_is_that_of_the_provider(
    doc: Map<Seq<char>, TomlTree>,
    env: EnvVars,
    p: ProviderView,
)
    ensures
        p == (ProviderView { name: "anthropic"@, key: "anthropic_key"@, env_var: "ANTHROPIC_API_KEY"@ }) ==> status_in(
            doc,
            env,
        ).anthropic == has_key(doc, env, p),
        p == (ProviderView { name: "openai"@, key: "openai_key"@, env_var: "OPENAI_API_KEY"@ }) ==> status_in(
            doc,
            env,
        ).openai == has_key(doc, env, p),
        p == (ProviderView { name: "openrouter"@, key: "openrouter_key"@, env_var: "OPENROUTER_API_KEY"@ }) ==> status_in(
            doc,
            env,
        ).openrouter == has_key(doc, env, p),
        p == (ProviderView { name: "zhipu"@, key: "zhipu_key"@, env_var: "ZHIPU_API_KEY"@ }) ==> status_in(
            doc,
            env,
        ).zhipu == has_key(doc, env, p),
        p == (ProviderView { name: "groq"@, key: "groq_key"@, env_var: "GROQ_API_KEY"@ }) ==> status_in(
            doc,
            env,
        ).groq == has_key(doc, env, p),
        p == (ProviderView { name: "together"@, key: "together_key"@, env_var: "TOGETHER_API_KEY"@ }) ==> status_in(
            doc,
            env,
        ).together == has_key(doc, env, p),
        p == (ProviderView { name: "fireworks"@, key: "fireworks_key"@, env_var: "FIREWORKS_API_KEY"@ }) ==> status_in(
            doc,
            env,
        ).fireworks == has_key(doc, env, p),
        p == (ProviderView { name: "deepseek"@, key: "deepseek_key"@, env_var: "DEEPSEEK_API_KEY"@ }) ==> status_in(
            doc,
            env,
        ).deepseek == has_key(doc, env, p),
        p == (ProviderView { name: "xai"@, key: "xai_key"@, env_var: "XAI_API_KEY"@ }) ==> status_in(
            doc,
            env,
        ).xai == has_key(doc, env, p),
        p == (ProviderView { name: "mistral"@, key: "mistral_key"@, env_var: "MISTRAL_API_KEY"@ }) ==> status_in(
            doc,
            env,
        ).mistral == has_key(doc, env, p),
        p == (ProviderView { name: "opencode-zen"@, key: "opencode_zen_key"@, env_var: "OPENCODE_ZEN_API_KEY"@ }) ==> status_in(
            doc,
            env,
        ).opencode_zen == has_key(doc, env, p),
        any_of(status_in(doc, env)) <==> exists|i: int|
            0 <= i < provider_table().len() && has_key(doc, env, #[trigger] provider_table()[i]),
{
    let t = provider_table();
    let s = status_in(doc, env);
    assert(s.anthropic == has_key(doc, env, t[0]));
    assert(s.openai == has_key(doc, env, t[1]));
    assert(s.openrouter == has_key(doc, env, t[2]));
    assert(s.zhipu == has_key(doc, env, t[3]));
    assert(s.groq == has_key(doc, env, t[4]));
    assert(s.together == has_key(doc, env, t[5]));
    assert(s.fireworks == has_key(doc, env, t[6]));
    assert(s.deepseek == has_key(doc, env, t[7]));
    assert(s.xai == has_key(doc, env, t[8]));
    assert(s.mistral == has_key(doc, env, t[9]));
    assert(s.opencode_zen == has_key(doc, env, t[10]));
}

/// A provider has a key where the file holds a text for it that is not empty. A text that
/// refers to a variable counts where the variable is set, and without a text the variable
/// of the provider counts.
pub proof fn law_keys_are_found(
    doc: Map<Seq<char>, TomlTree>,
    llm: Map<Seq<char>, TomlTree>,
    env: EnvVars,
    p: ProviderView,
    s: Seq<char>,
    name: Seq<char>,
)
    requires
        doc.contains_key("llm"@),
        doc["llm"@] == TomlTree::Table(llm),
    ensures
        llm.contains_key(p.key) && llm[p.key] == TomlTree::Text(s) && !"env:"@.is_prefix_of(s) ==> (
        has_key(doc, env, p) <==> s.len() > 0),
        llm.contains_key(p.key) && llm[p.key] == TomlTree::Text("env:"@ + name) ==> (has_key(
            doc,
            env,
            p,
        ) <==> env.value(name) is Some),
        !llm.contains_key(p.key) ==> (has_key(doc, env, p) <==> env.value(p.env_var) is Some),
        llm.contains_key(p.key) && llm[p.key] == TomlTree::Text(s) && key_name(p.name) == Some(
            p.key,
        ) ==> (lacks_key(doc, p.name) <==> s.len() == 0),
        !llm.contains_key(p.key) && key_name(p.name) == Some(p.key) ==> lacks_key(doc, p.name),
{
    let t = "env:"@ + name;
    assert("env:"@.is_prefix_of(t));
    assert(t.skip("env:"@.len() as int) == name);
}

/// Providers with a key are listed in the order of the table, and no others.
pub proof fn law_providers_with_keys_are_listed(
    table: Seq<ProviderView>,
    p: ProviderView,
    doc: Map<Seq<char>, TomlTree>,
    env: EnvVars,
)
    ensures
        has_key(doc, env, p) ==> with_keys(table.push(p), doc, env) == with_keys(
            table,
            doc,
            env,
        ).push(p.name),
        !has_key(doc, env, p) ==> with_keys(table.push(p), doc, env) == with_keys(table, doc, env),
        with_keys(Seq::empty(), doc, env).len() == 0,
{
    assert(table.push(p).drop_last() == table);
}

/// The provider that channels are routed to is the one that the name of their model starts
/// with, and Anthropic where the file names no model.
pub proof fn law_routed_provider_is_that_of_the_model(
    doc: Map<Seq<char>, TomlTree>,
    defaults: Map<Seq<char>, TomlTree>,
    routing: Map<Seq<char>, TomlTree>,
    provider: Seq<char>,
    rest: Seq<char>,
)
    requires
        !provider.contains('/'),
    ensures
        doc.contains_key("defaults"@) && doc["defaults"@] == TomlTree::Table(defaults)
            && defaults.contains_key("routing"@) && defaults["routing"@] == TomlTree::Table(routing)
            && routing.contains_key("channel"@) && routing["channel"@] == TomlTree::Text(
            provider + "/"@ + rest,
        ) ==> routed_provider(doc) == provider,
        !doc.contains_key("defaults"@) ==> routed_provider(doc) == "anthropic"@,
{
    reveal_strlit("/");
    reveal_strlit("openrouter");
    reveal_strlit("openrouter/");
    assert("/"@ == seq!['/']);
    let s = provider + "/"@ + rest;
    text::law_cut_at_the_first(provider, '/', rest);
    if "openrouter/"@.is_prefix_of(s) {
        assert forall|i: int| 0 <= i < 10 implies "openrouter"@[i] != '/' by {}
        let front = s.subrange(0, 11);
        assert(front == "openrouter/"@);
        assert forall|i: int| 0 <= i < 11 implies s[i] == "openrouter/"@[i] by {
            assert(s[i] == front[i]);
        }
        assert(s[10] == '/');
        if provider.len() < 10 {
            assert(s[provider.len() as int] == '/');
            assert(s[provider.len() as int] == "openrouter/"@[provider.len() as int]);
        }
        if provider.len() > 10 {
            assert(provider[10] == s[10]);
            assert(provider.contains('/'));
        }
        assert forall|i: int| 0 <= i < 10 implies provider[i] == "openrouter"@[i] by {
            assert(s[i] == "openrouter/"@[i]);
        }
        assert(provider == "openrouter"@);
    }
}

/// The models of a routing are written for each process, and nothing else of the defaults
/// changes.
pub proof fn law_models_are_written(
    doc: Map<Seq<char>, TomlTree>,
    defaults: Map<Seq<char>, TomlTree>,
    routing: RoutingView,
    key: Seq<char>,
)
    requires
        doc.contains_key("defaults"@),
        doc["defaults"@] == TomlTree::Table(defaults),
        !defaults.contains_key("routing"@),
    ensures
        ({
            let after = with_routing(doc, routing);
            let t = toml_doc::section(after, "defaults"@, "routing"@);
            &&& t is Some && t->0 is Table
            &&& t->0->Table_0["channel"@] == TomlTree::Text(routing.channel)
            &&& t->0->Table_0["branch"@] == TomlTree::Text(routing.branch)
            &&& t->0->Table_0["worker"@] == TomlTree::Text(routing.worker)
            &&& t->0->Table_0["compactor"@] == TomlTree::Text(routing.compactor)
            &&& t->0->Table_0["cortex"@] == TomlTree::Text(routing.cortex)
            &&& (key != "routing"@ ==> toml_doc::section(after, "defaults"@, key)
                == toml_doc::section(doc, "defaults"@, key))
            &&& (key != "defaults"@ && doc.contains_key(key) ==> after.contains_key(key)
                && after[key] == doc[key])
        }),
{
    lemma_model_keys();
}

/// The routing is set to the defaults of a provider where it points to one without a key,
/// and else stays.
pub proof fn law_routing_follows_the_keys(
    doc: Map<Seq<char>, TomlTree>,
    key: Seq<char>,
    value: Seq<char>,
    routing: RoutingView,
)
    ensures
        with_provider(doc, key, value, routing).0 <==> lacks_key(
            toml_doc::with_in(doc, "llm"@, key, TomlTree::Text(value)),
            routed_provider(toml_doc::with_in(doc, "llm"@, key, TomlTree::Text(value))),
        ),
        !with_provider(doc, key, value, routing).0 ==> with_provider(doc, key, value, routing).1
            == toml_doc::with_in(doc, "llm"@, key, TomlTree::Text(value)),
{
}

/// Removing the key of a provider keeps the keys of the others and every other part.
pub proof fn law_other_keys_are_kept(
    doc: Map<Seq<char>, TomlTree>,
    key: Seq<char>,
    other: Seq<char>,
    part: Seq<char>,
)
    requires
        other != key,
        part != "llm"@,
    ensures
        key_text(without_key(doc, key), other) == key_text(doc, other),
        without_key(doc, key).contains_key(part) == doc.contains_key(part),
        doc.contains_key(part) ==> without_key(doc, key)[part] == doc[part],
{
}

/// A provider is named in what is answered, with a note where the models were changed too.
pub proof fn law_answers_name_the_provider(provider: Seq<char>)
    ensures
        unknown_message(provider) == "Unknown provider: "@ + provider,
        configured_message(provider, false) == "Provider '"@ + provider + "' configured."@,
        configured_message(provider, true) == "Provider '"@ + provider + "' configured."@ + (
        " Model routing updated to use "@ + provider + " defaults."@),
{
    assert("Provider '"@ + provider + "' configured."@ + Seq::<char>::empty() == "Provider '"@
        + provider + "' configured."@);
}

/// A refused change is answered without success, and changes nothing.
pub proof fn law_refusals_change_nothing(r: Result<ProviderUpdated, ApiError>, message: Seq<char>)
    requires
        refuses(r, message),
    ensures
        r is Ok && r->Ok_0.content is None && !r->Ok_0.success && r->Ok_0.message@ == message,
{
}

} // verus!
