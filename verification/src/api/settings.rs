//! The global settings in the configuration file.
use crate::api::ApiError;
use crate::config::environment::EnvVars;
use crate::text;
use crate::text::{cat2, str_eq};
use crate::toml_doc;
use crate::toml_doc::{
    can_take_values, ensure_table, find_section, flag_item, integer_item, item_bool, item_integer,
    item_str, item_table_mut, parse_document, render_document, root_mut, set_in, table_get_mut,
    table_remove, text_item,
};
use crate::toml_doc::TomlTree;
use vstd::prelude::*;

verus! {

/// The global settings.
pub struct GlobalSettingsResponse {
    pub brave_search_key: Option<String>,
    pub api_enabled: bool,
    pub api_port: u16,
    pub api_bind: String,
    pub worker_log_mode: String,
}

/// What the global settings say.
pub struct GlobalSettingsView {
    pub brave_search_key: Option<Seq<char>>,
    pub api_enabled: bool,
    pub api_port: u16,
    pub api_bind: Seq<char>,
    pub worker_log_mode: Seq<char>,
}

impl View for GlobalSettingsResponse {
    type V = GlobalSettingsView;

    open spec fn view(&self) -> GlobalSettingsView {
        GlobalSettingsView {
            brave_search_key: text::opt_text(self.brave_search_key),
            api_enabled: self.api_enabled,
            api_port: self.api_port,
            api_bind: self.api_bind@,
            worker_log_mode: self.worker_log_mode@,
        }
    }
}

/// The text that a document holds two keys down.
pub open spec fn text_in(
    doc: Map<Seq<char>, TomlTree>,
    outer: Seq<char>,
    inner: Seq<char>,
) -> Option<Seq<char>> {
    match toml_doc::section(doc, outer, inner) {
        Some(part) => toml_doc::tree_text(part),
        None => None,
    }
}

/// The global settings of a document. What it does not say, or says with a value
/// of another kind or a port out of range, has its default.
pub open spec fn settings_in(
    doc: Map<Seq<char>, TomlTree>,
    env: EnvVars,
) -> GlobalSettingsView {
    GlobalSettingsView {
        brave_search_key: match text_in(doc, "defaults"@, "brave_search_key"@) {
            Some(s) => env.resolved(s),
            None => None,
        },
        api_enabled: match toml_doc::section(doc, "api"@, "enabled"@) {
            Some(TomlTree::Flag(b)) => b,
            _ => true,
        },
        api_port: match toml_doc::section(doc, "api"@, "port"@) {
            Some(TomlTree::Integer(n)) => if 0 <= n <= u16::MAX {
                n as u16
            } else {
                19898
            },
            _ => 19898,
        },
        api_bind: match text_in(doc, "api"@, "bind"@) {
            Some(s) => s,
            None => "127.0.0.1"@,
        },
        worker_log_mode: match text_in(doc, "defaults"@, "worker_log_mode"@) {
            Some(s) => s,
            None => "errors_only"@,
        },
    }
}

/// The text that a document holds two keys down.
fn find_text<'a>(doc: &'a toml_edit::DocumentMut, outer: &str, inner: &str) -> (r: Option<&'a str>)
    ensures
        match r {
            Some(s) => text_in(toml_doc::doc_tree(*doc), outer@, inner@) == Some(s@),
            None => text_in(toml_doc::doc_tree(*doc), outer@, inner@) is None,
        },
{
    match find_section(doc, outer, inner) {
        Some(item) => item_str(item),
        None => None,
    }
}

/// The global settings of a document.
pub fn document_settings(doc: &toml_edit::DocumentMut, env: &EnvVars) -> (r:
    GlobalSettingsResponse)
    ensures
        r@ == settings_in(toml_doc::doc_tree(*doc), *env),
{
    let brave_search_key = match find_text(doc, "defaults", "brave_search_key") {
        Some(s) => env.resolve_env_value(s),
        None => None,
    };
    let api_enabled = match find_section(doc, "api", "enabled") {
        Some(item) => match item_bool(item) {
            Some(b) => b,
            None => true,
        },
        None => true,
    };
    let api_port: u16 = match find_section(doc, "api", "port") {
        Some(item) => match item_integer(item) {
            Some(n) => if 0 <= n && n <= 65535 {
                n as u16
            } else {
                19898
            },
            None => 19898,
        },
        None => 19898,
    };
    let api_bind = match find_text(doc, "api", "bind") {
        Some(s) => s.to_owned(),
        None => "127.0.0.1".to_owned(),
    };
    let worker_log_mode = match find_text(doc, "defaults", "worker_log_mode") {
        Some(s) => s.to_owned(),
        None => "errors_only".to_owned(),
    };
    GlobalSettingsResponse { brave_search_key, api_enabled, api_port, api_bind, worker_log_mode }
}

/// The global settings, from the text of the configuration file, where there is
/// one.
pub fn get_global_settings(content: Option<&str>, env: &EnvVars) -> (r: Result<
    GlobalSettingsResponse,
    ApiError,
>)
    ensures
        match content {
            Some(c) => match toml_doc::parsed_document(c@) {
                Some(doc) => r is Ok && r->Ok_0@ == settings_in(doc, *env),
                None => r == Err::<GlobalSettingsResponse, _>(ApiError::Internal),
            },
            None => r is Ok && r->Ok_0@ == settings_in(toml_doc::no_parts(), *env),
        },
{
    match content {
        Some(c) => match parse_document(c) {
            Some(doc) => Ok(document_settings(&doc, env)),
            None => Err(ApiError::Internal),
        },
        None => Ok(
            GlobalSettingsResponse {
                brave_search_key: None,
                api_enabled: true,
                api_port: 19898,
                api_bind: "127.0.0.1".to_owned(),
                worker_log_mode: "errors_only".to_owned(),
            },
        ),
    }
}

/// A change of the global settings: what is not given stays as it is.
pub struct GlobalSettingsUpdate {
    /// An empty key is removed.
    pub brave_search_key: Option<String>,
    pub api_enabled: Option<bool>,
    pub api_port: Option<u16>,
    pub api_bind: Option<String>,
    pub worker_log_mode: Option<String>,
}

/// A mode of the worker logs.
pub open spec fn is_log_mode(mode: Seq<char>) -> bool {
    mode == "errors_only"@ || mode == "all_separate"@ || mode == "all_combined"@
}

/// A document with the search key of a change.
pub open spec fn with_search_key(doc: Map<Seq<char>, TomlTree>, key: Option<Seq<char>>) -> Map<
    Seq<char>,
    TomlTree,
> {
    match key {
        None => doc,
        Some(k) => if k.len() == 0 {
            let d = toml_doc::ensured(doc, "defaults"@);
            match d["defaults"@] {
                TomlTree::Table(t) => d.insert(
                    "defaults"@,
                    TomlTree::Table(t.remove("brave_search_key"@)),
                ),
                _ => d,
            }
        } else {
            toml_doc::with_in(doc, "defaults"@, "brave_search_key"@, TomlTree::Text(k))
        },
    }
}

/// A document with a value of the API section, where it is given.
pub open spec fn with_api_value(
    doc: Map<Seq<char>, TomlTree>,
    key: Seq<char>,
    value: Option<TomlTree>,
) -> Map<Seq<char>, TomlTree> {
    match value {
        Some(v) => toml_doc::with_in(doc, "api"@, key, v),
        None => doc,
    }
}

/// The API section is changed, which takes a restart.
pub open spec fn touches_api(update: GlobalSettingsUpdate) -> bool {
    update.api_enabled is Some || update.api_port is Some || update.api_bind is Some
}

/// A document with the API settings of a change.
pub open spec fn with_api(
    doc: Map<Seq<char>, TomlTree>,
    update: GlobalSettingsUpdate,
) -> Map<Seq<char>, TomlTree> {
    let d = with_api_value(
        doc,
        "enabled"@,
        match update.api_enabled {
            Some(b) => Some(TomlTree::Flag(b)),
            None => None,
        },
    );
    let d = with_api_value(
        d,
        "port"@,
        match update.api_port {
            Some(p) => Some(TomlTree::Integer(p as i64)),
            None => None,
        },
    );
    with_api_value(
        d,
        "bind"@,
        match update.api_bind {
            Some(s) => Some(TomlTree::Text(s@)),
            None => None,
        },
    )
}

/// A document after a change of the global settings.
pub open spec fn with_settings(
    doc: Map<Seq<char>, TomlTree>,
    update: GlobalSettingsUpdate,
) -> Map<Seq<char>, TomlTree> {
    let d = with_api(with_search_key(doc, text::opt_text(update.brave_search_key)), update);
    match update.worker_log_mode {
        Some(mode) => toml_doc::with_in(
            d,
            "defaults"@,
            "worker_log_mode"@,
            TomlTree::Text(mode@),
        ),
        None => d,
    }
}

/// The sections that a change writes to are tables, or are not there.
pub open spec fn takes_settings(
    doc: Map<Seq<char>, TomlTree>,
    update: GlobalSettingsUpdate,
) -> bool {
    &&& (update.brave_search_key is Some && update.brave_search_key->0@.len() > 0)
        || update.worker_log_mode is Some ==> toml_doc::takes_values(doc, "defaults"@)
    &&& touches_api(update) ==> toml_doc::takes_values(doc, "api"@)
}

/// The names of the sections differ.
proof fn lemma_sections_differ()
    ensures
        "defaults"@ != "api"@,
{
    reveal_strlit("defaults");
    reveal_strlit("api");
    assert("defaults"@.len() != "api"@.len());
}

/// Changes the search key of a document.
fn write_search_key(doc: &mut toml_edit::DocumentMut, key: &str)
    requires
        key@.len() > 0 ==> toml_doc::takes_values(toml_doc::doc_tree(*old(doc)), "defaults"@),
    ensures
        toml_doc::doc_tree(*final(doc)) == with_search_key(
            toml_doc::doc_tree(*old(doc)),
            Some(key@),
        ),
{
    if key.is_empty() {
        ensure_table(doc, "defaults");
        let ghost d = toml_doc::doc_tree(*doc);
        assert(d.insert("defaults"@, d["defaults"@]) =~= d);
        if let Some(item) = table_get_mut(root_mut(doc), "defaults") {
            if let Some(table) = item_table_mut(item) {
                table_remove(table, "brave_search_key");
            }
        }
    } else {
        set_in(doc, "defaults", "brave_search_key", text_item(key));
    }
}

/// Changes the API settings of a document.
fn write_api(doc: &mut toml_edit::DocumentMut, update: &GlobalSettingsUpdate)
    requires
        touches_api(*update) ==> toml_doc::takes_values(toml_doc::doc_tree(*old(doc)), "api"@),
    ensures
        toml_doc::doc_tree(*final(doc)) == with_api(toml_doc::doc_tree(*old(doc)), *update),
{
    if let Some(enabled) = update.api_enabled {
        set_in(doc, "api", "enabled", flag_item(enabled));
    }
    if let Some(port) = update.api_port {
        set_in(doc, "api", "port", integer_item(port as i64));
    }
    if let Some(bind) = &update.api_bind {
        set_in(doc, "api", "bind", text_item(bind.as_str()));
    }
}

/// Changes the global settings of a document.
pub fn set_settings(doc: &mut toml_edit::DocumentMut, update: &GlobalSettingsUpdate)
    requires
        takes_settings(toml_doc::doc_tree(*old(doc)), *update),
    ensures
        toml_doc::doc_tree(*final(doc)) == with_settings(toml_doc::doc_tree(*old(doc)), *update),
{
    proof {
        lemma_sections_differ();
    }
    if let Some(key) = &update.brave_search_key {
        write_search_key(doc, key.as_str());
    }
    write_api(doc, update);
    if let Some(mode) = &update.worker_log_mode {
        set_in(doc, "defaults", "worker_log_mode", text_item(mode.as_str()));
    }
}

/// What is answered to a change of the global settings, with the new text of the
/// configuration file where it changes.
pub struct SettingsUpdated {
    pub content: Option<String>,
    pub success: bool,
    pub message: String,
    pub requires_restart: bool,
}

/// Changes the global settings in the text of the configuration file. It fails
/// where the text is no document, and where a section that the change writes to is
/// no table.
pub fn update_global_settings(content: &str, update: &GlobalSettingsUpdate) -> (r: Result<
    SettingsUpdated,
    ApiError,
>)
    ensures
        match toml_doc::parsed_document(content@) {
            None => r == Err::<SettingsUpdated, _>(ApiError::Internal),
            Some(doc) => if update.worker_log_mode is Some && !is_log_mode(
                update.worker_log_mode->0@,
            ) {
                r is Ok && r->Ok_0.content is None && !r->Ok_0.success && !r->Ok_0.requires_restart
                    && r->Ok_0.message@ == "Invalid worker log mode: "@ + update.worker_log_mode->0@
            } else if !takes_settings(doc, *update) {
                r == Err::<SettingsUpdated, _>(ApiError::Internal)
            } else {
                r is Ok && r->Ok_0.content is Some && toml_doc::renders(
                    r->Ok_0.content->0@,
                    with_settings(doc, *update),
                ) && r->Ok_0.success && r->Ok_0.requires_restart == touches_api(*update)
                    && r->Ok_0.message@ == (if touches_api(*update) {
                    "Settings updated. API server changes require a restart to take effect."@
                } else {
                    "Settings updated successfully."@
                })
            },
        },
{
    let mut doc = match parse_document(content) {
        Some(d) => d,
        None => {
            return Err(ApiError::Internal);
        },
    };
    if let Some(mode) = &update.worker_log_mode {
        let m = mode.as_str();
        if !(str_eq(m, "errors_only") || str_eq(m, "all_separate") || str_eq(m, "all_combined")) {
            return Ok(
                SettingsUpdated {
                    content: None,
                    success: false,
                    message: cat2("Invalid worker log mode: ", m),
                    requires_restart: false,
                },
            );
        }
    }
    let new_key = match &update.brave_search_key {
        Some(k) => !k.as_str().is_empty(),
        None => false,
    };
    let requires_restart = update.api_enabled.is_some() || update.api_port.is_some()
        || update.api_bind.is_some();
    if (new_key || update.worker_log_mode.is_some()) && !can_take_values(&doc, "defaults") {
        return Err(ApiError::Internal);
    }
    if requires_restart && !can_take_values(&doc, "api") {
        return Err(ApiError::Internal);
    }
    set_settings(&mut doc, update);
    let text = render_document(&doc);
    assert(toml_doc::doc_text(doc) == text@);
    let message = if requires_restart {
        "Settings updated. API server changes require a restart to take effect.".to_owned()
    } else {
        "Settings updated successfully.".to_owned()
    };
    Ok(SettingsUpdated { content: Some(text), success: true, message, requires_restart })
}

/// What is read after a change of the global settings: what the change gives, and
/// what was there before for the rest. A search key is removed by an empty one,
/// unless the `defaults` part is written as an inline table.
pub proof fn law_settings_read_back(
    doc: Map<Seq<char>, TomlTree>,
    update: GlobalSettingsUpdate,
    env: EnvVars,
)
    requires
        takes_settings(doc, update),
        update.brave_search_key is Some && update.brave_search_key->0@.len() == 0
            && doc.contains_key("defaults"@) ==> !(doc["defaults"@] is Inline),
    ensures
        ({
            let before = settings_in(doc, env);
            let after = settings_in(with_settings(doc, update), env);
            &&& after.api_enabled == (match update.api_enabled {
                Some(b) => b,
                None => before.api_enabled,
            })
            &&& after.api_port == (match update.api_port {
                Some(p) => p,
                None => before.api_port,
            })
            &&& after.api_bind == (match update.api_bind {
                Some(s) => s@,
                None => before.api_bind,
            })
            &&& after.worker_log_mode == (match update.worker_log_mode {
                Some(s) => s@,
                None => before.worker_log_mode,
            })
            &&& after.brave_search_key == (match update.brave_search_key {
                Some(k) => if k@.len() == 0 {
                    None
                } else {
                    env.resolved(k@)
                },
                None => before.brave_search_key,
            })
        }),
{
    lemma_sections_differ();
    reveal_strlit("enabled");
    reveal_strlit("port");
    reveal_strlit("bind");
    reveal_strlit("brave_search_key");
    reveal_strlit("worker_log_mode");
    assert("port"@[0] != "bind"@[0]);
    assert("enabled"@.len() != "port"@.len());
    assert("enabled"@.len() != "bind"@.len());
    assert("brave_search_key"@.len() != "worker_log_mode"@.len());
    let d1 = with_search_key(doc, text::opt_text(update.brave_search_key));
    let d2 = with_api(d1, update);
    assert(text_in(d2, "defaults"@, "brave_search_key"@) == text_in(
        d1,
        "defaults"@,
        "brave_search_key"@,
    ));
    assert(text_in(d2, "defaults"@, "worker_log_mode"@) == text_in(
        doc,
        "defaults"@,
        "worker_log_mode"@,
    ));
}

/// The settings are read from the file: what it says counts, and what it does not say, or
/// says with another kind of value, has its default. A port must fit.
pub proof fn law_settings_are_read(
    doc: Map<Seq<char>, TomlTree>,
    api: Map<Seq<char>, TomlTree>,
    env: EnvVars,
    s: Seq<char>,
    n: i64,
    b: bool,
)
    requires
        doc.contains_key("api"@),
        doc["api"@] == TomlTree::Table(api),
    ensures
        api.contains_key("enabled"@) && api["enabled"@] == TomlTree::Flag(b) ==> (settings_in(
            doc,
            env,
        ).api_enabled <==> b),
        !api.contains_key("enabled"@) ==> settings_in(doc, env).api_enabled,
        api.contains_key("port"@) && api["port"@] == TomlTree::Integer(n) && 0 <= n <= 65535
            ==> settings_in(doc, env).api_port == n,
        api.contains_key("port"@) && api["port"@] == TomlTree::Integer(n) && !(0 <= n <= 65535)
            ==> settings_in(doc, env).api_port == 19898,
        !api.contains_key("port"@) ==> settings_in(doc, env).api_port == 19898,
        api.contains_key("bind"@) && api["bind"@] == TomlTree::Text(s) ==> settings_in(
            doc,
            env,
        ).api_bind == s,
        !api.contains_key("bind"@) ==> settings_in(doc, env).api_bind == "127.0.0.1"@,
        !doc.contains_key("defaults"@) ==> settings_in(doc, env).worker_log_mode == "errors_only"@
            && settings_in(doc, env).brave_search_key is None,
        text_in(doc, "defaults"@, "worker_log_mode"@) == Some(s) ==> settings_in(
            doc,
            env,
        ).worker_log_mode == s,
        text_in(doc, "defaults"@, "brave_search_key"@) == Some(s) ==> settings_in(
            doc,
            env,
        ).brave_search_key == env.resolved(s),
        text_in(doc, "api"@, "bind"@) is Some <==> api.contains_key("bind"@) && api["bind"@]
            is Text,
{
}

/// A mode of the logs is one that a worker can have, and a change of the API takes a
/// restart.
pub proof fn law_modes_and_restarts(mode: Seq<char>, u: GlobalSettingsUpdate)
    ensures
        is_log_mode(mode) <==> crate::settings::store::WorkerLogMode::named(mode) is Some,
        touches_api(u) <==> !(u.api_enabled is None && u.api_port is None && u.api_bind is None),
{
}

} // verus!
