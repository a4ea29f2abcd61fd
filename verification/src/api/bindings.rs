//! Bindings in the configuration file: listing, creating and deleting them.
use crate::api::ApiError;
use crate::config::{Binding, Config};
use crate::config::bindings;
use crate::config::bindings::{DiscordPermissions, SlackPermissions};
use crate::config::clone_opt;
use crate::text;
use crate::text::str_eq;
use crate::toml_doc;
use crate::toml_doc::{
    find_section, flag_item, holds_text_at, item_bool, item_get, item_tables_mut, new_table, no_tables_item,
    parse_document, render_document, root_mut, subtable_mut, table_get, table_get_mut,
    table_set, table_text, tables_get, tables_len, tables_push, tables_remove, text_item,
    texts_item,
};
use crate::toml_doc::TomlTree;
use vstd::prelude::*;

verus! {

/// Whether a platform is configured, and whether it is enabled.
#[derive(Clone, Copy, Debug, PartialEq, Eq, Structural)]
pub struct PlatformStatus {
    pub configured: bool,
    pub enabled: bool,
}

/// The status of the messaging platforms.
#[derive(Clone, Copy, Debug, PartialEq, Eq, Structural)]
pub struct MessagingStatusResponse {
    pub discord: PlatformStatus,
    pub slack: PlatformStatus,
    pub webhook: PlatformStatus,
}

/// A part holds `true` under a key.
pub open spec fn is_set_at(part: TomlTree, key: Seq<char>) -> bool {
    toml_doc::part_of(part, key) == Some(TomlTree::Flag(true))
}

/// The status of a platform that needs the given credentials.
pub open spec fn platform_status(
    part: Option<TomlTree>,
    credentials: Seq<Seq<char>>,
) -> PlatformStatus {
    match part {
        Some(p) => {
            let configured = forall|i: int|
                0 <= i < credentials.len() ==> toml_doc::has_text_at(p, #[trigger] credentials[i]);
            PlatformStatus { configured, enabled: configured && is_set_at(p, "enabled"@) }
        },
        None => PlatformStatus { configured: false, enabled: false },
    }
}

/// Whether a part holds `true` under a key.
fn holds_true_at(item: &toml_edit::Item, key: &str) -> (r: bool)
    ensures
        r == is_set_at(toml_doc::item_tree(*item), key@),
{
    match item_get(item, key) {
        Some(v) => match item_bool(v) {
            Some(b) => b,
            None => false,
        },
        None => false,
    }
}

/// Which messaging platforms a document configures and enables.
pub fn document_status(doc: &toml_edit::DocumentMut) -> (r: MessagingStatusResponse)
    ensures
        r.discord == platform_status(
            toml_doc::section(toml_doc::doc_tree(*doc), "messaging"@, "discord"@),
            seq!["token"@],
        ),
        r.slack == platform_status(
            toml_doc::section(toml_doc::doc_tree(*doc), "messaging"@, "slack"@),
            seq!["bot_token"@, "app_token"@],
        ),
        r.webhook == platform_status(
            toml_doc::section(toml_doc::doc_tree(*doc), "messaging"@, "webhook"@),
            seq![],
        ),
{
    let none = PlatformStatus { configured: false, enabled: false };
    let discord = match find_section(doc, "messaging", "discord") {
        Some(d) => {
            let has_token = holds_text_at(d, "token");
            proof {
                let credentials = seq!["token"@];
                assert(credentials[0] == "token"@);
            }
            PlatformStatus {
                configured: has_token,
                enabled: has_token && holds_true_at(d, "enabled"),
            }
        },
        None => none,
    };
    let slack = match find_section(doc, "messaging", "slack") {
        Some(s) => {
            let has_bot_token = holds_text_at(s, "bot_token");
            let has_app_token = holds_text_at(s, "app_token");
            proof {
                let credentials = seq!["bot_token"@, "app_token"@];
                assert(credentials[0] == "bot_token"@ && credentials[1] == "app_token"@);
            }
            let configured = has_bot_token && has_app_token;
            PlatformStatus { configured, enabled: configured && holds_true_at(s, "enabled") }
        },
        None => none,
    };
    let webhook = match find_section(doc, "messaging", "webhook") {
        Some(w) => PlatformStatus { configured: true, enabled: holds_true_at(w, "enabled") },
        None => none,
    };
    MessagingStatusResponse { discord, slack, webhook }
}

/// Which messaging platforms are configured and enabled, from the text of the
/// configuration file where there is one.
pub fn messaging_status(content: Option<&str>) -> (r: Result<MessagingStatusResponse, ApiError>)
    ensures
        match content {
            None => {
                let none = PlatformStatus { configured: false, enabled: false };
                r == Ok::<_, ApiError>(
                    (MessagingStatusResponse { discord: none, slack: none, webhook: none }),
                )
            },
            Some(c) => match toml_doc::parsed_document(c@) {
                None => r == Err::<MessagingStatusResponse, _>(ApiError::Internal),
                Some(doc) => r is Ok && r->Ok_0.discord == platform_status(
                    toml_doc::section(doc, "messaging"@, "discord"@),
                    seq!["token"@],
                ) && r->Ok_0.slack == platform_status(
                    toml_doc::section(doc, "messaging"@, "slack"@),
                    seq!["bot_token"@, "app_token"@],
                ) && r->Ok_0.webhook == platform_status(
                    toml_doc::section(doc, "messaging"@, "webhook"@),
                    seq![],
                ),
            },
        },
{
    match content {
        None => {
            let none = PlatformStatus { configured: false, enabled: false };
            Ok(MessagingStatusResponse { discord: none, slack: none, webhook: none })
        },
        Some(c) => match parse_document(c) {
            Some(doc) => Ok(document_status(&doc)),
            None => Err(ApiError::Internal),
        },
    }
}

/// Belongs to an agent.
pub open spec fn of_agent(id: Seq<char>) -> spec_fn(Binding) -> bool {
    |b: Binding| b.agent_id@ == id
}

/// The bindings of an agent, or all of them.
pub open spec fn bindings_of(all: Seq<Binding>, agent_id: Option<Seq<char>>) -> Seq<Binding> {
    match agent_id {
        Some(id) => all.filter(of_agent(id)),
        None => all,
    }
}

/// Lists the bindings, of one agent where one is given.
pub fn list_bindings(all: &Vec<Binding>, agent_id: &Option<String>) -> (r: Vec<Binding>)
    ensures
        r@.len() == bindings_of(all@, text::opt_text(*agent_id)).len(),
        forall|i: int|
            0 <= i < r@.len() ==> bindings::same_binding(
                #[trigger] r@[i],
                bindings_of(all@, text::opt_text(*agent_id))[i],
            ),
{
    match agent_id {
        None => bindings::clone_bindings(all),
        Some(id) => {
            let ghost keep = of_agent(id@);
            let mut out: Vec<Binding> = Vec::new();
            let n: usize = all.len();
            let mut i: usize = 0;
            while i < n
                invariant
                    n == all@.len(),
                    i <= n,
                    keep == of_agent(id@),
                    out@.len() == all@.take(i as int).filter(keep).len(),
                    forall|j: int|
                        0 <= j < out@.len() ==> bindings::same_binding(
                            #[trigger] out@[j],
                            all@.take(i as int).filter(keep)[j],
                        ),
                decreases n - i,
            {
                proof {
                    assert(all@.take(i + 1).drop_last() =~= all@.take(i as int));
                    assert(all@.take(i + 1).last() == all@[i as int]);
                    reveal_with_fuel(Seq::filter, 2);
                }
                if str_eq(all[i].agent_id.as_str(), id.as_str()) {
                    out.push(all[i].clone());
                }
                i = i + 1;
            }
            assert(all@.take(n as int) =~= all@);
            out
        },
    }
}

/// Credentials of a platform that is not configured yet.
pub struct PlatformCredentials {
    /// Discord bot token.
    pub discord_token: Option<String>,
    /// Slack bot token.
    pub slack_bot_token: Option<String>,
    /// Slack app token.
    pub slack_app_token: Option<String>,
}

/// A request for a new binding.
pub struct CreateBindingRequest {
    pub agent_id: String,
    pub channel: String,
    pub guild_id: Option<String>,
    pub workspace_id: Option<String>,
    pub chat_id: Option<String>,
    pub channel_ids: Vec<String>,
    pub dm_allowed_users: Vec<String>,
    /// Set where the platform's credentials are to be written too.
    pub platform_credentials: Option<PlatformCredentials>,
}

/// A Discord token to be written.
pub open spec fn new_discord_token(request: CreateBindingRequest) -> Option<Seq<char>> {
    match request.platform_credentials {
        Some(c) => match c.discord_token {
            Some(t) => if t@.len() > 0 {
                Some(t@)
            } else {
                None
            },
            None => None,
        },
        None => None,
    }
}

/// The bot token and the app token of Slack to be written.
pub open spec fn new_slack_tokens(request: CreateBindingRequest) -> Option<
    (Seq<char>, Seq<char>),
> {
    match request.platform_credentials {
        Some(c) => match (c.slack_bot_token, c.slack_app_token) {
            (Some(b), Some(a)) => if b@.len() > 0 && a@.len() > 0 {
                Some((b@, a@))
            } else {
                None
            },
            _ => None,
        },
        None => None,
    }
}

/// A document after values were written into the section of a platform, which
/// fails where something else stands in the section's place.
pub open spec fn with_platform(
    doc: Map<Seq<char>, TomlTree>,
    platform: Seq<char>,
    values: Map<Seq<char>, TomlTree>,
) -> Option<Map<Seq<char>, TomlTree>> {
    match toml_doc::table_or_new(doc, "messaging"@) {
        Some(messaging) => match toml_doc::table_or_new(messaging, platform) {
            Some(section) => Some(
                doc.insert(
                    "messaging"@,
                    TomlTree::Table(
                        messaging.insert(
                            platform,
                            TomlTree::Table(section.union_prefer_right(values)),
                        ),
                    ),
                ),
            ),
            None => None,
        },
        None => None,
    }
}

/// What is written for Discord.
pub open spec fn discord_values(token: Seq<char>) -> Map<Seq<char>, TomlTree> {
    map!["enabled"@ => TomlTree::Flag(true), "token"@ => TomlTree::Text(token)]
}

/// What is written for Slack.
pub open spec fn slack_values(tokens: (Seq<char>, Seq<char>)) -> Map<Seq<char>, TomlTree> {
    map![
        "enabled"@ => TomlTree::Flag(true),
        "bot_token"@ => TomlTree::Text(tokens.0),
        "app_token"@ => TomlTree::Text(tokens.1)
    ]
}

/// A table with a text under a key, where there is one.
pub open spec fn with_text(
    table: Map<Seq<char>, TomlTree>,
    key: Seq<char>,
    value: Option<String>,
) -> Map<Seq<char>, TomlTree> {
    match value {
        Some(v) => table.insert(key, TomlTree::Text(v@)),
        None => table,
    }
}

/// A table with a list of texts under a key, where the list is not empty.
pub open spec fn with_texts(
    table: Map<Seq<char>, TomlTree>,
    key: Seq<char>,
    value: Seq<String>,
) -> Map<Seq<char>, TomlTree> {
    if value.len() > 0 {
        table.insert(key, TomlTree::Texts(text::texts(value)))
    } else {
        table
    }
}

/// The table of a new binding.
pub open spec fn binding_tree(request: CreateBindingRequest) -> Map<Seq<char>, TomlTree> {
    let t = map![
        "agent_id"@ => TomlTree::Text(request.agent_id@),
        "channel"@ => TomlTree::Text(request.channel@)
    ];
    let t = with_text(t, "guild_id"@, request.guild_id);
    let t = with_text(t, "workspace_id"@, request.workspace_id);
    let t = with_text(t, "chat_id"@, request.chat_id);
    let t = with_texts(t, "channel_ids"@, request.channel_ids@);
    with_texts(t, "dm_allowed_users"@, request.dm_allowed_users@)
}

/// The bindings of a document: none where it has no such part.
pub open spec fn binding_tables(doc: Map<Seq<char>, TomlTree>) -> Option<
    Seq<Map<Seq<char>, TomlTree>>,
> {
    if !doc.contains_key("bindings"@) {
        Some(Seq::empty())
    } else {
        match doc["bindings"@] {
            TomlTree::Tables(t) => Some(t),
            _ => None,
        }
    }
}

/// A document with the credentials that a request gives.
pub open spec fn with_credentials(
    doc: Map<Seq<char>, TomlTree>,
    request: CreateBindingRequest,
) -> Option<Map<Seq<char>, TomlTree>> {
    let first = match new_discord_token(request) {
        Some(t) => with_platform(doc, "discord"@, discord_values(t)),
        None => Some(doc),
    };
    match first {
        Some(d) => match new_slack_tokens(request) {
            Some(t) => with_platform(d, "slack"@, slack_values(t)),
            None => Some(d),
        },
        None => None,
    }
}

/// A document with a new binding, and with the credentials of its platform: the
/// binding comes last.
pub open spec fn with_binding(
    doc: Map<Seq<char>, TomlTree>,
    request: CreateBindingRequest,
) -> Option<Map<Seq<char>, TomlTree>> {
    match with_credentials(doc, request) {
        Some(d) => match binding_tables(d) {
            Some(tables) => Some(
                d.insert("bindings"@, TomlTree::Tables(tables.push(binding_tree(request)))),
            ),
            None => None,
        },
        None => None,
    }
}

/// Tokens of adapters to be started.
pub struct NewTokens {
    pub discord: Option<String>,
    pub slack: Option<(String, String)>,
}

/// The tokens are those that a request gives.
pub open spec fn tokens_from(request: CreateBindingRequest, r: NewTokens) -> bool {
    &&& text::opt_text(r.discord) == new_discord_token(request)
    &&& match r.slack {
        Some((b, a)) => new_slack_tokens(request) == Some((b@, a@)),
        None => new_slack_tokens(request) is None,
    }
}

/// The tokens that a request gives.
fn tokens_of(request: &CreateBindingRequest) -> (r: NewTokens)
    ensures
        tokens_from(*request, r),
{
    match &request.platform_credentials {
        Some(c) => {
            let discord = match &c.discord_token {
                Some(t) => if !t.as_str().is_empty() {
                    Some(t.clone())
                } else {
                    None
                },
                None => None,
            };
            let slack = match &c.slack_bot_token {
                Some(b) => match &c.slack_app_token {
                    Some(a) => if !b.as_str().is_empty() && !a.as_str().is_empty() {
                        Some((b.clone(), a.clone()))
                    } else {
                        None
                    },
                    None => None,
                },
                None => None,
            };
            NewTokens { discord, slack }
        },
        None => NewTokens { discord: None, slack: None },
    }
}

/// Writes the section of Discord.
fn write_discord(doc: &mut toml_edit::DocumentMut, token: &str) -> (r: Result<(), ApiError>)
    ensures
        match with_platform(toml_doc::doc_tree(*old(doc)), "discord"@, discord_values(token@)) {
            Some(d) => r is Ok && toml_doc::doc_tree(*final(doc)) == d,
            None => r == Err::<(), _>(ApiError::Internal),
        },
{
    match subtable_mut(root_mut(doc), "messaging") {
        Some(messaging) => match subtable_mut(messaging, "discord") {
            Some(discord) => {
                let ghost before = toml_doc::table_tree(*discord);
                table_set(discord, "enabled", flag_item(true));
                table_set(discord, "token", text_item(token));
                assert(toml_doc::table_tree(*discord) =~= before.union_prefer_right(
                    discord_values(token@),
                ));
                Ok(())
            },
            None => Err(ApiError::Internal),
        },
        None => Err(ApiError::Internal),
    }
}

/// Writes the section of Slack.
fn write_slack(
    doc: &mut toml_edit::DocumentMut,
    bot_token: &str,
    app_token: &str,
) -> (r: Result<(), ApiError>)
    ensures
        match with_platform(
            toml_doc::doc_tree(*old(doc)),
            "slack"@,
            slack_values((bot_token@, app_token@)),
        ) {
            Some(d) => r is Ok && toml_doc::doc_tree(*final(doc)) == d,
            None => r == Err::<(), _>(ApiError::Internal),
        },
{
    match subtable_mut(root_mut(doc), "messaging") {
        Some(messaging) => match subtable_mut(messaging, "slack") {
            Some(slack) => {
                let ghost before = toml_doc::table_tree(*slack);
                table_set(slack, "enabled", flag_item(true));
                table_set(slack, "bot_token", text_item(bot_token));
                table_set(slack, "app_token", text_item(app_token));
                assert(toml_doc::table_tree(*slack) =~= before.union_prefer_right(
                    slack_values((bot_token@, app_token@)),
                ));
                Ok(())
            },
            None => Err(ApiError::Internal),
        },
        None => Err(ApiError::Internal),
    }
}

/// Writes a text, where there is one.
fn write_text(table: &mut toml_edit::Table, key: &str, value: &Option<String>)
    ensures
        toml_doc::table_tree(*final(table)) == with_text(
            toml_doc::table_tree(*old(table)),
            key@,
            *value,
        ),
{
    if let Some(v) = value {
        table_set(table, key, text_item(v.as_str()));
    }
}

/// Writes a list of texts, where it is not empty.
fn write_texts(table: &mut toml_edit::Table, key: &str, value: &Vec<String>)
    ensures
        toml_doc::table_tree(*final(table)) == with_texts(
            toml_doc::table_tree(*old(table)),
            key@,
            value@,
        ),
{
    if value.len() > 0 {
        table_set(table, key, texts_item(value));
    }
}

/// Makes the table of a new binding.
fn binding_table(request: &CreateBindingRequest) -> (r: toml_edit::Table)
    ensures
        toml_doc::table_tree(r) == binding_tree(*request),
{
    let mut t = new_table();
    table_set(&mut t, "agent_id", text_item(request.agent_id.as_str()));
    table_set(&mut t, "channel", text_item(request.channel.as_str()));
    assert(toml_doc::table_tree(t) =~= map![
        "agent_id"@ => TomlTree::Text(request.agent_id@),
        "channel"@ => TomlTree::Text(request.channel@)
    ]);
    write_text(&mut t, "guild_id", &request.guild_id);
    write_text(&mut t, "workspace_id", &request.workspace_id);
    write_text(&mut t, "chat_id", &request.chat_id);
    write_texts(&mut t, "channel_ids", &request.channel_ids);
    write_texts(&mut t, "dm_allowed_users", &request.dm_allowed_users);
    t
}

/// Appends a binding to the bindings of a document.
fn push_binding(doc: &mut toml_edit::DocumentMut, request: &CreateBindingRequest) -> (r: Result<
    (),
    ApiError,
>)
    ensures
        match binding_tables(toml_doc::doc_tree(*old(doc))) {
            Some(tables) => r is Ok && toml_doc::doc_tree(*final(doc)) == toml_doc::doc_tree(
                *old(doc),
            ).insert("bindings"@, TomlTree::Tables(tables.push(binding_tree(*request)))),
            None => r == Err::<(), _>(ApiError::Internal),
        },
{
    let ghost before = toml_doc::doc_tree(*doc);
    let table = root_mut(doc);
    if table_get(table, "bindings").is_none() {
        table_set(table, "bindings", no_tables_item());
    }
    assert forall|part: TomlTree| #[trigger]
        toml_doc::table_tree(*table).insert("bindings"@, part) == before.insert(
            "bindings"@,
            part,
        ) by {
        assert(toml_doc::table_tree(*table).insert("bindings"@, part) =~= before.insert(
            "bindings"@,
            part,
        ));
    }
    match table_get_mut(table, "bindings") {
        Some(item) => match item_tables_mut(item) {
            Some(tables) => {
                let t = binding_table(request);
                tables_push(tables, t);
                Ok(())
            },
            None => Err(ApiError::Internal),
        },
        None => Err(ApiError::Internal),
    }
}

/// Adds a binding to a document, and the credentials of its platform.
pub fn add_binding(doc: &mut toml_edit::DocumentMut, request: &CreateBindingRequest) -> (r: Result<
    NewTokens,
    ApiError,
>)
    ensures
        match with_binding(toml_doc::doc_tree(*old(doc)), *request) {
            Some(d) => r is Ok && tokens_from(*request, r->Ok_0) && toml_doc::doc_tree(*final(doc))
                == d,
            None => r == Err::<NewTokens, _>(ApiError::Internal),
        },
{
    let tokens = tokens_of(request);
    if let Some(t) = &tokens.discord {
        match write_discord(doc, t.as_str()) {
            Ok(_) => {},
            Err(e) => {
                return Err(e);
            },
        }
    }
    if let Some(t) = &tokens.slack {
        match write_slack(doc, t.0.as_str(), t.1.as_str()) {
            Ok(_) => {},
            Err(e) => {
                return Err(e);
            },
        }
    }
    match push_binding(doc, request) {
        Ok(_) => Ok(tokens),
        Err(e) => Err(e),
    }
}

/// What is answered to a change of the bindings.
pub struct BindingAnswer {
    pub success: bool,
    pub message: String,
}

/// A binding that was created.
pub struct BindingCreated {
    /// The new text of the configuration file.
    pub content: String,
    pub tokens: NewTokens,
    pub answer: BindingAnswer,
    /// True if platform credentials were added/changed (adapter needs restart).
    pub restart_required: bool,
}

/// Creates a binding, and configures the credentials of its platform where they
/// are given, in the text of the configuration file.
pub fn create_binding(content: &str, request: &CreateBindingRequest) -> (r: Result<
    BindingCreated,
    ApiError,
>)
    ensures
        match toml_doc::parsed_document(content@) {
            Some(doc) => match with_binding(doc, *request) {
                Some(d) => r is Ok && toml_doc::renders(r->Ok_0.content@, d) && tokens_from(
                    *request,
                    r->Ok_0.tokens,
                ) && r->Ok_0.answer.success && r->Ok_0.answer.message@
                    == "Binding created and active."@ && r->Ok_0.restart_required == (
                new_discord_token(*request) is Some || new_slack_tokens(*request) is Some),
                None => r == Err::<BindingCreated, _>(ApiError::Internal),
            },
            None => r == Err::<BindingCreated, _>(ApiError::Internal),
        },
{
    match parse_document(content) {
        Some(d) => {
            let mut doc = d;
            match add_binding(&mut doc, request) {
                Ok(tokens) => {
                    let content = render_document(&doc);
                    assert(toml_doc::doc_text(doc) == content@);
                    let restart_required = tokens.discord.is_some() || tokens.slack.is_some();
                    Ok(
                        BindingCreated {
                            content,
                            tokens,
                            answer: BindingAnswer {
                                success: true,
                                message: "Binding created and active.".to_owned(),
                            },
                            restart_required,
                        },
                    )
                },
                Err(e) => Err(e),
            }
        },
        None => Err(ApiError::Internal),
    }
}

/// A request to delete a binding.
pub struct DeleteBindingRequest {
    pub agent_id: String,
    pub channel: String,
    pub guild_id: Option<String>,
    pub workspace_id: Option<String>,
    pub chat_id: Option<String>,
}

/// A table holds the given text under a key, or nothing where none is given.
pub open spec fn agrees_at(
    table: Map<Seq<char>, TomlTree>,
    key: Seq<char>,
    wanted: Option<Seq<char>>,
) -> bool {
    match wanted {
        Some(w) => toml_doc::text_at(table, key) == Some(w),
        None => !table.contains_key(key),
    }
}

/// A table is that of the binding to delete: agent, platform and the identifiers
/// of the platform agree.
pub open spec fn is_meant(
    table: Map<Seq<char>, TomlTree>,
    request: DeleteBindingRequest,
) -> bool {
    &&& toml_doc::text_at(table, "agent_id"@) == Some(request.agent_id@)
    &&& toml_doc::text_at(table, "channel"@) == Some(request.channel@)
    &&& agrees_at(table, "guild_id"@, text::opt_text(request.guild_id))
    &&& agrees_at(table, "workspace_id"@, text::opt_text(request.workspace_id))
    &&& agrees_at(table, "chat_id"@, text::opt_text(request.chat_id))
}

/// The position of the first binding that is meant, from a position on.
pub open spec fn first_meant(
    tables: Seq<Map<Seq<char>, TomlTree>>,
    request: DeleteBindingRequest,
    from: nat,
) -> Option<nat>
    decreases tables.len() - from,
{
    if from >= tables.len() {
        None
    } else if is_meant(tables[from as int], request) {
        Some(from)
    } else {
        first_meant(tables, request, from + 1)
    }
}

/// Whether a table holds the given text under a key, or nothing where none is
/// given.
fn agrees(table: &toml_edit::Table, key: &str, wanted: &Option<String>) -> (r: bool)
    ensures
        r == agrees_at(toml_doc::table_tree(*table), key@, text::opt_text(*wanted)),
{
    match wanted {
        Some(w) => match table_text(table, key) {
            Some(s) => str_eq(s, w.as_str()),
            None => false,
        },
        None => table_get(table, key).is_none(),
    }
}

/// Whether a table holds a text under a key.
fn has_exactly(table: &toml_edit::Table, key: &str, wanted: &String) -> (r: bool)
    ensures
        r == (toml_doc::text_at(toml_doc::table_tree(*table), key@) == Some(wanted@)),
{
    match table_text(table, key) {
        Some(s) => str_eq(s, wanted.as_str()),
        None => false,
    }
}

/// Finds the first binding that is meant.
fn find_meant(tables: &toml_edit::ArrayOfTables, request: &DeleteBindingRequest) -> (r: Option<usize>)
    ensures
        match r {
            Some(i) => first_meant(toml_doc::tables_tree(*tables), *request, 0) == Some(i as nat)
                && i < toml_doc::tables_tree(*tables).len(),
            None => first_meant(toml_doc::tables_tree(*tables), *request, 0) is None,
        },
{
    let n: usize = tables_len(tables);
    let mut i: usize = 0;
    while i < n
        invariant
            n == toml_doc::tables_tree(*tables).len(),
            i <= n,
            first_meant(toml_doc::tables_tree(*tables), *request, 0) == first_meant(
                toml_doc::tables_tree(*tables),
                *request,
                i as nat,
            ),
        decreases n - i,
    {
        if let Some(t) = tables_get(tables, i) {
            if has_exactly(t, "agent_id", &request.agent_id) && has_exactly(
                t,
                "channel",
                &request.channel,
            ) && agrees(t, "guild_id", &request.guild_id) && agrees(
                t,
                "workspace_id",
                &request.workspace_id,
            ) && agrees(t, "chat_id", &request.chat_id) {
                return Some(i);
            }
        }
        i = i + 1;
    }
    None
}

/// A document without the first binding that is meant, and whether there was one.
/// It fails where the document has no bindings.
pub open spec fn without_binding(
    doc: Map<Seq<char>, TomlTree>,
    request: DeleteBindingRequest,
) -> Option<(bool, Map<Seq<char>, TomlTree>)> {
    if !doc.contains_key("bindings"@) {
        None
    } else {
        match doc["bindings"@] {
            TomlTree::Tables(tables) => match first_meant(tables, request, 0) {
                Some(i) => Some(
                    (true, doc.insert("bindings"@, TomlTree::Tables(tables.remove(i as int)))),
                ),
                None => Some((false, doc)),
            },
            _ => None,
        }
    }
}

/// Removes a binding from a document. Says whether there was one.
pub fn remove_binding(
    doc: &mut toml_edit::DocumentMut,
    request: &DeleteBindingRequest,
) -> (r: Result<bool, ApiError>)
    ensures
        match without_binding(toml_doc::doc_tree(*old(doc)), *request) {
            Some((found, d)) => r == Ok::<_, ApiError>(found) && toml_doc::doc_tree(*final(doc))
                == d,
            None => r == Err::<bool, _>(ApiError::NotFound),
        },
{
    let ghost before = toml_doc::doc_tree(*doc);
    assert(before.contains_key("bindings"@) ==> before.insert("bindings"@, before["bindings"@])
        =~= before);
    match table_get_mut(root_mut(doc), "bindings") {
        Some(item) => match item_tables_mut(item) {
            Some(tables) => match find_meant(tables, request) {
                Some(i) => {
                    tables_remove(tables, i);
                    Ok(true)
                },
                None => Ok(false),
            },
            None => Err(ApiError::NotFound),
        },
        None => Err(ApiError::NotFound),
    }
}

/// A deletion: what is answered, and the new text of the configuration file
/// where it changes.
pub struct BindingDeleted {
    pub content: Option<String>,
    pub answer: BindingAnswer,
}

/// Deletes the first binding with the given agent, platform and identifiers of
/// the platform from the text of the configuration file, where there is a file.
pub fn delete_binding(content: Option<&str>, request: &DeleteBindingRequest) -> (r: Result<
    BindingDeleted,
    ApiError,
>)
    ensures
        match content {
            None => r == Err::<BindingDeleted, _>(ApiError::NotFound),
            Some(c) => match toml_doc::parsed_document(c@) {
                None => r == Err::<BindingDeleted, _>(ApiError::Internal),
                Some(doc) => match without_binding(doc, *request) {
                    None => r == Err::<BindingDeleted, _>(ApiError::NotFound),
                    Some((true, d)) => r is Ok && r->Ok_0.content is Some && toml_doc::renders(
                        r->Ok_0.content->0@,
                        d,
                    ) && r->Ok_0.answer.success && r->Ok_0.answer.message@ == "Binding deleted."@,
                    Some((false, _)) => r is Ok && r->Ok_0.content is None
                        && !r->Ok_0.answer.success && r->Ok_0.answer.message@
                        == "No matching binding found."@,
                },
            },
        },
{
    match content {
        None => Err(ApiError::NotFound),
        Some(c) => match parse_document(c) {
            None => Err(ApiError::Internal),
            Some(d) => {
                let mut doc = d;
                match remove_binding(&mut doc, request) {
                    Ok(found) => if found {
                        let text = render_document(&doc);
                        assert(toml_doc::doc_text(doc) == text@);
                        Ok(
                            BindingDeleted {
                                content: Some(text),
                                answer: BindingAnswer {
                                    success: true,
                                    message: "Binding deleted.".to_owned(),
                                },
                            },
                        )
                    } else {
                        Ok(
                            BindingDeleted {
                                content: None,
                                answer: BindingAnswer {
                                    success: false,
                                    message: "No matching binding found.".to_owned(),
                                },
                            },
                        )
                    },
                    Err(e) => Err(e),
                }
            },
        },
    }
}

/// The identifiers of a binding to create.
pub open spec fn same_identifiers(a: CreateBindingRequest, b: DeleteBindingRequest) -> bool {
    &&& a.agent_id@ == b.agent_id@
    &&& a.channel@ == b.channel@
    &&& text::opt_text(a.guild_id) == text::opt_text(b.guild_id)
    &&& text::opt_text(a.workspace_id) == text::opt_text(b.workspace_id)
    &&& text::opt_text(a.chat_id) == text::opt_text(b.chat_id)
}

/// A binding that was created is meant by a deletion with the same identifiers.
pub proof fn law_created_binding_is_meant(a: CreateBindingRequest, b: DeleteBindingRequest)
    requires
        same_identifiers(a, b),
    ensures
        is_meant(binding_tree(a), b),
{
    reveal_strlit("agent_id");
    reveal_strlit("channel");
    reveal_strlit("guild_id");
    reveal_strlit("workspace_id");
    reveal_strlit("chat_id");
    reveal_strlit("channel_ids");
    reveal_strlit("dm_allowed_users");
    let keys = seq![
        "agent_id"@,
        "channel"@,
        "guild_id"@,
        "workspace_id"@,
        "chat_id"@,
        "channel_ids"@,
        "dm_allowed_users"@,
    ];
    assert(keys[0].len() == 8 && keys[1].len() == 7 && keys[2].len() == 8 && keys[3].len() == 12
        && keys[4].len() == 7 && keys[5].len() == 11 && keys[6].len() == 16);
    assert(keys[0][0] == 'a' && keys[2][0] == 'g');
    assert(keys[1][1] == 'h' && keys[1][2] == 'a' && keys[4][2] == 'a' && keys[1][3] == 'n'
        && keys[4][3] == 't');
}

/// Where nothing among the tables is meant before a position, the search goes on
/// from there.
proof fn lemma_first_meant_skips(
    tables: Seq<Map<Seq<char>, TomlTree>>,
    request: DeleteBindingRequest,
    last: Map<Seq<char>, TomlTree>,
    from: nat,
)
    requires
        first_meant(tables, request, from) is None,
        from <= tables.len(),
        is_meant(last, request),
    ensures
        first_meant(tables.push(last), request, from) == Some(tables.len()),
    decreases tables.len() - from,
{
    if from < tables.len() {
        assert(tables.push(last)[from as int] == tables[from as int]);
        lemma_first_meant_skips(tables, request, last, from + 1);
    }
}

/// Deleting a binding right after it was created, where no earlier binding has its
/// identifiers, leaves the bindings as they were before, and the credentials that
/// came with it. Without credentials, a document that has bindings is given back.
pub proof fn law_delete_undoes_create(
    doc: Map<Seq<char>, TomlTree>,
    a: CreateBindingRequest,
    b: DeleteBindingRequest,
)
    requires
        same_identifiers(a, b),
        with_binding(doc, a) is Some,
        first_meant(binding_tables(doc)->0, b, 0) is None,
    ensures
        without_binding(with_binding(doc, a)->0, b) == Some(
            (
                true,
                with_credentials(doc, a)->0.insert(
                    "bindings"@,
                    TomlTree::Tables(binding_tables(doc)->0),
                ),
            ),
        ),
        a.platform_credentials is None && doc.contains_key("bindings"@) ==> without_binding(
            with_binding(doc, a)->0,
            b,
        ) == Some((true, doc)),
{
    reveal_strlit("bindings");
    reveal_strlit("messaging");
    assert("bindings"@.len() != "messaging"@.len());
    let tables = binding_tables(doc)->0;
    let kept = with_credentials(doc, a)->0;
    assert(binding_tables(kept) == binding_tables(doc));
    law_created_binding_is_meant(a, b);
    lemma_first_meant_skips(tables, b, binding_tree(a), 0);
    let after = with_binding(doc, a)->0;
    assert(tables.push(binding_tree(a)).remove(tables.len() as int) =~= tables);
    assert(after.insert("bindings"@, TomlTree::Tables(tables)) =~= kept.insert(
        "bindings"@,
        TomlTree::Tables(tables),
    ));
    if a.platform_credentials is None && doc.contains_key("bindings"@) {
        assert(kept.insert("bindings"@, TomlTree::Tables(tables)) =~= doc);
    }
}

/// Creating a binding keeps every other part of the document as it was, but for
/// the section of the messaging platforms where credentials are written.
pub proof fn law_create_keeps_the_rest(
    doc: Map<Seq<char>, TomlTree>,
    request: CreateBindingRequest,
    key: Seq<char>,
)
    requires
        with_binding(doc, request) is Some,
        key != "bindings"@,
        key != "messaging"@ || request.platform_credentials is None,
    ensures
        with_binding(doc, request)->0.contains_key(key) == doc.contains_key(key),
        doc.contains_key(key) ==> with_binding(doc, request)->0[key] == doc[key],
{
}

/// What follows a change of the bindings: the permission filters to store and the
/// adapters to start.
pub struct HotReload {
    /// The filter to store for Discord.
    pub discord_permissions: Option<DiscordPermissions>,
    /// The filter to store for Slack.
    pub slack_permissions: Option<SlackPermissions>,
    /// The token of the Discord adapter to start.
    pub start_discord: Option<String>,
    /// The tokens of the Slack adapter to start.
    pub start_slack: Option<(String, String)>,
}

/// What of the running program a change of the bindings meets.
#[derive(Clone, Copy, Debug, PartialEq, Eq, Structural)]
pub struct Running {
    /// There is a filter for Discord.
    pub discord_permissions: bool,
    /// There is a filter for Slack.
    pub slack_permissions: bool,
    /// There is a manager that can start adapters.
    pub manager: bool,
}

/// Decides what follows a change of the bindings, from the configuration as it
/// was read again. A filter is rebuilt where there is one already, and made where
/// an adapter is started that needs it. A platform that an adapter is started for
/// must be configured, or have a filter.
pub fn hot_reload(config: &Config, running: Running, tokens: &NewTokens) -> (r: HotReload)
    requires
        running.manager && tokens.discord is Some && !running.discord_permissions
            ==> config.messaging.discord is Some,
        running.manager && tokens.slack is Some && !running.slack_permissions
            ==> config.messaging.slack is Some,
    ensures
        match r.discord_permissions {
            Some(p) => config.messaging.discord is Some && (running.discord_permissions || (
            running.manager && tokens.discord is Some)) && bindings::discord_permits(
                config.messaging.discord->0,
                config.bindings@,
                p,
            ),
            None => config.messaging.discord is None || (!running.discord_permissions && !(
            running.manager && tokens.discord is Some)),
        },
        match r.slack_permissions {
            Some(p) => config.messaging.slack is Some && (running.slack_permissions || (
            running.manager && tokens.slack is Some)) && bindings::slack_permits(
                config.messaging.slack->0,
                config.bindings@,
                p,
            ),
            None => config.messaging.slack is None || (!running.slack_permissions && !(
            running.manager && tokens.slack is Some)),
        },
        r.start_discord == (if running.manager {
            tokens.discord
        } else {
            None
        }),
        r.start_slack == (if running.manager {
            tokens.slack
        } else {
            None
        }),
{
    let new_discord = running.manager && tokens.discord.is_some();
    let new_slack = running.manager && tokens.slack.is_some();
    let discord_permissions = match &config.messaging.discord {
        Some(d) => if running.discord_permissions || new_discord {
            Some(DiscordPermissions::from_config(d, config.bindings.as_slice()))
        } else {
            None
        },
        None => None,
    };
    let slack_permissions = match &config.messaging.slack {
        Some(s) => if running.slack_permissions || new_slack {
            Some(SlackPermissions::from_config(s, config.bindings.as_slice()))
        } else {
            None
        },
        None => None,
    };
    let start_discord = if running.manager {
        clone_opt(&tokens.discord)
    } else {
        None
    };
    let start_slack = if running.manager {
        match &tokens.slack {
            Some(t) => Some((t.0.clone(), t.1.clone())),
            None => None,
        }
    } else {
        None
    };
    HotReload { discord_permissions, slack_permissions, start_discord, start_slack }
}

/// The keys of a binding differ.
proof fn lemma_binding_keys()
    ensures
        "agent_id"@ != "channel"@,
        "agent_id"@ != "guild_id"@,
        "agent_id"@ != "workspace_id"@,
        "agent_id"@ != "chat_id"@,
        "agent_id"@ != "channel_ids"@,
        "agent_id"@ != "dm_allowed_users"@,
        "channel"@ != "guild_id"@,
        "channel"@ != "workspace_id"@,
        "channel"@ != "chat_id"@,
        "channel"@ != "channel_ids"@,
        "channel"@ != "dm_allowed_users"@,
        "guild_id"@ != "workspace_id"@,
        "guild_id"@ != "chat_id"@,
        "guild_id"@ != "channel_ids"@,
        "guild_id"@ != "dm_allowed_users"@,
        "workspace_id"@ != "chat_id"@,
        "workspace_id"@ != "channel_ids"@,
        "workspace_id"@ != "dm_allowed_users"@,
        "chat_id"@ != "channel_ids"@,
        "chat_id"@ != "dm_allowed_users"@,
        "channel_ids"@ != "dm_allowed_users"@,
{
    reveal_strlit("agent_id");
    reveal_strlit("channel");
    reveal_strlit("guild_id");
    reveal_strlit("workspace_id");
    reveal_strlit("chat_id");
    reveal_strlit("channel_ids");
    reveal_strlit("dm_allowed_users");
    assert("agent_id"@[0] != "guild_id"@[0]);
    assert("channel"@[3] != "chat_id"@[3]);
    assert("agent_id"@.len() == 8);
    assert("channel"@.len() == 7);
    assert("guild_id"@.len() == 8);
    assert("workspace_id"@.len() == 12);
    assert("chat_id"@.len() == 7);
    assert("channel_ids"@.len() == 11);
    assert("dm_allowed_users"@.len() == 16);
}

/// The keys of the credentials differ.
proof fn lemma_credential_keys()
    ensures
        "enabled"@ != "token"@,
        "enabled"@ != "bot_token"@,
        "enabled"@ != "app_token"@,
        "token"@ != "bot_token"@,
        "token"@ != "app_token"@,
        "bot_token"@ != "app_token"@,
{
    reveal_strlit("enabled");
    reveal_strlit("token");
    reveal_strlit("bot_token");
    reveal_strlit("app_token");
    assert("bot_token"@[0] != "app_token"@[0]);
    assert("enabled"@.len() == 7);
    assert("token"@.len() == 5);
    assert("bot_token"@.len() == 9);
    assert("app_token"@.len() == 9);
}

/// A platform is configured where each of its credentials is a text that is not empty, and
/// enabled where it says so too. One that the document does not have is neither.
pub proof fn law_platforms_are_configured_by_credentials(
    section: Map<Seq<char>, TomlTree>,
    credentials: Seq<Seq<char>>,
    missing: Seq<char>,
)
    ensures
        (forall|i: int|
            0 <= i < credentials.len() ==> section.contains_key(#[trigger] credentials[i]) && (
            section[credentials[i]] matches TomlTree::Text(s) && s.len() > 0)) ==> platform_status(
            Some(TomlTree::Table(section)),
            credentials,
        ).configured,
        credentials.contains(missing) && (!section.contains_key(missing) || section[missing]
            == TomlTree::Text(Seq::empty())) ==> !platform_status(
            Some(TomlTree::Table(section)),
            credentials,
        ).configured,
        platform_status(Some(TomlTree::Table(section)), credentials).enabled <==> platform_status(
            Some(TomlTree::Table(section)),
            credentials,
        ).configured && section.contains_key("enabled"@) && section["enabled"@] == TomlTree::Flag(
            true,
        ),
        !platform_status(None, credentials).configured && !platform_status(
            None,
            credentials,
        ).enabled,
{
    let p = TomlTree::Table(section);
    if credentials.contains(missing) {
        let i = choose|i: int| 0 <= i < credentials.len() && credentials[i] == missing;
        assert(credentials[i] == missing);
        if !section.contains_key(missing) || section[missing] == TomlTree::Text(Seq::empty()) {
            assert(!toml_doc::has_text_at(p, credentials[i]));
        }
    }
    if forall|i: int|
        0 <= i < credentials.len() ==> section.contains_key(#[trigger] credentials[i]) && (
        section[credentials[i]] matches TomlTree::Text(s) && s.len() > 0) {
        assert forall|i: int| 0 <= i < credentials.len() implies toml_doc::has_text_at(
            p,
            #[trigger] credentials[i],
        ) by {}
    }
}

/// The bindings of an agent are listed in order, without those of others; all are listed
/// where no agent is given.
pub proof fn law_bindings_of_an_agent(all: Seq<Binding>, b: Binding, id: Seq<char>)
    ensures
        b.agent_id@ == id ==> bindings_of(all.push(b), Some(id)) == bindings_of(
            all,
            Some(id),
        ).push(b),
        b.agent_id@ != id ==> bindings_of(all.push(b), Some(id)) == bindings_of(all, Some(id)),
        bindings_of(Seq::empty(), Some(id)).len() == 0,
        bindings_of(all, None) == all,
{
    all.lemma_filter_push(b, of_agent(id));
    Seq::<Binding>::empty().lemma_filter_len(of_agent(id));
}

/// A token that is given and not empty is written, and for Slack both of them are needed.
pub proof fn law_given_tokens_are_new(request: CreateBindingRequest, c: PlatformCredentials)
    ensures
        request.platform_credentials == Some(c) ==> {
            &&& (new_discord_token(request) is Some <==> c.discord_token is Some
                && c.discord_token->0@.len() > 0)
            &&& (new_discord_token(request) is Some ==> new_discord_token(request)->0
                == c.discord_token->0@)
            &&& (new_slack_tokens(request) is Some <==> c.slack_bot_token is Some
                && c.slack_app_token is Some && c.slack_bot_token->0@.len() > 0
                && c.slack_app_token->0@.len() > 0)
            &&& (new_slack_tokens(request) is Some ==> new_slack_tokens(request) == Some(
                (c.slack_bot_token->0@, c.slack_app_token->0@),
            ))
        },
        request.platform_credentials is None ==> new_discord_token(request) is None
            && new_slack_tokens(request) is None,
{
}

/// Credentials are written into the section of their platform and enable it. What the
/// section, the other platforms and the rest of the document hold is kept.
pub proof fn law_credentials_are_written(
    doc: Map<Seq<char>, TomlTree>,
    messaging: Map<Seq<char>, TomlTree>,
    section: Map<Seq<char>, TomlTree>,
    token: Seq<char>,
    app: Seq<char>,
    key: Seq<char>,
)
    requires
        doc.contains_key("messaging"@) && doc["messaging"@] == TomlTree::Table(messaging),
    ensures
        messaging.contains_key("discord"@) && messaging["discord"@] == TomlTree::Table(section)
            ==> {
            let r = with_platform(doc, "discord"@, discord_values(token));
            &&& r is Some && r->0.contains_key("messaging"@)
            &&& toml_doc::section(r->0, "messaging"@, "discord"@) is Some
            &&& toml_doc::section(r->0, "messaging"@, "discord"@)->0 is Table
            &&& ({
                let s = toml_doc::section(r->0, "messaging"@, "discord"@)->0->Table_0;
                &&& s.contains_key("token"@) && s["token"@] == TomlTree::Text(token)
                &&& s.contains_key("enabled"@) && s["enabled"@] == TomlTree::Flag(true)
                &&& (section.contains_key(key) && key != "token"@ && key != "enabled"@
                    ==> s.contains_key(key) && s[key] == section[key])
            })
            &&& (key != "discord"@ ==> toml_doc::section(r->0, "messaging"@, key)
                == toml_doc::section(doc, "messaging"@, key))
        },
        !messaging.contains_key("slack"@) ==> {
            let r = with_platform(doc, "slack"@, slack_values((token, app)));
            &&& r is Some
            &&& ({
                let s = toml_doc::section(r->0, "messaging"@, "slack"@)->0->Table_0;
                &&& s.contains_key("bot_token"@) && s["bot_token"@] == TomlTree::Text(token)
                &&& s.contains_key("app_token"@) && s["app_token"@] == TomlTree::Text(app)
                &&& s.contains_key("enabled"@) && s["enabled"@] == TomlTree::Flag(true)
            })
        },
{
    lemma_credential_keys();
}

/// A binding is written with its agent and its platform, and with the identifiers and
/// lists that the request gives, and no others.
pub proof fn law_binding_is_written(request: CreateBindingRequest)
    ensures
        binding_tree(request)["agent_id"@] == TomlTree::Text(request.agent_id@),
        binding_tree(request)["channel"@] == TomlTree::Text(request.channel@),
        binding_tree(request).contains_key("agent_id"@) && binding_tree(request).contains_key(
            "channel"@,
        ),
        request.guild_id matches Some(x) ==> binding_tree(request).contains_key("guild_id"@)
            && binding_tree(request)["guild_id"@] == TomlTree::Text(x@),
        request.guild_id is None ==> !binding_tree(request).contains_key("guild_id"@),
        request.workspace_id matches Some(x) ==> binding_tree(request).contains_key("workspace_id"@)
            && binding_tree(request)["workspace_id"@] == TomlTree::Text(x@),
        request.workspace_id is None ==> !binding_tree(request).contains_key("workspace_id"@),
        request.chat_id matches Some(x) ==> binding_tree(request).contains_key("chat_id"@)
            && binding_tree(request)["chat_id"@] == TomlTree::Text(x@),
        request.chat_id is None ==> !binding_tree(request).contains_key("chat_id"@),
        request.channel_ids@.len() > 0 ==> binding_tree(request).contains_key("channel_ids"@)
            && binding_tree(request)["channel_ids"@] == TomlTree::Texts(text::texts(request.channel_ids@)),
        request.channel_ids@.len() == 0 ==> !binding_tree(request).contains_key("channel_ids"@),
        request.dm_allowed_users@.len() > 0 ==> binding_tree(request).contains_key("dm_allowed_users"@)
            && binding_tree(request)["dm_allowed_users"@] == TomlTree::Texts(text::texts(request.dm_allowed_users@)),
        request.dm_allowed_users@.len() == 0 ==> !binding_tree(request).contains_key("dm_allowed_users"@),
{
    lemma_binding_keys();
}

/// A new binding comes last, and the bindings before it stay.
pub proof fn law_new_binding_comes_last(
    doc: Map<Seq<char>, TomlTree>,
    tables: Seq<Map<Seq<char>, TomlTree>>,
    request: CreateBindingRequest,
)
    requires
        request.platform_credentials is None,
    ensures
        doc.contains_key("bindings"@) && doc["bindings"@] == TomlTree::Tables(tables)
            ==> with_binding(doc, request) is Some && with_binding(doc, request)->0["bindings"@]
            == TomlTree::Tables(tables.push(binding_tree(request))),
        !doc.contains_key("bindings"@) ==> with_binding(doc, request) is Some && with_binding(
            doc,
            request,
        )->0["bindings"@] == TomlTree::Tables(seq![binding_tree(request)]),
{
}

/// A deletion means a binding with the agent, the platform and the identifiers that it
/// names: an identifier that it does not name must not be there.
pub proof fn law_deletion_means_what_it_names(
    table: Map<Seq<char>, TomlTree>,
    request: DeleteBindingRequest,
)
    requires
        is_meant(table, request),
    ensures
        table["agent_id"@] == TomlTree::Text(request.agent_id@),
        table["channel"@] == TomlTree::Text(request.channel@),
        request.guild_id matches Some(x) ==> table["guild_id"@] == TomlTree::Text(x@),
        request.guild_id is None ==> !table.contains_key("guild_id"@),
        request.workspace_id matches Some(x) ==> table["workspace_id"@] == TomlTree::Text(x@),
        request.workspace_id is None ==> !table.contains_key("workspace_id"@),
        request.chat_id matches Some(x) ==> table["chat_id"@] == TomlTree::Text(x@),
        request.chat_id is None ==> !table.contains_key("chat_id"@),
{
}

/// The first binding that is meant is deleted, and no other: those before it and behind it
/// stay in order. Where none is meant the document stays as it is.
pub proof fn law_first_meant_binding_is_deleted(
    doc: Map<Seq<char>, TomlTree>,
    tables: Seq<Map<Seq<char>, TomlTree>>,
    request: DeleteBindingRequest,
    i: int,
)
    requires
        doc.contains_key("bindings"@),
        doc["bindings"@] == TomlTree::Tables(tables),
        0 <= i <= tables.len(),
        i < tables.len() ==> is_meant(tables[i], request),
        forall|k: int| 0 <= k < i ==> !is_meant(#[trigger] tables[k], request),
    ensures
        i < tables.len() ==> without_binding(doc, request) == Some(
            (true, doc.insert("bindings"@, TomlTree::Tables(tables.take(i) + tables.skip(i + 1)))),
        ),
        i == tables.len() ==> without_binding(doc, request) == Some((false, doc)),
{
    lemma_first_meant_at(tables, request, 0, i);
    if i < tables.len() {
        assert(tables.remove(i) == tables.take(i) + tables.skip(i + 1));
    }
}

proof fn lemma_first_meant_at(
    tables: Seq<Map<Seq<char>, TomlTree>>,
    request: DeleteBindingRequest,
    from: nat,
    i: int,
)
    requires
        from <= i <= tables.len(),
        i < tables.len() ==> is_meant(tables[i], request),
        forall|k: int| from <= k < i ==> !is_meant(#[trigger] tables[k], request),
    ensures
        first_meant(tables, request, from) == (if i < tables.len() {
            Some(i as nat)
        } else {
            None
        }),
    decreases tables.len() - from,
{
    if from < i {
        assert(!is_meant(tables[from as int], request));
        lemma_first_meant_at(tables, request, from + 1, i);
    }
}

} // verus!
