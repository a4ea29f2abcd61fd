//! Messaging platforms, the bindings that route their conversations to agents,
//! and the permission filters that follow from both.
use crate::message;
use crate::message::{get_i64, get_text, get_u64, InboundMessage};
use crate::text;
use crate::text::{clone_texts, holds_text, i64_text, parse_i64, parse_unsigned, str_eq, u64_text};
use crate::text_map::TextMap;
use std::collections::HashMap;
use vstd::prelude::*;

verus! {

broadcast use vstd::std_specs::hash::group_hash_axioms;

/// Routes a messaging platform conversation to a specific agent.
pub struct Binding {
    pub agent_id: String,
    /// The platform.
    pub channel: String,
    pub guild_id: Option<String>,
    /// Slack workspace (team) ID.
    pub workspace_id: Option<String>,
    pub chat_id: Option<String>,
    /// Channel IDs this binding applies to. If empty, all channels are allowed.
    pub channel_ids: Vec<String>,
    /// User IDs allowed to DM the bot through this binding.
    pub dm_allowed_users: Vec<String>,
}

impl Clone for Binding {
    fn clone(&self) -> (r: Self)
        ensures
            same_binding(r, *self),
    {
        Binding {
            agent_id: self.agent_id.clone(),
            channel: self.channel.clone(),
            guild_id: crate::config::clone_opt(&self.guild_id),
            workspace_id: crate::config::clone_opt(&self.workspace_id),
            chat_id: crate::config::clone_opt(&self.chat_id),
            channel_ids: clone_texts(&self.channel_ids),
            dm_allowed_users: clone_texts(&self.dm_allowed_users),
        }
    }
}

/// Two bindings hold the same values.
pub open spec fn same_binding(a: Binding, b: Binding) -> bool {
    &&& a.agent_id == b.agent_id
    &&& a.channel == b.channel
    &&& a.guild_id == b.guild_id
    &&& a.workspace_id == b.workspace_id
    &&& a.chat_id == b.chat_id
    &&& a.channel_ids@ == b.channel_ids@
    &&& a.dm_allowed_users@ == b.dm_allowed_users@
}

/// Copies a list of bindings.
pub fn clone_bindings(v: &Vec<Binding>) -> (r: Vec<Binding>)
    ensures
        r@.len() == v@.len(),
        forall|i: int| 0 <= i < r@.len() ==> same_binding(#[trigger] r@[i], v@[i]),
{
    let mut out: Vec<Binding> = Vec::new();
    let mut i: usize = 0;
    while i < v.len()
        invariant
            i == out@.len(),
            i <= v@.len(),
            forall|j: int| 0 <= j < i ==> same_binding(#[trigger] out@[j], v@[j]),
        decreases v@.len() - i,
    {
        out.push(v[i].clone());
        i = i + 1;
    }
    out
}

/// A direct message on Discord: it has no guild.
pub open spec fn is_dm(message: InboundMessage) -> bool {
    !message.metadata@.contains_key("discord_guild_id"@) && message.source@ == "discord"@
}

/// A number in metadata, written in decimal, is one of the texts.
pub open spec fn number_listed(n: Option<u64>, ids: Seq<String>) -> bool {
    match n {
        Some(k) => text::texts(ids).contains(text::decimal(k as nat)),
        None => false,
    }
}

/// The Telegram chat of a message: a text, or an integer in decimal.
pub open spec fn message_chat(message: InboundMessage) -> Option<Seq<char>> {
    match message::meta_text(message.metadata@, "telegram_chat_id"@) {
        Some(s) => Some(s),
        None => match message::meta_i64(message.metadata@, "telegram_chat_id"@) {
            Some(n) => Some(text::decimal_int(n)),
            None => None,
        },
    }
}

/// The message comes from the channel of one of the ids, or from a thread below it.
pub open spec fn in_channels(message: InboundMessage, ids: Seq<String>) -> bool {
    let meta = message.metadata@;
    ||| number_listed(message::meta_u64(meta, "discord_channel_id"@), ids)
    ||| (match message::meta_text(meta, "slack_channel_id"@) {
        Some(s) => text::texts(ids).contains(s),
        None => false,
    })
    ||| number_listed(message::meta_u64(meta, "discord_parent_channel_id"@), ids)
}

impl Binding {
    /// The binding is for the conversation of a message. A direct message on
    /// Discord is for the binding that allows its sender; any other message must
    /// come from the guild, workspace, channel and chat that the binding names.
    pub open spec fn admits(&self, message: InboundMessage) -> bool {
        let meta = message.metadata@;
        &&& self.channel@ == message.source@
        &&& if is_dm(message) {
            text::texts(self.dm_allowed_users@).contains(message.sender_id@)
        } else {
            &&& (match self.guild_id {
                Some(g) => match message::meta_u64(meta, "discord_guild_id"@) {
                    Some(n) => text::decimal(n as nat) == g@,
                    None => false,
                },
                None => true,
            })
            &&& (match self.workspace_id {
                Some(w) => message::meta_text(meta, "slack_workspace_id"@) == Some(w@),
                None => true,
            })
            &&& (self.channel_ids@.len() > 0 ==> in_channels(message, self.channel_ids@))
            &&& (match self.chat_id {
                Some(c) => message_chat(message) == Some(c@),
                None => true,
            })
        }
    }

    /// Check if this binding matches an inbound message.
    pub fn matches(&self, message: &InboundMessage) -> (r: bool)
        ensures
            r == self.admits(*message),
    {
        if !str_eq(self.channel.as_str(), message.source.as_str()) {
            return false;
        }
        let dm = !message.metadata.contains_key("discord_guild_id") && str_eq(
            message.source.as_str(),
            "discord",
        );
        if dm {
            return holds_text(&self.dm_allowed_users, message.sender_id.as_str());
        }
        if let Some(guild_id) = &self.guild_id {
            let same = match get_u64(&message.metadata, "discord_guild_id") {
                Some(n) => str_eq(u64_text(n).as_str(), guild_id.as_str()),
                None => false,
            };
            if !same {
                return false;
            }
        }
        if let Some(workspace_id) = &self.workspace_id {
            let same = match get_text(&message.metadata, "slack_workspace_id") {
                Some(s) => str_eq(s.as_str(), workspace_id.as_str()),
                None => false,
            };
            if !same {
                return false;
            }
        }
        if self.channel_ids.len() > 0 {
            if !self.lists_channel(message) {
                return false;
            }
        }
        if let Some(chat_id) = &self.chat_id {
            let chat = match get_text(&message.metadata, "telegram_chat_id") {
                Some(s) => Some(s),
                None => match get_i64(&message.metadata, "telegram_chat_id") {
                    Some(n) => Some(i64_text(n)),
                    None => None,
                },
            };
            let same = match chat {
                Some(s) => str_eq(s.as_str(), chat_id.as_str()),
                None => false,
            };
            if !same {
                return false;
            }
        }
        true
    }

    fn lists_channel(&self, message: &InboundMessage) -> (r: bool)
        ensures
            r == in_channels(*message, self.channel_ids@),
    {
        let direct = match get_u64(&message.metadata, "discord_channel_id") {
            Some(n) => holds_text(&self.channel_ids, u64_text(n).as_str()),
            None => false,
        };
        let slack = match get_text(&message.metadata, "slack_channel_id") {
            Some(s) => holds_text(&self.channel_ids, s.as_str()),
            None => false,
        };
        let parent = match get_u64(&message.metadata, "discord_parent_channel_id") {
            Some(n) => holds_text(&self.channel_ids, u64_text(n).as_str()),
            None => false,
        };
        direct || slack || parent
    }
}

/// The agent of the first binding that admits a message, else the default agent.
pub open spec fn agent_for(
    bindings: Seq<Binding>,
    message: InboundMessage,
    default_agent_id: Seq<char>,
) -> Seq<char>
    decreases bindings.len(),
{
    if bindings.len() == 0 {
        default_agent_id
    } else if bindings[0].admits(message) {
        bindings[0].agent_id@
    } else {
        agent_for(bindings.drop_first(), message, default_agent_id)
    }
}

/// Resolve which agent should handle an inbound message.
///
/// Checks bindings in order. First match wins. Falls back to the default
/// agent if no binding matches.
pub fn resolve_agent_for_message(
    bindings: &[Binding],
    message: &InboundMessage,
    default_agent_id: &str,
) -> (r: String)
    ensures
        r@ == agent_for(bindings@, *message, default_agent_id@),
{
    let mut i: usize = 0;
    proof {
        assert(bindings@.skip(0) =~= bindings@);
    }
    while i < bindings.len()
        invariant
            i <= bindings@.len(),
            agent_for(bindings@.skip(i as int), *message, default_agent_id@) == agent_for(
                bindings@,
                *message,
                default_agent_id@,
            ),
        decreases bindings@.len() - i,
    {
        proof {
            assert(bindings@.skip(i as int)[0] == bindings@[i as int]);
            assert(bindings@.skip(i as int).drop_first() =~= bindings@.skip(i + 1));
        }
        if bindings[i].matches(message) {
            return bindings[i].agent_id.clone();
        }
        i = i + 1;
    }
    default_agent_id.to_owned()
}

/// The agent that a message names, else the one that the bindings give.
pub open spec fn routed_to(
    bindings: Seq<Binding>,
    message: InboundMessage,
    default_agent_id: Seq<char>,
) -> Seq<char> {
    match message.agent_id {
        Some(id) => id@,
        None => agent_for(bindings, message, default_agent_id),
    }
}

/// Route an inbound message to an agent. An agent that the message names overrides
/// the resolution by bindings.
pub fn route_message(
    bindings: &[Binding],
    message: &InboundMessage,
    default_agent_id: &str,
) -> (r: String)
    ensures
        r@ == routed_to(bindings@, *message, default_agent_id@),
{
    match &message.agent_id {
        Some(id) => id.clone(),
        None => resolve_agent_for_message(bindings, message, default_agent_id),
    }
}

/// The first binding that admits a message decides; where none does, the
/// default agent is chosen.
pub proof fn law_first_match_wins(
    bindings: Seq<Binding>,
    message: InboundMessage,
    default_agent_id: Seq<char>,
    k: int,
)
    requires
        0 <= k <= bindings.len(),
        forall|j: int| 0 <= j < k ==> !(#[trigger] bindings[j]).admits(message),
        k < bindings.len() ==> bindings[k].admits(message),
    ensures
        agent_for(bindings, message, default_agent_id) == (if k < bindings.len() {
            bindings[k].agent_id@
        } else {
            default_agent_id
        }),
    decreases k,
{
    if k > 0 {
        assert(!bindings[0].admits(message));
        assert forall|j: int| 0 <= j < k - 1 implies !(#[trigger] bindings.drop_first()[j]).admits(
            message,
        ) by {
            assert(!bindings[j + 1].admits(message));
        }
        law_first_match_wins(bindings.drop_first(), message, default_agent_id, k - 1);
    }
}

/// Metadata holds a number under a key, and a text writes it in decimal.
pub open spec fn number_is(message: InboundMessage, key: Seq<char>, s: Seq<char>) -> bool {
    &&& message.metadata@.contains_key(key)
    &&& message.metadata@[key] matches message::JsonView::PosInt(n) && text::decimal(n as nat) == s
}

/// Metadata holds a text under a key.
pub open spec fn text_is(message: InboundMessage, key: Seq<char>, s: Seq<char>) -> bool {
    message.metadata@.contains_key(key) && message.metadata@[key] == message::JsonView::Text(s)
}

/// Metadata names a chat under a key: by a text, or by an integer in decimal.
pub open spec fn chat_is(message: InboundMessage, key: Seq<char>, s: Seq<char>) -> bool {
    &&& message.metadata@.contains_key(key)
    &&& match message.metadata@[key] {
        message::JsonView::Text(t) => t == s,
        message::JsonView::PosInt(n) => n <= i64::MAX && text::decimal(n as nat) == s,
        message::JsonView::NegInt(n) => text::decimal_int(n as int) == s,
        _ => false,
    }
}

/// An id is the channel of a message: its channel on Discord or on Slack, or the channel
/// on Discord that its thread belongs to.
pub open spec fn comes_from(message: InboundMessage, id: Seq<char>) -> bool {
    ||| number_is(message, "discord_channel_id"@, id)
    ||| number_is(message, "discord_parent_channel_id"@, id)
    ||| text_is(message, "slack_channel_id"@, id)
}

/// A binding that lists an id holds a text of that id.
proof fn lemma_listed(ids: Seq<String>, s: Seq<char>)
    ensures
        text::texts(ids).contains(s) <==> exists|i: int|
            0 <= i < ids.len() && (#[trigger] ids[i])@ == s,
{
    if text::texts(ids).contains(s) {
        let i = choose|i: int| 0 <= i < text::texts(ids).len() && text::texts(ids)[i] == s;
        assert(ids[i]@ == s);
    }
    if exists|i: int| 0 <= i < ids.len() && (#[trigger] ids[i])@ == s {
        let i = choose|i: int| 0 <= i < ids.len() && (#[trigger] ids[i])@ == s;
        assert(text::texts(ids)[i] == s);
    }
}

/// What a binding names must be so: its platform, its guild, its workspace, its chat and
/// one of its channels, where it names any. A direct message on Discord must be of one
/// of the users that it allows.
pub proof fn law_binding_keeps_to_what_it_names(binding: Binding, message: InboundMessage)
    requires
        binding.admits(message),
    ensures
        binding.channel@ == message.source@,
        ({
            let direct = message.source@ == "discord"@ && !message.metadata@.contains_key(
                "discord_guild_id"@,
            );
            if direct {
                exists|i: int|
                    0 <= i < binding.dm_allowed_users@.len() && (
                    #[trigger] binding.dm_allowed_users@[i])@ == message.sender_id@
            } else {
                &&& (binding.guild_id matches Some(g) ==> number_is(
                    message,
                    "discord_guild_id"@,
                    g@,
                ))
                &&& (binding.workspace_id matches Some(w) ==> text_is(
                    message,
                    "slack_workspace_id"@,
                    w@,
                ))
                &&& (binding.chat_id matches Some(c) ==> chat_is(message, "telegram_chat_id"@, c@))
                &&& (binding.channel_ids@.len() > 0 ==> exists|i: int|
                    0 <= i < binding.channel_ids@.len() && comes_from(
                        message,
                        (#[trigger] binding.channel_ids@[i])@,
                    ))
            }
        }),
{
    let meta = message.metadata@;
    let ids = binding.channel_ids@;
    lemma_listed(binding.dm_allowed_users@, message.sender_id@);
    if !is_dm(message) && ids.len() > 0 {
        let s = if number_listed(message::meta_u64(meta, "discord_channel_id"@), ids) {
            text::decimal(message::meta_u64(meta, "discord_channel_id"@)->0 as nat)
        } else if number_listed(message::meta_u64(meta, "discord_parent_channel_id"@), ids) {
            text::decimal(message::meta_u64(meta, "discord_parent_channel_id"@)->0 as nat)
        } else {
            message::meta_text(meta, "slack_channel_id"@)->0
        };
        lemma_listed(ids, s);
        let i = choose|i: int| 0 <= i < ids.len() && (#[trigger] ids[i])@ == s;
        assert(comes_from(message, ids[i]@));
    }
}

/// A binding admits every message that is as it names: one of its platform, and of the
/// guild, the workspace, the chat and one of the channels that it names, where it names
/// any; or a direct message on Discord of a user that it allows. A binding that names a
/// platform alone admits every other message of it.
pub proof fn law_binding_admits_what_it_names(binding: Binding, message: InboundMessage)
    requires
        binding.channel@ == message.source@,
        ({
            let direct = message.source@ == "discord"@ && !message.metadata@.contains_key(
                "discord_guild_id"@,
            );
            if direct {
                exists|i: int|
                    0 <= i < binding.dm_allowed_users@.len() && (
                    #[trigger] binding.dm_allowed_users@[i])@ == message.sender_id@
            } else {
                &&& (binding.guild_id matches Some(g) ==> number_is(
                    message,
                    "discord_guild_id"@,
                    g@,
                ))
                &&& (binding.workspace_id matches Some(w) ==> text_is(
                    message,
                    "slack_workspace_id"@,
                    w@,
                ))
                &&& (binding.chat_id matches Some(c) ==> chat_is(message, "telegram_chat_id"@, c@))
                &&& (binding.channel_ids@.len() > 0 ==> exists|i: int|
                    0 <= i < binding.channel_ids@.len() && comes_from(
                        message,
                        (#[trigger] binding.channel_ids@[i])@,
                    ))
            }
        }),
    ensures
        binding.admits(message),
{
    let ids = binding.channel_ids@;
    lemma_listed(binding.dm_allowed_users@, message.sender_id@);
    if !is_dm(message) && ids.len() > 0 {
        let i = choose|i: int| 0 <= i < ids.len() && comes_from(message, (#[trigger] ids[i])@);
        lemma_listed(ids, ids[i]@);
        assert(text::texts(ids).contains(ids[i]@));
    }
}

/// A message goes to the agent that it names, whatever the bindings say; one that names
/// none goes where the bindings lead.
pub proof fn law_named_agent_comes_first(
    bindings: Seq<Binding>,
    message: InboundMessage,
    default_agent_id: Seq<char>,
)
    ensures
        message.agent_id matches Some(id) ==> routed_to(bindings, message, default_agent_id) == id@,
        message.agent_id is None ==> routed_to(bindings, message, default_agent_id) == agent_for(
            bindings,
            message,
            default_agent_id,
        ),
{
}

/// A direct message on Discord reaches another agent than the default one only
/// through a binding that lists its sender.
pub proof fn law_dm_needs_permission(
    bindings: Seq<Binding>,
    message: InboundMessage,
    default_agent_id: Seq<char>,
)
    requires
        is_dm(message),
        agent_for(bindings, message, default_agent_id) != default_agent_id,
    ensures
        exists|i: int|
            0 <= i < bindings.len() && agent_for(bindings, message, default_agent_id)
                == bindings[i].agent_id@ && text::texts(
                (#[trigger] bindings[i]).dm_allowed_users@,
            ).contains(message.sender_id@),
    decreases bindings.len(),
{
    if bindings.len() > 0 {
        if bindings[0].admits(message) {
            assert(text::texts(bindings[0].dm_allowed_users@).contains(message.sender_id@));
        } else {
            law_dm_needs_permission(bindings.drop_first(), message, default_agent_id);
            let i = choose|i: int|
                0 <= i < bindings.drop_first().len() && agent_for(
                    bindings.drop_first(),
                    message,
                    default_agent_id,
                ) == bindings.drop_first()[i].agent_id@ && text::texts(
                    (#[trigger] bindings.drop_first()[i]).dm_allowed_users@,
                ).contains(message.sender_id@);
            assert(bindings[i + 1] == bindings.drop_first()[i]);
        }
    }
}

// ---------------------------------------------------------------------------
// Platform settings
// ---------------------------------------------------------------------------

/// Messaging platform credentials.
pub struct MessagingConfig {
    pub discord: Option<DiscordConfig>,
    pub slack: Option<SlackConfig>,
    pub telegram: Option<TelegramConfig>,
    pub webhook: Option<WebhookConfig>,
}

impl Default for MessagingConfig {
    fn default() -> (r: Self)
        ensures
            r.discord is None,
            r.slack is None,
            r.telegram is None,
            r.webhook is None,
    {
        MessagingConfig { discord: None, slack: None, telegram: None, webhook: None }
    }
}

pub struct DiscordConfig {
    pub enabled: bool,
    pub token: String,
    /// User IDs allowed to DM the bot. If empty, DMs are ignored entirely.
    pub dm_allowed_users: Vec<String>,
    /// Whether to process messages from other bots.
    pub allow_bot_messages: bool,
}

pub struct SlackConfig {
    pub enabled: bool,
    pub bot_token: String,
    pub app_token: String,
    /// User IDs allowed to DM the bot. If empty, DMs are ignored entirely.
    pub dm_allowed_users: Vec<String>,
}

pub struct TelegramConfig {
    pub enabled: bool,
    pub token: String,
    /// User IDs allowed to DM the bot. If empty, DMs are ignored entirely.
    pub dm_allowed_users: Vec<String>,
}

pub struct WebhookConfig {
    pub enabled: bool,
    pub port: u16,
    pub bind: String,
}

// ---------------------------------------------------------------------------
// Slack
// ---------------------------------------------------------------------------

/// Slack permission filters.
pub struct SlackPermissions {
    /// Team IDs that are accepted, where the bindings name any.
    pub workspace_filter: Option<Vec<String>>,
    /// Allowed channel IDs by team ID.
    pub channel_filter: TextMap<Vec<String>>,
    /// User IDs that may send direct messages.
    pub dm_allowed_users: Vec<String>,
}

/// The workspaces that the Slack bindings name, in order.
pub open spec fn slack_workspaces(bindings: Seq<Binding>) -> Seq<Seq<char>>
    decreases bindings.len(),
{
    if bindings.len() == 0 {
        Seq::empty()
    } else {
        let before = slack_workspaces(bindings.drop_last());
        let b = bindings.last();
        match b.workspace_id {
            Some(w) => if b.channel@ == "slack"@ {
                before.push(w@)
            } else {
                before
            },
            None => before,
        }
    }
}

/// The channels that the Slack bindings name, by workspace.
pub open spec fn slack_channels(bindings: Seq<Binding>) -> Map<Seq<char>, Seq<Seq<char>>>
    decreases bindings.len(),
{
    if bindings.len() == 0 {
        Map::empty()
    } else {
        let before = slack_channels(bindings.drop_last());
        let b = bindings.last();
        match b.workspace_id {
            Some(w) => if b.channel@ == "slack"@ && b.channel_ids@.len() > 0 {
                let known = if before.contains_key(w@) {
                    before[w@]
                } else {
                    Seq::empty()
                };
                before.insert(w@, known + text::texts(b.channel_ids@))
            } else {
                before
            },
            None => before,
        }
    }
}

/// A filter with the given entries, or none where there are no entries.
pub open spec fn text_filter(ids: Seq<Seq<char>>, r: Option<Vec<String>>) -> bool {
    match r {
        Some(v) => ids.len() > 0 && text::texts(v@) == ids,
        None => ids.len() == 0,
    }
}

fn append_texts(to: &mut Vec<String>, from: &Vec<String>)
    ensures
        text::texts(final(to)@) == text::texts(old(to)@) + text::texts(from@),
{
    let mut i: usize = 0;
    assert(text::texts(to@) =~= text::texts(to@) + text::texts(from@).take(0));
    while i < from.len()
        invariant
            i <= from@.len(),
            text::texts(to@) == text::texts(old(to)@) + text::texts(from@).take(i as int),
        decreases from@.len() - i,
    {
        let ghost before = text::texts(to@);
        to.push(from[i].clone());
        proof {
            assert(text::texts(to@) =~= before.push(from@[i as int]@));
            assert(text::texts(from@).take(i + 1) =~= text::texts(from@).take(i as int).push(
                from@[i as int]@,
            ));
            assert(text::texts(to@) =~= text::texts(old(to)@) + text::texts(from@).take(i + 1));
        }
        i = i + 1;
    }
    assert(text::texts(from@).take(i as int) =~= text::texts(from@));
}

proof fn lemma_deep_texts(v: Vec<String>)
    ensures
        v.deep_view() == text::texts(v@),
{
    assert(v.deep_view() =~= text::texts(v@));
}

/// `r` is what the Slack settings and the bindings permit.
pub open spec fn slack_permits(slack: SlackConfig, bindings: Seq<Binding>, r: SlackPermissions) -> bool {
    &&& text_filter(slack_workspaces(bindings), r.workspace_filter)
    &&& r.channel_filter@ == slack_channels(bindings)
    &&& r.dm_allowed_users@ == slack.dm_allowed_users@
}

impl SlackPermissions {
    /// Build from the current config's slack settings and bindings.
    pub fn from_config(slack: &SlackConfig, bindings: &[Binding]) -> (r: Self)
        ensures
            slack_permits(*slack, bindings@, r),
    {
        let mut workspace_ids: Vec<String> = Vec::new();
        let mut filter: TextMap<Vec<String>> = TextMap::new();
        let mut i: usize = 0;
        proof {
            assert(bindings@.take(0) =~= Seq::<Binding>::empty());
            assert(text::texts(workspace_ids@) =~= Seq::<Seq<char>>::empty());
        }
        while i < bindings.len()
            invariant
                i <= bindings@.len(),
                text::texts(workspace_ids@) == slack_workspaces(bindings@.take(i as int)),
                filter@ == slack_channels(bindings@.take(i as int)),
            decreases bindings@.len() - i,
        {
            let b = &bindings[i];
            proof {
                assert(bindings@.take(i + 1).drop_last() =~= bindings@.take(i as int));
                assert(bindings@.take(i + 1).last() == bindings@[i as int]);
            }
            let ghost ids_before = text::texts(workspace_ids@);
            if str_eq(b.channel.as_str(), "slack") {
                if let Some(workspace_id) = &b.workspace_id {
                    workspace_ids.push(workspace_id.clone());
                    proof {
                        assert(text::texts(workspace_ids@) =~= ids_before.push(workspace_id@));
                    }
                    if b.channel_ids.len() > 0 {
                        let mut list: Vec<String> = match filter.get(workspace_id.as_str()) {
                            Some(v) => {
                                proof {
                                    lemma_deep_texts(*v);
                                }
                                clone_texts(v)
                            },
                            None => {
                                let v: Vec<String> = Vec::new();
                                assert(text::texts(v@) =~= Seq::<Seq<char>>::empty());
                                v
                            },
                        };
                        append_texts(&mut list, &b.channel_ids);
                        proof {
                            lemma_deep_texts(list);
                        }
                        filter.insert(workspace_id.clone(), list);
                    }
                }
            }
            i = i + 1;
        }
        proof {
            assert(bindings@.take(i as int) =~= bindings@);
        }
        let workspace_filter = if workspace_ids.len() == 0 {
            None
        } else {
            Some(workspace_ids)
        };
        SlackPermissions {
            workspace_filter,
            channel_filter: filter,
            dm_allowed_users: clone_texts(&slack.dm_allowed_users),
        }
    }
}

/// Slack accepts the workspaces that its bindings name, and no others; of a workspace
/// it accepts the channels that its bindings list, and no others where they list any.
pub proof fn law_slack_accepts_what_is_bound(bindings: Seq<Binding>, w: Seq<char>, c: Seq<char>)
    ensures
        slack_workspaces(bindings).contains(w) <==> exists|i: int|
            0 <= i < bindings.len() && (#[trigger] bindings[i]).channel@ == "slack"@
                && text::opt_text(bindings[i].workspace_id) == Some(w),
        slack_channels(bindings).contains_key(w) <==> exists|i: int|
            0 <= i < bindings.len() && (#[trigger] bindings[i]).channel@ == "slack"@
                && text::opt_text(bindings[i].workspace_id) == Some(w)
                && bindings[i].channel_ids@.len() > 0,
        (slack_channels(bindings).contains_key(w) && slack_channels(bindings)[w].contains(c)) <==> (
        exists|i: int|
            0 <= i < bindings.len() && (#[trigger] bindings[i]).channel@ == "slack"@
                && text::opt_text(bindings[i].workspace_id) == Some(w) && text::texts(
                bindings[i].channel_ids@,
            ).contains(c)),
    decreases bindings.len(),
{
    if bindings.len() > 0 {
        let rest = bindings.drop_last();
        let n = rest.len() as int;
        let b = bindings.last();
        law_slack_accepts_what_is_bound(rest, w, c);
        let named = |i: int|
            (bindings[i]).channel@ == "slack"@ && text::opt_text(bindings[i].workspace_id) == Some(
                w,
            );
        assert(bindings[n] == b);
        assert forall|i: int| 0 <= i < n implies #[trigger] rest[i] == bindings[i] by {
        }
        // The workspaces.
        let before = slack_workspaces(rest);
        let after = slack_workspaces(bindings);
        if named(n) {
            assert(after.last() == w);
        }
        if before.contains(w) {
            let k = choose|k: int| 0 <= k < before.len() && before[k] == w;
            assert(after[k] == w);
            let i = choose|i: int|
                0 <= i < rest.len() && (#[trigger] rest[i]).channel@ == "slack"@ && text::opt_text(
                    rest[i].workspace_id,
                ) == Some(w);
            assert(bindings[i] == rest[i]);
        }
        if after.contains(w) && !named(n) {
            let k = choose|k: int| 0 <= k < after.len() && after[k] == w;
            if k < before.len() {
                assert(before[k] == w);
            }
        }
        if exists|i: int|
            0 <= i < bindings.len() && (#[trigger] bindings[i]).channel@ == "slack"@
                && text::opt_text(bindings[i].workspace_id) == Some(w) {
            let i = choose|i: int|
                0 <= i < bindings.len() && (#[trigger] bindings[i]).channel@ == "slack"@
                    && text::opt_text(bindings[i].workspace_id) == Some(w);
            if i < n {
                assert(rest[i] == bindings[i]);
            }
        }
        // The channels.
        let x = slack_channels(rest);
        let y = slack_channels(bindings);
        let own = text::texts(b.channel_ids@);
        if exists|i: int|
            0 <= i < bindings.len() && (#[trigger] bindings[i]).channel@ == "slack"@
                && text::opt_text(bindings[i].workspace_id) == Some(w)
                && bindings[i].channel_ids@.len() > 0 {
            let i = choose|i: int|
                0 <= i < bindings.len() && (#[trigger] bindings[i]).channel@ == "slack"@
                    && text::opt_text(bindings[i].workspace_id) == Some(w)
                    && bindings[i].channel_ids@.len() > 0;
            if i < n {
                assert(rest[i] == bindings[i]);
            }
        }
        if x.contains_key(w) {
            let i = choose|i: int|
                0 <= i < rest.len() && (#[trigger] rest[i]).channel@ == "slack"@ && text::opt_text(
                    rest[i].workspace_id,
                ) == Some(w) && rest[i].channel_ids@.len() > 0;
            assert(bindings[i] == rest[i]);
        }
        if exists|i: int|
            0 <= i < bindings.len() && (#[trigger] bindings[i]).channel@ == "slack"@
                && text::opt_text(bindings[i].workspace_id) == Some(w) && text::texts(
                bindings[i].channel_ids@,
            ).contains(c) {
            let i = choose|i: int|
                0 <= i < bindings.len() && (#[trigger] bindings[i]).channel@ == "slack"@
                    && text::opt_text(bindings[i].workspace_id) == Some(w) && text::texts(
                    bindings[i].channel_ids@,
                ).contains(c);
            if i < n {
                assert(rest[i] == bindings[i]);
                assert(x[w].contains(c));
                let k = choose|k: int| 0 <= k < x[w].len() && x[w][k] == c;
                assert(y[w][k] == c);
            } else {
                let k = choose|k: int| 0 <= k < own.len() && own[k] == c;
                let known = if x.contains_key(w) {
                    x[w]
                } else {
                    Seq::empty()
                };
                assert(y[w][known.len() + k] == c);
            }
        }
        if y.contains_key(w) && y[w].contains(c) {
            let k = choose|k: int| 0 <= k < y[w].len() && y[w][k] == c;
            if named(n) && b.channel_ids@.len() > 0 {
                let known = if x.contains_key(w) {
                    x[w]
                } else {
                    Seq::empty()
                };
                if k < known.len() {
                    assert(x[w][k] == c);
                } else {
                    assert(own[k - known.len()] == c);
                    assert(own.contains(c));
                }
            } else {
                assert(x[w][k] == c);
            }
            if x.contains_key(w) && x[w].contains(c) {
                let i = choose|i: int|
                    0 <= i < rest.len() && (#[trigger] rest[i]).channel@ == "slack"@
                        && text::opt_text(rest[i].workspace_id) == Some(w) && text::texts(
                        rest[i].channel_ids@,
                    ).contains(c);
                assert(bindings[i] == rest[i]);
            }
        }
    }
}

// ---------------------------------------------------------------------------
// Discord
// ---------------------------------------------------------------------------

/// Discord permission filters.
pub struct DiscordPermissions {
    pub guild_filter: Option<Vec<u64>>,
    pub channel_filter: HashMap<u64, Vec<u64>>,
    pub dm_allowed_users: Vec<u64>,
    pub allow_bot_messages: bool,
}

/// The numeric id that a text writes.
pub open spec fn user_id(s: Seq<char>) -> Option<u64> {
    match text::parsed_unsigned(s, u64::MAX as nat) {
        Some(n) => Some(n as u64),
        None => None,
    }
}

/// The ids that a list of texts writes; other texts are passed over.
pub open spec fn user_ids(v: Seq<String>) -> Seq<u64>
    decreases v.len(),
{
    if v.len() == 0 {
        Seq::empty()
    } else {
        match user_id(v.last()@) {
            Some(n) => user_ids(v.drop_last()).push(n),
            None => user_ids(v.drop_last()),
        }
    }
}

/// `base` with those of the ids that it does not hold yet.
pub open spec fn with_new(base: Seq<u64>, ids: Seq<u64>) -> Seq<u64>
    decreases ids.len(),
{
    if ids.len() == 0 {
        base
    } else {
        let before = with_new(base, ids.drop_last());
        if before.contains(ids.last()) {
            before
        } else {
            before.push(ids.last())
        }
    }
}

/// The numeric guild of a Discord binding.
pub open spec fn discord_guild(b: Binding) -> Option<u64> {
    match b.guild_id {
        Some(g) => if b.channel@ == "discord"@ {
            user_id(g@)
        } else {
            None
        },
        None => None,
    }
}

/// The guilds that the Discord bindings name, in order.
pub open spec fn discord_guilds(bindings: Seq<Binding>) -> Seq<u64>
    decreases bindings.len(),
{
    if bindings.len() == 0 {
        Seq::empty()
    } else {
        match discord_guild(bindings.last()) {
            Some(g) => discord_guilds(bindings.drop_last()).push(g),
            None => discord_guilds(bindings.drop_last()),
        }
    }
}

/// The channels that the Discord bindings name, by guild.
pub open spec fn discord_channels(bindings: Seq<Binding>) -> Map<u64, Seq<u64>>
    decreases bindings.len(),
{
    if bindings.len() == 0 {
        Map::empty()
    } else {
        let before = discord_channels(bindings.drop_last());
        let b = bindings.last();
        match discord_guild(b) {
            Some(g) => if b.channel_ids@.len() > 0 {
                let known = if before.contains_key(g) {
                    before[g]
                } else {
                    Seq::empty()
                };
                before.insert(g, known + user_ids(b.channel_ids@))
            } else {
                before
            },
            None => before,
        }
    }
}

/// The users that may send direct messages: those of the platform settings,
/// then those of the bindings that are not listed yet.
pub open spec fn discord_users(base: Seq<u64>, bindings: Seq<Binding>) -> Seq<u64>
    decreases bindings.len(),
{
    if bindings.len() == 0 {
        base
    } else {
        let before = discord_users(base, bindings.drop_last());
        let b = bindings.last();
        if b.channel@ == "discord"@ {
            with_new(before, user_ids(b.dm_allowed_users@))
        } else {
            before
        }
    }
}

/// A map of lists holds what a map of sequences says.
pub open spec fn lists_are(m: Map<u64, Vec<u64>>, s: Map<u64, Seq<u64>>) -> bool {
    &&& m.dom() == s.dom()
    &&& forall|k: u64| m.contains_key(k) ==> (#[trigger] m[k])@ == s[k]
}

/// Reads an id.
pub fn parse_user_id(s: &str) -> (r: Option<u64>)
    ensures
        r == user_id(s@),
{
    parse_unsigned(s, u64::MAX)
}

/// Reads the ids of a list of texts.
pub fn parse_user_ids(v: &Vec<String>) -> (r: Vec<u64>)
    ensures
        r@ == user_ids(v@),
{
    let mut out: Vec<u64> = Vec::new();
    let mut i: usize = 0;
    assert(v@.take(0) =~= Seq::<String>::empty());
    while i < v.len()
        invariant
            i <= v@.len(),
            out@ == user_ids(v@.take(i as int)),
        decreases v@.len() - i,
    {
        proof {
            assert(v@.take(i + 1).drop_last() =~= v@.take(i as int));
            assert(v@.take(i + 1).last() == v@[i as int]);
        }
        match parse_user_id(v[i].as_str()) {
            Some(n) => {
                out.push(n);
            },
            None => {},
        }
        i = i + 1;
    }
    assert(v@.take(i as int) =~= v@);
    out
}

fn holds_id(v: &Vec<u64>, id: u64) -> (r: bool)
    ensures
        r == v@.contains(id),
{
    let mut i: usize = 0;
    while i < v.len()
        invariant
            i <= v@.len(),
            forall|j: int| 0 <= j < i ==> v@[j] != id,
        decreases v@.len() - i,
    {
        if v[i] == id {
            return true;
        }
        i = i + 1;
    }
    false
}

fn merge_ids(to: &mut Vec<u64>, ids: &Vec<u64>)
    ensures
        final(to)@ == with_new(old(to)@, ids@),
{
    let mut i: usize = 0;
    assert(ids@.take(0) =~= Seq::<u64>::empty());
    while i < ids.len()
        invariant
            i <= ids@.len(),
            to@ == with_new(old(to)@, ids@.take(i as int)),
        decreases ids@.len() - i,
    {
        proof {
            assert(ids@.take(i + 1).drop_last() =~= ids@.take(i as int));
            assert(ids@.take(i + 1).last() == ids@[i as int]);
        }
        if !holds_id(to, ids[i]) {
            to.push(ids[i]);
        }
        i = i + 1;
    }
    assert(ids@.take(i as int) =~= ids@);
}

fn append_ids(to: &mut Vec<u64>, ids: &Vec<u64>)
    ensures
        final(to)@ == old(to)@ + ids@,
{
    let mut i: usize = 0;
    assert(to@ =~= to@ + ids@.take(0));
    while i < ids.len()
        invariant
            i <= ids@.len(),
            to@ == old(to)@ + ids@.take(i as int),
        decreases ids@.len() - i,
    {
        to.push(ids[i]);
        proof {
            assert(to@ =~= old(to)@ + ids@.take(i + 1));
        }
        i = i + 1;
    }
    assert(ids@.take(i as int) =~= ids@);
}

fn copy_ids(v: &Vec<u64>) -> (r: Vec<u64>)
    ensures
        r@ == v@,
{
    let mut out: Vec<u64> = Vec::new();
    append_ids(&mut out, v);
    assert(out@ =~= v@);
    out
}

fn guild_of(b: &Binding) -> (r: Option<u64>)
    ensures
        r == discord_guild(*b),
{
    match &b.guild_id {
        Some(g) => if str_eq(b.channel.as_str(), "discord") {
            parse_user_id(g.as_str())
        } else {
            None
        },
        None => None,
    }
}

/// `r` is what the Discord settings and the bindings permit.
pub open spec fn discord_permits(
    discord: DiscordConfig,
    bindings: Seq<Binding>,
    r: DiscordPermissions,
) -> bool {
    &&& (match r.guild_filter {
        Some(v) => discord_guilds(bindings).len() > 0 && v@ == discord_guilds(bindings),
        None => discord_guilds(bindings).len() == 0,
    })
    &&& lists_are(r.channel_filter@, discord_channels(bindings))
    &&& r.dm_allowed_users@ == discord_users(user_ids(discord.dm_allowed_users@), bindings)
    &&& r.allow_bot_messages == discord.allow_bot_messages
}

impl DiscordPermissions {
    /// Build from the current config's discord settings and bindings.
    pub fn from_config(discord: &DiscordConfig, bindings: &[Binding]) -> (r: Self)
        ensures
            discord_permits(*discord, bindings@, r),
    {
        let mut guild_ids: Vec<u64> = Vec::new();
        let mut filter: HashMap<u64, Vec<u64>> = HashMap::new();
        let mut users = parse_user_ids(&discord.dm_allowed_users);
        let mut i: usize = 0;
        proof {
            assert(bindings@.take(0) =~= Seq::<Binding>::empty());
            assert(filter@.dom() =~= discord_channels(bindings@.take(0)).dom());
        }
        while i < bindings.len()
            invariant
                i <= bindings@.len(),
                guild_ids@ == discord_guilds(bindings@.take(i as int)),
                lists_are(filter@, discord_channels(bindings@.take(i as int))),
                users@ == discord_users(
                    user_ids(discord.dm_allowed_users@),
                    bindings@.take(i as int),
                ),
            decreases bindings@.len() - i,
        {
            let b = &bindings[i];
            proof {
                assert(bindings@.take(i + 1).drop_last() =~= bindings@.take(i as int));
                assert(bindings@.take(i + 1).last() == bindings@[i as int]);
            }
            let ghost before = discord_channels(bindings@.take(i as int));
            match guild_of(b) {
                Some(g) => {
                    guild_ids.push(g);
                    if b.channel_ids.len() > 0 {
                        let mut list: Vec<u64> = match filter.get(&g) {
                            Some(v) => copy_ids(v),
                            None => Vec::new(),
                        };
                        let more = parse_user_ids(&b.channel_ids);
                        append_ids(&mut list, &more);
                        filter.insert(g, list);
                        proof {
                            let after = discord_channels(bindings@.take(i + 1));
                            assert(filter@.dom() =~= after.dom());
                        }
                    }
                },
                None => {},
            }
            if str_eq(b.channel.as_str(), "discord") {
                let more = parse_user_ids(&b.dm_allowed_users);
                merge_ids(&mut users, &more);
            }
            i = i + 1;
        }
        proof {
            assert(bindings@.take(i as int) =~= bindings@);
        }
        let guild_filter = if guild_ids.len() == 0 {
            None
        } else {
            Some(guild_ids)
        };
        DiscordPermissions {
            guild_filter,
            channel_filter: filter,
            dm_allowed_users: users,
            allow_bot_messages: discord.allow_bot_messages,
        }
    }
}

proof fn lemma_with_new(base: Seq<u64>, ids: Seq<u64>, x: u64)
    ensures
        with_new(base, ids).contains(x) <==> base.contains(x) || ids.contains(x),
        base.no_duplicates() ==> with_new(base, ids).no_duplicates(),
    decreases ids.len(),
{
    if ids.len() > 0 {
        let rest = ids.drop_last();
        lemma_with_new(base, rest, x);
        let before = with_new(base, rest);
        assert(ids =~= rest.push(ids.last()));
        assert(ids.contains(x) <==> rest.contains(x) || x == ids.last()) by {
            assert(ids[ids.len() - 1] == ids.last());
            if rest.contains(x) {
                let j = rest.index_of(x);
                assert(ids[j] == x);
            }
            if ids.contains(x) && x != ids.last() {
                let j = ids.index_of(x);
                assert(rest[j] == x);
            }
        }
        if !before.contains(ids.last()) {
            let after = before.push(ids.last());
            assert(after[after.len() - 1] == ids.last());
            if before.contains(x) {
                let j = before.index_of(x);
                assert(after[j] == x);
            }
            if after.contains(x) && x != ids.last() {
                let j = after.index_of(x);
                assert(before[j] == x);
            }
        }
    }
}

/// A user may send direct messages on Discord exactly where the platform
/// settings or some Discord binding list the user.
pub proof fn law_discord_users(base: Seq<u64>, bindings: Seq<Binding>, x: u64)
    ensures
        discord_users(base, bindings).contains(x) <==> base.contains(x) || exists|i: int|
            0 <= i < bindings.len() && (#[trigger] bindings[i]).channel@ == "discord"@ && user_ids(
                bindings[i].dm_allowed_users@,
            ).contains(x),
        base.no_duplicates() ==> discord_users(base, bindings).no_duplicates(),
    decreases bindings.len(),
{
    if bindings.len() > 0 {
        let rest = bindings.drop_last();
        law_discord_users(base, rest, x);
        let b = bindings.last();
        assert(bindings[bindings.len() - 1] == b);
        if b.channel@ == "discord"@ {
            lemma_with_new(discord_users(base, rest), user_ids(b.dm_allowed_users@), x);
        }
        if exists|i: int|
            0 <= i < rest.len() && (#[trigger] rest[i]).channel@ == "discord"@ && user_ids(
                rest[i].dm_allowed_users@,
            ).contains(x) {
            let i = choose|i: int|
                0 <= i < rest.len() && (#[trigger] rest[i]).channel@ == "discord"@ && user_ids(
                    rest[i].dm_allowed_users@,
                ).contains(x);
            assert(bindings[i] == rest[i]);
        }
        if exists|i: int|
            0 <= i < bindings.len() && (#[trigger] bindings[i]).channel@ == "discord"@ && user_ids(
                bindings[i].dm_allowed_users@,
            ).contains(x) {
            let i = choose|i: int|
                0 <= i < bindings.len() && (#[trigger] bindings[i]).channel@ == "discord"@
                    && user_ids(bindings[i].dm_allowed_users@).contains(x);
            if i < rest.len() {
                assert(rest[i] == bindings[i]);
            }
        }
    }
}

/// A number is read from the text that writes it, and the ids of a list are the numbers
/// that its texts write.
pub proof fn law_ids_are_read(v: Seq<String>, n: u64)
    ensures
        user_id(text::decimal(n as nat)) == Some(n),
        user_ids(v).contains(n) <==> exists|i: int|
            0 <= i < v.len() && user_id((#[trigger] v[i])@) == Some(n),
    decreases v.len(),
{
    text::law_decimal_round_trip(n as nat, u64::MAX as nat);
    if v.len() > 0 {
        let rest = v.drop_last();
        let before = user_ids(rest);
        let after = user_ids(v);
        law_ids_are_read(rest, n);
        if before.contains(n) {
            let k = choose|k: int| 0 <= k < before.len() && before[k] == n;
            assert(after[k] == n);
            let i = choose|i: int| 0 <= i < rest.len() && user_id((#[trigger] rest[i])@) == Some(n);
            assert(user_id(v[i]@) == Some(n));
        }
        if user_id(v.last()@) == Some(n) {
            assert(after.last() == n);
            assert(user_id(v[v.len() - 1]@) == Some(n));
        }
        if after.contains(n) && user_id(v.last()@) != Some(n) {
            let k = choose|k: int| 0 <= k < after.len() && after[k] == n;
            assert(before[k] == n);
        }
        if exists|i: int| 0 <= i < v.len() && user_id((#[trigger] v[i])@) == Some(n) {
            let i = choose|i: int| 0 <= i < v.len() && user_id((#[trigger] v[i])@) == Some(n);
            if i < rest.len() {
                assert(user_id(rest[i]@) == Some(n));
            }
        }
    }
}

/// Discord accepts the guilds that its bindings name, and no others; of a guild it
/// accepts the channels that its bindings list, and no others where they list any.
pub proof fn law_discord_accepts_what_is_bound(bindings: Seq<Binding>, g: u64, c: u64)
    ensures
        discord_guilds(bindings).contains(g) <==> exists|i: int|
            0 <= i < bindings.len() && (#[trigger] bindings[i]).channel@ == "discord"@
                && bindings[i].guild_id is Some && user_id(bindings[i].guild_id->0@) == Some(g),
        discord_channels(bindings).contains_key(g) <==> exists|i: int|
            0 <= i < bindings.len() && (#[trigger] bindings[i]).channel@ == "discord"@
                && bindings[i].guild_id is Some && user_id(bindings[i].guild_id->0@) == Some(g)
                && bindings[i].channel_ids@.len() > 0,
        (discord_channels(bindings).contains_key(g) && discord_channels(bindings)[g].contains(c))
            <==> (exists|i: int|
            0 <= i < bindings.len() && (#[trigger] bindings[i]).channel@ == "discord"@
                && bindings[i].guild_id is Some && user_id(bindings[i].guild_id->0@) == Some(g)
                && user_ids(bindings[i].channel_ids@).contains(c)),
    decreases bindings.len(),
{
    if bindings.len() > 0 {
        let rest = bindings.drop_last();
        let n = rest.len() as int;
        let b = bindings.last();
        law_discord_accepts_what_is_bound(rest, g, c);
        assert(bindings[n] == b);
        let named = b.channel@ == "discord"@ && b.guild_id is Some && user_id(b.guild_id->0@)
            == Some(g);
        assert(named <==> discord_guild(b) == Some(g));
        let before = discord_guilds(rest);
        let after = discord_guilds(bindings);
        if named {
            assert(after.last() == g);
        }
        if before.contains(g) {
            let k = choose|k: int| 0 <= k < before.len() && before[k] == g;
            assert(after[k] == g);
            let i = choose|i: int|
                0 <= i < rest.len() && (#[trigger] rest[i]).channel@ == "discord"@
                    && rest[i].guild_id is Some && user_id(rest[i].guild_id->0@) == Some(g);
            assert(bindings[i] == rest[i]);
        }
        if after.contains(g) && !named {
            let k = choose|k: int| 0 <= k < after.len() && after[k] == g;
            if k < before.len() {
                assert(before[k] == g);
            }
        }
        if exists|i: int|
            0 <= i < bindings.len() && (#[trigger] bindings[i]).channel@ == "discord"@
                && bindings[i].guild_id is Some && user_id(bindings[i].guild_id->0@) == Some(g) {
            let i = choose|i: int|
                0 <= i < bindings.len() && (#[trigger] bindings[i]).channel@ == "discord"@
                    && bindings[i].guild_id is Some && user_id(bindings[i].guild_id->0@) == Some(g);
            if i < n {
                assert(rest[i] == bindings[i]);
            }
        }
        let x = discord_channels(rest);
        let y = discord_channels(bindings);
        let own = user_ids(b.channel_ids@);
        let known = if x.contains_key(g) {
            x[g]
        } else {
            Seq::empty()
        };
        if exists|i: int|
            0 <= i < bindings.len() && (#[trigger] bindings[i]).channel@ == "discord"@
                && bindings[i].guild_id is Some && user_id(bindings[i].guild_id->0@) == Some(g)
                && bindings[i].channel_ids@.len() > 0 {
            let i = choose|i: int|
                0 <= i < bindings.len() && (#[trigger] bindings[i]).channel@ == "discord"@
                    && bindings[i].guild_id is Some && user_id(bindings[i].guild_id->0@) == Some(g)
                    && bindings[i].channel_ids@.len() > 0;
            if i < n {
                assert(rest[i] == bindings[i]);
            }
        }
        if x.contains_key(g) {
            let i = choose|i: int|
                0 <= i < rest.len() && (#[trigger] rest[i]).channel@ == "discord"@
                    && rest[i].guild_id is Some && user_id(rest[i].guild_id->0@) == Some(g)
                    && rest[i].channel_ids@.len() > 0;
            assert(bindings[i] == rest[i]);
        }
        if exists|i: int|
            0 <= i < bindings.len() && (#[trigger] bindings[i]).channel@ == "discord"@
                && bindings[i].guild_id is Some && user_id(bindings[i].guild_id->0@) == Some(g)
                && user_ids(bindings[i].channel_ids@).contains(c) {
            let i = choose|i: int|
                0 <= i < bindings.len() && (#[trigger] bindings[i]).channel@ == "discord"@
                    && bindings[i].guild_id is Some && user_id(bindings[i].guild_id->0@) == Some(g)
                    && user_ids(bindings[i].channel_ids@).contains(c);
            if i < n {
                assert(rest[i] == bindings[i]);
                let k = choose|k: int| 0 <= k < x[g].len() && x[g][k] == c;
                assert(y[g][k] == c);
            } else {
                let k = choose|k: int| 0 <= k < own.len() && own[k] == c;
                assert(b.channel_ids@.len() > 0);
                assert(y[g][known.len() + k] == c);
            }
        }
        if y.contains_key(g) && y[g].contains(c) {
            let k = choose|k: int| 0 <= k < y[g].len() && y[g][k] == c;
            if named && b.channel_ids@.len() > 0 {
                if k < known.len() {
                    assert(x[g][k] == c);
                } else {
                    assert(own[k - known.len()] == c);
                    assert(own.contains(c));
                }
            } else {
                assert(x[g][k] == c);
            }
            if x.contains_key(g) && x[g].contains(c) {
                let i = choose|i: int|
                    0 <= i < rest.len() && (#[trigger] rest[i]).channel@ == "discord"@
                        && rest[i].guild_id is Some && user_id(rest[i].guild_id->0@) == Some(g)
                        && user_ids(rest[i].channel_ids@).contains(c);
                assert(bindings[i] == rest[i]);
            }
        }
    }
}

// ---------------------------------------------------------------------------
// Telegram
// ---------------------------------------------------------------------------

/// Telegram permission filters.
pub struct TelegramPermissions {
    /// Allowed chat IDs; without a filter all chats are accepted.
    pub chat_filter: Option<Vec<i64>>,
    /// User IDs allowed in private chats.
    pub dm_allowed_users: Vec<i64>,
}

/// The ids that a list of texts writes; other texts are passed over.
pub open spec fn chat_ids(v: Seq<String>) -> Seq<int>
    decreases v.len(),
{
    if v.len() == 0 {
        Seq::empty()
    } else {
        match text::parsed_i64(v.last()@) {
            Some(n) => chat_ids(v.drop_last()).push(n),
            None => chat_ids(v.drop_last()),
        }
    }
}

/// The integers of a list.
pub open spec fn ints(v: Seq<i64>) -> Seq<int> {
    Seq::new(v.len(), |i: int| v[i] as int)
}

/// The chat of a Telegram binding.
pub open spec fn telegram_chat(b: Binding) -> Option<int> {
    match b.chat_id {
        Some(c) => if b.channel@ == "telegram"@ {
            text::parsed_i64(c@)
        } else {
            None
        },
        None => None,
    }
}

/// The chats that the Telegram bindings name, in order.
pub open spec fn telegram_chats(bindings: Seq<Binding>) -> Seq<int>
    decreases bindings.len(),
{
    if bindings.len() == 0 {
        Seq::empty()
    } else {
        match telegram_chat(bindings.last()) {
            Some(c) => telegram_chats(bindings.drop_last()).push(c),
            None => telegram_chats(bindings.drop_last()),
        }
    }
}

/// `base` with those of the ids that it does not hold yet.
pub open spec fn with_new_ints(base: Seq<int>, ids: Seq<int>) -> Seq<int>
    decreases ids.len(),
{
    if ids.len() == 0 {
        base
    } else {
        let before = with_new_ints(base, ids.drop_last());
        if before.contains(ids.last()) {
            before
        } else {
            before.push(ids.last())
        }
    }
}

/// The users that may write in private chats: those of the platform settings,
/// then those of the bindings that are not listed yet.
pub open spec fn telegram_users(base: Seq<int>, bindings: Seq<Binding>) -> Seq<int>
    decreases bindings.len(),
{
    if bindings.len() == 0 {
        base
    } else {
        let before = telegram_users(base, bindings.drop_last());
        let b = bindings.last();
        if b.channel@ == "telegram"@ {
            with_new_ints(before, chat_ids(b.dm_allowed_users@))
        } else {
            before
        }
    }
}

fn parse_chat_ids(v: &Vec<String>) -> (r: Vec<i64>)
    ensures
        ints(r@) == chat_ids(v@),
{
    let mut out: Vec<i64> = Vec::new();
    let mut i: usize = 0;
    assert(v@.take(0) =~= Seq::<String>::empty());
    assert(ints(out@) =~= Seq::<int>::empty());
    while i < v.len()
        invariant
            i <= v@.len(),
            ints(out@) == chat_ids(v@.take(i as int)),
        decreases v@.len() - i,
    {
        let ghost before = ints(out@);
        proof {
            assert(v@.take(i + 1).drop_last() =~= v@.take(i as int));
            assert(v@.take(i + 1).last() == v@[i as int]);
        }
        match parse_i64(v[i].as_str()) {
            Some(n) => {
                out.push(n);
                assert(ints(out@) =~= before.push(n as int));
            },
            None => {},
        }
        i = i + 1;
    }
    assert(v@.take(i as int) =~= v@);
    out
}

/// Tells whether a list holds an integer.
pub fn holds_int(v: &Vec<i64>, id: i64) -> (r: bool)
    ensures
        r == v@.contains(id),
        r == ints(v@).contains(id as int),
{
    let mut i: usize = 0;
    while i < v.len()
        invariant
            i <= v@.len(),
            forall|j: int| 0 <= j < i ==> v@[j] != id,
        decreases v@.len() - i,
    {
        if v[i] == id {
            assert(ints(v@)[i as int] == id);
            return true;
        }
        i = i + 1;
    }
    false
}

fn merge_ints(to: &mut Vec<i64>, ids: &Vec<i64>)
    ensures
        ints(final(to)@) == with_new_ints(ints(old(to)@), ints(ids@)),
{
    let mut i: usize = 0;
    assert(ints(ids@).take(0) =~= Seq::<int>::empty());
    while i < ids.len()
        invariant
            i <= ids@.len(),
            ints(to@) == with_new_ints(ints(old(to)@), ints(ids@).take(i as int)),
        decreases ids@.len() - i,
    {
        let ghost before = ints(to@);
        proof {
            assert(ints(ids@).take(i + 1).drop_last() =~= ints(ids@).take(i as int));
            assert(ints(ids@).take(i + 1).last() == ids@[i as int] as int);
        }
        if !holds_int(to, ids[i]) {
            to.push(ids[i]);
            assert(ints(to@) =~= before.push(ids@[i as int] as int));
        }
        i = i + 1;
    }
    assert(ints(ids@).take(i as int) =~= ints(ids@));
}

/// `r` is what the Telegram settings and the bindings permit.
pub open spec fn telegram_permits(
    telegram: TelegramConfig,
    bindings: Seq<Binding>,
    r: TelegramPermissions,
) -> bool {
    &&& (match r.chat_filter {
        Some(v) => telegram_chats(bindings).len() > 0 && ints(v@) == telegram_chats(bindings),
        None => telegram_chats(bindings).len() == 0,
    })
    &&& ints(r.dm_allowed_users@) == telegram_users(
        chat_ids(telegram.dm_allowed_users@),
        bindings,
    )
}

impl TelegramPermissions {
    /// Build from the current config's telegram settings and bindings.
    pub fn from_config(telegram: &TelegramConfig, bindings: &[Binding]) -> (r: Self)
        ensures
            telegram_permits(*telegram, bindings@, r),
    {
        let mut chats: Vec<i64> = Vec::new();
        let mut users = parse_chat_ids(&telegram.dm_allowed_users);
        let mut i: usize = 0;
        proof {
            assert(bindings@.take(0) =~= Seq::<Binding>::empty());
            assert(ints(chats@) =~= Seq::<int>::empty());
        }
        while i < bindings.len()
            invariant
                i <= bindings@.len(),
                ints(chats@) == telegram_chats(bindings@.take(i as int)),
                ints(users@) == telegram_users(
                    chat_ids(telegram.dm_allowed_users@),
                    bindings@.take(i as int),
                ),
            decreases bindings@.len() - i,
        {
            let b = &bindings[i];
            let ghost before = ints(chats@);
            proof {
                assert(bindings@.take(i + 1).drop_last() =~= bindings@.take(i as int));
                assert(bindings@.take(i + 1).last() == bindings@[i as int]);
            }
            if str_eq(b.channel.as_str(), "telegram") {
                if let Some(c) = &b.chat_id {
                    match parse_i64(c.as_str()) {
                        Some(n) => {
                            chats.push(n);
                            assert(ints(chats@) =~= before.push(n as int));
                        },
                        None => {},
                    }
                }
                let more = parse_chat_ids(&b.dm_allowed_users);
                merge_ints(&mut users, &more);
            }
            i = i + 1;
        }
        proof {
            assert(bindings@.take(i as int) =~= bindings@);
        }
        let chat_filter = if chats.len() == 0 {
            None
        } else {
            Some(chats)
        };
        TelegramPermissions { chat_filter, dm_allowed_users: users }
    }
}

/// The ids of a list are the integers that its texts write.
pub proof fn law_chat_ids_are_read(v: Seq<String>, n: int)
    ensures
        chat_ids(v).contains(n) <==> exists|i: int|
            0 <= i < v.len() && text::parsed_i64((#[trigger] v[i])@) == Some(n),
    decreases v.len(),
{
    if v.len() > 0 {
        let rest = v.drop_last();
        let before = chat_ids(rest);
        let after = chat_ids(v);
        law_chat_ids_are_read(rest, n);
        if before.contains(n) {
            let k = choose|k: int| 0 <= k < before.len() && before[k] == n;
            assert(after[k] == n);
            let i = choose|i: int|
                0 <= i < rest.len() && text::parsed_i64((#[trigger] rest[i])@) == Some(n);
            assert(text::parsed_i64(v[i]@) == Some(n));
        }
        if text::parsed_i64(v.last()@) == Some(n) {
            assert(after.last() == n);
            assert(text::parsed_i64(v[v.len() - 1]@) == Some(n));
        }
        if after.contains(n) && text::parsed_i64(v.last()@) != Some(n) {
            let k = choose|k: int| 0 <= k < after.len() && after[k] == n;
            assert(before[k] == n);
        }
        if exists|i: int| 0 <= i < v.len() && text::parsed_i64((#[trigger] v[i])@) == Some(n) {
            let i = choose|i: int|
                0 <= i < v.len() && text::parsed_i64((#[trigger] v[i])@) == Some(n);
            if i < rest.len() {
                assert(text::parsed_i64(rest[i]@) == Some(n));
            }
        }
    }
}

/// What merging adds is exactly what is new.
proof fn lemma_with_new_ints(base: Seq<int>, ids: Seq<int>, x: int)
    ensures
        with_new_ints(base, ids).contains(x) <==> base.contains(x) || ids.contains(x),
    decreases ids.len(),
{
    if ids.len() > 0 {
        let rest = ids.drop_last();
        let before = with_new_ints(base, rest);
        let after = with_new_ints(base, ids);
        lemma_with_new_ints(base, rest, x);
        if before.contains(x) {
            let k = choose|k: int| 0 <= k < before.len() && before[k] == x;
            assert(after[k] == x);
        }
        if rest.contains(x) {
            let k = choose|k: int| 0 <= k < rest.len() && rest[k] == x;
            assert(ids[k] == x);
        }
        if ids.contains(x) {
            let k = choose|k: int| 0 <= k < ids.len() && ids[k] == x;
            if k < rest.len() {
                assert(rest[k] == x);
            } else if !before.contains(x) {
                assert(after.last() == x);
            }
        }
        if after.contains(x) && !before.contains(x) {
            let k = choose|k: int| 0 <= k < after.len() && after[k] == x;
            if k < before.len() {
                assert(before[k] == x);
            }
            assert(x == ids.last());
            assert(ids[ids.len() - 1] == x);
        }
    }
}

/// Telegram accepts the chats that its bindings name, and no others where they name any.
/// A user may write in a private chat exactly where the platform settings or some
/// Telegram binding list the user.
pub proof fn law_telegram_accepts_what_is_bound(base: Seq<int>, bindings: Seq<Binding>, c: int)
    ensures
        telegram_chats(bindings).contains(c) <==> exists|i: int|
            0 <= i < bindings.len() && (#[trigger] bindings[i]).channel@ == "telegram"@
                && bindings[i].chat_id is Some && text::parsed_i64(bindings[i].chat_id->0@) == Some(
                c,
            ),
        telegram_users(base, bindings).contains(c) <==> base.contains(c) || exists|i: int|
            0 <= i < bindings.len() && (#[trigger] bindings[i]).channel@ == "telegram"@ && chat_ids(
                bindings[i].dm_allowed_users@,
            ).contains(c),
    decreases bindings.len(),
{
    if bindings.len() > 0 {
        let rest = bindings.drop_last();
        let n = rest.len() as int;
        let b = bindings.last();
        law_telegram_accepts_what_is_bound(base, rest, c);
        assert(bindings[n] == b);
        let before = telegram_chats(rest);
        let after = telegram_chats(bindings);
        let named = b.channel@ == "telegram"@ && b.chat_id is Some && text::parsed_i64(b.chat_id->0@)
            == Some(c);
        if named {
            assert(after.last() == c);
        }
        if before.contains(c) {
            let k = choose|k: int| 0 <= k < before.len() && before[k] == c;
            assert(after[k] == c);
            let i = choose|i: int|
                0 <= i < rest.len() && (#[trigger] rest[i]).channel@ == "telegram"@
                    && rest[i].chat_id is Some && text::parsed_i64(rest[i].chat_id->0@) == Some(c);
            assert(bindings[i] == rest[i]);
        }
        if after.contains(c) && !named {
            let k = choose|k: int| 0 <= k < after.len() && after[k] == c;
            if k < before.len() {
                assert(before[k] == c);
            }
        }
        if exists|i: int|
            0 <= i < bindings.len() && (#[trigger] bindings[i]).channel@ == "telegram"@
                && bindings[i].chat_id is Some && text::parsed_i64(bindings[i].chat_id->0@) == Some(
                c,
            ) {
            let i = choose|i: int|
                0 <= i < bindings.len() && (#[trigger] bindings[i]).channel@ == "telegram"@
                    && bindings[i].chat_id is Some && text::parsed_i64(bindings[i].chat_id->0@)
                    == Some(c);
            if i < n {
                assert(rest[i] == bindings[i]);
            }
        }
        lemma_with_new_ints(telegram_users(base, rest), chat_ids(b.dm_allowed_users@), c);
        if exists|i: int|
            0 <= i < rest.len() && (#[trigger] rest[i]).channel@ == "telegram"@ && chat_ids(
                rest[i].dm_allowed_users@,
            ).contains(c) {
            let i = choose|i: int|
                0 <= i < rest.len() && (#[trigger] rest[i]).channel@ == "telegram"@ && chat_ids(
                    rest[i].dm_allowed_users@,
                ).contains(c);
            assert(bindings[i] == rest[i]);
        }
        if exists|i: int|
            0 <= i < bindings.len() && (#[trigger] bindings[i]).channel@ == "telegram"@ && chat_ids(
                bindings[i].dm_allowed_users@,
            ).contains(c) {
            let i = choose|i: int|
                0 <= i < bindings.len() && (#[trigger] bindings[i]).channel@ == "telegram"@
                    && chat_ids(bindings[i].dm_allowed_users@).contains(c);
            if i < n {
                assert(rest[i] == bindings[i]);
            }
        }
    }
}

/// The filters of the platforms hold what the settings and the bindings permit: they
/// filter exactly where a binding names a place, and whoever the settings allow may send
/// direct messages.
pub proof fn law_filters_follow_the_settings(
    slack: SlackConfig,
    discord: DiscordConfig,
    telegram: TelegramConfig,
    bindings: Seq<Binding>,
    s: SlackPermissions,
    d: DiscordPermissions,
    t: TelegramPermissions,
)
    requires
        slack_permits(slack, bindings, s),
        discord_permits(discord, bindings, d),
        telegram_permits(telegram, bindings, t),
    ensures
        s.workspace_filter is Some <==> slack_workspaces(bindings).len() > 0,
        s.workspace_filter matches Some(v) ==> text::texts(v@) == slack_workspaces(bindings),
        s.dm_allowed_users@ == slack.dm_allowed_users@,
        s.channel_filter@ == slack_channels(bindings),
        d.guild_filter is Some <==> discord_guilds(bindings).len() > 0,
        d.guild_filter matches Some(v) ==> v@ == discord_guilds(bindings),
        d.allow_bot_messages == discord.allow_bot_messages,
        forall|g: u64| #[trigger]
            d.channel_filter@.contains_key(g) <==> discord_channels(bindings).contains_key(g),
        forall|g: u64|
            d.channel_filter@.contains_key(g) ==> (#[trigger] d.channel_filter@[g])@
                == discord_channels(bindings)[g],
        forall|x: u64| #[trigger]
            user_ids(discord.dm_allowed_users@).contains(x) ==> d.dm_allowed_users@.contains(x),
        t.chat_filter is Some <==> telegram_chats(bindings).len() > 0,
        t.chat_filter matches Some(v) ==> ints(v@) == telegram_chats(bindings),
        forall|x: int| #[trigger]
            chat_ids(telegram.dm_allowed_users@).contains(x) ==> ints(
                t.dm_allowed_users@,
            ).contains(x),
{
    assert forall|x: u64| #[trigger]
        user_ids(discord.dm_allowed_users@).contains(x) implies d.dm_allowed_users@.contains(x) by {
        law_discord_users(user_ids(discord.dm_allowed_users@), bindings, x);
    }
    assert forall|x: int| #[trigger]
        chat_ids(telegram.dm_allowed_users@).contains(x) implies ints(
        t.dm_allowed_users@,
    ).contains(x) by {
        law_telegram_accepts_what_is_bound(chat_ids(telegram.dm_allowed_users@), bindings, x);
    }
    assert forall|g: u64| #[trigger]
        d.channel_filter@.contains_key(g) <==> discord_channels(bindings).contains_key(g) by {
        assert(d.channel_filter@.dom().contains(g) <==> discord_channels(bindings).dom().contains(
            g,
        ));
    }
}

/// A copy of a binding is for the same agent, platform and places, and lets in the same
/// users.
pub proof fn law_copies_of_bindings(a: Binding, b: Binding)
    requires
        same_binding(a, b),
    ensures
        a.agent_id@ == b.agent_id@ && a.channel@ == b.channel@,
        a.guild_id == b.guild_id && a.workspace_id == b.workspace_id && a.chat_id == b.chat_id,
        a.channel_ids@ == b.channel_ids@ && a.dm_allowed_users@ == b.dm_allowed_users@,
{
}

} // verus!
