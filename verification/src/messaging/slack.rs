//! Slack: which events become messages, and the calls that answer them.
use crate::config::bindings::SlackPermissions;
use crate::config::clone_opt;
use crate::cut;
use crate::cut::{shorten, split_message};
use crate::message;
use crate::message::{get_text, Attachment, InboundMessage, Json, MessageContent, OutboundResponse, Timestamp};
use crate::messaging::traits;
use crate::messaging::traits::HistoryMessage;
use crate::text;
use crate::text::{cat2, holds_text, lower_text, slice_text, str_eq, to_chars, trim_text};
use crate::text_map::TextMap;
use vstd::prelude::*;

verus! {

/// Slack's limit on the bytes of a message.
pub const MAX_MESSAGE_LENGTH: usize = 4000;

// ---------------------------------------------------------------------------
// Inbound
// ---------------------------------------------------------------------------

/// A file of a Slack message.
pub struct SlackFile {
    pub url_private: Option<String>,
    pub name: Option<String>,
    pub mimetype: Option<String>,
}

/// The content of a Slack message.
pub struct SlackContent {
    pub text: Option<String>,
    pub files: Option<Vec<SlackFile>>,
}

/// A message event of Slack.
pub struct SlackMessage {
    /// An edit, a deletion or another special message.
    pub has_subtype: bool,
    pub team_id: String,
    pub user: Option<String>,
    pub channel: Option<String>,
    pub ts: String,
    pub thread_ts: Option<String>,
    pub content: Option<SlackContent>,
}

/// An event that Slack pushes.
pub enum SlackEvent {
    Message(SlackMessage),
    Other,
}

/// The channel of a message, empty where it names none.
pub open spec fn channel_of(m: SlackMessage) -> Seq<char> {
    match m.channel {
        Some(c) => c@,
        None => Seq::empty(),
    }
}

/// A user may write in a channel: in a direct message only where the user is
/// allowed to, and elsewhere where the workspace and the channel are accepted.
pub open spec fn permitted(
    perms: SlackPermissions,
    team: Seq<char>,
    channel: Seq<char>,
    user: Seq<char>,
) -> bool {
    &&& channel.len() > 0 && channel[0] == 'D' ==> text::texts(perms.dm_allowed_users@).contains(
        user,
    )
    &&& (match perms.workspace_filter {
        Some(f) => text::texts(f@).contains(team),
        None => true,
    })
    &&& perms.channel_filter@.contains_key(team) && perms.channel_filter@[team].len() > 0
        ==> perms.channel_filter@[team].contains(channel)
}

/// The event is a message to take in: an ordinary message of a user other than
/// the bot, where the permissions admit it.
pub open spec fn admitted(e: SlackEvent, bot_user_id: Seq<char>, perms: SlackPermissions) -> bool {
    match e {
        SlackEvent::Message(m) => match m.user {
            Some(u) => !m.has_subtype && u@ != bot_user_id && permitted(
                perms,
                m.team_id@,
                channel_of(m),
                u@,
            ),
            None => false,
        },
        SlackEvent::Other => false,
    }
}

fn channel_id_of(m: &SlackMessage) -> (r: String)
    ensures
        r@ == channel_of(*m),
{
    match &m.channel {
        Some(c) => c.clone(),
        None => String::new(),
    }
}

fn is_permitted(perms: &SlackPermissions, team: &str, channel: &str, user: &str) -> (r: bool)
    ensures
        r == permitted(*perms, team@, channel@, user@),
{
    let c = to_chars(channel);
    if c.len() > 0 && c[0] == 'D' {
        if !holds_text(&perms.dm_allowed_users, user) {
            return false;
        }
    }
    if let Some(f) = &perms.workspace_filter {
        if !holds_text(f, team) {
            return false;
        }
    }
    if let Some(list) = perms.channel_filter.get(team) {
        assert(list.deep_view() =~= text::texts(list@));
        if list.len() > 0 && !holds_text(list, channel) {
            return false;
        }
    }
    true
}

/// Tells whether an event is a message to take in.
pub fn admit_push_event(e: &SlackEvent, bot_user_id: &str, perms: &SlackPermissions) -> (r: bool)
    ensures
        r == admitted(*e, bot_user_id@, *perms),
{
    match e {
        SlackEvent::Message(m) => {
            if m.has_subtype {
                return false;
            }
            match &m.user {
                Some(u) => {
                    if str_eq(u.as_str(), bot_user_id) {
                        return false;
                    }
                    let channel = channel_id_of(m);
                    is_permitted(perms, m.team_id.as_str(), channel.as_str(), u.as_str())
                },
                None => false,
            }
        },
        SlackEvent::Other => false,
    }
}

/// The conversation of a message: a thread is a conversation of its own.
pub open spec fn conversation_of(m: SlackMessage) -> Seq<char> {
    let channel = "slack:"@ + m.team_id@ + ":"@ + channel_of(m);
    match m.thread_ts {
        Some(t) => channel + ":"@ + t@,
        None => channel,
    }
}

/// The text of an optional string, empty where there is none.
pub open spec fn or_empty(o: Option<String>) -> Seq<char> {
    match o {
        Some(s) => s@,
        None => Seq::empty(),
    }
}

fn text_or_empty(o: &Option<String>) -> (r: String)
    ensures
        r@ == or_empty(*o),
{
    match o {
        Some(s) => s.clone(),
        None => String::new(),
    }
}

/// The attachments of a message: its files that can be fetched, in order.
pub open spec fn attachments_of(files: Seq<SlackFile>) -> Seq<message::AttachmentView>
    decreases files.len(),
{
    if files.len() == 0 {
        Seq::empty()
    } else {
        let before = attachments_of(files.drop_last());
        let f = files.last();
        match f.url_private {
            Some(url) => before.push(
                message::AttachmentView {
                    filename: match f.name {
                        Some(n) => n@,
                        None => "unnamed"@,
                    },
                    mime_type: or_empty(f.mimetype),
                    url: url@,
                    size_bytes: None,
                },
            ),
            None => before,
        }
    }
}

fn collect_attachments(files: &Vec<SlackFile>) -> (r: Vec<Attachment>)
    ensures
        message::attachment_views(r@) == attachments_of(files@),
{
    let mut out: Vec<Attachment> = Vec::new();
    let mut i: usize = 0;
    proof {
        assert(files@.take(0) =~= Seq::<SlackFile>::empty());
        assert(message::attachment_views(out@) =~= Seq::<message::AttachmentView>::empty());
    }
    while i < files.len()
        invariant
            i <= files@.len(),
            message::attachment_views(out@) == attachments_of(files@.take(i as int)),
        decreases files@.len() - i,
    {
        let f = &files[i];
        let ghost before = message::attachment_views(out@);
        proof {
            assert(files@.take(i + 1).drop_last() =~= files@.take(i as int));
            assert(files@.take(i + 1).last() == files@[i as int]);
        }
        if let Some(url) = &f.url_private {
            let filename = match &f.name {
                Some(n) => n.clone(),
                None => "unnamed".to_owned(),
            };
            let a = Attachment {
                filename,
                mime_type: text_or_empty(&f.mimetype),
                url: url.clone(),
                size_bytes: None,
            };
            out.push(a);
            assert(message::attachment_views(out@) =~= before.push(a@));
        }
        i = i + 1;
    }
    assert(files@.take(i as int) =~= files@);
    out
}

/// The content of a message: media where it brings files that can be fetched,
/// else its text.
pub open spec fn content_of(c: Option<SlackContent>) -> message::ContentView {
    match c {
        Some(c) => match c.files {
            Some(files) => if attachments_of(files@).len() > 0 {
                message::ContentView::Media {
                    text: text::opt_text(c.text),
                    attachments: attachments_of(files@),
                }
            } else {
                message::ContentView::Text(or_empty(c.text))
            },
            None => message::ContentView::Text(or_empty(c.text)),
        },
        None => message::ContentView::Text(Seq::empty()),
    }
}

fn build_content(c: &Option<SlackContent>) -> (r: MessageContent)
    ensures
        r@ == content_of(*c),
{
    match c {
        Some(c) => match &c.files {
            Some(files) => {
                let attachments = collect_attachments(files);
                assert(attachments@.len() == message::attachment_views(attachments@).len());
                if attachments.len() == 0 {
                    MessageContent::Text(text_or_empty(&c.text))
                } else {
                    MessageContent::Media { text: clone_opt(&c.text), attachments }
                }
            },
            None => MessageContent::Text(text_or_empty(&c.text)),
        },
        None => MessageContent::Text(String::new()),
    }
}

/// A map with a further text, where there is one.
pub open spec fn with_text(
    m: Map<Seq<char>, message::JsonView>,
    key: Seq<char>,
    value: Option<Seq<char>>,
) -> Map<Seq<char>, message::JsonView> {
    match value {
        Some(v) => m.insert(key, message::JsonView::Text(v)),
        None => m,
    }
}

/// The metadata of a message.
pub open spec fn metadata_of(m: SlackMessage, display_name: Option<Seq<char>>) -> Map<
    Seq<char>,
    message::JsonView,
> {
    let base = Map::empty().insert(
        "slack_workspace_id"@,
        message::JsonView::Text(m.team_id@),
    ).insert("slack_channel_id"@, message::JsonView::Text(channel_of(m))).insert(
        "slack_message_ts"@,
        message::JsonView::Text(m.ts@),
    );
    with_text(
        with_text(
            with_text(base, "slack_thread_ts"@, text::opt_text(m.thread_ts)),
            "slack_user_id"@,
            text::opt_text(m.user),
        ),
        "sender_display_name"@,
        display_name,
    )
}

fn put_text(meta: &mut TextMap<Json>, key: &str, value: String)
    ensures
        final(meta)@ == old(meta)@.insert(key@, message::JsonView::Text(value@)),
{
    meta.insert(key.to_owned(), Json::Text(value));
}

/// The message that an event becomes. `display_name` is the name that Slack
/// knows the sender by, where it could be had.
pub fn inbound_from_push(m: &SlackMessage, display_name: &Option<String>, now: Timestamp) -> (r:
    InboundMessage)
    ensures
        r.id@ == m.ts@,
        r.source@ == "slack"@,
        r.conversation_id@ == conversation_of(*m),
        r.sender_id@ == or_empty(m.user),
        r.agent_id is None,
        r.content@ == content_of(m.content),
        r.timestamp == now,
        r.metadata@ == metadata_of(*m, text::opt_text(*display_name)),
{
    let channel_id = channel_id_of(m);
    let mut conversation_id = cat2("slack:", m.team_id.as_str());
    conversation_id.append(":");
    conversation_id.append(channel_id.as_str());
    if let Some(t) = &m.thread_ts {
        conversation_id.append(":");
        conversation_id.append(t.as_str());
    }
    let mut metadata: TextMap<Json> = TextMap::new();
    put_text(&mut metadata, "slack_workspace_id", m.team_id.clone());
    put_text(&mut metadata, "slack_channel_id", channel_id);
    put_text(&mut metadata, "slack_message_ts", m.ts.clone());
    if let Some(t) = &m.thread_ts {
        put_text(&mut metadata, "slack_thread_ts", t.clone());
    }
    if let Some(u) = &m.user {
        put_text(&mut metadata, "slack_user_id", u.clone());
    }
    if let Some(n) = display_name {
        put_text(&mut metadata, "sender_display_name", n.clone());
    }
    InboundMessage {
        id: m.ts.clone(),
        source: "slack".to_owned(),
        conversation_id,
        sender_id: text_or_empty(&m.user),
        agent_id: None,
        content: build_content(&m.content),
        timestamp: now,
        metadata,
    }
}

/// Handles an event that Slack pushes: the message to take in, where it is one.
pub fn handle_push_event(
    e: &SlackEvent,
    bot_user_id: &str,
    perms: &SlackPermissions,
    display_name: &Option<String>,
    now: Timestamp,
) -> (r: Option<InboundMessage>)
    ensures
        match r {
            Some(i) => {
                &&& admitted(*e, bot_user_id@, *perms)
                &&& i.id@ == e->Message_0.ts@
                &&& i.source@ == "slack"@
                &&& i.conversation_id@ == conversation_of(e->Message_0)
                &&& i.sender_id@ == or_empty(e->Message_0.user)
                &&& i.agent_id is None
                &&& i.content@ == content_of(e->Message_0.content)
                &&& i.timestamp == now
                &&& i.metadata@ == metadata_of(e->Message_0, text::opt_text(*display_name))
            },
            None => !admitted(*e, bot_user_id@, *perms),
        },
{
    if !admit_push_event(e, bot_user_id, perms) {
        return None;
    }
    match e {
        SlackEvent::Message(m) => Some(inbound_from_push(m, display_name, now)),
        SlackEvent::Other => None,
    }
}

/// The bot never takes in a message of its own.
pub proof fn law_own_messages_are_skipped(
    m: SlackMessage,
    bot_user_id: Seq<char>,
    perms: SlackPermissions,
)
    requires
        or_empty(m.user) == bot_user_id,
    ensures
        !admitted(SlackEvent::Message(m), bot_user_id, perms),
{
}

/// A direct message is taken in only from a user that the settings allow, so
/// with no such user direct messages are ignored entirely.
pub proof fn law_dm_needs_permission(
    m: SlackMessage,
    bot_user_id: Seq<char>,
    perms: SlackPermissions,
)
    requires
        channel_of(m).len() > 0,
        channel_of(m)[0] == 'D',
        admitted(SlackEvent::Message(m), bot_user_id, perms),
    ensures
        text::texts(perms.dm_allowed_users@).contains(or_empty(m.user)),
        perms.dm_allowed_users@.len() > 0,
{
}

/// The keys of the metadata differ.
proof fn lemma_metadata_keys()
    ensures
        "slack_workspace_id"@ != "slack_channel_id"@,
        "slack_workspace_id"@ != "slack_message_ts"@,
        "slack_workspace_id"@ != "slack_thread_ts"@,
        "slack_workspace_id"@ != "slack_user_id"@,
        "slack_workspace_id"@ != "sender_display_name"@,
        "slack_channel_id"@ != "slack_message_ts"@,
        "slack_channel_id"@ != "slack_thread_ts"@,
        "slack_channel_id"@ != "slack_user_id"@,
        "slack_channel_id"@ != "sender_display_name"@,
        "slack_message_ts"@ != "slack_thread_ts"@,
        "slack_message_ts"@ != "slack_user_id"@,
        "slack_message_ts"@ != "sender_display_name"@,
        "slack_thread_ts"@ != "slack_user_id"@,
        "slack_thread_ts"@ != "sender_display_name"@,
        "slack_user_id"@ != "sender_display_name"@,
{
    reveal_strlit("slack_workspace_id");
    reveal_strlit("slack_channel_id");
    reveal_strlit("slack_message_ts");
    reveal_strlit("slack_thread_ts");
    reveal_strlit("slack_user_id");
    reveal_strlit("sender_display_name");
    assert("slack_channel_id"@[6] != "slack_message_ts"@[6]);
    assert("slack_workspace_id"@.len() == 18);
    assert("slack_channel_id"@.len() == 16);
    assert("slack_message_ts"@.len() == 16);
    assert("slack_thread_ts"@.len() == 15);
    assert("slack_user_id"@.len() == 13);
    assert("sender_display_name"@.len() == 19);
}

/// A message of a user other than the bot, in a channel, is taken in where its workspace
/// and its channel are accepted: a workspace where none are listed or it is listed, and
/// a channel where its workspace has none listed or it is listed. A direct message must
/// also be of a user that is allowed.
pub proof fn law_accepted_messages_are_taken_in(
    m: SlackMessage,
    bot_user_id: Seq<char>,
    perms: SlackPermissions,
)
    requires
        m.user is Some,
        m.channel is Some,
    ensures
        ({
            let user = m.user->0@;
            let channel = m.channel->0@;
            let team = m.team_id@;
            let direct = channel.len() > 0 && channel[0] == 'D';
            let user_allowed = exists|i: int|
                0 <= i < perms.dm_allowed_users@.len() && (#[trigger] perms.dm_allowed_users@[i])@
                    == user;
            let team_listed = perms.workspace_filter matches Some(f) && exists|i: int|
                0 <= i < f@.len() && (#[trigger] f@[i])@ == team;
            let listed = perms.channel_filter@.contains_key(team) && exists|i: int|
                0 <= i < perms.channel_filter@[team].len() && #[trigger] perms.channel_filter@[team][i]
                    == channel;
            let open = !perms.channel_filter@.contains_key(team)
                || perms.channel_filter@[team].len() == 0;
            admitted(SlackEvent::Message(m), bot_user_id, perms) <==> (!m.has_subtype && user
                != bot_user_id && (direct ==> user_allowed) && (perms.workspace_filter is None
                || team_listed) && (open || listed))
        }),
        !admitted(SlackEvent::Other, bot_user_id, perms),
{
    let user = m.user->0@;
    let channel = m.channel->0@;
    let team = m.team_id@;
    lemma_listed(perms.dm_allowed_users@, user);
    if let Some(f) = perms.workspace_filter {
        lemma_listed(f@, team);
    }
    if perms.channel_filter@.contains_key(team) {
        let v = perms.channel_filter@[team];
        if v.contains(channel) {
            let i = choose|i: int| 0 <= i < v.len() && v[i] == channel;
            assert(v[i] == channel);
        }
        if exists|i: int| 0 <= i < v.len() && #[trigger] v[i] == channel {
            let i = choose|i: int| 0 <= i < v.len() && #[trigger] v[i] == channel;
            assert(v.contains(v[i]));
        }
    }
}

/// A list holds a text exactly where one of its entries is that text.
proof fn lemma_listed(ids: Seq<String>, s: Seq<char>)
    ensures
        text::texts(ids).contains(s) <==> exists|i: int|
            0 <= i < ids.len() && (#[trigger] ids[i])@ == s,
{
    if text::texts(ids).contains(s) {
        let i = choose|i: int| 0 <= i < text::texts(ids).len() && text::texts(ids)[i] == s;
        assert(ids[i]@ == s);
    }
    if exists|i: int| 0 <= i < ids.len() && (#[trigger] ids[i])@ == s {
        let i = choose|i: int| 0 <= i < ids.len() && (#[trigger] ids[i])@ == s;
        assert(text::texts(ids)[i] == s);
    }
}

/// Files come with a message in their order, under their addresses, where they have
/// one; others are left out. A message without files that can be had is its text.
pub proof fn law_files_come_with_their_message(files: Seq<SlackFile>, f: SlackFile)
    ensures
        attachments_of(Seq::empty()).len() == 0,
        ({
            let before = attachments_of(files);
            let after = attachments_of(files.push(f));
            match f.url_private {
                Some(url) => after.len() == before.len() + 1 && after.drop_last() == before
                    && after.last().url == url@ && (f.name matches Some(n) ==> after.last().filename
                    == n@) && (f.mimetype matches Some(t) ==> after.last().mime_type == t@)
                    && (f.name is None ==> after.last().filename == "unnamed"@) && (f.mimetype
                    is None ==> after.last().mime_type.len() == 0) && after.last().size_bytes
                    is None,
                None => after == before,
            }
        }),
{
    let after = files.push(f);
    assert(after.drop_last() =~= files);
    assert(attachments_of(after).len() > attachments_of(files).len() ==> attachments_of(
        after,
    ).drop_last() =~= attachments_of(files));
}

/// A message says its text; with files that can be had, they come with it.
pub proof fn law_text_comes_through(c: SlackContent)
    ensures
        c.files is None ==> content_of(Some(c)) == message::ContentView::Text(
            match c.text {
                Some(s) => s@,
                None => ""@,
            },
        ),
        c.files matches Some(files) ==> (if attachments_of(files@).len() > 0 {
            content_of(Some(c)) == message::ContentView::Media {
                text: text::opt_text(c.text),
                attachments: attachments_of(files@),
            }
        } else {
            content_of(Some(c)) == message::ContentView::Text(
                match c.text {
                    Some(s) => s@,
                    None => ""@,
                },
            )
        }),
{
    reveal_strlit("");
    assert(""@ =~= Seq::<char>::empty());
}

/// The metadata of a message tells its workspace, its channel, its thread, its sender
/// and when it was sent.
pub proof fn law_metadata_tells_the_place(m: SlackMessage, display_name: Option<Seq<char>>)
    requires
        m.channel is Some,
    ensures
        ({
            let meta = metadata_of(m, display_name);
            &&& message::meta_text(meta, "slack_workspace_id"@) == Some(m.team_id@)
            &&& message::meta_text(meta, "slack_channel_id"@) == Some(m.channel->0@)
            &&& message::meta_text(meta, "slack_message_ts"@) == Some(m.ts@)
            &&& message::meta_text(meta, "slack_thread_ts"@) == text::opt_text(m.thread_ts)
            &&& message::meta_text(meta, "slack_user_id"@) == text::opt_text(m.user)
            &&& message::meta_text(meta, "sender_display_name"@) == display_name
        }),
        m.thread_ts is None ==> conversation_of(m) == "slack:"@ + m.team_id@ + ":"@ + m.channel->0@,
        m.thread_ts matches Some(t) ==> conversation_of(m) == "slack:"@ + m.team_id@ + ":"@
            + m.channel->0@ + ":"@ + t@,
{
    lemma_metadata_keys();
}

// ---------------------------------------------------------------------------
// Outbound
// ---------------------------------------------------------------------------

/// A call to Slack.
pub enum SlackAction {
    PostMessage { channel: String, text: String, thread_ts: Option<String> },
    UploadFile {
        channel: String,
        filename: String,
        data: Vec<u8>,
        mime_type: String,
        caption: Option<String>,
        thread_ts: Option<String>,
    },
    AddReaction { channel: String, name: String, ts: String },
    /// Post a message to be edited while the answer streams in. Its timestamp is
    /// recorded for the message `stream_id`.
    PostPlaceholder { channel: String, text: String, stream_id: String },
    /// Edit the streamed message.
    UpdateMessage { channel: String, ts: String, text: String },
}

/// What a [`SlackAction`] says.
pub enum SlackActionView {
    PostMessage { channel: Seq<char>, text: Seq<char>, thread_ts: Option<Seq<char>> },
    UploadFile {
        channel: Seq<char>,
        filename: Seq<char>,
        data: Seq<u8>,
        mime_type: Seq<char>,
        caption: Option<Seq<char>>,
        thread_ts: Option<Seq<char>>,
    },
    AddReaction { channel: Seq<char>, name: Seq<char>, ts: Seq<char> },
    PostPlaceholder { channel: Seq<char>, text: Seq<char>, stream_id: Seq<char> },
    UpdateMessage { channel: Seq<char>, ts: Seq<char>, text: Seq<char> },
}

impl View for SlackAction {
    type V = SlackActionView;

    open spec fn view(&self) -> SlackActionView {
        match *self {
            SlackAction::PostMessage { channel, text, thread_ts } => SlackActionView::PostMessage {
                channel: channel@,
                text: text@,
                thread_ts: text::opt_text(thread_ts),
            },
            SlackAction::UploadFile { channel, filename, data, mime_type, caption, thread_ts } =>
                SlackActionView::UploadFile {
                channel: channel@,
                filename: filename@,
                data: data@,
                mime_type: mime_type@,
                caption: text::opt_text(caption),
                thread_ts: text::opt_text(thread_ts),
            },
            SlackAction::AddReaction { channel, name, ts } => SlackActionView::AddReaction {
                channel: channel@,
                name: name@,
                ts: ts@,
            },
            SlackAction::PostPlaceholder { channel, text, stream_id } =>
                SlackActionView::PostPlaceholder {
                channel: channel@,
                text: text@,
                stream_id: stream_id@,
            },
            SlackAction::UpdateMessage { channel, ts, text } => SlackActionView::UpdateMessage {
                channel: channel@,
                ts: ts@,
                text: text@,
            },
        }
    }
}

/// What a list of calls says.
pub open spec fn action_views(v: Seq<SlackAction>) -> Seq<SlackActionView> {
    Seq::new(v.len(), |i: int| v[i]@)
}

/// Why a response cannot be sent.
#[derive(Clone, Copy, Debug, PartialEq, Eq, Structural)]
pub enum SlackError {
    /// The metadata of the message names no channel.
    MissingChannelId,
    /// The metadata of the message names no message to react to.
    MissingMessageTs,
}

impl SlackError {
    /// Describes the error.
    pub fn message(&self) -> (r: String)
        ensures
            r@ == (match *self {
                SlackError::MissingChannelId => "missing slack_channel_id in metadata"@,
                SlackError::MissingMessageTs => "missing slack_message_ts for reaction"@,
            }),
    {
        match self {
            SlackError::MissingChannelId => "missing slack_channel_id in metadata".to_owned(),
            SlackError::MissingMessageTs => "missing slack_message_ts for reaction".to_owned(),
        }
    }
}

/// A text without the colons at its start.
pub open spec fn after_colons(s: Seq<char>) -> Seq<char>
    decreases s.len(),
{
    if s.len() > 0 && s[0] == ':' {
        after_colons(s.drop_first())
    } else {
        s
    }
}

/// A text without the colons at its end.
pub open spec fn before_colons(s: Seq<char>) -> Seq<char>
    decreases s.len(),
{
    if s.len() > 0 && s.last() == ':' {
        before_colons(s.drop_last())
    } else {
        s
    }
}

/// The name of a reaction: an emoji without white space and colons around it,
/// in lower case.
pub open spec fn reaction_name(emoji: Seq<char>) -> Seq<char> {
    text::lower(before_colons(after_colons(text::trim(emoji))))
}

/// An emoji without white space and colons around it.
pub fn bare_emoji(emoji: &str) -> (r: String)
    ensures
        r@ == before_colons(after_colons(text::trim(emoji@))),
{
    let t = trim_text(emoji);
    let v = to_chars(t.as_str());
    let mut i: usize = 0;
    let mut j: usize = v.len();
    assert(v@.skip(0) =~= t@);
    while i < v.len() && v[i] == ':'
        invariant
            i <= v@.len(),
            after_colons(v@.skip(i as int)) == after_colons(t@),
        decreases v@.len() - i,
    {
        proof {
            assert(v@.skip(i as int)[0] == v@[i as int]);
            assert(v@.skip(i as int).drop_first() =~= v@.skip(i + 1));
        }
        i = i + 1;
    }
    proof {
        if i < v@.len() {
            assert(v@.skip(i as int)[0] == v@[i as int]);
        }
        assert(v@.skip(i as int) =~= v@.subrange(i as int, j as int));
    }
    while j > i && v[j - 1] == ':'
        invariant
            i <= j <= v@.len(),
            before_colons(v@.subrange(i as int, j as int)) == before_colons(after_colons(t@)),
        decreases j,
    {
        proof {
            assert(v@.subrange(i as int, j as int).last() == v@[j - 1]);
            assert(v@.subrange(i as int, j as int).drop_last() =~= v@.subrange(i as int, j - 1));
        }
        j = j - 1;
    }
    proof {
        if j > i {
            assert(v@.subrange(i as int, j as int).last() == v@[j - 1]);
        }
    }
    slice_text(&v, i, j)
}

/// Sanitizes an emoji for a Slack reaction.
pub fn sanitize_reaction_name(emoji: &str) -> (r: String)
    ensures
        r@ == reaction_name(emoji@),
{
    let bare = bare_emoji(emoji);
    lower_text(bare.as_str())
}

/// The calls that post a text to a channel, one for each chunk.
pub open spec fn posts(
    channel: Seq<char>,
    chunks: Seq<Seq<char>>,
    thread_ts: Option<Seq<char>>,
) -> Seq<SlackActionView> {
    Seq::new(
        chunks.len(),
        |i: int| SlackActionView::PostMessage { channel, text: chunks[i], thread_ts },
    )
}

fn post_all(channel: &str, s: &str, thread_ts: &Option<String>) -> (r: Vec<SlackAction>)
    ensures
        action_views(r@) == posts(
            channel@,
            cut::message_chunks(s@, MAX_MESSAGE_LENGTH as nat),
            text::opt_text(*thread_ts),
        ),
{
    let chunks = split_message(s, MAX_MESSAGE_LENGTH);
    let ghost all = posts(channel@, text::texts(chunks@), text::opt_text(*thread_ts));
    let mut out: Vec<SlackAction> = Vec::new();
    assert(action_views(out@) =~= all.take(0));
    for chunk in it: chunks
        invariant
            it.seq() == chunks@,
            all == posts(channel@, text::texts(chunks@), text::opt_text(*thread_ts)),
            action_views(out@) == all.take(it.index() as int),
    {
        let ghost i = it.index() as int;
        let ghost before = action_views(out@);
        let a = SlackAction::PostMessage {
            channel: channel.to_owned(),
            text: chunk,
            thread_ts: clone_opt(thread_ts),
        };
        out.push(a);
        proof {
            assert(action_views(out@) =~= before.push(a@));
            assert(all.take(i + 1) =~= all.take(i).push(all[i]));
        }
    }
    assert(all.take(all.len() as int) =~= all);
    out
}

/// The timestamp of the message, from its metadata.
pub open spec fn message_ts(m: InboundMessage) -> Option<Seq<char>> {
    message::meta_text(m.metadata@, "slack_message_ts"@)
}

/// The thread of the message, from its metadata.
pub open spec fn thread_ts(m: InboundMessage) -> Option<Seq<char>> {
    message::meta_text(m.metadata@, "slack_thread_ts"@)
}

/// The calls that send a response to a message whose channel is known.
pub open spec fn actions_for(
    m: InboundMessage,
    channel: Seq<char>,
    response: OutboundResponse,
    active: Map<Seq<char>, Seq<char>>,
) -> Result<Seq<SlackActionView>, SlackError> {
    match response {
        OutboundResponse::Text(t) => Ok(
            posts(channel, cut::message_chunks(t@, MAX_MESSAGE_LENGTH as nat), thread_ts(m)),
        ),
        OutboundResponse::ThreadReply { thread_name: _, text: t } => Ok(
            posts(
                channel,
                cut::message_chunks(t@, MAX_MESSAGE_LENGTH as nat),
                match thread_ts(m) {
                    Some(x) => Some(x),
                    None => message_ts(m),
                },
            ),
        ),
        OutboundResponse::File { filename, data, mime_type, caption } => Ok(
            seq![
                SlackActionView::UploadFile {
                    channel,
                    filename: filename@,
                    data: data@,
                    mime_type: mime_type@,
                    caption: text::opt_text(caption),
                    thread_ts: thread_ts(m),
                },
            ],
        ),
        OutboundResponse::Reaction(emoji) => match message_ts(m) {
            Some(ts) => Ok(
                seq![
                    SlackActionView::AddReaction { channel, name: reaction_name(emoji@), ts },
                ],
            ),
            None => Err(SlackError::MissingMessageTs),
        },
        OutboundResponse::StreamStart => Ok(
            seq![
                SlackActionView::PostPlaceholder {
                    channel,
                    text: "\u{200B}"@,
                    stream_id: m.id@,
                },
            ],
        ),
        OutboundResponse::StreamChunk(t) => if active.contains_key(m.id@) {
            Ok(
                seq![
                    SlackActionView::UpdateMessage {
                        channel,
                        ts: active[m.id@],
                        text: cut::shortened(t@, MAX_MESSAGE_LENGTH as nat),
                    },
                ],
            )
        } else {
            Ok(Seq::empty())
        },
        OutboundResponse::StreamEnd => Ok(Seq::empty()),
        OutboundResponse::Status(_) => Ok(Seq::empty()),
    }
}

/// The calls that send a response to a message.
pub open spec fn respond_actions(
    m: InboundMessage,
    response: OutboundResponse,
    active: Map<Seq<char>, Seq<char>>,
) -> Result<Seq<SlackActionView>, SlackError> {
    match message::meta_text(m.metadata@, "slack_channel_id"@) {
        Some(channel) => actions_for(m, channel, response, active),
        None => Err(SlackError::MissingChannelId),
    }
}

/// A list with one call.
fn one(a: SlackAction) -> (r: Vec<SlackAction>)
    ensures
        action_views(r@) == seq![a@],
{
    let mut out: Vec<SlackAction> = Vec::new();
    out.push(a);
    assert(action_views(out@) =~= seq![a@]);
    out
}

fn none() -> (r: Vec<SlackAction>)
    ensures
        action_views(r@) == Seq::<SlackActionView>::empty(),
{
    let out: Vec<SlackAction> = Vec::new();
    assert(action_views(out@) =~= Seq::<SlackActionView>::empty());
    out
}

/// The streamed messages of the adapter: the timestamp that Slack gave each, by
/// the id of the message that is answered.
pub struct SlackStreams {
    pub active: TextMap<String>,
}

impl SlackStreams {
    /// No message streams.
    pub fn new() -> (r: Self)
        ensures
            r.active.wf(),
            r.active@ == Map::<Seq<char>, Seq<char>>::empty(),
    {
        SlackStreams { active: TextMap::new() }
    }

    /// Records the timestamp that Slack gave a placeholder.
    pub fn record(&mut self, stream_id: String, ts: String)
        requires
            old(self).active.wf(),
        ensures
            final(self).active.wf(),
            final(self).active@ == old(self).active@.insert(stream_id@, ts@),
    {
        self.active.insert(stream_id, ts);
    }

    /// Forgets every streamed message.
    pub fn clear(&mut self)
        ensures
            final(self).active.wf(),
            final(self).active@ == Map::<Seq<char>, Seq<char>>::empty(),
    {
        self.active = TextMap::new();
    }

    /// The calls that send a response to a message. The end of a stream forgets
    /// the streamed message.
    pub fn respond(&mut self, m: &InboundMessage, response: OutboundResponse) -> (r: Result<
        Vec<SlackAction>,
        SlackError,
    >)
        requires
            old(self).active.wf(),
        ensures
            final(self).active.wf(),
            match r {
                Ok(v) => respond_actions(*m, response, old(self).active@) == Ok::<_, SlackError>(
                    action_views(v@),
                ),
                Err(e) => respond_actions(*m, response, old(self).active@) == Err::<
                    Seq<SlackActionView>,
                    _,
                >(e),
            },
            final(self).active@ == (if r is Ok && response is StreamEnd {
                old(self).active@.remove(m.id@)
            } else {
                old(self).active@
            }),
    {
        let channel = match get_text(&m.metadata, "slack_channel_id") {
            Some(c) => c,
            None => {
                return Err(SlackError::MissingChannelId);
            },
        };
        match response {
            OutboundResponse::Text(t) => {
                let thread = get_text(&m.metadata, "slack_thread_ts");
                Ok(post_all(channel.as_str(), t.as_str(), &thread))
            },
            OutboundResponse::ThreadReply { thread_name: _, text: t } => {
                let thread = match get_text(&m.metadata, "slack_thread_ts") {
                    Some(x) => Some(x),
                    None => get_text(&m.metadata, "slack_message_ts"),
                };
                Ok(post_all(channel.as_str(), t.as_str(), &thread))
            },
            OutboundResponse::File { filename, data, mime_type, caption } => {
                let thread = get_text(&m.metadata, "slack_thread_ts");
                Ok(
                    one(
                        SlackAction::UploadFile {
                            channel,
                            filename,
                            data,
                            mime_type,
                            caption,
                            thread_ts: thread,
                        },
                    ),
                )
            },
            OutboundResponse::Reaction(emoji) => match get_text(&m.metadata, "slack_message_ts") {
                Some(ts) => {
                    let name = sanitize_reaction_name(emoji.as_str());
                    Ok(one(SlackAction::AddReaction { channel, name, ts }))
                },
                None => Err(SlackError::MissingMessageTs),
            },
            OutboundResponse::StreamStart => Ok(
                one(
                    SlackAction::PostPlaceholder {
                        channel,
                        text: "\u{200B}".to_owned(),
                        stream_id: m.id.clone(),
                    },
                ),
            ),
            OutboundResponse::StreamChunk(t) => match self.active.get(m.id.as_str()) {
                Some(ts) => {
                    let shown = shorten(t.as_str(), MAX_MESSAGE_LENGTH);
                    Ok(one(SlackAction::UpdateMessage { channel, ts: ts.clone(), text: shown }))
                },
                None => Ok(none()),
            },
            OutboundResponse::StreamEnd => {
                self.active.remove(m.id.as_str());
                Ok(none())
            },
            OutboundResponse::Status(_) => Ok(none()),
        }
    }
}

/// The calls that send a response to a channel outside of any conversation.
/// Only texts are broadcast.
pub fn broadcast(target: &str, response: &OutboundResponse) -> (r: Vec<SlackAction>)
    ensures
        action_views(r@) == (match *response {
            OutboundResponse::Text(t) => posts(
                target@,
                cut::message_chunks(t@, MAX_MESSAGE_LENGTH as nat),
                None,
            ),
            _ => Seq::empty(),
        }),
{
    match response {
        OutboundResponse::Text(t) => post_all(target, t.as_str(), &None),
        _ => none(),
    }
}

/// Every message that a response posts fits into Slack's limit.
pub proof fn law_posts_fit(
    m: InboundMessage,
    response: OutboundResponse,
    active: Map<Seq<char>, Seq<char>>,
    i: int,
)
    requires
        respond_actions(m, response, active) is Ok,
        0 <= i < respond_actions(m, response, active)->Ok_0.len(),
        respond_actions(m, response, active)->Ok_0[i] is PostMessage,
    ensures
        text::byte_len(respond_actions(m, response, active)->Ok_0[i]->PostMessage_text)
            <= MAX_MESSAGE_LENGTH,
{
    match response {
        OutboundResponse::Text(t) => {
            cut::law_chunks_fit(t@, MAX_MESSAGE_LENGTH as nat, i);
        },
        OutboundResponse::ThreadReply { thread_name: _, text: t } => {
            cut::law_chunks_fit(t@, MAX_MESSAGE_LENGTH as nat, i);
        },
        _ => {},
    }
}

/// An answer goes to the channel and the thread that the message came from; a reply
/// opens a thread where there is none, and a reaction is put on the message itself.
pub proof fn law_answer_goes_where_the_message_came_from(
    e: SlackMessage,
    display_name: Option<Seq<char>>,
    m: InboundMessage,
    response: OutboundResponse,
    active: Map<Seq<char>, Seq<char>>,
)
    requires
        e.channel is Some,
        m.id@ == e.ts@,
        m.metadata@ == metadata_of(e, display_name),
    ensures
        ({
            let acts = respond_actions(m, response, active);
            let channel = e.channel->0@;
            let thread = text::opt_text(e.thread_ts);
            match response {
                OutboundResponse::Text(s) => {
                    &&& acts is Ok
                    &&& forall|i: int|
                        0 <= i < acts->Ok_0.len() ==> (#[trigger] acts->Ok_0[i] matches SlackActionView::PostMessage {
                            channel: c,
                            text: _,
                            thread_ts: t,
                        } && c == channel && t == thread)
                    &&& (text::byte_len(s@) <= 4000 ==> acts->Ok_0 == seq![
                        SlackActionView::PostMessage { channel, text: s@, thread_ts: thread },
                    ])
                },
                OutboundResponse::ThreadReply { thread_name: _, text: s } => {
                    let under = match thread {
                        Some(t) => t,
                        None => e.ts@,
                    };
                    &&& acts is Ok
                    &&& forall|i: int|
                        0 <= i < acts->Ok_0.len() ==> (#[trigger] acts->Ok_0[i] matches SlackActionView::PostMessage {
                            channel: c,
                            text: _,
                            thread_ts: t,
                        } && c == channel && t == Some(under))
                    &&& (text::byte_len(s@) <= 4000 ==> acts->Ok_0 == seq![
                        SlackActionView::PostMessage {
                            channel,
                            text: s@,
                            thread_ts: Some(under),
                        },
                    ])
                },
                OutboundResponse::File { filename, data, mime_type, caption } => acts == Ok::<
                    _,
                    SlackError,
                >(
                    seq![
                        SlackActionView::UploadFile {
                            channel,
                            filename: filename@,
                            data: data@,
                            mime_type: mime_type@,
                            caption: text::opt_text(caption),
                            thread_ts: thread,
                        },
                    ],
                ),
                OutboundResponse::Reaction(emoji) => acts == Ok::<_, SlackError>(
                    seq![
                        SlackActionView::AddReaction {
                            channel,
                            name: reaction_name(emoji@),
                            ts: e.ts@,
                        },
                    ],
                ),
                OutboundResponse::StreamStart => {
                    &&& acts is Ok
                    &&& acts->Ok_0.len() == 1
                    &&& acts->Ok_0[0] matches SlackActionView::PostPlaceholder {
                        channel: c,
                        text: _,
                        stream_id,
                    } && c == channel && stream_id == e.ts@
                },
                OutboundResponse::StreamChunk(s) => {
                    &&& acts is Ok
                    &&& (!active.contains_key(e.ts@) ==> acts->Ok_0.len() == 0)
                    &&& (active.contains_key(e.ts@) && text::byte_len(s@) <= 4000 ==> acts->Ok_0
                        == seq![
                        SlackActionView::UpdateMessage { channel, ts: active[e.ts@], text: s@ },
                    ])
                },
                _ => acts is Ok && acts->Ok_0.len() == 0,
            }
        }),
{
    law_metadata_tells_the_place(e, display_name);
    let acts = respond_actions(m, response, active);
    let thread = text::opt_text(e.thread_ts);
    match response {
        OutboundResponse::Text(s) => {
            if text::byte_len(s@) <= 4000 {
                assert(acts->Ok_0 =~= seq![
                    SlackActionView::PostMessage {
                        channel: e.channel->0@,
                        text: s@,
                        thread_ts: thread,
                    },
                ]);
            }
        },
        OutboundResponse::ThreadReply { thread_name: _, text: s } => {
            let under = match thread {
                Some(t) => t,
                None => e.ts@,
            };
            if text::byte_len(s@) <= 4000 {
                assert(acts->Ok_0 =~= seq![
                    SlackActionView::PostMessage {
                        channel: e.channel->0@,
                        text: s@,
                        thread_ts: Some(under),
                    },
                ]);
            }
        },
        _ => {},
    }
}

/// What is posted of a text says what the text says, whatever its length.
pub proof fn law_posted_texts_say_the_answer(
    m: InboundMessage,
    s: String,
    active: Map<Seq<char>, Seq<char>>,
)
    requires
        message::meta_text(m.metadata@, "slack_channel_id"@) is Some,
    ensures
        ({
            let acts = respond_actions(m, OutboundResponse::Text(s), active)->Ok_0;
            cut::visible(
                cut::concat(Seq::new(acts.len(), |i: int| acts[i]->PostMessage_text)),
            ) == cut::visible(s@)
        }),
{
    let acts = respond_actions(m, OutboundResponse::Text(s), active)->Ok_0;
    let chunks = cut::message_chunks(s@, MAX_MESSAGE_LENGTH as nat);
    assert(Seq::new(acts.len(), |i: int| acts[i]->PostMessage_text) =~= chunks);
    cut::law_chunks_keep_text(s@, MAX_MESSAGE_LENGTH as nat);
}

/// A response needs to know the channel, and a reaction the message.
pub proof fn law_answers_need_a_channel(
    m: InboundMessage,
    response: OutboundResponse,
    active: Map<Seq<char>, Seq<char>>,
)
    ensures
        respond_actions(m, response, active) == Err::<Seq<SlackActionView>, _>(
            SlackError::MissingChannelId,
        ) <==> message::meta_text(m.metadata@, "slack_channel_id"@) is None,
        message::meta_text(m.metadata@, "slack_channel_id"@) is Some ==> (respond_actions(
            m,
            response,
            active,
        ) is Err <==> response is Reaction && message::meta_text(
            m.metadata@,
            "slack_message_ts"@,
        ) is None),
{
}

/// The colons around the name of an emoji do not count, nor does white space around it
/// or the case of its letters.
pub proof fn law_reaction_is_named_without_colons(name: Seq<char>)
    requires
        name.len() > 0,
        text::all_ascii(name),
        name[0] != ':' && name.last() != ':',
        !text::is_space(name[0]) && !text::is_space(name.last()),
        forall|i: int| 0 <= i < name.len() ==> !('A' <= #[trigger] name[i] <= 'Z'),
    ensures
        reaction_name(name) == name,
        reaction_name(seq![':'] + name + seq![':']) == name,
{
    let wrapped = seq![':'] + name + seq![':'];
    assert(text::trim(wrapped) == wrapped);
    assert(wrapped.drop_first() =~= name + seq![':']);
    let rest = wrapped.drop_first();
    assert(rest[0] == name[0]);
    assert(after_colons(wrapped) == after_colons(rest));
    assert(after_colons(rest) == rest);
    assert(rest.drop_last() =~= name);
    assert(before_colons(rest) == before_colons(name));
    assert(before_colons(name) == name);
    assert(after_colons(name) == name);
    assert(text::trim(name) == name);
    assert(text::lower(name) =~= name) by {
        assert forall|i: int| 0 <= i < name.len() implies text::ascii_lower(name[i]) == name[i] by {
        }
    }
}

// ---------------------------------------------------------------------------
// History
// ---------------------------------------------------------------------------

/// A message of a channel's history.
pub struct SlackHistoryMessage {
    pub user: Option<String>,
    pub has_bot_id: bool,
    pub text: Option<String>,
}

/// What a message of the history says: its author is a bot where it names no
/// user or a bot.
pub open spec fn history_entry(m: SlackHistoryMessage) -> traits::HistoryView {
    traits::HistoryView {
        author: match m.user {
            Some(u) => u@,
            None => "bot"@,
        },
        content: or_empty(m.text),
        is_bot: m.user is None || m.has_bot_id,
    }
}

/// The number of messages to ask for.
pub fn history_limit(limit: usize) -> (r: u16)
    ensures
        r == (if limit <= 100 {
            limit as int
        } else {
            100
        }),
{
    if limit <= 100 {
        limit as u16
    } else {
        100
    }
}

/// The history in chronological order, from messages that come newest first.
pub fn history_from(newest_first: &Vec<SlackHistoryMessage>) -> (r: Vec<HistoryMessage>)
    ensures
        traits::history_views(r@) == Seq::new(
            newest_first@.len(),
            |i: int| history_entry(newest_first@[newest_first@.len() - 1 - i]),
        ),
{
    let mut out: Vec<HistoryMessage> = Vec::new();
    let n: usize = newest_first.len();
    let mut i: usize = n;
    while i > 0
        invariant
            n == newest_first@.len(),
            i <= n,
            out@.len() == n - i,
            forall|j: int|
                0 <= j < out@.len() ==> (#[trigger] out@[j])@ == history_entry(
                    newest_first@[n - 1 - j],
                ),
        decreases i,
    {
        i = i - 1;
        let m = &newest_first[i];
        let author = match &m.user {
            Some(u) => u.clone(),
            None => "bot".to_owned(),
        };
        out.push(
            HistoryMessage {
                author,
                content: text_or_empty(&m.text),
                is_bot: m.user.is_none() || m.has_bot_id,
            },
        );
    }
    assert(traits::history_views(out@) =~= Seq::new(
        newest_first@.len(),
        |i: int| history_entry(newest_first@[newest_first@.len() - 1 - i]),
    ));
    out
}

/// A message of the history has its text and its author. One without a user, or with the
/// id of a bot, was written by a bot.
pub proof fn law_history_is_read(m: SlackHistoryMessage)
    ensures
        m.text matches Some(t) ==> history_entry(m).content == t@,
        m.text is None ==> history_entry(m).content.len() == 0,
        m.user matches Some(u) ==> history_entry(m).author == u@,
        m.user is None ==> history_entry(m).author == "bot"@,
        history_entry(m).is_bot <==> m.user is None || m.has_bot_id,
{
}

/// A part of a stream replaces the text of the message that the stream goes to, with four
/// thousand bytes at most; without such a message nothing is done.
pub proof fn law_stream_is_updated(
    m: InboundMessage,
    channel: Seq<char>,
    t: String,
    active: Map<Seq<char>, Seq<char>>,
)
    ensures
        active.contains_key(m.id@) ==> actions_for(
            m,
            channel,
            OutboundResponse::StreamChunk(t),
            active,
        ) == Ok::<_, SlackError>(
            seq![
                SlackActionView::UpdateMessage {
                    channel,
                    ts: active[m.id@],
                    text: cut::shortened(t@, 4000),
                },
            ],
        ),
        !active.contains_key(m.id@) ==> actions_for(
            m,
            channel,
            OutboundResponse::StreamChunk(t),
            active,
        ) == Ok::<_, SlackError>(Seq::<SlackActionView>::empty()),
{
}

/// A direct message is taken in from the users that are let in, a message of a workspace
/// or of a channel where its list names it or there is no list.
pub proof fn law_permissions_decide(
    perms: SlackPermissions,
    team: Seq<char>,
    channel: Seq<char>,
    user: Seq<char>,
)
    ensures
        permitted(perms, team, channel, user) ==> (channel.len() > 0 && channel[0] == 'D'
            ==> text::texts(perms.dm_allowed_users@).contains(user)),
        permitted(perms, team, channel, user) ==> (perms.workspace_filter matches Some(f)
            ==> text::texts(f@).contains(team)),
        permitted(perms, team, channel, user) && perms.channel_filter@.contains_key(team)
            && perms.channel_filter@[team].len() > 0 ==> perms.channel_filter@[team].contains(
            channel,
        ),
        (channel.len() == 0 || channel[0] != 'D') && perms.workspace_filter is None
            && !perms.channel_filter@.contains_key(team) ==> permitted(perms, team, channel, user),
{
}

} // verus!
