//! Telegram: which updates become messages, and the calls that answer them.
use crate::bits;
use crate::bits::{to_i32, to_i64};
use crate::config::bindings;
use crate::config::bindings::{holds_int, TelegramPermissions};
use crate::config::clone_opt;
use crate::cut;
use crate::cut::{shorten, split_message};
use crate::message;
use crate::message::{
    get_i64, Attachment, InboundMessage, Json, MessageContent, OutboundResponse, StatusUpdate, Timestamp,
};
use crate::text;
use crate::text::{cat2, cat3, i64_text, u64_text};
use crate::text_map::TextMap;
use vstd::prelude::*;

verus! {

/// Telegram's limit on the bytes of a message.
pub const MAX_MESSAGE_LENGTH: usize = 4096;

/// How long Telegram may hold a request for updates.
pub const TELEGRAM_LONG_POLL_TIMEOUT_SECS: u32 = 30;

/// How long a request may take.
pub const TELEGRAM_HTTP_TIMEOUT_SECS: u64 = 35;

/// The pause after a request for updates that failed.
pub const TELEGRAM_GET_UPDATES_RETRY_DELAY_SECS: u64 = 5;

/// The shortest interval between two edits of a streamed message.
pub const STREAM_EDIT_INTERVAL_MS: u64 = 1000;

/// The most bytes of a message that an answer quotes.
pub const MAX_REPLY_TEXT: usize = 200;

/// A request for updates may be held for as long as it asks before it times out.
pub proof fn law_http_timeout_exceeds_long_poll()
    ensures
        TELEGRAM_HTTP_TIMEOUT_SECS > TELEGRAM_LONG_POLL_TIMEOUT_SECS,
{
}

// ---------------------------------------------------------------------------
// Inbound
// ---------------------------------------------------------------------------

/// A user of Telegram.
pub struct TelegramUser {
    pub id: u64,
    pub first_name: String,
    pub last_name: Option<String>,
    pub username: Option<String>,
}

/// The kind of a chat.
#[derive(Clone, Copy, Debug, PartialEq, Eq, Structural)]
pub enum ChatKind {
    Private,
    Group,
    Supergroup,
    Channel,
    Unknown,
}

/// A file that Telegram stores.
pub struct TelegramFile {
    pub id: String,
    pub unique_id: String,
    pub size: u32,
    pub file_name: Option<String>,
    pub mime_type: Option<String>,
}

/// What a message brings.
pub enum Media {
    Text(String),
    /// The sizes of a photo, smallest first.
    Photo { caption: Option<String>, sizes: Vec<TelegramFile> },
    Document { caption: Option<String>, file: TelegramFile },
    Video { caption: Option<String>, file: TelegramFile },
    Voice { caption: Option<String>, file: TelegramFile },
    Audio { caption: Option<String>, file: TelegramFile },
    /// Media of another kind, or a service message.
    Other,
}

/// The message that a message answers.
pub struct RepliedMessage {
    pub id: i32,
    pub media: Media,
    pub from: Option<TelegramUser>,
}

/// A message of Telegram.
pub struct TelegramMessage {
    pub id: i32,
    pub chat_id: i64,
    pub chat_kind: ChatKind,
    pub chat_title: Option<String>,
    pub from: Option<TelegramUser>,
    pub date: Timestamp,
    pub media: Media,
    pub reply_to: Option<RepliedMessage>,
}

/// An update: the offset that confirms it, and the message that it brings.
pub struct TelegramUpdate {
    pub next_offset: i32,
    pub message: Option<TelegramMessage>,
}

/// The text of a message: its own, or the caption of its media.
pub open spec fn text_of(m: Media) -> Option<Seq<char>> {
    match m {
        Media::Text(t) => Some(t@),
        Media::Photo { caption, .. } => text::opt_text(caption),
        Media::Document { caption, .. } => text::opt_text(caption),
        Media::Video { caption, .. } => text::opt_text(caption),
        Media::Voice { caption, .. } => text::opt_text(caption),
        Media::Audio { caption, .. } => text::opt_text(caption),
        Media::Other => None,
    }
}

/// Extract text content from a Telegram message.
pub fn extract_text(m: &Media) -> (r: Option<String>)
    ensures
        text::opt_text(r) == text_of(*m),
{
    match m {
        Media::Text(t) => Some(t.clone()),
        Media::Photo { caption, .. } => clone_opt(caption),
        Media::Document { caption, .. } => clone_opt(caption),
        Media::Video { caption, .. } => clone_opt(caption),
        Media::Voice { caption, .. } => clone_opt(caption),
        Media::Audio { caption, .. } => clone_opt(caption),
        Media::Other => None,
    }
}

/// A message with media that can be downloaded.
pub open spec fn brings_files(m: Media) -> bool {
    m is Photo || m is Document || m is Video || m is Voice || m is Audio
}

/// Check if a message contains file attachments.
pub fn has_attachments(m: &Media) -> (r: bool)
    ensures
        r == brings_files(*m),
{
    match m {
        Media::Photo { .. } => true,
        Media::Document { .. } => true,
        Media::Video { .. } => true,
        Media::Voice { .. } => true,
        Media::Audio { .. } => true,
        Media::Text(_) => false,
        Media::Other => false,
    }
}

/// The message is one to take in. The bot's own messages are not. In a private
/// chat the sender must be allowed; where no user is allowed, private chats are
/// ignored. A chat filter admits the chats that it lists. A message must bring a
/// text or a file.
pub open spec fn admitted(
    m: TelegramMessage,
    bot_id: Option<u64>,
    perms: TelegramPermissions,
) -> bool {
    &&& (match m.from {
        Some(u) => bot_id != Some(u.id),
        None => true,
    })
    &&& (m.chat_kind == ChatKind::Private ==> perms.dm_allowed_users@.len() > 0 && (match m.from {
        Some(u) => bindings::ints(perms.dm_allowed_users@).contains(bits::signed_64(u.id)),
        None => true,
    }))
    &&& (match perms.chat_filter {
        Some(f) => f@.contains(m.chat_id),
        None => true,
    })
    &&& (text_of(m.media) is Some || brings_files(m.media))
}

/// Tells whether a message is one to take in.
pub fn is_admitted(m: &TelegramMessage, bot_id: Option<u64>, perms: &TelegramPermissions) -> (r: bool)
    ensures
        r == admitted(*m, bot_id, *perms),
{
    if let Some(u) = &m.from {
        if let Some(id) = bot_id {
            if u.id == id {
                return false;
            }
        }
    }
    if m.chat_kind == ChatKind::Private {
        if perms.dm_allowed_users.len() == 0 {
            return false;
        }
        if let Some(u) = &m.from {
            if !holds_int(&perms.dm_allowed_users, to_i64(u.id)) {
                return false;
            }
        }
    }
    if let Some(f) = &perms.chat_filter {
        if !holds_int(f, m.chat_id) {
            return false;
        }
    }
    extract_text(&m.media).is_some() || has_attachments(&m.media)
}

/// A user's full name, or the first name where there is no last name.
pub open spec fn display_name(u: TelegramUser) -> Seq<char> {
    match u.last_name {
        Some(last) => u.first_name@ + " "@ + last@,
        None => u.first_name@,
    }
}

/// Build a display name from a Telegram user, preferring full name.
pub fn build_display_name(u: &TelegramUser) -> (r: String)
    ensures
        r@ == display_name(*u),
{
    match &u.last_name {
        Some(last) => cat3(u.first_name.as_str(), " ", last.as_str()),
        None => u.first_name.clone(),
    }
}

/// A text, else another.
pub open spec fn text_or(o: Option<String>, other: Seq<char>) -> Seq<char> {
    match o {
        Some(s) => s@,
        None => other,
    }
}

fn or_text(o: &Option<String>, other: &str) -> (r: String)
    ensures
        r@ == text_or(*o, other@),
{
    match o {
        Some(s) => s.clone(),
        None => other.to_owned(),
    }
}

/// The attachment of a file. Its address is the id that Telegram stores it under.
pub open spec fn file_attachment(
    filename: Seq<char>,
    mime_type: Seq<char>,
    f: TelegramFile,
) -> message::AttachmentView {
    message::AttachmentView { filename, mime_type, url: f.id@, size_bytes: Some(f.size as u64) }
}

/// The attachments of a message: the largest size of a photo, or the file.
pub open spec fn attachments_of(m: Media) -> Seq<message::AttachmentView> {
    match m {
        Media::Photo { sizes, .. } => if sizes@.len() > 0 {
            seq![
                file_attachment(
                    "photo_"@ + sizes@.last().unique_id@ + ".jpg"@,
                    "image/jpeg"@,
                    sizes@.last(),
                ),
            ]
        } else {
            Seq::empty()
        },
        Media::Document { file, .. } => seq![
            file_attachment(
                text_or(file.file_name, "document"@),
                text_or(file.mime_type, "application/octet-stream"@),
                file,
            ),
        ],
        Media::Video { file, .. } => seq![
            file_attachment(
                text_or(file.file_name, "video.mp4"@),
                text_or(file.mime_type, "video/mp4"@),
                file,
            ),
        ],
        Media::Voice { file, .. } => seq![
            file_attachment("voice.ogg"@, text_or(file.mime_type, "audio/ogg"@), file),
        ],
        Media::Audio { file, .. } => seq![
            file_attachment(
                text_or(file.file_name, "audio"@),
                text_or(file.mime_type, "audio/mpeg"@),
                file,
            ),
        ],
        Media::Text(_) => Seq::empty(),
        Media::Other => Seq::empty(),
    }
}

fn single(filename: String, mime_type: String, f: &TelegramFile) -> (r: Vec<Attachment>)
    ensures
        message::attachment_views(r@) == seq![file_attachment(filename@, mime_type@, *f)],
{
    let mut out: Vec<Attachment> = Vec::new();
    out.push(
        Attachment { filename, mime_type, url: f.id.clone(), size_bytes: Some(f.size as u64) },
    );
    assert(message::attachment_views(out@) =~= seq![file_attachment(filename@, mime_type@, *f)]);
    out
}

/// Extract file attachment metadata from a Telegram message.
pub fn extract_attachments(m: &Media) -> (r: Vec<Attachment>)
    ensures
        message::attachment_views(r@) == attachments_of(*m),
{
    match m {
        Media::Photo { sizes, .. } => {
            if sizes.len() > 0 {
                let largest = &sizes[sizes.len() - 1];
                let name = cat3("photo_", largest.unique_id.as_str(), ".jpg");
                single(name, "image/jpeg".to_owned(), largest)
            } else {
                let out: Vec<Attachment> = Vec::new();
                assert(message::attachment_views(out@) =~= Seq::<message::AttachmentView>::empty());
                out
            }
        },
        Media::Document { file, .. } => single(
            or_text(&file.file_name, "document"),
            or_text(&file.mime_type, "application/octet-stream"),
            file,
        ),
        Media::Video { file, .. } => single(
            or_text(&file.file_name, "video.mp4"),
            or_text(&file.mime_type, "video/mp4"),
            file,
        ),
        Media::Voice { file, .. } => single(
            "voice.ogg".to_owned(),
            or_text(&file.mime_type, "audio/ogg"),
            file,
        ),
        Media::Audio { file, .. } => single(
            or_text(&file.file_name, "audio"),
            or_text(&file.mime_type, "audio/mpeg"),
            file,
        ),
        _ => {
            let out: Vec<Attachment> = Vec::new();
            assert(message::attachment_views(out@) =~= Seq::<message::AttachmentView>::empty());
            out
        },
    }
}

/// The attachments whose address could be resolved, with that address.
pub open spec fn resolved(
    a: Seq<message::AttachmentView>,
    urls: Seq<Option<String>>,
) -> Seq<message::AttachmentView>
    decreases a.len(),
{
    if a.len() == 0 {
        Seq::empty()
    } else {
        let before = resolved(a.drop_last(), urls);
        match urls[a.len() - 1] {
            Some(url) => before.push(message::AttachmentView { url: url@, ..a.last() }),
            None => before,
        }
    }
}

/// The content of a message with a text, from its resolved attachments.
pub open spec fn content_of(
    t: Option<Seq<char>>,
    resolved: Seq<message::AttachmentView>,
) -> message::ContentView {
    if resolved.len() == 0 {
        message::ContentView::Text(
            match t {
                Some(s) => s,
                None => Seq::empty(),
            },
        )
    } else {
        message::ContentView::Media { text: t, attachments: resolved }
    }
}

/// Build the content of a message. `urls` holds the download address of each
/// attachment, or none where it could not be resolved.
pub fn build_content(attachments: &Vec<Attachment>, urls: &Vec<Option<String>>, t: &Option<String>) -> (r:
    MessageContent)
    requires
        urls@.len() == attachments@.len(),
    ensures
        r@ == content_of(
            text::opt_text(*t),
            resolved(message::attachment_views(attachments@), urls@),
        ),
{
    let ghost all = message::attachment_views(attachments@);
    let mut out: Vec<Attachment> = Vec::new();
    let mut i: usize = 0;
    proof {
        assert(all.take(0) =~= Seq::<message::AttachmentView>::empty());
        assert(message::attachment_views(out@) =~= Seq::<message::AttachmentView>::empty());
    }
    while i < attachments.len()
        invariant
            i <= attachments@.len(),
            urls@.len() == attachments@.len(),
            all == message::attachment_views(attachments@),
            message::attachment_views(out@) == resolved(all.take(i as int), urls@),
        decreases attachments@.len() - i,
    {
        let ghost before = message::attachment_views(out@);
        proof {
            assert(all.take(i + 1).drop_last() =~= all.take(i as int));
            assert(all.take(i + 1).last() == attachments@[i as int]@);
        }
        let a = &attachments[i];
        if let Some(url) = &urls[i] {
            let kept = Attachment {
                filename: a.filename.clone(),
                mime_type: a.mime_type.clone(),
                url: url.clone(),
                size_bytes: a.size_bytes,
            };
            out.push(kept);
            assert(message::attachment_views(out@) =~= before.push(kept@));
        }
        i = i + 1;
    }
    proof {
        assert(all.take(i as int) =~= all);
        assert(out@.len() == message::attachment_views(out@).len());
    }
    if out.len() == 0 {
        MessageContent::Text(
            match t {
                Some(s) => s.clone(),
                None => String::new(),
            },
        )
    } else {
        MessageContent::Media { text: clone_opt(t), attachments: out }
    }
}

/// The name of a kind of chat.
pub open spec fn kind_name(k: ChatKind) -> Seq<char> {
    match k {
        ChatKind::Private => "private"@,
        ChatKind::Group => "group"@,
        ChatKind::Supergroup => "supergroup"@,
        ChatKind::Channel => "channel"@,
        ChatKind::Unknown => "unknown"@,
    }
}

fn kind_text(k: ChatKind) -> (r: String)
    ensures
        r@ == kind_name(k),
{
    match k {
        ChatKind::Private => "private".to_owned(),
        ChatKind::Group => "group".to_owned(),
        ChatKind::Supergroup => "supergroup".to_owned(),
        ChatKind::Channel => "channel".to_owned(),
        ChatKind::Unknown => "unknown".to_owned(),
    }
}

/// A map with a further text, where there is one.
pub open spec fn with_text(
    m: Map<Seq<char>, message::JsonView>,
    key: Seq<char>,
    value: Option<Seq<char>>,
) -> Map<Seq<char>, message::JsonView> {
    match value {
        Some(v) => m.insert(key, message::JsonView::Text(v)),
        None => m,
    }
}

/// A map with what is known of the sender.
pub open spec fn with_sender(
    m: Map<Seq<char>, message::JsonView>,
    from: Option<TelegramUser>,
) -> Map<Seq<char>, message::JsonView> {
    match from {
        Some(u) => with_text(
            m.insert("telegram_user_id"@, message::JsonView::PosInt(u.id)).insert(
                "display_name"@,
                message::JsonView::Text(display_name(u)),
            ),
            "telegram_username"@,
            text::opt_text(u.username),
        ),
        None => m,
    }
}

/// A map with what is known of the message that is answered.
pub open spec fn with_reply(
    m: Map<Seq<char>, message::JsonView>,
    reply: Option<RepliedMessage>,
) -> Map<Seq<char>, message::JsonView> {
    match reply {
        Some(r) => with_text(
            with_text(
                m.insert("reply_to_message_id"@, message::integer_json(r.id as int)),
                "reply_to_text"@,
                match text_of(r.media) {
                    Some(t) => Some(cut::shortened(t, MAX_REPLY_TEXT as nat)),
                    None => None,
                },
            ),
            "reply_to_author"@,
            match r.from {
                Some(u) => Some(display_name(u)),
                None => None,
            },
        ),
        None => m,
    }
}

/// The metadata of a message.
pub open spec fn metadata_of(m: TelegramMessage, bot_username: Option<Seq<char>>) -> Map<
    Seq<char>,
    message::JsonView,
> {
    let chat = with_text(
        Map::empty().insert("telegram_chat_id"@, message::integer_json(m.chat_id as int)).insert(
            "telegram_message_id"@,
            message::integer_json(m.id as int),
        ).insert("telegram_chat_type"@, message::JsonView::Text(kind_name(m.chat_kind))),
        "telegram_chat_title"@,
        text::opt_text(m.chat_title),
    );
    with_reply(
        with_text(with_sender(chat, m.from), "telegram_bot_username"@, bot_username),
        m.reply_to,
    )
}

fn put_text(meta: &mut TextMap<Json>, key: &str, value: String)
    ensures
        final(meta)@ == old(meta)@.insert(key@, message::JsonView::Text(value@)),
{
    meta.insert(key.to_owned(), Json::Text(value));
}

/// Build platform-specific metadata for a Telegram message.
pub fn build_metadata(m: &TelegramMessage, bot_username: &Option<String>) -> (r: TextMap<Json>)
    ensures
        r@ == metadata_of(*m, text::opt_text(*bot_username)),
{
    let mut meta: TextMap<Json> = TextMap::new();
    meta.insert("telegram_chat_id".to_owned(), Json::integer(m.chat_id));
    meta.insert("telegram_message_id".to_owned(), Json::integer(m.id as i64));
    put_text(&mut meta, "telegram_chat_type", kind_text(m.chat_kind));
    if let Some(title) = &m.chat_title {
        put_text(&mut meta, "telegram_chat_title", title.clone());
    }
    if let Some(u) = &m.from {
        meta.insert("telegram_user_id".to_owned(), Json::PosInt(u.id));
        put_text(&mut meta, "display_name", build_display_name(u));
        if let Some(username) = &u.username {
            put_text(&mut meta, "telegram_username", username.clone());
        }
    }
    if let Some(username) = bot_username {
        put_text(&mut meta, "telegram_bot_username", username.clone());
    }
    if let Some(reply) = &m.reply_to {
        meta.insert("reply_to_message_id".to_owned(), Json::integer(reply.id as i64));
        if let Some(t) = extract_text(&reply.media) {
            put_text(&mut meta, "reply_to_text", shorten(t.as_str(), MAX_REPLY_TEXT));
        }
        if let Some(u) = &reply.from {
            put_text(&mut meta, "reply_to_author", build_display_name(u));
        }
    }
    meta
}

/// `r` is the message that a message of Telegram becomes.
pub open spec fn becomes(
    m: TelegramMessage,
    urls: Seq<Option<String>>,
    bot_username: Option<Seq<char>>,
    r: InboundMessage,
) -> bool {
    &&& r.id@ == text::decimal_int(m.id as int)
    &&& r.source@ == "telegram"@
    &&& r.conversation_id@ == "telegram:"@ + text::decimal_int(m.chat_id as int)
    &&& r.sender_id@ == (match m.from {
        Some(u) => text::decimal(u.id as nat),
        None => Seq::empty(),
    })
    &&& r.agent_id is None
    &&& r.content@ == content_of(text_of(m.media), resolved(attachments_of(m.media), urls))
    &&& r.timestamp == m.date
    &&& r.metadata@ == metadata_of(m, bot_username)
}

/// The message that a message of Telegram becomes. `urls` holds the download
/// address of each attachment, or none where it could not be resolved.
pub fn inbound_from(m: &TelegramMessage, urls: &Vec<Option<String>>, bot_username: &Option<String>) -> (r:
    InboundMessage)
    requires
        urls@.len() == attachments_of(m.media).len(),
    ensures
        becomes(*m, urls@, text::opt_text(*bot_username), r),
{
    let t = extract_text(&m.media);
    let attachments = extract_attachments(&m.media);
    assert(attachments@.len() == message::attachment_views(attachments@).len());
    let content = build_content(&attachments, urls, &t);
    let chat = i64_text(m.chat_id);
    let sender_id = match &m.from {
        Some(u) => u64_text(u.id),
        None => String::new(),
    };
    InboundMessage {
        id: i64_text(m.id as i64),
        source: "telegram".to_owned(),
        conversation_id: cat2("telegram:", chat.as_str()),
        sender_id,
        agent_id: None,
        content,
        timestamp: m.date,
        metadata: build_metadata(m, bot_username),
    }
}

/// What the polling loop does next.
#[derive(Clone, Copy, Debug, PartialEq, Eq, Structural)]
pub enum PollStep {
    /// Ask for updates from an offset on.
    Fetch { offset: i32 },
    /// Wait, then ask again from the same offset.
    RetryAfter { offset: i32, delay_secs: u64 },
    Stop,
}

/// What happened to the polling loop.
pub enum PollEvent {
    /// Updates came; the last one is confirmed by this offset.
    Updates { last_offset: Option<i32> },
    /// The request for updates failed.
    Failed,
    /// The loop is to shut down, or nobody receives its messages any more.
    Shutdown,
}

/// The next step of the polling loop. A failed request is repeated after a
/// pause; updates are confirmed by asking from the last one on.
pub fn next_poll(offset: i32, event: &PollEvent) -> (r: PollStep)
    ensures
        r == (match *event {
            PollEvent::Updates { last_offset } => PollStep::Fetch {
                offset: match last_offset {
                    Some(o) => o,
                    None => offset,
                },
            },
            PollEvent::Failed => PollStep::RetryAfter {
                offset,
                delay_secs: TELEGRAM_GET_UPDATES_RETRY_DELAY_SECS,
            },
            PollEvent::Shutdown => PollStep::Stop,
        }),
{
    match event {
        PollEvent::Updates { last_offset } => PollStep::Fetch {
            offset: match last_offset {
                Some(o) => *o,
                None => offset,
            },
        },
        PollEvent::Failed => PollStep::RetryAfter {
            offset,
            delay_secs: TELEGRAM_GET_UPDATES_RETRY_DELAY_SECS,
        },
        PollEvent::Shutdown => PollStep::Stop,
    }
}

/// The positions of the updates that bring a message to take in, in order.
pub open spec fn accepted(
    updates: Seq<TelegramUpdate>,
    bot_id: Option<u64>,
    perms: TelegramPermissions,
) -> Seq<usize>
    decreases updates.len(),
{
    if updates.len() == 0 {
        Seq::empty()
    } else {
        let before = accepted(updates.drop_last(), bot_id, perms);
        match updates.last().message {
            Some(m) => if admitted(m, bot_id, perms) {
                before.push((updates.len() - 1) as usize)
            } else {
                before
            },
            None => before,
        }
    }
}

/// Goes through a batch of updates: the positions of those that bring a message
/// to take in, and the offset that confirms the batch.
pub fn scan_updates(
    updates: &Vec<TelegramUpdate>,
    bot_id: Option<u64>,
    perms: &TelegramPermissions,
) -> (r: (Vec<usize>, Option<i32>))
    ensures
        r.0@ == accepted(updates@, bot_id, *perms),
        r.1 == (if updates@.len() == 0 {
            None
        } else {
            Some(updates@.last().next_offset)
        }),
{
    let mut out: Vec<usize> = Vec::new();
    let mut offset: Option<i32> = None;
    let mut i: usize = 0;
    assert(updates@.take(0) =~= Seq::<TelegramUpdate>::empty());
    while i < updates.len()
        invariant
            i <= updates@.len(),
            out@ == accepted(updates@.take(i as int), bot_id, *perms),
            offset == (if i == 0 {
                None
            } else {
                Some(updates@[i - 1].next_offset)
            }),
        decreases updates@.len() - i,
    {
        proof {
            assert(updates@.take(i + 1).drop_last() =~= updates@.take(i as int));
            assert(updates@.take(i + 1).last() == updates@[i as int]);
        }
        offset = Some(updates[i].next_offset);
        if let Some(m) = &updates[i].message {
            if is_admitted(m, bot_id, perms) {
                out.push(i);
            }
        }
        i = i + 1;
    }
    assert(updates@.take(i as int) =~= updates@);
    (out, offset)
}

/// The bot never takes in a message of its own.
pub proof fn law_own_messages_are_skipped(
    m: TelegramMessage,
    bot_id: u64,
    perms: TelegramPermissions,
)
    requires
        m.from is Some && m.from->0.id == bot_id,
    ensures
        !admitted(m, Some(bot_id), perms),
{
}

/// A private message is taken in only where some user is allowed, and from a
/// known sender only where that user is.
pub proof fn law_dm_needs_permission(
    m: TelegramMessage,
    bot_id: Option<u64>,
    perms: TelegramPermissions,
)
    requires
        m.chat_kind == ChatKind::Private,
        admitted(m, bot_id, perms),
    ensures
        perms.dm_allowed_users@.len() > 0,
        m.from is Some ==> bindings::ints(perms.dm_allowed_users@).contains(
            bits::signed_64(m.from->0.id),
        ),
{
}

/// A message in a chat that is not private, of someone else than the bot, and with a text
/// or a file, is taken in where no chats are listed, and where its chat is listed; it is
/// not taken in where chats are listed and its own is not.
pub proof fn law_listed_chats_are_taken_in(
    m: TelegramMessage,
    bot_id: Option<u64>,
    perms: TelegramPermissions,
)
    requires
        m.chat_kind != ChatKind::Private,
        m.from is Some ==> bot_id != Some(m.from->0.id),
        !(m.media is Other),
        m.media is Text || m.media is Photo || m.media is Document || m.media is Video
            || m.media is Voice || m.media is Audio,
    ensures
        perms.chat_filter is None ==> admitted(m, bot_id, perms),
        perms.chat_filter matches Some(f) ==> (admitted(m, bot_id, perms) <==> exists|i: int|
            0 <= i < f@.len() && #[trigger] f@[i] == m.chat_id),
{
    if let Some(f) = perms.chat_filter {
        if exists|i: int| 0 <= i < f@.len() && #[trigger] f@[i] == m.chat_id {
            let i = choose|i: int| 0 <= i < f@.len() && #[trigger] f@[i] == m.chat_id;
            assert(f@.contains(f@[i]));
        }
    }
}

/// A private message with a text or a file is taken in where its sender is another than
/// the bot and is allowed, and its chat is listed where chats are. A message that brings
/// neither a text nor a file never is.
pub proof fn law_allowed_users_are_taken_in(
    m: TelegramMessage,
    bot_id: Option<u64>,
    perms: TelegramPermissions,
    i: int,
)
    requires
        m.from is Some,
        bot_id != Some(m.from->0.id),
        m.from->0.id <= i64::MAX,
        0 <= i < perms.dm_allowed_users@.len(),
        perms.dm_allowed_users@[i] == m.from->0.id,
        perms.chat_filter matches Some(f) ==> f@.contains(m.chat_id),
    ensures
        admitted(m, bot_id, perms) <==> !(m.media is Other),
{
    let ids = bindings::ints(perms.dm_allowed_users@);
    assert(ids[i] == perms.dm_allowed_users@[i] as int);
}

/// The updates that are taken in are exactly those that bring a message to take in, in
/// their order.
pub proof fn law_updates_are_taken_in_order(
    updates: Seq<TelegramUpdate>,
    bot_id: Option<u64>,
    perms: TelegramPermissions,
)
    requires
        updates.len() <= usize::MAX,
    ensures
        ({
            let r = accepted(updates, bot_id, perms);
            &&& forall|i: int, j: int| 0 <= i < j < r.len() ==> #[trigger] r[i] < #[trigger] r[j]
            &&& forall|i: int|
                0 <= i < r.len() ==> #[trigger] r[i] < updates.len()
                    && updates[r[i] as int].message is Some && admitted(
                    updates[r[i] as int].message->0,
                    bot_id,
                    perms,
                )
            &&& forall|p: int|
                0 <= p < updates.len() && (#[trigger] updates[p]).message is Some && admitted(
                    updates[p].message->0,
                    bot_id,
                    perms,
                ) ==> r.contains(p as usize)
        }),
    decreases updates.len(),
{
    if updates.len() > 0 {
        let rest = updates.drop_last();
        let before = accepted(rest, bot_id, perms);
        let r = accepted(updates, bot_id, perms);
        law_updates_are_taken_in_order(rest, bot_id, perms);
        assert forall|i: int| 0 <= i < r.len() implies #[trigger] r[i] < updates.len()
            && updates[r[i] as int].message is Some && admitted(
            updates[r[i] as int].message->0,
            bot_id,
            perms,
        ) by {
            if i < before.len() {
                assert(r[i] == before[i]);
                assert(rest[before[i] as int] == updates[r[i] as int]);
            }
        }
        assert forall|i: int, j: int| 0 <= i < j < r.len() implies #[trigger] r[i] < #[trigger] r[j] by {
            assert(r[i] == before[i]);
            if j < before.len() {
                assert(r[j] == before[j]);
            }
        }
        assert forall|p: int|
            0 <= p < updates.len() && (#[trigger] updates[p]).message is Some && admitted(
                updates[p].message->0,
                bot_id,
                perms,
            ) implies r.contains(p as usize) by {
            if p < rest.len() {
                assert(rest[p] == updates[p]);
                let i = choose|i: int| 0 <= i < before.len() && before[i] == p as usize;
                assert(r[i] == p as usize);
            } else {
                assert(r[before.len() as int] == p as usize);
            }
        }
    }
}

/// The keys of the metadata differ.
proof fn lemma_metadata_keys()
    ensures
        "telegram_chat_id"@ != "telegram_message_id"@,
        "telegram_chat_id"@ != "telegram_chat_type"@,
        "telegram_chat_id"@ != "telegram_chat_title"@,
        "telegram_chat_id"@ != "telegram_user_id"@,
        "telegram_chat_id"@ != "display_name"@,
        "telegram_chat_id"@ != "telegram_username"@,
        "telegram_chat_id"@ != "telegram_bot_username"@,
        "telegram_chat_id"@ != "reply_to_message_id"@,
        "telegram_chat_id"@ != "reply_to_text"@,
        "telegram_chat_id"@ != "reply_to_author"@,
        "telegram_message_id"@ != "telegram_chat_type"@,
        "telegram_message_id"@ != "telegram_chat_title"@,
        "telegram_message_id"@ != "telegram_user_id"@,
        "telegram_message_id"@ != "display_name"@,
        "telegram_message_id"@ != "telegram_username"@,
        "telegram_message_id"@ != "telegram_bot_username"@,
        "telegram_message_id"@ != "reply_to_message_id"@,
        "telegram_message_id"@ != "reply_to_text"@,
        "telegram_message_id"@ != "reply_to_author"@,
        "telegram_chat_type"@ != "telegram_chat_title"@,
        "telegram_chat_type"@ != "telegram_user_id"@,
        "telegram_chat_type"@ != "display_name"@,
        "telegram_chat_type"@ != "telegram_username"@,
        "telegram_chat_type"@ != "telegram_bot_username"@,
        "telegram_chat_type"@ != "reply_to_message_id"@,
        "telegram_chat_type"@ != "reply_to_text"@,
        "telegram_chat_type"@ != "reply_to_author"@,
        "telegram_chat_title"@ != "telegram_user_id"@,
        "telegram_chat_title"@ != "display_name"@,
        "telegram_chat_title"@ != "telegram_username"@,
        "telegram_chat_title"@ != "telegram_bot_username"@,
        "telegram_chat_title"@ != "reply_to_message_id"@,
        "telegram_chat_title"@ != "reply_to_text"@,
        "telegram_chat_title"@ != "reply_to_author"@,
        "telegram_user_id"@ != "display_name"@,
        "telegram_user_id"@ != "telegram_username"@,
        "telegram_user_id"@ != "telegram_bot_username"@,
        "telegram_user_id"@ != "reply_to_message_id"@,
        "telegram_user_id"@ != "reply_to_text"@,
        "telegram_user_id"@ != "reply_to_author"@,
        "display_name"@ != "telegram_username"@,
        "display_name"@ != "telegram_bot_username"@,
        "display_name"@ != "reply_to_message_id"@,
        "display_name"@ != "reply_to_text"@,
        "display_name"@ != "reply_to_author"@,
        "telegram_username"@ != "telegram_bot_username"@,
        "telegram_username"@ != "reply_to_message_id"@,
        "telegram_username"@ != "reply_to_text"@,
        "telegram_username"@ != "reply_to_author"@,
        "telegram_bot_username"@ != "reply_to_message_id"@,
        "telegram_bot_username"@ != "reply_to_text"@,
        "telegram_bot_username"@ != "reply_to_author"@,
        "reply_to_message_id"@ != "reply_to_text"@,
        "reply_to_message_id"@ != "reply_to_author"@,
        "reply_to_text"@ != "reply_to_author"@,
{
    reveal_strlit("telegram_chat_id");
    reveal_strlit("telegram_message_id");
    reveal_strlit("telegram_chat_type");
    reveal_strlit("telegram_chat_title");
    reveal_strlit("telegram_user_id");
    reveal_strlit("display_name");
    reveal_strlit("telegram_username");
    reveal_strlit("telegram_bot_username");
    reveal_strlit("reply_to_message_id");
    reveal_strlit("reply_to_text");
    reveal_strlit("reply_to_author");
    assert("telegram_chat_id"@[9] != "telegram_user_id"@[9]);
    assert("telegram_message_id"@[9] != "telegram_chat_title"@[9]);
    assert("telegram_message_id"@[0] != "reply_to_message_id"@[0]);
    assert("telegram_chat_title"@[0] != "reply_to_message_id"@[0]);
    assert("telegram_chat_id"@.len() == 16);
    assert("telegram_message_id"@.len() == 19);
    assert("telegram_chat_type"@.len() == 18);
    assert("telegram_chat_title"@.len() == 19);
    assert("telegram_user_id"@.len() == 16);
    assert("display_name"@.len() == 12);
    assert("telegram_username"@.len() == 17);
    assert("telegram_bot_username"@.len() == 21);
    assert("reply_to_message_id"@.len() == 19);
    assert("reply_to_text"@.len() == 13);
    assert("reply_to_author"@.len() == 15);
}

/// What a message of Telegram becomes says where it came from and what it says: its
/// chat, its sender, its id, the time and the text.
pub proof fn law_inbound_says_what_was_sent(
    m: TelegramMessage,
    urls: Seq<Option<String>>,
    bot_username: Option<Seq<char>>,
    r: InboundMessage,
)
    requires
        becomes(m, urls, bot_username, r),
    ensures
        r.source@ == "telegram"@,
        r.conversation_id@ == "telegram:"@ + text::decimal_int(m.chat_id as int),
        r.timestamp == m.date,
        m.from matches Some(u) ==> r.sender_id@ == text::decimal(u.id as nat)
            && r.metadata@.contains_key("telegram_user_id"@) && r.metadata@["telegram_user_id"@]
            == message::JsonView::PosInt(u.id) && r.metadata@.contains_key("display_name"@)
            && r.metadata@["display_name"@] == message::JsonView::Text(
            match u.last_name {
                Some(last) => u.first_name@ + " "@ + last@,
                None => u.first_name@,
            },
        ),
        m.media matches Media::Text(s) ==> r.content@ == message::ContentView::Text(s@),
        message::meta_i64(r.metadata@, "telegram_chat_id"@) == Some(m.chat_id as int),
        message::meta_i64(r.metadata@, "telegram_message_id"@) == Some(m.id as int),
        m.chat_title matches Some(s) ==> r.metadata@.contains_key("telegram_chat_title"@)
            && r.metadata@["telegram_chat_title"@] == message::JsonView::Text(s@),
        m.reply_to matches Some(q) ==> message::meta_i64(r.metadata@, "reply_to_message_id"@)
            == Some(q.id as int),
        m.reply_to is None ==> !r.metadata@.contains_key("reply_to_message_id"@)
            && !r.metadata@.contains_key("reply_to_text"@) && !r.metadata@.contains_key(
            "reply_to_author"@,
        ),
        m.reply_to matches Some(q) ==> (q.media matches Media::Text(s) ==> (text::byte_len(s@)
            <= 200 ==> r.metadata@.contains_key("reply_to_text"@)
            && r.metadata@["reply_to_text"@] == message::JsonView::Text(s@))),
{
    lemma_metadata_keys();
    if m.media is Text {
        assert(attachments_of(m.media) =~= Seq::<message::AttachmentView>::empty());
    }
}

/// The files of a message come with it where they can be had: the largest size of a
/// photo, or the one file, under the address that was found. A file that could not be
/// had is left out, and the text stays.
pub proof fn law_files_come_with_their_message(m: Media, urls: Seq<Option<String>>)
    requires
        urls.len() == attachments_of(m).len(),
    ensures
        m is Text || m is Other ==> attachments_of(m).len() == 0,
        m is Document || m is Video || m is Voice || m is Audio ==> attachments_of(m).len() == 1,
        m matches Media::Photo { sizes, .. } ==> (sizes@.len() > 0 ==> attachments_of(m).len() == 1
            && attachments_of(m)[0].url == sizes@.last().id@ && attachments_of(m)[0].size_bytes
            == Some(sizes@.last().size as u64) && attachments_of(m)[0].mime_type == "image/jpeg"@),
        m matches Media::Document { file, .. } ==> attachments_of(m)[0].url == file.id@ && (
        file.file_name matches Some(n) ==> attachments_of(m)[0].filename == n@) && (
        file.mime_type matches Some(n) ==> attachments_of(m)[0].mime_type == n@),
        m matches Media::Video { file, .. } ==> attachments_of(m)[0].url == file.id@ && (
        file.file_name matches Some(n) ==> attachments_of(m)[0].filename == n@) && (
        file.mime_type matches Some(n) ==> attachments_of(m)[0].mime_type == n@),
        m matches Media::Audio { file, .. } ==> attachments_of(m)[0].url == file.id@ && (
        file.file_name matches Some(n) ==> attachments_of(m)[0].filename == n@) && (
        file.mime_type matches Some(n) ==> attachments_of(m)[0].mime_type == n@),
        m matches Media::Voice { file, .. } ==> attachments_of(m)[0].url == file.id@ && (
        file.mime_type matches Some(n) ==> attachments_of(m)[0].mime_type == n@),
        urls.len() == 1 && urls[0] is Some ==> ({
            let c = content_of(text_of(m), resolved(attachments_of(m), urls));
            &&& c is Media
            &&& c->attachments.len() == 1
            &&& c->attachments[0].url == urls[0]->0@
            &&& c->attachments[0].filename == attachments_of(m)[0].filename
            &&& c->Media_text == text_of(m)
        }),
        urls.len() == 1 && urls[0] is None ==> content_of(
            text_of(m),
            resolved(attachments_of(m), urls),
        ) == message::ContentView::Text(
            match text_of(m) {
                Some(s) => s,
                None => ""@,
            },
        ),
        m matches Media::Photo { caption: Some(s), .. } ==> text_of(m) == Some(s@),
        m matches Media::Document { caption: Some(s), .. } ==> text_of(m) == Some(s@),
        m matches Media::Video { caption: Some(s), .. } ==> text_of(m) == Some(s@),
        m matches Media::Voice { caption: Some(s), .. } ==> text_of(m) == Some(s@),
        m matches Media::Audio { caption: Some(s), .. } ==> text_of(m) == Some(s@),
{
    reveal_strlit("");
    assert(""@ =~= Seq::<char>::empty());
    if urls.len() == 1 {
        let a = attachments_of(m);
        assert(a.drop_last() =~= Seq::<message::AttachmentView>::empty());
        assert(resolved(a.drop_last(), urls) =~= Seq::<message::AttachmentView>::empty());
    }
}

/// Of several files those that could be had are kept, in their order.
pub proof fn law_resolved_files_in_order(
    a: Seq<message::AttachmentView>,
    last: message::AttachmentView,
    urls: Seq<Option<String>>,
)
    requires
        urls.len() == a.len() + 1,
    ensures
        ({
            let before = resolved(a, urls);
            let after = resolved(a.push(last), urls);
            match urls.last() {
                Some(url) => after.len() == before.len() + 1 && after.drop_last() == before
                    && after.last().url == url@ && after.last().filename == last.filename
                    && after.last().mime_type == last.mime_type && after.last().size_bytes
                    == last.size_bytes,
                None => after == before,
            }
        }),
{
    assert(a.push(last).drop_last() =~= a);
    assert(resolved(a.push(last), urls).len() > resolved(a, urls).len() ==> resolved(
        a.push(last),
        urls,
    ).drop_last() =~= resolved(a, urls));
}

// ---------------------------------------------------------------------------
// Outbound
// ---------------------------------------------------------------------------

/// A call to Telegram, or a change of the typing indicator.
pub enum TelegramAction {
    StopTyping { conversation_id: String },
    StartTyping { chat_id: i64, conversation_id: String },
    SendMessage { chat_id: i64, text: String, reply_to: Option<i32> },
    SendDocument { chat_id: i64, filename: String, data: Vec<u8>, caption: Option<String> },
    SetReaction { chat_id: i64, message_id: i32, emoji: String },
    /// Send a message to be edited while the answer streams in, and record it
    /// for the conversation.
    SendPlaceholder { chat_id: i64, text: String, conversation_id: String },
    EditMessage { chat_id: i64, message_id: i32, text: String },
}

/// What a [`TelegramAction`] says.
pub enum TelegramActionView {
    StopTyping { conversation_id: Seq<char> },
    StartTyping { chat_id: i64, conversation_id: Seq<char> },
    SendMessage { chat_id: i64, text: Seq<char>, reply_to: Option<i32> },
    SendDocument {
        chat_id: i64,
        filename: Seq<char>,
        data: Seq<u8>,
        caption: Option<Seq<char>>,
    },
    SetReaction { chat_id: i64, message_id: i32, emoji: Seq<char> },
    SendPlaceholder { chat_id: i64, text: Seq<char>, conversation_id: Seq<char> },
    EditMessage { chat_id: i64, message_id: i32, text: Seq<char> },
}

impl View for TelegramAction {
    type V = TelegramActionView;

    open spec fn view(&self) -> TelegramActionView {
        match *self {
            TelegramAction::StopTyping { conversation_id } => TelegramActionView::StopTyping {
                conversation_id: conversation_id@,
            },
            TelegramAction::StartTyping { chat_id, conversation_id } =>
                TelegramActionView::StartTyping { chat_id, conversation_id: conversation_id@ },
            TelegramAction::SendMessage { chat_id, text, reply_to } =>
                TelegramActionView::SendMessage { chat_id, text: text@, reply_to },
            TelegramAction::SendDocument { chat_id, filename, data, caption } =>
                TelegramActionView::SendDocument {
                chat_id,
                filename: filename@,
                data: data@,
                caption: text::opt_text(caption),
            },
            TelegramAction::SetReaction { chat_id, message_id, emoji } =>
                TelegramActionView::SetReaction { chat_id, message_id, emoji: emoji@ },
            TelegramAction::SendPlaceholder { chat_id, text, conversation_id } =>
                TelegramActionView::SendPlaceholder {
                chat_id,
                text: text@,
                conversation_id: conversation_id@,
            },
            TelegramAction::EditMessage { chat_id, message_id, text } =>
                TelegramActionView::EditMessage { chat_id, message_id, text: text@ },
        }
    }
}

/// What a list of calls says.
pub open spec fn action_views(v: Seq<TelegramAction>) -> Seq<TelegramActionView> {
    Seq::new(v.len(), |i: int| v[i]@)
}

/// Why a response cannot be sent.
#[derive(Clone, Copy, Debug, PartialEq, Eq, Structural)]
pub enum TelegramError {
    /// The metadata of the message names no chat.
    MissingChatId,
    /// The metadata of the message names no message.
    MissingMessageId,
}

impl TelegramError {
    /// Describes the error.
    pub fn message(&self) -> (r: String)
        ensures
            r@ == (match *self {
                TelegramError::MissingChatId => "missing telegram_chat_id in metadata"@,
                TelegramError::MissingMessageId => "missing telegram_message_id in metadata"@,
            }),
    {
        match self {
            TelegramError::MissingChatId => "missing telegram_chat_id in metadata".to_owned(),
            TelegramError::MissingMessageId => "missing telegram_message_id in metadata".to_owned(),
        }
    }
}

/// The chat of a message, from its metadata.
pub open spec fn chat_id_of(m: InboundMessage) -> Option<int> {
    message::meta_i64(m.metadata@, "telegram_chat_id"@)
}

/// The id of a message, from its metadata.
pub open spec fn message_id_of(m: InboundMessage) -> Option<i32> {
    match message::meta_i64(m.metadata@, "telegram_message_id"@) {
        Some(n) => Some(bits::signed_32(n) as i32),
        None => None,
    }
}

fn extract_message_id(m: &InboundMessage) -> (r: Option<i32>)
    ensures
        r == message_id_of(*m),
{
    match get_i64(&m.metadata, "telegram_message_id") {
        Some(n) => Some(to_i32(n)),
        None => None,
    }
}

/// A message that is edited while an answer streams in.
#[derive(Clone, Copy, Debug, PartialEq, Eq, Structural)]
pub struct ActiveStream {
    pub chat_id: i64,
    pub message_id: i32,
    /// When it was last edited, on a clock that never goes back.
    pub last_edit_ms: u64,
}

impl DeepView for ActiveStream {
    type V = ActiveStream;

    open spec fn deep_view(&self) -> ActiveStream {
        *self
    }
}

/// The calls that send a text, one for each chunk.
pub open spec fn sends(
    chat_id: i64,
    chunks: Seq<Seq<char>>,
    reply_to: Option<i32>,
) -> Seq<TelegramActionView> {
    Seq::new(
        chunks.len(),
        |i: int| TelegramActionView::SendMessage { chat_id, text: chunks[i], reply_to },
    )
}

/// An edit is due: the last one lies at least the interval back.
pub open spec fn edit_due(s: ActiveStream, now_ms: u64) -> bool {
    now_ms - s.last_edit_ms >= STREAM_EDIT_INTERVAL_MS
}

/// The calls that send a response to a message in a chat.
pub open spec fn actions_for(
    m: InboundMessage,
    chat_id: i64,
    response: OutboundResponse,
    active: Map<Seq<char>, ActiveStream>,
    now_ms: u64,
) -> Result<Seq<TelegramActionView>, TelegramError> {
    let stop = seq![TelegramActionView::StopTyping { conversation_id: m.conversation_id@ }];
    match response {
        OutboundResponse::Text(t) => Ok(
            stop + sends(chat_id, cut::message_chunks(t@, MAX_MESSAGE_LENGTH as nat), None),
        ),
        OutboundResponse::ThreadReply { thread_name: _, text: t } => Ok(
            stop + sends(
                chat_id,
                cut::message_chunks(t@, MAX_MESSAGE_LENGTH as nat),
                message_id_of(m),
            ),
        ),
        OutboundResponse::File { filename, data, mime_type: _, caption } => Ok(
            stop.push(
                TelegramActionView::SendDocument {
                    chat_id,
                    filename: filename@,
                    data: data@,
                    caption: text::opt_text(caption),
                },
            ),
        ),
        OutboundResponse::Reaction(emoji) => match message_id_of(m) {
            Some(id) => Ok(
                seq![
                    TelegramActionView::SetReaction { chat_id, message_id: id, emoji: emoji@ },
                ],
            ),
            None => Err(TelegramError::MissingMessageId),
        },
        OutboundResponse::StreamStart => Ok(
            stop.push(
                TelegramActionView::SendPlaceholder {
                    chat_id,
                    text: "..."@,
                    conversation_id: m.conversation_id@,
                },
            ),
        ),
        OutboundResponse::StreamChunk(t) => if active.contains_key(m.conversation_id@) && edit_due(
            active[m.conversation_id@],
            now_ms,
        ) {
            Ok(
                seq![
                    TelegramActionView::EditMessage {
                        chat_id: active[m.conversation_id@].chat_id,
                        message_id: active[m.conversation_id@].message_id,
                        text: cut::shortened(t@, MAX_MESSAGE_LENGTH as nat),
                    },
                ],
            )
        } else {
            Ok(Seq::empty())
        },
        OutboundResponse::StreamEnd => Ok(Seq::empty()),
        OutboundResponse::Status(s) => Ok(status_actions(m, chat_id, s)),
    }
}

/// The calls that show a status: typing starts with thinking and stops with
/// anything else.
pub open spec fn status_actions(m: InboundMessage, chat_id: i64, s: StatusUpdate) -> Seq<
    TelegramActionView,
> {
    match s {
        StatusUpdate::Thinking => seq![
            TelegramActionView::StartTyping { chat_id, conversation_id: m.conversation_id@ },
        ],
        StatusUpdate::Idle => seq![
            TelegramActionView::StopTyping { conversation_id: m.conversation_id@ },
        ],
    }
}

/// The calls that send a response to a message.
pub open spec fn respond_actions(
    m: InboundMessage,
    response: OutboundResponse,
    active: Map<Seq<char>, ActiveStream>,
    now_ms: u64,
) -> Result<Seq<TelegramActionView>, TelegramError> {
    match chat_id_of(m) {
        Some(c) => actions_for(m, c as i64, response, active, now_ms),
        None => Err(TelegramError::MissingChatId),
    }
}

/// What becomes of the streamed messages: an edit is remembered, and the end of
/// a stream forgets it.
pub open spec fn streams_after(
    m: InboundMessage,
    response: OutboundResponse,
    active: Map<Seq<char>, ActiveStream>,
    now_ms: u64,
) -> Map<Seq<char>, ActiveStream> {
    let c = m.conversation_id@;
    if chat_id_of(m) is None {
        active
    } else {
        match response {
            OutboundResponse::StreamChunk(_) => if active.contains_key(c) && edit_due(
                active[c],
                now_ms,
            ) {
                active.insert(c, ActiveStream { last_edit_ms: now_ms, ..active[c] })
            } else {
                active
            },
            OutboundResponse::StreamEnd => active.remove(c),
            _ => active,
        }
    }
}

/// The streamed messages of the adapter, by conversation.
pub struct TelegramStreams {
    pub active: TextMap<ActiveStream>,
}

fn stop_typing(m: &InboundMessage) -> (r: Vec<TelegramAction>)
    ensures
        action_views(r@) == seq![
            TelegramActionView::StopTyping { conversation_id: m.conversation_id@ },
        ],
{
    let mut out: Vec<TelegramAction> = Vec::new();
    out.push(TelegramAction::StopTyping { conversation_id: m.conversation_id.clone() });
    assert(action_views(out@) =~= seq![
        TelegramActionView::StopTyping { conversation_id: m.conversation_id@ },
    ]);
    out
}

fn push_action(out: &mut Vec<TelegramAction>, a: TelegramAction)
    ensures
        action_views(final(out)@) == action_views(old(out)@).push(a@),
{
    out.push(a);
    assert(action_views(out@) =~= action_views(old(out)@).push(a@));
}

fn push_sends(out: &mut Vec<TelegramAction>, chat_id: i64, s: &str, reply_to: Option<i32>)
    ensures
        action_views(final(out)@) == action_views(old(out)@) + sends(
            chat_id,
            cut::message_chunks(s@, MAX_MESSAGE_LENGTH as nat),
            reply_to,
        ),
{
    let chunks = split_message(s, MAX_MESSAGE_LENGTH);
    let ghost all = sends(chat_id, text::texts(chunks@), reply_to);
    assert(action_views(out@) =~= action_views(out@) + all.take(0));
    for chunk in it: chunks
        invariant
            it.seq() == chunks@,
            all == sends(chat_id, text::texts(chunks@), reply_to),
            action_views(out@) == action_views(old(out)@) + all.take(it.index() as int),
    {
        let ghost i = it.index() as int;
        push_action(out, TelegramAction::SendMessage { chat_id, text: chunk, reply_to });
        proof {
            assert(all.take(i + 1) =~= all.take(i).push(all[i]));
            assert(action_views(out@) =~= action_views(old(out)@) + all.take(i + 1));
        }
    }
    assert(all.take(all.len() as int) =~= all);
}

fn empty_actions() -> (r: Vec<TelegramAction>)
    ensures
        action_views(r@) == Seq::<TelegramActionView>::empty(),
{
    let out: Vec<TelegramAction> = Vec::new();
    assert(action_views(out@) =~= Seq::<TelegramActionView>::empty());
    out
}

fn one_action(a: TelegramAction) -> (r: Vec<TelegramAction>)
    ensures
        action_views(r@) == seq![a@],
{
    let mut out: Vec<TelegramAction> = Vec::new();
    out.push(a);
    assert(action_views(out@) =~= seq![a@]);
    out
}

/// The calls that show a status for a message.
pub fn send_status(m: &InboundMessage, status: StatusUpdate) -> (r: Result<
    Vec<TelegramAction>,
    TelegramError,
>)
    ensures
        match r {
            Ok(v) => (status == StatusUpdate::Idle || chat_id_of(*m) is Some) && action_views(v@)
                == status_actions(
                *m,
                (match chat_id_of(*m) {
                    Some(c) => c,
                    None => 0,
                }) as i64,
                status,
            ),
            Err(e) => e == TelegramError::MissingChatId && status == StatusUpdate::Thinking
                && chat_id_of(*m) is None,
        },
{
    match status {
        StatusUpdate::Thinking => match get_i64(&m.metadata, "telegram_chat_id") {
            Some(chat_id) => Ok(
                one_action(
                    TelegramAction::StartTyping {
                        chat_id,
                        conversation_id: m.conversation_id.clone(),
                    },
                ),
            ),
            None => Err(TelegramError::MissingChatId),
        },
        StatusUpdate::Idle => Ok(stop_typing(m)),
    }
}

impl TelegramStreams {
    /// No message streams.
    pub fn new() -> (r: Self)
        ensures
            r.active.wf(),
            r.active@ == Map::<Seq<char>, ActiveStream>::empty(),
    {
        TelegramStreams { active: TextMap::new() }
    }

    /// Records the placeholder of a conversation.
    pub fn record(&mut self, conversation_id: String, stream: ActiveStream)
        requires
            old(self).active.wf(),
        ensures
            final(self).active.wf(),
            final(self).active@ == old(self).active@.insert(conversation_id@, stream),
    {
        self.active.insert(conversation_id, stream);
    }

    /// The calls that send a response to a message. `now_ms` is the time on a
    /// clock that never goes back.
    pub fn respond(&mut self, m: &InboundMessage, response: OutboundResponse, now_ms: u64) -> (r:
        Result<Vec<TelegramAction>, TelegramError>)
        requires
            old(self).active.wf(),
        ensures
            final(self).active.wf(),
            match r {
                Ok(v) => respond_actions(*m, response, old(self).active@, now_ms) == Ok::<
                    _,
                    TelegramError,
                >(action_views(v@)),
                Err(e) => respond_actions(*m, response, old(self).active@, now_ms) == Err::<
                    Seq<TelegramActionView>,
                    _,
                >(e),
            },
            final(self).active@ == streams_after(*m, response, old(self).active@, now_ms),
    {
        let chat_id = match get_i64(&m.metadata, "telegram_chat_id") {
            Some(c) => c,
            None => {
                return Err(TelegramError::MissingChatId);
            },
        };
        match response {
            OutboundResponse::Text(t) => {
                let mut out = stop_typing(m);
                push_sends(&mut out, chat_id, t.as_str(), None);
                Ok(out)
            },
            OutboundResponse::ThreadReply { thread_name: _, text: t } => {
                let mut out = stop_typing(m);
                let reply_to = extract_message_id(m);
                push_sends(&mut out, chat_id, t.as_str(), reply_to);
                Ok(out)
            },
            OutboundResponse::File { filename, data, mime_type: _, caption } => {
                let mut out = stop_typing(m);
                push_action(
                    &mut out,
                    TelegramAction::SendDocument { chat_id, filename, data, caption },
                );
                Ok(out)
            },
            OutboundResponse::Reaction(emoji) => match extract_message_id(m) {
                Some(message_id) => Ok(
                    one_action(TelegramAction::SetReaction { chat_id, message_id, emoji }),
                ),
                None => Err(TelegramError::MissingMessageId),
            },
            OutboundResponse::StreamStart => {
                let mut out = stop_typing(m);
                push_action(
                    &mut out,
                    TelegramAction::SendPlaceholder {
                        chat_id,
                        text: "...".to_owned(),
                        conversation_id: m.conversation_id.clone(),
                    },
                );
                Ok(out)
            },
            OutboundResponse::StreamChunk(t) => {
                let stream = match self.active.get(m.conversation_id.as_str()) {
                    Some(s) => *s,
                    None => {
                        return Ok(empty_actions());
                    },
                };
                if now_ms < stream.last_edit_ms || now_ms - stream.last_edit_ms
                    < STREAM_EDIT_INTERVAL_MS {
                    return Ok(empty_actions());
                }
                let shown = shorten(t.as_str(), MAX_MESSAGE_LENGTH);
                self.active.insert(
                    m.conversation_id.clone(),
                    ActiveStream {
                        chat_id: stream.chat_id,
                        message_id: stream.message_id,
                        last_edit_ms: now_ms,
                    },
                );
                Ok(
                    one_action(
                        TelegramAction::EditMessage {
                            chat_id: stream.chat_id,
                            message_id: stream.message_id,
                            text: shown,
                        },
                    ),
                )
            },
            OutboundResponse::StreamEnd => {
                self.active.remove(m.conversation_id.as_str());
                Ok(empty_actions())
            },
            OutboundResponse::Status(s) => send_status(m, s),
        }
    }
}

/// The text that a call writes into a message, where it writes one.
pub open spec fn written_text(a: TelegramActionView) -> Option<Seq<char>> {
    match a {
        TelegramActionView::SendMessage { chat_id: _, text: t, reply_to: _ } => Some(t),
        TelegramActionView::EditMessage { chat_id: _, message_id: _, text: t } => Some(t),
        _ => None,
    }
}

/// Every message that a response sends or edits fits into Telegram's limit.
pub proof fn law_sends_fit(
    m: InboundMessage,
    response: OutboundResponse,
    active: Map<Seq<char>, ActiveStream>,
    now_ms: u64,
    i: int,
)
    requires
        respond_actions(m, response, active, now_ms) is Ok,
        0 <= i < respond_actions(m, response, active, now_ms)->Ok_0.len(),
        written_text(respond_actions(m, response, active, now_ms)->Ok_0[i]) is Some,
    ensures
        text::byte_len(written_text(respond_actions(m, response, active, now_ms)->Ok_0[i])->0)
            <= MAX_MESSAGE_LENGTH,
{
    match response {
        OutboundResponse::Text(t) => {
            cut::law_chunks_fit(t@, MAX_MESSAGE_LENGTH as nat, i - 1);
        },
        OutboundResponse::ThreadReply { thread_name: _, text: t } => {
            cut::law_chunks_fit(t@, MAX_MESSAGE_LENGTH as nat, i - 1);
        },
        OutboundResponse::StreamChunk(t) => {
            cut::law_shortened_fits(t@, MAX_MESSAGE_LENGTH as nat);
        },
        _ => {},
    }
}

/// An answer goes to the chat that the message came from, and a reply or a reaction to
/// the message itself. Before anything is sent the typing indicator stops.
pub proof fn law_answer_goes_where_the_message_came_from(
    m: TelegramMessage,
    urls: Seq<Option<String>>,
    bot_username: Option<Seq<char>>,
    r: InboundMessage,
    response: OutboundResponse,
    active: Map<Seq<char>, ActiveStream>,
    now_ms: u64,
)
    requires
        becomes(m, urls, bot_username, r),
    ensures
        ({
            let acts = respond_actions(r, response, active, now_ms);
            match response {
                OutboundResponse::Text(s) => {
                    &&& acts is Ok
                    &&& acts->Ok_0.len() > 0
                    &&& acts->Ok_0[0] is StopTyping
                    &&& forall|i: int|
                        1 <= i < acts->Ok_0.len() ==> (#[trigger] acts->Ok_0[i] matches TelegramActionView::SendMessage {
                            chat_id,
                            text: _,
                            reply_to,
                        } && chat_id == m.chat_id && reply_to is None)
                    &&& (text::byte_len(s@) <= 4096 ==> acts->Ok_0.len() == 2 && acts->Ok_0[1]
                        == TelegramActionView::SendMessage {
                        chat_id: m.chat_id,
                        text: s@,
                        reply_to: None,
                    })
                },
                OutboundResponse::ThreadReply { thread_name: _, text: s } => {
                    &&& acts is Ok
                    &&& acts->Ok_0.len() > 0
                    &&& acts->Ok_0[0] is StopTyping
                    &&& forall|i: int|
                        1 <= i < acts->Ok_0.len() ==> (#[trigger] acts->Ok_0[i] matches TelegramActionView::SendMessage {
                            chat_id,
                            text: _,
                            reply_to,
                        } && chat_id == m.chat_id && reply_to == Some(m.id))
                    &&& (text::byte_len(s@) <= 4096 ==> acts->Ok_0.len() == 2
                        && acts->Ok_0[1]->SendMessage_text == s@)
                },
                OutboundResponse::File { filename, data, mime_type: _, caption } => acts == Ok::<
                    _,
                    TelegramError,
                >(
                    seq![
                        TelegramActionView::StopTyping { conversation_id: r.conversation_id@ },
                        TelegramActionView::SendDocument {
                            chat_id: m.chat_id,
                            filename: filename@,
                            data: data@,
                            caption: text::opt_text(caption),
                        },
                    ],
                ),
                OutboundResponse::Reaction(emoji) => acts == Ok::<_, TelegramError>(
                    seq![
                        TelegramActionView::SetReaction {
                            chat_id: m.chat_id,
                            message_id: m.id,
                            emoji: emoji@,
                        },
                    ],
                ),
                OutboundResponse::StreamStart => acts == Ok::<_, TelegramError>(
                    seq![
                        TelegramActionView::StopTyping { conversation_id: r.conversation_id@ },
                        TelegramActionView::SendPlaceholder {
                            chat_id: m.chat_id,
                            text: "..."@,
                            conversation_id: r.conversation_id@,
                        },
                    ],
                ),
                OutboundResponse::Status(StatusUpdate::Thinking) => acts == Ok::<_, TelegramError>(
                    seq![
                        TelegramActionView::StartTyping {
                            chat_id: m.chat_id,
                            conversation_id: r.conversation_id@,
                        },
                    ],
                ),
                OutboundResponse::Status(StatusUpdate::Idle) => acts == Ok::<_, TelegramError>(
                    seq![
                        TelegramActionView::StopTyping { conversation_id: r.conversation_id@ },
                    ],
                ),
                _ => acts is Ok,
            }
        }),
{
    lemma_metadata_keys();
    let acts = respond_actions(r, response, active, now_ms);
    assert(chat_id_of(r) == Some(m.chat_id as int));
    assert(bits::signed_32(m.id as int) == m.id);
    assert(message_id_of(r) == Some(m.id));
    match response {
        OutboundResponse::File { filename, data, mime_type: _, caption } => {
            assert(acts->Ok_0 =~= seq![
                TelegramActionView::StopTyping { conversation_id: r.conversation_id@ },
                TelegramActionView::SendDocument {
                    chat_id: m.chat_id,
                    filename: filename@,
                    data: data@,
                    caption: text::opt_text(caption),
                },
            ]);
        },
        OutboundResponse::StreamStart => {
            assert(acts->Ok_0 =~= seq![
                TelegramActionView::StopTyping { conversation_id: r.conversation_id@ },
                TelegramActionView::SendPlaceholder {
                    chat_id: m.chat_id,
                    text: "..."@,
                    conversation_id: r.conversation_id@,
                },
            ]);
        },
        _ => {},
    }
}

/// What is sent of a text says what the text says, whatever its length: it loses
/// nothing but white space between two messages.
pub proof fn law_sent_texts_say_the_answer(
    m: InboundMessage,
    s: String,
    active: Map<Seq<char>, ActiveStream>,
    now_ms: u64,
)
    requires
        chat_id_of(m) is Some,
    ensures
        ({
            let acts = respond_actions(m, OutboundResponse::Text(s), active, now_ms)->Ok_0;
            cut::visible(
                cut::concat(
                    Seq::new((acts.len() - 1) as nat, |i: int| acts[i + 1]->SendMessage_text),
                ),
            ) == cut::visible(s@)
        }),
{
    let acts = respond_actions(m, OutboundResponse::Text(s), active, now_ms)->Ok_0;
    let chunks = cut::message_chunks(s@, MAX_MESSAGE_LENGTH as nat);
    assert(Seq::new((acts.len() - 1) as nat, |i: int| acts[i + 1]->SendMessage_text) =~= chunks);
    cut::law_chunks_keep_text(s@, MAX_MESSAGE_LENGTH as nat);
}

/// While an answer streams in, the message that stands for it is edited to say what has
/// come, at most once in a second. Where the conversation streams nothing, or its stream
/// has ended, nothing is edited. Other conversations keep their streams.
pub proof fn law_stream_is_edited(
    m: InboundMessage,
    s: String,
    active: Map<Seq<char>, ActiveStream>,
    now_ms: u64,
    other: Seq<char>,
)
    requires
        chat_id_of(m) is Some,
        text::byte_len(s@) <= 4096,
    ensures
        ({
            let c = m.conversation_id@;
            let chunk = OutboundResponse::StreamChunk(s);
            let acts = respond_actions(m, chunk, active, now_ms)->Ok_0;
            let after = streams_after(m, chunk, active, now_ms);
            let ended = streams_after(m, OutboundResponse::StreamEnd, active, now_ms);
            &&& (active.contains_key(c) && now_ms - active[c].last_edit_ms >= 1000 ==> acts == seq![
                TelegramActionView::EditMessage {
                    chat_id: active[c].chat_id,
                    message_id: active[c].message_id,
                    text: s@,
                },
            ] && after.contains_key(c) && after[c].last_edit_ms == now_ms && after[c].message_id
                == active[c].message_id && after[c].chat_id == active[c].chat_id)
            &&& (!active.contains_key(c) || now_ms - active[c].last_edit_ms < 1000 ==> acts.len()
                == 0 && after == active)
            &&& !ended.contains_key(c)
            &&& respond_actions(m, chunk, ended, now_ms)->Ok_0.len() == 0
            &&& (other != c ==> (after.contains_key(other) <==> active.contains_key(other)) && (
            ended.contains_key(other) <==> active.contains_key(other)))
            &&& (other != c && active.contains_key(other) ==> after[other] == active[other]
                && ended[other] == active[other])
        }),
{
}

/// A response needs to know the chat, and a reaction the message.
pub proof fn law_answers_need_a_chat(
    m: InboundMessage,
    response: OutboundResponse,
    active: Map<Seq<char>, ActiveStream>,
    now_ms: u64,
)
    ensures
        respond_actions(m, response, active, now_ms) == Err::<
            Seq<TelegramActionView>,
            _,
        >(TelegramError::MissingChatId) <==> message::meta_i64(
            m.metadata@,
            "telegram_chat_id"@,
        ) is None,
        message::meta_i64(m.metadata@, "telegram_chat_id"@) is Some ==> (respond_actions(
            m,
            response,
            active,
            now_ms,
        ) is Err <==> response is Reaction && message::meta_i64(
            m.metadata@,
            "telegram_message_id"@,
        ) is None),
{
}

/// Two edits of a streamed message lie at least the edit interval apart.
pub proof fn law_edits_are_spaced(
    m: InboundMessage,
    t: String,
    active: Map<Seq<char>, ActiveStream>,
    now_ms: u64,
)
    requires
        chat_id_of(m) is Some,
        respond_actions(m, OutboundResponse::StreamChunk(t), active, now_ms)->Ok_0.len() > 0,
    ensures
        active.contains_key(m.conversation_id@),
        now_ms >= active[m.conversation_id@].last_edit_ms + STREAM_EDIT_INTERVAL_MS,
        streams_after(
            m,
            OutboundResponse::StreamChunk(t),
            active,
            now_ms,
        )[m.conversation_id@].last_edit_ms == now_ms,
{
}

/// The kinds of chats are told apart by their names.
pub proof fn law_kinds_of_chats_are_named(a: ChatKind, b: ChatKind)
    ensures
        kind_name(a) == kind_name(b) ==> a == b,
        a is Private ==> kind_name(a) == "private"@,
        a is Group ==> kind_name(a) == "group"@,
        a is Supergroup ==> kind_name(a) == "supergroup"@,
        a is Channel ==> kind_name(a) == "channel"@,
        a is Unknown ==> kind_name(a) == "unknown"@,
{
    reveal_strlit("private");
    reveal_strlit("group");
    reveal_strlit("supergroup");
    reveal_strlit("channel");
    reveal_strlit("unknown");
    assert("private"@[0] == 'p' && "channel"@[0] == 'c' && "unknown"@[0] == 'u');
    assert("group"@.len() == 5 && "supergroup"@.len() == 10 && "private"@.len() == 7
        && "channel"@.len() == 7 && "unknown"@.len() == 7);
}

} // verus!
