//! Tests of the messaging platforms.
use spacebot::config::bindings::{SlackPermissions, TelegramPermissions};
use spacebot::cut::{shorten, split_message};
use spacebot::message::{
    Attachment, InboundMessage, Json, MessageContent, OutboundResponse, StatusUpdate, Timestamp,
};
use spacebot::messaging::manager::MessagingManager;
use spacebot::messaging::slack::{
    broadcast, handle_push_event, history_from, history_limit, sanitize_reaction_name, SlackAction,
    SlackContent, SlackError, SlackEvent, SlackHistoryMessage, SlackMessage, SlackStreams,
};
use spacebot::messaging::telegram::{
    build_content, build_display_name, extract_attachments, extract_text, is_admitted, next_poll,
    scan_updates, send_status, ActiveStream, ChatKind, Media, PollEvent, PollStep, TelegramAction,
    TelegramError, TelegramFile, TelegramMessage, TelegramStreams, TelegramUpdate, TelegramUser,
    TELEGRAM_HTTP_TIMEOUT_SECS, TELEGRAM_LONG_POLL_TIMEOUT_SECS,
};
use spacebot::messaging::telegram;
use spacebot::messaging::webhook;
use spacebot::messaging::webhook::{
    default_sender, format_bind, to_webhook, WebhookBuffers, WebhookRequest,
};
use spacebot::text_map::TextMap;
use std::time::Duration;

fn s(text: &str) -> String {
    text.to_string()
}

fn inbound(source: &str, meta: Vec<(&str, Json)>) -> InboundMessage {
    let mut metadata = TextMap::new();
    for (k, v) in meta {
        metadata.insert(s(k), v);
    }
    InboundMessage {
        id: s("m"),
        source: s(source),
        conversation_id: s("conv"),
        sender_id: s("u"),
        agent_id: None,
        content: MessageContent::Text(s("hi")),
        timestamp: Timestamp { secs: 0, nanos: 0 },
        metadata,
    }
}

fn user(id: u64) -> TelegramUser {
    TelegramUser { id, first_name: s("Ada"), last_name: Some(s("L")), username: Some(s("ada")) }
}

fn telegram_message(kind: ChatKind, chat_id: i64, from: u64) -> TelegramMessage {
    TelegramMessage {
        id: 3,
        chat_id,
        chat_kind: kind,
        chat_title: Some(s("Group")),
        from: Some(user(from)),
        date: Timestamp { secs: 5, nanos: 0 },
        media: Media::Text(s("hello")),
        reply_to: None,
    }
}

fn slack_message(team: &str, channel: &str, from: &str) -> SlackMessage {
    SlackMessage {
        has_subtype: false,
        team_id: s(team),
        user: Some(s(from)),
        channel: Some(s(channel)),
        ts: s("1.1"),
        thread_ts: None,
        content: Some(SlackContent { text: Some(s("hello")), files: None }),
    }
}

fn slack_permissions() -> SlackPermissions {
    SlackPermissions {
        workspace_filter: None,
        channel_filter: TextMap::new(),
        dm_allowed_users: vec![],
    }
}

#[test]
fn telegram_http_timeout_is_greater_than_long_poll_timeout() {
    assert!(
        Duration::from_secs(TELEGRAM_HTTP_TIMEOUT_SECS)
            > Duration::from_secs(TELEGRAM_LONG_POLL_TIMEOUT_SECS as u64)
    );
}

#[test]
fn messages_are_split_at_lines_and_blanks() {
    assert_eq!(split_message("short", 10), vec!["short"]);
    assert_eq!(split_message("aaaa\nbbbb", 6), vec!["aaaa", "bbbb"]);
    assert_eq!(split_message("aaaa bbbb", 6), vec!["aaaa", "bbbb"]);
    assert_eq!(split_message("abcdefgh", 4), vec!["abcd", "efgh"]);
    assert_eq!(split_message("abc", 1), vec!["a", "b", "c"]);
    assert_eq!(split_message("a b", 2), vec!["a", "b"]);
    assert_eq!(split_message("\u{1F600}a\u{e9}", 1), vec!["\u{1F600}", "a", "\u{e9}"]);
    assert_eq!(split_message("", 0), vec![""]);
    for chunk in split_message("\u{1F600}\u{1F600}\u{1F600}", 5) {
        assert!(chunk.len() <= 5);
    }
}

#[test]
fn long_texts_are_shortened() {
    assert_eq!(shorten("abc", 5), "abc");
    let cut = shorten("abcdefghij", 5);
    assert!(cut.len() <= 5);
    assert!(cut.ends_with("..."));
}

#[test]
fn private_chats_are_for_allowed_users() {
    let allowed = TelegramPermissions { chat_filter: None, dm_allowed_users: vec![1] };
    let closed = TelegramPermissions { chat_filter: None, dm_allowed_users: vec![] };
    let dm = telegram_message(ChatKind::Private, 1, 1);
    assert!(is_admitted(&dm, Some(9), &allowed));
    assert!(!is_admitted(&telegram_message(ChatKind::Private, 2, 2), Some(9), &allowed));
    assert!(!is_admitted(&dm, Some(9), &closed));
    assert!(is_admitted(&telegram_message(ChatKind::Group, -5, 2), Some(9), &closed));
    let filtered = TelegramPermissions { chat_filter: Some(vec![-6]), dm_allowed_users: vec![] };
    assert!(!is_admitted(&telegram_message(ChatKind::Group, -5, 2), Some(9), &filtered));
    // Its own messages are no news to a bot.
    assert!(!is_admitted(&telegram_message(ChatKind::Group, -5, 9), Some(9), &closed));
}

#[test]
fn a_telegram_message_comes_in() {
    let m = telegram_message(ChatKind::Supergroup, -5, 2);
    let inbound = telegram::inbound_from(&m, &vec![], &Some(s("bot")));
    assert_eq!(inbound.source, "telegram");
    assert_eq!(inbound.conversation_id, "telegram:-5");
    assert_eq!(inbound.sender_id, "2");
    assert!(matches!(&inbound.content, MessageContent::Text(t) if t == "hello"));
    assert_eq!(inbound.metadata.get("telegram_chat_id").and_then(|j| j.as_i64()), Some(-5));
    assert_eq!(build_display_name(&user(2)), "Ada L");
}

#[test]
fn media_of_telegram() {
    let file = |id: &str| TelegramFile {
        id: s(id),
        unique_id: s("u"),
        size: 10,
        file_name: None,
        mime_type: None,
    };
    let photo = Media::Photo { caption: Some(s("look")), sizes: vec![file("small"), file("big")] };
    assert_eq!(extract_text(&photo).as_deref(), Some("look"));
    let attachments = extract_attachments(&photo);
    assert_eq!(attachments.len(), 1);
    assert_eq!(attachments[0].url, "big");
    let found = vec![Some(s("https://files/big"))];
    match build_content(&attachments, &found, &Some(s("look"))) {
        MessageContent::Media { text, attachments } => {
            assert_eq!(text.as_deref(), Some("look"));
            assert_eq!(attachments[0].url, "https://files/big");
        }
        MessageContent::Text(_) => panic!("there is an attachment"),
    }
    let lost: Vec<Attachment> = extract_attachments(&Media::Other);
    assert!(lost.is_empty());
}

#[test]
fn polling_goes_on_after_the_last_update() {
    assert!(matches!(
        next_poll(5, &PollEvent::Updates { last_offset: Some(9) }),
        PollStep::Fetch { offset: 9 }
    ));
    assert!(matches!(
        next_poll(5, &PollEvent::Updates { last_offset: None }),
        PollStep::Fetch { offset: 5 }
    ));
    assert!(matches!(
        next_poll(5, &PollEvent::Failed),
        PollStep::RetryAfter { offset: 5, delay_secs: 5 }
    ));
    assert!(matches!(next_poll(5, &PollEvent::Shutdown), PollStep::Stop));
    let open = TelegramPermissions { chat_filter: None, dm_allowed_users: vec![] };
    let updates = vec![
        TelegramUpdate { next_offset: 2, message: None },
        TelegramUpdate {
            next_offset: 3,
            message: Some(telegram_message(ChatKind::Group, -5, 2)),
        },
    ];
    assert_eq!(scan_updates(&updates, Some(9), &open), (vec![1], Some(3)));
}

#[test]
fn responses_on_telegram() {
    let m = inbound(
        "telegram",
        vec![("telegram_chat_id", Json::NegInt(-5)), ("telegram_message_id", Json::PosInt(3))],
    );
    let mut streams = TelegramStreams::new();
    let actions = match streams.respond(&m, OutboundResponse::Text(s("ok")), 0) {
        Ok(a) => a,
        Err(_) => panic!("the chat is known"),
    };
    assert!(matches!(&actions[0], TelegramAction::StopTyping { conversation_id } if conversation_id == "conv"));
    assert!(matches!(
        &actions[1],
        TelegramAction::SendMessage { chat_id: -5, text, reply_to: None } if text == "ok"
    ));
    let lost = inbound("telegram", vec![]);
    assert!(matches!(
        streams.respond(&lost, OutboundResponse::Text(s("ok")), 0),
        Err(TelegramError::MissingChatId)
    ));
    let status = match send_status(&m, StatusUpdate::Thinking) {
        Ok(a) => a,
        Err(_) => panic!("the chat is known"),
    };
    assert!(matches!(&status[0], TelegramAction::StartTyping { chat_id: -5, .. }));
    let no_id = inbound("telegram", vec![("telegram_chat_id", Json::NegInt(-5))]);
    assert!(matches!(
        streams.respond(&no_id, OutboundResponse::Reaction(s("+1")), 0),
        Err(TelegramError::MissingMessageId)
    ));
}

#[test]
fn a_stream_is_edited_once_a_second() {
    let m = inbound("telegram", vec![("telegram_chat_id", Json::NegInt(-5))]);
    let mut streams = TelegramStreams::new();
    streams.record(s("conv"), ActiveStream { chat_id: -5, message_id: 8, last_edit_ms: 1000 });
    let early = streams.respond(&m, OutboundResponse::StreamChunk(s("a")), 1500);
    assert!(matches!(early, Ok(a) if a.is_empty()));
    let due = streams.respond(&m, OutboundResponse::StreamChunk(s("ab")), 2000);
    assert!(matches!(
        due,
        Ok(a) if matches!(&a[0], TelegramAction::EditMessage { message_id: 8, text, .. } if text == "ab")
    ));
    let again = streams.respond(&m, OutboundResponse::StreamChunk(s("abc")), 2500);
    assert!(matches!(again, Ok(a) if a.is_empty()));
}

#[test]
fn slack_events_are_filtered() {
    let now = Timestamp { secs: 1, nanos: 0 };
    let open = slack_permissions();
    let event = SlackEvent::Message(slack_message("T1", "C1", "U1"));
    let m = handle_push_event(&event, "UBOT", &open, &Some(s("Ada")), now).unwrap();
    assert_eq!(m.source, "slack");
    assert_eq!(m.conversation_id, "slack:T1:C1");
    assert_eq!(m.sender_id, "U1");
    let own = SlackEvent::Message(slack_message("T1", "C1", "UBOT"));
    assert!(handle_push_event(&own, "UBOT", &open, &None, now).is_none());
    assert!(handle_push_event(&SlackEvent::Other, "UBOT", &open, &None, now).is_none());
    let mut edited = slack_message("T1", "C1", "U1");
    edited.has_subtype = true;
    assert!(handle_push_event(&SlackEvent::Message(edited), "UBOT", &open, &None, now).is_none());
    let mut closed = slack_permissions();
    closed.workspace_filter = Some(vec![s("T2")]);
    assert!(handle_push_event(&event, "UBOT", &closed, &None, now).is_none());
}

#[test]
fn direct_messages_on_slack_are_for_allowed_users() {
    let now = Timestamp { secs: 1, nanos: 0 };
    let dm = SlackEvent::Message(slack_message("T1", "D1", "U1"));
    assert!(handle_push_event(&dm, "UBOT", &slack_permissions(), &None, now).is_none());
    let mut allowed = slack_permissions();
    allowed.dm_allowed_users = vec![s("U1")];
    assert!(handle_push_event(&dm, "UBOT", &allowed, &None, now).is_some());
}

#[test]
fn responses_on_slack() {
    let m = inbound(
        "slack",
        vec![("slack_channel_id", Json::Text(s("C1"))), ("slack_message_ts", Json::Text(s("1.1")))],
    );
    let mut streams = SlackStreams::new();
    let actions = match streams.respond(&m, OutboundResponse::Text(s("ok"))) {
        Ok(a) => a,
        Err(_) => panic!("the channel is known"),
    };
    assert!(matches!(
        &actions[0],
        SlackAction::PostMessage { channel, text, .. } if channel == "C1" && text == "ok"
    ));
    let reaction = streams.respond(&m, OutboundResponse::Reaction(s(":Thumbs_Up:")));
    assert!(matches!(
        reaction,
        Ok(a) if matches!(&a[0], SlackAction::AddReaction { name, ts, .. } if name == "thumbs_up" && ts == "1.1")
    ));
    streams.record(s("m"), s("2.2"));
    streams.clear();
    assert!(matches!(
        streams.respond(&m, OutboundResponse::StreamChunk(s("more"))),
        Ok(a) if a.is_empty()
    ));
    let lost = inbound("slack", vec![]);
    assert!(matches!(
        streams.respond(&lost, OutboundResponse::Text(s("ok"))),
        Err(SlackError::MissingChannelId)
    ));
    assert_eq!(sanitize_reaction_name(":Fire:"), "fire");
    assert_eq!(broadcast("C9", &OutboundResponse::Text(s("all"))).len(), 1);
}

#[test]
fn a_slack_history_is_turned_around() {
    let message = |user: &str, bot: bool, text: &str| SlackHistoryMessage {
        user: Some(s(user)),
        has_bot_id: bot,
        text: Some(s(text)),
    };
    let history = history_from(&vec![message("U2", true, "new"), message("U1", false, "old")]);
    assert_eq!(history.len(), 2);
    assert_eq!(history[0].content, "old");
    assert!(!history[0].is_bot);
    assert!(history[1].is_bot);
    assert_eq!(history_limit(50), 50);
    assert!(history_limit(100_000) <= 1000);
}

#[test]
fn webhooks_are_polled_once() {
    let now = Timestamp { secs: 1, nanos: 0 };
    let m = webhook::inbound_from(
        WebhookRequest {
            conversation_id: s("c"),
            sender_id: default_sender(),
            content: s("hi"),
            agent_id: Some(s("a")),
        },
        now,
    );
    assert_eq!(m.source, "webhook");
    assert_eq!(m.conversation_id, "webhook:c");
    assert_eq!(m.agent_id.as_deref(), Some("a"));
    let mut buffers = WebhookBuffers::new();
    buffers.respond(&m, OutboundResponse::Text(s("one")));
    buffers.respond(&m, OutboundResponse::Text(s("two")));
    let got = buffers.poll("c");
    assert_eq!(got.len(), 2);
    assert_eq!(got[0].content.as_deref(), Some("one"));
    assert!(buffers.poll("c").is_empty());
    assert!(to_webhook(OutboundResponse::Status(StatusUpdate::Idle)).is_none());
    assert_eq!(format_bind("127.0.0.1", 80), "127.0.0.1:80");
}

#[test]
fn adapters_are_found_by_name() {
    let mut manager = MessagingManager::new();
    manager.register(s("slack"), 1);
    assert!(manager.has_adapter("slack"));
    assert_eq!(manager.adapter("slack"), Ok(1));
    assert_eq!(manager.route(&inbound("slack", vec![])), Ok(1));
    assert!(manager.adapter("discord").is_err());
    assert!(manager.start().is_ok());
    assert_eq!(manager.remove_adapter("slack"), Some(1));
    assert!(!manager.has_adapter("slack"));
}
