//! Webhooks: messages from programs, and the responses that they poll for.
use crate::config::bindings;
use crate::message;
use crate::message::{InboundMessage, Json, MessageContent, OutboundResponse, Timestamp};
use crate::outside::fresh_id;
use crate::text;
use crate::text::{cat2, cat3, contains_text, u64_text};
use crate::text_map::TextMap;
use vstd::prelude::*;

verus! {

/// A request that brings a message.
pub struct WebhookRequest {
    /// Reuse the same id to continue a conversation.
    pub conversation_id: String,
    /// Who sends the message.
    pub sender_id: String,
    pub content: String,
    /// An agent to route to.
    pub agent_id: Option<String>,
}

/// The sender where a request names none.
pub fn default_sender() -> (r: String)
    ensures
        r@ == "webhook"@,
{
    "webhook".to_owned()
}

/// A buffered response.
pub struct WebhookResponse {
    pub response_type: String,
    pub content: Option<String>,
    pub filename: Option<String>,
    pub caption: Option<String>,
}

/// What a [`WebhookResponse`] says.
pub struct WebhookResponseView {
    pub response_type: Seq<char>,
    pub content: Option<Seq<char>>,
    pub filename: Option<Seq<char>>,
    pub caption: Option<Seq<char>>,
}

impl View for WebhookResponse {
    type V = WebhookResponseView;

    open spec fn view(&self) -> WebhookResponseView {
        WebhookResponseView {
            response_type: self.response_type@,
            content: text::opt_text(self.content),
            filename: text::opt_text(self.filename),
            caption: text::opt_text(self.caption),
        }
    }
}

impl DeepView for WebhookResponse {
    type V = WebhookResponseView;

    open spec fn deep_view(&self) -> WebhookResponseView {
        self.view()
    }
}

/// The address that the server listens on. An IPv6 address goes in brackets.
pub open spec fn bind_address(bind: Seq<char>, port: u16) -> Seq<char> {
    if text::has_text(bind, ":"@) {
        "["@ + bind + "]:"@ + text::decimal(port as nat)
    } else {
        bind + ":"@ + text::decimal(port as nat)
    }
}

/// Writes the address that the server listens on.
pub fn format_bind(bind: &str, port: u16) -> (r: String)
    ensures
        r@ == bind_address(bind@, port),
{
    let p = u64_text(port as u64);
    if contains_text(bind, ":") {
        let mut out = cat3("[", bind, "]:");
        out.append(p.as_str());
        out
    } else {
        cat3(bind, ":", p.as_str())
    }
}

/// What a program gets for a response. Reactions and status updates mean nothing
/// to a program.
pub open spec fn webhook_view(response: OutboundResponse) -> Option<WebhookResponseView> {
    match response {
        OutboundResponse::Text(t) => Some(
            WebhookResponseView {
                response_type: "text"@,
                content: Some(t@),
                filename: None,
                caption: None,
            },
        ),
        OutboundResponse::ThreadReply { thread_name: _, text: t } => Some(
            WebhookResponseView {
                response_type: "text"@,
                content: Some(t@),
                filename: None,
                caption: None,
            },
        ),
        OutboundResponse::File { filename, data: _, mime_type: _, caption } => Some(
            WebhookResponseView {
                response_type: "file"@,
                content: None,
                filename: Some(filename@),
                caption: text::opt_text(caption),
            },
        ),
        OutboundResponse::StreamStart => Some(
            WebhookResponseView {
                response_type: "stream_start"@,
                content: None,
                filename: None,
                caption: None,
            },
        ),
        OutboundResponse::StreamChunk(t) => Some(
            WebhookResponseView {
                response_type: "stream_chunk"@,
                content: Some(t@),
                filename: None,
                caption: None,
            },
        ),
        OutboundResponse::StreamEnd => Some(
            WebhookResponseView {
                response_type: "stream_end"@,
                content: None,
                filename: None,
                caption: None,
            },
        ),
        OutboundResponse::Reaction(_) => None,
        OutboundResponse::Status(_) => None,
    }
}

fn plain(response_type: &str, content: Option<String>) -> (r: WebhookResponse)
    ensures
        r@ == (WebhookResponseView {
            response_type: response_type@,
            content: text::opt_text(content),
            filename: None,
            caption: None,
        }),
{
    WebhookResponse { response_type: response_type.to_owned(), content, filename: None, caption: None }
}

/// Turns a response into what a program gets.
pub fn to_webhook(response: OutboundResponse) -> (r: Option<WebhookResponse>)
    ensures
        match r {
            Some(w) => webhook_view(response) == Some(w@),
            None => webhook_view(response) is None,
        },
{
    match response {
        OutboundResponse::Text(t) => Some(plain("text", Some(t))),
        OutboundResponse::ThreadReply { thread_name: _, text: t } => Some(plain("text", Some(t))),
        OutboundResponse::File { filename, data: _, mime_type: _, caption } => Some(
            WebhookResponse {
                response_type: "file".to_owned(),
                content: None,
                filename: Some(filename),
                caption,
            },
        ),
        OutboundResponse::StreamStart => Some(plain("stream_start", None)),
        OutboundResponse::StreamChunk(t) => Some(plain("stream_chunk", Some(t))),
        OutboundResponse::StreamEnd => Some(plain("stream_end", None)),
        OutboundResponse::Reaction(_) => None,
        OutboundResponse::Status(_) => None,
    }
}

/// The buffers of responses, by conversation.
pub type Buffers = Map<Seq<char>, Seq<WebhookResponseView>>;

/// The responses that wait for a conversation.
pub open spec fn waiting(buffers: Buffers, key: Seq<char>) -> Seq<WebhookResponseView> {
    if buffers.contains_key(key) {
        buffers[key]
    } else {
        Seq::empty()
    }
}

/// The buffers after a response to a message of a conversation.
pub open spec fn buffered(
    buffers: Buffers,
    conversation_id: Seq<char>,
    response: OutboundResponse,
) -> Buffers {
    match webhook_view(response) {
        Some(w) => buffers.insert(conversation_id, waiting(buffers, conversation_id).push(w)),
        None => buffers,
    }
}

/// The conversation of a webhook message.
pub open spec fn conversation_of(id: Seq<char>) -> Seq<char> {
    "webhook:"@ + id
}

/// What the webhook server holds: the responses that wait to be polled.
pub struct WebhookBuffers {
    pub buffers: TextMap<Vec<WebhookResponse>>,
}

impl WebhookBuffers {
    /// Nothing waits.
    pub fn new() -> (r: Self)
        ensures
            r.buffers.wf(),
            r.buffers@ == Map::<Seq<char>, Seq<WebhookResponseView>>::empty(),
    {
        WebhookBuffers { buffers: TextMap::new() }
    }

    /// Buffers a response to a message.
    pub fn respond(&mut self, m: &InboundMessage, response: OutboundResponse)
        requires
            old(self).buffers.wf(),
        ensures
            final(self).buffers.wf(),
            final(self).buffers@ == buffered(old(self).buffers@, m.conversation_id@, response),
    {
        if let Some(w) = to_webhook(response) {
            let mut list: Vec<WebhookResponse> = match self.buffers.remove(
                m.conversation_id.as_str(),
            ) {
                Some(v) => v,
                None => Vec::new(),
            };
            let ghost before = list.deep_view();
            assert(before =~= waiting(old(self).buffers@, m.conversation_id@));
            list.push(w);
            assert(list.deep_view() =~= before.push(w@));
            self.buffers.insert(m.conversation_id.clone(), list);
            assert(self.buffers@ =~= buffered(
                old(self).buffers@,
                m.conversation_id@,
                response,
            ));
        }
    }

    /// Hands out the responses that wait for a conversation.
    pub fn poll(&mut self, conversation_id: &str) -> (r: Vec<WebhookResponse>)
        requires
            old(self).buffers.wf(),
        ensures
            final(self).buffers.wf(),
            r.deep_view() == waiting(old(self).buffers@, conversation_of(conversation_id@)),
            final(self).buffers@ == old(self).buffers@.remove(conversation_of(conversation_id@)),
    {
        let key = cat2("webhook:", conversation_id);
        match self.buffers.remove(key.as_str()) {
            Some(v) => v,
            None => {
                let v: Vec<WebhookResponse> = Vec::new();
                assert(v.deep_view() =~= Seq::<WebhookResponseView>::empty());
                v
            },
        }
    }
}

/// `r` is the message that a request brings.
pub open spec fn becomes(q: WebhookRequest, now: Timestamp, r: InboundMessage) -> bool {
    &&& r.id@.len() == 36
    &&& r.source@ == "webhook"@
    &&& r.conversation_id@ == conversation_of(q.conversation_id@)
    &&& r.sender_id@ == q.sender_id@
    &&& r.agent_id == q.agent_id
    &&& r.content@ == message::ContentView::Text(q.content@)
    &&& r.timestamp == now
    &&& r.metadata@ == Map::<Seq<char>, message::JsonView>::empty().insert(
        "webhook_conversation_id"@,
        message::JsonView::Text(q.conversation_id@),
    ).insert("display_name"@, message::JsonView::Text(q.sender_id@))
}

/// The message that a request brings. Its id is a fresh one.
pub fn inbound_from(q: WebhookRequest, now: Timestamp) -> (r: InboundMessage)
    ensures
        becomes(q, now, r),
{
    let mut metadata: TextMap<Json> = TextMap::new();
    metadata.insert(
        "webhook_conversation_id".to_owned(),
        Json::Text(q.conversation_id.clone()),
    );
    metadata.insert("display_name".to_owned(), Json::Text(q.sender_id.clone()));
    InboundMessage {
        id: fresh_id(),
        source: "webhook".to_owned(),
        conversation_id: cat2("webhook:", q.conversation_id.as_str()),
        sender_id: q.sender_id,
        agent_id: q.agent_id,
        content: MessageContent::Text(q.content),
        timestamp: now,
        metadata,
    }
}

/// An agent that a request names overrides the resolution by bindings.
pub proof fn law_named_agent_is_routed_to(
    q: WebhookRequest,
    now: Timestamp,
    r: InboundMessage,
    all: Seq<bindings::Binding>,
    default_agent_id: Seq<char>,
)
    requires
        becomes(q, now, r),
    ensures
        bindings::routed_to(all, r, default_agent_id) == (match q.agent_id {
            Some(id) => id@,
            None => bindings::agent_for(all, r, default_agent_id),
        }),
{
}

/// A poll hands out what was buffered for the conversation since the last one,
/// in order, and other conversations keep theirs.
pub proof fn law_poll_returns_what_was_buffered(
    buffers: Buffers,
    id: Seq<char>,
    other: Seq<char>,
    response: OutboundResponse,
)
    requires
        other != conversation_of(id),
    ensures
        ({
            let after = buffered(buffers, conversation_of(id), response);
            &&& waiting(after, conversation_of(id)) == waiting(buffers, conversation_of(id)) + (
            match webhook_view(response) {
                Some(w) => seq![w],
                None => Seq::empty(),
            })
            &&& waiting(after.remove(conversation_of(id)), conversation_of(id)) == Seq::<
                WebhookResponseView,
            >::empty()
            &&& waiting(after.remove(conversation_of(id)), other) == waiting(buffers, other)
        }),
{
    assert(waiting(buffers, conversation_of(id)) + Seq::<WebhookResponseView>::empty() =~= waiting(
        buffers,
        conversation_of(id),
    ));
    match webhook_view(response) {
        Some(w) => {
            assert(waiting(buffers, conversation_of(id)).push(w) =~= waiting(
                buffers,
                conversation_of(id),
            ) + seq![w]);
        },
        None => {},
    }
}

/// An address with a colon in it is an IPv6 address, and goes in brackets in front of the
/// port; any other stands as it is.
pub proof fn law_address_names_host_and_port(a: Seq<char>, b: Seq<char>, host: Seq<char>, port: u16)
    requires
        !host.contains(':'),
    ensures
        bind_address(host, port) == host + ":"@ + text::decimal(port as nat),
        bind_address(a + ":"@ + b, port) == "["@ + (a + ":"@ + b) + "]:"@ + text::decimal(
            port as nat,
        ),
{
    reveal_strlit(":");
    let s = a + ":"@ + b;
    assert(s.subrange(a.len() as int, a.len() as int + 1) == ":"@);
    assert(text::matches_at(s, ":"@, a.len() as int));
    if text::has_text(host, ":"@) {
        let i = choose|i: int| text::matches_at(host, ":"@, i);
        assert(host.subrange(i, i + 1)[0] == host[i]);
        assert(host.contains(host[i]));
    }
}

/// A text, in a thread or not, and a part of a stream reach a program with what they say;
/// a file with its name and its caption. A reaction and a status do not reach it.
pub proof fn law_programs_get_what_is_said(response: OutboundResponse, s: String)
    ensures
        response == OutboundResponse::Text(s) ==> webhook_view(response) is Some && webhook_view(
            response,
        )->0.content == Some(s@) && webhook_view(response)->0.response_type == "text"@,
        response matches OutboundResponse::ThreadReply { text: t, .. } ==> webhook_view(response)
            is Some && webhook_view(response)->0.content == Some(t@) && webhook_view(
            response,
        )->0.response_type == "text"@,
        response matches OutboundResponse::File { filename, caption, .. } ==> webhook_view(response)
            is Some && webhook_view(response)->0.filename == Some(filename@) && webhook_view(
            response,
        )->0.caption == text::opt_text(caption) && webhook_view(response)->0.response_type
            == "file"@,
        response == OutboundResponse::StreamChunk(s) ==> webhook_view(response) is Some
            && webhook_view(response)->0.content == Some(s@) && webhook_view(
            response,
        )->0.response_type == "stream_chunk"@,
        response is StreamStart ==> webhook_view(response) is Some && webhook_view(
            response,
        )->0.response_type == "stream_start"@,
        response is StreamEnd ==> webhook_view(response) is Some && webhook_view(
            response,
        )->0.response_type == "stream_end"@,
        webhook_view(response) is None <==> response is Reaction || response is Status,
{
}

/// A message says what its request says, comes from its sender, and belongs to the
/// conversation that it names, so that its answer is polled for under that name.
pub proof fn law_message_says_what_was_requested(
    q: WebhookRequest,
    now: Timestamp,
    r: InboundMessage,
    buffers: Buffers,
    s: String,
)
    requires
        becomes(q, now, r),
    ensures
        message::raw_text(r.content@) == q.content@,
        r.sender_id@ == q.sender_id@,
        r.conversation_id@ == "webhook:"@ + q.conversation_id@,
        r.agent_id == q.agent_id,
        r.timestamp == now,
        r.source@ == "webhook"@,
        ({
            let after = buffered(buffers, r.conversation_id@, OutboundResponse::Text(s));
            waiting(after, conversation_of(q.conversation_id@)).last().content == Some(s@)
        }),
{
}

} // verus!
