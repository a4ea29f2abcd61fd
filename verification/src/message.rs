//! Messages as the library sees them: inbound messages with their metadata,
//! outbound responses and status updates.
use crate::text;
use crate::text_map::TextMap;
use vstd::prelude::*;

verus! {

/// A JSON value as message metadata holds it. Fractions, arrays and objects are
/// carried as their compact text.
pub enum Json {
    Null,
    Bool(bool),
    PosInt(u64),
    NegInt(i64),
    Text(String),
    Raw(String),
}

/// What a [`Json`] value says.
pub enum JsonView {
    Null,
    Bool(bool),
    PosInt(u64),
    NegInt(i64),
    Text(Seq<char>),
    Raw(Seq<char>),
}

impl View for Json {
    type V = JsonView;

    open spec fn view(&self) -> JsonView {
        match *self {
            Json::Null => JsonView::Null,
            Json::Bool(b) => JsonView::Bool(b),
            Json::PosInt(n) => JsonView::PosInt(n),
            Json::NegInt(n) => JsonView::NegInt(n),
            Json::Text(s) => JsonView::Text(s@),
            Json::Raw(s) => JsonView::Raw(s@),
        }
    }
}

impl DeepView for Json {
    type V = JsonView;

    open spec fn deep_view(&self) -> JsonView {
        self.view()
    }
}

impl JsonView {
    /// The text of a string value.
    pub open spec fn as_text(self) -> Option<Seq<char>> {
        match self {
            JsonView::Text(s) => Some(s),
            _ => None,
        }
    }

    /// The number of an unsigned integer value.
    pub open spec fn as_unsigned(self) -> Option<u64> {
        match self {
            JsonView::PosInt(n) => Some(n),
            _ => None,
        }
    }

    /// The number of an integer value that an `i64` holds.
    pub open spec fn as_signed(self) -> Option<int> {
        match self {
            JsonView::PosInt(n) => if n <= i64::MAX {
                Some(n as int)
            } else {
                None
            },
            JsonView::NegInt(n) => Some(n as int),
            _ => None,
        }
    }
}

impl Json {
    /// The text of a string value.
    pub fn as_str(&self) -> (r: Option<&String>)
        ensures
            match r {
                Some(s) => self@.as_text() == Some(s@),
                None => self@.as_text() is None,
            },
    {
        match self {
            Json::Text(s) => Some(s),
            _ => None,
        }
    }

    /// The number of an unsigned integer value.
    pub fn as_u64(&self) -> (r: Option<u64>)
        ensures
            r == self@.as_unsigned(),
    {
        match self {
            Json::PosInt(n) => Some(*n),
            _ => None,
        }
    }

    /// The number of an integer value that an `i64` holds.
    pub fn as_i64(&self) -> (r: Option<i64>)
        ensures
            match r {
                Some(n) => self@.as_signed() == Some(n as int),
                None => self@.as_signed() is None,
            },
    {
        match self {
            Json::PosInt(n) => if *n <= i64::MAX as u64 {
                Some(*n as i64)
            } else {
                None
            },
            Json::NegInt(n) => Some(*n),
            _ => None,
        }
    }

    /// The value of an integer.
    pub fn integer(n: i64) -> (r: Json)
        ensures
            r@ == integer_json(n as int),
    {
        if n < 0 {
            Json::NegInt(n)
        } else {
            Json::PosInt(n as u64)
        }
    }
}

/// The JSON value of an integer.
pub open spec fn integer_json(n: int) -> JsonView {
    if n < 0 {
        JsonView::NegInt(n as i64)
    } else {
        JsonView::PosInt(n as u64)
    }
}

/// The text that metadata holds under a key.
pub open spec fn meta_text(meta: Map<Seq<char>, JsonView>, key: Seq<char>) -> Option<Seq<char>> {
    if meta.contains_key(key) {
        meta[key].as_text()
    } else {
        None
    }
}

/// The unsigned number that metadata holds under a key.
pub open spec fn meta_u64(meta: Map<Seq<char>, JsonView>, key: Seq<char>) -> Option<u64> {
    if meta.contains_key(key) {
        meta[key].as_unsigned()
    } else {
        None
    }
}

/// The integer that metadata holds under a key.
pub open spec fn meta_i64(meta: Map<Seq<char>, JsonView>, key: Seq<char>) -> Option<int> {
    if meta.contains_key(key) {
        meta[key].as_signed()
    } else {
        None
    }
}

/// Reads a text from metadata.
pub fn get_text(meta: &TextMap<Json>, key: &str) -> (r: Option<String>)
    ensures
        text::opt_text(r) == meta_text(meta@, key@),
{
    match meta.get(key) {
        Some(v) => match v.as_str() {
            Some(s) => Some(s.clone()),
            None => None,
        },
        None => None,
    }
}

/// Reads an unsigned number from metadata.
pub fn get_u64(meta: &TextMap<Json>, key: &str) -> (r: Option<u64>)
    ensures
        r == meta_u64(meta@, key@),
{
    match meta.get(key) {
        Some(v) => v.as_u64(),
        None => None,
    }
}

/// Reads an integer from metadata.
pub fn get_i64(meta: &TextMap<Json>, key: &str) -> (r: Option<i64>)
    ensures
        match r {
            Some(n) => meta_i64(meta@, key@) == Some(n as int),
            None => meta_i64(meta@, key@) is None,
        },
{
    match meta.get(key) {
        Some(v) => v.as_i64(),
        None => None,
    }
}

/// A point in time: seconds since the epoch and nanoseconds within the second.
#[derive(Clone, Copy, Debug, PartialEq, Eq, Structural)]
pub struct Timestamp {
    pub secs: i64,
    pub nanos: u32,
}

impl Timestamp {
    /// The order of time.
    pub open spec fn before(self, other: Timestamp) -> bool {
        self.secs < other.secs || (self.secs == other.secs && self.nanos < other.nanos)
    }

    /// Tells whether this point lies before another.
    pub fn is_before(&self, other: &Timestamp) -> (r: bool)
        ensures
            r == self.before(*other),
    {
        self.secs < other.secs || (self.secs == other.secs && self.nanos < other.nanos)
    }
}

/// A file that came with a message.
pub struct Attachment {
    pub filename: String,
    pub mime_type: String,
    pub url: String,
    pub size_bytes: Option<u64>,
}

/// What an [`Attachment`] says.
pub struct AttachmentView {
    pub filename: Seq<char>,
    pub mime_type: Seq<char>,
    pub url: Seq<char>,
    pub size_bytes: Option<u64>,
}

impl View for Attachment {
    type V = AttachmentView;

    open spec fn view(&self) -> AttachmentView {
        AttachmentView {
            filename: self.filename@,
            mime_type: self.mime_type@,
            url: self.url@,
            size_bytes: self.size_bytes,
        }
    }
}

/// What a list of attachments says.
pub open spec fn attachment_views(v: Seq<Attachment>) -> Seq<AttachmentView> {
    Seq::new(v.len(), |i: int| v[i]@)
}

/// The content of an inbound message.
pub enum MessageContent {
    Text(String),
    Media { text: Option<String>, attachments: Vec<Attachment> },
}

/// What a [`MessageContent`] says.
pub enum ContentView {
    Text(Seq<char>),
    Media { text: Option<Seq<char>>, attachments: Seq<AttachmentView> },
}

impl View for MessageContent {
    type V = ContentView;

    open spec fn view(&self) -> ContentView {
        match *self {
            MessageContent::Text(s) => ContentView::Text(s@),
            MessageContent::Media { text, attachments } => ContentView::Media {
                text: text::opt_text(text),
                attachments: attachment_views(attachments@),
            },
        }
    }
}

/// A message from a platform, ready to be routed to an agent.
pub struct InboundMessage {
    pub id: String,
    /// The platform that the message came from.
    pub source: String,
    pub conversation_id: String,
    pub sender_id: String,
    /// An agent that the sender asked for.
    pub agent_id: Option<String>,
    pub content: MessageContent,
    pub timestamp: Timestamp,
    pub metadata: TextMap<Json>,
}

/// A change of what the agent is doing, shown to the user.
#[derive(Clone, Copy, Debug, PartialEq, Eq, Structural)]
pub enum StatusUpdate {
    Thinking,
    Idle,
}

/// What the agent answers.
pub enum OutboundResponse {
    Text(String),
    ThreadReply { thread_name: String, text: String },
    File { filename: String, data: Vec<u8>, mime_type: String, caption: Option<String> },
    Reaction(String),
    StreamStart,
    StreamChunk(String),
    StreamEnd,
    Status(StatusUpdate),
}

/// The text of a message, empty where media came without one.
pub open spec fn raw_text(content: ContentView) -> Seq<char> {
    match content {
        ContentView::Text(s) => s,
        ContentView::Media { text, .. } => match text {
            Some(s) => s,
            None => Seq::empty(),
        },
    }
}

impl MessageContent {
    /// The text of a message, empty where media came without one.
    pub fn raw_text(&self) -> (r: String)
        ensures
            r@ == raw_text(self@),
    {
        match self {
            MessageContent::Text(s) => s.clone(),
            MessageContent::Media { text, .. } => match text {
                Some(s) => s.clone(),
                None => String::new(),
            },
        }
    }
}

/// A text says itself, and media say the text that came with them, or nothing.
pub proof fn law_raw_text_is_what_was_said(s: Seq<char>, content: ContentView)
    ensures
        content == ContentView::Text(s) ==> raw_text(content) == s,
        content matches ContentView::Media { text, .. } ==> (text == Some(s) ==> raw_text(content)
            == s) && (text is None ==> raw_text(content).len() == 0),
{
}

/// Time is ordered by the seconds and then by the nanoseconds: of two points one comes
/// before the other unless they are the same.
pub proof fn law_time_is_ordered(a: Timestamp, b: Timestamp)
    requires
        a.nanos < 1_000_000_000,
        b.nanos < 1_000_000_000,
    ensures
        a.before(b) <==> a.secs * 1_000_000_000 + a.nanos < b.secs * 1_000_000_000 + b.nanos,
{
}

/// A number of the metadata is read as a number, a negative one too where a signed number
/// is asked for; a text is read as a text. What is of another kind is not read.
pub proof fn law_metadata_is_read(
    meta: Map<Seq<char>, JsonView>,
    key: Seq<char>,
    n: u64,
    k: i64,
    s: Seq<char>,
)
    ensures
        meta.contains_key(key) && meta[key] == JsonView::PosInt(n) ==> meta_u64(meta, key) == Some(n)
            && (n <= i64::MAX ==> meta_i64(meta, key) == Some(n as int)) && (n > i64::MAX
            ==> meta_i64(meta, key) is None) && meta_text(meta, key) is None,
        meta.contains_key(key) && meta[key] == JsonView::NegInt(k) ==> meta_i64(meta, key) == Some(
            k as int,
        ) && meta_u64(meta, key) is None,
        meta.contains_key(key) && meta[key] == JsonView::Text(s) ==> meta_text(meta, key) == Some(s)
            && meta_u64(meta, key) is None && meta_i64(meta, key) is None,
        !meta.contains_key(key) ==> meta_text(meta, key) is None && meta_u64(meta, key) is None
            && meta_i64(meta, key) is None,
{
}

/// An integer that is written to the metadata is read back.
pub proof fn law_integers_are_read_back(n: i64)
    ensures
        integer_json(n as int).as_signed() == Some(n as int),
        n >= 0 ==> integer_json(n as int) == JsonView::PosInt(n as u64),
        n < 0 ==> integer_json(n as int) == JsonView::NegInt(n),
{
}

} // verus!
