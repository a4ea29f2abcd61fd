//! The messages of a conversation with a model.
use crate::json;
use crate::json::{copy_json, JsonTree};
use crate::text;
use crate::text::clone_texts;
use vstd::prelude::*;

verus! {

/// A part of the result of a tool.
pub enum ToolResultPart {
    Text(String),
    Image,
}

/// The result of a tool that a model called.
pub struct ToolResult {
    pub id: String,
    pub parts: Vec<ToolResultPart>,
}

/// What a user says, or a tool returns.
pub enum UserContent {
    Text(String),
    ToolResult(ToolResult),
    Image,
    Audio,
    Video,
    Document,
}

/// A call of a tool by a model.
pub struct ToolCall {
    pub id: String,
    pub name: String,
    pub arguments: serde_json::Value,
}

/// What a model says or does.
pub enum AssistantContent {
    Text(String),
    ToolCall(ToolCall),
    Reasoning(Vec<String>),
    Image,
}

/// A message of a conversation.
pub enum ChatMessage {
    User(Vec<UserContent>),
    Assistant(Vec<AssistantContent>),
}

/// What an [`AssistantContent`] says.
pub enum ContentView {
    Text(Seq<char>),
    ToolCall { id: Seq<char>, name: Seq<char>, arguments: JsonTree },
    Reasoning(Seq<Seq<char>>),
    Image,
}

impl View for AssistantContent {
    type V = ContentView;

    open spec fn view(&self) -> ContentView {
        match self {
            AssistantContent::Text(s) => ContentView::Text(s@),
            AssistantContent::ToolCall(c) => ContentView::ToolCall {
                id: c.id@,
                name: c.name@,
                arguments: json::json_tree(c.arguments),
            },
            AssistantContent::Reasoning(v) => ContentView::Reasoning(text::texts(v@)),
            AssistantContent::Image => ContentView::Image,
        }
    }
}

/// What a list of contents says.
pub open spec fn contents_view(v: Seq<AssistantContent>) -> Seq<ContentView> {
    Seq::new(v.len(), |i: int| v[i]@)
}

/// What a part of a tool result says: its text, or none for an image.
pub open spec fn part_view(p: ToolResultPart) -> Option<Seq<char>> {
    match p {
        ToolResultPart::Text(s) => Some(s@),
        ToolResultPart::Image => None,
    }
}

/// What a list of parts says.
pub open spec fn parts_view(v: Seq<ToolResultPart>) -> Seq<Option<Seq<char>>> {
    Seq::new(v.len(), |i: int| part_view(v[i]))
}

/// What a [`UserContent`] says.
pub enum UserView {
    Text(Seq<char>),
    ToolResult { id: Seq<char>, parts: Seq<Option<Seq<char>>> },
    Image,
    Audio,
    Video,
    Document,
}

impl View for UserContent {
    type V = UserView;

    open spec fn view(&self) -> UserView {
        match self {
            UserContent::Text(s) => UserView::Text(s@),
            UserContent::ToolResult(t) => UserView::ToolResult {
                id: t.id@,
                parts: parts_view(t.parts@),
            },
            UserContent::Image => UserView::Image,
            UserContent::Audio => UserView::Audio,
            UserContent::Video => UserView::Video,
            UserContent::Document => UserView::Document,
        }
    }
}

/// What a [`ChatMessage`] says.
pub enum MessageView {
    User(Seq<UserView>),
    Assistant(Seq<ContentView>),
}

/// What a list of user contents says.
pub open spec fn users_view(v: Seq<UserContent>) -> Seq<UserView> {
    Seq::new(v.len(), |i: int| v[i]@)
}

impl View for ChatMessage {
    type V = MessageView;

    open spec fn view(&self) -> MessageView {
        match self {
            ChatMessage::User(v) => MessageView::User(users_view(v@)),
            ChatMessage::Assistant(v) => MessageView::Assistant(contents_view(v@)),
        }
    }
}

/// What a history says.
pub open spec fn history_view(v: Seq<ChatMessage>) -> Seq<MessageView> {
    Seq::new(v.len(), |i: int| v[i]@)
}

fn copy_parts(v: &Vec<ToolResultPart>) -> (r: Vec<ToolResultPart>)
    ensures
        parts_view(r@) == parts_view(v@),
{
    let mut out: Vec<ToolResultPart> = Vec::new();
    let n: usize = v.len();
    let mut i: usize = 0;
    while i < n
        invariant
            n == v@.len(),
            i <= n,
            out@.len() == i,
            forall|j: int| 0 <= j < i ==> part_view(#[trigger] out@[j]) == part_view(v@[j]),
        decreases n - i,
    {
        out.push(
            match &v[i] {
                ToolResultPart::Text(s) => ToolResultPart::Text(s.clone()),
                ToolResultPart::Image => ToolResultPart::Image,
            },
        );
        i = i + 1;
    }
    assert(parts_view(out@) =~= parts_view(v@));
    out
}

fn copy_users(v: &Vec<UserContent>) -> (r: Vec<UserContent>)
    ensures
        users_view(r@) == users_view(v@),
{
    let mut out: Vec<UserContent> = Vec::new();
    let n: usize = v.len();
    let mut i: usize = 0;
    while i < n
        invariant
            n == v@.len(),
            i <= n,
            out@.len() == i,
            forall|j: int| 0 <= j < i ==> (#[trigger] out@[j])@ == v@[j]@,
        decreases n - i,
    {
        out.push(
            match &v[i] {
                UserContent::Text(s) => UserContent::Text(s.clone()),
                UserContent::ToolResult(t) => UserContent::ToolResult(
                    ToolResult { id: t.id.clone(), parts: copy_parts(&t.parts) },
                ),
                UserContent::Image => UserContent::Image,
                UserContent::Audio => UserContent::Audio,
                UserContent::Video => UserContent::Video,
                UserContent::Document => UserContent::Document,
            },
        );
        i = i + 1;
    }
    assert(users_view(out@) =~= users_view(v@));
    out
}

fn copy_contents(v: &Vec<AssistantContent>) -> (r: Vec<AssistantContent>)
    ensures
        contents_view(r@) == contents_view(v@),
{
    let mut out: Vec<AssistantContent> = Vec::new();
    let n: usize = v.len();
    let mut i: usize = 0;
    while i < n
        invariant
            n == v@.len(),
            i <= n,
            out@.len() == i,
            forall|j: int| 0 <= j < i ==> (#[trigger] out@[j])@ == v@[j]@,
        decreases n - i,
    {
        out.push(
            match &v[i] {
                AssistantContent::Text(s) => AssistantContent::Text(s.clone()),
                AssistantContent::ToolCall(c) => AssistantContent::ToolCall(
                    ToolCall {
                        id: c.id.clone(),
                        name: c.name.clone(),
                        arguments: copy_json(&c.arguments),
                    },
                ),
                AssistantContent::Reasoning(t) => AssistantContent::Reasoning(clone_texts(t)),
                AssistantContent::Image => AssistantContent::Image,
            },
        );
        i = i + 1;
    }
    assert(contents_view(out@) =~= contents_view(v@));
    out
}

/// Copies a history.
pub fn copy_history(v: &Vec<ChatMessage>) -> (r: Vec<ChatMessage>)
    ensures
        history_view(r@) == history_view(v@),
{
    let mut out: Vec<ChatMessage> = Vec::new();
    let n: usize = v.len();
    let mut i: usize = 0;
    while i < n
        invariant
            n == v@.len(),
            i <= n,
            out@.len() == i,
            forall|j: int| 0 <= j < i ==> (#[trigger] out@[j])@ == v@[j]@,
        decreases n - i,
    {
        out.push(
            match &v[i] {
                ChatMessage::User(u) => ChatMessage::User(copy_users(u)),
                ChatMessage::Assistant(a) => ChatMessage::Assistant(copy_contents(a)),
            },
        );
        i = i + 1;
    }
    assert(history_view(out@) =~= history_view(v@));
    out
}

/// A message of a user with one text.
pub fn user_text(s: String) -> (r: ChatMessage)
    ensures
        r is User,
        r->User_0@ == seq![UserContent::Text(s)],
{
    let mut v: Vec<UserContent> = Vec::new();
    v.push(UserContent::Text(s));
    assert(v@ =~= seq![UserContent::Text(s)]);
    ChatMessage::User(v)
}

/// The texts of a list of parts.
pub open spec fn part_texts(parts: Seq<ToolResultPart>) -> Seq<Seq<char>>
    decreases parts.len(),
{
    if parts.len() == 0 {
        Seq::empty()
    } else {
        match parts.last() {
            ToolResultPart::Text(s) => part_texts(parts.drop_last()).push(s@),
            ToolResultPart::Image => part_texts(parts.drop_last()),
        }
    }
}

/// The texts of a list of parts.
pub fn collect_part_texts(parts: &Vec<ToolResultPart>) -> (r: Vec<String>)
    ensures
        text::texts(r@) == part_texts(parts@),
{
    let mut out: Vec<String> = Vec::new();
    let n: usize = parts.len();
    let mut i: usize = 0;
    assert(text::texts(out@) =~= Seq::<Seq<char>>::empty());
    while i < n
        invariant
            n == parts@.len(),
            i <= n,
            text::texts(out@) == part_texts(parts@.take(i as int)),
        decreases n - i,
    {
        proof {
            assert(parts@.take(i + 1).drop_last() =~= parts@.take(i as int));
            assert(parts@.take(i + 1).last() == parts@[i as int]);
        }
        match &parts[i] {
            ToolResultPart::Text(s) => {
                let ghost before = out@;
                out.push(s.clone());
                assert(text::texts(out@) =~= text::texts(before).push(s@));
            },
            ToolResultPart::Image => {},
        }
        i = i + 1;
    }
    assert(parts@.take(n as int) =~= parts@);
    out
}

/// The texts of what a model said.
pub open spec fn said(content: Seq<AssistantContent>) -> Seq<Seq<char>>
    decreases content.len(),
{
    if content.len() == 0 {
        Seq::empty()
    } else {
        match content.last() {
            AssistantContent::Text(s) => said(content.drop_last()).push(s@),
            _ => said(content.drop_last()),
        }
    }
}

/// The texts of what a model said.
pub fn collect_said(content: &Vec<AssistantContent>) -> (r: Vec<String>)
    ensures
        text::texts(r@) == said(content@),
{
    let mut out: Vec<String> = Vec::new();
    let n: usize = content.len();
    let mut i: usize = 0;
    assert(text::texts(out@) =~= Seq::<Seq<char>>::empty());
    while i < n
        invariant
            n == content@.len(),
            i <= n,
            text::texts(out@) == said(content@.take(i as int)),
        decreases n - i,
    {
        proof {
            assert(content@.take(i + 1).drop_last() =~= content@.take(i as int));
            assert(content@.take(i + 1).last() == content@[i as int]);
        }
        match &content[i] {
            AssistantContent::Text(s) => {
                let ghost before = out@;
                out.push(s.clone());
                assert(text::texts(out@) =~= text::texts(before).push(s@));
            },
            _ => {},
        }
        i = i + 1;
    }
    assert(content@.take(n as int) =~= content@);
    out
}

/// The texts of the last message in which a model said something.
pub open spec fn last_said(history: Seq<ChatMessage>) -> Option<Seq<char>>
    decreases history.len(),
{
    if history.len() == 0 {
        None
    } else {
        match history.last() {
            ChatMessage::Assistant(content) => if said(content@).len() > 0 {
                Some(text::join(said(content@), "\n"@))
            } else {
                last_said(history.drop_last())
            },
            ChatMessage::User(_) => last_said(history.drop_last()),
        }
    }
}

/// Extract the last assistant text message from a history.
pub fn extract_last_assistant_text(history: &Vec<ChatMessage>) -> (r: Option<String>)
    ensures
        text::opt_text(r) == last_said(history@),
{
    let mut i: usize = history.len();
    assert(history@.take(i as int) =~= history@);
    while i > 0
        invariant
            i <= history@.len(),
            last_said(history@) == last_said(history@.take(i as int)),
        decreases i,
    {
        i = i - 1;
        assert(history@.take(i + 1).drop_last() =~= history@.take(i as int));
        assert(history@.take(i + 1).last() == history@[i as int]);
        if let ChatMessage::Assistant(content) = &history[i] {
            let texts = collect_said(content);
            if texts.len() > 0 {
                return Some(text::join_texts(&texts, "\n"));
            }
        }
    }
    None
}

/// What a model said are its texts, in their order.
pub proof fn law_said_in_order(content: Seq<AssistantContent>, c: AssistantContent)
    ensures
        said(Seq::empty()).len() == 0,
        c matches AssistantContent::Text(s) ==> said(content.push(c)) == said(content).push(s@),
        !(c is Text) ==> said(content.push(c)) == said(content),
{
    assert(content.push(c).drop_last() =~= content);
}

/// The last answer of a conversation is what the last message of the model that says
/// something says: what the user adds, and a message of the model without a text, change
/// nothing. A single text is the answer as it is, and a further text of the same message
/// follows on a new line.
pub proof fn law_last_answer_counts(
    history: Seq<ChatMessage>,
    m: ChatMessage,
    s: String,
    grown: ChatMessage,
)
    ensures
        last_said(Seq::empty()) is None,
        m is User ==> last_said(history.push(m)) == last_said(history),
        m matches ChatMessage::Assistant(content) ==> {
            let some = exists|i: int| 0 <= i < content@.len() && #[trigger] content@[i] is Text;
            &&& (!some ==> last_said(history.push(m)) == last_said(history))
            &&& (some ==> last_said(history.push(m)) is Some)
            &&& (content@ == seq![AssistantContent::Text(s)] ==> last_said(history.push(m)) == Some(
                s@,
            ))
            &&& (some && grown is Assistant && grown->Assistant_0@ == content@.push(
                AssistantContent::Text(s),
            ) ==> last_said(history.push(grown)) == Some(
                last_said(history.push(m))->0 + "\n"@ + s@,
            ))
        },
{
    assert(history.push(m).drop_last() =~= history);
    assert(history.push(grown).drop_last() =~= history);
    if let ChatMessage::Assistant(content) = m {
        lemma_says_something(content@);
        law_said_in_order(content@, AssistantContent::Text(s));
        if content@ == seq![AssistantContent::Text(s)] {
            assert(content@ =~= Seq::<AssistantContent>::empty().push(AssistantContent::Text(s)));
            law_said_in_order(Seq::empty(), AssistantContent::Text(s));
            assert(said(content@) =~= seq![s@]);
            assert(content@[0] is Text);
        }
        let texts = said(content@);
        assert(texts.push(s@).drop_last() =~= texts);
        assert(said(content@.push(AssistantContent::Text(s))) == texts.push(s@));
    }
}

/// A model said something exactly where some part is a text.
proof fn lemma_says_something(content: Seq<AssistantContent>)
    ensures
        said(content).len() > 0 <==> exists|i: int|
            0 <= i < content.len() && #[trigger] content[i] is Text,
    decreases content.len(),
{
    if content.len() > 0 {
        let rest = content.drop_last();
        lemma_says_something(rest);
        if said(rest).len() > 0 {
            let i = choose|i: int| 0 <= i < rest.len() && #[trigger] rest[i] is Text;
            assert(content[i] is Text);
        }
        if exists|i: int| 0 <= i < content.len() && #[trigger] content[i] is Text {
            let i = choose|i: int| 0 <= i < content.len() && #[trigger] content[i] is Text;
            if i < rest.len() {
                assert(rest[i] is Text);
            }
        }
        if content.last() is Text {
            assert(content[content.len() - 1] is Text);
        }
    }
}

/// The texts of a tool's result are its texts, in their order.
pub proof fn law_part_texts_in_order(parts: Seq<ToolResultPart>, p: ToolResultPart)
    ensures
        part_texts(Seq::empty()).len() == 0,
        p matches ToolResultPart::Text(s) ==> part_texts(parts.push(p)) == part_texts(parts).push(s@),
        p is Image ==> part_texts(parts.push(p)) == part_texts(parts),
{
    assert(parts.push(p).drop_last() =~= parts);
}

} // verus!
