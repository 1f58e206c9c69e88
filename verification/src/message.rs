//! Messages of a conversation.
use vstd::prelude::*;
use vstd::string::*;

use crate::json::{JsonValue, JsonView};
use crate::order::{lemma_inserting_keeps, lemma_subsequence_of_itself, subsequence};
use crate::text::{join, joined, occurs, texts, what_is_joined_is_there};

verus! {

broadcast use vstd::string::group_string_axioms;

/// Who a message comes from.
#[derive(Debug, Clone, Copy, PartialEq, Eq, Structural)]
pub enum Role {
    System,
    User,
    Assistant,
    Tool,
}

/// A part of a message's content.
#[derive(Debug, PartialEq, Eq)]
#[allow(inconsistent_fields)]
pub enum ContentPart {
    Text { text: String },
    ImageUrl { url: String },
    ImageBase64 { media_type: String, data: String },
    Audio { data: String, format: String },
    /// A file, with the JSON that stands for it in a request where it has one.
    File {
        file_id: Option<String>,
        filename: Option<String>,
        media_type: Option<String>,
        data: Option<String>,
        rendered: Option<String>,
    },
}

/// What a message says.
#[derive(Debug, PartialEq, Eq)]
pub enum Content {
    Text(String),
    Parts(Vec<ContentPart>),
}

/// A call of a tool that an assistant message asks for, with the JSON that
/// stands for it in a request.
#[derive(Debug, PartialEq, Eq)]
pub struct ToolCallMessage {
    pub id: String,
    pub name: String,
    pub arguments: String,
    pub rendered: String,
}

/// A message.
#[derive(Debug, PartialEq, Eq)]
pub struct Message {
    pub role: Role,
    pub content: Content,
    pub tool_calls: Option<Vec<ToolCallMessage>>,
    pub tool_call_id: Option<String>,
    pub name: Option<String>,
    pub reasoning_content: Option<String>,
    pub metadata: Option<JsonValue>,
}

pub open spec fn option_text(s: Option<String>) -> Option<Seq<char>> {
    match s {
        Some(t) => Some(t@),
        None => None,
    }
}

pub enum PartView {
    Text(Seq<char>),
    ImageUrl(Seq<char>),
    ImageBase64(Seq<char>, Seq<char>),
    Audio(Seq<char>, Seq<char>),
    File {
        file_id: Option<Seq<char>>,
        filename: Option<Seq<char>>,
        media_type: Option<Seq<char>>,
        data: Option<Seq<char>>,
        rendered: Option<Seq<char>>,
    },
}

pub enum ContentView {
    Text(Seq<char>),
    Parts(Seq<PartView>),
}

pub struct CallView {
    pub id: Seq<char>,
    pub name: Seq<char>,
    pub arguments: Seq<char>,
    pub rendered: Seq<char>,
}

#[verifier::ext_equal]
pub struct MessageView {
    pub role: Role,
    pub content: ContentView,
    pub tool_calls: Option<Seq<CallView>>,
    pub tool_call_id: Option<Seq<char>>,
    pub name: Option<Seq<char>>,
    pub reasoning_content: Option<Seq<char>>,
    pub metadata: Option<JsonView>,
}

impl View for ContentPart {
    type V = PartView;

    open spec fn view(&self) -> PartView {
        match self {
            ContentPart::Text { text } => PartView::Text(text@),
            ContentPart::ImageUrl { url } => PartView::ImageUrl(url@),
            ContentPart::ImageBase64 { media_type, data } => PartView::ImageBase64(
                media_type@,
                data@,
            ),
            ContentPart::Audio { data, format } => PartView::Audio(data@, format@),
            ContentPart::File { file_id, filename, media_type, data, rendered } => PartView::File {
                file_id: option_text(*file_id),
                filename: option_text(*filename),
                media_type: option_text(*media_type),
                data: option_text(*data),
                rendered: option_text(*rendered),
            },
        }
    }
}

pub open spec fn part_views(parts: Seq<ContentPart>) -> Seq<PartView> {
    parts.map_values(|p: ContentPart| p@)
}

impl View for Content {
    type V = ContentView;

    open spec fn view(&self) -> ContentView {
        match self {
            Content::Text(text) => ContentView::Text(text@),
            Content::Parts(parts) => ContentView::Parts(part_views(parts@)),
        }
    }
}

impl View for ToolCallMessage {
    type V = CallView;

    open spec fn view(&self) -> CallView {
        CallView {
            id: self.id@,
            name: self.name@,
            arguments: self.arguments@,
            rendered: self.rendered@,
        }
    }
}

pub open spec fn call_views(calls: Seq<ToolCallMessage>) -> Seq<CallView> {
    calls.map_values(|c: ToolCallMessage| c@)
}

impl View for Message {
    type V = MessageView;

    open spec fn view(&self) -> MessageView {
        MessageView {
            role: self.role,
            content: self.content@,
            tool_calls: match self.tool_calls {
                Some(calls) => Some(call_views(calls@)),
                None => None,
            },
            tool_call_id: option_text(self.tool_call_id),
            name: option_text(self.name),
            reasoning_content: option_text(self.reasoning_content),
            metadata: match self.metadata {
                Some(m) => Some(m@),
                None => None,
            },
        }
    }
}

/// A message of `role` that says `text` and nothing more.
pub open spec fn plain_message(role: Role, text: Seq<char>) -> MessageView {
    MessageView {
        role,
        content: ContentView::Text(text),
        tool_calls: None,
        tool_call_id: None,
        name: None,
        reasoning_content: None,
        metadata: None,
    }
}

pub open spec fn message_views(messages: Seq<Message>) -> Seq<MessageView> {
    messages.map_values(|m: Message| m@)
}

pub fn copy_option_text(s: &Option<String>) -> (r: Option<String>)
    ensures
        r == *s,
{
    match s {
        Some(t) => Some(t.clone()),
        None => None,
    }
}

impl ContentPart {
    /// A part of text.
    pub fn text(s: &str) -> (r: ContentPart)
        ensures
            r@ == PartView::Text(s@),
    {
        ContentPart::Text { text: s.to_owned() }
    }

    /// An image behind a link.
    pub fn image_url(url: &str) -> (r: ContentPart)
        ensures
            r@ == PartView::ImageUrl(url@),
    {
        ContentPart::ImageUrl { url: url.to_owned() }
    }

    /// An embedded image.
    pub fn image_base64(media_type: &str, data: &str) -> (r: ContentPart)
        ensures
            r@ == PartView::ImageBase64(media_type@, data@),
    {
        ContentPart::ImageBase64 { media_type: media_type.to_owned(), data: data.to_owned() }
    }

    pub fn copy(&self) -> (r: ContentPart)
        ensures
            r@ == self@,
    {
        match self {
            ContentPart::Text { text } => ContentPart::Text { text: text.clone() },
            ContentPart::ImageUrl { url } => ContentPart::ImageUrl { url: url.clone() },
            ContentPart::ImageBase64 { media_type, data } => ContentPart::ImageBase64 {
                media_type: media_type.clone(),
                data: data.clone(),
            },
            ContentPart::Audio { data, format } => ContentPart::Audio {
                data: data.clone(),
                format: format.clone(),
            },
            ContentPart::File { file_id, filename, media_type, data, rendered } => ContentPart::File {
                file_id: copy_option_text(file_id),
                filename: copy_option_text(filename),
                media_type: copy_option_text(media_type),
                data: copy_option_text(data),
                rendered: copy_option_text(rendered),
            },
        }
    }
}

/// The texts of the text parts, in order.
pub open spec fn text_parts(parts: Seq<PartView>) -> Seq<Seq<char>>
    decreases parts.len(),
{
    if parts.len() == 0 {
        Seq::empty()
    } else {
        match parts.last() {
            PartView::Text(t) => text_parts(parts.drop_last()).push(t),
            _ => text_parts(parts.drop_last()),
        }
    }
}

/// The text of a content: the text itself, or its text parts on lines of their
/// own.
pub open spec fn content_text(content: ContentView) -> Seq<char> {
    match content {
        ContentView::Text(t) => t,
        ContentView::Parts(parts) => joined(text_parts(parts), "\n"@),
    }
}

impl Content {
    /// Content that is text.
    pub fn text(s: &str) -> (r: Content)
        ensures
            r@ == ContentView::Text(s@),
    {
        Content::Text(s.to_owned())
    }

    /// Content of several parts.
    pub fn parts(parts: Vec<ContentPart>) -> (r: Content)
        ensures
            r@ == ContentView::Parts(part_views(parts@)),
    {
        Content::Parts(parts)
    }

    /// Whether the content is made of parts.
    pub fn is_multimodal(&self) -> (r: bool)
        ensures
            r == (self@ is Parts),
    {
        matches!(self, Content::Parts(_))
    }

    /// The text of the content.
    pub fn text_content(&self) -> (r: String)
        ensures
            r@ == content_text(self@),
    {
        match self {
            Content::Text(text) => text.clone(),
            Content::Parts(parts) => {
                let mut found: Vec<String> = Vec::new();
                let mut i: usize = 0;
                let ghost views = part_views(parts@);
                while i < parts.len()
                    invariant
                        i <= parts.len(),
                        views == part_views(parts@),
                        texts(found@) == text_parts(views.take(i as int)),
                    decreases parts.len() - i,
                {
                    let ghost before = texts(found@);
                    assert(views.take(i + 1).drop_last() =~= views.take(i as int));
                    assert(views.take(i + 1).last() == parts@[i as int]@);
                    if let ContentPart::Text { text } = &parts[i] {
                        found.push(text.clone());
                        assert(texts(found@) =~= before.push(text@));
                    }
                    i += 1;
                }
                assert(views.take(i as int) =~= views);
                join(&found, "\n")
            },
        }
    }

    pub fn copy(&self) -> (r: Content)
        ensures
            r@ == self@,
    {
        match self {
            Content::Text(text) => Content::Text(text.clone()),
            Content::Parts(parts) => {
                let mut out: Vec<ContentPart> = Vec::new();
                let mut i: usize = 0;
                while i < parts.len()
                    invariant
                        i <= parts.len(),
                        out.len() == i,
                        forall|j: int| 0 <= j < i ==> (#[trigger] out@[j])@ == parts@[j]@,
                    decreases parts.len() - i,
                {
                    out.push(parts[i].copy());
                    i += 1;
                }
                assert(part_views(out@) =~= part_views(parts@));
                Content::Parts(out)
            },
        }
    }
}

impl ToolCallMessage {
    pub fn copy(&self) -> (r: ToolCallMessage)
        ensures
            r@ == self@,
    {
        ToolCallMessage {
            id: self.id.clone(),
            name: self.name.clone(),
            arguments: self.arguments.clone(),
            rendered: self.rendered.clone(),
        }
    }
}

impl Message {
    /// A message of `role` that says `text`.
    pub fn plain(role: Role, text: &str) -> (r: Message)
        ensures
            r@ == plain_message(role, text@),
    {
        Message {
            role,
            content: Content::text(text),
            tool_calls: None,
            tool_call_id: None,
            name: None,
            reasoning_content: None,
            metadata: None,
        }
    }

    pub fn system(text: &str) -> (r: Message)
        ensures
            r@ == plain_message(Role::System, text@),
    {
        Message::plain(Role::System, text)
    }

    pub fn user(text: &str) -> (r: Message)
        ensures
            r@ == plain_message(Role::User, text@),
    {
        Message::plain(Role::User, text)
    }

    pub fn assistant(text: &str) -> (r: Message)
        ensures
            r@ == plain_message(Role::Assistant, text@),
    {
        Message::plain(Role::Assistant, text)
    }

    /// A user message with the given content.
    pub fn user_content(content: Content) -> (r: Message)
        ensures
            r@ == (MessageView { content: content@, ..plain_message(Role::User, seq![]) }),
    {
        Message {
            role: Role::User,
            content,
            tool_calls: None,
            tool_call_id: None,
            name: None,
            reasoning_content: None,
            metadata: None,
        }
    }

    pub fn copy(&self) -> (r: Message)
        ensures
            r@ == self@,
    {
        let tool_calls = match &self.tool_calls {
            Some(calls) => {
                let mut out: Vec<ToolCallMessage> = Vec::new();
                let mut i: usize = 0;
                while i < calls.len()
                    invariant
                        i <= calls.len(),
                        out.len() == i,
                        forall|j: int| 0 <= j < i ==> (#[trigger] out@[j])@ == calls@[j]@,
                    decreases calls.len() - i,
                {
                    out.push(calls[i].copy());
                    i += 1;
                }
                assert(call_views(out@) =~= call_views(calls@));
                Some(out)
            },
            None => None,
        };
        let metadata = match &self.metadata {
            Some(m) => Some(m.copy()),
            None => None,
        };
        Message {
            role: self.role,
            content: self.content.copy(),
            tool_calls,
            tool_call_id: copy_option_text(&self.tool_call_id),
            name: copy_option_text(&self.name),
            reasoning_content: copy_option_text(&self.reasoning_content),
            metadata,
        }
    }
}

/// Copies of the messages.
pub fn copy_messages(messages: &Vec<Message>) -> (r: Vec<Message>)
    ensures
        message_views(r@) == message_views(messages@),
{
    let mut out: Vec<Message> = Vec::new();
    let mut i: usize = 0;
    while i < messages.len()
        invariant
            i <= messages.len(),
            out.len() == i,
            forall|j: int| 0 <= j < i ==> (#[trigger] out@[j])@ == messages@[j]@,
        decreases messages.len() - i,
    {
        out.push(messages[i].copy());
        i += 1;
    }
    assert(message_views(out@) =~= message_views(messages@));
    out
}

/// `history` with a system message saying `prompt` at `index`, or at the end
/// where it has fewer messages.
pub open spec fn with_system_at(
    history: Seq<MessageView>,
    index: int,
    prompt: Seq<char>,
) -> Seq<MessageView> {
    let at = if index <= history.len() {
        index
    } else {
        history.len() as int
    };
    history.insert(at, plain_message(Role::System, prompt))
}

/// Puts a system message into a history, at `index` or at the end.
pub fn insert_system(history: &mut Vec<Message>, index: usize, prompt: &str)
    ensures
        message_views(final(history)@) == with_system_at(
            message_views(old(history)@),
            index as int,
            prompt@,
        ),
{
    let ghost before = history@;
    let at: usize = if index <= history.len() {
        index
    } else {
        history.len()
    };
    let message = Message::system(prompt);
    let ghost view = message@;
    history.insert(at, message);
    assert(message_views(history@) =~= message_views(before).insert(at as int, view));
}

/// Putting a system message into a history keeps all that stands in it, in its
/// order, adds nothing else, and the message is there.
pub proof fn a_prompt_displaces_nothing(history: Seq<MessageView>, index: int, prompt: Seq<char>)
    requires
        index >= 0,
    ensures
        ({
            let r = with_system_at(history, index, prompt);
            &&& r.len() == history.len() + 1
            &&& subsequence(history, r)
            &&& r.contains(plain_message(Role::System, prompt))
            &&& index <= history.len() ==> r[index] == plain_message(Role::System, prompt)
        }),
{
    lemma_subsequence_of_itself(history);
    lemma_prompt_keeps(history, history, index, prompt);
    let r = with_system_at(history, index, prompt);
    let at = if index <= history.len() {
        index
    } else {
        history.len() as int
    };
    assert(r[at] == plain_message(Role::System, prompt));
}

/// What stands in a history still stands in it once a system message was put in.
pub proof fn lemma_prompt_keeps(
    small: Seq<MessageView>,
    history: Seq<MessageView>,
    index: int,
    prompt: Seq<char>,
)
    requires
        index >= 0,
        subsequence(small, history),
    ensures
        subsequence(small, with_system_at(history, index, prompt)),
        with_system_at(history, index, prompt).len() == history.len() + 1,
        forall|m: MessageView|
            history.contains(m) ==> #[trigger] with_system_at(history, index, prompt).contains(m),
{
    let at = if index <= history.len() {
        index
    } else {
        history.len() as int
    };
    let x = plain_message(Role::System, prompt);
    lemma_inserting_keeps(small, history, at, x);
    assert forall|m: MessageView| history.contains(m) implies #[trigger] with_system_at(
        history,
        index,
        prompt,
    ).contains(m) by {
        let k = choose|k: int| 0 <= k < history.len() && history[k] == m;
        let r = with_system_at(history, index, prompt);
        if k < at {
            assert(r[k] == m);
        } else {
            assert(r[k + 1] == m);
        }
    }
}

/// The text of a message with parts holds each text in it.
pub proof fn every_text_is_told(parts: Seq<PartView>, i: int)
    requires
        0 <= i < parts.len(),
    ensures
        parts[i] matches PartView::Text(t) ==> occurs(content_text(ContentView::Parts(parts)), t),
{
    if parts[i] is Text {
        lemma_text_parts_have(parts, i);
        let all = text_parts(parts);
        let k = choose|k: int| 0 <= k < all.len() && all[k] == parts[i]->Text_0;
        what_is_joined_is_there(all, "\n"@, k);
    }
}

proof fn lemma_text_parts_have(parts: Seq<PartView>, i: int)
    requires
        0 <= i < parts.len(),
        parts[i] is Text,
    ensures
        text_parts(parts).contains(parts[i]->Text_0),
    decreases parts.len(),
{
    let x = parts[i]->Text_0;
    let all = text_parts(parts);
    if i < parts.len() - 1 {
        let head = text_parts(parts.drop_last());
        assert(parts.drop_last()[i] == parts[i]);
        lemma_text_parts_have(parts.drop_last(), i);
        let k = choose|k: int| 0 <= k < head.len() && head[k] == x;
        assert(all[k] == x);
    } else {
        assert(all[all.len() - 1] == x);
    }
}

} // verus!
