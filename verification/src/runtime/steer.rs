//! Input that arrives while a turn runs.
use vstd::prelude::*;
use vstd::string::*;

use crate::json::{lemma_field_push, member, no_fields, JsonMap, JsonValue, JsonView};
use crate::message::{content_text, option_text, Content, ContentView};
use crate::outside::fresh_id;
use crate::runtime::options::{lemma_text_field, option_value, with_text, with_text_field};
use crate::text::{first_chars, take_chars, trim, trimmed};
use crate::text_map::{
    keys_ordered, set_value_is_read_back, setting_keeps_order, taken_value_is_gone, value_of,
    TextMap,
};

verus! {

broadcast use vstd::string::group_string_axioms;

/// Where queued input comes from.
#[derive(Debug, Clone, Copy, PartialEq, Eq, Structural)]
pub enum SteerSource {
    User,
    UserNextTurn,
    BackgroundToolCompletion,
}

/// Input for a session that may be running.
#[derive(Debug)]
pub struct SteerInput {
    pub session_id: String,
    pub content: Content,
    pub sender_user_id: Option<String>,
    pub sender_username: Option<String>,
    pub message_id: Option<String>,
    pub chat_type: Option<String>,
    pub platform: Option<String>,
}

/// Input that waits in a queue.
#[derive(Debug)]
pub struct QueuedInput {
    pub id: String,
    pub content: Content,
    pub preview: String,
    pub message_metadata: Option<JsonValue>,
    pub user_name: Option<String>,
    pub source: SteerSource,
}

pub struct QueuedView {
    pub id: Seq<char>,
    pub content: ContentView,
    pub preview: Seq<char>,
    pub message_metadata: Option<JsonView>,
    pub user_name: Option<Seq<char>>,
    pub source: SteerSource,
}

impl View for QueuedInput {
    type V = QueuedView;

    open spec fn view(&self) -> QueuedView {
        QueuedView {
            id: self.id@,
            content: self.content@,
            preview: self.preview@,
            message_metadata: option_value(self.message_metadata),
            user_name: option_text(self.user_name),
            source: self.source,
        }
    }
}

/// What is told of input that was queued.
#[derive(Debug, Clone, PartialEq, Eq)]
pub struct SteerQueuedEvent {
    pub steer_id: String,
    pub session_id: String,
    pub preview: String,
}

/// What became of input.
#[derive(Debug, Clone, PartialEq, Eq)]
pub enum SteerSubmitResult {
    Queued(SteerQueuedEvent),
    NotRunning,
}

/// How much of an input its preview shows.
pub open spec fn preview_chars() -> int {
    120
}

/// The beginning of an input.
pub open spec fn preview_of(content: ContentView) -> Seq<char> {
    let text = trimmed(content_text(content));
    if text.len() > preview_chars() {
        first_chars(text, preview_chars()).push('…')
    } else {
        text
    }
}

/// The beginning of an input.
pub fn steer_preview(content: &Content) -> (r: String)
    ensures
        r@ == preview_of(content@),
{
    let text = trim(&content.text_content());
    let mut preview = take_chars(&text, 120);
    if text.as_str().unicode_len() > 120 {
        preview.push('…');
    }
    preview
}

/// What is noted about queued input.
pub open spec fn steer_fields(input: SteerInput) -> Seq<(Seq<char>, JsonView)> {
    let f = no_fields().push(("steer"@, JsonView::Bool(true)));
    let f = with_text_field(f, "message_id"@, option_text(input.message_id));
    let f = with_text_field(f, "chat_type"@, option_text(input.chat_type));
    let f = with_text_field(f, "platform"@, option_text(input.platform));
    with_text_field(f, "sender_user_id"@, option_text(input.sender_user_id))
}

/// What is noted about queued input.
pub fn steer_message_metadata(input: &SteerInput) -> (r: Option<JsonValue>)
    ensures
        option_value(r) == Some(JsonView::Object(steer_fields(*input))),
{
    let map = JsonMap::new().with("steer", JsonValue::Bool(true));
    let map = with_text(map, "message_id", &input.message_id);
    let map = with_text(map, "chat_type", &input.chat_type);
    let map = with_text(map, "platform", &input.platform);
    let map = with_text(map, "sender_user_id", &input.sender_user_id);
    Some(JsonValue::object(map))
}

pub open spec fn queued_of(input: SteerInput, source: SteerSource, id: Seq<char>) -> QueuedView {
    QueuedView {
        id,
        content: input.content@,
        preview: preview_of(input.content@),
        message_metadata: Some(JsonView::Object(steer_fields(input))),
        user_name: option_text(input.sender_username),
        source,
    }
}

pub open spec fn queued_views(queue: Vec<QueuedInput>) -> Seq<QueuedView> {
    queue@.map_values(|q: QueuedInput| q@)
}

/// The queues of the sessions that run.
#[derive(Debug)]
pub struct SteerQueues {
    pub active: TextMap<Vec<QueuedInput>>,
}

impl SteerQueues {
    /// No session has two queues.
    pub open spec fn wf(&self) -> bool {
        keys_ordered(self.active@)
    }

    /// What waits for a session, where it runs.
    pub open spec fn waiting(&self, session: Seq<char>) -> Option<Seq<QueuedView>> {
        match value_of(self.active@, session) {
            Some(queue) => Some(queued_views(queue)),
            None => None,
        }
    }

    pub fn new() -> (r: SteerQueues)
        ensures
            r.wf(),
            forall|session: Seq<char>| (#[trigger] r.waiting(session)) is None,
    {
        let r = SteerQueues { active: TextMap::new() };
        assert forall|session: Seq<char>| (#[trigger] r.waiting(session)) is None by {
            assert(value_of(r.active@, session) is None);
        }
        r
    }

    /// Opens a queue for a session, unless it has one: then the one that opened
    /// it closes it.
    pub fn register(&mut self, session_id: &str) -> (opened: bool)
        requires
            old(self).wf(),
        ensures
            final(self).wf(),
            opened == (old(self).waiting(session_id@) is None),
            final(self).waiting(session_id@) == if opened {
                Some(Seq::<QueuedView>::empty())
            } else {
                old(self).waiting(session_id@)
            },
            forall|other: Seq<char>|
                other != session_id@ ==> (#[trigger] final(self).waiting(other)) == old(
                    self,
                ).waiting(other),
    {
        if self.active.contains_key(session_id) {
            return false;
        }
        let queue: Vec<QueuedInput> = Vec::new();
        let ghost before = self.active@;
        proof {
            setting_keeps_order(before, session_id@, queue);
            set_value_is_read_back(before, session_id@, queue, session_id@);
        }
        assert(queued_views(queue) =~= Seq::<QueuedView>::empty());
        self.active.insert(session_id.to_owned(), queue);
        assert forall|other: Seq<char>| other != session_id@ implies (#[trigger] self.waiting(other))
            == old(self).waiting(other) by {
            set_value_is_read_back(before, session_id@, queue, other);
        }
        true
    }

    /// Closes the queue of a session, where the caller opened it.
    pub fn release(&mut self, session_id: &str, opened: bool)
        requires
            old(self).wf(),
        ensures
            final(self).wf(),
            final(self).waiting(session_id@) == if opened {
                None
            } else {
                old(self).waiting(session_id@)
            },
            forall|other: Seq<char>|
                other != session_id@ ==> (#[trigger] final(self).waiting(other)) == old(
                    self,
                ).waiting(other),
    {
        if !opened {
            return;
        }
        let ghost before = self.active@;
        let _ = self.active.remove(session_id);
        proof {
            taken_value_is_gone(before, session_id@, session_id@);
            assert forall|other: Seq<char>| other != session_id@ implies (#[trigger] self.waiting(
                other,
            )) == old(self).waiting(other) by {
                taken_value_is_gone(before, session_id@, other);
            }
        }
    }

    /// Queues input under an id, where its session runs.
    pub fn submit_as(&mut self, input: SteerInput, source: SteerSource, id: String) -> (r:
        SteerSubmitResult)
        requires
            old(self).wf(),
        ensures
            final(self).wf(),
            match old(self).waiting(input.session_id@) {
                None => r is NotRunning && final(self).waiting(input.session_id@) is None,
                Some(queue) => {
                    &&& r matches SteerSubmitResult::Queued(event)
                    &&& event.steer_id@ == id@
                    &&& event.session_id@ == input.session_id@
                    &&& event.preview@ == preview_of(input.content@)
                    &&& final(self).waiting(input.session_id@) == Some(
                        queue.push(queued_of(input, source, id@)),
                    )
                },
            },
            forall|other: Seq<char>|
                other != input.session_id@ ==> (#[trigger] final(self).waiting(other)) == old(
                    self,
                ).waiting(other),
    {
        let ghost before = self.active@;
        let ghost session = input.session_id@;
        let preview = steer_preview(&input.content);
        let message_metadata = steer_message_metadata(&input);
        let ghost queued = queued_of(input, source, id@);
        match self.active.remove(&input.session_id) {
            None => {
                proof {
                    taken_value_is_gone(before, session, session);
                    assert forall|other: Seq<char>| other != session implies (
                    #[trigger] self.waiting(other)) == old(self).waiting(other) by {
                        taken_value_is_gone(before, session, other);
                    }
                }
                SteerSubmitResult::NotRunning
            },
            Some(q) => {
                let mut queue = q;
                let ghost old_views = queued_views(queue);
                queue.push(
                    QueuedInput {
                        id: id.clone(),
                        content: input.content,
                        preview: preview.clone(),
                        message_metadata,
                        user_name: input.sender_username,
                        source,
                    },
                );
                assert(queued_views(queue) =~= old_views.push(queued));
                let ghost middle = self.active@;
                self.active.insert(input.session_id.clone(), queue);
                proof {
                    taken_value_is_gone(before, session, session);
                    setting_keeps_order(middle, session, queue);
                    set_value_is_read_back(middle, session, queue, session);
                    assert forall|other: Seq<char>| other != session implies (
                    #[trigger] self.waiting(other)) == old(self).waiting(other) by {
                        taken_value_is_gone(before, session, other);
                        set_value_is_read_back(middle, session, queue, other);
                    }
                }
                SteerSubmitResult::Queued(
                    SteerQueuedEvent { steer_id: id, session_id: input.session_id, preview },
                )
            },
        }
    }

    /// Queues input under a fresh id, where its session runs.
    pub fn submit_queued_input(&mut self, input: SteerInput, source: SteerSource) -> (r:
        SteerSubmitResult)
        requires
            old(self).wf(),
        ensures
            final(self).wf(),
            (r is NotRunning) == (old(self).waiting(input.session_id@) is None),
            r is NotRunning ==> final(self).waiting(input.session_id@) is None,
            r matches SteerSubmitResult::Queued(event) ==> {
                &&& event.steer_id@.len() == 36
                &&& event.session_id@ == input.session_id@
                &&& event.preview@ == preview_of(input.content@)
                &&& final(self).waiting(input.session_id@) == Some(
                    old(self).waiting(input.session_id@)->0.push(
                        queued_of(input, source, event.steer_id@),
                    ),
                )
            },
            forall|other: Seq<char>|
                other != input.session_id@ ==> (#[trigger] final(self).waiting(other)) == old(
                    self,
                ).waiting(other),
    {
        self.submit_as(input, source, fresh_id())
    }
}

// ------------------------------------------------------------------------ its laws

/// A preview is the text without the white space round it: the whole where it is
/// short, and else its beginning and a mark that more follows.
pub proof fn previews_begin_like_the_text(content: ContentView)
    ensures
        ({
            let text = trimmed(content_text(content));
            let p = preview_of(content);
            &&& text.len() <= 120 ==> p == text
            &&& text.len() > 120 ==> p.len() == 121 && p.drop_last() == text.take(120) && p.last()
                == '…'
        }),
{
    let text = trimmed(content_text(content));
    if text.len() > 120 {
        assert(preview_of(content).drop_last() =~= text.take(120));
    }
}

/// What is queued is what was said, by whom, and where from; and it is marked as
/// said during a turn.
pub proof fn what_is_queued_is_what_was_said(input: SteerInput, source: SteerSource, id: Seq<char>)
    ensures
        ({
            let q = queued_of(input, source, id);
            let m = q.message_metadata->0;
            let text = |t: Option<Seq<char>>| match t {
                Some(s) => Some(JsonView::Text(s)),
                None => None::<JsonView>,
            };
            &&& q.id == id
            &&& q.content == input.content@
            &&& q.source == source
            &&& q.user_name == option_text(input.sender_username)
            &&& q.message_metadata is Some
            &&& member(m, "steer"@) == Some(JsonView::Bool(true))
            &&& member(m, "message_id"@) == text(option_text(input.message_id))
            &&& member(m, "chat_type"@) == text(option_text(input.chat_type))
            &&& member(m, "platform"@) == text(option_text(input.platform))
            &&& member(m, "sender_user_id"@) == text(option_text(input.sender_user_id))
        }),
{
    reveal_strlit("steer");
    reveal_strlit("message_id");
    reveal_strlit("chat_type");
    reveal_strlit("platform");
    reveal_strlit("sender_user_id");
    let k0 = "steer"@;
    let k1 = "message_id"@;
    let k2 = "chat_type"@;
    let k3 = "platform"@;
    let k4 = "sender_user_id"@;
    let f0 = no_fields().push((k0, JsonView::Bool(true)));
    let f1 = with_text_field(f0, k1, option_text(input.message_id));
    let f2 = with_text_field(f1, k2, option_text(input.chat_type));
    let f3 = with_text_field(f2, k3, option_text(input.platform));
    let f4 = with_text_field(f3, k4, option_text(input.sender_user_id));
    assert(f4 == steer_fields(input));
    assert(k0.len() == 5 && k1.len() == 10 && k2.len() == 9 && k3.len() == 8 && k4.len() == 14);
    lemma_field_push(no_fields(), (k0, JsonView::Bool(true)), k0);
    lemma_field_push(no_fields(), (k0, JsonView::Bool(true)), k1);
    lemma_field_push(no_fields(), (k0, JsonView::Bool(true)), k2);
    lemma_field_push(no_fields(), (k0, JsonView::Bool(true)), k3);
    lemma_field_push(no_fields(), (k0, JsonView::Bool(true)), k4);
    lemma_text_field(f0, k1, option_text(input.message_id), k0);
    lemma_text_field(f0, k1, option_text(input.message_id), k2);
    lemma_text_field(f0, k1, option_text(input.message_id), k3);
    lemma_text_field(f0, k1, option_text(input.message_id), k4);
    lemma_text_field(f1, k2, option_text(input.chat_type), k0);
    lemma_text_field(f1, k2, option_text(input.chat_type), k1);
    lemma_text_field(f1, k2, option_text(input.chat_type), k3);
    lemma_text_field(f1, k2, option_text(input.chat_type), k4);
    lemma_text_field(f2, k3, option_text(input.platform), k0);
    lemma_text_field(f2, k3, option_text(input.platform), k1);
    lemma_text_field(f2, k3, option_text(input.platform), k2);
    lemma_text_field(f2, k3, option_text(input.platform), k4);
    lemma_text_field(f3, k4, option_text(input.sender_user_id), k0);
    lemma_text_field(f3, k4, option_text(input.sender_user_id), k1);
    lemma_text_field(f3, k4, option_text(input.sender_user_id), k2);
    lemma_text_field(f3, k4, option_text(input.sender_user_id), k3);
}

} // verus!
