//! What a turn leaves in memory.
use vstd::prelude::*;
use vstd::string::*;

use crate::json::{
    member, no_fields, set_field_is_read_back, with_field, JsonMap, JsonValue, JsonView,
    NumberView,
};
use crate::message::{message_views, Message, MessageView};
use crate::runtime::options::option_value;
use crate::text_map::{value_of, TextMap};

verus! {

broadcast use vstd::string::group_string_axioms;

/// `message`, with the time that its tool took where that is known.
pub open spec fn timed(message: MessageView, elapsed: Seq<(Seq<char>, u64)>) -> MessageView {
    match message.tool_call_id {
        Some(id) => match value_of(elapsed, id) {
            Some(ms) => {
                let number = JsonView::Number(NumberView::Unsigned(ms));
                match message.metadata {
                    Some(JsonView::Object(fields)) => MessageView {
                        metadata: Some(
                            JsonView::Object(with_field(fields, "tool_elapsed_ms"@, number)),
                        ),
                        ..message
                    },
                    Some(_) => message,
                    None => MessageView {
                        metadata: Some(
                            JsonView::Object(with_field(no_fields(), "tool_elapsed_ms"@, number)),
                        ),
                        ..message
                    },
                }
            },
            None => message,
        },
        None => message,
    }
}

pub open spec fn all_timed(messages: Seq<MessageView>, elapsed: Seq<(Seq<char>, u64)>) -> Seq<
    MessageView,
> {
    messages.map_values(|m: MessageView| timed(m, elapsed))
}

fn annotate(message: Message, elapsed: &TextMap<u64>) -> (r: Message)
    ensures
        r@ == timed(message@, elapsed@),
{
    let mut message = message;
    let ms: u64 = match &message.tool_call_id {
        Some(id) => match elapsed.get(id) {
            Some(ms) => *ms,
            None => return message,
        },
        None => return message,
    };
    let metadata = message.metadata;
    message.metadata = match metadata {
        Some(JsonValue::Object(map)) => {
            let mut map = map;
            map.insert("tool_elapsed_ms", JsonValue::unsigned(ms));
            Some(JsonValue::object(map))
        },
        Some(other) => Some(other),
        None => {
            let mut map = JsonMap::new();
            map.insert("tool_elapsed_ms", JsonValue::unsigned(ms));
            Some(JsonValue::object(map))
        },
    };
    message
}

/// Notes with each tool's answer how long the tool took.
pub fn annotate_tool_elapsed_ms(messages: Vec<Message>, tool_elapsed_ms: &TextMap<u64>) -> (r: Vec<
    Message,
>)
    ensures
        message_views(r@) == all_timed(message_views(messages@), tool_elapsed_ms@),
{
    let ghost all = message_views(messages@);
    let mut out: Vec<Message> = Vec::new();
    let mut i: usize = 0;
    while i < messages.len()
        invariant
            i <= messages.len(),
            all == message_views(messages@),
            out.len() == i,
            forall|j: int|
                0 <= j < i ==> (#[trigger] out@[j])@ == timed(all[j], tool_elapsed_ms@),
        decreases messages.len() - i,
    {
        assert(all[i as int] == messages@[i as int]@);
        out.push(annotate(messages[i].copy(), tool_elapsed_ms));
        i += 1;
    }
    assert(message_views(out@) =~= all_timed(all, tool_elapsed_ms@));
    out
}

/// The messages of a history behind those that it began with.
pub open spec fn fresh_messages(history: Seq<MessageView>, skip: int) -> Seq<MessageView> {
    if skip < history.len() {
        history.skip(skip)
    } else {
        Seq::empty()
    }
}

/// What is to be written after a turn.
#[derive(Debug)]
pub struct TurnRecord {
    pub messages: Option<Vec<Message>>,
    pub user_state: Option<JsonValue>,
}

pub struct RecordView {
    pub messages: Option<Seq<MessageView>>,
    pub user_state: Option<JsonView>,
}

pub open spec fn history_view(history: Option<Vec<Message>>) -> Option<Seq<MessageView>> {
    match history {
        Some(h) => Some(message_views(h@)),
        None => None,
    }
}

impl View for TurnRecord {
    type V = RecordView;

    open spec fn view(&self) -> RecordView {
        RecordView {
            messages: history_view(self.messages),
            user_state: option_value(self.user_state),
        }
    }
}

/// What is to be written of a history that began with `skip` messages, with the
/// times of its tools, and of a state: only messages that are new.
pub open spec fn turn_record(
    history: Option<Seq<MessageView>>,
    user_state: Option<JsonView>,
    skip: int,
    elapsed: Seq<(Seq<char>, u64)>,
) -> RecordView {
    RecordView {
        messages: match history {
            Some(all) => {
                let fresh = fresh_messages(all, skip);
                if fresh.len() == 0 {
                    None
                } else {
                    Some(all_timed(fresh, elapsed))
                }
            },
            None => None,
        },
        user_state,
    }
}

/// What is to be written after a turn: the messages that the turn added, with
/// the times of its tools, where it added any; and the state, where it has one.
pub fn persist_turn(
    history: Option<Vec<Message>>,
    user_state: Option<JsonValue>,
    skip_count: usize,
    tool_elapsed_ms: &TextMap<u64>,
) -> (r: TurnRecord)
    ensures
        r@ == turn_record(
            history_view(history),
            option_value(user_state),
            skip_count as int,
            tool_elapsed_ms@,
        ),
{
    let messages = match history {
        Some(all) => if skip_count < all.len() {
            let ghost views = message_views(all@);
            let mut fresh: Vec<Message> = Vec::new();
            let mut i: usize = skip_count;
            while i < all.len()
                invariant
                    skip_count <= i <= all.len(),
                    views == message_views(all@),
                    fresh.len() == i - skip_count,
                    forall|j: int|
                        0 <= j < fresh.len() ==> (#[trigger] fresh@[j])@ == views[j + skip_count],
                decreases all.len() - i,
            {
                assert(views[i as int] == all@[i as int]@);
                fresh.push(all[i].copy());
                i += 1;
            }
            assert(message_views(fresh@) =~= views.skip(skip_count as int));
            Some(annotate_tool_elapsed_ms(fresh, tool_elapsed_ms))
        } else {
            None
        },
        None => None,
    };
    TurnRecord { messages, user_state }
}

/// A turn is written as it went: as many messages as it added, each with its
/// own content and role.
pub proof fn records_keep_what_was_said(messages: Seq<MessageView>, elapsed: Seq<(Seq<char>, u64)>)
    ensures
        all_timed(messages, elapsed).len() == messages.len(),
        forall|i: int|
            0 <= i < messages.len() ==> {
                let kept = #[trigger] all_timed(messages, elapsed)[i];
                &&& kept.content == messages[i].content
                &&& kept.role == messages[i].role
                &&& kept.tool_call_id == messages[i].tool_call_id
                &&& kept.tool_calls == messages[i].tool_calls
                &&& kept.reasoning_content == messages[i].reasoning_content
            },
{
}

/// What a tool took is noted on the message that answers its call, beside what is
/// noted there; every other message stays as it is.
pub proof fn tool_times_are_noted(
    message: MessageView,
    elapsed: Seq<(Seq<char>, u64)>,
    other: Seq<char>,
)
    ensures
        ({
            let r = timed(message, elapsed);
            let took = match message.tool_call_id {
                Some(id) => value_of(elapsed, id),
                None => None,
            };
            let room = message.metadata is None || message.metadata->0 is Object;
            if took is Some && room {
                &&& r.metadata is Some
                &&& member(r.metadata->0, "tool_elapsed_ms"@) == Some(
                    JsonView::Number(NumberView::Unsigned(took->0)),
                )
                &&& other != "tool_elapsed_ms"@ ==> member(r.metadata->0, other) == (
                match message.metadata {
                    Some(m) => member(m, other),
                    None => None,
                })
                &&& r == MessageView { metadata: r.metadata, ..message }
            } else {
                r == message
            }
        }),
{
    if message.tool_call_id is Some && value_of(elapsed, message.tool_call_id->0) is Some {
        let number = JsonView::Number(
            NumberView::Unsigned(value_of(elapsed, message.tool_call_id->0)->0),
        );
        if message.metadata is Some && message.metadata->0 is Object {
            set_field_is_read_back(
                message.metadata->0->Object_0,
                "tool_elapsed_ms"@,
                number,
                other,
            );
        }
        set_field_is_read_back(no_fields(), "tool_elapsed_ms"@, number, other);
    }
}

/// A record holds what came behind what was there before, all of it, and the state as
/// it is; nothing where nothing came.
pub proof fn records_hold_what_is_new(
    before: Seq<MessageView>,
    new: Seq<MessageView>,
    user_state: Option<JsonView>,
    elapsed: Seq<(Seq<char>, u64)>,
)
    ensures
        ({
            let r = turn_record(Some(before + new), user_state, before.len() as int, elapsed);
            &&& r.user_state == user_state
            &&& new.len() == 0 ==> r.messages is None
            &&& new.len() > 0 ==> r.messages is Some && r.messages->0.len() == new.len()
            &&& forall|i: int|
                0 <= i < new.len() ==> (#[trigger] r.messages->0[i]).content == new[i].content
                    && r.messages->0[i].role == new[i].role
        }),
        turn_record(None, user_state, before.len() as int, elapsed) == (RecordView {
            messages: None,
            user_state,
        }),
{
    let all = before + new;
    if new.len() > 0 {
        assert(all.skip(before.len() as int) =~= new);
        records_keep_what_was_said(new, elapsed);
    }
}

/// Where nothing came behind what was there before, no message is recorded.
pub proof fn nothing_new_is_not_recorded(
    history: Seq<MessageView>,
    user_state: Option<JsonView>,
    skip: int,
    elapsed: Seq<(Seq<char>, u64)>,
)
    requires
        skip >= history.len(),
    ensures
        fresh_messages(history, skip).len() == 0,
        turn_record(Some(history), user_state, skip, elapsed).messages is None,
{
}

} // verus!
