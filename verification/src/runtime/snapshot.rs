//! What a request to a model is made of.
use vstd::prelude::*;
use vstd::string::*;

use crate::json::{json_pretty_text, render_json_pretty, JsonValue, JsonView};
use crate::message::{
    call_views, message_views, option_text, part_views, CallView, Content, ContentPart, ContentView,
    Message, MessageView, PartView, Role,
};
use crate::outside::{current_time_text, fresh_id};
use crate::runtime::options::{option_value, said, said_text};
use crate::text::{
    byte_size, contains_text, decimal, decimal_text, join, joined, occurs, size_in_bytes,
    starts_with, texts, what_is_joined_is_there,
};
use crate::tokens::{estimate_model_input_tokens, token_estimate};

verus! {

broadcast use vstd::string::group_string_axioms;

#[derive(Debug, Clone, Copy, PartialEq, Eq, Structural)]
pub enum ModelInputSegmentCategory {
    SystemPrompt,
    SkillInjection,
    History,
    ToolInput,
    ToolOutput,
    CurrentUser,
    Metadata,
    UserState,
}

/// A piece of a request, and about how many tokens it takes.
#[derive(Debug, Clone, PartialEq, Eq)]
pub struct ModelInputSegment {
    pub id: String,
    pub category: ModelInputSegmentCategory,
    pub role: Option<String>,
    pub title: String,
    pub content: String,
    pub token_estimate: u32,
}

pub struct SegmentView {
    pub id: Seq<char>,
    pub category: ModelInputSegmentCategory,
    pub role: Option<Seq<char>>,
    pub title: Seq<char>,
    pub content: Seq<char>,
    pub token_estimate: nat,
}

impl View for ModelInputSegment {
    type V = SegmentView;

    open spec fn view(&self) -> SegmentView {
        SegmentView {
            id: self.id@,
            category: self.category,
            role: option_text(self.role),
            title: self.title@,
            content: self.content@,
            token_estimate: self.token_estimate as nat,
        }
    }
}

pub open spec fn segment_views(s: Seq<ModelInputSegment>) -> Seq<SegmentView> {
    s.map_values(|x: ModelInputSegment| x@)
}

// ------------------------------------------------------------------------ text

/// A part of a message as a model takes it.
pub open spec fn part_text(part: PartView) -> Seq<char> {
    match part {
        PartView::Text(t) => t,
        PartView::ImageUrl(url) => "[image_url] "@ + url,
        PartView::ImageBase64(media, data) => "[image_base64] "@ + media + ", "@ + decimal(
            byte_size(data) as nat,
        ) + " bytes"@,
        PartView::Audio(_, _) => "[audio]"@,
        PartView::File { rendered, .. } => match rendered {
            Some(t) => t,
            None => "[file]"@,
        },
    }
}

pub open spec fn part_texts(parts: Seq<PartView>) -> Seq<Seq<char>> {
    parts.map_values(|p: PartView| part_text(p))
}

/// A content as a model takes it.
pub open spec fn input_text(content: ContentView) -> Seq<char> {
    match content {
        ContentView::Text(t) => t,
        ContentView::Parts(parts) => joined(part_texts(parts), "\n"@),
    }
}

/// A part of a message as a model takes it.
pub fn content_part_to_model_input_text(part: &ContentPart) -> (r: String)
    ensures
        r@ == part_text(part@),
{
    match part {
        ContentPart::Text { text } => text.clone(),
        ContentPart::ImageUrl { url } => {
            let mut t = "[image_url] ".to_owned();
            t.push_str(url);
            t
        },
        ContentPart::ImageBase64 { media_type, data } => {
            let mut t = "[image_base64] ".to_owned();
            t.push_str(media_type);
            t.push_str(", ");
            t.push_str(&decimal_text(size_in_bytes(data) as u64));
            t.push_str(" bytes");
            t
        },
        ContentPart::Audio { .. } => "[audio]".to_owned(),
        ContentPart::File { rendered, .. } => match rendered {
            Some(t) => t.clone(),
            None => "[file]".to_owned(),
        },
    }
}

/// A content as a model takes it.
pub fn content_to_model_input_text(content: &Content) -> (r: String)
    ensures
        r@ == input_text(content@),
{
    match content {
        Content::Text(text) => text.clone(),
        Content::Parts(parts) => {
            let ghost views = part_views(parts@);
            let mut out: Vec<String> = Vec::new();
            let mut i: usize = 0;
            while i < parts.len()
                invariant
                    i <= parts.len(),
                    views == part_views(parts@),
                    out.len() == i,
                    forall|j: int| 0 <= j < i ==> (#[trigger] out@[j])@ == part_text(views[j]),
                decreases parts.len() - i,
            {
                assert(views[i as int] == parts@[i as int]@);
                out.push(content_part_to_model_input_text(&parts[i]));
                i += 1;
            }
            assert(texts(out@) =~= part_texts(views));
            join(&out, "\n")
        },
    }
}

pub open spec fn role_text(role: Role) -> Seq<char> {
    match role {
        Role::System => "system"@,
        Role::User => "user"@,
        Role::Assistant => "assistant"@,
        Role::Tool => "tool"@,
    }
}

pub fn role_name(role: Role) -> (r: String)
    ensures
        r@ == role_text(role),
{
    match role {
        Role::System => "system".to_owned(),
        Role::User => "user".to_owned(),
        Role::Assistant => "assistant".to_owned(),
        Role::Tool => "tool".to_owned(),
    }
}

// -------------------------------------------------------------------- segments

/// The pieces with one more at their end.
pub open spec fn with_segment(
    segments: Seq<SegmentView>,
    category: ModelInputSegmentCategory,
    role: Option<Seq<char>>,
    title: Seq<char>,
    content: Seq<char>,
) -> Seq<SegmentView> {
    segments.push(
        SegmentView {
            id: "seg_"@ + decimal(segments.len() + 1),
            category,
            role,
            title,
            content,
            token_estimate: token_estimate(content),
        },
    )
}

/// Adds a piece.
pub fn append_segment(
    segments: &mut Vec<ModelInputSegment>,
    category: ModelInputSegmentCategory,
    role: Option<String>,
    title: String,
    content: String,
)
    requires
        old(segments).len() < u64::MAX,
    ensures
        segment_views(final(segments)@) == with_segment(
            segment_views(old(segments)@),
            category,
            option_text(role),
            title@,
            content@,
        ),
        final(segments).len() == old(segments).len() + 1,
{
    let ghost before = segment_views(segments@);
    let mut id = "seg_".to_owned();
    id.push_str(&decimal_text(segments.len() as u64 + 1));
    let token_estimate = estimate_model_input_tokens(&content);
    let segment = ModelInputSegment { id, category, role, title, content, token_estimate };
    let ghost view = segment@;
    segments.push(segment);
    assert(segment_views(segments@) =~= before.push(view));
}

/// Adds a piece that is a value.
pub fn append_json_segment(
    segments: &mut Vec<ModelInputSegment>,
    category: ModelInputSegmentCategory,
    title: &str,
    value: &JsonValue,
)
    requires
        old(segments).len() < u64::MAX,
    ensures
        segment_views(final(segments)@) == with_segment(
            segment_views(old(segments)@),
            category,
            None,
            title@,
            json_pretty_text(value@),
        ),
        final(segments).len() == old(segments).len() + 1,
{
    append_segment(segments, category, None, title.to_owned(), render_json_pretty(value));
}

/// The pieces with those of the tools that a message calls.
pub open spec fn with_calls(
    segments: Seq<SegmentView>,
    index: int,
    role: Role,
    calls: Seq<CallView>,
) -> Seq<SegmentView>
    decreases calls.len(),
{
    if calls.len() == 0 {
        segments
    } else {
        with_segment(
            with_calls(segments, index, role, calls.drop_last()),
            ModelInputSegmentCategory::ToolInput,
            Some(role_text(role)),
            "Tool input "@ + decimal((index + 1) as nat) + "."@ + decimal(calls.len()),
            calls.last().rendered,
        )
    }
}

/// What kind of piece a message is.
pub open spec fn message_category(message: MessageView) -> ModelInputSegmentCategory {
    if message.tool_call_id is Some {
        ModelInputSegmentCategory::ToolOutput
    } else if message.role == Role::System {
        let text = input_text(message.content);
        if "Skill `"@.is_prefix_of(text) && occurs(text, " loaded for this turn from "@) {
            ModelInputSegmentCategory::SkillInjection
        } else {
            ModelInputSegmentCategory::SystemPrompt
        }
    } else {
        ModelInputSegmentCategory::History
    }
}

pub open spec fn message_title(index: int, message: MessageView) -> Seq<char> {
    match message.tool_call_id {
        Some(id) => "Tool output "@ + decimal((index + 1) as nat) + " ("@ + id + ")"@,
        None => role_text(message.role) + " "@ + decimal((index + 1) as nat),
    }
}

/// The pieces with those of a message.
pub open spec fn with_message(
    segments: Seq<SegmentView>,
    index: int,
    message: MessageView,
) -> Seq<SegmentView> {
    let called = match message.tool_calls {
        Some(calls) => with_calls(segments, index, message.role, calls),
        None => segments,
    };
    let told = with_segment(
        called,
        message_category(message),
        Some(role_text(message.role)),
        message_title(index, message),
        input_text(message.content),
    );
    let reasoned = match message.reasoning_content {
        Some(r) => with_segment(
            told,
            ModelInputSegmentCategory::History,
            Some(role_text(message.role)),
            "Reasoning "@ + decimal((index + 1) as nat),
            r,
        ),
        None => told,
    };
    match message.metadata {
        Some(m) => with_segment(
            reasoned,
            ModelInputSegmentCategory::Metadata,
            None,
            "Message metadata "@ + decimal((index + 1) as nat),
            json_pretty_text(m),
        ),
        None => reasoned,
    }
}

/// How many pieces a message makes.
pub open spec fn message_size(message: MessageView) -> nat {
    (match message.tool_calls {
        Some(calls) => calls.len(),
        None => 0,
    }) + 3
}

pub open spec fn history_size(history: Seq<MessageView>) -> nat
    decreases history.len(),
{
    if history.len() == 0 {
        0
    } else {
        history_size(history.drop_last()) + message_size(history.last())
    }
}

proof fn lemma_calls_len(segments: Seq<SegmentView>, index: int, role: Role, calls: Seq<CallView>)
    ensures
        with_calls(segments, index, role, calls).len() == segments.len() + calls.len(),
    decreases calls.len(),
{
    if calls.len() > 0 {
        lemma_calls_len(segments, index, role, calls.drop_last());
    }
}

/// Adds the pieces of a message.
pub fn append_message_model_input_segments(
    segments: &mut Vec<ModelInputSegment>,
    index: usize,
    message: &Message,
)
    requires
        old(segments).len() + message_size(message@) < u64::MAX,
        index < u64::MAX,
    ensures
        segment_views(final(segments)@) == with_message(
            segment_views(old(segments)@),
            index as int,
            message@,
        ),
        final(segments).len() <= old(segments).len() + message_size(message@),
{
    let number = decimal_text(index as u64 + 1);
    let ghost start = segment_views(segments@);
    let ghost len0 = segments.len();
    match &message.tool_calls {
        Some(calls) => {
            let ghost all = call_views(calls@);
            let mut k: usize = 0;
            assert(all.take(0) =~= Seq::empty());
            while k < calls.len()
                invariant
                    k <= calls.len(),
                    all == call_views(calls@),
                    segments.len() == len0 + k,
                    len0 + calls.len() < u64::MAX,
                    number@ == decimal((index + 1) as nat),
                    segment_views(segments@) == with_calls(
                        start,
                        index as int,
                        message.role,
                        all.take(k as int),
                    ),
                decreases calls.len() - k,
            {
                assert(all.take(k + 1).drop_last() =~= all.take(k as int));
                assert(all[k as int] == calls@[k as int]@);
                let mut title = "Tool input ".to_owned();
                title.push_str(&number);
                title.push_str(".");
                title.push_str(&decimal_text(k as u64 + 1));
                append_segment(
                    segments,
                    ModelInputSegmentCategory::ToolInput,
                    Some(role_name(message.role)),
                    title,
                    calls[k].rendered.clone(),
                );
                k += 1;
            }
            assert(all.take(k as int) =~= all);
        },
        None => {},
    }
    let text = content_to_model_input_text(&message.content);
    let category = match &message.tool_call_id {
        Some(_) => ModelInputSegmentCategory::ToolOutput,
        None => match message.role {
            Role::System => if starts_with(&text, "Skill `") && contains_text(
                &text,
                " loaded for this turn from ",
            ) {
                ModelInputSegmentCategory::SkillInjection
            } else {
                ModelInputSegmentCategory::SystemPrompt
            },
            _ => ModelInputSegmentCategory::History,
        },
    };
    let title = match &message.tool_call_id {
        Some(id) => {
            let mut t = "Tool output ".to_owned();
            t.push_str(&number);
            t.push_str(" (");
            t.push_str(id);
            t.push_str(")");
            t
        },
        None => {
            let mut t = role_name(message.role);
            t.push_str(" ");
            t.push_str(&number);
            t
        },
    };
    append_segment(segments, category, Some(role_name(message.role)), title, text);
    match &message.reasoning_content {
        Some(r) => {
            let mut t = "Reasoning ".to_owned();
            t.push_str(&number);
            append_segment(
                segments,
                ModelInputSegmentCategory::History,
                Some(role_name(message.role)),
                t,
                r.clone(),
            );
        },
        None => {},
    }
    match &message.metadata {
        Some(m) => {
            let mut t = "Message metadata ".to_owned();
            t.push_str(&number);
            append_json_segment(segments, ModelInputSegmentCategory::Metadata, &t, m);
        },
        None => {},
    }
}

// -------------------------------------------------------------------- snapshot

/// What a turn starts with.
#[derive(Debug)]
pub struct LoopStart {
    pub content: Content,
    pub history: Vec<Message>,
    pub metadata: Option<JsonValue>,
    pub message_metadata: Option<JsonValue>,
    pub user_state: Option<JsonValue>,
    /// Who the message comes from, where the model is told.
    pub user_name: Option<String>,
}

pub open spec fn with_history(segments: Seq<SegmentView>, history: Seq<MessageView>) -> Seq<
    SegmentView,
>
    decreases history.len(),
{
    if history.len() == 0 {
        segments
    } else {
        with_message(
            with_history(segments, history.drop_last()),
            history.len() - 1,
            history.last(),
        )
    }
}

pub open spec fn with_value_segment(
    segments: Seq<SegmentView>,
    category: ModelInputSegmentCategory,
    title: Seq<char>,
    value: Option<JsonView>,
) -> Seq<SegmentView> {
    match value {
        Some(v) => with_segment(segments, category, None, title, json_pretty_text(v)),
        None => segments,
    }
}

/// All pieces of a request, in the order in which the model takes them.
pub open spec fn input_segments(input: LoopStart) -> Seq<SegmentView> {
    let s = with_history(Seq::empty(), message_views(input.history@));
    let s = with_segment(
        s,
        ModelInputSegmentCategory::CurrentUser,
        Some("user"@),
        "Current user input"@,
        input_text(input.content@),
    );
    let s = with_value_segment(
        s,
        ModelInputSegmentCategory::Metadata,
        "Request metadata"@,
        option_value(input.metadata),
    );
    let s = with_value_segment(
        s,
        ModelInputSegmentCategory::Metadata,
        "Message metadata"@,
        option_value(input.message_metadata),
    );
    with_value_segment(
        s,
        ModelInputSegmentCategory::UserState,
        "User state"@,
        option_value(input.user_state),
    )
}

/// The tokens of all pieces, as far as 32 bits hold them.
pub open spec fn total_tokens(segments: Seq<SegmentView>) -> nat
    decreases segments.len(),
{
    if segments.len() == 0 {
        0
    } else {
        let sum = total_tokens(segments.drop_last()) + segments.last().token_estimate;
        if sum > u32::MAX {
            u32::MAX as nat
        } else {
            sum
        }
    }
}

/// A request as it is shown.
#[derive(Debug, Clone, PartialEq, Eq)]
pub struct ModelInputSnapshot {
    pub run_id: String,
    pub thread_id: String,
    pub model_profile_id: String,
    pub model: String,
    pub created_at: String,
    pub segments: Vec<ModelInputSegment>,
    pub totals: ModelInputTotals,
}

/// About how many tokens a request takes.
#[derive(Debug, Clone, Copy, PartialEq, Eq, Structural)]
pub struct ModelInputTotals {
    pub estimated_tokens: u32,
}

fn sum_tokens(segments: &Vec<ModelInputSegment>) -> (r: u32)
    ensures
        r == total_tokens(segment_views(segments@)),
{
    let ghost all = segment_views(segments@);
    let mut sum: u32 = 0;
    let mut i: usize = 0;
    assert(all.take(0) =~= Seq::empty());
    while i < segments.len()
        invariant
            i <= segments.len(),
            all == segment_views(segments@),
            sum == total_tokens(all.take(i as int)),
        decreases segments.len() - i,
    {
        assert(all.take(i + 1).drop_last() =~= all.take(i as int));
        assert(all[i as int] == segments@[i as int]@);
        sum = match sum.checked_add(segments[i].token_estimate) {
            Some(s) => s,
            None => u32::MAX,
        };
        i += 1;
    }
    assert(all.take(i as int) =~= all);
    sum
}

fn make_segments(input: &LoopStart) -> (r: Vec<ModelInputSegment>)
    requires
        history_size(message_views(input.history@)) + 4 < u64::MAX,
    ensures
        segment_views(r@) == input_segments(*input),
{
    let ghost all = message_views(input.history@);
    let mut segments: Vec<ModelInputSegment> = Vec::new();
    let mut i: usize = 0;
    assert(all.take(0) =~= Seq::empty());
    assert(segment_views(segments@) =~= Seq::<SegmentView>::empty());
    while i < input.history.len()
        invariant
            i <= input.history.len(),
            all == message_views(input.history@),
            segments.len() <= history_size(all.take(i as int)),
            history_size(all) + 4 < u64::MAX,
            segment_views(segments@) == with_history(Seq::empty(), all.take(i as int)),
        decreases input.history.len() - i,
    {
        assert(all.take(i + 1).drop_last() =~= all.take(i as int));
        assert(all[i as int] == input.history@[i as int]@);
        proof {
            lemma_history_size(all, i + 1);
        }
        append_message_model_input_segments(&mut segments, i, &input.history[i]);
        i += 1;
    }
    assert(all.take(i as int) =~= all);
    append_segment(
        &mut segments,
        ModelInputSegmentCategory::CurrentUser,
        Some("user".to_owned()),
        "Current user input".to_owned(),
        content_to_model_input_text(&input.content),
    );
    match &input.metadata {
        Some(m) => append_json_segment(
            &mut segments,
            ModelInputSegmentCategory::Metadata,
            "Request metadata",
            m,
        ),
        None => {},
    }
    match &input.message_metadata {
        Some(m) => append_json_segment(
            &mut segments,
            ModelInputSegmentCategory::Metadata,
            "Message metadata",
            m,
        ),
        None => {},
    }
    match &input.user_state {
        Some(m) => append_json_segment(
            &mut segments,
            ModelInputSegmentCategory::UserState,
            "User state",
            m,
        ),
        None => {},
    }
    segments
}

proof fn lemma_history_size(history: Seq<MessageView>, k: int)
    requires
        0 <= k <= history.len(),
    ensures
        history_size(history.take(k)) <= history_size(history),
        k <= history_size(history.take(k)),
    decreases history.len(),
{
    if k < history.len() {
        lemma_history_size(history.drop_last(), k);
        assert(history.drop_last().take(k) =~= history.take(k));
    } else {
        assert(history.take(k) =~= history);
        if k > 0 {
            lemma_history_size(history.drop_last(), k - 1);
            assert(history.drop_last().take(k - 1) =~= history.drop_last());
        }
    }
}

/// A request as it is shown, where the turn starts with one. A run that has no
/// id of its own gets a fresh one.
pub fn model_input_snapshot_from_loop_input(
    input: Option<&LoopStart>,
    thread_id: &str,
    run_id: &Option<String>,
    model_profile_id: &str,
    model: &str,
) -> (r: Option<ModelInputSnapshot>)
    requires
        input matches Some(i) ==> history_size(message_views(i.history@)) + 4 < u64::MAX,
    ensures
        match input {
            None => r is None,
            Some(i) => {
                &&& r is Some
                &&& r->0.thread_id@ == thread_id@
                &&& r->0.model_profile_id@ == model_profile_id@
                &&& r->0.model@ == model@
                &&& segment_views(r->0.segments@) == input_segments(*i)
                &&& r->0.totals.estimated_tokens == total_tokens(input_segments(*i))
                &&& match said(option_text(*run_id)) {
                    Some(id) => r->0.run_id@ == id,
                    None => r->0.run_id@.len() == 36,
                }
            },
        },
{
    let start = match input {
        Some(i) => i,
        None => return None,
    };
    let segments = make_segments(start);
    let estimated_tokens = sum_tokens(&segments);
    let run = match said_text(run_id) {
        Some(id) => id,
        None => fresh_id(),
    };
    Some(
        ModelInputSnapshot {
            run_id: run,
            thread_id: thread_id.to_owned(),
            model_profile_id: model_profile_id.to_owned(),
            model: model.to_owned(),
            created_at: current_time_text(),
            segments,
            totals: ModelInputTotals { estimated_tokens },
        },
    )
}

/// What a message says, without the tools that it calls.
proof fn lemma_message_grows(segments: Seq<SegmentView>, index: int, message: MessageView)
    ensures
        segments.len() < with_message(segments, index, message).len(),
        segments.is_prefix_of(with_message(segments, index, message)),
{
    let called = match message.tool_calls {
        Some(calls) => with_calls(segments, index, message.role, calls),
        None => segments,
    };
    match message.tool_calls {
        Some(calls) => {
            lemma_calls_prefix(segments, index, message.role, calls);
        },
        None => {},
    }
    let all = with_message(segments, index, message);
    assert(segments =~= all.subrange(0, segments.len() as int));
}

proof fn lemma_calls_prefix(
    segments: Seq<SegmentView>,
    index: int,
    role: Role,
    calls: Seq<CallView>,
)
    ensures
        segments.len() <= with_calls(segments, index, role, calls).len(),
        segments =~= with_calls(segments, index, role, calls).take(segments.len() as int),
    decreases calls.len(),
{
    if calls.len() > 0 {
        lemma_calls_prefix(segments, index, role, calls.drop_last());
    }
}

/// Every message of the history is in the request: a longer history gives the
/// same pieces and more.
pub proof fn requests_hold_the_whole_history(history: Seq<MessageView>, k: int)
    requires
        0 <= k < history.len(),
    ensures
        with_history(Seq::empty(), history.take(k)).len() < with_history(
            Seq::empty(),
            history,
        ).len(),
        with_history(Seq::empty(), history.take(k)).is_prefix_of(
            with_history(Seq::empty(), history),
        ),
    decreases history.len(),
{
    let head = with_history(Seq::empty(), history.drop_last());
    let all = with_history(Seq::empty(), history);
    lemma_message_grows(head, history.len() - 1, history.last());
    if k < history.len() - 1 {
        requests_hold_the_whole_history(history.drop_last(), k);
        assert(history.drop_last().take(k) =~= history.take(k));
        let first = with_history(Seq::empty(), history.take(k));
        assert(first =~= all.subrange(0, first.len() as int));
    } else {
        assert(history.take(k) =~= history.drop_last());
    }
}

// -------------------------------------------------------------------- what it holds

/// The segment that tells what a message says.
pub open spec fn tells(s: SegmentView, message: MessageView) -> bool {
    &&& s.content == input_text(message.content)
    &&& s.role == Some(role_text(message.role))
    &&& s.category == message_category(message)
}

proof fn lemma_message_told(segments: Seq<SegmentView>, index: int, message: MessageView)
    ensures
        exists|i: int|
            0 <= i < with_message(segments, index, message).len() && tells(
                #[trigger] with_message(segments, index, message)[i],
                message,
            ),
{
    let called = match message.tool_calls {
        Some(calls) => with_calls(segments, index, message.role, calls),
        None => segments,
    };
    let n = called.len() as int;
    assert(tells(with_message(segments, index, message)[n], message));
}

/// A request holds what each message of its history says, in the role that said it,
/// and what is said now.
pub proof fn requests_tell_every_message(input: LoopStart, k: int)
    ensures
        0 <= k < input.history@.len() ==> exists|i: int|
            0 <= i < input_segments(input).len() && tells(
                #[trigger] input_segments(input)[i],
                input.history@[k]@,
            ),
        exists|i: int|
            0 <= i < input_segments(input).len() && (#[trigger] input_segments(input)[i]).category
                == ModelInputSegmentCategory::CurrentUser && input_segments(input)[i].content
                == input_text(input.content@),
{
    let h = message_views(input.history@);
    let s0 = with_history(Seq::empty(), h);
    let all = input_segments(input);
    assert(s0.len() < all.len());
    assert forall|i: int| 0 <= i < s0.len() implies all[i] == s0[i] by {}
    assert(all[s0.len() as int].category == ModelInputSegmentCategory::CurrentUser);
    if 0 <= k < h.len() {
        lemma_history_told(h, k);
        let i = choose|i: int| 0 <= i < s0.len() && tells(#[trigger] s0[i], h[k]);
        assert(all[i] == s0[i]);
        assert(h[k] == input.history@[k]@);
    }
}

proof fn lemma_history_told(history: Seq<MessageView>, k: int)
    requires
        0 <= k < history.len(),
    ensures
        exists|i: int|
            0 <= i < with_history(Seq::empty(), history).len() && tells(
                #[trigger] with_history(Seq::empty(), history)[i],
                history[k],
            ),
    decreases history.len(),
{
    let all = with_history(Seq::empty(), history);
    let head = with_history(Seq::empty(), history.drop_last());
    if k == history.len() - 1 {
        lemma_message_told(head, history.len() - 1, history.last());
    } else {
        lemma_history_told(history.drop_last(), k);
        let i = choose|i: int| 0 <= i < head.len() && tells(#[trigger] head[i], history.drop_last()[k]);
        lemma_message_grows(head, history.len() - 1, history.last());
        assert(head.is_prefix_of(all));
        assert(all[i] == head[i]);
        assert(history.drop_last()[k] == history[k]);
    }
}

/// The size of a request is the sum of the sizes of its segments, as far as it can
/// be counted.
pub proof fn sizes_add_up(segments: Seq<SegmentView>, s: SegmentView)
    ensures
        total_tokens(segments.push(s)) == (if total_tokens(segments) + s.token_estimate
            > u32::MAX {
            u32::MAX as nat
        } else {
            total_tokens(segments) + s.token_estimate
        }),
        total_tokens(segments) <= total_tokens(segments.push(s)) || total_tokens(segments)
            > u32::MAX,
        total_tokens(Seq::empty()) == 0,
{
    assert(segments.push(s).drop_last() =~= segments);
}

/// What is put into a request is sized by itself.
pub proof fn segments_are_sized(
    segments: Seq<SegmentView>,
    category: ModelInputSegmentCategory,
    role: Option<Seq<char>>,
    title: Seq<char>,
    content: Seq<char>,
)
    ensures
        ({
            let r = with_segment(segments, category, role, title, content);
            &&& r.drop_last() == segments
            &&& r.last().content == content
            &&& r.last().category == category
            &&& r.last().role == role
            &&& r.last().title == title
            &&& r.last().token_estimate == token_estimate(content)
        }),
{
    assert(with_segment(segments, category, role, title, content).drop_last() =~= segments);
}

/// A message with parts says all that its parts say.
pub proof fn every_part_is_told(parts: Seq<PartView>, i: int)
    requires
        0 <= i < parts.len(),
    ensures
        occurs(input_text(ContentView::Parts(parts)), part_text(parts[i])),
        parts[i] matches PartView::Text(t) ==> part_text(parts[i]) == t,
        parts[i] matches PartView::ImageUrl(u) ==> u.is_suffix_of(part_text(parts[i])),
{
    what_is_joined_is_there(part_texts(parts), "\n"@, i);
    if parts[i] is ImageUrl {
        let u = parts[i]->ImageUrl_0;
        let t = part_text(parts[i]);
        assert(u =~= t.subrange(t.len() - u.len(), t.len() as int));
    }
}

/// What a message is told as: the answer of a tool, a skill or another prompt of the
/// system, or part of what was said.
pub proof fn messages_have_their_category(message: MessageView)
    ensures
        message.tool_call_id is Some ==> message_category(message)
            == ModelInputSegmentCategory::ToolOutput,
        message.tool_call_id is None && message.role != Role::System ==> message_category(message)
            == ModelInputSegmentCategory::History,
        message.tool_call_id is None && message.role == Role::System ==> message_category(message)
            == ModelInputSegmentCategory::SystemPrompt || message_category(message)
            == ModelInputSegmentCategory::SkillInjection,
        role_text(Role::System) == "system"@,
        role_text(Role::User) == "user"@,
        role_text(Role::Assistant) == "assistant"@,
        role_text(Role::Tool) == "tool"@,
{
}

} // verus!
