//! What a turn is asked with.
use vstd::prelude::*;
use vstd::string::*;

use crate::json::{field, lemma_field_push, member, no_fields, JsonMap, JsonValue, JsonView};
use crate::message::option_text;
use crate::profile::ReasoningEffort;
use crate::skill::types::SkillDocument;
use crate::text::{is_blank, str_eq, trim, trimmed};

verus! {

broadcast use vstd::string::group_string_axioms;

/// The options of one turn. The attachments and documents are there as they are
/// written into the metadata of the message.
#[derive(Debug)]
pub struct StreamOptions {
    pub model_profile_id: Option<String>,
    pub reasoning_effort: Option<ReasoningEffort>,
    pub agent_id: Option<String>,
    pub skill_injections: Vec<SkillDocument>,
    pub sender_user_id: Option<String>,
    pub sender_username: Option<String>,
    pub message_id: Option<String>,
    pub chat_type: Option<String>,
    pub platform: Option<String>,
    pub supervisor_run: bool,
    pub internal_supervisor_message: bool,
    pub im_attachments: Option<String>,
    pub im_documents: Option<String>,
    pub async_agent: bool,
}

impl Default for StreamOptions {
    fn default() -> (r: StreamOptions)
        ensures
            r.model_profile_id is None,
            r.reasoning_effort is None,
            r.agent_id is None,
            r.skill_injections.len() == 0,
            r.sender_user_id is None,
            r.sender_username is None,
            r.message_id is None,
            r.chat_type is None,
            r.platform is None,
            !r.supervisor_run,
            !r.internal_supervisor_message,
            r.im_attachments is None,
            r.im_documents is None,
            !r.async_agent,
    {
        StreamOptions {
            model_profile_id: None,
            reasoning_effort: None,
            agent_id: None,
            skill_injections: Vec::new(),
            sender_user_id: None,
            sender_username: None,
            message_id: None,
            chat_type: None,
            platform: None,
            supervisor_run: false,
            internal_supervisor_message: false,
            im_attachments: None,
            im_documents: None,
            async_agent: false,
        }
    }
}

/// The fields with one more where there is a text for it.
pub open spec fn with_text_field(
    fields: Seq<(Seq<char>, JsonView)>,
    key: Seq<char>,
    value: Option<Seq<char>>,
) -> Seq<(Seq<char>, JsonView)> {
    match value {
        Some(s) => fields.push((key, JsonView::Text(s))),
        None => fields,
    }
}

/// The object with one field more where there is a text for it.
pub fn with_text(map: JsonMap, key: &str, value: &Option<String>) -> (r: JsonMap)
    ensures
        r@ == with_text_field(map@, key@, option_text(*value)),
{
    match value {
        Some(s) => map.with(key, JsonValue::text(s)),
        None => map,
    }
}

/// A text that is more than white space.
pub open spec fn said(value: Option<Seq<char>>) -> Option<Seq<char>> {
    match value {
        Some(s) => if trimmed(s).len() == 0 {
            None
        } else {
            Some(s)
        },
        None => None,
    }
}

pub fn said_text(value: &Option<String>) -> (r: Option<String>)
    ensures
        option_text(r) == said(option_text(*value)),
{
    match value {
        Some(s) => if is_blank(s) {
            None
        } else {
            Some(s.clone())
        },
        None => None,
    }
}

/// What is noted about a message of the user.
pub open spec fn user_fields(opts: StreamOptions) -> Seq<(Seq<char>, JsonView)> {
    let f = with_text_field(no_fields(), "sender_user_id"@, option_text(opts.sender_user_id));
    let f = with_text_field(f, "sender_username"@, said(option_text(opts.sender_username)));
    let f = with_text_field(f, "message_id"@, option_text(opts.message_id));
    let f = with_text_field(f, "chat_type"@, option_text(opts.chat_type));
    let f = with_text_field(f, "platform"@, option_text(opts.platform));
    let f = with_text_field(f, "im_attachments"@, option_text(opts.im_attachments));
    with_text_field(f, "im_documents"@, option_text(opts.im_documents))
}

pub open spec fn option_value(value: Option<JsonValue>) -> Option<JsonView> {
    match value {
        Some(v) => Some(v@),
        None => None,
    }
}

/// What is noted about a message of the user, where there is anything.
pub fn user_message_metadata(opts: &StreamOptions) -> (r: Option<JsonValue>)
    ensures
        option_value(r) == if user_fields(*opts).len() == 0 {
            None
        } else {
            Some(JsonView::Object(user_fields(*opts)))
        },
{
    let map = with_text(JsonMap::new(), "sender_user_id", &opts.sender_user_id);
    let map = with_text(map, "sender_username", &said_text(&opts.sender_username));
    let map = with_text(map, "message_id", &opts.message_id);
    let map = with_text(map, "chat_type", &opts.chat_type);
    let map = with_text(map, "platform", &opts.platform);
    let map = with_text(map, "im_attachments", &opts.im_attachments);
    let map = with_text(map, "im_documents", &opts.im_documents);
    if map.is_empty() {
        None
    } else {
        Some(JsonValue::object(map))
    }
}

/// Whether a value means yes.
pub open spec fn means_yes(value: JsonView) -> bool {
    match value {
        JsonView::Bool(b) => b,
        JsonView::Text(s) => trimmed(s) == "1"@ || trimmed(s) == "true"@ || trimmed(s) == "TRUE"@
            || trimmed(s) == "True"@,
        _ => false,
    }
}

pub open spec fn flag(metadata: Option<JsonView>, key: Seq<char>) -> bool {
    match metadata {
        Some(m) => match member(m, key) {
            Some(v) => means_yes(v),
            None => false,
        },
        None => false,
    }
}

/// Whether the metadata says yes to `key`.
pub fn metadata_flag_enabled(metadata: Option<&JsonValue>, key: &str) -> (r: bool)
    ensures
        r == flag(
            match metadata {
                Some(m) => Some(m@),
                None => None,
            },
            key@,
        ),
{
    match metadata {
        Some(m) => match m.get(key) {
            Some(JsonValue::Bool(b)) => *b,
            Some(JsonValue::Text(s)) => {
                let t = trim(s);
                str_eq(&t, "1") || str_eq(&t, "true") || str_eq(&t, "TRUE") || str_eq(&t, "True")
            },
            _ => false,
        },
        None => false,
    }
}

/// Whether the variable for background work says yes.
pub open spec fn switched_on(variable: Option<Seq<char>>) -> bool {
    match variable {
        Some(s) => {
            let t = crate::text::ascii_lowercase_text(trimmed(s));
            t == "1"@ || t == "true"@ || t == "yes"@ || t == "on"@
        },
        None => false,
    }
}

/// Whether the variable for background work says yes.
pub fn async_agent_enabled(variable: &Option<String>) -> (r: bool)
    ensures
        r == switched_on(option_text(*variable)),
{
    match variable {
        Some(s) => {
            let t = crate::text::to_ascii_lowercase(&trim(s));
            str_eq(&t, "1") || str_eq(&t, "true") || str_eq(&t, "yes") || str_eq(&t, "on")
        },
        None => false,
    }
}

/// A text that is put under a new key is read back there, and nothing else changes.
pub proof fn lemma_text_field(
    fields: Seq<(Seq<char>, JsonView)>,
    key: Seq<char>,
    value: Option<Seq<char>>,
    other: Seq<char>,
)
    requires
        field(fields, key) is None,
    ensures
        field(with_text_field(fields, key, value), key) == (match value {
            Some(s) => Some(JsonView::Text(s)),
            None => None,
        }),
        other != key ==> field(with_text_field(fields, key, value), other) == field(fields, other),
{
    if value is Some {
        lemma_field_push(fields, (key, JsonView::Text(value->0)), key);
        lemma_field_push(fields, (key, JsonView::Text(value->0)), other);
    }
}

/// The same, of every key at once.
pub proof fn lemma_text_fields(
    fields: Seq<(Seq<char>, JsonView)>,
    key: Seq<char>,
    value: Option<Seq<char>>,
)
    requires
        field(fields, key) is None,
    ensures
        forall|q: Seq<char>| #[trigger]
            field(with_text_field(fields, key, value), q) == (if q == key {
                text_value(value)
            } else {
                field(fields, q)
            }),
{
    assert forall|q: Seq<char>| #[trigger]
        field(with_text_field(fields, key, value), q) == (if q == key {
            text_value(value)
        } else {
            field(fields, q)
        }) by {
        lemma_text_field(fields, key, value, q);
    }
}

/// A text as a value, where there is one.
pub open spec fn text_value(value: Option<Seq<char>>) -> Option<JsonView> {
    match value {
        Some(s) => Some(JsonView::Text(s)),
        None => None,
    }
}

/// What is noted about a message of the user is who sent it, by which name where it
/// is more than white space, which message it was, and what came with it.
pub proof fn what_is_noted_of_a_message(opts: StreamOptions)
    ensures
        ({
            let f = user_fields(opts);
            &&& field(f, "sender_user_id"@) == text_value(option_text(opts.sender_user_id))
            &&& field(f, "message_id"@) == text_value(option_text(opts.message_id))
            &&& field(f, "chat_type"@) == text_value(option_text(opts.chat_type))
            &&& field(f, "platform"@) == text_value(option_text(opts.platform))
            &&& field(f, "im_attachments"@) == text_value(option_text(opts.im_attachments))
            &&& field(f, "im_documents"@) == text_value(option_text(opts.im_documents))
            &&& opts.sender_username is None ==> field(f, "sender_username"@) is None
            &&& opts.sender_username matches Some(n) ==> field(f, "sender_username"@) == (if trimmed(
                n@,
            ).len() == 0 {
                None
            } else {
                Some(JsonView::Text(n@))
            })
        }),
{
    reveal_strlit("sender_user_id");
    reveal_strlit("sender_username");
    reveal_strlit("message_id");
    reveal_strlit("chat_type");
    reveal_strlit("platform");
    reveal_strlit("im_attachments");
    reveal_strlit("im_documents");
    assert("sender_user_id"@.len() == 14 && "sender_username"@.len() == 15);
    assert("message_id"@.len() == 10 && "chat_type"@.len() == 9 && "platform"@.len() == 8);
    assert("im_attachments"@.len() == 14 && "im_documents"@.len() == 12);
    assert("im_attachments"@[0] != "sender_user_id"@[0]);
    let f0 = no_fields();
    let f1 = with_text_field(f0, "sender_user_id"@, option_text(opts.sender_user_id));
    let f2 = with_text_field(f1, "sender_username"@, said(option_text(opts.sender_username)));
    let f3 = with_text_field(f2, "message_id"@, option_text(opts.message_id));
    let f4 = with_text_field(f3, "chat_type"@, option_text(opts.chat_type));
    let f5 = with_text_field(f4, "platform"@, option_text(opts.platform));
    let f6 = with_text_field(f5, "im_attachments"@, option_text(opts.im_attachments));
    lemma_text_fields(f0, "sender_user_id"@, option_text(opts.sender_user_id));
    lemma_text_fields(f1, "sender_username"@, said(option_text(opts.sender_username)));
    lemma_text_fields(f2, "message_id"@, option_text(opts.message_id));
    lemma_text_fields(f3, "chat_type"@, option_text(opts.chat_type));
    lemma_text_fields(f4, "platform"@, option_text(opts.platform));
    lemma_text_fields(f5, "im_attachments"@, option_text(opts.im_attachments));
    lemma_text_fields(f6, "im_documents"@, option_text(opts.im_documents));
}

} // verus!
