//! What an agent is told at the beginning of a turn.
use vstd::prelude::*;
use vstd::string::*;

use crate::json::{JsonValue, JsonView};
use crate::message::{
    insert_system, message_views, option_text, part_views, plain_message, with_system_at, Content,
    ContentPart, ContentView, Message, MessageView, PartView, Role,
};
use crate::runtime::effective::{named, named_text};
use crate::runtime::pinned::{with_prompt_at, SkillPromptToolAvailability};
use crate::skill::tools::{mark_skill_read, marked_read};
use crate::skill::types::{DocumentView, SkillDocument};
use crate::text::{
    ascii_lowercase_text, first_chars, lemma_occurs_in_both, occurs, str_eq, take_chars,
    to_ascii_lowercase, trim, trim_end, trim_end_text, trimmed,
};

verus! {

broadcast use vstd::string::group_string_axioms;

// ---------------------------------------------------------------------- sender

/// The beginning of a user's name, where there is one.
pub fn truncate_user_name(name: &Option<String>, max_chars: usize) -> (r: Option<String>)
    ensures
        option_text(r) == match named_text(option_text(*name)) {
            Some(n) => Some(first_chars(n, max_chars as int)),
            None => None,
        },
{
    match named(name) {
        Some(n) => Some(take_chars(&n, max_chars)),
        None => None,
    }
}

/// Whether a chat is of a kind.
pub open spec fn chat_is(chat_type: Option<Seq<char>>, kind: Seq<char>) -> bool {
    match chat_type {
        Some(c) => ascii_lowercase_text(trimmed(c)) == kind,
        None => false,
    }
}

pub fn is_group_chat(chat_type: &Option<String>) -> (r: bool)
    ensures
        r == chat_is(option_text(*chat_type), "group"@),
{
    match chat_type {
        Some(c) => str_eq(&to_ascii_lowercase(&trim(c)), "group"),
        None => false,
    }
}

pub fn is_direct_chat(chat_type: &Option<String>) -> (r: bool)
    ensures
        r == chat_is(option_text(*chat_type), "p2p"@),
{
    match chat_type {
        Some(c) => str_eq(&to_ascii_lowercase(&trim(c)), "p2p"),
        None => false,
    }
}

/// Who an agent talks to in a chat of two.
pub open spec fn sender_prompt(
    chat_type: Option<Seq<char>>,
    username: Option<Seq<char>>,
    user_id: Option<Seq<char>>,
) -> Option<Seq<char>> {
    if !chat_is(chat_type, "p2p"@) {
        None
    } else {
        match (named_text(username), named_text(user_id)) {
            (Some(name), Some(id)) => Some(
                "当前是单聊场景。当前正在与你对话的用户是 "@ + name + "（内部ID: "@ + id
                    + "）。"@,
            ),
            (Some(name), None) => Some(
                "当前是单聊场景。当前正在与你对话的用户是 "@ + name + "。"@,
            ),
            (None, Some(id)) => Some(
                "当前是单聊场景。当前正在与你对话的用户内部ID是 "@ + id + "。"@,
            ),
            (None, None) => None,
        }
    }
}

/// Who an agent talks to in a chat of two.
pub fn single_chat_sender_system_prompt(
    chat_type: &Option<String>,
    sender_username: &Option<String>,
    sender_user_id: &Option<String>,
) -> (r: Option<String>)
    ensures
        option_text(r) == sender_prompt(
            option_text(*chat_type),
            option_text(*sender_username),
            option_text(*sender_user_id),
        ),
{
    if !is_direct_chat(chat_type) {
        return None;
    }
    match (named(sender_username), named(sender_user_id)) {
        (Some(name), Some(id)) => {
            let mut t = "当前是单聊场景。当前正在与你对话的用户是 ".to_owned();
            t.push_str(&name);
            t.push_str("（内部ID: ");
            t.push_str(&id);
            t.push_str("）。");
            Some(t)
        },
        (Some(name), None) => {
            let mut t = "当前是单聊场景。当前正在与你对话的用户是 ".to_owned();
            t.push_str(&name);
            t.push_str("。");
            Some(t)
        },
        (None, Some(id)) => {
            let mut t = "当前是单聊场景。当前正在与你对话的用户内部ID是 ".to_owned();
            t.push_str(&id);
            t.push_str("。");
            Some(t)
        },
        (None, None) => None,
    }
}

/// Tells an agent who it talks to.
pub fn insert_single_chat_sender_system_prompt(
    history: &mut Vec<Message>,
    insertion_index: usize,
    prompt: Option<String>,
)
    ensures
        message_views(final(history)@) == with_prompt_at(
            message_views(old(history)@),
            insertion_index as int,
            option_text(prompt),
        ),
{
    match prompt {
        Some(p) => insert_system(history, insertion_index, &p),
        None => {},
    }
}

/// By what the speaker in a group is marked.
pub open spec fn group_prefix(chat_type: Option<Seq<char>>, username: Option<Seq<char>>) -> Option<
    Seq<char>,
> {
    if !chat_is(chat_type, "group"@) {
        None
    } else {
        match named_text(username) {
            Some(name) => Some(name + ":\n"@),
            None => None,
        }
    }
}

pub fn group_sender_prefix(chat_type: &Option<String>, sender_username: &Option<String>) -> (r: Option<
    String,
>)
    ensures
        option_text(r) == group_prefix(option_text(*chat_type), option_text(*sender_username)),
{
    if !is_group_chat(chat_type) {
        return None;
    }
    match named(sender_username) {
        Some(name) => {
            let mut t = name;
            t.push_str(":\n");
            Some(t)
        },
        None => None,
    }
}

/// A content with the speaker before it: before its text, before the text of its
/// first part, or as a part of its own.
pub open spec fn spoken(content: ContentView, prefix: Option<Seq<char>>) -> ContentView {
    match prefix {
        None => content,
        Some(p) => match content {
            ContentView::Text(t) => ContentView::Text(p + t),
            ContentView::Parts(parts) => if parts.len() > 0 && parts[0] is Text {
                ContentView::Parts(parts.update(0, PartView::Text(p + parts[0]->Text_0)))
            } else {
                ContentView::Parts(parts.insert(0, PartView::Text(p)))
            },
        },
    }
}

/// A content with the speaker before it, where it comes from a group.
pub fn prepend_group_sender_username(
    content: Content,
    chat_type: &Option<String>,
    sender_username: &Option<String>,
) -> (r: Content)
    ensures
        r@ == spoken(
            content@,
            group_prefix(option_text(*chat_type), option_text(*sender_username)),
        ),
{
    let prefix = match group_sender_prefix(chat_type, sender_username) {
        Some(p) => p,
        None => return content,
    };
    match content {
        Content::Text(t) => {
            let mut text = prefix;
            text.push_str(&t);
            Content::Text(text)
        },
        Content::Parts(p) => {
            let mut parts = p;
            let ghost before = part_views(parts@);
            let mut first: Option<String> = None;
            if parts.len() > 0 {
                assert(before[0] == parts@[0]@);
                match &parts[0] {
                    ContentPart::Text { text } => {
                        let mut t = prefix.clone();
                        t.push_str(text);
                        first = Some(t);
                    },
                    _ => {},
                }
            }
            match first {
                Some(text) => {
                    let part = ContentPart::Text { text };
                    let ghost view = part@;
                    parts.set(0, part);
                    assert(part_views(parts@) =~= before.update(0, view));
                },
                None => {
                    let part = ContentPart::text(&prefix);
                    let ghost view = part@;
                    parts.insert(0, part);
                    assert(part_views(parts@) =~= before.insert(0, view));
                },
            }
            Content::Parts(parts)
        },
    }
}

// ---------------------------------------------------------------------- skills

/// Where the files of a skill can be read, as far as the agent can read.
pub open spec fn files_hint(skill: DocumentView, t: SkillPromptToolAvailability) -> Seq<char> {
    match (skill.skill_file_path, skill.resource_root_path) {
        (Some(file), Some(root)) => if t.fs_read {
            "Use fs_read with skill_file_path="@ + file + "; resource_root_path="@ + root
                + " for supporting files."@
        } else {
            "Supporting file paths: skill_file_path="@ + file + "; resource_root_path="@ + root
                + "."@
        },
        _ => if t.fs_read {
            "Supporting files for this skill are not readable through fs_read because the skill is outside the workspace root."@
        } else {
            "Supporting file paths are unavailable for this skill."@
        },
    }
}

pub fn skill_resource_hint(skill: &SkillDocument, t: SkillPromptToolAvailability) -> (r: String)
    ensures
        r@ == files_hint(skill@, t),
{
    match (&skill.skill_file_path, &skill.resource_root_path) {
        (Some(file), Some(root)) => if t.fs_read {
            let mut s = "Use fs_read with skill_file_path=".to_owned();
            s.push_str(file);
            s.push_str("; resource_root_path=");
            s.push_str(root);
            s.push_str(" for supporting files.");
            s
        } else {
            let mut s = "Supporting file paths: skill_file_path=".to_owned();
            s.push_str(file);
            s.push_str("; resource_root_path=");
            s.push_str(root);
            s.push_str(".");
            s
        },
        _ => if t.fs_read {
            "Supporting files for this skill are not readable through fs_read because the skill is outside the workspace root.".to_owned()
        } else {
            "Supporting file paths are unavailable for this skill.".to_owned()
        },
    }
}

/// What an agent is told of a skill that is loaded for the turn.
pub open spec fn injection_prompt(skill: DocumentView, t: SkillPromptToolAvailability) -> Seq<char> {
    "Skill `"@ + skill.name + "` loaded for this turn from "@ + skill.source + ". "@ + files_hint(
        skill,
        t,
    ) + "\n\n"@ + trim_end_text(skill.content)
}

fn render_injection(skill: &SkillDocument, t: SkillPromptToolAvailability) -> (r: String)
    ensures
        r@ == injection_prompt(skill@, t),
{
    let mut s = "Skill `".to_owned();
    s.push_str(&skill.name);
    s.push_str("` loaded for this turn from ");
    s.push_str(&skill.source);
    s.push_str(". ");
    s.push_str(&skill_resource_hint(skill, t));
    s.push_str("\n\n");
    s.push_str(&trim_end(&skill.content));
    s
}

pub open spec fn document_views(skills: Seq<SkillDocument>) -> Seq<DocumentView> {
    skills.map_values(|s: SkillDocument| s@)
}

/// The history with the loaded skills from an index on, one after the other.
pub open spec fn with_injections(
    history: Seq<MessageView>,
    index: int,
    skills: Seq<DocumentView>,
    t: SkillPromptToolAvailability,
) -> Seq<MessageView>
    decreases skills.len(),
{
    if skills.len() == 0 {
        history
    } else {
        with_system_at(
            with_injections(history, index, skills.drop_last(), t),
            index + skills.len() - 1,
            injection_prompt(skills.last(), t),
        )
    }
}

/// Tells an agent of the skills that are loaded for the turn.
pub fn insert_skill_injection_prompts(
    history: &mut Vec<Message>,
    insertion_index: usize,
    skills: &Vec<SkillDocument>,
    tool_availability: SkillPromptToolAvailability,
)
    requires
        insertion_index + skills.len() <= usize::MAX,
    ensures
        message_views(final(history)@) == with_injections(
            message_views(old(history)@),
            insertion_index as int,
            document_views(skills@),
            tool_availability,
        ),
{
    let ghost start = message_views(history@);
    let ghost all = document_views(skills@);
    let mut i: usize = 0;
    assert(all.take(0) =~= Seq::empty());
    while i < skills.len()
        invariant
            i <= skills.len(),
            insertion_index + skills.len() <= usize::MAX,
            all == document_views(skills@),
            message_views(history@) == with_injections(
                start,
                insertion_index as int,
                all.take(i as int),
                tool_availability,
            ),
        decreases skills.len() - i,
    {
        assert(all.take(i + 1).drop_last() =~= all.take(i as int));
        assert(all[i as int] == skills@[i as int]@);
        let prompt = render_injection(&skills[i], tool_availability);
        insert_system(history, insertion_index + i, &prompt);
        i += 1;
    }
    assert(all.take(i as int) =~= all);
}

/// The state of a session in which skills were read.
pub open spec fn all_marked_read(state: JsonView, skills: Seq<DocumentView>) -> JsonView
    decreases skills.len(),
{
    if skills.len() == 0 {
        state
    } else {
        marked_read(all_marked_read(state, skills.drop_last()), skills.last().name)
    }
}

/// Notes that skills were read.
pub fn apply_skill_injections(user_state: &mut JsonValue, skills: &Vec<SkillDocument>)
    ensures
        final(user_state)@ == all_marked_read(old(user_state)@, document_views(skills@)),
{
    let ghost start = user_state@;
    let ghost all = document_views(skills@);
    let mut i: usize = 0;
    assert(all.take(0) =~= Seq::empty());
    while i < skills.len()
        invariant
            i <= skills.len(),
            all == document_views(skills@),
            user_state@ == all_marked_read(start, all.take(i as int)),
        decreases skills.len() - i,
    {
        assert(all.take(i + 1).drop_last() =~= all.take(i as int));
        assert(all[i as int] == skills@[i as int]@);
        mark_skill_read(user_state, &skills[i].name);
        i += 1;
    }
    assert(all.take(i as int) =~= all);
}

// ----------------------------------------------------------------------- todos

/// The history with what is still to do at its end, where there is anything.
pub open spec fn with_todo(history: Seq<MessageView>, todo: Option<Seq<char>>) -> Seq<MessageView> {
    match todo {
        Some(p) => history.push(plain_message(Role::System, p)),
        None => history,
    }
}

/// Tells an agent what is still to do.
pub fn append_thread_todo_system_prompt(history: &mut Vec<Message>, todo_prompt: &Option<String>)
    ensures
        message_views(final(history)@) == with_todo(
            message_views(old(history)@),
            option_text(*todo_prompt),
        ),
{
    match todo_prompt {
        Some(p) => {
            let ghost before = message_views(history@);
            let message = Message::system(p);
            let ghost view = message@;
            history.push(message);
            assert(message_views(history@) =~= before.push(view));
        },
        None => {},
    }
}

/// Tells the supervisor what is still to do where one is active, else the agent.
pub fn route_thread_todo_prompt(
    history: &mut Vec<Message>,
    todo_prompt: Option<String>,
    supervisor_active: bool,
) -> (r: Option<String>)
    ensures
        if supervisor_active {
            &&& r == todo_prompt
            &&& message_views(final(history)@) == message_views(old(history)@)
        } else {
            &&& r is None
            &&& message_views(final(history)@) == with_todo(
                message_views(old(history)@),
                option_text(todo_prompt),
            )
        },
{
    if supervisor_active {
        todo_prompt
    } else {
        append_thread_todo_system_prompt(history, &todo_prompt);
        None
    }
}

// ------------------------------------------------------------------------ its laws

/// In a chat with one user the agent is told who that is, by name, by id, or by both;
/// in any other it is not told so.
pub proof fn single_users_are_named(
    chat_type: Option<Seq<char>>,
    username: Option<Seq<char>>,
    user_id: Option<Seq<char>>,
)
    ensures
        ({
            let p = sender_prompt(chat_type, username, user_id);
            let known = named_text(username) is Some || named_text(user_id) is Some;
            &&& p is Some <==> chat_is(chat_type, "p2p"@) && known
            &&& p is Some && named_text(username) is Some ==> occurs(p->0, named_text(username)->0)
            &&& p is Some && named_text(user_id) is Some ==> occurs(p->0, named_text(user_id)->0)
        }),
{
    if chat_is(chat_type, "p2p"@) {
        match (named_text(username), named_text(user_id)) {
            (Some(name), Some(id)) => {
                let a = "当前是单聊场景。当前正在与你对话的用户是 "@ + name;
                let b = a + "（内部ID: "@;
                lemma_occurs_in_both("当前是单聊场景。当前正在与你对话的用户是 "@, name, name);
                lemma_occurs_in_both(a, "（内部ID: "@, name);
                lemma_occurs_in_both(b, id, name);
                lemma_occurs_in_both(b, id, id);
                lemma_occurs_in_both(b + id, "）。"@, name);
                lemma_occurs_in_both(b + id, "）。"@, id);
            },
            (Some(name), None) => {
                let a = "当前是单聊场景。当前正在与你对话的用户是 "@;
                lemma_occurs_in_both(a, name, name);
                lemma_occurs_in_both(a + name, "。"@, name);
            },
            (None, Some(id)) => {
                let a = "当前是单聊场景。当前正在与你对话的用户内部ID是 "@;
                lemma_occurs_in_both(a, id, id);
                lemma_occurs_in_both(a + id, "。"@, id);
            },
            (None, None) => {},
        }
    }
}

/// In a group what is said begins with who says it; in any other chat it does not.
pub proof fn speakers_are_named_in_groups(
    chat_type: Option<Seq<char>>,
    username: Option<Seq<char>>,
    text: Seq<char>,
)
    ensures
        group_prefix(chat_type, username) is Some <==> chat_is(chat_type, "group"@) && named_text(
            username,
        ) is Some,
        group_prefix(chat_type, username) matches Some(p) ==> named_text(username)->0.is_prefix_of(
            p,
        ) && ({
            let r = spoken(ContentView::Text(text), Some(p));
            r is Text && r->Text_0 == p + text
        }),
        spoken(ContentView::Text(text), None) == ContentView::Text(text),
{
    if group_prefix(chat_type, username) is Some {
        let n = named_text(username)->0;
        let p = group_prefix(chat_type, username)->0;
        assert(n =~= p.subrange(0, n.len() as int));
    }
}

/// Naming the speaker of a message with parts keeps its parts: the first text begins
/// with the name, or the name comes first.
pub proof fn naming_a_speaker_keeps_the_parts(parts: Seq<PartView>, prefix: Seq<char>)
    ensures
        ({
            let r = spoken(ContentView::Parts(parts), Some(prefix));
            &&& r is Parts
            &&& parts.len() > 0 && parts[0] is Text ==> r->Parts_0.len() == parts.len()
                && r->Parts_0[0] == PartView::Text(prefix + parts[0]->Text_0)
                && r->Parts_0.drop_first() == parts.drop_first()
            &&& !(parts.len() > 0 && parts[0] is Text) ==> r->Parts_0[0] == PartView::Text(prefix)
                && r->Parts_0.drop_first() == parts
        }),
{
    let r = spoken(ContentView::Parts(parts), Some(prefix))->Parts_0;
    if parts.len() > 0 && parts[0] is Text {
        assert(r.drop_first() =~= parts.drop_first());
    } else {
        assert(r.drop_first() =~= parts);
    }
}

/// The kind of a chat counts in whatever case it is written.
pub proof fn chats_are_told_by_kind(chat: Seq<char>, kind: Seq<char>)
    ensures
        chat_is(Some(chat), kind) <==> ascii_lowercase_text(trimmed(chat)) == kind,
        !chat_is(None, kind),
{
}

/// A skill that is loaded for a turn is told by name and source, with its paths where
/// they can be read, and with its instructions, whole but for white space at the end.
pub proof fn loaded_skills_are_told(skill: DocumentView, t: SkillPromptToolAvailability)
    ensures
        ({
            let p = injection_prompt(skill, t);
            &&& occurs(p, skill.name)
            &&& occurs(p, skill.source)
            &&& trim_end_text(skill.content).is_suffix_of(p)
            &&& skill.skill_file_path is Some && skill.resource_root_path is Some ==> occurs(
                p,
                skill.skill_file_path->0,
            ) && occurs(p, skill.resource_root_path->0)
        }),
{
    let p = injection_prompt(skill, t);
    let content = trim_end_text(skill.content);
    assert(content =~= p.subrange(p.len() - content.len(), p.len() as int));
    let a0 = "Skill `"@ + skill.name;
    let a1 = a0 + "` loaded for this turn from "@ + skill.source;
    let h = files_hint(skill, t);
    let a2 = a1 + ". "@ + h;
    assert(p == a2 + "\n\n"@ + content);
    lemma_occurs_in_both("Skill `"@, skill.name, skill.name);
    lemma_two_more(a0, "` loaded for this turn from "@, skill.source, skill.name);
    lemma_two_more(a0, "` loaded for this turn from "@, skill.source, skill.source);
    lemma_two_more(a1, ". "@, h, skill.name);
    lemma_two_more(a1, ". "@, h, skill.source);
    lemma_two_more(a2, "\n\n"@, content, skill.name);
    lemma_two_more(a2, "\n\n"@, content, skill.source);
    if skill.skill_file_path is Some && skill.resource_root_path is Some {
        let file = skill.skill_file_path->0;
        let root = skill.resource_root_path->0;
        let s = if t.fs_read {
            "Use fs_read with skill_file_path="@
        } else {
            "Supporting file paths: skill_file_path="@
        };
        let e = if t.fs_read {
            " for supporting files."@
        } else {
            "."@
        };
        let b = s + file;
        assert(h == b + "; resource_root_path="@ + root + e);
        lemma_occurs_in_both(s, file, file);
        lemma_two_more(b, "; resource_root_path="@, root, file);
        lemma_two_more(b, "; resource_root_path="@, root, root);
        lemma_occurs_in_both(b + "; resource_root_path="@ + root, e, file);
        lemma_occurs_in_both(b + "; resource_root_path="@ + root, e, root);
        lemma_two_more(a1, ". "@, h, h);
        lemma_occurs_in_both(a1 + ". "@, h, file);
        lemma_occurs_in_both(a1 + ". "@, h, root);
        lemma_two_more(a2, "\n\n"@, content, file);
        lemma_two_more(a2, "\n\n"@, content, root);
    }
}

proof fn lemma_two_more(a: Seq<char>, b: Seq<char>, c: Seq<char>, x: Seq<char>)
    ensures
        occurs(a, x) ==> occurs(a + b + c, x),
        x == c ==> occurs(a + b + c, x),
{
    lemma_occurs_in_both(a, b, x);
    lemma_occurs_in_both(a + b, c, x);
}

} // verus!
