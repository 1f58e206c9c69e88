//! How a model is reached, and what it is sent when it reads text only.
use vstd::prelude::*;
use vstd::string::*;

use crate::json::JsonMap;
use crate::message::{
    copy_option_text, message_views, option_text, part_views, Content, ContentPart, ContentView,
    Message, MessageView, PartView,
};
use crate::profile::ModelProfileConfig;
use crate::runtime::budget::DEFAULT_AUTO_COMPRESS_CONTEXT_PERCENT;
use crate::sandbox::shell::{all_digits, digits_value, numbers_are_read_as_written};
use crate::text::{
    ascii_digit, decimal, join, joined, lemma_occurs_in_both, occurs, occurs_at, pieces, split_on, str_eq,
    strip_prefix, texts, trim, trimmed, what_is_joined_is_there,
};

verus! {

broadcast use vstd::string::group_string_axioms;

// -------------------------------------------------------------------- lowering

/// What is said of an image behind a link; of one in the link itself only what
/// kind it is.
pub open spec fn lowered_link(link: Seq<char>) -> Seq<char> {
    let url = trimmed(link);
    if "data:"@.is_prefix_of(url) {
        "[image: embedded "@ + pieces(url.skip("data:"@.len() as int), ',')[0]
            + "; data omitted]"@
    } else if url.len() == 0 {
        "[image]"@
    } else {
        "[image: "@ + url + "]"@
    }
}

/// `list` with `name=value` behind it, where there is a value.
pub open spec fn with_attribute(
    list: Seq<Seq<char>>,
    name: Seq<char>,
    value: Option<Seq<char>>,
) -> Seq<Seq<char>> {
    match value {
        Some(v) if trimmed(v).len() > 0 => list.push(name + trimmed(v)),
        _ => list,
    }
}

/// What is said of a file.
pub open spec fn file_attributes(
    file_id: Option<Seq<char>>,
    filename: Option<Seq<char>>,
    media_type: Option<Seq<char>>,
    data: Option<Seq<char>>,
) -> Seq<Seq<char>> {
    let list = with_attribute(Seq::empty(), "filename="@, filename);
    let list = with_attribute(list, "media_type="@, media_type);
    let list = with_attribute(list, "file_id="@, file_id);
    if data is Some {
        list.push("embedded data omitted"@)
    } else {
        list
    }
}

/// What stands for a part of a message where the model reads text only.
pub open spec fn lowered_part(part: PartView) -> Seq<char> {
    match part {
        PartView::Text(text) => text,
        PartView::ImageUrl(url) => lowered_link(url),
        PartView::ImageBase64(media_type, _) => if trimmed(media_type).len() == 0 {
            "[image: embedded data omitted]"@
        } else {
            "[image: "@ + trimmed(media_type) + "; embedded data omitted]"@
        },
        PartView::Audio(_, format) => if trimmed(format).len() == 0 {
            "[audio: embedded data omitted]"@
        } else {
            "[audio: format="@ + trimmed(format) + "; embedded data omitted]"@
        },
        PartView::File { file_id, filename, media_type, data, .. } => {
            let list = file_attributes(file_id, filename, media_type, data);
            if list.len() == 0 {
                "[file]"@
            } else {
                "[file: "@ + joined(list, "; "@) + "]"@
            }
        },
    }
}

/// What stands for the parts that say something, in order.
pub open spec fn lowered_parts(parts: Seq<PartView>) -> Seq<Seq<char>>
    decreases parts.len(),
{
    if parts.len() == 0 {
        Seq::empty()
    } else {
        let head = lowered_parts(parts.drop_last());
        if lowered_part(parts.last()).len() == 0 {
            head
        } else {
            head.push(lowered_part(parts.last()))
        }
    }
}

/// What stands for a content where the model reads text only.
pub open spec fn lowered(content: ContentView) -> ContentView {
    match content {
        ContentView::Text(_) => content,
        ContentView::Parts(parts) => ContentView::Text(joined(lowered_parts(parts), "\n"@)),
    }
}

fn push_attribute(list: &mut Vec<String>, name: &str, value: &Option<String>)
    ensures
        texts(final(list)@) == with_attribute(texts(old(list)@), name@, option_text(*value)),
{
    if let Some(v) = value {
        let v = trim(v);
        if v.unicode_len() > 0 {
            let ghost before = texts(list@);
            let mut t = name.to_owned();
            t.push_str(&v);
            let ghost view = t@;
            list.push(t);
            assert(texts(list@) =~= before.push(view));
        }
    }
}

fn lower_link(link: &str) -> (r: String)
    ensures
        r@ == lowered_link(link@),
{
    let url = trim(link);
    match strip_prefix(&url, "data:") {
        Some(rest) => {
            let pieces = split_on(&rest, ',');
            proof {
                lemma_has_a_piece(rest@);
            }
            assert(texts(pieces@)[0] == pieces@[0]@);
            let mut t = "[image: embedded ".to_owned();
            t.push_str(&pieces[0]);
            t.push_str("; data omitted]");
            t
        },
        None => if url.unicode_len() == 0 {
            "[image]".to_owned()
        } else {
            let mut t = "[image: ".to_owned();
            t.push_str(&url);
            t.push_str("]");
            t
        },
    }
}

proof fn lemma_has_a_piece(s: Seq<char>)
    ensures
        pieces(s, ',').len() > 0,
{
}

/// What stands for a part of a message where the model reads text only.
pub fn lower_content_part_to_text(part: &ContentPart) -> (r: String)
    ensures
        r@ == lowered_part(part@),
{
    match part {
        ContentPart::Text { text } => text.clone(),
        ContentPart::ImageUrl { url } => lower_link(url),
        ContentPart::ImageBase64 { media_type, .. } => {
            let media_type = trim(media_type);
            if media_type.unicode_len() == 0 {
                "[image: embedded data omitted]".to_owned()
            } else {
                let mut t = "[image: ".to_owned();
                t.push_str(&media_type);
                t.push_str("; embedded data omitted]");
                t
            }
        },
        ContentPart::Audio { format, .. } => {
            let format = trim(format);
            if format.unicode_len() == 0 {
                "[audio: embedded data omitted]".to_owned()
            } else {
                let mut t = "[audio: format=".to_owned();
                t.push_str(&format);
                t.push_str("; embedded data omitted]");
                t
            }
        },
        ContentPart::File { file_id, filename, media_type, data, .. } => {
            let mut list: Vec<String> = Vec::new();
            assert(texts(list@) =~= Seq::<Seq<char>>::empty());
            push_attribute(&mut list, "filename=", filename);
            push_attribute(&mut list, "media_type=", media_type);
            push_attribute(&mut list, "file_id=", file_id);
            if data.is_some() {
                let ghost before = texts(list@);
                list.push("embedded data omitted".to_owned());
                assert(texts(list@) =~= before.push("embedded data omitted"@));
            }
            if list.len() == 0 {
                "[file]".to_owned()
            } else {
                let mut t = "[file: ".to_owned();
                t.push_str(&join(&list, "; "));
                t.push_str("]");
                t
            }
        },
    }
}

/// What stands for a content where the model reads text only.
pub fn lower_content_to_text(content: &Content) -> (r: Content)
    ensures
        r@ == lowered(content@),
{
    match content {
        Content::Text(_) => content.copy(),
        Content::Parts(parts) => {
            let ghost all = part_views(parts@);
            let mut said: Vec<String> = Vec::new();
            let mut i: usize = 0;
            assert(all.take(0) =~= Seq::empty());
            assert(texts(said@) =~= Seq::<Seq<char>>::empty());
            while i < parts.len()
                invariant
                    i <= parts.len(),
                    all == part_views(parts@),
                    texts(said@) == lowered_parts(all.take(i as int)),
                decreases parts.len() - i,
            {
                let ghost before = texts(said@);
                assert(all.take(i + 1).drop_last() =~= all.take(i as int));
                assert(all.take(i + 1).last() == parts@[i as int]@);
                let text = lower_content_part_to_text(&parts[i]);
                if text.unicode_len() > 0 {
                    let ghost view = text@;
                    said.push(text);
                    assert(texts(said@) =~= before.push(view));
                }
                i += 1;
            }
            assert(all.take(i as int) =~= all);
            Content::Text(join(&said, "\n"))
        },
    }
}

/// A message to a model that reads text only.
pub open spec fn lowered_message(message: MessageView) -> MessageView {
    MessageView { content: lowered(message.content), ..message }
}

pub open spec fn lowered_messages(messages: Seq<MessageView>) -> Seq<MessageView> {
    messages.map_values(|m: MessageView| lowered_message(m))
}

/// How many messages have parts.
pub open spec fn multimodal_count(messages: Seq<MessageView>) -> nat
    decreases messages.len(),
{
    if messages.len() == 0 {
        0
    } else {
        multimodal_count(messages.drop_last()) + if messages.last().content is Parts {
            1nat
        } else {
            0nat
        }
    }
}

/// Makes messages ones that a model reads which reads text only. Says how many
/// had parts.
pub fn lower_messages_for_text_model(messages: &mut Vec<Message>) -> (r: usize)
    ensures
        message_views(final(messages)@) == lowered_messages(message_views(old(messages)@)),
        r == multimodal_count(message_views(old(messages)@)),
{
    let ghost all = message_views(messages@);
    let mut out: Vec<Message> = Vec::new();
    let mut count: usize = 0;
    let mut i: usize = 0;
    assert(all.take(0) =~= Seq::empty());
    while i < messages.len()
        invariant
            i <= messages.len(),
            all == message_views(messages@),
            all == message_views(old(messages)@),
            out.len() == i,
            count <= i,
            count == multimodal_count(all.take(i as int)),
            forall|j: int| 0 <= j < i ==> (#[trigger] out@[j])@ == lowered_message(all[j]),
        decreases messages.len() - i,
    {
        assert(all.take(i + 1).drop_last() =~= all.take(i as int));
        assert(all.take(i + 1).last() == messages@[i as int]@);
        let mut message = messages[i].copy();
        if message.content.is_multimodal() {
            message.content = lower_content_to_text(&message.content);
            count += 1;
        }
        assert(message@ =~= lowered_message(all[i as int]));
        out.push(message);
        i += 1;
    }
    assert(all.take(i as int) =~= all);
    assert(message_views(out@) =~= lowered_messages(all));
    *messages = out;
    count
}

/// What a model that reads text only is sent is text, and doing it again
/// changes nothing.
pub proof fn lowering_leaves_text(messages: Seq<MessageView>)
    ensures
        forall|i: int|
            0 <= i < messages.len() ==> (#[trigger] lowered_messages(messages)[i]).content is Text,
        lowered_messages(lowered_messages(messages)) == lowered_messages(messages),
        multimodal_count(lowered_messages(messages)) == 0,
{
    let once = lowered_messages(messages);
    assert(lowered_messages(once) =~= once);
    lemma_no_parts(once);
}

proof fn lemma_no_parts(messages: Seq<MessageView>)
    requires
        forall|i: int| 0 <= i < messages.len() ==> (#[trigger] messages[i]).content is Text,
    ensures
        multimodal_count(messages) == 0,
    decreases messages.len(),
{
    if messages.len() > 0 {
        assert(messages[messages.len() - 1].content is Text);
        assert forall|i: int| 0 <= i < messages.len() - 1 implies (
        #[trigger] messages.drop_last()[i]).content is Text by {
            assert(messages[i].content is Text);
        }
        lemma_no_parts(messages.drop_last());
    }
}

/// What an embedded part holds does not reach a model that reads text only.
pub proof fn embedded_data_is_omitted(
    media_type: Seq<char>,
    format: Seq<char>,
    a: Seq<char>,
    b: Seq<char>,
)
    ensures
        lowered_part(PartView::ImageBase64(media_type, a)) == lowered_part(
            PartView::ImageBase64(media_type, b),
        ),
        lowered_part(PartView::Audio(a, format)) == lowered_part(PartView::Audio(b, format)),
{
}

// -------------------------------------------------------------------- provider

#[derive(Debug, Clone, Copy, PartialEq, Eq, Structural)]
pub enum ProviderKind {
    OpenAI,
    MiMo,
}

/// How a model is reached.
#[derive(Debug, Clone, PartialEq, Eq)]
pub struct ProviderClient {
    pub kind: ProviderKind,
    pub api_key: String,
    pub model: String,
    pub base_url: Option<String>,
    pub supports_multimodal: bool,
}

pub open spec fn provider_of(profile: ModelProfileConfig) -> ProviderKind {
    if option_text(profile.provider) == Some("mimo"@) {
        ProviderKind::MiMo
    } else {
        ProviderKind::OpenAI
    }
}

/// How the model of a profile is reached.
pub fn build_provider_client(
    api_key: &str,
    profile: &ModelProfileConfig,
    base_url: Option<String>,
) -> (r: ProviderClient)
    ensures
        r.kind == provider_of(*profile),
        r.api_key@ == api_key@,
        r.model@ == profile.model@,
        r.base_url == base_url,
        r.supports_multimodal == profile.supports_images,
{
    let kind = match &profile.provider {
        Some(p) => if str_eq(p, "mimo") {
            ProviderKind::MiMo
        } else {
            ProviderKind::OpenAI
        },
        None => ProviderKind::OpenAI,
    };
    ProviderClient {
        kind,
        api_key: api_key.to_owned(),
        model: profile.model.clone(),
        base_url,
        supports_multimodal: profile.supports_images,
    }
}

impl ProviderClient {
    /// What the model is sent: as it is where it reads all kinds of parts, else
    /// as text.
    pub fn prepare(&self, messages: &mut Vec<Message>) -> (r: usize)
        ensures
            self.supports_multimodal ==> r == 0 && *final(messages) == *old(messages),
            !self.supports_multimodal ==> {
                &&& message_views(final(messages)@) == lowered_messages(
                    message_views(old(messages)@),
                )
                &&& r == multimodal_count(message_views(old(messages)@))
            },
    {
        if self.supports_multimodal {
            0
        } else {
            lower_messages_for_text_model(messages)
        }
    }
}

/// What an agent's loop is made of.
#[derive(Debug)]
pub struct InnerAgent {
    pub client: ProviderClient,
    pub model: String,
    pub max_tokens: u32,
    pub system: String,
    pub max_turns: usize,
    /// What is sent with each request, where there is anything.
    pub extra_options: Option<JsonMap>,
}

/// What the loop of an agent is made of.
pub fn build_inner_agent(
    api_key: &str,
    profile: &ModelProfileConfig,
    system_prompt: String,
    max_turns: Option<usize>,
    extra_options: JsonMap,
) -> (r: InnerAgent)
    ensures
        r.client.kind == provider_of(*profile),
        r.client.api_key@ == api_key@,
        r.client.model@ == profile.model@,
        r.client.base_url == profile.base_url,
        r.client.supports_multimodal == profile.supports_images,
        r.model@ == profile.model@,
        r.max_tokens == profile.max_output_tokens,
        r.system == system_prompt,
        r.max_turns == (match max_turns {
            Some(n) => n,
            None => usize::MAX,
        }),
        if extra_options@.len() > 0 {
            r.extra_options == Some(extra_options)
        } else {
            r.extra_options is None
        },
{
    let client = build_provider_client(api_key, profile, copy_option_text(&profile.base_url));
    let max_turns: usize = match max_turns {
        Some(n) => n,
        None => usize::MAX,
    };
    let extra_options = if extra_options.is_empty() {
        None
    } else {
        Some(extra_options)
    };
    InnerAgent {
        client,
        model: profile.model.clone(),
        max_tokens: profile.max_output_tokens,
        system: system_prompt,
        max_turns,
        extra_options,
    }
}

// -------------------------------------------------------------------- settings

/// The number that digits stand for, with a `+` before them or not, as far as
/// a machine word holds it.
pub open spec fn counted(s: Seq<char>) -> Option<nat> {
    let digits = if s.len() > 0 && s[0] == '+' {
        s.skip(1)
    } else {
        s
    };
    if digits.len() > 0 && all_digits(digits) && digits_value(digits) <= usize::MAX {
        Some(digits_value(digits))
    } else {
        None
    }
}

/// `str::parse` to a `usize`: an optional `+` and then only digits, else an
/// error, which is handed on as its message. What the message says is not
/// stated here.
#[verifier::external_body]
pub(crate) fn parse_count(s: &str) -> (r: Result<usize, String>)
    ensures
        match counted(s@) {
            Some(n) => r is Ok && r->Ok_0 == n,
            None => r is Err,
        },
{
    s.parse::<usize>().map_err(|e| e.to_string())
}

/// A setting without the space around it, where it says something.
pub open spec fn setting(variable: Option<Seq<char>>) -> Option<Seq<char>> {
    match variable {
        Some(v) if trimmed(v).len() > 0 => Some(trimmed(v)),
        _ => None,
    }
}

fn read_setting(variable: &Option<String>) -> (r: Option<String>)
    ensures
        option_text(r) == setting(option_text(*variable)),
{
    match variable {
        Some(v) => {
            let v = trim(v);
            if v.unicode_len() > 0 {
                Some(v)
            } else {
                None
            }
        },
        None => None,
    }
}

/// What is said of a setting that is not a number.
pub open spec fn not_a_number(key: Seq<char>, raw: Seq<char>, error: Seq<char>) -> Seq<char> {
    "invalid "@ + key + " `"@ + raw + "`: "@ + error
}

fn describe_not_a_number(key: &str, raw: &str, error: &str) -> (r: String)
    ensures
        r@ == not_a_number(key@, raw@, error@),
{
    let mut t = "invalid ".to_owned();
    t.push_str(key);
    t.push_str(" `");
    t.push_str(raw);
    t.push_str("`: ");
    t.push_str(error);
    t
}

/// A percentage as it was read, from what reading it came to.
pub fn check_percent(raw: &str, parsed: Result<usize, String>) -> (r: Result<usize, String>)
    ensures
        match parsed {
            Err(e) => {
                &&& r is Err
                &&& r->Err_0@ == not_a_number("REMI_AUTO_COMPRESS_CONTEXT_PERCENT"@, raw@, e@)
            },
            Ok(n) => if 1 <= n <= 100 {
                r == Ok::<usize, String>(n)
            } else {
                &&& r is Err
                &&& r->Err_0@
                    == "REMI_AUTO_COMPRESS_CONTEXT_PERCENT must be between 1 and 100"@
            },
        },
{
    match parsed {
        Err(e) => Err(describe_not_a_number("REMI_AUTO_COMPRESS_CONTEXT_PERCENT", raw, &e)),
        Ok(n) => if 1 <= n && n <= 100 {
            Ok(n)
        } else {
            Err("REMI_AUTO_COMPRESS_CONTEXT_PERCENT must be between 1 and 100".to_owned())
        },
    }
}

/// How much of its context a conversation fills before it is cut, by the
/// variable `REMI_AUTO_COMPRESS_CONTEXT_PERCENT`.
pub fn auto_compress_context_percent(variable: &Option<String>) -> (r: Result<usize, String>)
    ensures
        match setting(option_text(*variable)) {
            None => r == Ok::<usize, String>(DEFAULT_AUTO_COMPRESS_CONTEXT_PERCENT),
            Some(raw) => match counted(raw) {
                Some(n) => if 1 <= n <= 100 {
                    r is Ok && r->Ok_0 == n
                } else {
                    &&& r is Err
                    &&& r->Err_0@
                        == "REMI_AUTO_COMPRESS_CONTEXT_PERCENT must be between 1 and 100"@
                },
                None => {
                    &&& r is Err
                    &&& says_not_a_number(
                        r->Err_0@,
                        "REMI_AUTO_COMPRESS_CONTEXT_PERCENT"@,
                        raw,
                    )
                },
            },
        },
{
    match read_setting(variable) {
        None => Ok(DEFAULT_AUTO_COMPRESS_CONTEXT_PERCENT),
        Some(raw) => check_percent(&raw, parse_count(&raw)),
    }
}

/// The size from which a tool's output is cut, from what reading it came to.
pub fn check_overflow_bytes(key: &str, raw: &str, parsed: Result<usize, String>) -> (r: Result<
    Option<usize>,
    String,
>)
    ensures
        match parsed {
            Err(e) => r is Err && r->Err_0@ == not_a_number(key@, raw@, e@),
            Ok(n) => if n > 0 {
                r == Ok::<Option<usize>, String>(Some(n))
            } else {
                r is Err && r->Err_0@ == key@ + " must be greater than 0"@
            },
        },
{
    match parsed {
        Err(e) => Err(describe_not_a_number(key, raw, &e)),
        Ok(n) => if n > 0 {
            Ok(Some(n))
        } else {
            let mut t = key.to_owned();
            t.push_str(" must be greater than 0");
            Err(t)
        },
    }
}

/// Whether a message says that a setting is not a number, whatever it adds.
pub open spec fn says_not_a_number(message: Seq<char>, key: Seq<char>, raw: Seq<char>) -> bool {
    exists|e: Seq<char>| message == #[trigger] not_a_number(key, raw, e)
}

/// The first of two settings that says something, with its name.
pub open spec fn first_setting(
    overflow: Option<Seq<char>>,
    older: Option<Seq<char>>,
) -> Option<(Seq<char>, Seq<char>)> {
    match (setting(overflow), setting(older)) {
        (Some(raw), _) => Some(("REMI_TOOL_OUTPUT_OVERFLOW_BYTES"@, raw)),
        (None, Some(raw)) => Some(("REMI_OVERFLOW_BYTES"@, raw)),
        (None, None) => None,
    }
}

/// The size from which a tool's output is cut, by the variables
/// `REMI_TOOL_OUTPUT_OVERFLOW_BYTES` and `REMI_OVERFLOW_BYTES`.
pub fn tool_output_overflow_bytes_from_env(overflow: &Option<String>, older: &Option<String>) -> (r:
    Result<Option<usize>, String>)
    ensures
        match first_setting(option_text(*overflow), option_text(*older)) {
            None => r == Ok::<Option<usize>, String>(None),
            Some((key, raw)) => match counted(raw) {
                Some(n) => if n > 0 {
                    r is Ok && r->Ok_0 is Some && r->Ok_0->0 == n
                } else {
                    r is Err && r->Err_0@ == key + " must be greater than 0"@
                },
                None => {
                    &&& r is Err
                    &&& says_not_a_number(r->Err_0@, key, raw)
                },
            },
        },
{
    match read_setting(overflow) {
        Some(raw) => {
            let parsed = parse_count(&raw);
            check_overflow_bytes("REMI_TOOL_OUTPUT_OVERFLOW_BYTES", &raw, parsed)
        },
        None => match read_setting(older) {
            Some(raw) => {
                let parsed = parse_count(&raw);
                check_overflow_bytes("REMI_OVERFLOW_BYTES", &raw, parsed)
            },
            None => Ok(None),
        },
    }
}

/// What is written in a message is kept when it is lowered, in its order.
pub proof fn lowering_keeps_what_is_written(parts: Seq<PartView>, i: int)
    requires
        0 <= i < parts.len(),
    ensures
        parts[i] matches PartView::Text(t) ==> t.len() > 0 ==> occurs(
            lowered(ContentView::Parts(parts))->Text_0,
            t,
        ),
        lowered_part(parts[i]).len() > 0 ==> occurs(
            lowered(ContentView::Parts(parts))->Text_0,
            lowered_part(parts[i]),
        ),
{
    if lowered_part(parts[i]).len() > 0 {
        lemma_lowered_has(parts, i);
        let all = lowered_parts(parts);
        let k = choose|k: int| 0 <= k < all.len() && all[k] == lowered_part(parts[i]);
        what_is_joined_is_there(all, "\n"@, k);
    }
}

proof fn lemma_lowered_has(parts: Seq<PartView>, i: int)
    requires
        0 <= i < parts.len(),
        lowered_part(parts[i]).len() > 0,
    ensures
        lowered_parts(parts).contains(lowered_part(parts[i])),
    decreases parts.len(),
{
    let x = lowered_part(parts[i]);
    let all = lowered_parts(parts);
    if i < parts.len() - 1 {
        let head = lowered_parts(parts.drop_last());
        lemma_lowered_has(parts.drop_last(), i);
        let k = choose|k: int| 0 <= k < head.len() && head[k] == x;
        assert(all[k] == x);
    } else {
        assert(all[all.len() - 1] == x);
    }
}

/// Lowering changes the content of messages and nothing else of them; plain text
/// stays as it is.
pub proof fn lowering_changes_content_only(messages: Seq<MessageView>, i: int)
    requires
        0 <= i < messages.len(),
    ensures
        ({
            let r = lowered_messages(messages);
            &&& r.len() == messages.len()
            &&& r[i] == MessageView { content: r[i].content, ..messages[i] }
            &&& messages[i].content is Text ==> r[i] == messages[i]
        }),
{
}

/// A link is told as it is, without white space round it; of data in a link only the
/// kind is told.
pub proof fn links_are_told(link: Seq<char>)
    ensures
        !"data:"@.is_prefix_of(trimmed(link)) && trimmed(link).len() > 0 ==> occurs(
            lowered_link(link),
            trimmed(link),
        ),
{
    let u = trimmed(link);
    lemma_occurs_in_both("[image: "@, u, u);
    lemma_occurs_in_both("[image: "@ + u, "]"@, u);
}

/// A setting that is blank is none; of the two for the same thing the newer counts.
pub proof fn newer_settings_count(newer: Option<Seq<char>>, older: Option<Seq<char>>)
    ensures
        setting(newer) is Some <==> newer is Some && trimmed(newer->0).len() > 0,
        setting(newer) is Some ==> setting(newer)->0 == trimmed(newer->0),
        match first_setting(newer, older) {
            Some((_, raw)) => raw == (if setting(newer) is Some {
                trimmed(newer->0)
            } else {
                trimmed(older->0)
            }),
            None => setting(newer) is None && setting(older) is None,
        },
{
}

/// A count that is written down is read as what it is.
pub proof fn counts_are_read_as_written(n: nat)
    requires
        n <= usize::MAX,
    ensures
        counted(decimal(n)) == Some(n),
{
    numbers_are_read_as_written(n);
    assert(ascii_digit(decimal(n)[0]));
}

/// Of data that is embedded the kind is told where it is known, and never the data.
pub proof fn the_kind_of_data_is_told(media_type: Seq<char>, format: Seq<char>, data: Seq<char>)
    ensures
        occurs(lowered_part(PartView::ImageBase64(media_type, data)), trimmed(media_type)),
        occurs(lowered_part(PartView::Audio(data, format)), trimmed(format)),
        trimmed(media_type).len() > 0 ==> lowered_part(PartView::ImageBase64(media_type, data))
            == "[image: "@ + trimmed(media_type) + "; embedded data omitted]"@,
        trimmed(format).len() > 0 ==> lowered_part(PartView::Audio(data, format))
            == "[audio: format="@ + trimmed(format) + "; embedded data omitted]"@,
{
    let m = trimmed(media_type);
    let f = trimmed(format);
    lemma_occurs_in_both("[image: "@, m, m);
    lemma_occurs_in_both("[image: "@ + m, "; embedded data omitted]"@, m);
    lemma_occurs_in_both("[audio: format="@, f, f);
    lemma_occurs_in_both("[audio: format="@ + f, "; embedded data omitted]"@, f);
    let i = lowered_part(PartView::ImageBase64(media_type, data));
    let a = lowered_part(PartView::Audio(data, format));
    if m.len() == 0 {
        assert(i.subrange(0, 0) =~= m);
        assert(occurs_at(i, m, 0));
    }
    if f.len() == 0 {
        assert(a.subrange(0, 0) =~= f);
        assert(occurs_at(a, f, 0));
    }
}

/// A file is told of by its name, its kind and its id, as far as they are known.
pub proof fn files_are_told_of(
    file_id: Option<Seq<char>>,
    filename: Option<Seq<char>>,
    media_type: Option<Seq<char>>,
    data: Option<Seq<char>>,
)
    ensures
        ({
            let list = file_attributes(file_id, filename, media_type, data);
            &&& filename is Some && trimmed(filename->0).len() > 0 ==> list.contains(
                "filename="@ + trimmed(filename->0),
            )
            &&& media_type is Some && trimmed(media_type->0).len() > 0 ==> list.contains(
                "media_type="@ + trimmed(media_type->0),
            )
            &&& file_id is Some && trimmed(file_id->0).len() > 0 ==> list.contains(
                "file_id="@ + trimmed(file_id->0),
            )
            &&& data is Some ==> list.contains("embedded data omitted"@)
        }),
{
    let l0 = Seq::<Seq<char>>::empty();
    let l1 = with_attribute(l0, "filename="@, filename);
    let l2 = with_attribute(l1, "media_type="@, media_type);
    let l3 = with_attribute(l2, "file_id="@, file_id);
    let list = file_attributes(file_id, filename, media_type, data);
    assert forall|i: int| 0 <= i < l1.len() implies list[i] == l1[i] by {}
    assert forall|i: int| 0 <= i < l2.len() implies list[i] == l2[i] by {}
    assert forall|i: int| 0 <= i < l3.len() implies list[i] == l3[i] by {}
    if filename is Some && trimmed(filename->0).len() > 0 {
        assert(list[0] == "filename="@ + trimmed(filename->0));
    }
    if media_type is Some && trimmed(media_type->0).len() > 0 {
        assert(list[l2.len() - 1] == "media_type="@ + trimmed(media_type->0));
    }
    if file_id is Some && trimmed(file_id->0).len() > 0 {
        assert(list[l3.len() - 1] == "file_id="@ + trimmed(file_id->0));
    }
    if data is Some {
        assert(list[list.len() - 1] == "embedded data omitted"@);
    }
}

} // verus!
