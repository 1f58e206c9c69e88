//! Reading a skill file: its frontmatter, and what that says of the skill.
use vstd::prelude::*;
use vstd::string::*;

use serde_yaml::Value;

use crate::error::{AgentError, ErrorView};
use crate::skill::names::{
    canonical_name, canonical_name_text, normalize_skill_name, normalized_name, truncate_chars,
};
use crate::text::{
    among, drop_leading, find, first_chars, index_of, is_blank, lemma_drop_leading_is_suffix,
    skip_chars, str_eq, strip_prefix, take_chars, texts, trim, trim_start, trim_start_chars,
    trim_start_text, trimmed, white,
};

verus! {

broadcast use vstd::string::group_string_axioms;

// ------------------------------------------------------------- frontmatter

/// A text without byte order marks and white space in front.
pub open spec fn unmarked(s: Seq<char>) -> Seq<char> {
    trim_start_text(drop_leading(s, among("\u{feff}"@)))
}

/// What follows the opening of a comment that `s` begins with.
pub open spec fn comment_rest(s: Seq<char>) -> Option<Seq<char>> {
    if "<!--"@.is_prefix_of(s) {
        Some(s.skip("<!--"@.len() as int))
    } else if "<--"@.is_prefix_of(s) {
        Some(s.skip("<--"@.len() as int))
    } else {
        None
    }
}

/// A text without the byte order marks, white space and comments that it begins
/// with.
pub open spec fn without_preamble(s: Seq<char>) -> Seq<char>
    decreases s.len(),
{
    let t = unmarked(s);
    match comment_rest(t) {
        None => t,
        Some(rest) => match index_of(rest, "-->"@) {
            None => t,
            Some(end) => {
                let next = rest.skip(end + "-->"@.len());
                if next.len() < s.len() {
                    without_preamble(next)
                } else {
                    t
                }
            },
        },
    }
}

/// The frontmatter of a file and what follows it, where the file has one: it
/// stands between `---` at the start and a line that begins with `---`.
pub open spec fn frontmatter_parts(content: Seq<char>) -> Option<(Seq<char>, Seq<char>)> {
    let clean = without_preamble(content);
    if "---"@.is_prefix_of(clean) {
        let rest = drop_leading(clean.skip("---"@.len() as int), among("\n"@));
        match index_of(rest, "\n---"@) {
            Some(end) => Some(
                (
                    rest.take(end),
                    drop_leading(rest.skip(end + "\n---"@.len()), among("\n"@)),
                ),
            ),
            None => None,
        }
    } else {
        None
    }
}

proof fn lemma_unmarked_len(s: Seq<char>)
    ensures
        unmarked(s).len() <= s.len(),
{
    lemma_drop_leading_is_suffix(s, among("\u{feff}"@));
    lemma_drop_leading_is_suffix(drop_leading(s, among("\u{feff}"@)), crate::text::white());
}

/// A text without the byte order marks, white space and comments that it begins
/// with.
pub fn trim_leading_skill_preamble(content: &str) -> (r: String)
    ensures
        r@ == without_preamble(content@),
    decreases content@.len(),
{
    let bare = trim_start_chars(content, "\u{feff}");
    let text = trim_start(&bare);
    let opened = match strip_prefix(&text, "<!--") {
        Some(rest) => Some(rest),
        None => strip_prefix(&text, "<--"),
    };
    match opened {
        None => text,
        Some(rest) => match find(&rest, "-->") {
            None => text,
            Some(end) => {
                proof {
                    reveal_strlit("<!--");
                    reveal_strlit("<--");
                    reveal_strlit("-->");
                    lemma_unmarked_len(content@);
                }
                let next = skip_chars(&rest, end + 3);
                trim_leading_skill_preamble(&next)
            },
        },
    }
}

/// The frontmatter of a file and what follows it, where the file has one.
pub fn split_frontmatter(content: &str) -> (r: Option<(String, String)>)
    ensures
        match r {
            Some((front, body)) => frontmatter_parts(content@) == Some((front@, body@)),
            None => frontmatter_parts(content@) is None,
        },
{
    let clean = trim_leading_skill_preamble(content);
    match strip_prefix(&clean, "---") {
        None => None,
        Some(opened) => {
            let rest = trim_start_chars(&opened, "\n");
            match find(&rest, "\n---") {
                None => None,
                Some(end) => {
                    proof {
                        reveal_strlit("\n---");
                        assert(first_chars(rest@, end as int) =~= rest@.take(end as int));
                    }
                    let front = take_chars(&rest, end);
                    let tail = skip_chars(&rest, end + 4);
                    let body = trim_start_chars(&tail, "\n");
                    Some((front, body))
                },
            }
        },
    }
}

// ------------------------------------------------------------------ fields

/// The value of a frontmatter field, as far as it is read.
#[derive(Debug)]
pub enum FieldValue {
    Null,
    Bool(bool),
    /// A number, as it is written.
    Number(String),
    Text(String),
    /// A list, a map or a tagged value.
    Compound,
}

pub enum FieldView {
    Null,
    Bool(bool),
    Number(Seq<char>),
    Text(Seq<char>),
    Compound,
}

impl View for FieldValue {
    type V = FieldView;

    open spec fn view(&self) -> FieldView {
        match self {
            FieldValue::Null => FieldView::Null,
            FieldValue::Bool(b) => FieldView::Bool(*b),
            FieldValue::Number(s) => FieldView::Number(s@),
            FieldValue::Text(s) => FieldView::Text(s@),
            FieldValue::Compound => FieldView::Compound,
        }
    }
}

/// The fields of a frontmatter, each with its key where that is a text.
pub type Fields = Vec<(Option<String>, FieldValue)>;

pub open spec fn field_view(f: (Option<String>, FieldValue)) -> (Option<Seq<char>>, FieldView) {
    (
        match f.0 {
            Some(k) => Some(k@),
            None => None,
        },
        f.1@,
    )
}

pub open spec fn field_views(fields: Seq<(Option<String>, FieldValue)>) -> Seq<
    (Option<Seq<char>>, FieldView),
> {
    fields.map_values(|f: (Option<String>, FieldValue)| field_view(f))
}

/// What `serde_yaml::from_str` makes of a text: the fields of a mapping, nothing
/// for a value of another shape, or the message of its error.
pub uninterp spec fn parsed_yaml(text: Seq<char>) -> Result<
    Option<Seq<(Option<Seq<char>>, FieldView)>>,
    Seq<char>,
>;

/// `serde_yaml::from_str`, which depends on the text alone. Of a mapping the
/// fields are handed on in their order, each key and value for itself.
#[verifier::external_body]
fn parse_yaml(text: &str) -> (r: Result<Option<Fields>, String>)
    ensures
        match r {
            Ok(Some(fields)) => parsed_yaml(text@) == Ok::<
                Option<Seq<(Option<Seq<char>>, FieldView)>>,
                Seq<char>,
            >(Some(field_views(fields@))),
            Ok(None) => parsed_yaml(text@) == Ok::<
                Option<Seq<(Option<Seq<char>>, FieldView)>>,
                Seq<char>,
            >(None),
            Err(e) => parsed_yaml(text@) == Err::<
                Option<Seq<(Option<Seq<char>>, FieldView)>>,
                Seq<char>,
            >(e@),
        },
{
    let key = |k: &Value| match k {
        Value::String(s) => Some(s.clone()),
        _ => None,
    };
    let value = |v: &Value| match v {
        Value::Null => FieldValue::Null,
        Value::Bool(b) => FieldValue::Bool(*b),
        Value::Number(n) => FieldValue::Number(n.to_string()),
        Value::String(s) => FieldValue::Text(s.clone()),
        _ => FieldValue::Compound,
    };
    serde_yaml::from_str::<Value>(text).map_err(|e| e.to_string()).map(
        |v| v.as_mapping().map(|m| m.iter().map(|(k, v)| (key(k), value(v))).collect()))
}

/// The value of the first field under `name`.
pub open spec fn field_of(
    fields: Seq<(Option<Seq<char>>, FieldView)>,
    name: Seq<char>,
) -> Option<FieldView>
    decreases fields.len(),
{
    if fields.len() == 0 {
        None
    } else if fields[0].0 == Some(name) {
        Some(fields[0].1)
    } else {
        field_of(fields.drop_first(), name)
    }
}

/// The text that a scalar field stands for.
pub open spec fn scalar_text(v: Option<FieldView>) -> Option<Seq<char>> {
    match v {
        Some(FieldView::Text(s)) => Some(s),
        Some(FieldView::Number(s)) => Some(s),
        Some(FieldView::Bool(b)) => Some(
            if b {
                "true"@
            } else {
                "false"@
            },
        ),
        _ => None,
    }
}

proof fn lemma_field_of(
    fields: Seq<(Option<Seq<char>>, FieldView)>,
    name: Seq<char>,
    k: int,
)
    requires
        0 <= k <= fields.len(),
        forall|j: int| 0 <= j < k ==> (#[trigger] fields[j]).0 != Some(name),
    ensures
        k < fields.len() && fields[k].0 == Some(name) ==> field_of(fields, name) == Some(
            fields[k].1,
        ),
        k == fields.len() ==> field_of(fields, name) is None,
    decreases fields.len(),
{
    if k > 0 {
        let t = fields.drop_first();
        assert(fields[0].0 != Some(name));
        assert forall|j: int| 0 <= j < k - 1 implies (#[trigger] t[j]).0 != Some(name) by {
            assert(t[j] == fields[j + 1]);
        }
        lemma_field_of(t, name, k - 1);
    }
}

fn yaml_field<'a>(fields: &'a Fields, name: &str) -> (r: Option<&'a FieldValue>)
    ensures
        match r {
            Some(v) => field_of(field_views(fields@), name@) == Some(v@),
            None => field_of(field_views(fields@), name@) is None,
        },
{
    let ghost views = field_views(fields@);
    let mut i: usize = 0;
    while i < fields.len()
        invariant
            i <= fields.len(),
            views == field_views(fields@),
            forall|j: int| 0 <= j < i ==> (#[trigger] views[j]).0 != Some(name@),
        decreases fields.len() - i,
    {
        assert(views[i as int] == field_view(fields@[i as int]));
        if let Some(key) = &fields[i].0 {
            if str_eq(key, name) {
                proof {
                    lemma_field_of(views, name@, i as int);
                }
                return Some(&fields[i].1);
            }
        }
        i += 1;
    }
    proof {
        lemma_field_of(views, name@, i as int);
    }
    None
}

fn yaml_scalarish_string(value: Option<&FieldValue>) -> (r: Option<String>)
    ensures
        match r {
            Some(s) => scalar_text(option_field(value)) == Some(s@),
            None => scalar_text(option_field(value)) is None,
        },
{
    match value {
        Some(FieldValue::Text(s)) => Some(s.clone()),
        Some(FieldValue::Number(s)) => Some(s.clone()),
        Some(FieldValue::Bool(b)) => Some(
            if *b {
                "true".to_owned()
            } else {
                "false".to_owned()
            },
        ),
        _ => None,
    }
}

pub open spec fn option_field(value: Option<&FieldValue>) -> Option<FieldView> {
    match value {
        Some(v) => Some(v@),
        None => None,
    }
}

// -------------------------------------------------------------------- skill

/// What a skill file says of its skill.
#[derive(Debug)]
pub struct ParsedSkill {
    pub name: String,
    pub description: String,
    pub pin: bool,
    pub warnings: Vec<String>,
}

#[verifier::ext_equal]
pub struct ParsedSkillView {
    pub name: Seq<char>,
    pub description: Seq<char>,
    pub pin: bool,
    pub warnings: Seq<Seq<char>>,
}

impl View for ParsedSkill {
    type V = ParsedSkillView;

    open spec fn view(&self) -> ParsedSkillView {
        ParsedSkillView {
            name: self.name@,
            description: self.description@,
            pin: self.pin,
            warnings: texts(self.warnings@),
        }
    }
}

impl ParsedSkill {
    pub fn copy(&self) -> (r: ParsedSkill)
        ensures
            r@ == self@,
    {
        let mut warnings: Vec<String> = Vec::new();
        let mut i: usize = 0;
        while i < self.warnings.len()
            invariant
                i <= self.warnings.len(),
                warnings@ == self.warnings@.take(i as int),
            decreases self.warnings.len() - i,
        {
            warnings.push(self.warnings[i].clone());
            i += 1;
            assert(self.warnings@.take(i as int) =~= self.warnings@.take(i - 1).push(
                self.warnings@[i - 1],
            ));
        }
        assert(self.warnings@.take(i as int) =~= self.warnings@);
        ParsedSkill {
            name: self.name.clone(),
            description: self.description.clone(),
            pin: self.pin,
            warnings,
        }
    }
}

/// A field of a frontmatter that may be missing.
pub open spec fn meta_field(
    fields: Option<Seq<(Option<Seq<char>>, FieldView)>>,
    name: Seq<char>,
) -> Option<FieldView> {
    match fields {
        Some(f) => field_of(f, name),
        None => None,
    }
}

/// The name that a frontmatter gives, where it gives one that is not blank.
pub open spec fn given_name(
    fields: Option<Seq<(Option<Seq<char>>, FieldView)>>,
) -> Option<Seq<char>> {
    match scalar_text(meta_field(fields, "name"@)) {
        Some(n) => if trimmed(n).len() > 0 {
            Some(n)
        } else {
            None
        },
        None => None,
    }
}

/// The name of the skill: that of the frontmatter, else that of the directory.
pub open spec fn skill_name(
    dir_name: Seq<char>,
    fields: Option<Seq<(Option<Seq<char>>, FieldView)>>,
) -> Option<Seq<char>> {
    let source = match given_name(fields) {
        Some(n) => n,
        None => dir_name,
    };
    match normalized_name(source) {
        Some(n) => Some(n),
        None => normalized_name(dir_name),
    }
}

/// The description that a frontmatter gives, where it gives one.
pub open spec fn given_description(
    fields: Option<Seq<(Option<Seq<char>>, FieldView)>>,
) -> Option<Seq<char>> {
    match scalar_text(meta_field(fields, "description"@)) {
        Some(d) => if trimmed(d).len() > 0 {
            Some(trimmed(d))
        } else {
            None
        },
        None => None,
    }
}

/// The longest description.
pub open spec fn description_limit() -> int {
    1024
}

/// What is said of the name.
pub open spec fn name_warnings(
    dir_name: Seq<char>,
    given: Option<Seq<char>>,
    name: Seq<char>,
) -> Seq<Seq<char>> {
    let first = match given {
        None => seq![
            "missing or non-string frontmatter name; using `"@ + name + "` from directory name"@,
        ],
        Some(g) => if g != name {
            seq!["normalized frontmatter name `"@ + g + "` to `"@ + name + "`"@]
        } else {
            seq![]
        },
    };
    if canonical_name_text(dir_name) != canonical_name_text(name) {
        first.push(
            "frontmatter name `"@ + name + "` does not match leaf directory `"@ + dir_name + "`"@,
        )
    } else {
        first
    }
}

/// What is said of the field `pin`.
pub open spec fn pin_warnings(field: Option<FieldView>) -> Seq<Seq<char>> {
    match field {
        None => seq![],
        Some(FieldView::Bool(_)) => seq![],
        Some(_) => seq!["frontmatter field `pin` must be boolean; using false"@],
    }
}

/// What is said of an optional field that should be a scalar.
pub open spec fn scalar_warnings(
    fields: Option<Seq<(Option<Seq<char>>, FieldView)>>,
    name: Seq<char>,
) -> Seq<Seq<char>> {
    match meta_field(fields, name) {
        Some(FieldView::Compound) => seq![
            "frontmatter field `"@ + name + "` uses a non-scalar value; accepted leniently"@,
        ],
        _ => seq![],
    }
}

/// What the fields of a frontmatter say of a skill, with `warnings` before those
/// that they give rise to.
pub open spec fn skill_of_fields(
    dir_name: Seq<char>,
    warnings: Seq<Seq<char>>,
    fields: Option<Seq<(Option<Seq<char>>, FieldView)>>,
) -> Result<ParsedSkillView, ErrorView> {
    match skill_name(dir_name, fields) {
        None => Err(ErrorView::Other("skill requires a usable name or directory name"@)),
        Some(name) => match given_description(fields) {
            None => Err(
                ErrorView::Other("skill requires a non-empty frontmatter description"@),
            ),
            Some(description) => {
                let long = description.len() > description_limit();
                Ok(
                    ParsedSkillView {
                        name,
                        description: first_chars(description, description_limit()),
                        pin: meta_field(fields, "pin"@) == Some(FieldView::Bool(true)),
                        warnings: warnings + name_warnings(dir_name, given_name(fields), name) + (
                        if long {
                            seq!["description exceeded 1024 characters; truncated"@]
                        } else {
                            seq![]
                        }) + pin_warnings(meta_field(fields, "pin"@)) + scalar_warnings(
                            fields,
                            "compatibility"@,
                        ) + scalar_warnings(fields, "metadata"@) + scalar_warnings(
                            fields,
                            "allowed-tools"@,
                        ) + scalar_warnings(fields, "license"@),
                    },
                )
            },
        },
    }
}

/// What a skill file says of its skill.
pub open spec fn skill_of_markdown(dir_name: Seq<char>, content: Seq<char>) -> Result<
    ParsedSkillView,
    ErrorView,
> {
    let warnings = match frontmatter_parts(content) {
        Some(_) => Seq::<Seq<char>>::empty(),
        None => seq![
            "missing YAML frontmatter; inferred skill metadata from file content"@,
        ],
    };
    let front = match frontmatter_parts(content) {
        Some(parts) => parts.0,
        None => ""@,
    };
    if trimmed(front).len() == 0 {
        skill_of_fields(dir_name, warnings, Some(seq![]))
    } else {
        match parsed_yaml(front) {
            Ok(fields) => skill_of_fields(dir_name, warnings, fields),
            Err(e) => Err(ErrorView::Other("invalid skill frontmatter: "@ + e)),
        }
    }
}

pub open spec fn option_fields(fields: Option<Fields>) -> Option<
    Seq<(Option<Seq<char>>, FieldView)>,
> {
    match fields {
        Some(f) => Some(field_views(f@)),
        None => None,
    }
}

fn get_field<'a>(fields: &'a Option<Fields>, name: &str) -> (r: Option<&'a FieldValue>)
    ensures
        option_field(r) == meta_field(option_fields(*fields), name@),
{
    match fields {
        Some(f) => yaml_field(f, name),
        None => None,
    }
}

fn warn(warnings: &mut Vec<String>, text: String)
    ensures
        texts(final(warnings)@) == texts(old(warnings)@).push(text@),
{
    let ghost before = texts(warnings@);
    let ghost added = text@;
    warnings.push(text);
    assert(texts(warnings@) =~= before.push(added));
}

fn warn_of_name(warnings: &mut Vec<String>, dir_name: &str, given: &Option<String>, name: &str)
    ensures
        texts(final(warnings)@) == texts(old(warnings)@) + name_warnings(
            dir_name@,
            crate::message::option_text(*given),
            name@,
        ),
{
    let ghost before = texts(warnings@);
    match given {
        None => {
            let mut text = "missing or non-string frontmatter name; using `".to_owned();
            text.push_str(name);
            text.push_str("` from directory name");
            warn(warnings, text);
        },
        Some(g) => {
            if !str_eq(g, name) {
                let mut text = "normalized frontmatter name `".to_owned();
                text.push_str(g);
                text.push_str("` to `");
                text.push_str(name);
                text.push_str("`");
                warn(warnings, text);
            }
        },
    }
    if !str_eq(&canonical_name(dir_name), &canonical_name(name)) {
        let mut text = "frontmatter name `".to_owned();
        text.push_str(name);
        text.push_str("` does not match leaf directory `");
        text.push_str(dir_name);
        text.push_str("`");
        warn(warnings, text);
    }
    assert(texts(warnings@) =~= before + name_warnings(
        dir_name@,
        crate::message::option_text(*given),
        name@,
    ));
}

fn warn_of_scalar(warnings: &mut Vec<String>, fields: &Option<Fields>, name: &str)
    ensures
        texts(final(warnings)@) == texts(old(warnings)@) + scalar_warnings(
            option_fields(*fields),
            name@,
        ),
{
    let ghost before = texts(warnings@);
    if let Some(FieldValue::Compound) = get_field(fields, name) {
        let mut text = "frontmatter field `".to_owned();
        text.push_str(name);
        text.push_str("` uses a non-scalar value; accepted leniently");
        warn(warnings, text);
    }
    assert(texts(warnings@) =~= before + scalar_warnings(option_fields(*fields), name@));
}

fn read_given_name(fields: &Option<Fields>) -> (r: Option<String>)
    ensures
        crate::message::option_text(r) == given_name(option_fields(*fields)),
{
    match yaml_scalarish_string(get_field(fields, "name")) {
        Some(n) => if is_blank(&n) {
            None
        } else {
            Some(n)
        },
        None => None,
    }
}

fn read_name(dir_name: &str, given: &Option<String>) -> (r: Option<String>)
    ensures
        crate::message::option_text(r) == ({
            let source = match crate::message::option_text(*given) {
                Some(n) => n,
                None => dir_name@,
            };
            match normalized_name(source) {
                Some(n) => Some(n),
                None => normalized_name(dir_name@),
            }
        }),
{
    let first = match given {
        Some(g) => normalize_skill_name(g),
        None => normalize_skill_name(dir_name),
    };
    match first {
        Some(n) => Some(n),
        None => normalize_skill_name(dir_name),
    }
}

fn read_description(fields: &Option<Fields>) -> (r: Option<String>)
    ensures
        crate::message::option_text(r) == given_description(option_fields(*fields)),
{
    match yaml_scalarish_string(get_field(fields, "description")) {
        Some(d) => {
            let t = trim(&d);
            if t.as_str().is_empty() {
                None
            } else {
                Some(t)
            }
        },
        None => None,
    }
}

/// What the fields of a frontmatter say of a skill.
pub fn skill_from_fields(
    dir_name: &str,
    warnings: Vec<String>,
    fields: &Option<Fields>,
) -> (r: Result<ParsedSkill, AgentError>)
    ensures
        match r {
            Ok(p) => skill_of_fields(dir_name@, texts(warnings@), option_fields(*fields)) == Ok::<
                ParsedSkillView,
                ErrorView,
            >(p@),
            Err(e) => skill_of_fields(dir_name@, texts(warnings@), option_fields(*fields)) == Err::<
                ParsedSkillView,
                ErrorView,
            >(e@),
        },
{
    let ghost start = texts(warnings@);
    let ghost given_fields = option_fields(*fields);
    let mut warnings = warnings;
    let given = read_given_name(fields);
    match read_name(dir_name, &given) {
        None => Err(AgentError::other("skill requires a usable name or directory name")),
        Some(name) => match read_description(fields) {
            None => Err(
                AgentError::other("skill requires a non-empty frontmatter description"),
            ),
            Some(whole) => {
                warn_of_name(&mut warnings, dir_name, &given, &name);
                let ghost named = texts(warnings@);
                let long = whole.as_str().unicode_len() > 1024;
                let description = truncate_chars(&whole, 1024);
                if long {
                    warn(
                        &mut warnings,
                        "description exceeded 1024 characters; truncated".to_owned(),
                    );
                }
                let ghost described = texts(warnings@);
                let pin_field = get_field(fields, "pin");
                let pin = match pin_field {
                    None => false,
                    Some(FieldValue::Bool(b)) => *b,
                    Some(_) => {
                        warn(
                            &mut warnings,
                            "frontmatter field `pin` must be boolean; using false".to_owned(),
                        );
                        false
                    },
                };
                proof {
                    let long_warning = if whole@.len() > description_limit() {
                        seq!["description exceeded 1024 characters; truncated"@]
                    } else {
                        seq![]
                    };
                    assert(described =~= named + long_warning);
                    assert(texts(warnings@) =~= described + pin_warnings(
                        meta_field(given_fields, "pin"@),
                    ));
                }
                warn_of_scalar(&mut warnings, fields, "compatibility");
                warn_of_scalar(&mut warnings, fields, "metadata");
                warn_of_scalar(&mut warnings, fields, "allowed-tools");
                warn_of_scalar(&mut warnings, fields, "license");
                Ok(ParsedSkill { name, description, pin, warnings })
            },
        },
    }
}

/// What a skill file says of its skill.
pub fn parse_skill_markdown(dir_name: &str, content: &str) -> (r: Result<ParsedSkill, AgentError>)
    ensures
        match r {
            Ok(p) => skill_of_markdown(dir_name@, content@) == Ok::<ParsedSkillView, ErrorView>(p@),
            Err(e) => skill_of_markdown(dir_name@, content@) == Err::<ParsedSkillView, ErrorView>(
                e@,
            ),
        },
{
    let mut warnings: Vec<String> = Vec::new();
    assert(texts(warnings@) =~= Seq::<Seq<char>>::empty());
    let front = match split_frontmatter(content) {
        Some(parts) => parts.0,
        None => {
            warn(
                &mut warnings,
                "missing YAML frontmatter; inferred skill metadata from file content".to_owned(),
            );
            "".to_owned()
        },
    };
    if is_blank(&front) {
        let fields: Option<Fields> = Some(Vec::new());
        assert(option_fields(fields)->0 =~= seq![]);
        skill_from_fields(dir_name, warnings, &fields)
    } else {
        match parse_yaml(&front) {
            Ok(fields) => skill_from_fields(dir_name, warnings, &fields),
            Err(e) => {
                let mut text = "invalid skill frontmatter: ".to_owned();
                text.push_str(&e);
                Err(AgentError::other(&text))
            },
        }
    }
}

/// A parsed skill has a name that is its own normalized form, and a description
/// that is not empty and not too long.
pub proof fn parsed_skills_are_usable(dir_name: Seq<char>, content: Seq<char>)
    requires
        skill_of_markdown(dir_name, content) is Ok,
    ensures
        ({
            let p = skill_of_markdown(dir_name, content)->Ok_0;
            &&& crate::skill::names::kept_name(p.name)
            &&& 1 <= p.description.len() <= description_limit()
        }),
{
    let front = match frontmatter_parts(content) {
        Some(parts) => parts.0,
        None => ""@,
    };
    let fields = if trimmed(front).len() == 0 {
        Some(seq![])
    } else {
        parsed_yaml(front)->Ok_0
    };
    let source = match given_name(fields) {
        Some(n) => n,
        None => dir_name,
    };
    if normalized_name(source) is Some {
        crate::skill::names::normalized_names_are_kept_names(source);
    } else {
        crate::skill::names::normalized_names_are_kept_names(dir_name);
    }
}

// ------------------------------------------------------------------------ its laws

/// A skill is called what its file says, as far as that can be a name, and else as its
/// directory; it is described as its file says, and pinned where its file says so.
/// One without a description is none.
pub proof fn a_skill_is_called_what_its_file_says(
    dir_name: Seq<char>,
    warnings: Seq<Seq<char>>,
    fields: Option<Seq<(Option<Seq<char>>, FieldView)>>,
)
    ensures
        ({
            let r = skill_of_fields(dir_name, warnings, fields);
            let said = scalar_text(meta_field(fields, "name"@));
            let described = scalar_text(meta_field(fields, "description"@));
            let usable = said is Some && trimmed(said->0).len() > 0 && normalized_name(said->0)
                is Some;
            &&& r is Ok <==> (usable || normalized_name(dir_name) is Some) && described is Some
                && trimmed(described->0).len() > 0
            &&& r is Ok && usable ==> Some(r->Ok_0.name) == normalized_name(said->0)
            &&& r is Ok && !usable ==> Some(r->Ok_0.name) == normalized_name(dir_name)
            &&& r is Ok ==> r->Ok_0.description.is_prefix_of(trimmed(described->0))
            &&& r is Ok && trimmed(described->0).len() <= description_limit()
                ==> r->Ok_0.description == trimmed(described->0)
            &&& r is Ok ==> r->Ok_0.pin == (meta_field(fields, "pin"@) == Some(
                FieldView::Bool(true),
            ))
            &&& r is Ok ==> warnings.is_prefix_of(r->Ok_0.warnings)
        }),
{
    let r = skill_of_fields(dir_name, warnings, fields);
    if r is Ok {
        let d = r->Ok_0.description;
        let all = trimmed(scalar_text(meta_field(fields, "description"@))->0);
        assert(d =~= all.subrange(0, d.len() as int));
        assert(warnings =~= r->Ok_0.warnings.subrange(0, warnings.len() as int));
    }
}

/// The first field of a name counts.
pub proof fn the_first_field_counts(
    fields: Seq<(Option<Seq<char>>, FieldView)>,
    name: Seq<char>,
    i: int,
)
    requires
        0 <= i < fields.len(),
        fields[i].0 == Some(name),
        forall|j: int| 0 <= j < i ==> (#[trigger] fields[j]).0 != Some(name),
    ensures
        field_of(fields, name) == Some(fields[i].1),
    decreases fields.len(),
{
    if i > 0 {
        let rest = fields.drop_first();
        assert(fields[0].0 != Some(name));
        assert(rest[i - 1] == fields[i]);
        assert forall|j: int| 0 <= j < i - 1 implies (#[trigger] rest[j]).0 != Some(name) by {
            assert(rest[j] == fields[j + 1]);
        }
        the_first_field_counts(rest, name, i - 1);
    }
}

/// A file that begins with a block between two rows of dashes is read as that block
/// and what follows it.
pub proof fn blocks_are_read_as_written(front: Seq<char>, body: Seq<char>)
    requires
        front.len() > 0,
        front[0] != '\n',
        index_of(front + "\n---"@ + "\n"@ + body, "\n---"@) == Some(front.len() as int),
        body.len() == 0 || body[0] != '\n',
    ensures
        frontmatter_parts("---"@ + "\n"@ + front + "\n---"@ + "\n"@ + body) == Some((front, body)),
{
    reveal_strlit("---");
    reveal_strlit("\n");
    reveal_strlit("\n---");
    reveal_strlit("\u{feff}");
    reveal_strlit("<!--");
    reveal_strlit("<--");
    let tail = front + "\n---"@ + "\n"@ + body;
    let content = "---"@ + "\n"@ + front + "\n---"@ + "\n"@ + body;
    assert(content[0] == '-');
    assert(!among("\u{feff}"@)('-')) by {
        if "\u{feff}"@.contains('-') {
            let k = choose|k: int| 0 <= k < "\u{feff}"@.len() && "\u{feff}"@[k] == '-';
            assert(k == 0);
        }
    }
    assert(drop_leading(content, among("\u{feff}"@)) == content);
    assert(!white()('-'));
    assert(trim_start_text(content) == content);
    assert(unmarked(content) == content);
    assert(!"<!--"@.is_prefix_of(content)) by {
        if "<!--"@.is_prefix_of(content) {
            assert(content.subrange(0, 4)[0] == content[0]);
        }
    }
    assert(!"<--"@.is_prefix_of(content)) by {
        if "<--"@.is_prefix_of(content) {
            assert(content.subrange(0, 3)[0] == content[0]);
        }
    }
    assert(without_preamble(content) == content);
    assert("---"@ =~= content.subrange(0, 3));
    let after = content.skip(3);
    assert(after =~= seq!['\n'] + tail);
    assert(among("\n"@)('\n')) by {
        assert("\n"@[0] == '\n');
    }
    assert(!among("\n"@)(front[0])) by {
        if "\n"@.contains(front[0]) {
            let k = choose|k: int| 0 <= k < "\n"@.len() && "\n"@[k] == front[0];
            assert(k == 0);
        }
    }
    assert(after.drop_first() =~= tail);
    assert(after[0] == '\n');
    assert(tail[0] == front[0]);
    assert(drop_leading(tail, among("\n"@)) == tail);
    assert(drop_leading(after, among("\n"@)) == tail);
    assert(tail.take(front.len() as int) =~= front);
    let end = tail.skip(front.len() as int + 4);
    assert(end =~= seq!['\n'] + body);
    assert(end.drop_first() =~= body);
    assert(end[0] == '\n');
    if body.len() > 0 {
        assert(!among("\n"@)(body[0])) by {
            if "\n"@.contains(body[0]) {
                let k = choose|k: int| 0 <= k < "\n"@.len() && "\n"@[k] == body[0];
                assert(k == 0);
            }
        }
    }
    assert(drop_leading(body, among("\n"@)) == body);
    assert(drop_leading(end, among("\n"@)) == body);
}

/// A comment before a skill is passed over, and so is what marks the order of bytes
/// and white space; what is left begins with the skill.
pub proof fn comments_are_passed_over(comment: Seq<char>, rest: Seq<char>)
    requires
        index_of(comment + "-->"@ + rest, "-->"@) == Some(comment.len() as int),
    ensures
        without_preamble("<!--"@ + comment + "-->"@ + rest) == without_preamble(rest),
        without_preamble("<--"@ + comment + "-->"@ + rest) == without_preamble(rest),
{
    reveal_strlit("<!--");
    reveal_strlit("<--");
    reveal_strlit("-->");
    reveal_strlit("\u{feff}");
    let tail = comment + "-->"@ + rest;
    let a = "<!--"@ + comment + "-->"@ + rest;
    let b = "<--"@ + comment + "-->"@ + rest;
    assert(!among("\u{feff}"@)('<')) by {
        if "\u{feff}"@.contains('<') {
            let k = choose|k: int| 0 <= k < "\u{feff}"@.len() && "\u{feff}"@[k] == '<';
            assert(k == 0);
        }
    }
    assert(!white()('<'));
    assert(a[0] == '<' && b[0] == '<');
    assert(drop_leading(a, among("\u{feff}"@)) == a);
    assert(drop_leading(b, among("\u{feff}"@)) == b);
    assert(trim_start_text(a) == a);
    assert(trim_start_text(b) == b);
    assert("<!--"@ =~= a.subrange(0, 4));
    assert("<--"@ =~= b.subrange(0, 3));
    assert(!"<!--"@.is_prefix_of(b)) by {
        if "<!--"@.is_prefix_of(b) {
            assert(b.subrange(0, 4)[1] == b[1]);
        }
    }
    assert(a.skip(4) =~= tail);
    assert(b.skip(3) =~= tail);
    assert(tail.skip(comment.len() as int + 3) =~= rest);
}

/// A value that is a word, a number or a truth is read as it is written; any other is
/// not read.
pub proof fn plain_values_are_read(s: Seq<char>)
    ensures
        scalar_text(Some(FieldView::Text(s))) == Some(s),
        scalar_text(Some(FieldView::Number(s))) == Some(s),
        scalar_text(Some(FieldView::Bool(true))) == Some("true"@),
        scalar_text(Some(FieldView::Bool(false))) == Some("false"@),
        scalar_text(Some(FieldView::Compound)) is None,
        scalar_text(Some(FieldView::Null)) is None,
        scalar_text(None) is None,
{
}

} // verus!
