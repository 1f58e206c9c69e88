//! One search over memory, skills and the web.
use vstd::prelude::*;
use vstd::string::*;

use crate::error::{AgentError, ErrorView};
use crate::json::{
    as_text, fields_are_read_back, json_text, json_views, member, no_fields, no_items, parse_json, parsed_json,
    render_json, JsonMap, JsonValue, JsonView, NumberView,
};
use crate::message::option_text;
use crate::skill::store::SkillStore;
use crate::skill::types::{summary_views, SkillSummary, SummaryView};
use crate::text::{
    ascii_lowercase_text, chars_within, cut_within, cuts_at, debug_text, decimal, decimal_text,
    is_blank, join, joined, quoted, str_eq, take_chars, first_chars, texts, to_ascii_lowercase,
    trim, trimmed, utf8_len,
};

verus! {

broadcast use vstd::string::group_string_axioms;

pub const EXA_API_URL: &'static str = "https://api.exa.ai/search";

pub const DEFAULT_LIMIT: usize = 8;

pub const MAX_LIMIT: usize = 20;

// ---------------------------------------------------------------------- scope

/// Where is searched.
#[derive(Debug, Clone, Copy, PartialEq, Eq, Structural)]
pub enum SearchScope {
    Local,
    Memory,
    Skills,
    Web,
    All,
}

/// The scope that a word means.
pub open spec fn scope_of(word: Seq<char>) -> Option<SearchScope> {
    if word == ""@ || word == "local"@ {
        Some(SearchScope::Local)
    } else if word == "memory"@ || word == "memories"@ {
        Some(SearchScope::Memory)
    } else if word == "skill"@ || word == "skills"@ {
        Some(SearchScope::Skills)
    } else if word == "web"@ || word == "internet"@ {
        Some(SearchScope::Web)
    } else if word == "all"@ {
        Some(SearchScope::All)
    } else {
        None
    }
}

pub open spec fn scope_error(word: Seq<char>) -> ErrorView {
    ErrorView::Tool(
        "search"@,
        "invalid 'scope' "@ + debug_text(word)
            + "; expected one of: local, memory, skills, web, all"@,
    )
}

/// The scope that is asked for, the local one where none is.
pub open spec fn asked_scope(raw: Option<Seq<char>>) -> Result<SearchScope, ErrorView> {
    match raw {
        None => Ok(SearchScope::Local),
        Some(s) => {
            let word = ascii_lowercase_text(trimmed(s));
            match scope_of(word) {
                Some(scope) => Ok(scope),
                None => Err(scope_error(word)),
            }
        },
    }
}

pub open spec fn scope_label(scope: SearchScope) -> Seq<char> {
    match scope {
        SearchScope::Local => "local"@,
        SearchScope::Memory => "memory"@,
        SearchScope::Skills => "skills"@,
        SearchScope::Web => "web"@,
        SearchScope::All => "all"@,
    }
}

impl SearchScope {
    /// The scope that is asked for.
    pub fn parse(raw: &Option<String>) -> (r: Result<SearchScope, AgentError>)
        ensures
            match r {
                Ok(s) => asked_scope(option_text(*raw)) == Ok::<_, ErrorView>(s),
                Err(e) => asked_scope(option_text(*raw)) == Err::<SearchScope, _>(e@),
            },
    {
        let word = match raw {
            None => return Ok(SearchScope::Local),
            Some(s) => to_ascii_lowercase(&trim(s)),
        };
        if str_eq(&word, "") || str_eq(&word, "local") {
            Ok(SearchScope::Local)
        } else if str_eq(&word, "memory") || str_eq(&word, "memories") {
            Ok(SearchScope::Memory)
        } else if str_eq(&word, "skill") || str_eq(&word, "skills") {
            Ok(SearchScope::Skills)
        } else if str_eq(&word, "web") || str_eq(&word, "internet") {
            Ok(SearchScope::Web)
        } else if str_eq(&word, "all") {
            Ok(SearchScope::All)
        } else {
            let mut message = "invalid 'scope' ".to_owned();
            message.push_str(&quoted(&word));
            message.push_str("; expected one of: local, memory, skills, web, all");
            Err(AgentError::tool("search", &message))
        }
    }

    pub fn label(self) -> (r: &'static str)
        ensures
            r@ == scope_label(self),
    {
        match self {
            SearchScope::Local => "local",
            SearchScope::Memory => "memory",
            SearchScope::Skills => "skills",
            SearchScope::Web => "web",
            SearchScope::All => "all",
        }
    }

    pub open spec fn has_memory(self) -> bool {
        self == SearchScope::Local || self == SearchScope::Memory || self == SearchScope::All
    }

    pub open spec fn has_skills(self) -> bool {
        self == SearchScope::Local || self == SearchScope::Skills || self == SearchScope::All
    }

    pub open spec fn has_web(self) -> bool {
        self == SearchScope::Web || self == SearchScope::All
    }

    pub fn includes_memory(self) -> (r: bool)
        ensures
            r == self.has_memory(),
    {
        matches!(self, SearchScope::Local | SearchScope::Memory | SearchScope::All)
    }

    pub fn includes_skills(self) -> (r: bool)
        ensures
            r == self.has_skills(),
    {
        matches!(self, SearchScope::Local | SearchScope::Skills | SearchScope::All)
    }

    pub fn includes_web(self) -> (r: bool)
        ensures
            r == self.has_web(),
    {
        matches!(self, SearchScope::Web | SearchScope::All)
    }
}

/// Every scope searches somewhere, and what the label says is what it searches.
pub proof fn every_label_means_its_scope(scope: SearchScope)
    ensures
        scope_of(scope_label(scope)) == Some(scope),
        scope.has_memory() || scope.has_skills() || scope.has_web(),
{
    reveal_strlit("");
    reveal_strlit("local");
    reveal_strlit("memory");
    reveal_strlit("memories");
    reveal_strlit("skill");
    reveal_strlit("skills");
    reveal_strlit("web");
    reveal_strlit("internet");
    reveal_strlit("all");
    let l = scope_label(scope);
    assert(l.len() > 0);
    assert("memory"@[0] == 'm' && "skills"@[0] == 's' && "web"@[0] == 'w' && "local"@[0] == 'l'
        && "all"@[0] == 'a');
    assert("skills"@.len() != "skill"@.len());
}

// -------------------------------------------------------------------- planning

/// How many results each place gives at most.
pub open spec fn asked_limit(limit: Option<JsonView>) -> usize {
    match limit {
        Some(JsonView::Number(NumberView::Unsigned(n))) => {
            let m = n as usize;
            if m < 1 {
                1
            } else if m > MAX_LIMIT {
                MAX_LIMIT
            } else {
                m
            }
        },
        _ => DEFAULT_LIMIT,
    }
}

/// What is to be searched: the query, where, and how much; with the thread whose
/// memory counts, where memory is searched.
#[derive(Debug)]
pub struct SearchPlan {
    pub query: String,
    pub scope: SearchScope,
    pub limit: usize,
    pub thread_id: Option<String>,
}

pub struct PlanView {
    pub query: Seq<char>,
    pub scope: SearchScope,
    pub limit: usize,
    pub thread_id: Option<Seq<char>>,
}

impl View for SearchPlan {
    type V = PlanView;

    open spec fn view(&self) -> PlanView {
        PlanView {
            query: self.query@,
            scope: self.scope,
            limit: self.limit,
            thread_id: option_text(self.thread_id),
        }
    }
}

/// The thread that the metadata names, else the one of the run.
pub open spec fn thread_of(metadata: Option<JsonView>, run_thread: Option<Seq<char>>) -> Option<
    Seq<char>,
> {
    match metadata {
        Some(m) => match as_text(member(m, "thread_id"@)) {
            Some(t) => Some(t),
            None => run_thread,
        },
        None => run_thread,
    }
}

pub open spec fn option_json(value: Option<&JsonValue>) -> Option<JsonView> {
    match value {
        Some(v) => Some(v@),
        None => None,
    }
}

/// What the arguments of a search ask for.
pub open spec fn search_plan(
    arguments: JsonView,
    metadata: Option<JsonView>,
    run_thread: Option<Seq<char>>,
) -> Result<PlanView, ErrorView> {
    match as_text(member(arguments, "query"@)) {
        None => Err(ErrorView::Tool("search"@, "missing 'query'"@)),
        Some(q) => if trimmed(q).len() == 0 {
            Err(ErrorView::Tool("search"@, "'query' must not be empty"@))
        } else {
            match asked_scope(as_text(member(arguments, "scope"@))) {
                Err(e) => Err(e),
                Ok(scope) => if scope.has_memory() && thread_of(metadata, run_thread) is None {
                    Err(ErrorView::Tool("search"@, "missing metadata.thread_id"@))
                } else {
                    Ok(
                        PlanView {
                            query: trimmed(q),
                            scope,
                            limit: asked_limit(member(arguments, "limit"@)),
                            thread_id: if scope.has_memory() {
                                thread_of(metadata, run_thread)
                            } else {
                                None
                            },
                        },
                    )
                },
            }
        },
    }
}

/// What the arguments of a search ask for.
pub fn plan_search(
    arguments: &JsonValue,
    metadata: Option<&JsonValue>,
    run_thread: &Option<String>,
) -> (r: Result<SearchPlan, AgentError>)
    ensures
        match r {
            Ok(p) => search_plan(arguments@, option_json(metadata), option_text(*run_thread))
                == Ok::<_, ErrorView>(p@),
            Err(e) => search_plan(arguments@, option_json(metadata), option_text(*run_thread))
                == Err::<PlanView, _>(e@),
        },
{
    let query = match arguments.get_str("query") {
        Some(q) => trim(&q),
        None => return Err(AgentError::tool("search", "missing 'query'")),
    };
    if query.as_str().is_empty() {
        return Err(AgentError::tool("search", "'query' must not be empty"));
    }
    let scope = match SearchScope::parse(&arguments.get_str("scope")) {
        Ok(s) => s,
        Err(e) => return Err(e),
    };
    let asked: Option<u64> = match arguments.get("limit") {
        Some(v) => v.as_u64(),
        None => None,
    };
    let limit: usize = match asked {
        Some(n) => {
            let m: usize = n as usize;
            if m < 1 {
                1
            } else if m > MAX_LIMIT {
                MAX_LIMIT
            } else {
                m
            }
        },
        None => DEFAULT_LIMIT,
    };
    let mut thread_id: Option<String> = None;
    if scope.includes_memory() {
        thread_id = match metadata {
            Some(m) => m.get_str("thread_id"),
            None => None,
        };
        if thread_id.is_none() {
            thread_id = match run_thread {
                Some(t) => Some(t.clone()),
                None => None,
            };
        }
        if thread_id.is_none() {
            return Err(AgentError::tool("search", "missing metadata.thread_id"));
        }
    }
    Ok(SearchPlan { query, scope, limit, thread_id })
}

// --------------------------------------------------------------------- results

/// What was remembered, field by field as it is shown.
#[derive(Debug)]
pub struct RecalledItem {
    pub source: JsonValue,
    pub name: JsonValue,
    pub uuid: JsonValue,
    pub timestamp: JsonValue,
    pub preview: JsonValue,
    pub snippet: JsonValue,
    pub score: JsonValue,
}

pub open spec fn memory_result(item: RecalledItem) -> JsonView {
    JsonView::Object(
        no_fields().push(("scope"@, JsonView::Text("memory"@))).push(
            ("source"@, item.source@),
        ).push(("name"@, item.name@)).push(("uuid"@, item.uuid@)).push(
            ("timestamp"@, item.timestamp@),
        ).push(("preview"@, item.preview@)).push(("snippet"@, item.snippet@)).push(
            ("score"@, item.score@),
        ),
    )
}

fn memory_json(item: &RecalledItem) -> (r: JsonValue)
    ensures
        r@ == memory_result(*item),
{
    JsonValue::object(
        JsonMap::new().with("scope", JsonValue::text("memory")).with(
            "source",
            item.source.copy(),
        ).with("name", item.name.copy()).with("uuid", item.uuid.copy()).with(
            "timestamp",
            item.timestamp.copy(),
        ).with("preview", item.preview.copy()).with("snippet", item.snippet.copy()).with(
            "score",
            item.score.copy(),
        ),
    )
}

pub open spec fn skill_result(skill: SummaryView) -> JsonView {
    JsonView::Object(
        no_fields().push(("scope"@, JsonView::Text("skills"@))).push(
            ("name"@, JsonView::Text(skill.name)),
        ).push(("description"@, JsonView::Text(skill.description))),
    )
}

fn skill_json(skill: &SkillSummary) -> (r: JsonValue)
    ensures
        r@ == skill_result(skill@),
{
    JsonValue::object(
        JsonMap::new().with("scope", JsonValue::text("skills")).with(
            "name",
            JsonValue::text(&skill.name),
        ).with("description", JsonValue::text(&skill.description)),
    )
}

pub open spec fn memory_results(items: Seq<RecalledItem>) -> Seq<JsonView> {
    items.map_values(|i: RecalledItem| memory_result(i))
}

pub open spec fn skill_results(skills: Seq<SummaryView>) -> Seq<JsonView> {
    skills.map_values(|s: SummaryView| skill_result(s))
}

/// The first `n` of a list, or all of it where it has fewer.
pub open spec fn first_of<A>(s: Seq<A>, n: int) -> Seq<A> {
    if s.len() <= n {
        s
    } else {
        s.take(n)
    }
}

/// What was found, and what went wrong on the way.
pub open spec fn search_report(
    plan: PlanView,
    recalled: Seq<RecalledItem>,
    skills: Seq<SummaryView>,
    web: Result<Seq<JsonView>, Seq<char>>,
) -> JsonView {
    let memory = if plan.scope.has_memory() {
        memory_results(recalled)
    } else {
        no_items()
    };
    let local = if plan.scope.has_skills() {
        skill_results(first_of(skills, plan.limit as int))
    } else {
        no_items()
    };
    let remote = match web {
        Ok(found) => if plan.scope.has_web() {
            found
        } else {
            no_items()
        },
        Err(_) => no_items(),
    };
    let errors = match web {
        Err(e) => if plan.scope.has_web() {
            no_items().push(JsonView::Text(e))
        } else {
            no_items()
        },
        Ok(_) => no_items(),
    };
    JsonView::Object(
        no_fields().push(("query"@, JsonView::Text(plan.query))).push(
            ("scope"@, JsonView::Text(scope_label(plan.scope))),
        ).push(("default_scope"@, JsonView::Text("local"@))).push(
            ("limit"@, JsonView::Number(NumberView::Unsigned(plan.limit as u64))),
        ).push(("results"@, JsonView::Array(memory + local + remote))).push(
            ("errors"@, JsonView::Array(errors)),
        ),
    )
}

pub open spec fn web_view(web: Result<Vec<JsonValue>, String>) -> Result<Seq<JsonView>, Seq<char>> {
    match web {
        Ok(found) => Ok(json_views(found@)),
        Err(e) => Err(e@),
    }
}

/// What was found, and what went wrong on the way.
pub fn report_search(
    plan: &SearchPlan,
    recalled: &Vec<RecalledItem>,
    skills: &Vec<SkillSummary>,
    web: &Result<Vec<JsonValue>, String>,
) -> (r: JsonValue)
    ensures
        r@ == search_report(plan@, recalled@, summary_views(skills@), web_view(*web)),
{
    let mut results: Vec<JsonValue> = Vec::new();
    let mut errors: Vec<JsonValue> = Vec::new();
    let ghost memory = if plan@.scope.has_memory() {
        memory_results(recalled@)
    } else {
        no_items()
    };
    assert(json_views(results@) =~= no_items());
    assert(json_views(errors@) =~= no_items());
    if plan.scope.includes_memory() {
        let mut i: usize = 0;
        while i < recalled.len()
            invariant
                i <= recalled.len(),
                json_views(results@) == memory_results(recalled@).take(i as int),
            decreases recalled.len() - i,
        {
            let ghost before = json_views(results@);
            results.push(memory_json(&recalled[i]));
            assert(json_views(results@) =~= before.push(memory_result(recalled@[i as int])));
            i += 1;
            assert(memory_results(recalled@).take(i as int) =~= memory_results(recalled@).take(
                i - 1,
            ).push(memory_result(recalled@[i - 1])));
        }
        assert(memory_results(recalled@).take(i as int) =~= memory_results(recalled@));
    }
    assert(json_views(results@) == memory);
    let ghost all = summary_views(skills@);
    let ghost local = if plan@.scope.has_skills() {
        skill_results(first_of(all, plan.limit as int))
    } else {
        no_items()
    };
    if plan.scope.includes_skills() {
        let shown: usize = if skills.len() < plan.limit {
            skills.len()
        } else {
            plan.limit
        };
        let mut i: usize = 0;
        assert(memory + local.take(0) =~= memory);
        while i < shown
            invariant
                i <= shown <= skills.len(),
                shown == local.len(),
                all == summary_views(skills@),
                local == skill_results(first_of(all, plan.limit as int)),
                json_views(results@) == memory + local.take(i as int),
            decreases shown - i,
        {
            let ghost before = json_views(results@);
            assert(all[i as int] == skills@[i as int]@);
            assert(local[i as int] == skill_result(skills@[i as int]@));
            results.push(skill_json(&skills[i]));
            assert(json_views(results@) =~= before.push(local[i as int]));
            i += 1;
            assert(memory + local.take(i as int) =~= (memory + local.take(i - 1)).push(
                local[i - 1],
            ));
        }
        assert(local.take(i as int) =~= local);
    } else {
        assert(memory + local =~= memory);
    }
    assert(json_views(results@) == memory + local);
    let ghost found_before = json_views(results@);
    assert(found_before + no_items() =~= found_before);
    if plan.scope.includes_web() {
        match web {
            Ok(found) => {
                let ghost remote = json_views(found@);
                let mut i: usize = 0;
                assert(found_before + remote.take(0) =~= found_before);
                while i < found.len()
                    invariant
                        i <= found.len(),
                        remote == json_views(found@),
                        json_views(results@) == found_before + remote.take(i as int),
                    decreases found.len() - i,
                {
                    let ghost before = json_views(results@);
                    results.push(found[i].copy());
                    assert(remote[i as int] == found@[i as int]@);
                    assert(json_views(results@) =~= before.push(remote[i as int]));
                    i += 1;
                    assert(found_before + remote.take(i as int) =~= (found_before + remote.take(
                        i - 1,
                    )).push(remote[i - 1]));
                }
                assert(remote.take(i as int) =~= remote);
            },
            Err(e) => {
                errors.push(JsonValue::text(e));
                assert(json_views(errors@) =~= no_items().push(JsonView::Text(e@)));
            },
        }
    }
    JsonValue::object(
        JsonMap::new().with("query", JsonValue::text(&plan.query)).with(
            "scope",
            JsonValue::text(plan.scope.label()),
        ).with("default_scope", JsonValue::text("local")).with(
            "limit",
            JsonValue::unsigned(plan.limit as u64),
        ).with("results", JsonValue::array(results)).with("errors", JsonValue::array(errors)),
    )
}

// ------------------------------------------------------------------------ tool

/// The tool that searches.
#[derive(Debug)]
pub struct SearchTool<S> {
    pub skill_store: S,
    pub agent_id: String,
}

pub open spec fn search_schema() -> JsonView {
    let query = no_fields().push(("type"@, JsonView::Text("string"@))).push(
        ("description"@, JsonView::Text("Search query or keywords"@)),
    );
    let scope = no_fields().push(("type"@, JsonView::Text("string"@))).push(
        (
            "enum"@,
            JsonView::Array(
                no_items().push(JsonView::Text("local"@)).push(JsonView::Text("memory"@)).push(
                    JsonView::Text("skills"@),
                ).push(JsonView::Text("web"@)).push(JsonView::Text("all"@)),
            ),
        ),
    ).push(
        (
            "description"@,
            JsonView::Text("Optional search range. Default local searches memory and skills."@),
        ),
    );
    let limit = no_fields().push(("type"@, JsonView::Text("integer"@))).push(
        ("description"@, JsonView::Text("Max results per scope. Default 8, maximum 20."@)),
    );
    JsonView::Object(
        no_fields().push(("type"@, JsonView::Text("object"@))).push(
            (
                "properties"@,
                JsonView::Object(
                    no_fields().push(("query"@, JsonView::Object(query))).push(
                        ("scope"@, JsonView::Object(scope)),
                    ).push(("limit"@, JsonView::Object(limit))),
                ),
            ),
        ).push(("required"@, JsonView::Array(no_items().push(JsonView::Text("query"@))))),
    )
}

/// What a search gives back: what recalling or looking for skills failed with,
/// else the report.
pub open spec fn search_outcome(
    plan: PlanView,
    recalled: Result<Seq<RecalledItem>, ErrorView>,
    skills: Result<Seq<SummaryView>, ErrorView>,
    web: Result<Seq<JsonView>, Seq<char>>,
) -> Result<JsonView, ErrorView> {
    if plan.scope.has_memory() && recalled is Err {
        Err(recalled->Err_0)
    } else if plan.scope.has_skills() && skills is Err {
        Err(skills->Err_0)
    } else {
        Ok(
            search_report(
                plan,
                if recalled is Ok {
                    recalled->Ok_0
                } else {
                    Seq::empty()
                },
                if skills is Ok {
                    skills->Ok_0
                } else {
                    Seq::empty()
                },
                web,
            ),
        )
    }
}

pub open spec fn recalled_view(recalled: Result<Vec<RecalledItem>, AgentError>) -> Result<
    Seq<RecalledItem>,
    ErrorView,
> {
    match recalled {
        Ok(items) => Ok(items@),
        Err(e) => Err(e@),
    }
}

impl<S: SkillStore> SearchTool<S> {
    pub fn name(&self) -> (r: &'static str)
        ensures
            r@ == "search"@,
    {
        "search"
    }

    pub fn description(&self) -> (r: &'static str)
        ensures
            r@
                == "Unified search tool. By default scope=local searches memory and skills. Set scope=memory for named/thread memory, scope=skills for local skills, scope=web for Exa web search, or scope=all for every available source. Use scope=memory before answering questions about prior conversations, saved user facts, preferences, or details that are not visible in the current short context."@,
    {
        "Unified search tool. By default scope=local searches memory and skills. Set scope=memory for named/thread memory, scope=skills for local skills, scope=web for Exa web search, or scope=all for every available source. Use scope=memory before answering questions about prior conversations, saved user facts, preferences, or details that are not visible in the current short context."
    }

    pub fn parameters_schema(&self) -> (r: JsonValue)
        ensures
            r@ == search_schema(),
    {
        let query = JsonMap::new().with("type", JsonValue::text("string")).with(
            "description",
            JsonValue::text("Search query or keywords"),
        );
        let mut scopes: Vec<JsonValue> = Vec::new();
        scopes.push(JsonValue::text("local"));
        scopes.push(JsonValue::text("memory"));
        scopes.push(JsonValue::text("skills"));
        scopes.push(JsonValue::text("web"));
        scopes.push(JsonValue::text("all"));
        assert(json_views(scopes@) =~= no_items().push(JsonView::Text("local"@)).push(
            JsonView::Text("memory"@),
        ).push(JsonView::Text("skills"@)).push(JsonView::Text("web"@)).push(
            JsonView::Text("all"@),
        ));
        let scope = JsonMap::new().with("type", JsonValue::text("string")).with(
            "enum",
            JsonValue::array(scopes),
        ).with(
            "description",
            JsonValue::text("Optional search range. Default local searches memory and skills."),
        );
        let limit = JsonMap::new().with("type", JsonValue::text("integer")).with(
            "description",
            JsonValue::text("Max results per scope. Default 8, maximum 20."),
        );
        let properties = JsonMap::new().with("query", JsonValue::object(query)).with(
            "scope",
            JsonValue::object(scope),
        ).with("limit", JsonValue::object(limit));
        let mut required: Vec<JsonValue> = Vec::new();
        required.push(JsonValue::text("query"));
        assert(json_views(required@) =~= no_items().push(JsonView::Text("query"@)));
        JsonValue::object(
            JsonMap::new().with("type", JsonValue::text("object")).with(
                "properties",
                JsonValue::object(properties),
            ).with("required", JsonValue::array(required)),
        )
    }

    /// Searches as planned, given what was remembered and what the web gave.
    pub fn search(
        &self,
        plan: &SearchPlan,
        recalled: Result<Vec<RecalledItem>, AgentError>,
        web: &Result<Vec<JsonValue>, String>,
    ) -> (r: Result<JsonValue, AgentError>)
        ensures
            match r {
                Ok(v) => search_outcome(
                    plan@,
                    recalled_view(recalled),
                    self.skill_store.found(plan.query@),
                    web_view(*web),
                ) == Ok::<_, ErrorView>(v@),
                Err(e) => search_outcome(
                    plan@,
                    recalled_view(recalled),
                    self.skill_store.found(plan.query@),
                    web_view(*web),
                ) == Err::<JsonView, _>(e@),
            },
    {
        let items: Vec<RecalledItem> = match recalled {
            Ok(items) => items,
            Err(e) => {
                if plan.scope.includes_memory() {
                    return Err(e);
                }
                Vec::new()
            },
        };
        let mut skills: Vec<SkillSummary> = Vec::new();
        if plan.scope.includes_skills() {
            skills = match self.skill_store.search(&plan.query) {
                Ok(found) => found,
                Err(e) => return Err(e),
            };
        }
        Ok(report_search(plan, &items, &skills, web))
    }

    /// The text of what a search gives back.
    pub fn execute(
        &self,
        plan: &SearchPlan,
        recalled: Result<Vec<RecalledItem>, AgentError>,
        web: &Result<Vec<JsonValue>, String>,
    ) -> (r: Result<String, AgentError>)
        ensures
            match r {
                Ok(t) => search_outcome(
                    plan@,
                    recalled_view(recalled),
                    self.skill_store.found(plan.query@),
                    web_view(*web),
                ) matches Ok(v) && t@ == json_text(v),
                Err(e) => search_outcome(
                    plan@,
                    recalled_view(recalled),
                    self.skill_store.found(plan.query@),
                    web_view(*web),
                ) == Err::<JsonView, _>(e@),
            },
    {
        match self.search(plan, recalled, web) {
            Ok(v) => Ok(render_json(&v)),
            Err(e) => Err(e),
        }
    }
}

// ------------------------------------------------------------------------- web

/// The key for the web search, where there is one.
pub fn web_search_key(variable: &Option<String>) -> (r: Result<String, String>)
    ensures
        match *variable {
            Some(key) => if trimmed(key@).len() > 0 {
                r is Ok && r->Ok_0@ == key@
            } else {
                r is Err && r->Err_0@ == "EXA_API_KEY is not set; web search is unavailable"@
            },
            None => r is Err && r->Err_0@ == "EXA_API_KEY is not set; web search is unavailable"@,
        },
{
    match variable {
        Some(key) => if is_blank(key) {
            Err("EXA_API_KEY is not set; web search is unavailable".to_owned())
        } else {
            Ok(key.clone())
        },
        None => Err("EXA_API_KEY is not set; web search is unavailable".to_owned()),
    }
}

/// What the web search is asked.
pub fn web_search_body(query: &str, limit: usize) -> (r: JsonValue)
    ensures
        r@ == JsonView::Object(
            no_fields().push(("query"@, JsonView::Text(query@))).push(
                ("numResults"@, JsonView::Number(NumberView::Unsigned(limit as u64))),
            ).push(
                (
                    "contents"@,
                    JsonView::Object(
                        no_fields().push(
                            (
                                "text"@,
                                JsonView::Object(
                                    no_fields().push(
                                        (
                                            "maxCharacters"@,
                                            JsonView::Number(NumberView::Unsigned(1000)),
                                        ),
                                    ),
                                ),
                            ),
                        ),
                    ),
                ),
            ),
        ),
{
    let text = JsonMap::new().with("maxCharacters", JsonValue::unsigned(1000));
    let contents = JsonMap::new().with("text", JsonValue::object(text));
    JsonValue::object(
        JsonMap::new().with("query", JsonValue::text(query)).with(
            "numResults",
            JsonValue::unsigned(limit as u64),
        ).with("contents", JsonValue::object(contents)),
    )
}

/// What can fail before the web search answers.
#[derive(Debug, Clone, Copy, PartialEq, Eq, Structural)]
pub enum WebFailure {
    Client,
    Request,
    Read,
}

/// What is told of a failed web search.
pub fn web_failure(failure: WebFailure, error: &str) -> (r: String)
    ensures
        r@ == (match failure {
            WebFailure::Client => "failed to build web search client: "@,
            WebFailure::Request => "web search request failed: "@,
            WebFailure::Read => "web search response read failed: "@,
        }) + error@,
{
    let mut text = match failure {
        WebFailure::Client => "failed to build web search client: ".to_owned(),
        WebFailure::Request => "web search request failed: ".to_owned(),
        WebFailure::Read => "web search response read failed: ".to_owned(),
    };
    text.push_str(error);
    text
}

pub open spec fn preview_limit() -> nat {
    500
}

/// A text as it is shown in an error: whole, or cut behind 500 bytes.
pub open spec fn preview_text(text: Seq<char>) -> Seq<char> {
    if utf8_len(text) <= preview_limit() {
        text
    } else {
        first_chars(text, chars_within(text, preview_limit())) + "..."@
    }
}

/// A text as it is shown in an error.
pub fn preview(text: &str) -> (r: String)
    requires
        cuts_at(text@, preview_limit()),
    ensures
        r@ == preview_text(text@),
{
    match cut_within(text, 500) {
        None => text.to_owned(),
        Some((k, _)) => {
            let mut r = take_chars(text, k);
            r.push_str("...");
            r
        },
    }
}

pub open spec fn told(value: Option<JsonView>) -> Option<Seq<char>> {
    match value {
        None => None,
        Some(JsonView::Null) => None,
        Some(JsonView::Text(s)) => Some(s),
        Some(v) => Some(json_text(v)),
    }
}

/// The error that an answer tells of, in the first field that has one.
pub open spec fn told_error(data: JsonView) -> Option<Seq<char>> {
    match told(member(data, "message"@)) {
        Some(s) => Some(s),
        None => match told(member(data, "error"@)) {
            Some(s) => Some(s),
            None => told(member(data, "detail"@)),
        },
    }
}

fn told_in(data: &JsonValue, key: &str) -> (r: Option<String>)
    ensures
        option_text(r) == told(member(data@, key@)),
{
    match data.get(key) {
        None => None,
        Some(value) => match value {
            JsonValue::Null => None,
            JsonValue::Text(s) => Some(s.clone()),
            _ => Some(render_json(value)),
        },
    }
}

/// The error that an answer tells of.
pub fn exa_error_message(data: &JsonValue) -> (r: Option<String>)
    ensures
        option_text(r) == told_error(data@),
{
    match told_in(data, "message") {
        Some(s) => Some(s),
        None => match told_in(data, "error") {
            Some(s) => Some(s),
            None => told_in(data, "detail"),
        },
    }
}

pub open spec fn keys_of(fields: Seq<(Seq<char>, JsonView)>) -> Seq<Seq<char>> {
    fields.map_values(|f: (Seq<char>, JsonView)| f.0)
}

pub open spec fn text_or(value: Option<Seq<char>>, other: Seq<char>) -> Seq<char> {
    match value {
        Some(s) => s,
        None => other,
    }
}

pub open spec fn web_result(item: JsonView) -> JsonView {
    JsonView::Object(
        no_fields().push(("scope"@, JsonView::Text("web"@))).push(
            ("title"@, JsonView::Text(text_or(as_text(member(item, "title"@)), "(no title)"@))),
        ).push(("url"@, JsonView::Text(text_or(as_text(member(item, "url"@)), ""@)))).push(
            ("text"@, JsonView::Text(text_or(as_text(member(item, "text"@)), ""@))),
        ),
    )
}

pub open spec fn web_results(items: Seq<JsonView>) -> Seq<JsonView> {
    items.map_values(|i: JsonView| web_result(i))
}

pub open spec fn good_status(status: u16) -> bool {
    200 <= status < 300
}

/// What an answer of the web search says, given what its body was parsed to.
pub open spec fn web_answer(
    status: u16,
    body: Seq<char>,
    parsed: Result<JsonView, Seq<char>>,
    limit: usize,
) -> Result<Seq<JsonView>, Seq<char>> {
    match parsed {
        Err(e) => Err("web search response parse failed: "@ + e + "; body="@ + preview_text(body)),
        Ok(data) => if !good_status(status) {
            Err(
                "web search HTTP "@ + decimal(status as nat) + ": "@ + text_or(
                    told_error(data),
                    preview_text(body),
                ),
            )
        } else {
            match member(data, "results"@) {
                Some(JsonView::Array(items)) => Ok(web_results(first_of(items, limit as int))),
                _ => Err(
                    "web search response missing results array; response keys: "@ + (match data {
                        JsonView::Object(fields) => joined(keys_of(fields), ", "@),
                        _ => json_text(data),
                    }),
                ),
            }
        },
    }
}

/// Whether an error about an answer shows its body.
pub open spec fn shows_body(status: u16, parsed: Result<JsonView, Seq<char>>) -> bool {
    match parsed {
        Err(_) => true,
        Ok(data) => !good_status(status) && told_error(data) is None,
    }
}

pub open spec fn parse_view(parsed: Result<JsonValue, String>) -> Result<JsonView, Seq<char>> {
    match parsed {
        Ok(v) => Ok(v@),
        Err(e) => Err(e@),
    }
}

fn field_text(item: &JsonValue, key: &str, other: &str) -> (r: JsonValue)
    ensures
        r@ == JsonView::Text(text_or(as_text(member(item@, key@)), other@)),
{
    match item.get_str(key) {
        Some(s) => JsonValue::Text(s),
        None => JsonValue::text(other),
    }
}

fn web_json(item: &JsonValue) -> (r: JsonValue)
    ensures
        r@ == web_result(item@),
{
    JsonValue::object(
        JsonMap::new().with("scope", JsonValue::text("web")).with(
            "title",
            field_text(item, "title", "(no title)"),
        ).with("url", field_text(item, "url", "")).with("text", field_text(item, "text", "")),
    )
}

fn field_names(map: &JsonMap) -> (r: Vec<String>)
    ensures
        texts(r@) == keys_of(map@),
{
    let mut out: Vec<String> = Vec::new();
    let mut i: usize = 0;
    while i < map.entries.len()
        invariant
            i <= map.entries.len(),
            out.len() == i,
            forall|j: int| 0 <= j < i ==> (#[trigger] out@[j])@ == map@[j].0,
        decreases map.entries.len() - i,
    {
        out.push(map.entries[i].0.clone());
        i += 1;
    }
    assert(texts(out@) =~= keys_of(map@));
    out
}

/// What an answer of the web search says, given what its body was parsed to.
pub fn read_web_answer(
    status: u16,
    body: &str,
    parsed: Result<JsonValue, String>,
    limit: usize,
) -> (r: Result<Vec<JsonValue>, String>)
    requires
        shows_body(status, parse_view(parsed)) ==> cuts_at(body@, preview_limit()),
    ensures
        web_view(r) == web_answer(status, body@, parse_view(parsed), limit),
{
    let data = match parsed {
        Ok(v) => v,
        Err(e) => {
            let mut text = "web search response parse failed: ".to_owned();
            text.push_str(&e);
            text.push_str("; body=");
            text.push_str(&preview(body));
            return Err(text);
        },
    };
    if !(200 <= status && status < 300) {
        let mut text = "web search HTTP ".to_owned();
        text.push_str(&decimal_text(status as u64));
        text.push_str(": ");
        match exa_error_message(&data) {
            Some(s) => text.push_str(&s),
            None => text.push_str(&preview(body)),
        }
        return Err(text);
    }
    match data.get("results") {
        Some(JsonValue::Array(items)) => {
            let ghost all = json_views(items@);
            let shown: usize = if items.len() < limit {
                items.len()
            } else {
                limit
            };
            let mut out: Vec<JsonValue> = Vec::new();
            let mut i: usize = 0;
            while i < shown
                invariant
                    i <= shown <= items.len(),
                    all == json_views(items@),
                    out.len() == i,
                    forall|j: int| 0 <= j < i ==> (#[trigger] out@[j])@ == web_result(all[j]),
                decreases shown - i,
            {
                assert(all[i as int] == items@[i as int]@);
                out.push(web_json(&items[i]));
                i += 1;
            }
            proof {
                assert(member(data@, "results"@)->0->Array_0 =~= all);
                assert(json_views(out@) =~= web_results(first_of(all, limit as int)));
            }
            Ok(out)
        },
        _ => {
            let mut text =
                "web search response missing results array; response keys: ".to_owned();
            match &data {
                JsonValue::Object(map) => text.push_str(&join(&field_names(map), ", ")),
                _ => text.push_str(&render_json(&data)),
            }
            Err(text)
        },
    }
}

/// What an answer of the web search says.
pub fn parse_exa_search_response(status: u16, body: &str, limit: usize) -> (r: Result<
    Vec<JsonValue>,
    String,
>)
    requires
        shows_body(status, parsed_json(body@)) ==> cuts_at(body@, preview_limit()),
    ensures
        web_view(r) == web_answer(status, body@, parsed_json(body@), limit),
{
    let parsed = parse_json(body);
    read_web_answer(status, body, parsed, limit)
}

/// What an answer of the web search says; none where an error would show the
/// body and the body cannot be cut behind its first 500 bytes.
pub fn try_parse_exa_search_response(status: u16, body: &str, limit: usize) -> (r: Option<
    Result<Vec<JsonValue>, String>,
>)
    ensures
        match r {
            Some(answer) => web_view(answer) == web_answer(
                status,
                body@,
                parsed_json(body@),
                limit,
            ),
            None => shows_body(status, parsed_json(body@)) && !cuts_at(body@, preview_limit()),
        },
{
    let shows = match parse_json(body) {
        Err(_) => true,
        Ok(data) => !(200 <= status && status < 300) && exa_error_message(&data).is_none(),
    };
    if shows {
        match cut_within(body, 500) {
            Some((_, even)) => {
                if !even {
                    return None;
                }
            },
            None => {},
        }
    }
    Some(parse_exa_search_response(status, body, limit))
}

// ------------------------------------------------------------------------ its laws

/// What is searched: memory and skills where nothing else is said, the web only where
/// it is asked for, and everything where all is.
pub proof fn scopes_hold_what_they_say(scope: SearchScope)
    ensures
        scope.has_web() <==> scope == SearchScope::Web || scope == SearchScope::All,
        SearchScope::Local.has_memory() && SearchScope::Local.has_skills(),
        SearchScope::Memory.has_memory() && !SearchScope::Memory.has_skills(),
        SearchScope::Skills.has_skills() && !SearchScope::Skills.has_memory(),
        !SearchScope::Web.has_memory() && !SearchScope::Web.has_skills(),
        SearchScope::All.has_memory() && SearchScope::All.has_skills(),
        asked_scope(None) == Ok::<SearchScope, ErrorView>(SearchScope::Local),
{
}

/// A scope may be written in any case, with white space round it, and by its other
/// names.
pub proof fn scopes_have_other_names(raw: Seq<char>)
    ensures
        ({
            let word = ascii_lowercase_text(trimmed(raw));
            let r = asked_scope(Some(raw));
            &&& word == "memory"@ || word == "memories"@ ==> r == Ok::<SearchScope, ErrorView>(
                SearchScope::Memory,
            )
            &&& word == "skill"@ || word == "skills"@ ==> r == Ok::<SearchScope, ErrorView>(
                SearchScope::Skills,
            )
            &&& word == "web"@ || word == "internet"@ ==> r == Ok::<SearchScope, ErrorView>(
                SearchScope::Web,
            )
            &&& word == "all"@ ==> r == Ok::<SearchScope, ErrorView>(SearchScope::All)
            &&& word == "local"@ || word.len() == 0 ==> r == Ok::<SearchScope, ErrorView>(
                SearchScope::Local,
            )
        }),
{
    reveal_strlit("");
    reveal_strlit("local");
    reveal_strlit("memory");
    reveal_strlit("memories");
    reveal_strlit("skill");
    reveal_strlit("skills");
    reveal_strlit("web");
    reveal_strlit("internet");
    reveal_strlit("all");
    let word = ascii_lowercase_text(trimmed(raw));
    assert("local"@[0] != "skill"@[0]);
    assert("memory"@[0] != "skills"@[0]);
    assert("memories"@[0] != "internet"@[0]);
    assert("web"@[0] != "all"@[0]);
    assert(""@.len() == 0 && "local"@.len() == 5 && "memory"@.len() == 6 && "memories"@.len() == 8);
    assert("skill"@.len() == 5 && "skills"@.len() == 6 && "web"@.len() == 3);
    assert("internet"@.len() == 8 && "all"@.len() == 3);
    if word.len() == 0 {
        assert(word =~= ""@);
    }
}

/// As many results are asked for as is said, but at least one and no more than may be.
pub proof fn limits_are_kept(limit: Option<JsonView>)
    ensures
        1 <= asked_limit(limit) <= MAX_LIMIT,
        limit matches Some(JsonView::Number(NumberView::Unsigned(n))) ==> 1 <= n <= MAX_LIMIT
            ==> asked_limit(limit) == n,
        limit is None ==> asked_limit(limit) == DEFAULT_LIMIT,
{
}

/// A search needs a query, a scope that is known, and a thread where memory is
/// searched; it is for what was asked, without white space round it.
pub proof fn what_a_search_needs(
    arguments: JsonView,
    metadata: Option<JsonView>,
    run_thread: Option<Seq<char>>,
)
    ensures
        ({
            let q = as_text(member(arguments, "query"@));
            let scope = asked_scope(as_text(member(arguments, "scope"@)));
            let own = if metadata is Some {
                as_text(member(metadata->0, "thread_id"@))
            } else {
                None
            };
            let thread = if own is Some {
                own
            } else {
                run_thread
            };
            let r = search_plan(arguments, metadata, run_thread);
            &&& r is Ok <==> q is Some && trimmed(q->0).len() > 0 && scope is Ok && (
            scope->Ok_0.has_memory() ==> thread is Some)
            &&& r is Ok ==> {
                &&& r->Ok_0.query == trimmed(q->0)
                &&& r->Ok_0.scope == scope->Ok_0
                &&& r->Ok_0.limit == asked_limit(member(arguments, "limit"@))
                &&& scope->Ok_0.has_memory() ==> r->Ok_0.thread_id == thread
            }
        }),
{
}

/// A report tells the query, the scope and the limit, holds all that memory gave, the
/// first skills and all that the web gave, as far as they were asked for, and tells
/// what went wrong on the web.
pub proof fn reports_hold_what_was_found(
    plan: PlanView,
    recalled: Seq<RecalledItem>,
    skills: Seq<SummaryView>,
    web: Result<Seq<JsonView>, Seq<char>>,
)
    ensures
        ({
            let r = search_report(plan, recalled, skills, web);
            let m = if plan.scope.has_memory() {
                recalled.len()
            } else {
                0
            };
            let s = if !plan.scope.has_skills() {
                0
            } else if skills.len() <= plan.limit {
                skills.len()
            } else {
                plan.limit as nat
            };
            let w = if plan.scope.has_web() && web is Ok {
                web->Ok_0.len()
            } else {
                0
            };
            &&& member(r, "query"@) == Some(JsonView::Text(plan.query))
            &&& member(r, "scope"@) == Some(JsonView::Text(scope_label(plan.scope)))
            &&& member(r, "limit"@) == Some(
                JsonView::Number(NumberView::Unsigned(plan.limit as u64)),
            )
            &&& member(r, "results"@) matches Some(JsonView::Array(found)) && {
                &&& found.len() == m + s + w
                &&& forall|i: int| 0 <= i < m ==> #[trigger] found[i] == memory_result(recalled[i])
                &&& forall|i: int|
                    0 <= i < s ==> #[trigger] found[m + i] == skill_result(skills[i])
                &&& forall|i: int| 0 <= i < w ==> #[trigger] found[m + s + i] == web->Ok_0[i]
            }
            &&& member(r, "errors"@) matches Some(JsonView::Array(errors)) && errors == (
            if plan.scope.has_web() && web is Err {
                seq![JsonView::Text(web->Err_0)]
            } else {
                Seq::empty()
            })
        }),
{
    reveal_strlit("query");
    reveal_strlit("scope");
    reveal_strlit("default_scope");
    reveal_strlit("limit");
    reveal_strlit("results");
    reveal_strlit("errors");
    let f = search_report(plan, recalled, skills, web)->Object_0;
    assert(f[0].0 == "query"@ && f[0].0.len() == 5);
    assert(f[1].0 == "scope"@ && f[1].0.len() == 5);
    assert(f[2].0 == "default_scope"@ && f[2].0.len() == 13);
    assert(f[3].0 == "limit"@ && f[3].0.len() == 5);
    assert(f[4].0 == "results"@ && f[4].0.len() == 7);
    assert(f[5].0 == "errors"@ && f[5].0.len() == 6);
    assert(f[0].0[0] != f[1].0[0] && f[0].0[0] != f[3].0[0] && f[1].0[0] != f[3].0[0]);
    fields_are_read_back(f, 0);
    fields_are_read_back(f, 1);
    fields_are_read_back(f, 3);
    fields_are_read_back(f, 4);
    fields_are_read_back(f, 5);
    let errors = f[5].1->Array_0;
    if plan.scope.has_web() && web is Err {
        assert(errors =~= seq![JsonView::Text(web->Err_0)]);
    } else {
        assert(errors =~= Seq::<JsonView>::empty());
    }
}

/// What is reported of a memory, a skill and a page is what was found of it.
pub proof fn results_tell_what_was_found(item: RecalledItem, skill: SummaryView, page: JsonView)
    ensures
        member(memory_result(item), "name"@) == Some(item.name@),
        member(memory_result(item), "preview"@) == Some(item.preview@),
        member(memory_result(item), "snippet"@) == Some(item.snippet@),
        member(skill_result(skill), "name"@) == Some(JsonView::Text(skill.name)),
        member(skill_result(skill), "description"@) == Some(JsonView::Text(skill.description)),
        as_text(member(page, "url"@)) matches Some(u) ==> member(web_result(page), "url"@) == Some(
            JsonView::Text(u),
        ),
        as_text(member(page, "title"@)) matches Some(t) ==> member(web_result(page), "title"@)
            == Some(JsonView::Text(t)),
        as_text(member(page, "text"@)) matches Some(t) ==> member(web_result(page), "text"@)
            == Some(JsonView::Text(t)),
{
    reveal_strlit("scope");
    reveal_strlit("source");
    reveal_strlit("name");
    reveal_strlit("uuid");
    reveal_strlit("timestamp");
    reveal_strlit("preview");
    reveal_strlit("snippet");
    reveal_strlit("description");
    reveal_strlit("title");
    reveal_strlit("url");
    reveal_strlit("text");
    let a = memory_result(item)->Object_0;
    assert(a[0].0 == "scope"@ && a[0].0.len() == 5);
    assert(a[1].0 == "source"@ && a[1].0.len() == 6);
    assert(a[2].0 == "name"@ && a[2].0.len() == 4);
    assert(a[3].0 == "uuid"@ && a[3].0.len() == 4);
    assert(a[4].0 == "timestamp"@ && a[4].0.len() == 9);
    assert(a[5].0 == "preview"@ && a[5].0.len() == 7);
    assert(a[6].0 == "snippet"@ && a[6].0.len() == 7);
    assert(a[5].0[0] != a[6].0[0]);
    fields_are_read_back(a, 2);
    fields_are_read_back(a, 5);
    fields_are_read_back(a, 6);
    let b = skill_result(skill)->Object_0;
    assert(b[0].0 == "scope"@ && b[1].0 == "name"@ && b[2].0 == "description"@);
    assert(b[0].0.len() == 5 && b[1].0.len() == 4 && b[2].0.len() == 11);
    fields_are_read_back(b, 1);
    fields_are_read_back(b, 2);
    let c = web_result(page)->Object_0;
    assert(c[0].0 == "scope"@ && c[0].0.len() == 5);
    assert(c[1].0 == "title"@ && c[1].0.len() == 5);
    assert(c[2].0 == "url"@ && c[2].0.len() == 3);
    assert(c[3].0 == "text"@ && c[3].0.len() == 4);
    assert(c[0].0[0] != c[1].0[0]);
    fields_are_read_back(c, 1);
    fields_are_read_back(c, 2);
    fields_are_read_back(c, 3);
}

/// A search fails where a part of it that was asked for fails, but for the web; else
/// there is a report.
pub proof fn only_local_failures_end_a_search(
    plan: PlanView,
    recalled: Result<Seq<RecalledItem>, ErrorView>,
    skills: Result<Seq<SummaryView>, ErrorView>,
    web: Result<Seq<JsonView>, Seq<char>>,
)
    ensures
        search_outcome(plan, recalled, skills, web) is Err <==> (plan.scope.has_memory()
            && recalled is Err) || (plan.scope.has_skills() && skills is Err),
        recalled is Ok && skills is Ok ==> search_outcome(plan, recalled, skills, web) == Ok::<
            JsonView,
            ErrorView,
        >(search_report(plan, recalled->Ok_0, skills->Ok_0, web)),
{
}

/// An answer of the web that is well gives its first results, as many as were asked
/// for; one that is not gives what went wrong.
pub proof fn answers_give_their_first_results(
    status: u16,
    body: Seq<char>,
    data: JsonView,
    limit: usize,
    i: int,
)
    ensures
        200 <= status < 300 ==> match member(data, "results"@) {
            Some(JsonView::Array(items)) => {
                let r = web_answer(status, body, Ok(data), limit);
                &&& r is Ok
                &&& r->Ok_0.len() == if items.len() <= limit {
                    items.len()
                } else {
                    limit as nat
                }
                &&& 0 <= i < r->Ok_0.len() ==> r->Ok_0[i] == web_result(items[i])
            },
            _ => web_answer(status, body, Ok(data), limit) is Err,
        },
        !(200 <= status < 300) ==> web_answer(status, body, Ok(data), limit) is Err,
        forall|e: Seq<char>| (#[trigger] web_answer(status, body, Err(e), limit)) is Err,
{
}

/// A preview is the beginning of the text; the whole where it is short.
pub proof fn previews_begin_like_the_answer(text: Seq<char>)
    ensures
        utf8_len(text) <= preview_limit() ==> preview_text(text) == text,
        utf8_len(text) > preview_limit() ==> preview_text(text) == first_chars(
            text,
            chars_within(text, 500),
        ) + "..."@,
        preview_limit() == 500,
{
}

/// What went wrong is told by its message, else by its error, else by its detail.
pub proof fn errors_are_told_by_their_message(data: JsonView)
    ensures
        as_text(member(data, "message"@)) is Some ==> told_error(data) == as_text(
            member(data, "message"@),
        ),
        member(data, "message"@) is None && as_text(member(data, "error"@)) is Some ==> told_error(
            data,
        ) == as_text(member(data, "error"@)),
        member(data, "message"@) is None && member(data, "error"@) is None ==> told_error(data)
            == told(member(data, "detail"@)),
{
}

} // verus!
