//! Stores that skills are looked up in.
use vstd::prelude::*;
use vstd::string::*;

use crate::error::{AgentError, ErrorView};
use crate::message::{copy_option_text, option_text};
use crate::paths::{
    absolute, file_name, file_name_text, is_absolute, join_path, joined_path,
    joined_paths_stay_under, lies_under, parent, parent_text, parts_of, parts_under, path_parts,
    strip_root,
};
use crate::search_query::search_terms;
use crate::skill::markdown::{parse_skill_markdown, skill_of_markdown};
use crate::skill::names::{canonical_id, canonical_id_text, canonical_name, canonical_name_text};
use crate::skill::ranking::{parse_keywords, rank_summaries, ranked};
use crate::skill::scan::{
    cached_view, entry_view, is_of_place, scan_skill_roots, scanned, skills_tell_their_place,
    CachedSkill, CachedView, EntryView, SkillEntry, SkillNode, SkillPlace, SkillRootTree,
};
use crate::skill::types::{
    diagnostic_views, summary_views, DiagnosticView, DocumentView, SkillDocument,
    SkillLoadDiagnostic, SkillResource, SkillSummary, SummaryView,
};
use crate::text::{
    chars_of, find_char, join, joined, list_has, replace_char, replaced_char, str_eq, texts,
};
use crate::text_map::{lemma_seen_value_of, seen, value_of, TextMap};

verus! {

broadcast use vstd::string::group_string_axioms;

// ------------------------------------------------------------------ looking up

/// The entries whose name has the canonical form `name`.
pub open spec fn named(entries: Seq<(Seq<char>, EntryView)>, name: Seq<char>) -> Seq<EntryView>
    decreases entries.len(),
{
    if entries.len() == 0 {
        Seq::empty()
    } else {
        let head = named(entries.drop_last(), name);
        if canonical_name_text(entries.last().1.summary.name) == name {
            head.push(entries.last().1)
        } else {
            head
        }
    }
}

pub open spec fn ids(entries: Seq<EntryView>) -> Seq<Seq<char>> {
    entries.map_values(|e: EntryView| e.summary.id)
}

/// The entry that a locator means: by its id where it has a `/`, else by its
/// name, which must then be the name of one skill only.
pub open spec fn located(
    entries: Seq<(Seq<char>, EntryView)>,
    locator: Seq<char>,
) -> Result<Option<EntryView>, ErrorView> {
    if locator.contains('/') {
        Ok(value_of(entries, canonical_id_text(locator)))
    } else {
        let found = named(entries, canonical_name_text(locator));
        if found.len() == 0 {
            Ok(None)
        } else if found.len() == 1 {
            Ok(Some(found[0]))
        } else {
            Err(
                ErrorView::Tool(
                    "skill"@,
                    "skill name '"@ + locator + "' is ambiguous; use one of: "@ + joined(
                        ids(found),
                        ", "@,
                    ),
                ),
            )
        }
    }
}

/// The skills right below another.
pub open spec fn children_of(
    entries: Seq<(Seq<char>, EntryView)>,
    id: Seq<char>,
) -> Seq<SummaryView>
    decreases entries.len(),
{
    if entries.len() == 0 {
        Seq::empty()
    } else {
        let head = children_of(entries.drop_last(), id);
        if entries.last().1.summary.parent_id == Some(id) {
            head.push(entries.last().1.summary)
        } else {
            head
        }
    }
}

/// The name of the directory that a skill file lies in, or the skill's name.
pub open spec fn leaf_dir(entry: EntryView) -> Seq<char> {
    match parent_text(entry.path) {
        Some(dir) => match file_name_text(dir) {
            Some(name) => name,
            None => entry.summary.name,
        },
        None => entry.summary.name,
    }
}

/// A skill with its instructions, as its file has them.
pub open spec fn document_of(
    entries: Seq<(Seq<char>, EntryView)>,
    entry: EntryView,
) -> Result<DocumentView, ErrorView> {
    match entry.content {
        Err(e) => Err(ErrorView::Io(e)),
        Ok(text) => match skill_of_markdown(leaf_dir(entry), text) {
            Err(e) => Err(e),
            Ok(parsed) => Ok(
                DocumentView {
                    id: entry.summary.id,
                    name: parsed.name,
                    description: parsed.description,
                    pin: parsed.pin,
                    content: text,
                    source: entry.summary.source,
                    root: Some(entry.root),
                    skill_file_path: entry.summary.skill_file_path,
                    resource_root_path: entry.summary.resource_root_path,
                    parent_id: entry.summary.parent_id,
                    children: children_of(entries, entry.summary.id),
                },
            ),
        },
    }
}

pub open spec fn document_at(
    entries: Seq<(Seq<char>, EntryView)>,
    locator: Seq<char>,
) -> Result<Option<DocumentView>, ErrorView> {
    match located(entries, locator) {
        Err(e) => Err(e),
        Ok(None) => Ok(None),
        Ok(Some(entry)) => match document_of(entries, entry) {
            Ok(d) => Ok(Some(d)),
            Err(e) => Err(e),
        },
    }
}

pub open spec fn entry_summaries(entries: Seq<(Seq<char>, EntryView)>) -> Seq<SummaryView> {
    entries.map_values(|e: (Seq<char>, EntryView)| e.1.summary)
}

/// The skills at the top and those that are pinned.
pub open spec fn top_or_pinned(entries: Seq<(Seq<char>, EntryView)>) -> Seq<SummaryView>
    decreases entries.len(),
{
    if entries.len() == 0 {
        Seq::empty()
    } else {
        let head = top_or_pinned(entries.drop_last());
        let s = entries.last().1.summary;
        if s.parent_id is None || s.pin {
            head.push(s)
        } else {
            head
        }
    }
}

// ------------------------------------------------------------------- resources

/// The file that a resource of a skill lies in.
pub open spec fn resource_file(root: Seq<char>, relative: Seq<char>) -> Result<
    Seq<char>,
    ErrorView,
> {
    if absolute(relative) {
        Err(ErrorView::Tool("skill_resource"@, "resource path must be relative"@))
    } else if path_parts(relative).contains(".."@) {
        Err(
            ErrorView::Tool(
                "skill_resource"@,
                "resource path must stay inside the skill directory"@,
            ),
        )
    } else {
        Ok(joined_path(root, relative))
    }
}

/// The file that a resource of a skill lies in.
pub fn resolve_resource_path(root: &str, relative: &str) -> (r: Result<String, AgentError>)
    ensures
        match r {
            Ok(p) => resource_file(root@, relative@) == Ok::<_, ErrorView>(p@),
            Err(e) => resource_file(root@, relative@) == Err::<Seq<char>, _>(e@),
        },
{
    if is_absolute(relative) {
        return Err(AgentError::tool("skill_resource", "resource path must be relative"));
    }
    let parts = parts_of(relative);
    if list_has(&parts, "..") {
        return Err(
            AgentError::tool(
                "skill_resource",
                "resource path must stay inside the skill directory",
            ),
        );
    }
    Ok(join_path(root, relative))
}

/// A resource that is to be read: of which skill, under which path, from which
/// file.
#[derive(Debug)]
pub struct ResourceRequest {
    pub skill: String,
    pub path: String,
    pub file: String,
}

pub struct RequestView {
    pub skill: Seq<char>,
    pub path: Seq<char>,
    pub file: Seq<char>,
}

impl View for ResourceRequest {
    type V = RequestView;

    open spec fn view(&self) -> RequestView {
        RequestView { skill: self.skill@, path: self.path@, file: self.file@ }
    }
}

pub open spec fn request_at(
    entries: Seq<(Seq<char>, EntryView)>,
    skill: Seq<char>,
    path: Seq<char>,
) -> Result<RequestView, ErrorView> {
    match located(entries, skill) {
        Err(e) => Err(e),
        Ok(None) => Err(ErrorView::Tool("skill_resource"@, "skill not found"@)),
        Ok(Some(entry)) => match resource_file(entry.root, path) {
            Err(e) => Err(e),
            Ok(file) => Ok(RequestView { skill: entry.summary.id, path, file }),
        },
    }
}

/// What reading a resource gave.
#[derive(Debug)]
pub enum ResourceRead {
    Failed(String),
    NotAFile,
    Text { content: String, size: u64 },
    Binary { size: u64 },
}

/// The resource, from what reading it gave.
pub fn resource_of(request: &ResourceRequest, read: ResourceRead) -> (r: Result<
    SkillResource,
    AgentError,
>)
    ensures
        match read {
            ResourceRead::Failed(e) => r is Err && r->Err_0@ == ErrorView::Io(e@),
            ResourceRead::NotAFile => r is Err && r->Err_0@ == ErrorView::Tool(
                "skill_resource"@,
                "resource path is not a file"@,
            ),
            ResourceRead::Text { content, size } => r == Ok::<_, AgentError>(
                (SkillResource {
                    skill: request.skill,
                    path: request.path,
                    content: Some(content),
                    size,
                    binary: false,
                }),
            ),
            ResourceRead::Binary { size } => r == Ok::<_, AgentError>(
                (SkillResource {
                    skill: request.skill,
                    path: request.path,
                    content: None,
                    size,
                    binary: true,
                }),
            ),
        },
{
    match read {
        ResourceRead::Failed(e) => Err(AgentError::Io(e)),
        ResourceRead::NotAFile => Err(
            AgentError::tool("skill_resource", "resource path is not a file"),
        ),
        ResourceRead::Text { content, size } => Ok(
            SkillResource {
                skill: request.skill.clone(),
                path: request.path.clone(),
                content: Some(content),
                size,
                binary: false,
            },
        ),
        ResourceRead::Binary { size } => Ok(
            SkillResource {
                skill: request.skill.clone(),
                path: request.path.clone(),
                content: None,
                size,
                binary: true,
            },
        ),
    }
}

// -------------------------------------------------------------- file skill store

pub const PRIMARY_SOURCE: &'static str = ".remi-cat/skills";

pub const COMPAT_SOURCE: &'static str = ".agents/skills";

/// The workspace that a directory of skills belongs to: what lies above
/// `.remi-cat/skills`, or the current directory.
pub open spec fn workspace_of(primary: Seq<char>) -> Seq<char> {
    match (file_name_text(primary), parent_text(primary)) {
        (Some(name), Some(data)) => if name == "skills"@ && file_name_text(data) == Some(
            ".remi-cat"@,
        ) {
            match parent_text(data) {
                Some(above) => if above.len() == 0 {
                    "."@
                } else {
                    above
                },
                None => "."@,
            }
        } else {
            "."@
        },
        _ => "."@,
    }
}

/// The workspace that a directory of skills belongs to.
pub fn infer_workspace_root_from_primary_dir(primary_dir: &str) -> (r: String)
    ensures
        r@ == workspace_of(primary_dir@),
{
    let here = ".".to_owned();
    let name = match file_name(primary_dir) {
        Some(n) => n,
        None => return here,
    };
    if !str_eq(&name, "skills") {
        return here;
    }
    let data = match parent(primary_dir) {
        Some(d) => d,
        None => return here,
    };
    match file_name(&data) {
        Some(n) => {
            if !str_eq(&n, ".remi-cat") {
                return here;
            }
        },
        None => return here,
    }
    match parent(&data) {
        Some(above) => if above.as_str().is_empty() {
            here
        } else {
            above
        },
        None => here,
    }
}

/// A place where skills are looked for, with the workspace that paths are shown
/// in.
#[derive(Debug, Clone, PartialEq, Eq)]
pub struct SkillRoot {
    pub dir: String,
    pub source: String,
    pub workspace_root: Option<String>,
}

pub struct RootView {
    pub dir: Seq<char>,
    pub source: Seq<char>,
    pub workspace_root: Option<Seq<char>>,
}

impl View for SkillRoot {
    type V = RootView;

    open spec fn view(&self) -> RootView {
        RootView {
            dir: self.dir@,
            source: self.source@,
            workspace_root: option_text(self.workspace_root),
        }
    }
}

pub open spec fn root_views(roots: Seq<SkillRoot>) -> Seq<RootView> {
    roots.map_values(|r: SkillRoot| r@)
}

/// The places of a workspace: its own skills first, then the common ones.
pub open spec fn workspace_roots(primary: Seq<char>, workspace: Seq<char>) -> Seq<RootView> {
    seq![
        RootView {
            dir: primary,
            source: PRIMARY_SOURCE@,
            workspace_root: Some(workspace),
        },
        RootView {
            dir: joined_path(workspace, COMPAT_SOURCE@),
            source: COMPAT_SOURCE@,
            workspace_root: Some(workspace),
        },
    ]
}

/// The path of a file as the workspace shows it, where the workspace holds it and
/// no link stands between them.
pub open spec fn shown_path(
    root: Seq<char>,
    path: Seq<char>,
    current_dir: Option<Seq<char>>,
) -> Option<Seq<char>> {
    match parts_under(lexically_absolute(root, current_dir), lexically_absolute(path, current_dir)) {
        Some(parts) => if parts.len() == 0 {
            Some("."@)
        } else {
            Some(replaced_char(joined(parts, "/"@), '\\', '/'))
        },
        None => None,
    }
}

/// A path as seen from the directory of the process, or from `.` where that
/// cannot be found.
pub open spec fn lexically_absolute(path: Seq<char>, current_dir: Option<Seq<char>>) -> Seq<char> {
    match current_dir {
        Some(dir) => joined_path(dir, path),
        None => joined_path("."@, path),
    }
}

/// A path as seen from the directory of the process.
pub fn absolute_lexical_path(path: &str, current_dir: &Option<String>) -> (r: String)
    ensures
        r@ == lexically_absolute(path@, option_text(*current_dir)),
{
    match current_dir {
        Some(dir) => join_path(dir, path),
        None => join_path(".", path),
    }
}

/// The path of a file as the workspace shows it. `current_dir` is the directory
/// of the process, where it can be found.
pub fn sandbox_relative_path(workspace_root: &str, path: &str, current_dir: &Option<String>) -> (r:
    Option<String>)
    ensures
        option_text(r) == shown_path(workspace_root@, path@, option_text(*current_dir)),
{
    let workspace_root = absolute_lexical_path(workspace_root, current_dir);
    let path = absolute_lexical_path(path, current_dir);
    match strip_root(&workspace_root, &path) {
        Some(parts) => if parts.len() == 0 {
            Some(".".to_owned())
        } else {
            Some(replace_char(&join(&parts, "/"), '\\', '/'))
        },
        None => None,
    }
}

/// The path of a file as the workspace shows it, where both can be found and no
/// link stands between them. `links` tells of the file, its parent, the parent of
/// that, and so on, whether it is a link, as far as that could be found out.
pub open spec fn safely_shown(
    root: Option<Seq<char>>,
    path: Option<Seq<char>>,
    links: Seq<Option<bool>>,
    current_dir: Option<Seq<char>>,
) -> Option<Seq<char>> {
    match (root, path) {
        (Some(root), Some(path)) => match parts_under(root, path) {
            Some(parts) => if parts.len() <= links.len() && (forall|i: int|
                0 <= i < parts.len() ==> #[trigger] links[i] == Some(false)) {
                shown_path(root, path, current_dir)
            } else {
                None
            },
            None => None,
        },
        _ => None,
    }
}

/// The path of a file as the workspace shows it, where both can be found and no
/// link stands between them.
pub fn safe_workspace_relative_path(
    canonical_root: &Option<String>,
    canonical_path: &Option<String>,
    links: &Vec<Option<bool>>,
    current_dir: &Option<String>,
) -> (r: Option<String>)
    ensures
        option_text(r) == safely_shown(
            option_text(*canonical_root),
            option_text(*canonical_path),
            links@,
            option_text(*current_dir),
        ),
{
    let root = match canonical_root {
        Some(root) => root,
        None => return None,
    };
    let path = match canonical_path {
        Some(path) => path,
        None => return None,
    };
    let depth: usize = match strip_root(root, path) {
        Some(parts) => parts.len(),
        None => return None,
    };
    if depth > links.len() {
        return None;
    }
    let mut i: usize = 0;
    while i < depth
        invariant
            i <= depth <= links.len(),
            *canonical_root == Some(*root),
            *canonical_path == Some(*path),
            parts_under(root@, path@) is Some,
            parts_under(root@, path@)->0.len() == depth,
            forall|j: int| 0 <= j < i ==> #[trigger] links@[j] == Some(false),
        decreases depth - i,
    {
        match links[i] {
            Some(false) => {},
            _ => {
                assert(links@[i as int] != Some(false));
                return None;
            },
        }
        i += 1;
    }
    sandbox_relative_path(root, path, current_dir)
}

/// What the workspace shows, it holds, and it is reached without a link.
pub proof fn shown_files_are_inside(
    root: Seq<char>,
    path: Seq<char>,
    links: Seq<Option<bool>>,
    current_dir: Option<Seq<char>>,
)
    requires
        safely_shown(Some(root), Some(path), links, current_dir) is Some,
    ensures
        lies_under(root, path),
        forall|i: int|
            0 <= i < path_parts(path).len() - path_parts(root).len() ==> #[trigger] links[i]
                == Some(false),
{
}

/// Skills that lie in files.
#[derive(Debug)]
pub struct FileSkillStore {
    pub roots: Vec<SkillRoot>,
    pub entries: TextMap<SkillEntry>,
    pub diagnostics: Vec<SkillLoadDiagnostic>,
    pub metadata_cache: TextMap<CachedSkill>,
}

impl FileSkillStore {
    pub open spec fn index(&self) -> Seq<(Seq<char>, EntryView)> {
        seen(self.entries@, entry_view())
    }

    /// A store in which nothing was looked for yet.
    pub open spec fn unread(&self) -> bool {
        &&& self.index() == Seq::<(Seq<char>, EntryView)>::empty()
        &&& diagnostic_views(self.diagnostics@) == Seq::<DiagnosticView>::empty()
        &&& seen(self.metadata_cache@, cached_view()).len() == 0
    }

    fn with_skill_roots(roots: Vec<SkillRoot>) -> (r: FileSkillStore)
        ensures
            r.roots@ == roots@,
            r.unread(),
    {
        let r = FileSkillStore {
            roots,
            entries: TextMap::new(),
            diagnostics: Vec::new(),
            metadata_cache: TextMap::new(),
        };
        assert(r.index() =~= Seq::<(Seq<char>, EntryView)>::empty());
        assert(diagnostic_views(r.diagnostics@) =~= Seq::<DiagnosticView>::empty());
        r
    }

    /// A store over the skills of the workspace that `primary_dir` belongs to.
    pub fn new(primary_dir: &str) -> (r: FileSkillStore)
        ensures
            root_views(r.roots@) == workspace_roots(primary_dir@, workspace_of(primary_dir@)),
            r.unread(),
    {
        let workspace = infer_workspace_root_from_primary_dir(primary_dir);
        Self::new_in_workspace(primary_dir, &workspace)
    }

    /// A store over the skills of a workspace.
    pub fn new_in_workspace(primary_dir: &str, workspace_root: &str) -> (r: FileSkillStore)
        ensures
            root_views(r.roots@) == workspace_roots(primary_dir@, workspace_root@),
            r.unread(),
    {
        let mut roots: Vec<SkillRoot> = Vec::new();
        roots.push(
            SkillRoot {
                dir: primary_dir.to_owned(),
                source: PRIMARY_SOURCE.to_owned(),
                workspace_root: Some(workspace_root.to_owned()),
            },
        );
        roots.push(
            SkillRoot {
                dir: join_path(workspace_root, COMPAT_SOURCE),
                source: COMPAT_SOURCE.to_owned(),
                workspace_root: Some(workspace_root.to_owned()),
            },
        );
        assert(root_views(roots@) =~= workspace_roots(primary_dir@, workspace_root@));
        Self::with_skill_roots(roots)
    }

    /// A store over the given places, whose files are shown without a workspace.
    pub fn with_roots(roots: Vec<(String, String)>) -> (r: FileSkillStore)
        ensures
            root_views(r.roots@) == roots@.map_values(
                |p: (String, String)|
                    (RootView { dir: p.0@, source: p.1@, workspace_root: None }),
            ),
            r.unread(),
    {
        let mut out: Vec<SkillRoot> = Vec::new();
        let mut i: usize = 0;
        while i < roots.len()
            invariant
                i <= roots.len(),
                out.len() == i,
                forall|j: int|
                    0 <= j < i ==> (#[trigger] out@[j])@ == (RootView {
                        dir: roots@[j].0@,
                        source: roots@[j].1@,
                        workspace_root: None,
                    }),
            decreases roots.len() - i,
        {
            out.push(
                SkillRoot {
                    dir: roots[i].0.clone(),
                    source: roots[i].1.clone(),
                    workspace_root: None,
                },
            );
            i += 1;
        }
        assert(root_views(out@) =~= roots@.map_values(
            |p: (String, String)| (RootView { dir: p.0@, source: p.1@, workspace_root: None }),
        ));
        Self::with_skill_roots(out)
    }

    /// Looks for the skills again, given the directories that each place holds now.
    pub fn reload(&mut self, found: Vec<Vec<SkillNode>>)
        requires
            found.len() == old(self).roots.len(),
        ensures
            final(self).roots == old(self).roots,
            ({
                let scan = scanned(
                    trees_of(old(self).roots@, found@),
                    seen(old(self).metadata_cache@, cached_view()),
                );
                &&& final(self).index() == scan.entries
                &&& diagnostic_views(final(self).diagnostics@) == scan.diagnostics
                &&& seen(final(self).metadata_cache@, cached_view()) == scan.cache
            }),
    {
        let ghost all = found@;
        let mut rest = found;
        let mut trees: Vec<SkillRootTree> = Vec::new();
        let mut i: usize = 0;
        assert(all.skip(0) =~= all);
        while i < self.roots.len()
            invariant
                i <= self.roots.len(),
                self == old(self),
                all.len() == self.roots.len(),
                rest@ == all.skip(i as int),
                trees.len() == i,
                forall|j: int|
                    0 <= j < i ==> #[trigger] trees@[j] == (SkillRootTree {
                        dir: self.roots@[j].dir,
                        place: SkillPlace {
                            source: self.roots@[j].source,
                            in_workspace: self.roots@[j].workspace_root is Some,
                        },
                        nodes: all[j],
                    }),
            decreases self.roots.len() - i,
        {
            let nodes = rest.remove(0);
            assert(rest@ =~= all.skip(i + 1));
            trees.push(
                SkillRootTree {
                    dir: self.roots[i].dir.clone(),
                    place: SkillPlace {
                        source: self.roots[i].source.clone(),
                        in_workspace: self.roots[i].workspace_root.is_some(),
                    },
                    nodes,
                },
            );
            i += 1;
        }
        assert(trees@ =~= trees_of(self.roots@, all));
        let mut cache: TextMap<CachedSkill> = TextMap::new();
        std::mem::swap(&mut cache, &mut self.metadata_cache);
        let scan = scan_skill_roots(&trees, cache);
        self.entries = scan.entries;
        self.diagnostics = scan.diagnostics;
        self.metadata_cache = scan.cache;
    }
}

/// The places with the directories that each of them holds.
pub open spec fn trees_of(roots: Seq<SkillRoot>, found: Seq<Vec<SkillNode>>) -> Seq<SkillRootTree> {
    Seq::new(
        roots.len(),
        |i: int|
            SkillRootTree {
                dir: roots[i].dir,
                place: SkillPlace {
                    source: roots[i].source,
                    in_workspace: roots[i].workspace_root is Some,
                },
                nodes: found[i],
            },
    )
}

/// Skills of places that belong to no workspace show no path in one, and with
/// no place there are no skills and nothing to tell of.
pub proof fn places_without_a_workspace_show_no_paths(
    roots: Seq<SkillRoot>,
    found: Seq<Vec<SkillNode>>,
    cache: Seq<(Seq<char>, CachedView)>,
)
    requires
        forall|r: int| 0 <= r < roots.len() ==> (#[trigger] roots[r]).workspace_root is None,
    ensures
        ({
            let scan = scanned(trees_of(roots, found), cache);
            &&& forall|i: int|
                0 <= i < scan.entries.len() ==> {
                    &&& (#[trigger] scan.entries[i]).1.summary.skill_file_path is None
                    &&& scan.entries[i].1.summary.resource_root_path is None
                }
            &&& roots.len() == 0 ==> scan.entries.len() == 0 && scan.diagnostics.len() == 0
        }),
{
    let trees = trees_of(roots, found);
    let all = scanned(trees, cache).entries;
    skills_tell_their_place(trees, cache);
    assert forall|i: int| 0 <= i < all.len() implies {
        &&& (#[trigger] all[i]).1.summary.skill_file_path is None
        &&& all[i].1.summary.resource_root_path is None
    } by {
        let r = choose|r: int|
            0 <= r < trees.len() && is_of_place(all[i].1.summary, (#[trigger] trees[r]).place@);
        assert(roots[r].workspace_root is None);
    }
}

// ---------------------------------------------------------------- looking up

/// The entry that a locator means.
pub fn resolve_entry(entries: &TextMap<SkillEntry>, locator: &str) -> (r: Result<
    Option<SkillEntry>,
    AgentError,
>)
    ensures
        match r {
            Ok(Some(e)) => located(seen(entries@, entry_view()), locator@) == Ok::<_, ErrorView>(
                Some(e@),
            ),
            Ok(None) => located(seen(entries@, entry_view()), locator@) == Ok::<
                Option<EntryView>,
                ErrorView,
            >(None),
            Err(e) => located(seen(entries@, entry_view()), locator@) == Err::<
                Option<EntryView>,
                _,
            >(e@),
        },
{
    let ghost index = seen(entries@, entry_view());
    let chars = chars_of(locator);
    match find_char(&chars, '/', 0) {
        Some(i) => {
            assert(locator@[i as int] == '/');
            let key = canonical_id(locator);
            proof {
                lemma_seen_value_of(entries@, entry_view(), key@);
            }
            return match entries.get(&key) {
                Some(e) => Ok(Some(e.copy())),
                None => Ok(None),
            };
        },
        None => {
            assert(!locator@.contains('/'));
        },
    }
    let needle = canonical_name(locator);
    let mut found: Vec<usize> = Vec::new();
    let mut id_list: Vec<String> = Vec::new();
    let mut i: usize = 0;
    assert(index.take(0) =~= Seq::empty());
    assert(texts(id_list@) =~= ids(named(index.take(0), needle@)));
    while i < entries.entries.len()
        invariant
            i <= entries.entries.len(),
            index == seen(entries@, entry_view()),
            found.len() == named(index.take(i as int), needle@).len(),
            texts(id_list@) == ids(named(index.take(i as int), needle@)),
            forall|j: int|
                0 <= j < found.len() ==> (#[trigger] found@[j]) < entries.entries.len()
                    && entries.entries@[found@[j] as int].1@ == named(
                    index.take(i as int),
                    needle@,
                )[j],
        decreases entries.entries.len() - i,
    {
        let entry = &entries.entries[i].1;
        let ghost before = named(index.take(i as int), needle@);
        assert(index[i as int].1 == entry@);
        assert(index.take(i + 1).drop_last() =~= index.take(i as int));
        let name = canonical_name(&entry.summary.name);
        if str_eq(&name, &needle) {
            let ghost listed = texts(id_list@);
            found.push(i);
            id_list.push(entry.summary.id.clone());
            assert(texts(id_list@) =~= listed.push(entry@.summary.id));
            assert(ids(before.push(entry@)) =~= ids(before).push(entry@.summary.id));
        }
        i += 1;
    }
    assert(index.take(i as int) =~= index);
    if found.len() == 0 {
        return Ok(None);
    }
    if found.len() == 1 {
        let at = found[0];
        return Ok(Some(entries.entries[at].1.copy()));
    }
    let mut message = "skill name '".to_owned();
    message.push_str(locator);
    message.push_str("' is ambiguous; use one of: ");
    message.push_str(&join(&id_list, ", "));
    Err(AgentError::tool("skill", &message))
}

fn child_summaries(entries: &TextMap<SkillEntry>, id: &str) -> (r: Vec<SkillSummary>)
    ensures
        summary_views(r@) == children_of(seen(entries@, entry_view()), id@),
{
    let ghost index = seen(entries@, entry_view());
    let mut out: Vec<SkillSummary> = Vec::new();
    let mut i: usize = 0;
    assert(index.take(0) =~= Seq::empty());
    assert(summary_views(out@) =~= Seq::<SummaryView>::empty());
    while i < entries.entries.len()
        invariant
            i <= entries.entries.len(),
            index == seen(entries@, entry_view()),
            summary_views(out@) == children_of(index.take(i as int), id@),
        decreases entries.entries.len() - i,
    {
        let summary = &entries.entries[i].1.summary;
        assert(index[i as int].1.summary == summary@);
        assert(index.take(i + 1).drop_last() =~= index.take(i as int));
        let child = match &summary.parent_id {
            Some(p) => str_eq(p, id),
            None => false,
        };
        if child {
            let ghost before = summary_views(out@);
            out.push(summary.copy());
            assert(summary_views(out@) =~= before.push(summary@));
        }
        i += 1;
    }
    assert(index.take(i as int) =~= index);
    out
}

fn leaf_dir_of(entry: &SkillEntry) -> (r: String)
    ensures
        r@ == leaf_dir(entry@),
{
    match parent(&entry.path) {
        Some(dir) => match file_name(&dir) {
            Some(name) => name,
            None => entry.summary.name.clone(),
        },
        None => entry.summary.name.clone(),
    }
}

/// A skill with its instructions.
pub fn skill_document(entries: &TextMap<SkillEntry>, entry: &SkillEntry) -> (r: Result<
    SkillDocument,
    AgentError,
>)
    ensures
        match r {
            Ok(d) => document_of(seen(entries@, entry_view()), entry@) == Ok::<_, ErrorView>(d@),
            Err(e) => document_of(seen(entries@, entry_view()), entry@) == Err::<DocumentView, _>(
                e@,
            ),
        },
{
    let text = match &entry.content {
        Ok(t) => t,
        Err(e) => return Err(AgentError::Io(e.clone())),
    };
    let dir = leaf_dir_of(entry);
    match parse_skill_markdown(&dir, text) {
        Err(e) => Err(e),
        Ok(parsed) => Ok(
            SkillDocument {
                id: entry.summary.id.clone(),
                name: parsed.name,
                description: parsed.description,
                pin: parsed.pin,
                content: text.clone(),
                source: entry.summary.source.clone(),
                root: Some(entry.root.clone()),
                skill_file_path: copy_option_text(&entry.summary.skill_file_path),
                resource_root_path: copy_option_text(&entry.summary.resource_root_path),
                parent_id: copy_option_text(&entry.summary.parent_id),
                children: child_summaries(entries, &entry.summary.id),
            },
        ),
    }
}

/// A place that skills are looked up in.
pub trait SkillStore {
    /// The skill under a locator.
    spec fn got(&self, name: Seq<char>) -> Result<Option<DocumentView>, ErrorView>;

    /// The skills that answer a query.
    spec fn found(&self, query: Seq<char>) -> Result<Seq<SummaryView>, ErrorView>;

    /// Where a resource of a skill is read from.
    spec fn resource(&self, skill: Seq<char>, path: Seq<char>) -> Result<RequestView, ErrorView>;

    spec fn featured(&self) -> Seq<SummaryView>;

    spec fn all(&self) -> Seq<SummaryView>;

    spec fn problems(&self) -> Seq<DiagnosticView>;

    fn get(&self, name: &str) -> (r: Result<Option<SkillDocument>, AgentError>)
        ensures
            match r {
                Ok(Some(d)) => self.got(name@) == Ok::<_, ErrorView>(Some(d@)),
                Ok(None) => self.got(name@) == Ok::<Option<DocumentView>, ErrorView>(None),
                Err(e) => self.got(name@) == Err::<Option<DocumentView>, _>(e@),
            },
    ;

    fn search(&self, query: &str) -> (r: Result<Vec<SkillSummary>, AgentError>)
        ensures
            match r {
                Ok(s) => self.found(query@) == Ok::<_, ErrorView>(summary_views(s@)),
                Err(e) => self.found(query@) == Err::<Seq<SummaryView>, _>(e@),
            },
    ;

    fn read_resource(&self, skill: &str, path: &str) -> (r: Result<ResourceRequest, AgentError>)
        ensures
            match r {
                Ok(q) => self.resource(skill@, path@) == Ok::<_, ErrorView>(q@),
                Err(e) => self.resource(skill@, path@) == Err::<RequestView, _>(e@),
            },
    ;

    fn featured_summaries(&self) -> (r: Vec<SkillSummary>)
        ensures
            summary_views(r@) == self.featured(),
    ;

    fn all_summaries(&self) -> (r: Vec<SkillSummary>)
        ensures
            summary_views(r@) == self.all(),
    ;

    fn load_diagnostics(&self) -> (r: Vec<SkillLoadDiagnostic>)
        ensures
            diagnostic_views(r@) == self.problems(),
    ;
}

pub fn copy_diagnostics(list: &Vec<SkillLoadDiagnostic>) -> (r: Vec<SkillLoadDiagnostic>)
    ensures
        r@ == list@,
{
    let mut out: Vec<SkillLoadDiagnostic> = Vec::new();
    let mut i: usize = 0;
    while i < list.len()
        invariant
            i <= list.len(),
            out@ == list@.take(i as int),
        decreases list.len() - i,
    {
        out.push(list[i].copy());
        i += 1;
        assert(list@.take(i as int) =~= list@.take(i - 1).push(list@[i - 1]));
    }
    assert(list@.take(i as int) =~= list@);
    out
}

impl SkillStore for FileSkillStore {
    open spec fn got(&self, name: Seq<char>) -> Result<Option<DocumentView>, ErrorView> {
        document_at(self.index(), name)
    }

    open spec fn found(&self, query: Seq<char>) -> Result<Seq<SummaryView>, ErrorView> {
        Ok(ranked(entry_summaries(self.index()), search_terms(query)))
    }

    open spec fn resource(&self, skill: Seq<char>, path: Seq<char>) -> Result<
        RequestView,
        ErrorView,
    > {
        request_at(self.index(), skill, path)
    }

    open spec fn featured(&self) -> Seq<SummaryView> {
        top_or_pinned(self.index())
    }

    open spec fn all(&self) -> Seq<SummaryView> {
        entry_summaries(self.index())
    }

    open spec fn problems(&self) -> Seq<DiagnosticView> {
        diagnostic_views(self.diagnostics@)
    }

    fn get(&self, name: &str) -> (r: Result<Option<SkillDocument>, AgentError>) {
        match resolve_entry(&self.entries, name) {
            Err(e) => Err(e),
            Ok(None) => Ok(None),
            Ok(Some(entry)) => match skill_document(&self.entries, &entry) {
                Ok(d) => Ok(Some(d)),
                Err(e) => Err(e),
            },
        }
    }

    fn search(&self, query: &str) -> (r: Result<Vec<SkillSummary>, AgentError>) {
        let all = self.all_summaries();
        let keywords = parse_keywords(query);
        Ok(rank_summaries(&all, &keywords))
    }

    fn read_resource(&self, skill: &str, path: &str) -> (r: Result<ResourceRequest, AgentError>) {
        match resolve_entry(&self.entries, skill) {
            Err(e) => Err(e),
            Ok(None) => Err(AgentError::tool("skill_resource", "skill not found")),
            Ok(Some(entry)) => match resolve_resource_path(&entry.root, path) {
                Err(e) => Err(e),
                Ok(file) => Ok(
                    ResourceRequest { skill: entry.summary.id, path: path.to_owned(), file },
                ),
            },
        }
    }

    fn featured_summaries(&self) -> (r: Vec<SkillSummary>) {
        let ghost index = self.index();
        let mut out: Vec<SkillSummary> = Vec::new();
        let mut i: usize = 0;
        assert(index.take(0) =~= Seq::empty());
        assert(summary_views(out@) =~= Seq::<SummaryView>::empty());
        while i < self.entries.entries.len()
            invariant
                i <= self.entries.entries.len(),
                index == self.index(),
                summary_views(out@) == top_or_pinned(index.take(i as int)),
            decreases self.entries.entries.len() - i,
        {
            let summary = &self.entries.entries[i].1.summary;
            assert(index[i as int].1.summary == summary@);
            assert(index.take(i + 1).drop_last() =~= index.take(i as int));
            if summary.parent_id.is_none() || summary.pin {
                let ghost before = summary_views(out@);
                out.push(summary.copy());
                assert(summary_views(out@) =~= before.push(summary@));
            }
            i += 1;
        }
        assert(index.take(i as int) =~= index);
        out
    }

    fn all_summaries(&self) -> (r: Vec<SkillSummary>) {
        let ghost index = self.index();
        let mut out: Vec<SkillSummary> = Vec::new();
        let mut i: usize = 0;
        while i < self.entries.entries.len()
            invariant
                i <= self.entries.entries.len(),
                index == self.index(),
                out.len() == i,
                forall|j: int| 0 <= j < i ==> (#[trigger] out@[j])@ == index[j].1.summary,
            decreases self.entries.entries.len() - i,
        {
            assert(index[i as int].1.summary == self.entries.entries@[i as int].1.summary@);
            out.push(self.entries.entries[i].1.summary.copy());
            i += 1;
        }
        assert(summary_views(out@) =~= entry_summaries(index));
        out
    }

    fn load_diagnostics(&self) -> (r: Vec<SkillLoadDiagnostic>) {
        copy_diagnostics(&self.diagnostics)
    }
}

// ----------------------------------------------------------------------- laws

/// A resource is read from a file under the directory of its skill.
pub proof fn resources_stay_inside(root: Seq<char>, relative: Seq<char>)
    requires
        root.len() > 0,
        root.last() != '/',
        resource_file(root, relative) is Ok,
    ensures
        lies_under(root, resource_file(root, relative)->Ok_0),
        !parts_under(root, resource_file(root, relative)->Ok_0)->0.contains(".."@),
{
    joined_paths_stay_under(root, relative);
}

/// Whatever a locator without a `/` finds goes by that name.
pub proof fn found_by_name(
    entries: Seq<(Seq<char>, EntryView)>,
    locator: Seq<char>,
    i: int,
)
    requires
        0 <= i < named(entries, canonical_name_text(locator)).len(),
    ensures
        canonical_name_text(named(entries, canonical_name_text(locator))[i].summary.name)
            == canonical_name_text(locator),
    decreases entries.len(),
{
    let n = canonical_name_text(locator);
    if entries.len() > 0 {
        let head = named(entries.drop_last(), n);
        if i < head.len() {
            found_by_name(entries.drop_last(), locator, i);
        }
    }
}

} // verus!
