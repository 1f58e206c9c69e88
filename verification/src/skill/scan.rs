//! Finding the skills in a directory tree.
use vstd::prelude::*;
use vstd::string::*;

use crate::error::{AgentError, ErrorView};
use crate::message::{copy_option_text, option_text};
use crate::paths::{join_path, joined_path};
use crate::skill::markdown::{parse_skill_markdown, skill_of_markdown, ParsedSkill, ParsedSkillView};
use crate::skill::names::{canonical_id, canonical_id_text, normalize_skill_name, normalized_name};
use crate::skill::types::{
    diagnostic_views, DiagnosticView, SkillLoadDiagnostic, SkillLoadDiagnosticSeverity,
    SkillSummary, SummaryView,
};
use crate::text::{list_has, str_eq, texts};
use crate::text_map::{
    entries_are_read_back, keys_ordered, lemma_seen_value_of, lemma_seen_with_value, seen,
    set_value_is_read_back, setting_keeps_order, value_of, with_value, TextMap,
};

verus! {

broadcast use vstd::string::group_string_axioms;

pub const MAX_SKILL_DEPTH: usize = 6;

pub const MAX_SCANNED_DIRS: usize = 2000;

pub const MAX_SKILL_FILE_SIZE: u64 = 262144;

/// The `SKILL.md` of a skill directory, with the paths by which it is reached
/// from the workspace where it lies in it.
#[derive(Debug)]
pub struct SkillFileNode {
    pub path: String,
    pub size: u64,
    pub modified: Option<u64>,
    pub content: Result<String, String>,
    pub workspace_file: Option<String>,
    pub workspace_dir: Option<String>,
}

/// A directory that may hold a skill, with the directories below its `skills`.
/// The directories of one place are in the order of their paths.
#[derive(Debug)]
pub struct SkillNode {
    pub dir_path: String,
    pub dir_name: String,
    pub is_symlink: bool,
    pub file: Option<SkillFileNode>,
    pub children: Vec<SkillNode>,
}

/// What is said of the skills of one place: where they come from, and whether
/// the place belongs to a workspace.
#[derive(Debug)]
pub struct SkillPlace {
    pub source: String,
    pub in_workspace: bool,
}

pub struct PlaceView {
    pub source: Seq<char>,
    pub in_workspace: bool,
}

impl View for SkillPlace {
    type V = PlaceView;

    open spec fn view(&self) -> PlaceView {
        PlaceView { source: self.source@, in_workspace: self.in_workspace }
    }
}

/// A place where skills are looked for.
#[derive(Debug)]
pub struct SkillRootTree {
    pub dir: String,
    pub place: SkillPlace,
    pub nodes: Vec<SkillNode>,
}

/// A skill that was found, with what reading its file gave.
#[derive(Debug)]
pub struct SkillEntry {
    pub summary: SkillSummary,
    pub path: String,
    pub root: String,
    pub content: Result<String, String>,
}

pub struct EntryView {
    pub summary: SummaryView,
    pub path: Seq<char>,
    pub root: Seq<char>,
    pub content: Result<Seq<char>, Seq<char>>,
}

/// What reading a file gave: its text, or what went wrong.
pub open spec fn read_view(content: Result<String, String>) -> Result<Seq<char>, Seq<char>> {
    match content {
        Ok(t) => Ok(t@),
        Err(e) => Err(e@),
    }
}

pub fn copy_read(content: &Result<String, String>) -> (r: Result<String, String>)
    ensures
        r == *content,
{
    match content {
        Ok(t) => Ok(t.clone()),
        Err(e) => Err(e.clone()),
    }
}

impl View for SkillEntry {
    type V = EntryView;

    open spec fn view(&self) -> EntryView {
        EntryView {
            summary: self.summary@,
            path: self.path@,
            root: self.root@,
            content: read_view(self.content),
        }
    }
}

impl SkillEntry {
    pub fn copy(&self) -> (r: SkillEntry)
        ensures
            r == *self,
    {
        SkillEntry {
            summary: self.summary.copy(),
            path: self.path.clone(),
            root: self.root.clone(),
            content: copy_read(&self.content),
        }
    }
}

/// What a skill file said when it was read last, and by what it is recognised
/// as unchanged.
#[derive(Debug)]
pub struct CachedSkill {
    pub modified: Option<u64>,
    pub size: u64,
    pub parsed: ParsedSkill,
}

pub struct CachedView {
    pub modified: Option<u64>,
    pub size: u64,
    pub parsed: ParsedSkillView,
}

impl View for CachedSkill {
    type V = CachedView;

    open spec fn view(&self) -> CachedView {
        CachedView { modified: self.modified, size: self.size, parsed: self.parsed@ }
    }
}

pub open spec fn entry_view() -> spec_fn(SkillEntry) -> EntryView {
    |e: SkillEntry| e@
}

pub open spec fn cached_view() -> spec_fn(CachedSkill) -> CachedView {
    |c: CachedSkill| c@
}

/// A scan under way.
#[derive(Debug)]
pub struct SkillScan {
    pub entries: TextMap<SkillEntry>,
    pub diagnostics: Vec<SkillLoadDiagnostic>,
    pub cache: TextMap<CachedSkill>,
    pub seen_files: Vec<String>,
    pub dirs_seen: usize,
}

#[verifier::ext_equal]
pub struct ScanView {
    pub entries: Seq<(Seq<char>, EntryView)>,
    pub diagnostics: Seq<DiagnosticView>,
    pub cache: Seq<(Seq<char>, CachedView)>,
    pub seen_files: Seq<Seq<char>>,
    pub dirs_seen: int,
}

impl View for SkillScan {
    type V = ScanView;

    open spec fn view(&self) -> ScanView {
        ScanView {
            entries: seen(self.entries@, entry_view()),
            diagnostics: diagnostic_views(self.diagnostics@),
            cache: seen(self.cache@, cached_view()),
            seen_files: texts(self.seen_files@),
            dirs_seen: self.dirs_seen as int,
        }
    }
}

// ------------------------------------------------------------- specification

/// What the cache keeps of an unchanged file.
pub open spec fn fresh(cache: Seq<(Seq<char>, CachedView)>, file: SkillFileNode) -> Option<
    ParsedSkillView,
> {
    match value_of(cache, file.path@) {
        Some(c) => if c.modified == file.modified && c.size == file.size {
            Some(c.parsed)
        } else {
            None
        },
        None => None,
    }
}

/// What a skill file says: what the cache keeps of it, or what its text says.
pub open spec fn file_skill(
    cache: Seq<(Seq<char>, CachedView)>,
    dir_name: Seq<char>,
    file: SkillFileNode,
) -> Result<ParsedSkillView, ErrorView> {
    if file.size > MAX_SKILL_FILE_SIZE {
        Err(ErrorView::Other("SKILL.md exceeds 262144 byte limit"@))
    } else {
        match fresh(cache, file) {
            Some(p) => Ok(p),
            None => match file.content {
                Ok(text) => skill_of_markdown(dir_name, text@),
                Err(e) => Err(ErrorView::Io(e@)),
            },
        }
    }
}

/// The cache after a file was read: what it says is kept.
pub open spec fn cache_after(
    cache: Seq<(Seq<char>, CachedView)>,
    dir_name: Seq<char>,
    file: SkillFileNode,
) -> Seq<(Seq<char>, CachedView)> {
    if file.size <= MAX_SKILL_FILE_SIZE && fresh(cache, file) is None {
        match file_skill(cache, dir_name, file) {
            Ok(p) => with_value(
                cache,
                file.path@,
                CachedView { modified: file.modified, size: file.size, parsed: p },
            ),
            Err(_) => cache,
        }
    } else {
        cache
    }
}

pub open spec fn error_text(e: ErrorView) -> Seq<char> {
    match e {
        ErrorView::Tool(_, m) => m,
        ErrorView::Io(m) => m,
        ErrorView::Other(m) => m,
    }
}

pub open spec fn with_diagnostic(st: ScanView, d: DiagnosticView) -> ScanView {
    ScanView { diagnostics: st.diagnostics.push(d), ..st }
}

/// The id of a skill: its name, behind the id of its parent where it has one.
pub open spec fn skill_id(parent: Option<Seq<char>>, name: Seq<char>) -> Seq<char> {
    match parent {
        Some(p) => p + "/"@ + name,
        None => name,
    }
}

/// Each warning as a diagnostic.
pub open spec fn warning_diagnostics(
    id: Seq<char>,
    path: Seq<char>,
    warnings: Seq<Seq<char>>,
) -> Seq<DiagnosticView> {
    warnings.map_values(
        |w: Seq<char>|
            DiagnosticView {
                skill: Some(id),
                path,
                severity: SkillLoadDiagnosticSeverity::Warning,
                message: w,
            },
    )
}

/// The entry of a skill that was found.
pub open spec fn found_entry(
    place: PlaceView,
    node: SkillNode,
    file: SkillFileNode,
    parent: Option<Seq<char>>,
    parsed: ParsedSkillView,
) -> EntryView {
    EntryView {
        summary: SummaryView {
            id: skill_id(parent, parsed.name),
            name: parsed.name,
            description: parsed.description,
            parent_id: parent,
            has_children: false,
            source: place.source,
            skill_file_path: if place.in_workspace {
                option_text(file.workspace_file)
            } else {
                None
            },
            resource_root_path: if place.in_workspace {
                option_text(file.workspace_dir)
            } else {
                None
            },
            pin: parsed.pin,
        },
        path: file.path@,
        root: node.dir_path@,
        content: read_view(file.content),
    }
}

/// A found skill is added, unless one of the same id was found before.
pub open spec fn add_entry(st: ScanView, entry: EntryView) -> ScanView {
    let key = canonical_id_text(entry.summary.id);
    match value_of(st.entries, key) {
        Some(existing) => with_diagnostic(
            st,
            DiagnosticView {
                skill: Some(entry.summary.id),
                path: entry.path,
                severity: SkillLoadDiagnosticSeverity::Warning,
                message: "shadowed by "@ + existing.path + " from "@ + existing.summary.source,
            },
        ),
        None => ScanView { entries: with_value(st.entries, key, entry), ..st },
    }
}

/// One directory more, counted no further than the limit is passed.
pub open spec fn count_dir(n: int) -> int {
    if n <= MAX_SCANNED_DIRS {
        n + 1
    } else {
        n
    }
}

/// The scan after one directory that is within the limit.
pub open spec fn scan_node(
    place: PlaceView,
    node: SkillNode,
    parent: Option<Seq<char>>,
    depth: nat,
    st: ScanView,
) -> ScanView
    decreases node, 0int,
{
    if node.is_symlink {
        st
    } else {
        match node.file {
            None => st,
            Some(file) => {
                let noted = ScanView { seen_files: st.seen_files.push(file.path@), ..st };
                if depth > MAX_SKILL_DEPTH {
                    with_diagnostic(
                        noted,
                        DiagnosticView {
                            skill: parent,
                            path: file.path@,
                            severity: SkillLoadDiagnosticSeverity::Error,
                            message: "maximum child skill depth 6 exceeded"@,
                        },
                    )
                } else {
                    let read = ScanView {
                        cache: cache_after(noted.cache, node.dir_name@, file),
                        ..noted
                    };
                    match file_skill(noted.cache, node.dir_name@, file) {
                        Ok(parsed) => {
                            let id = skill_id(parent, parsed.name);
                            let warned = ScanView {
                                diagnostics: read.diagnostics + warning_diagnostics(
                                    id,
                                    file.path@,
                                    parsed.warnings,
                                ),
                                ..read
                            };
                            let added = add_entry(
                                warned,
                                found_entry(place, node, file, parent, parsed),
                            );
                            scan_nodes(
                                place,
                                joined_path(node.dir_path@, "skills"@),
                                node.children@,
                                Some(id),
                                depth + 1,
                                added,
                            )
                        },
                        Err(e) => with_diagnostic(
                            read,
                            DiagnosticView {
                                skill: normalized_name(node.dir_name@),
                                path: file.path@,
                                severity: SkillLoadDiagnosticSeverity::Error,
                                message: error_text(e),
                            },
                        ),
                    }
                }
            },
        }
    }
}

/// The scan after the directories of one place, from the first on: each is
/// counted, and the first above the limit ends the place.
pub open spec fn scan_nodes(
    place: PlaceView,
    container: Seq<char>,
    nodes: Seq<SkillNode>,
    parent: Option<Seq<char>>,
    depth: nat,
    st: ScanView,
) -> ScanView
    decreases nodes, 1int,
{
    if nodes.len() == 0 {
        st
    } else {
        let counted = ScanView { dirs_seen: count_dir(st.dirs_seen), ..st };
        if counted.dirs_seen > MAX_SCANNED_DIRS {
            with_diagnostic(
                counted,
                DiagnosticView {
                    skill: parent,
                    path: container,
                    severity: SkillLoadDiagnosticSeverity::Error,
                    message: "skill scan exceeded 2000 directories"@,
                },
            )
        } else {
            scan_nodes(
                place,
                container,
                nodes.drop_first(),
                parent,
                depth,
                scan_node(place, nodes[0], parent, depth, counted),
            )
        }
    }
}

/// The scan after the given roots: each is counted on its own.
pub open spec fn scan_roots(roots: Seq<SkillRootTree>, st: ScanView) -> ScanView
    decreases roots.len(),
{
    if roots.len() == 0 {
        st
    } else {
        let before = scan_roots(roots.drop_last(), st);
        let root = roots.last();
        scan_nodes(
            root.place@,
            root.dir@,
            root.nodes@,
            None,
            0,
            ScanView { dirs_seen: 0, ..before },
        )
    }
}

// ------------------------------------------------------------------- scanning

proof fn lemma_push_diagnostic(s: Seq<SkillLoadDiagnostic>, d: SkillLoadDiagnostic)
    ensures
        diagnostic_views(s.push(d)) == diagnostic_views(s).push(d@),
{
    assert(diagnostic_views(s.push(d)) =~= diagnostic_views(s).push(d@));
}

/// The id of a skill: its name, behind the id of its parent where it has one.
pub fn id_of(parent: &Option<String>, name: &str) -> (r: String)
    ensures
        r@ == skill_id(option_text(*parent), name@),
{
    match parent {
        Some(p) => {
            let mut r = p.clone();
            r.push_str("/");
            r.push_str(name);
            r
        },
        None => name.to_owned(),
    }
}

impl SkillScan {
    /// A scan that has seen nothing, with what is kept of files read before.
    pub fn new(cache: TextMap<CachedSkill>) -> (r: SkillScan)
        ensures
            r@ == (ScanView {
                entries: Seq::empty(),
                diagnostics: Seq::empty(),
                cache: seen(cache@, cached_view()),
                seen_files: Seq::empty(),
                dirs_seen: 0,
            }),
    {
        let r = SkillScan {
            entries: TextMap::new(),
            diagnostics: Vec::new(),
            cache,
            seen_files: Vec::new(),
            dirs_seen: 0,
        };
        assert(r@.entries =~= Seq::<(Seq<char>, EntryView)>::empty());
        assert(r@.diagnostics =~= Seq::<DiagnosticView>::empty());
        assert(r@.seen_files =~= Seq::<Seq<char>>::empty());
        r
    }

    fn note(
        &mut self,
        skill: Option<String>,
        path: &str,
        severity: SkillLoadDiagnosticSeverity,
        message: &str,
    )
        ensures
            final(self)@ == with_diagnostic(
                old(self)@,
                (DiagnosticView {
                    skill: option_text(skill),
                    path: path@,
                    severity,
                    message: message@,
                }),
            ),
            final(self).dirs_seen == old(self).dirs_seen,
    {
        let d = SkillLoadDiagnostic {
            skill,
            path: path.to_owned(),
            severity,
            message: message.to_owned(),
        };
        proof {
            lemma_push_diagnostic(self.diagnostics@, d);
        }
        self.diagnostics.push(d);
    }

    /// What a skill file says.
    pub fn read_skill(&mut self, dir_name: &str, file: &SkillFileNode) -> (r: Result<
        ParsedSkill,
        AgentError,
    >)
        ensures
            final(self)@ == (ScanView {
                cache: cache_after(old(self)@.cache, dir_name@, *file),
                ..old(self)@
            }),
            final(self).dirs_seen == old(self).dirs_seen,
            match r {
                Ok(p) => file_skill(old(self)@.cache, dir_name@, *file) == Ok::<_, ErrorView>(p@),
                Err(e) => file_skill(old(self)@.cache, dir_name@, *file) == Err::<
                    ParsedSkillView,
                    _,
                >(e@),
            },
    {
        if file.size > MAX_SKILL_FILE_SIZE {
            return Err(AgentError::other("SKILL.md exceeds 262144 byte limit"));
        }
        proof {
            lemma_seen_value_of(self.cache@, cached_view(), file.path@);
        }
        match self.cache.get(&file.path) {
            Some(c) => {
                if c.modified == file.modified && c.size == file.size {
                    return Ok(c.parsed.copy());
                }
            },
            None => {},
        }
        match &file.content {
            Ok(text) => match parse_skill_markdown(dir_name, text) {
                Ok(parsed) => {
                    let kept = CachedSkill {
                        modified: file.modified,
                        size: file.size,
                        parsed: parsed.copy(),
                    };
                    proof {
                        lemma_seen_with_value(self.cache@, cached_view(), file.path@, kept);
                    }
                    self.cache.insert(file.path.clone(), kept);
                    Ok(parsed)
                },
                Err(e) => Err(e),
            },
            Err(e) => Err(AgentError::Io(e.clone())),
        }
    }

    /// Each warning becomes a diagnostic.
    fn warn(&mut self, id: &str, path: &str, warnings: &Vec<String>)
        ensures
            final(self)@ == (ScanView {
                diagnostics: old(self)@.diagnostics + warning_diagnostics(
                    id@,
                    path@,
                    texts(warnings@),
                ),
                ..old(self)@
            }),
            final(self).dirs_seen == old(self).dirs_seen,
    {
        let ghost all = warning_diagnostics(id@, path@, texts(warnings@));
        let mut i: usize = 0;
        assert(all.take(0) =~= Seq::<DiagnosticView>::empty());
        assert(self@.diagnostics + Seq::<DiagnosticView>::empty() =~= self@.diagnostics);
        while i < warnings.len()
            invariant
                i <= warnings.len(),
                all == warning_diagnostics(id@, path@, texts(warnings@)),
                self@ == (ScanView {
                    diagnostics: old(self)@.diagnostics + all.take(i as int),
                    ..old(self)@
                }),
                self.dirs_seen == old(self).dirs_seen,
            decreases warnings.len() - i,
        {
            self.note(
                Some(id.to_owned()),
                path,
                SkillLoadDiagnosticSeverity::Warning,
                &warnings[i],
            );
            assert(all.take(i + 1) =~= all.take(i as int).push(all[i as int]));
            assert(old(self)@.diagnostics + all.take(i + 1) =~= (old(self)@.diagnostics + all.take(
                i as int,
            )).push(all[i as int]));
            i += 1;
        }
        assert(all.take(i as int) =~= all);
    }

    /// A found skill is added, unless one of the same id was found before.
    pub fn add(&mut self, entry: SkillEntry)
        ensures
            final(self)@ == add_entry(old(self)@, entry@),
            final(self).dirs_seen == old(self).dirs_seen,
    {
        let key = canonical_id(&entry.summary.id);
        proof {
            lemma_seen_value_of(self.entries@, entry_view(), key@);
            lemma_seen_with_value(self.entries@, entry_view(), key@, entry);
        }
        let message: Option<String> = match self.entries.get(&key) {
            Some(existing) => {
                let mut t = "shadowed by ".to_owned();
                t.push_str(&existing.path);
                t.push_str(" from ");
                t.push_str(&existing.summary.source);
                Some(t)
            },
            None => None,
        };
        match message {
            Some(t) => {
                self.note(
                    Some(entry.summary.id.clone()),
                    &entry.path,
                    SkillLoadDiagnosticSeverity::Warning,
                    &t,
                );
            },
            None => {
                self.entries.insert(key, entry);
            },
        }
    }
}

// -------------------------------------------------------------------- walking

/// Looks at one directory that is within the limit.
fn scan_directory(
    scan: &mut SkillScan,
    place: &SkillPlace,
    node: &SkillNode,
    parent: &Option<String>,
    depth: usize,
)
    requires
        depth <= MAX_SKILL_DEPTH + 1,
        old(scan).dirs_seen <= MAX_SCANNED_DIRS + 1,
    ensures
        final(scan)@ == scan_node(place@, *node, option_text(*parent), depth as nat, old(scan)@),
        final(scan).dirs_seen <= MAX_SCANNED_DIRS + 1,
    decreases node, 0int,
{
    if node.is_symlink {
        return;
    }
    match &node.file {
        None => {},
        Some(file) => {
            proof {
                assert(texts(scan.seen_files@.push(file.path)) =~= texts(scan.seen_files@).push(
                    file.path@,
                ));
            }
            scan.seen_files.push(file.path.clone());
            if depth > MAX_SKILL_DEPTH {
                scan.note(
                    copy_option_text(parent),
                    &file.path,
                    SkillLoadDiagnosticSeverity::Error,
                    "maximum child skill depth 6 exceeded",
                );
                return;
            }
            match scan.read_skill(&node.dir_name, file) {
                Ok(parsed) => {
                    let id = id_of(parent, &parsed.name);
                    scan.warn(&id, &file.path, &parsed.warnings);
                    let entry = SkillEntry {
                        summary: SkillSummary {
                            id: id.clone(),
                            name: parsed.name.clone(),
                            description: parsed.description.clone(),
                            parent_id: copy_option_text(parent),
                            has_children: false,
                            source: place.source.clone(),
                            skill_file_path: if place.in_workspace {
                                copy_option_text(&file.workspace_file)
                            } else {
                                None
                            },
                            resource_root_path: if place.in_workspace {
                                copy_option_text(&file.workspace_dir)
                            } else {
                                None
                            },
                            pin: parsed.pin,
                        },
                        path: file.path.clone(),
                        root: node.dir_path.clone(),
                        content: copy_read(&file.content),
                    };
                    scan.add(entry);
                    let below = join_path(&node.dir_path, "skills");
                    let id_above: Option<String> = Some(id);
                    scan_container(scan, place, &below, &node.children, &id_above, depth + 1);
                },
                Err(e) => {
                    scan.note(
                        normalize_skill_name(&node.dir_name),
                        &file.path,
                        SkillLoadDiagnosticSeverity::Error,
                        e.message(),
                    );
                },
            }
        },
    }
}

/// Looks at the directories of one place.
pub fn scan_container(
    scan: &mut SkillScan,
    place: &SkillPlace,
    container: &str,
    nodes: &Vec<SkillNode>,
    parent: &Option<String>,
    depth: usize,
)
    requires
        depth <= MAX_SKILL_DEPTH + 1,
        old(scan).dirs_seen <= MAX_SCANNED_DIRS + 1,
    ensures
        final(scan)@ == scan_nodes(
            place@,
            container@,
            nodes@,
            option_text(*parent),
            depth as nat,
            old(scan)@,
        ),
        final(scan).dirs_seen <= MAX_SCANNED_DIRS + 1,
    decreases nodes@, 1int,
{
    let ghost p = option_text(*parent);
    let ghost d = depth as nat;
    let ghost goal = scan_nodes(place@, container@, nodes@, p, d, scan@);
    let mut i: usize = 0;
    assert(nodes@.skip(0) =~= nodes@);
    while i < nodes.len()
        invariant_except_break
            goal == scan_nodes(place@, container@, nodes@.skip(i as int), p, d, scan@),
        invariant
            i <= nodes.len(),
            depth <= MAX_SKILL_DEPTH + 1,
            scan.dirs_seen <= MAX_SCANNED_DIRS + 1,
            p == option_text(*parent),
            d == depth as nat,
        ensures
            scan@ == goal,
        decreases nodes.len() - i,
    {
        let ghost rest = nodes@.skip(i as int);
        assert(rest.drop_first() =~= nodes@.skip(i + 1));
        assert(rest[0] == nodes@[i as int]);
        if scan.dirs_seen <= MAX_SCANNED_DIRS {
            scan.dirs_seen = scan.dirs_seen + 1;
        }
        if scan.dirs_seen > MAX_SCANNED_DIRS {
            scan.note(
                copy_option_text(parent),
                container,
                SkillLoadDiagnosticSeverity::Error,
                "skill scan exceeded 2000 directories",
            );
            break;
        }
        scan_directory(scan, place, &nodes[i], parent, depth);
        i += 1;
        if i == nodes.len() {
            assert(nodes@.skip(i as int).len() == 0);
        }
    }
}

/// Whether some entry names `id` as its parent.
pub open spec fn has_child(entries: Seq<(Seq<char>, EntryView)>, id: Seq<char>) -> bool {
    exists|i: int|
        0 <= i < entries.len() && (#[trigger] entries[i]).1.summary.parent_id == Some(id)
}

pub open spec fn marked_entry(
    entries: Seq<(Seq<char>, EntryView)>,
    e: (Seq<char>, EntryView),
) -> (Seq<char>, EntryView) {
    (
        e.0,
        EntryView {
            summary: SummaryView {
                has_children: has_child(entries, e.1.summary.id),
                ..e.1.summary
            },
            ..e.1
        },
    )
}

/// The entries, each marked by whether it has children.
pub open spec fn marked(entries: Seq<(Seq<char>, EntryView)>) -> Seq<(Seq<char>, EntryView)> {
    entries.map_values(|e: (Seq<char>, EntryView)| marked_entry(entries, e))
}

/// What the cache keeps: the files that were seen.
pub open spec fn retained(
    cache: Seq<(Seq<char>, CachedView)>,
    files: Seq<Seq<char>>,
) -> Seq<(Seq<char>, CachedView)> {
    cache.filter(|e: (Seq<char>, CachedView)| files.contains(e.0))
}

/// The start of a scan.
pub open spec fn unscanned(cache: Seq<(Seq<char>, CachedView)>) -> ScanView {
    ScanView {
        entries: Seq::empty(),
        diagnostics: Seq::empty(),
        cache,
        seen_files: Seq::empty(),
        dirs_seen: 0,
    }
}

/// What is found in the given roots, and what is kept of their files.
pub open spec fn scanned(
    roots: Seq<SkillRootTree>,
    cache: Seq<(Seq<char>, CachedView)>,
) -> ScanView {
    let st = scan_roots(roots, unscanned(cache));
    ScanView {
        entries: marked(st.entries),
        cache: retained(st.cache, st.seen_files),
        ..st
    }
}

fn any_child(entries: &TextMap<SkillEntry>, id: &str) -> (r: bool)
    ensures
        r == has_child(seen(entries@, entry_view()), id@),
{
    let ghost views = seen(entries@, entry_view());
    let mut i: usize = 0;
    while i < entries.entries.len()
        invariant
            i <= entries.entries.len(),
            views == seen(entries@, entry_view()),
            forall|j: int| 0 <= j < i ==> (#[trigger] views[j]).1.summary.parent_id != Some(id@),
        decreases entries.entries.len() - i,
    {
        assert(views[i as int].1 == entries.entries@[i as int].1@);
        match &entries.entries[i].1.summary.parent_id {
            Some(p) => {
                if str_eq(p, id) {
                    assert(views[i as int].1.summary.parent_id == Some(id@));
                    return true;
                }
            },
            None => {},
        }
        i += 1;
    }
    false
}

/// Marks each entry by whether it has children.
fn mark_children(entries: &TextMap<SkillEntry>) -> (r: TextMap<SkillEntry>)
    ensures
        seen(r@, entry_view()) == marked(seen(entries@, entry_view())),
{
    let ghost views = seen(entries@, entry_view());
    let mut out: Vec<(String, SkillEntry)> = Vec::new();
    let mut i: usize = 0;
    while i < entries.entries.len()
        invariant
            i <= entries.entries.len(),
            views == seen(entries@, entry_view()),
            out.len() == i,
            forall|j: int|
                0 <= j < i ==> ((#[trigger] out@[j]).0@, out@[j].1@) == marked_entry(
                    views,
                    views[j],
                ),
        decreases entries.entries.len() - i,
    {
        let entry = &entries.entries[i].1;
        let mut copy = entry.copy();
        copy.summary.has_children = any_child(entries, &entry.summary.id);
        assert(views[i as int] == (entries.entries@[i as int].0@, entry@));
        out.push((entries.entries[i].0.clone(), copy));
        i += 1;
    }
    let r = TextMap { entries: out };
    assert(seen(r@, entry_view()) =~= marked(views));
    r
}

/// Keeps of the cache the files that were seen.
fn retain_seen(cache: TextMap<CachedSkill>, files: &Vec<String>) -> (r: TextMap<CachedSkill>)
    ensures
        seen(r@, cached_view()) == retained(seen(cache@, cached_view()), texts(files@)),
{
    let ghost views = seen(cache@, cached_view());
    let ghost keep = |e: (Seq<char>, CachedView)| texts(files@).contains(e.0);
    let mut left = cache.entries;
    let ghost all = left@;
    let mut r: TextMap<CachedSkill> = TextMap { entries: Vec::new() };
    assert(views.skip(all.len() as int).filter(keep) =~= seen(r@, cached_view())) by {
        reveal(Seq::filter);
    }
    while left.len() > 0
        invariant
            left@ == all.take(left.len() as int),
            left.len() <= all.len(),
            views.len() == all.len(),
            forall|j: int| 0 <= j < all.len() ==> #[trigger] views[j] == (all[j].0@, all[j].1@),
            keep == (|e: (Seq<char>, CachedView)| texts(files@).contains(e.0)),
            views.skip(left.len() as int).filter(keep) == seen(r@, cached_view()),
        decreases left.len(),
    {
        let ghost n = left.len() as int;
        let ghost before = r@;
        match left.pop() {
            Some(e) => {
                proof {
                    assert(e == all[n - 1]);
                    assert(views.skip(n - 1) =~= seq![views[n - 1]] + views.skip(n));
                    lemma_filter_front(views[n - 1], views.skip(n), keep);
                    assert(left@ =~= all.take(n - 1));
                }
                if list_has(files, &e.0) {
                    r.entries.insert(0, e);
                    assert(seen(r@, cached_view()) =~= seq![views[n - 1]] + seen(
                        before,
                        cached_view(),
                    ));
                }
            },
            None => {},
        }
    }
    assert(views.skip(0) =~= views);
    r
}

proof fn lemma_filter_front<A>(x: A, rest: Seq<A>, keep: spec_fn(A) -> bool)
    ensures
        (seq![x] + rest).filter(keep) == if keep(x) {
            seq![x] + rest.filter(keep)
        } else {
            rest.filter(keep)
        },
{
    Seq::filter_distributes_over_add(seq![x], rest, keep);
    assert(seq![x].filter(keep) =~= if keep(x) {
        seq![x]
    } else {
        Seq::empty()
    }) by {
        reveal(Seq::filter);
        assert(seq![x].drop_last() =~= Seq::empty());
        assert(Seq::<A>::empty().filter(keep) =~= Seq::empty());
    }
    assert(Seq::<A>::empty() + rest.filter(keep) =~= rest.filter(keep));
}

/// Finds the skills in the given roots.
pub fn scan_skill_roots(roots: &Vec<SkillRootTree>, cache: TextMap<CachedSkill>) -> (r: SkillScan)
    ensures
        r@ == scanned(roots@, seen(cache@, cached_view())),
{
    let ghost start = unscanned(seen(cache@, cached_view()));
    let mut scan = SkillScan::new(cache);
    let mut i: usize = 0;
    assert(roots@.take(0).len() == 0);
    while i < roots.len()
        invariant
            i <= roots.len(),
            scan@ == scan_roots(roots@.take(i as int), start),
            scan.dirs_seen <= MAX_SCANNED_DIRS + 1,
        decreases roots.len() - i,
    {
        assert(roots@.take(i + 1).drop_last() =~= roots@.take(i as int));
        scan.dirs_seen = 0;
        let none: Option<String> = None;
        scan_container(&mut scan, &roots[i].place, &roots[i].dir, &roots[i].nodes, &none, 0);
        i += 1;
    }
    assert(roots@.take(i as int) =~= roots@);
    let entries = mark_children(&scan.entries);
    let kept = retain_seen(scan.cache, &scan.seen_files);
    SkillScan {
        entries,
        diagnostics: scan.diagnostics,
        cache: kept,
        seen_files: scan.seen_files,
        dirs_seen: scan.dirs_seen,
    }
}

// ----------------------------------------------------------------------- laws

/// Entries in order of their keys, each under the canonical form of its id.
pub open spec fn well_keyed(entries: Seq<(Seq<char>, EntryView)>) -> bool {
    &&& keys_ordered(entries)
    &&& forall|i: int|
        0 <= i < entries.len() ==> (#[trigger] entries[i]).0 == canonical_id_text(
            entries[i].1.summary.id,
        )
}

proof fn lemma_add_keeps(st: ScanView, entry: EntryView, key: Seq<char>)
    requires
        well_keyed(st.entries),
    ensures
        well_keyed(add_entry(st, entry).entries),
        value_of(st.entries, key) is Some ==> value_of(add_entry(st, entry).entries, key)
            == value_of(st.entries, key),
{
    let k = canonical_id_text(entry.summary.id);
    if value_of(st.entries, k) is None {
        let r = with_value(st.entries, k, entry);
        setting_keeps_order(st.entries, k, entry);
        set_value_is_read_back(st.entries, k, entry, key);
        assert forall|i: int| 0 <= i < r.len() implies (#[trigger] r[i]).0 == canonical_id_text(
            r[i].1.summary.id,
        ) by {
            if r[i].0 == k {
                entries_are_read_back(r, i);
            }
        }
    }
}

proof fn lemma_node_keeps(
    place: PlaceView,
    node: SkillNode,
    parent: Option<Seq<char>>,
    depth: nat,
    st: ScanView,
    key: Seq<char>,
)
    requires
        well_keyed(st.entries),
    ensures
        well_keyed(scan_node(place, node, parent, depth, st).entries),
        value_of(st.entries, key) is Some ==> value_of(
            scan_node(place, node, parent, depth, st).entries,
            key,
        ) == value_of(st.entries, key),
    decreases node, 0int,
{
    if !node.is_symlink && depth <= MAX_SKILL_DEPTH {
        if let Some(file) = node.file {
            if let Ok(parsed) = file_skill(st.cache, node.dir_name@, file) {
                let id = skill_id(parent, parsed.name);
                let warned = ScanView {
                    seen_files: st.seen_files.push(file.path@),
                    cache: cache_after(st.cache, node.dir_name@, file),
                    diagnostics: st.diagnostics + warning_diagnostics(
                        id,
                        file.path@,
                        parsed.warnings,
                    ),
                    ..st
                };
                let entry = found_entry(place, node, file, parent, parsed);
                lemma_add_keeps(warned, entry, key);
                scanning_keeps_what_was_found(
                    place,
                    joined_path(node.dir_path@, "skills"@),
                    node.children@,
                    Some(id),
                    depth + 1,
                    add_entry(warned, entry),
                    key,
                );
            }
        }
    }
}

/// What was found first stays: looking at further directories changes no entry,
/// and the entries stay in order, each under its canonical id.
pub proof fn scanning_keeps_what_was_found(
    place: PlaceView,
    container: Seq<char>,
    nodes: Seq<SkillNode>,
    parent: Option<Seq<char>>,
    depth: nat,
    st: ScanView,
    key: Seq<char>,
)
    requires
        well_keyed(st.entries),
    ensures
        well_keyed(scan_nodes(place, container, nodes, parent, depth, st).entries),
        value_of(st.entries, key) is Some ==> value_of(
            scan_nodes(place, container, nodes, parent, depth, st).entries,
            key,
        ) == value_of(st.entries, key),
    decreases nodes, 1int,
{
    if nodes.len() > 0 {
        let counted = ScanView { dirs_seen: count_dir(st.dirs_seen), ..st };
        if counted.dirs_seen <= MAX_SCANNED_DIRS {
            lemma_node_keeps(place, nodes[0], parent, depth, counted, key);
            scanning_keeps_what_was_found(
                place,
                container,
                nodes.drop_first(),
                parent,
                depth,
                scan_node(place, nodes[0], parent, depth, counted),
                key,
            );
        }
    }
}

/// A skill of an earlier root shadows those of the same id in later roots.
pub proof fn earlier_roots_win(
    roots: Seq<SkillRootTree>,
    more: Seq<SkillRootTree>,
    st: ScanView,
    key: Seq<char>,
)
    requires
        well_keyed(st.entries),
    ensures
        well_keyed(scan_roots(roots + more, st).entries),
        value_of(scan_roots(roots, st).entries, key) is Some ==> value_of(
            scan_roots(roots + more, st).entries,
            key,
        ) == value_of(scan_roots(roots, st).entries, key),
    decreases roots.len() + more.len(),
{
    let all = roots + more;
    if more.len() > 0 {
        earlier_roots_win(roots, more.drop_last(), st, key);
        assert(all.drop_last() =~= roots + more.drop_last());
        let before = scan_roots(all.drop_last(), st);
        let root = all.last();
        scanning_keeps_what_was_found(
            root.place@,
            root.dir@,
            root.nodes@,
            None,
            0,
            ScanView { dirs_seen: 0, ..before },
            key,
        );
    } else {
        assert(all =~= roots);
        if roots.len() > 0 {
            earlier_roots_win(roots.drop_last(), Seq::empty(), st, key);
            assert(roots.drop_last() + Seq::empty() =~= roots.drop_last());
            let before = scan_roots(roots.drop_last(), st);
            let root = roots.last();
            scanning_keeps_what_was_found(
                root.place@,
                root.dir@,
                root.nodes@,
                None,
                0,
                ScanView { dirs_seen: 0, ..before },
                key,
            );
        }
    }
}

/// What a scan finds is listed in order, each skill under its canonical id, and
/// marked as having children exactly where another names it as its parent.
pub proof fn scans_are_well_keyed(
    roots: Seq<SkillRootTree>,
    cache: Seq<(Seq<char>, CachedView)>,
    i: int,
)
    requires
        0 <= i < scanned(roots, cache).entries.len(),
    ensures
        well_keyed(scanned(roots, cache).entries),
        scanned(roots, cache).entries[i].1.summary.has_children <==> has_child(
            scanned(roots, cache).entries,
            scanned(roots, cache).entries[i].1.summary.id,
        ),
{
    let st = scan_roots(roots, unscanned(cache));
    earlier_roots_win(roots, Seq::empty(), unscanned(cache), Seq::empty());
    assert(roots + Seq::empty() =~= roots);
    let r = marked(st.entries);
    assert forall|j: int| 0 <= j < r.len() implies (#[trigger] r[j]).0 == st.entries[j].0
        && r[j].1.summary.id == st.entries[j].1.summary.id && r[j].1.summary.parent_id
        == st.entries[j].1.summary.parent_id by {}
    let id = r[i].1.summary.id;
    if has_child(st.entries, id) {
        let j = choose|j: int|
            0 <= j < st.entries.len() && (#[trigger] st.entries[j]).1.summary.parent_id == Some(id);
        assert(r[j].1.summary.parent_id == Some(id));
    }
    if has_child(r, id) {
        let j = choose|j: int|
            0 <= j < r.len() && (#[trigger] r[j]).1.summary.parent_id == Some(id);
        assert(st.entries[j].1.summary.parent_id == Some(id));
    }
}

/// What a skill file is, as the file system has it.
pub struct FileFacts {
    pub dir_name: Seq<char>,
    pub modified: Option<u64>,
    pub size: u64,
    pub content: Result<Seq<char>, Seq<char>>,
}

pub open spec fn facts(node: SkillNode, file: SkillFileNode) -> FileFacts {
    FileFacts {
        dir_name: node.dir_name@,
        modified: file.modified,
        size: file.size,
        content: read_view(file.content),
    }
}

/// Whether every file of the directories is as `files` has it.
pub open spec fn shows(files: spec_fn(Seq<char>) -> FileFacts, nodes: Seq<SkillNode>) -> bool
    decreases nodes, 1int,
{
    nodes.len() > 0 ==> node_shows(files, nodes[0]) && shows(files, nodes.drop_first())
}

pub open spec fn node_shows(files: spec_fn(Seq<char>) -> FileFacts, node: SkillNode) -> bool
    decreases node, 0int,
{
    &&& node.file matches Some(f) ==> facts(node, f) == files(f.path@)
    &&& shows(files, node.children@)
}

/// Whether what is kept of an unchanged file is what its text says.
pub open spec fn kept_truly(facts: FileFacts, kept: Option<CachedView>) -> bool {
    match kept {
        Some(c) => c.modified == facts.modified && c.size == facts.size ==> facts.content is Ok
            && skill_of_markdown(facts.dir_name, facts.content->Ok_0) == Ok::<_, ErrorView>(
            c.parsed,
        ),
        None => true,
    }
}

/// Whether the cache keeps of each unchanged file what its text says.
pub open spec fn accurate(
    cache: Seq<(Seq<char>, CachedView)>,
    files: spec_fn(Seq<char>) -> FileFacts,
) -> bool {
    &&& keys_ordered(cache)
    &&& forall|p: Seq<char>| kept_truly(files(p), #[trigger] value_of(cache, p))
}

/// The same but for what the caches keep.
pub open spec fn alike(a: ScanView, b: ScanView) -> bool {
    ScanView { cache: b.cache, ..a } == b
}

proof fn lemma_file_skill(
    files: spec_fn(Seq<char>) -> FileFacts,
    a: Seq<(Seq<char>, CachedView)>,
    b: Seq<(Seq<char>, CachedView)>,
    node: SkillNode,
    file: SkillFileNode,
)
    requires
        facts(node, file) == files(file.path@),
        accurate(a, files),
        accurate(b, files),
    ensures
        file_skill(a, node.dir_name@, file) == file_skill(b, node.dir_name@, file),
        accurate(cache_after(a, node.dir_name@, file), files),
{
    assert(kept_truly(files(file.path@), value_of(a, file.path@)));
    assert(kept_truly(files(file.path@), value_of(b, file.path@)));
    if file.size <= MAX_SKILL_FILE_SIZE && fresh(a, file) is None {
        if let Ok(p) = file_skill(a, node.dir_name@, file) {
            let c = CachedView { modified: file.modified, size: file.size, parsed: p };
            let r = with_value(a, file.path@, c);
            setting_keeps_order(a, file.path@, c);
            assert forall|q: Seq<char>| kept_truly(files(q), #[trigger] value_of(r, q)) by {
                set_value_is_read_back(a, file.path@, c, q);
                assert(kept_truly(files(q), value_of(a, q)));
            }
        }
    }
}

proof fn lemma_nodes_alike(
    files: spec_fn(Seq<char>) -> FileFacts,
    place: PlaceView,
    container: Seq<char>,
    nodes: Seq<SkillNode>,
    parent: Option<Seq<char>>,
    depth: nat,
    a: ScanView,
    b: ScanView,
)
    requires
        shows(files, nodes),
        accurate(a.cache, files),
        accurate(b.cache, files),
        alike(a, b),
    ensures
        alike(
            scan_nodes(place, container, nodes, parent, depth, a),
            scan_nodes(place, container, nodes, parent, depth, b),
        ),
        accurate(scan_nodes(place, container, nodes, parent, depth, a).cache, files),
        accurate(scan_nodes(place, container, nodes, parent, depth, b).cache, files),
    decreases nodes, 1int,
{
    if nodes.len() > 0 {
        let ca = ScanView { dirs_seen: count_dir(a.dirs_seen), ..a };
        let cb = ScanView { dirs_seen: count_dir(b.dirs_seen), ..b };
        if ca.dirs_seen <= MAX_SCANNED_DIRS {
            lemma_node_alike(files, place, nodes[0], parent, depth, ca, cb);
            lemma_nodes_alike(
                files,
                place,
                container,
                nodes.drop_first(),
                parent,
                depth,
                scan_node(place, nodes[0], parent, depth, ca),
                scan_node(place, nodes[0], parent, depth, cb),
            );
        }
    }
}

proof fn lemma_node_alike(
    files: spec_fn(Seq<char>) -> FileFacts,
    place: PlaceView,
    node: SkillNode,
    parent: Option<Seq<char>>,
    depth: nat,
    a: ScanView,
    b: ScanView,
)
    requires
        node_shows(files, node),
        accurate(a.cache, files),
        accurate(b.cache, files),
        alike(a, b),
    ensures
        alike(
            scan_node(place, node, parent, depth, a),
            scan_node(place, node, parent, depth, b),
        ),
        accurate(scan_node(place, node, parent, depth, a).cache, files),
        accurate(scan_node(place, node, parent, depth, b).cache, files),
    decreases node, 0int,
{
    if !node.is_symlink && depth <= MAX_SKILL_DEPTH {
        if let Some(file) = node.file {
            lemma_file_skill(files, a.cache, b.cache, node, file);
            lemma_file_skill(files, b.cache, a.cache, node, file);
            if let Ok(parsed) = file_skill(a.cache, node.dir_name@, file) {
                let id = skill_id(parent, parsed.name);
                let entry = found_entry(place, node, file, parent, parsed);
                let wa = warned_scan(a, node, file, id, parsed);
                let wb = warned_scan(b, node, file, id, parsed);
                lemma_nodes_alike(
                    files,
                    place,
                    joined_path(node.dir_path@, "skills"@),
                    node.children@,
                    Some(id),
                    depth + 1,
                    add_entry(wa, entry),
                    add_entry(wb, entry),
                );
            }
        }
    }
}

spec fn warned_scan(
    st: ScanView,
    node: SkillNode,
    file: SkillFileNode,
    id: Seq<char>,
    parsed: ParsedSkillView,
) -> ScanView {
    ScanView {
        seen_files: st.seen_files.push(file.path@),
        cache: cache_after(st.cache, node.dir_name@, file),
        diagnostics: st.diagnostics + warning_diagnostics(id, file.path@, parsed.warnings),
        ..st
    }
}

// ----------------------------------------------------------------------- tree

/// Whether each entry passes a test, and stands below one that is listed where
/// it has a parent.
spec fn rooted(entries: Seq<(Seq<char>, EntryView)>, test: spec_fn(EntryView) -> bool) -> bool {
    forall|key: Seq<char>|
        (#[trigger] value_of(entries, key)) matches Some(e) ==> test(e) && parent_listed(
            entries,
            e.summary.parent_id,
        )
}

/// Whether an entry is listed under the canonical form of the parent's id.
pub open spec fn parent_listed(
    entries: Seq<(Seq<char>, EntryView)>,
    parent: Option<Seq<char>>,
) -> bool {
    parent matches Some(p) ==> value_of(entries, canonical_id_text(p)) is Some
}

/// Whether all that is found in a place passes a test.
spec fn finds(place: PlaceView, test: spec_fn(EntryView) -> bool) -> bool {
    forall|
        node: SkillNode,
        file: SkillFileNode,
        parent: Option<Seq<char>>,
        parsed: ParsedSkillView,
    |
        test(#[trigger] found_entry(place, node, file, parent, parsed))
}

proof fn lemma_add_rooted(st: ScanView, entry: EntryView, test: spec_fn(EntryView) -> bool)
    requires
        well_keyed(st.entries),
        rooted(st.entries, test),
        test(entry),
        parent_listed(st.entries, entry.summary.parent_id),
    ensures
        rooted(add_entry(st, entry).entries, test),
        parent_listed(add_entry(st, entry).entries, Some(entry.summary.id)),
{
    let k = canonical_id_text(entry.summary.id);
    if value_of(st.entries, k) is None {
        let r = with_value(st.entries, k, entry);
        assert forall|key: Seq<char>|
            (#[trigger] value_of(r, key)) matches Some(e) ==> test(e) && parent_listed(
                r,
                e.summary.parent_id,
            ) by {
            set_value_is_read_back(st.entries, k, entry, key);
            if let Some(e) = value_of(r, key) {
                if let Some(p) = e.summary.parent_id {
                    set_value_is_read_back(st.entries, k, entry, canonical_id_text(p));
                }
            }
        }
        set_value_is_read_back(st.entries, k, entry, k);
    }
}

proof fn lemma_node_rooted(
    place: PlaceView,
    node: SkillNode,
    parent: Option<Seq<char>>,
    depth: nat,
    st: ScanView,
    test: spec_fn(EntryView) -> bool,
)
    requires
        well_keyed(st.entries),
        rooted(st.entries, test),
        finds(place, test),
        parent_listed(st.entries, parent),
    ensures
        rooted(scan_node(place, node, parent, depth, st).entries, test),
    decreases node, 0int,
{
    if !node.is_symlink && depth <= MAX_SKILL_DEPTH {
        if let Some(file) = node.file {
            if let Ok(parsed) = file_skill(st.cache, node.dir_name@, file) {
                let id = skill_id(parent, parsed.name);
                let warned = warned_scan(st, node, file, id, parsed);
                let entry = found_entry(place, node, file, parent, parsed);
                lemma_add_keeps(warned, entry, id);
                lemma_add_rooted(warned, entry, test);
                lemma_nodes_rooted(
                    place,
                    joined_path(node.dir_path@, "skills"@),
                    node.children@,
                    Some(id),
                    depth + 1,
                    add_entry(warned, entry),
                    test,
                );
            }
        }
    }
}

proof fn lemma_nodes_rooted(
    place: PlaceView,
    container: Seq<char>,
    nodes: Seq<SkillNode>,
    parent: Option<Seq<char>>,
    depth: nat,
    st: ScanView,
    test: spec_fn(EntryView) -> bool,
)
    requires
        well_keyed(st.entries),
        rooted(st.entries, test),
        finds(place, test),
        parent_listed(st.entries, parent),
    ensures
        rooted(scan_nodes(place, container, nodes, parent, depth, st).entries, test),
    decreases nodes, 1int,
{
    if nodes.len() > 0 {
        let counted = ScanView { dirs_seen: count_dir(st.dirs_seen), ..st };
        if counted.dirs_seen <= MAX_SCANNED_DIRS {
            let next = scan_node(place, nodes[0], parent, depth, counted);
            lemma_node_rooted(place, nodes[0], parent, depth, counted, test);
            let key = match parent {
                Some(p) => canonical_id_text(p),
                None => Seq::empty(),
            };
            lemma_node_keeps(place, nodes[0], parent, depth, counted, key);
            lemma_nodes_rooted(place, container, nodes.drop_first(), parent, depth, next, test);
        }
    }
}

proof fn lemma_roots_rooted(
    roots: Seq<SkillRootTree>,
    cache: Seq<(Seq<char>, CachedView)>,
    test: spec_fn(EntryView) -> bool,
)
    requires
        forall|i: int| 0 <= i < roots.len() ==> finds((#[trigger] roots[i]).place@, test),
    ensures
        well_keyed(scan_roots(roots, unscanned(cache)).entries),
        rooted(scan_roots(roots, unscanned(cache)).entries, test),
    decreases roots.len(),
{
    earlier_roots_win(roots, Seq::empty(), unscanned(cache), Seq::empty());
    assert(roots + Seq::empty() =~= roots);
    if roots.len() > 0 {
        let root = roots.last();
        assert(finds(roots[roots.len() - 1].place@, test));
        assert forall|i: int| 0 <= i < roots.drop_last().len() implies finds(
            (#[trigger] roots.drop_last()[i]).place@,
            test,
        ) by {
            assert(finds(roots[i].place@, test));
        }
        lemma_roots_rooted(roots.drop_last(), cache, test);
        let before = scan_roots(roots.drop_last(), unscanned(cache));
        lemma_nodes_rooted(
            root.place@,
            root.dir@,
            root.nodes@,
            None,
            0,
            ScanView { dirs_seen: 0, ..before },
            test,
        );
    }
}

proof fn lemma_marked_value(entries: Seq<(Seq<char>, EntryView)>, key: Seq<char>)
    requires
        keys_ordered(entries),
    ensures
        value_of(entries, key) is Some ==> value_of(marked(entries), key) is Some,
{
    lemma_marked_from(entries, entries, key);
    assert(marked(entries) =~= entries.map_values(
        |e: (Seq<char>, EntryView)| marked_entry(entries, e),
    ));
}

proof fn lemma_marked_from(
    all: Seq<(Seq<char>, EntryView)>,
    entries: Seq<(Seq<char>, EntryView)>,
    key: Seq<char>,
)
    ensures
        value_of(entries, key) is Some <==> value_of(
            entries.map_values(|e: (Seq<char>, EntryView)| marked_entry(all, e)),
            key,
        ) is Some,
    decreases entries.len(),
{
    let f = |e: (Seq<char>, EntryView)| marked_entry(all, e);
    if entries.len() > 0 {
        lemma_marked_from(all, entries.drop_first(), key);
        assert(entries.map_values(f).drop_first() =~= entries.drop_first().map_values(f));
    }
}

/// Skills form a tree: the id of each is its name behind the id of its parent,
/// the parent is listed, and a skill is marked as one with children exactly
/// where a child of it is listed.
pub proof fn skills_form_a_tree(roots: Seq<SkillRootTree>, cache: Seq<(Seq<char>, CachedView)>)
    ensures
        ({
            let all = scanned(roots, cache).entries;
            forall|i: int|
                0 <= i < all.len() ==> {
                    let skill = (#[trigger] all[i]).1.summary;
                    &&& skill.id == skill_id(skill.parent_id, skill.name)
                    &&& parent_listed(all, skill.parent_id)
                    &&& skill.has_children == has_child(all, skill.id)
                }
        }),
{
    let test = |e: EntryView| e.summary.id == skill_id(e.summary.parent_id, e.summary.name);
    lemma_roots_rooted(roots, cache, test);
    let entries = scan_roots(roots, unscanned(cache)).entries;
    let all = scanned(roots, cache).entries;
    assert(all == marked(entries));
    assert forall|i: int| 0 <= i < all.len() implies ({
        let skill = (#[trigger] all[i]).1.summary;
        &&& skill.id == skill_id(skill.parent_id, skill.name)
        &&& parent_listed(all, skill.parent_id)
        &&& skill.has_children == has_child(all, skill.id)
    }) by {
        let skill = all[i].1.summary;
        assert(all[i] == marked_entry(entries, entries[i]));
        entries_are_read_back(entries, i);
        assert(test(entries[i].1));
        if let Some(p) = skill.parent_id {
            lemma_marked_value(entries, canonical_id_text(p));
        }
        if has_child(entries, skill.id) {
            let j = choose|j: int|
                0 <= j < entries.len() && (#[trigger] entries[j]).1.summary.parent_id == Some(
                    skill.id,
                );
            assert(all[j] == marked_entry(entries, entries[j]));
            assert(all[j].1.summary.parent_id == Some(skill.id));
        }
        if has_child(all, skill.id) {
            let j = choose|j: int|
                0 <= j < all.len() && (#[trigger] all[j]).1.summary.parent_id == Some(skill.id);
            assert(all[j] == marked_entry(entries, entries[j]));
            assert(entries[j].1.summary.parent_id == Some(skill.id));
        }
    }
}

/// Whether a skill is one of the given place: it names the place's source, and
/// shows paths in the workspace only where the place belongs to one.
pub open spec fn is_of_place(skill: SummaryView, place: PlaceView) -> bool {
    &&& skill.source == place.source
    &&& !place.in_workspace ==> skill.skill_file_path is None && skill.resource_root_path is None
}

/// Every skill is one of the places that were looked at.
pub proof fn skills_tell_their_place(roots: Seq<SkillRootTree>, cache: Seq<(Seq<char>, CachedView)>)
    ensures
        ({
            let all = scanned(roots, cache).entries;
            forall|i: int|
                0 <= i < all.len() ==> exists|r: int|
                    0 <= r < roots.len() && is_of_place(
                        (#[trigger] all[i]).1.summary,
                        (#[trigger] roots[r]).place@,
                    )
        }),
{
    let test = |e: EntryView|
        exists|r: int| 0 <= r < roots.len() && is_of_place(e.summary, (#[trigger] roots[r]).place@);
    assert forall|i: int| 0 <= i < roots.len() implies finds((#[trigger] roots[i]).place@, test) by {
        assert forall|
            node: SkillNode,
            file: SkillFileNode,
            parent: Option<Seq<char>>,
            parsed: ParsedSkillView,
        |
            test(#[trigger] found_entry(roots[i].place@, node, file, parent, parsed)) by {
            let e = found_entry(roots[i].place@, node, file, parent, parsed);
            assert(is_of_place(e.summary, roots[i].place@));
        }
    }
    lemma_roots_rooted(roots, cache, test);
    let entries = scan_roots(roots, unscanned(cache)).entries;
    let all = scanned(roots, cache).entries;
    assert(all == marked(entries));
    assert forall|i: int| 0 <= i < all.len() implies exists|r: int|
        0 <= r < roots.len() && is_of_place(
            (#[trigger] all[i]).1.summary,
            (#[trigger] roots[r]).place@,
        ) by {
        assert(all[i] == marked_entry(entries, entries[i]));
        entries_are_read_back(entries, i);
        assert(test(entries[i].1));
        let r = choose|r: int|
            0 <= r < roots.len() && is_of_place(
                entries[i].1.summary,
                (#[trigger] roots[r]).place@,
            );
        assert(is_of_place(all[i].1.summary, roots[r].place@));
    }
}

/// Whether every file of the roots is as `files` has it.
pub open spec fn roots_show(
    files: spec_fn(Seq<char>) -> FileFacts,
    roots: Seq<SkillRootTree>,
) -> bool {
    forall|i: int| 0 <= i < roots.len() ==> shows(files, (#[trigger] roots[i]).nodes@)
}

/// What is kept of files read before changes nothing of what is found, as long
/// as it is what the files say; and what is kept afterwards is again that.
pub proof fn the_cache_changes_nothing(
    files: spec_fn(Seq<char>) -> FileFacts,
    roots: Seq<SkillRootTree>,
    a: ScanView,
    b: ScanView,
)
    requires
        roots_show(files, roots),
        accurate(a.cache, files),
        accurate(b.cache, files),
        alike(a, b),
    ensures
        alike(scan_roots(roots, a), scan_roots(roots, b)),
        accurate(scan_roots(roots, a).cache, files),
        accurate(scan_roots(roots, b).cache, files),
    decreases roots.len(),
{
    if roots.len() > 0 {
        the_cache_changes_nothing(files, roots.drop_last(), a, b);
        let root = roots.last();
        assert(shows(files, roots[roots.len() - 1].nodes@));
        lemma_nodes_alike(
            files,
            root.place@,
            root.dir@,
            root.nodes@,
            None,
            0,
            ScanView { dirs_seen: 0, ..scan_roots(roots.drop_last(), a) },
            ScanView { dirs_seen: 0, ..scan_roots(roots.drop_last(), b) },
        );
    }
}

// -------------------------------------------------------------- what is found

/// Whether a directory holds a skill that can be read, and what it says.
pub open spec fn holds_skill(node: SkillNode, depth: nat, parsed: ParsedSkillView) -> bool {
    &&& !node.is_symlink
    &&& depth <= MAX_SKILL_DEPTH
    &&& node.file is Some
    &&& node.file->0.size <= MAX_SKILL_FILE_SIZE
    &&& node.file->0.content is Ok
    &&& skill_of_markdown(node.dir_name@, node.file->0.content->Ok_0@) == Ok::<_, ErrorView>(parsed)
}

proof fn lemma_node_counts(
    place: PlaceView,
    node: SkillNode,
    parent: Option<Seq<char>>,
    depth: nat,
    st: ScanView,
)
    ensures
        scan_node(place, node, parent, depth, st).dirs_seen >= st.dirs_seen,
    decreases node, 0int,
{
    if !node.is_symlink && depth <= MAX_SKILL_DEPTH {
        if let Some(file) = node.file {
            if let Ok(parsed) = file_skill(st.cache, node.dir_name@, file) {
                let id = skill_id(parent, parsed.name);
                lemma_nodes_count(
                    place,
                    joined_path(node.dir_path@, "skills"@),
                    node.children@,
                    Some(id),
                    depth + 1,
                    add_entry(
                        warned_scan(st, node, file, id, parsed),
                        found_entry(place, node, file, parent, parsed),
                    ),
                );
            }
        }
    }
}

proof fn lemma_nodes_count(
    place: PlaceView,
    container: Seq<char>,
    nodes: Seq<SkillNode>,
    parent: Option<Seq<char>>,
    depth: nat,
    st: ScanView,
)
    ensures
        scan_nodes(place, container, nodes, parent, depth, st).dirs_seen >= st.dirs_seen,
    decreases nodes, 1int,
{
    if nodes.len() > 0 {
        let counted = ScanView { dirs_seen: count_dir(st.dirs_seen), ..st };
        if counted.dirs_seen <= MAX_SCANNED_DIRS {
            lemma_node_counts(place, nodes[0], parent, depth, counted);
            lemma_nodes_count(
                place,
                container,
                nodes.drop_first(),
                parent,
                depth,
                scan_node(place, nodes[0], parent, depth, counted),
            );
        }
    }
}

proof fn lemma_node_finds(
    files: spec_fn(Seq<char>) -> FileFacts,
    place: PlaceView,
    node: SkillNode,
    parent: Option<Seq<char>>,
    depth: nat,
    st: ScanView,
    parsed: ParsedSkillView,
)
    requires
        well_keyed(st.entries),
        node_shows(files, node),
        accurate(st.cache, files),
        holds_skill(node, depth, parsed),
    ensures
        ({
            let key = canonical_id_text(skill_id(parent, parsed.name));
            let after = scan_node(place, node, parent, depth, st);
            &&& value_of(after.entries, key) is Some
            &&& value_of(st.entries, key) is None ==> value_of(after.entries, key)->0
                == found_entry(place, node, node.file->0, parent, parsed)
        }),
{
    let file = node.file->0;
    let key = canonical_id_text(skill_id(parent, parsed.name));
    assert(kept_truly(files(file.path@), value_of(st.cache, file.path@)));
    assert(facts(node, file) == files(file.path@));
    assert(file_skill(st.cache, node.dir_name@, file) == Ok::<_, ErrorView>(parsed));
    let id = skill_id(parent, parsed.name);
    let entry = found_entry(place, node, file, parent, parsed);
    let warned = warned_scan(st, node, file, id, parsed);
    let added = add_entry(warned, entry);
    lemma_add_keeps(warned, entry, key);
    if value_of(warned.entries, key) is None {
        set_value_is_read_back(warned.entries, key, entry, key);
    }
    scanning_keeps_what_was_found(
        place,
        joined_path(node.dir_path@, "skills"@),
        node.children@,
        Some(id),
        depth + 1,
        added,
        key,
    );
}

/// Every directory of a place that holds a skill which can be read is found: under
/// the id that its name and its place among the skills give it there is an entry;
/// and where no earlier one had that id, it is the entry of that directory. This
/// holds as long as the place stays within the limit of directories.
pub proof fn every_readable_skill_is_found(
    files: spec_fn(Seq<char>) -> FileFacts,
    place: PlaceView,
    container: Seq<char>,
    nodes: Seq<SkillNode>,
    parent: Option<Seq<char>>,
    depth: nat,
    st: ScanView,
    i: int,
    parsed: ParsedSkillView,
)
    requires
        well_keyed(st.entries),
        shows(files, nodes),
        accurate(st.cache, files),
        0 <= i < nodes.len(),
        holds_skill(nodes[i], depth, parsed),
        scan_nodes(place, container, nodes, parent, depth, st).dirs_seen <= MAX_SCANNED_DIRS,
    ensures
        ({
            let key = canonical_id_text(skill_id(parent, parsed.name));
            let after = scan_nodes(place, container, nodes, parent, depth, st);
            &&& value_of(after.entries, key) is Some
            &&& i == 0 && value_of(st.entries, key) is None ==> {
                let e = value_of(after.entries, key)->0;
                &&& e.summary.name == parsed.name
                &&& e.summary.description == parsed.description
                &&& e.summary.parent_id == parent
                &&& e.summary.source == place.source
                &&& e.summary.pin == parsed.pin
                &&& e.path == nodes[0].file->0.path@
                &&& e.root == nodes[0].dir_path@
                &&& e.content == read_view(nodes[0].file->0.content)
            }
        }),
    decreases nodes.len(),
{
    let key = canonical_id_text(skill_id(parent, parsed.name));
    let counted = ScanView { dirs_seen: count_dir(st.dirs_seen), ..st };
    let next = scan_node(place, nodes[0], parent, depth, counted);
    let rest = nodes.drop_first();
    lemma_node_keeps(place, nodes[0], parent, depth, counted, key);
    lemma_node_alike(files, place, nodes[0], parent, depth, counted, counted);
    if i == 0 {
        lemma_node_finds(files, place, nodes[0], parent, depth, counted, parsed);
        scanning_keeps_what_was_found(place, container, rest, parent, depth, next, key);
    } else {
        assert(rest[i - 1] == nodes[i]);
        every_readable_skill_is_found(
            files,
            place,
            container,
            rest,
            parent,
            depth,
            next,
            i - 1,
            parsed,
        );
    }
}

/// The skills below a skill are found with it, as its children.
pub proof fn every_readable_child_is_found(
    files: spec_fn(Seq<char>) -> FileFacts,
    place: PlaceView,
    node: SkillNode,
    parent: Option<Seq<char>>,
    depth: nat,
    st: ScanView,
    parsed: ParsedSkillView,
    j: int,
    child: ParsedSkillView,
)
    requires
        well_keyed(st.entries),
        node_shows(files, node),
        accurate(st.cache, files),
        holds_skill(node, depth, parsed),
        0 <= j < node.children@.len(),
        holds_skill(node.children@[j], depth + 1, child),
        scan_node(place, node, parent, depth, st).dirs_seen <= MAX_SCANNED_DIRS,
    ensures
        value_of(
            scan_node(place, node, parent, depth, st).entries,
            canonical_id_text(skill_id(Some(skill_id(parent, parsed.name)), child.name)),
        ) is Some,
{
    let file = node.file->0;
    assert(kept_truly(files(file.path@), value_of(st.cache, file.path@)));
    assert(facts(node, file) == files(file.path@));
    let id = skill_id(parent, parsed.name);
    let entry = found_entry(place, node, file, parent, parsed);
    let warned = warned_scan(st, node, file, id, parsed);
    lemma_add_keeps(warned, entry, id);
    lemma_file_skill(files, st.cache, st.cache, node, file);
    every_readable_skill_is_found(
        files,
        place,
        joined_path(node.dir_path@, "skills"@),
        node.children@,
        Some(id),
        depth + 1,
        add_entry(warned, entry),
        j,
        child,
    );
}

/// A skill file that cannot be read as a skill, or that lies too deep, is told of
/// as an error with its path, and adds no skill.
pub proof fn unreadable_skills_are_told_of(
    place: PlaceView,
    node: SkillNode,
    parent: Option<Seq<char>>,
    depth: nat,
    st: ScanView,
)
    requires
        !node.is_symlink,
        node.file is Some,
        depth > MAX_SKILL_DEPTH || node.file->0.size > MAX_SKILL_FILE_SIZE || file_skill(
            st.cache,
            node.dir_name@,
            node.file->0,
        ) is Err,
    ensures
        ({
            let after = scan_node(place, node, parent, depth, st);
            &&& after.entries == st.entries
            &&& after.diagnostics.len() == st.diagnostics.len() + 1
            &&& after.diagnostics.last().path == node.file->0.path@
            &&& after.diagnostics.last().severity == SkillLoadDiagnosticSeverity::Error
        }),
{
}

/// Of two skills with one id the later is told of as shadowed, and does not take
/// the place of the first.
pub proof fn shadowed_skills_are_told_of(st: ScanView, entry: EntryView)
    requires
        value_of(st.entries, canonical_id_text(entry.summary.id)) is Some,
    ensures
        add_entry(st, entry).entries == st.entries,
        add_entry(st, entry).diagnostics.len() == st.diagnostics.len() + 1,
        add_entry(st, entry).diagnostics.last().path == entry.path,
        add_entry(st, entry).diagnostics.last().skill == Some(entry.summary.id),
        add_entry(st, entry).diagnostics.last().severity == SkillLoadDiagnosticSeverity::Warning,
{
}

/// A file that did not change is not read again; one that did, or was never read, is.
pub proof fn only_changed_files_are_read_again(
    cache: Seq<(Seq<char>, CachedView)>,
    file: SkillFileNode,
)
    ensures
        match value_of(cache, file.path@) {
            Some(c) => fresh(cache, file) == (if c.modified == file.modified && c.size
                == file.size {
                Some(c.parsed)
            } else {
                None
            }),
            None => fresh(cache, file) is None,
        },
        fresh(Seq::empty(), file) is None,
{
}

/// Directories are counted one by one, to one more than may be looked into.
pub proof fn directories_are_counted(n: int)
    requires
        0 <= n <= MAX_SCANNED_DIRS + 1,
    ensures
        n <= MAX_SCANNED_DIRS ==> count_dir(n) == n + 1,
        count_dir(n) <= MAX_SCANNED_DIRS + 1,
        count_dir(n) >= n,
{
}

} // verus!
