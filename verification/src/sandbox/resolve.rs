//! Which file a path in a sandbox stands for.
//!
//! Finding out takes several questions to the file system. The machine here
//! says which one comes next and what follows from the answer.
use vstd::prelude::*;
use vstd::string::*;

use crate::message::option_text;
use crate::order::{lemma_filter_last, lemma_filter_none};
use crate::paths::{
    absolute, is_absolute, is_under, join_path, joined_path, joined_paths_stay_under, kept_parts,
    lies_under, parent, parent_text, parts_of, parts_under, path_parts, plain_part,
    plain_parts_stay_under, strip_root,
};
use crate::sandbox::config::{plain_error, SandboxError, SandboxErrorView};
use crate::text::{join, joined, list_has, pieces, str_eq, texts};

verus! {

broadcast use vstd::string::group_string_axioms;

// -------------------------------------------------------------------- cleaning

/// The parts that name something.
pub open spec fn named_parts(parts: Seq<Seq<char>>) -> Seq<Seq<char>>
    decreases parts.len(),
{
    if parts.len() == 0 {
        parts
    } else {
        let head = named_parts(parts.drop_last());
        if parts.last() == "."@ {
            head
        } else {
            head.push(parts.last())
        }
    }
}

/// The path that the given parts make inside of a sandbox: none leads up.
pub open spec fn clean_parts(parts: Seq<Seq<char>>) -> Result<Seq<char>, Seq<char>> {
    if parts.contains(".."@) {
        Err("path may not contain '..'"@)
    } else if named_parts(parts).len() == 0 {
        Ok("."@)
    } else {
        Ok(joined(named_parts(parts), "/"@))
    }
}

pub open spec fn plainly(r: Result<Seq<char>, Seq<char>>) -> Result<Seq<char>, SandboxErrorView> {
    match r {
        Ok(p) => Ok(p),
        Err(e) => Err(plain_error(e)),
    }
}

/// A path of a sandbox as seen from the root of its workspace. Nothing can be
/// taken off a path for an empty label, and what is left of it is not relative.
pub open spec fn cleaned(path: Seq<char>, label: Seq<char>) -> Result<
    Seq<char>,
    SandboxErrorView,
> {
    if !absolute(path) {
        plainly(clean_parts(path_parts(path)))
    } else if label.len() == 0 {
        Err(plain_error("path must be relative to the sandbox root"@))
    } else {
        match parts_under(label, path) {
            Some(rest) => plainly(clean_parts(rest)),
            None => Err(
                SandboxErrorView {
                    message: "absolute sandbox path must start with "@ + label,
                    cause: Some("prefix not found"@),
                },
            ),
        }
    }
}

pub open spec fn text_result(r: Result<String, String>) -> Result<Seq<char>, Seq<char>> {
    match r {
        Ok(t) => Ok(t@),
        Err(e) => Err(e@),
    }
}

/// The path that the given parts make inside of a sandbox.
pub fn clean_relative_components(parts: &Vec<String>) -> (r: Result<String, String>)
    ensures
        text_result(r) == clean_parts(texts(parts@)),
{
    if list_has(parts, "..") {
        return Err("path may not contain '..'".to_owned());
    }
    let ghost all = texts(parts@);
    let mut named: Vec<String> = Vec::new();
    let mut i: usize = 0;
    assert(all.take(0) =~= Seq::empty());
    assert(texts(named@) =~= Seq::<Seq<char>>::empty());
    while i < parts.len()
        invariant
            i <= parts.len(),
            all == texts(parts@),
            texts(named@) == named_parts(all.take(i as int)),
        decreases parts.len() - i,
    {
        let ghost before = texts(named@);
        assert(all.take(i + 1).drop_last() =~= all.take(i as int));
        assert(all.take(i + 1).last() == parts@[i as int]@);
        if !str_eq(&parts[i], ".") {
            named.push(parts[i].clone());
            assert(texts(named@) =~= before.push(parts@[i as int]@));
        }
        i += 1;
    }
    assert(all.take(i as int) =~= all);
    if named.len() == 0 {
        Ok(".".to_owned())
    } else {
        Ok(join(&named, "/"))
    }
}

fn clean_plainly(parts: &Vec<String>) -> (r: Result<String, SandboxError>)
    ensures
        match r {
            Ok(p) => plainly(clean_parts(texts(parts@))) == Ok::<_, SandboxErrorView>(p@),
            Err(e) => plainly(clean_parts(texts(parts@))) == Err::<Seq<char>, _>(e@),
        },
{
    match clean_relative_components(parts) {
        Ok(p) => Ok(p),
        Err(e) => Err(SandboxError::plain(&e)),
    }
}

/// A path of a sandbox as seen from the root of its workspace.
pub fn clean_workspace_path(path: &str, workspace_root_label: &str) -> (r: Result<
    String,
    SandboxError,
>)
    ensures
        match r {
            Ok(p) => cleaned(path@, workspace_root_label@) == Ok::<_, SandboxErrorView>(p@),
            Err(e) => cleaned(path@, workspace_root_label@) == Err::<Seq<char>, _>(e@),
        },
{
    if !is_absolute(path) {
        return clean_plainly(&parts_of(path));
    }
    if workspace_root_label.is_empty() {
        return Err(SandboxError::plain("path must be relative to the sandbox root"));
    }
    match strip_root(workspace_root_label, path) {
        Some(rest) => clean_plainly(&rest),
        None => {
            let mut m = "absolute sandbox path must start with ".to_owned();
            m.push_str(workspace_root_label);
            Err(SandboxError::caused(&m, "prefix not found".to_owned()))
        },
    }
}

// --------------------------------------------------------------------- machine

/// What a path is wanted for.
#[derive(Debug, Clone, Copy, PartialEq, Eq, Structural)]
pub enum PathNeed {
    /// Something that is there.
    Existing,
    /// A file to be written.
    File,
    /// A directory to be made, with those above it or not.
    Dir { recursive: bool },
}

/// A path that is to be found: behind the root of this machine where there is
/// no label, else in the workspace that goes by the label.
#[derive(Debug, Clone, PartialEq, Eq)]
pub struct PathRequest {
    pub root: String,
    pub label: Option<String>,
    pub path: String,
    pub need: PathNeed,
}

pub struct RequestView {
    pub root: Seq<char>,
    pub label: Option<Seq<char>>,
    pub path: Seq<char>,
    pub need: PathNeed,
}

impl View for PathRequest {
    type V = RequestView;

    open spec fn view(&self) -> RequestView {
        RequestView {
            root: self.root@,
            label: option_text(self.label),
            path: self.path@,
            need: self.need,
        }
    }
}

/// How far the search is.
#[derive(Debug, Clone, PartialEq, Eq)]
#[allow(inconsistent_fields)]
pub enum PathState {
    /// The root is being made.
    Creating,
    /// The links in the root are being followed.
    Rooting,
    /// It is being looked up whether anything is at the path.
    Probing { root: String, full: String },
    /// The links in the path are being followed.
    Settling { root: String },
    /// A directory above the path that is there is being looked for.
    Climbing { root: String, full: String, current: String },
    /// The links in a directory above the path are being followed.
    Anchoring { root: String, full: String },
    Over,
}

pub enum StateView {
    Creating,
    Rooting,
    Probing { root: Seq<char>, full: Seq<char> },
    Settling { root: Seq<char> },
    Climbing { root: Seq<char>, full: Seq<char>, current: Seq<char> },
    Anchoring { root: Seq<char>, full: Seq<char> },
    Over,
}

impl View for PathState {
    type V = StateView;

    open spec fn view(&self) -> StateView {
        match self {
            PathState::Creating => StateView::Creating,
            PathState::Rooting => StateView::Rooting,
            PathState::Probing { root, full } => StateView::Probing { root: root@, full: full@ },
            PathState::Settling { root } => StateView::Settling { root: root@ },
            PathState::Climbing { root, full, current } => StateView::Climbing {
                root: root@,
                full: full@,
                current: current@,
            },
            PathState::Anchoring { root, full } => StateView::Anchoring {
                root: root@,
                full: full@,
            },
            PathState::Over => StateView::Over,
        }
    }
}

/// What the file system answered.
#[derive(Debug)]
pub enum PathEvent {
    /// A directory was made, or was there.
    Created(Result<(), String>),
    /// Where a path leads when its links are followed.
    Canonical(Result<String, String>),
    /// Whether there is something at a path.
    Found(bool),
}

pub enum EventView {
    Created(Result<(), Seq<char>>),
    Canonical(Result<Seq<char>, Seq<char>>),
    Found(bool),
}

impl View for PathEvent {
    type V = EventView;

    open spec fn view(&self) -> EventView {
        match self {
            PathEvent::Created(r) => EventView::Created(
                match r {
                    Ok(_) => Ok(()),
                    Err(e) => Err(e@),
                },
            ),
            PathEvent::Canonical(r) => EventView::Canonical(text_result(*r)),
            PathEvent::Found(b) => EventView::Found(*b),
        }
    }
}

/// What is to be asked of the file system, or what came out.
#[derive(Debug, Clone, PartialEq, Eq)]
pub enum PathStep {
    /// Make this directory and those above it.
    CreateDir(String),
    /// Follow the links of this path.
    Canonicalize(String),
    /// See whether there is anything at this path, a broken link too.
    Probe(String),
    /// See whether this path leads to something.
    Exists(String),
    Done(String),
    Failed(SandboxError),
}

pub enum StepView {
    CreateDir(Seq<char>),
    Canonicalize(Seq<char>),
    Probe(Seq<char>),
    Exists(Seq<char>),
    Done(Seq<char>),
    Failed(SandboxErrorView),
}

impl View for PathStep {
    type V = StepView;

    open spec fn view(&self) -> StepView {
        match self {
            PathStep::CreateDir(p) => StepView::CreateDir(p@),
            PathStep::Canonicalize(p) => StepView::Canonicalize(p@),
            PathStep::Probe(p) => StepView::Probe(p@),
            PathStep::Exists(p) => StepView::Exists(p@),
            PathStep::Done(p) => StepView::Done(p@),
            PathStep::Failed(e) => StepView::Failed(e@),
        }
    }
}

/// Whether an answer is one to what was asked.
pub open spec fn answers(state: StateView, event: EventView) -> bool {
    match state {
        StateView::Creating => event is Created,
        StateView::Rooting | StateView::Settling { .. } | StateView::Anchoring { .. } => event
            is Canonical,
        StateView::Probing { .. } | StateView::Climbing { .. } => event is Found,
        StateView::Over => false,
    }
}

pub open spec fn failed(message: Seq<char>, cause: Option<Seq<char>>) -> (StateView, StepView) {
    (StateView::Over, StepView::Failed(SandboxErrorView { message, cause }))
}

/// The first step into a workspace whose root is known.
pub open spec fn entered(request: RequestView, root: Seq<char>, label: Seq<char>) -> (
    StateView,
    StepView,
) {
    match cleaned(request.path, label) {
        Err(e) => (StateView::Over, StepView::Failed(e)),
        Ok(relative) => {
            let full = joined_path(root, relative);
            match request.need {
                PathNeed::Existing => (StateView::Settling { root }, StepView::Canonicalize(full)),
                PathNeed::File => if relative == "."@ {
                    failed("path must refer to a file"@, None)
                } else {
                    (StateView::Probing { root, full }, StepView::Probe(full))
                },
                PathNeed::Dir { .. } => (StateView::Probing { root, full }, StepView::Probe(full)),
            }
        },
    }
}

/// The step from a path at which there is nothing.
pub open spec fn above(need: PathNeed, root: Seq<char>, full: Seq<char>) -> (StateView, StepView) {
    match need {
        PathNeed::Dir { recursive: true } => (
            StateView::Climbing { root, full, current: full },
            StepView::Exists(full),
        ),
        _ => match parent_text(full) {
            Some(up) => (StateView::Anchoring { root, full }, StepView::Canonicalize(up)),
            None => failed("path has no parent directory"@, None),
        },
    }
}

/// What follows from an answer of the file system.
pub open spec fn advanced(request: RequestView, state: StateView, event: EventView) -> (
    StateView,
    StepView,
) {
    match (state, event, request.label) {
        (StateView::Creating, EventView::Created(Err(e)), None) => failed(
            "creating local root "@ + request.root,
            Some(e),
        ),
        (StateView::Creating, EventView::Created(Err(e)), Some(_)) => failed(
            "creating sandbox root "@ + request.root,
            Some(e),
        ),
        (StateView::Creating, EventView::Created(Ok(_)), None) => {
            let full = joined_path(request.root, request.path);
            if request.need is Existing {
                (StateView::Settling { root: request.root }, StepView::Canonicalize(full))
            } else {
                (StateView::Over, StepView::Done(full))
            }
        },
        (StateView::Creating, EventView::Created(Ok(_)), Some(_)) => (
            StateView::Rooting,
            StepView::Canonicalize(request.root),
        ),
        (StateView::Rooting, EventView::Canonical(Err(e)), _) => failed(
            "canonicalizing sandbox root "@ + request.root,
            Some(e),
        ),
        (StateView::Rooting, EventView::Canonical(Ok(root)), Some(label)) => entered(
            request,
            root,
            label,
        ),
        (StateView::Probing { root, full }, EventView::Found(true), _) => (
            StateView::Settling { root },
            StepView::Canonicalize(full),
        ),
        (StateView::Probing { root, full }, EventView::Found(false), _) => above(
            request.need,
            root,
            full,
        ),
        (StateView::Settling { .. }, EventView::Canonical(Err(e)), None) => failed(
            "canonicalizing local path "@ + request.path,
            Some(e),
        ),
        (StateView::Settling { .. }, EventView::Canonical(Ok(p)), None) => (
            StateView::Over,
            StepView::Done(p),
        ),
        (StateView::Settling { .. }, EventView::Canonical(Err(e)), Some(_)) => failed(
            "canonicalizing sandbox path "@ + request.path,
            Some(e),
        ),
        (StateView::Settling { root }, EventView::Canonical(Ok(p)), Some(_)) => if lies_under(
            root,
            p,
        ) {
            (StateView::Over, StepView::Done(p))
        } else {
            failed("path escapes sandbox root"@, None)
        },
        (StateView::Climbing { root, full, current }, EventView::Found(found), _) => match (
            found,
            parent_text(current),
        ) {
            (false, Some(up)) => (
                StateView::Climbing { root, full, current: up },
                StepView::Exists(up),
            ),
            _ => (StateView::Anchoring { root, full }, StepView::Canonicalize(current)),
        },
        (StateView::Anchoring { .. }, EventView::Canonical(Err(e)), _) => failed(
            "canonicalizing parent for sandbox path "@ + request.path,
            Some(e),
        ),
        (StateView::Anchoring { root, full }, EventView::Canonical(Ok(up)), _) => if lies_under(
            root,
            up,
        ) {
            (StateView::Over, StepView::Done(full))
        } else {
            failed("path escapes sandbox root"@, None)
        },
        _ => (state, StepView::CreateDir(request.root)),
    }
}

fn fail(message: &str, cause: Option<String>) -> (r: (PathState, PathStep))
    ensures
        (r.0@, r.1@) == failed(message@, option_text(cause)),
{
    (PathState::Over, PathStep::Failed(SandboxError { message: message.to_owned(), cause }))
}

fn fail_at(message: &str, place: &str, cause: String) -> (r: (PathState, PathStep))
    ensures
        (r.0@, r.1@) == failed(message@ + place@, Some(cause@)),
{
    let mut m = message.to_owned();
    m.push_str(place);
    (PathState::Over, PathStep::Failed(SandboxError { message: m, cause: Some(cause) }))
}

impl PathRequest {
    /// What is asked first.
    pub fn start(&self) -> (r: (PathState, PathStep))
        ensures
            r.0@ is Creating,
            r.1@ == StepView::CreateDir(self@.root),
    {
        (PathState::Creating, PathStep::CreateDir(self.root.clone()))
    }

    fn enter(&self, root: String, label: &str) -> (r: (PathState, PathStep))
        ensures
            (r.0@, r.1@) == entered(self@, root@, label@),
    {
        match clean_workspace_path(&self.path, label) {
            Err(e) => (PathState::Over, PathStep::Failed(e)),
            Ok(relative) => {
                let full = join_path(&root, &relative);
                match self.need {
                    PathNeed::Existing => (
                        PathState::Settling { root },
                        PathStep::Canonicalize(full),
                    ),
                    PathNeed::File => if str_eq(&relative, ".") {
                        fail("path must refer to a file", None)
                    } else {
                        (PathState::Probing { root, full: full.clone() }, PathStep::Probe(full))
                    },
                    PathNeed::Dir { .. } => (
                        PathState::Probing { root, full: full.clone() },
                        PathStep::Probe(full),
                    ),
                }
            },
        }
    }

    fn look_above(&self, root: String, full: String) -> (r: (PathState, PathStep))
        ensures
            (r.0@, r.1@) == above(self@.need, root@, full@),
    {
        if let PathNeed::Dir { recursive: true } = self.need {
            return (
                PathState::Climbing { root, full: full.clone(), current: full.clone() },
                PathStep::Exists(full),
            );
        }
        match parent(&full) {
            Some(up) => (PathState::Anchoring { root, full }, PathStep::Canonicalize(up)),
            None => fail("path has no parent directory", None),
        }
    }

    fn after_creating(&self, made: Result<(), String>) -> (r: (PathState, PathStep))
        ensures
            (r.0@, r.1@) == advanced(self@, StateView::Creating, PathEvent::Created(made)@),
    {
        match (made, &self.label) {
            (Err(e), None) => fail_at("creating local root ", &self.root, e),
            (Err(e), Some(_)) => fail_at("creating sandbox root ", &self.root, e),
            (Ok(_), None) => {
                let full = join_path(&self.root, &self.path);
                match self.need {
                    PathNeed::Existing => (
                        PathState::Settling { root: self.root.clone() },
                        PathStep::Canonicalize(full),
                    ),
                    _ => (PathState::Over, PathStep::Done(full)),
                }
            },
            (Ok(_), Some(_)) => (PathState::Rooting, PathStep::Canonicalize(self.root.clone())),
        }
    }

    fn after_settling(&self, root: String, place: Result<String, String>) -> (r: (
        PathState,
        PathStep,
    ))
        ensures
            (r.0@, r.1@) == advanced(
                self@,
                StateView::Settling { root: root@ },
                PathEvent::Canonical(place)@,
            ),
    {
        match (place, &self.label) {
            (Err(e), None) => fail_at("canonicalizing local path ", &self.path, e),
            (Ok(p), None) => (PathState::Over, PathStep::Done(p)),
            (Err(e), Some(_)) => fail_at("canonicalizing sandbox path ", &self.path, e),
            (Ok(p), Some(_)) => if is_under(&root, &p) {
                (PathState::Over, PathStep::Done(p))
            } else {
                fail("path escapes sandbox root", None)
            },
        }
    }

    fn after_anchoring(&self, root: String, full: String, place: Result<String, String>) -> (r: (
        PathState,
        PathStep,
    ))
        ensures
            (r.0@, r.1@) == advanced(
                self@,
                StateView::Anchoring { root: root@, full: full@ },
                PathEvent::Canonical(place)@,
            ),
    {
        match place {
            Err(e) => fail_at("canonicalizing parent for sandbox path ", &self.path, e),
            Ok(up) => if is_under(&root, &up) {
                (PathState::Over, PathStep::Done(full))
            } else {
                fail("path escapes sandbox root", None)
            },
        }
    }

    /// What follows from an answer of the file system.
    pub fn advance(&self, state: PathState, event: PathEvent) -> (r: (PathState, PathStep))
        requires
            answers(state@, event@),
            state@ is Rooting ==> self@.label is Some,
        ensures
            (r.0@, r.1@) == advanced(self@, state@, event@),
    {
        match (state, event) {
            (PathState::Creating, PathEvent::Created(made)) => self.after_creating(made),
            (PathState::Rooting, PathEvent::Canonical(Err(e))) => fail_at(
                "canonicalizing sandbox root ",
                &self.root,
                e,
            ),
            (PathState::Rooting, PathEvent::Canonical(Ok(root))) => match &self.label {
                Some(label) => self.enter(root, label),
                None => (PathState::Rooting, PathStep::CreateDir(self.root.clone())),
            },
            (PathState::Probing { root, full }, PathEvent::Found(found)) => if found {
                (PathState::Settling { root }, PathStep::Canonicalize(full))
            } else {
                self.look_above(root, full)
            },
            (PathState::Settling { root }, PathEvent::Canonical(place)) => self.after_settling(
                root,
                place,
            ),
            (PathState::Climbing { root, full, current }, PathEvent::Found(found)) => {
                if !found {
                    if let Some(up) = parent(&current) {
                        return (
                            PathState::Climbing { root, full, current: up.clone() },
                            PathStep::Exists(up),
                        );
                    }
                }
                (PathState::Anchoring { root, full }, PathStep::Canonicalize(current))
            },
            (PathState::Anchoring { root, full }, PathEvent::Canonical(place)) => {
                self.after_anchoring(root, full, place)
            },
            (state, _) => (state, PathStep::CreateDir(self.root.clone())),
        }
    }
}

// ------------------------------------------------------------------------ laws

/// A directory as the file system gives it when its links were followed.
pub open spec fn proper_root(root: Seq<char>) -> bool {
    root == "/"@ || (root.len() > 0 && root.last() != '/')
}

/// What the search keeps: the path it is after lies under the root.
pub open spec fn on_track(state: StateView) -> bool {
    match state {
        StateView::Probing { root, full } => lies_under(root, full),
        StateView::Climbing { root, full, .. } => lies_under(root, full),
        StateView::Anchoring { root, full } => lies_under(root, full),
        _ => true,
    }
}

proof fn lemma_pieces_plain(s: Seq<char>)
    ensures
        forall|i: int| 0 <= i < pieces(s, '/').len() ==> !(#[trigger] pieces(s, '/')[i]).contains('/'),
    decreases s.len(),
{
    if s.contains('/') {
        let at = s.index_of_first('/')->0;
        s.index_of_first_ensures('/');
        lemma_pieces_plain(s.skip(at + 1));
        let rest = pieces(s.skip(at + 1), '/');
        assert forall|i: int| 0 <= i < pieces(s, '/').len() implies !(#[trigger] pieces(
            s,
            '/',
        )[i]).contains('/') by {
            if i > 0 {
                assert(pieces(s, '/')[i] == rest[i - 1]);
            } else {
                assert(pieces(s, '/')[0] =~= s.take(at));
                if s.take(at).contains('/') {
                    let k = choose|k: int| 0 <= k < at && s.take(at)[k] == '/';
                    assert(s[k] == '/');
                }
            }
        }
    }
}

proof fn lemma_kept_plain(ps: Seq<Seq<char>>)
    requires
        forall|i: int| 0 <= i < ps.len() ==> !(#[trigger] ps[i]).contains('/'),
    ensures
        forall|i: int|
            0 <= i < kept_parts(ps).len() ==> {
                &&& !(#[trigger] kept_parts(ps)[i]).contains('/')
                &&& kept_parts(ps)[i].len() > 0
            },
    decreases ps.len(),
{
    if ps.len() > 0 {
        let head = ps.drop_last();
        assert forall|i: int| 0 <= i < head.len() implies !(#[trigger] head[i]).contains('/') by {
            assert(head[i] == ps[i]);
        }
        lemma_kept_plain(head);
        assert(!ps[ps.len() - 1].contains('/'));
        let kept = kept_parts(ps);
        assert forall|i: int| 0 <= i < kept.len() implies !(#[trigger] kept[i]).contains('/')
            && kept[i].len() > 0 by {
            if i < kept_parts(head).len() {
                assert(kept[i] == kept_parts(head)[i]);
            }
        }
    }
}

proof fn lemma_named_plain(parts: Seq<Seq<char>>)
    requires
        !parts.contains(".."@),
        forall|i: int|
            0 <= i < parts.len() ==> !(#[trigger] parts[i]).contains('/') && parts[i].len() > 0,
    ensures
        forall|i: int| 0 <= i < named_parts(parts).len() ==> plain_part(#[trigger] named_parts(parts)[i]),
    decreases parts.len(),
{
    if parts.len() > 0 {
        let head = parts.drop_last();
        assert forall|i: int| 0 <= i < head.len() implies !(#[trigger] head[i]).contains('/')
            && head[i].len() > 0 by {
            assert(head[i] == parts[i]);
        }
        assert(!head.contains(".."@)) by {
            if head.contains(".."@) {
                let k = choose|k: int| 0 <= k < head.len() && head[k] == ".."@;
                assert(parts[k] == ".."@);
            }
        }
        lemma_named_plain(head);
        assert(parts[parts.len() - 1] != ".."@);
        assert(!parts[parts.len() - 1].contains('/'));
        let named = named_parts(parts);
        assert forall|i: int| 0 <= i < named.len() implies plain_part(#[trigger] named[i]) by {
            if i < named_parts(head).len() {
                assert(named[i] == named_parts(head)[i]);
            }
        }
    }
}

/// A path that is accepted leads to a place under the root, wherever the
/// workspace is.
pub proof fn accepted_paths_stay_inside(path: Seq<char>, label: Seq<char>, root: Seq<char>)
    requires
        cleaned(path, label) is Ok,
        proper_root(root),
    ensures
        lies_under(root, joined_path(root, cleaned(path, label)->Ok_0)),
{
    reveal_strlit("/");
    reveal_strlit(".");
    reveal_strlit("..");
    let relative = cleaned(path, label)->Ok_0;
    lemma_pieces_plain(path);
    lemma_kept_plain(pieces(path, '/'));
    let parts = if absolute(path) {
        parts_under(label, path)->0
    } else {
        path_parts(path)
    };
    assert forall|i: int| 0 <= i < parts.len() implies !(#[trigger] parts[i]).contains('/')
        && parts[i].len() > 0 by {
        if absolute(path) {
            assert(parts[i] == path_parts(path)[i + path_parts(label).len()]);
        }
    }
    lemma_named_plain(parts);
    if root == "/"@ {
        lemma_root_has_no_parts();
        let whole = joined_path(root, relative);
        assert(absolute(whole)) by {
            if !absolute(relative) {
                assert("/"@ =~= whole.take(1));
            }
        }
        assert(absolute(root));
        assert(path_parts(root).is_prefix_of(path_parts(whole)));
    } else if named_parts(parts).len() == 0 {
        assert(!absolute("."@)) by {
            if absolute("."@) {
                assert("."@.subrange(0, 1)[0] == "/"@[0]);
                assert("."@[0] == '.');
            }
        }
        assert(pieces("."@, '/') =~= seq!["."@]) by {
            assert(!"."@.contains('/')) by {
                assert("."@[0] == '.');
            }
        }
        assert(seq!["."@].drop_last() =~= Seq::empty());
        assert(kept_parts(Seq::<Seq<char>>::empty()) =~= Seq::empty());
        assert(path_parts("."@) =~= seq!["."@]);
        assert(!path_parts("."@).contains(".."@)) by {
            assert("."@.len() != ".."@.len());
        }
        joined_paths_stay_under(root, "."@);
    } else {
        plain_parts_stay_under(root, named_parts(parts));
    }
}

proof fn lemma_root_has_no_parts()
    ensures
        path_parts("/"@).len() == 0,
{
    reveal_strlit("/");
    let s = "/"@;
    assert(s.contains('/')) by {
        assert(s[0] == '/');
    }
    s.index_of_first_ensures('/');
    assert(s.index_of_first('/') == Some(0int));
    let rest = s.skip(1);
    assert(rest.len() == 0);
    assert(!rest.contains('/'));
    assert(pieces(rest, '/').len() == 1 && pieces(rest, '/')[0].len() == 0);
    let ps = pieces(s, '/');
    assert(ps.len() == 2);
    assert(ps[0].len() == 0 && ps[1].len() == 0);
    assert(ps.drop_last().drop_last() =~= Seq::empty());
    assert(kept_parts(ps.drop_last().drop_last()).len() == 0);
    assert(kept_parts(ps.drop_last()).len() == 0);
}

/// The search stays on track, and what it finds in a workspace lies under the
/// workspace's root, whatever the file system answers.
pub proof fn found_paths_stay_inside(request: RequestView, state: StateView, event: EventView)
    requires
        request.label is Some,
        answers(state, event),
        on_track(state),
        state is Rooting && event->Canonical_0 is Ok ==> proper_root(event->Canonical_0->Ok_0),
    ensures
        on_track(advanced(request, state, event).0),
        match (state, advanced(request, state, event).1) {
            (StateView::Settling { root }, StepView::Done(p)) => lies_under(root, p),
            (StateView::Anchoring { root, .. }, StepView::Done(p)) => lies_under(root, p),
            (_, StepView::Done(_)) => false,
            _ => true,
        },
{
    if state is Rooting && event->Canonical_0 is Ok {
        let root = event->Canonical_0->Ok_0;
        let label = request.label->0;
        if cleaned(request.path, label) is Ok {
            accepted_paths_stay_inside(request.path, label, root);
        }
    }
}

// -------------------------------------------------------------------- what is found

/// The parts of a path that count are all but those that stay where they are.
pub proof fn parts_that_count(parts: Seq<Seq<char>>)
    ensures
        named_parts(parts) == parts.filter(|p: Seq<char>| p != "."@),
    decreases parts.len(),
{
    let counts = |p: Seq<char>| p != "."@;
    if parts.len() > 0 {
        parts_that_count(parts.drop_last());
        lemma_filter_last(parts, counts);
    } else {
        lemma_filter_none(parts, counts);
        assert(named_parts(parts) =~= parts.filter(counts));
    }
}

/// A path that leads upwards is refused; any other relative one is taken, and so is
/// an absolute one that lies in the workspace.
pub proof fn which_paths_are_taken(path: Seq<char>, label: Seq<char>)
    ensures
        !absolute(path) ==> (cleaned(path, label) is Ok <==> !path_parts(path).contains(".."@)),
        absolute(path) && label.len() == 0 ==> cleaned(path, label) is Err,
        absolute(path) && label.len() > 0 ==> (cleaned(path, label) is Ok <==> parts_under(
            label,
            path,
        ) is Some && !parts_under(label, path)->0.contains(".."@)),
{
}

/// What is there is found where its links lead, and only inside the root; what is to
/// be made is taken as asked for, where the directory above it lies inside.
pub proof fn paths_are_found_where_they_lead(
    request: RequestView,
    root: Seq<char>,
    full: Seq<char>,
    p: Seq<char>,
)
    requires
        request.label is Some,
    ensures
        advanced(request, StateView::Settling { root }, EventView::Canonical(Ok(p))).1 == (
        if lies_under(root, p) {
            StepView::Done(p)
        } else {
            StepView::Failed(
                SandboxErrorView { message: "path escapes sandbox root"@, cause: None },
            )
        }),
        advanced(request, StateView::Anchoring { root, full }, EventView::Canonical(Ok(p))).1 == (
        if lies_under(root, p) {
            StepView::Done(full)
        } else {
            StepView::Failed(
                SandboxErrorView { message: "path escapes sandbox root"@, cause: None },
            )
        }),
        advanced(request, StateView::Probing { root, full }, EventView::Found(true)).1
            == StepView::Canonicalize(full),
        request.need is File ==> (match parent_text(full) {
            Some(up) => advanced(
                request,
                StateView::Probing { root, full },
                EventView::Found(false),
            ).1 == StepView::Canonicalize(up),
            None => advanced(
                request,
                StateView::Probing { root, full },
                EventView::Found(false),
            ).1 is Failed,
        }),
{
}

/// A path in the workspace is looked for below the root as its links lead.
pub proof fn paths_are_looked_for_below_the_root(request: RequestView, root: Seq<char>)
    requires
        request.label is Some,
    ensures
        ({
            let step = advanced(request, StateView::Rooting, EventView::Canonical(Ok(root))).1;
            match cleaned(request.path, request.label->0) {
                Ok(relative) => {
                    &&& request.need is Existing ==> step == StepView::Canonicalize(
                        joined_path(root, relative),
                    )
                    &&& request.need is File && relative != "."@ ==> step == StepView::Probe(
                        joined_path(root, relative),
                    )
                    &&& request.need is File && relative == "."@ ==> step is Failed
                    &&& request.need is Dir ==> step == StepView::Probe(
                        joined_path(root, relative),
                    )
                },
                Err(e) => step == StepView::Failed(e),
            }
        }),
        advanced(request, StateView::Creating, EventView::Created(Ok(()))).1
            == StepView::Canonicalize(request.root),
{
}

} // verus!
